//! Tools that let coding agents reach the shell: the decisions behind the
//! sandbox launcher, the workspace launcher and the host-side command daemon.

pub mod client;
pub mod daemon;
pub mod launch;
pub mod path;
pub mod sandbox;
pub mod search;
pub mod status;
pub mod text;
pub mod wire;
pub mod workspace;
