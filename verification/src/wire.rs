//! Wire protocol for pktexec.
//!
//! Messages are serialized with postcard over a SOCK_SEQPACKET Unix socket.
//! Each sendmsg/recvmsg is one complete message; no framing is needed.

use vstd::prelude::*;
use vstd::utf8::{encode_utf8, encode_utf8_decode_utf8};

verus! {

/// Messages sent from the client to the server.
#[derive(Debug, PartialEq)]
pub enum ClientMessage {
    /// First message on a connection. The three stdio file descriptors are
    /// attached via SCM_RIGHTS ancillary data alongside this message.
    ExecRequest { argv: Vec<String>, working_dir: String },
    /// Forwarded signal (SIGTERM, SIGINT, SIGQUIT). May be sent zero or more
    /// times while the command is running.
    TermSignal { signo: i32 },
}

/// Messages sent from the server to the client.
#[derive(Debug, PartialEq)]
pub enum ServerMessage {
    /// Sent exactly once in response to ExecRequest.
    FilterResult { allowed: bool, reason: String },
    /// Sent exactly once after the command terminates (only if allowed).
    Exit { code: i32 },
}

/// What a [`ClientMessage`] says, with its strings as sequences of characters.
#[verifier::ext_equal]
pub enum ClientMessageView {
    ExecRequest { argv: Seq<Seq<char>>, working_dir: Seq<char> },
    TermSignal { signo: i32 },
}

/// What a [`ServerMessage`] says, with its strings as sequences of characters.
#[verifier::ext_equal]
pub enum ServerMessageView {
    FilterResult { allowed: bool, reason: Seq<char> },
    Exit { code: i32 },
}

/// The characters of each string of a list.
pub open spec fn texts(strings: Seq<String>) -> Seq<Seq<char>> {
    Seq::new(strings.len(), |i: int| strings[i]@)
}

impl View for ClientMessage {
    type V = ClientMessageView;

    open spec fn view(&self) -> ClientMessageView {
        match self {
            ClientMessage::ExecRequest { argv, working_dir } => ClientMessageView::ExecRequest {
                argv: texts(argv@),
                working_dir: working_dir@,
            },
            ClientMessage::TermSignal { signo } => ClientMessageView::TermSignal { signo: *signo },
        }
    }
}

impl View for ServerMessage {
    type V = ServerMessageView;

    open spec fn view(&self) -> ServerMessageView {
        match self {
            ServerMessage::FilterResult { allowed, reason } => ServerMessageView::FilterResult {
                allowed: *allowed,
                reason: reason@,
            },
            ServerMessage::Exit { code } => ServerMessageView::Exit { code: *code },
        }
    }
}

// ---------------------------------------------------------------------------
// The bytes of a message
// ---------------------------------------------------------------------------

/// A number in groups of seven bits, the lowest first; every byte but the last
/// has its top bit set.
pub open spec fn varint(n: nat) -> Seq<u8>
    decreases n,
{
    if n < 128 {
        seq![n as u8]
    } else {
        seq![(n % 128 + 128) as u8] + varint(n / 128)
    }
}

/// Folds the signed numbers onto the natural ones: 0, -1, 1, -2, 2, ...
pub open spec fn zigzag(n: int) -> nat {
    if n >= 0 {
        (2 * n) as nat
    } else {
        (-2 * n - 1) as nat
    }
}

/// A string: its length in bytes, then its UTF-8 bytes.
pub open spec fn text_packet(s: Seq<char>) -> Seq<u8> {
    varint(encode_utf8(s).len()) + encode_utf8(s)
}

/// Strings one after the other.
pub open spec fn text_packets(v: Seq<Seq<char>>) -> Seq<u8>
    decreases v.len(),
{
    if v.len() == 0 {
        seq![]
    } else {
        text_packet(v[0]) + text_packets(v.drop_first())
    }
}

/// The body of a client message in plain values: a request's argv and working
/// directory, or a signal's number.
pub type ClientBody = Result<(Vec<String>, String), i32>;

/// The body of a server message in plain values: a verdict and its reason, or
/// an exit code.
pub type ServerBody = Result<(bool, String), i32>;

/// A [`ClientBody`] whose strings are borrowed.
pub type ClientParts<'a> = Result<(&'a Vec<String>, &'a String), i32>;

/// A [`ServerBody`] whose string is borrowed.
pub type ServerParts<'a> = Result<(bool, &'a String), i32>;

/// The packet of a client message body: the variant's index, then its fields.
pub open spec fn client_packet(body: Result<(Seq<Seq<char>>, Seq<char>), i32>) -> Seq<u8> {
    match body {
        Ok((argv, dir)) => varint(0) + varint(argv.len()) + text_packets(argv) + text_packet(dir),
        Err(signo) => varint(1) + varint(zigzag(signo as int)),
    }
}

/// The packet of a server message body: the variant's index, then its fields.
pub open spec fn server_packet(body: Result<(bool, Seq<char>), i32>) -> Seq<u8> {
    match body {
        Ok((allowed, reason)) => varint(0) + seq![if allowed { 1u8 } else { 0u8 }] + text_packet(
            reason,
        ),
        Err(code) => varint(1) + varint(zigzag(code as int)),
    }
}

/// What `postcard::from_bytes` makes of bytes as a [`ClientBody`]: the body, or
/// the error with which it refuses them.
pub uninterp spec fn postcard_client(bytes: Seq<u8>) -> Result<
    Result<(Seq<Seq<char>>, Seq<char>), i32>,
    postcard::Error,
>;

/// What `postcard::from_bytes` makes of bytes as a [`ServerBody`]: the body, or
/// the error with which it refuses them.
pub uninterp spec fn postcard_server(bytes: Seq<u8>) -> Result<
    Result<(bool, Seq<char>), i32>,
    postcard::Error,
>;

pub open spec fn client_body_view(body: ClientBody) -> Result<(Seq<Seq<char>>, Seq<char>), i32> {
    match body {
        Ok((argv, dir)) => Ok((texts(argv@), dir@)),
        Err(signo) => Err(signo),
    }
}

pub open spec fn client_parts_view(body: ClientParts) -> Result<
    (Seq<Seq<char>>, Seq<char>),
    i32,
> {
    match body {
        Ok((argv, dir)) => Ok((texts(argv@), dir@)),
        Err(signo) => Err(signo),
    }
}

pub open spec fn server_parts_view(body: ServerParts) -> Result<
    (bool, Seq<char>),
    i32,
> {
    match body {
        Ok((allowed, reason)) => Ok((allowed, reason@)),
        Err(code) => Err(code),
    }
}

pub open spec fn server_body_view(body: ServerBody) -> Result<(bool, Seq<char>), i32> {
    match body {
        Ok((allowed, reason)) => Ok((allowed, reason@)),
        Err(code) => Err(code),
    }
}

pub open spec fn client_read_view(res: Result<ClientBody, postcard::Error>) -> Result<
    Result<(Seq<Seq<char>>, Seq<char>), i32>,
    postcard::Error,
> {
    match res {
        Ok(body) => Ok(client_body_view(body)),
        Err(e) => Err(e),
    }
}

pub open spec fn server_read_view(res: Result<ServerBody, postcard::Error>) -> Result<
    Result<(bool, Seq<char>), i32>,
    postcard::Error,
> {
    match res {
        Ok(body) => Ok(server_body_view(body)),
        Err(e) => Err(e),
    }
}

/// postcard's error type.
#[verifier::external_type_specification]
#[verifier::external_body]
pub struct ExPostcardError(postcard::Error);

/// Serializes the body of a client message.
///
/// Calls `postcard::to_allocvec`. The contract claims that it never fails on
/// these types, whose lengths are known and whose output grows on the heap,
/// and gives the bytes: an enum as the index of its variant and then its
/// fields, numbers as varints (signed ones zigzagged), strings and sequences
/// after their length.
#[verifier::external_body]
fn postcard_from_client(body: &ClientParts) -> (res: Result<Vec<u8>, postcard::Error>)
    ensures
        res is Ok,
        res->Ok_0@ == client_packet(client_parts_view(*body)),
{
    postcard::to_allocvec(body)
}

/// Serializes the body of a server message.
///
/// Calls `postcard::to_allocvec`, of which the contract claims what that of
/// `postcard_from_client` does; a `bool` is one byte, 0 or 1.
#[verifier::external_body]
fn postcard_from_server(body: &ServerParts) -> (res: Result<Vec<u8>, postcard::Error>)
    ensures
        res is Ok,
        res->Ok_0@ == server_packet(server_parts_view(*body)),
{
    postcard::to_allocvec(body)
}

/// Deserializes the body of a client message.
///
/// Calls `postcard::from_bytes`. The contract names its result, the error
/// included, and claims three things more: bytes that begin with the packet of a body give that
/// body back, whatever follows; a packet cut short is refused; and the first
/// byte, where it is below 128, is the index of the variant, so that an index
/// other than 0 and 1 is refused.
#[verifier::external_body]
fn postcard_to_client(buf: &[u8]) -> (res: Result<ClientBody, postcard::Error>)
    ensures
        client_read_view(res) == postcard_client(buf@),
        forall|body|
            (#[trigger] client_packet(body)).is_prefix_of(buf@) ==> res is Ok && client_body_view(
                res->Ok_0,
            ) == body,
        forall|body|
            buf@.is_prefix_of(#[trigger] client_packet(body)) && buf@.len() < client_packet(
                body,
            ).len() ==> res is Err,
        res matches Ok(body) ==> (buf@[0] < 128 ==> buf@[0] == (if body is Ok { 0u8 } else { 1u8 })),
{
    postcard::from_bytes(buf)
}

/// Deserializes the body of a server message.
///
/// Calls `postcard::from_bytes`, of which the contract claims what that of
/// `postcard_to_client` does.
#[verifier::external_body]
fn postcard_to_server(buf: &[u8]) -> (res: Result<ServerBody, postcard::Error>)
    ensures
        server_read_view(res) == postcard_server(buf@),
        forall|body|
            (#[trigger] server_packet(body)).is_prefix_of(buf@) ==> res is Ok && server_body_view(
                res->Ok_0,
            ) == body,
        forall|body|
            buf@.is_prefix_of(#[trigger] server_packet(body)) && buf@.len() < server_packet(
                body,
            ).len() ==> res is Err,
        res matches Ok(body) ==> (buf@[0] < 128 ==> buf@[0] == (if body is Ok { 0u8 } else { 1u8 })),
{
    postcard::from_bytes(buf)
}

// ---------------------------------------------------------------------------
// Encoding and decoding
// ---------------------------------------------------------------------------

/// Why a message could not be encoded or decoded.
#[derive(Debug)]
pub struct WireError {
    /// postcard's own account of the failure.
    pub source: postcard::Error,
}

/// A message of the protocol.
pub trait WireMessage: View + Sized {
    /// The packet that carries a message.
    spec fn packet(message: Self::V) -> Seq<u8>;

    /// The message that a packet is read as, or postcard's account of why it is
    /// refused.
    spec fn parsed(bytes: Seq<u8>) -> Result<Self::V, postcard::Error>;

    /// The packet's first byte, the index of the message's variant.
    spec fn variant(message: Self::V) -> u8;

    fn to_packet(&self) -> (res: Result<Vec<u8>, postcard::Error>)
        ensures
            res matches Ok(bytes) && bytes@ == Self::packet(self@),
    ;

    fn from_packet(buf: &[u8]) -> (res: Result<Self, postcard::Error>)
        ensures
            match res {
                Ok(message) => Self::parsed(buf@) == Ok::<Self::V, postcard::Error>(message@),
                Err(e) => Self::parsed(buf@) == Err::<Self::V, postcard::Error>(e),
            },
            forall|message: Self::V|
                (#[trigger] Self::packet(message)).is_prefix_of(buf@) ==> res is Ok
                    && res->Ok_0@ == message,
            forall|message: Self::V|
                buf@.is_prefix_of(#[trigger] Self::packet(message)) && buf@.len() < Self::packet(
                    message,
                ).len() ==> res is Err,
            buf@.len() == 0 ==> res is Err,
            2 <= buf@[0] < 128 ==> res is Err,
            res matches Ok(message) ==> (buf@[0] < 128 ==> buf@[0] == Self::variant(message@)),
    ;
}

/// Bytes that begin like a packet, but end before it does.
pub open spec fn cut_short<T: WireMessage>(bytes: Seq<u8>) -> bool {
    exists|message: T::V|
        bytes.is_prefix_of(#[trigger] T::packet(message)) && bytes.len() < T::packet(message).len()
}

/// Bytes that no message is read from: none at all, a packet cut short, or the
/// index of a variant that there is not.
pub open spec fn unreadable<T: WireMessage>(bytes: Seq<u8>) -> bool {
    ||| bytes.len() == 0
    ||| cut_short::<T>(bytes)
    ||| 2 <= bytes[0] < 128
}

pub open spec fn client_body(message: ClientMessageView) -> Result<
    (Seq<Seq<char>>, Seq<char>),
    i32,
> {
    match message {
        ClientMessageView::ExecRequest { argv, working_dir } => Ok((argv, working_dir)),
        ClientMessageView::TermSignal { signo } => Err(signo),
    }
}

pub open spec fn client_message(body: Result<(Seq<Seq<char>>, Seq<char>), i32>) -> ClientMessageView {
    match body {
        Ok((argv, working_dir)) => ClientMessageView::ExecRequest { argv, working_dir },
        Err(signo) => ClientMessageView::TermSignal { signo },
    }
}

pub open spec fn server_body(message: ServerMessageView) -> Result<(bool, Seq<char>), i32> {
    match message {
        ServerMessageView::FilterResult { allowed, reason } => Ok((allowed, reason)),
        ServerMessageView::Exit { code } => Err(code),
    }
}

pub open spec fn server_message(body: Result<(bool, Seq<char>), i32>) -> ServerMessageView {
    match body {
        Ok((allowed, reason)) => ServerMessageView::FilterResult { allowed, reason },
        Err(code) => ServerMessageView::Exit { code },
    }
}

impl WireMessage for ClientMessage {
    open spec fn packet(message: ClientMessageView) -> Seq<u8> {
        client_packet(client_body(message))
    }

    open spec fn parsed(bytes: Seq<u8>) -> Result<ClientMessageView, postcard::Error> {
        match postcard_client(bytes) {
            Ok(body) => Ok(client_message(body)),
            Err(e) => Err(e),
        }
    }

    open spec fn variant(message: ClientMessageView) -> u8 {
        match message {
            ClientMessageView::ExecRequest { .. } => 0,
            ClientMessageView::TermSignal { .. } => 1,
        }
    }

    fn to_packet(&self) -> (res: Result<Vec<u8>, postcard::Error>) {
        match self {
            ClientMessage::ExecRequest { argv, working_dir } => postcard_from_client(
                &Ok((argv, working_dir)),
            ),
            ClientMessage::TermSignal { signo } => postcard_from_client(&Err(*signo)),
        }
    }

    fn from_packet(buf: &[u8]) -> (res: Result<Self, postcard::Error>) {
        proof {
            assert(client_packet(Err(0)).len() > 0);
        }
        match postcard_to_client(buf) {
            Ok(Ok((argv, working_dir))) => Ok(ClientMessage::ExecRequest { argv, working_dir }),
            Ok(Err(signo)) => Ok(ClientMessage::TermSignal { signo }),
            Err(e) => Err(e),
        }
    }
}

impl WireMessage for ServerMessage {
    open spec fn packet(message: ServerMessageView) -> Seq<u8> {
        server_packet(server_body(message))
    }

    open spec fn parsed(bytes: Seq<u8>) -> Result<ServerMessageView, postcard::Error> {
        match postcard_server(bytes) {
            Ok(body) => Ok(server_message(body)),
            Err(e) => Err(e),
        }
    }

    open spec fn variant(message: ServerMessageView) -> u8 {
        match message {
            ServerMessageView::FilterResult { .. } => 0,
            ServerMessageView::Exit { .. } => 1,
        }
    }

    fn to_packet(&self) -> (res: Result<Vec<u8>, postcard::Error>) {
        match self {
            ServerMessage::FilterResult { allowed, reason } => postcard_from_server(
                &Ok((*allowed, reason)),
            ),
            ServerMessage::Exit { code } => postcard_from_server(&Err(*code)),
        }
    }

    fn from_packet(buf: &[u8]) -> (res: Result<Self, postcard::Error>) {
        proof {
            assert(server_packet(Err(0)).len() > 0);
        }
        match postcard_to_server(buf) {
            Ok(Ok((allowed, reason))) => Ok(ServerMessage::FilterResult { allowed, reason }),
            Ok(Err(code)) => Ok(ServerMessage::Exit { code }),
            Err(e) => Err(e),
        }
    }
}

/// Serialize a message to bytes.
pub fn encode<T: WireMessage>(msg: &T) -> (res: Result<Vec<u8>, WireError>)
    ensures
        res matches Ok(bytes) && bytes@ == T::packet(msg@),
{
    match msg.to_packet() {
        Ok(bytes) => Ok(bytes),
        Err(source) => Err(WireError { source }),
    }
}

/// Deserialize a message from bytes.
///
/// What [`encode`] wrote is read back, whatever bytes follow it; cut short, it
/// is refused. The error is the one that postcard gives for these bytes.
pub fn decode<T: WireMessage>(buf: &[u8]) -> (res: Result<T, WireError>)
    ensures
        match res {
            Ok(message) => T::parsed(buf@) == Ok::<T::V, postcard::Error>(message@),
            Err(e) => T::parsed(buf@) == Err::<T::V, postcard::Error>(e.source),
        },
        forall|message: T::V|
            (#[trigger] T::packet(message)).is_prefix_of(buf@) ==> res is Ok && res->Ok_0@
                == message,
        unreadable::<T>(buf@) ==> res is Err,
        res matches Ok(message) ==> (buf@[0] < 128 ==> buf@[0] == T::variant(message@)),
{
    match T::from_packet(buf) {
        Ok(message) => Ok(message),
        Err(source) => Err(WireError { source }),
    }
}

// ---------------------------------------------------------------------------
// Laws
// ---------------------------------------------------------------------------

/// A number is read off the front of a byte sequence in one way only.
proof fn lemma_varint_front(m: nat, n: nat, x: Seq<u8>, y: Seq<u8>)
    requires
        varint(m) + x == varint(n) + y,
    ensures
        m == n,
        x == y,
    decreases m,
{
    let a = varint(m) + x;
    let b = varint(n) + y;
    assert(a[0] == b[0]);
    if m < 128 {
        assert(a[0] == m as u8);
        assert(n < 128);
        assert(x =~= a.skip(1));
        assert(y =~= b.skip(1));
    } else {
        assert(a[0] == (m % 128 + 128) as u8);
        assert(n >= 128);
        assert(a.skip(1) =~= varint(m / 128) + x);
        assert(b.skip(1) =~= varint(n / 128) + y);
        lemma_varint_front(m / 128, n / 128, x, y);
    }
}

/// A string is read off the front of a byte sequence in one way only.
proof fn lemma_text_front(s: Seq<char>, t: Seq<char>, x: Seq<u8>, y: Seq<u8>)
    requires
        text_packet(s) + x == text_packet(t) + y,
    ensures
        s == t,
        x == y,
{
    let a = encode_utf8(s);
    let b = encode_utf8(t);
    assert(text_packet(s) + x =~= varint(a.len()) + (a + x));
    assert(text_packet(t) + y =~= varint(b.len()) + (b + y));
    lemma_varint_front(a.len(), b.len(), a + x, b + y);
    assert(a =~= (a + x).take(a.len() as int));
    assert(b =~= (b + y).take(a.len() as int));
    assert(x =~= (a + x).skip(a.len() as int));
    assert(y =~= (b + y).skip(a.len() as int));
    encode_utf8_decode_utf8(s);
    encode_utf8_decode_utf8(t);
}

/// A list of strings of a given length is read off the front in one way only.
proof fn lemma_texts_front(v: Seq<Seq<char>>, w: Seq<Seq<char>>, x: Seq<u8>, y: Seq<u8>)
    requires
        v.len() == w.len(),
        text_packets(v) + x == text_packets(w) + y,
    ensures
        v == w,
        x == y,
    decreases v.len(),
{
    if v.len() == 0 {
        assert(v =~= w);
        assert(x =~= text_packets(v) + x);
        assert(y =~= text_packets(w) + y);
    } else {
        let p = text_packets(v.drop_first()) + x;
        let q = text_packets(w.drop_first()) + y;
        assert(text_packets(v) + x =~= text_packet(v[0]) + p);
        assert(text_packets(w) + y =~= text_packet(w[0]) + q);
        lemma_text_front(v[0], w[0], p, q);
        lemma_texts_front(v.drop_first(), w.drop_first(), x, y);
        assert(v =~= seq![v[0]] + v.drop_first());
        assert(w =~= seq![w[0]] + w.drop_first());
    }
}

/// A request's packet, and what follows it, field by field.
spec fn request_fields(argv: Seq<Seq<char>>, dir: Seq<char>, rest: Seq<u8>) -> Seq<u8> {
    varint(argv.len()) + (text_packets(argv) + (text_packet(dir) + rest))
}

proof fn lemma_request_packet(argv: Seq<Seq<char>>, dir: Seq<char>, rest: Seq<u8>)
    ensures
        client_packet(Ok((argv, dir))) + rest == varint(0) + request_fields(argv, dir, rest),
{
    assert(client_packet(Ok((argv, dir))) + rest =~= varint(0) + request_fields(argv, dir, rest));
}

proof fn lemma_signal_packet(signo: i32, rest: Seq<u8>)
    ensures
        client_packet(Err(signo)) + rest == varint(1) + (varint(zigzag(signo as int)) + rest),
{
    assert(client_packet(Err(signo)) + rest =~= varint(1) + (varint(zigzag(signo as int)) + rest));
}

/// A request is read off the front of a byte sequence in one way only.
proof fn lemma_request_front(
    a: Seq<Seq<char>>,
    a_dir: Seq<char>,
    b: Seq<Seq<char>>,
    b_dir: Seq<char>,
    x: Seq<u8>,
    y: Seq<u8>,
)
    requires
        request_fields(a, a_dir, x) == request_fields(b, b_dir, y),
    ensures
        a == b,
        a_dir == b_dir,
        x == y,
{
    let p = text_packet(a_dir) + x;
    let q = text_packet(b_dir) + y;
    lemma_varint_front(a.len(), b.len(), text_packets(a) + p, text_packets(b) + q);
    lemma_texts_front(a, b, p, q);
    lemma_text_front(a_dir, b_dir, x, y);
}

/// No client message's packet is the beginning of another's: packets that
/// agree, whatever follows them, carry the same message.
pub proof fn law_client_packets_are_distinct(
    a: ClientMessageView,
    b: ClientMessageView,
    x: Seq<u8>,
    y: Seq<u8>,
)
    requires
        ClientMessage::packet(a) + x == ClientMessage::packet(b) + y,
    ensures
        a == b,
        x == y,
{
    let p = match a {
        ClientMessageView::ExecRequest { argv, working_dir } => {
            lemma_request_packet(argv, working_dir, x);
            request_fields(argv, working_dir, x)
        },
        ClientMessageView::TermSignal { signo } => {
            lemma_signal_packet(signo, x);
            varint(zigzag(signo as int)) + x
        },
    };
    let q = match b {
        ClientMessageView::ExecRequest { argv, working_dir } => {
            lemma_request_packet(argv, working_dir, y);
            request_fields(argv, working_dir, y)
        },
        ClientMessageView::TermSignal { signo } => {
            lemma_signal_packet(signo, y);
            varint(zigzag(signo as int)) + y
        },
    };
    lemma_varint_front(
        if a is ExecRequest { 0 } else { 1 },
        if b is ExecRequest { 0 } else { 1 },
        p,
        q,
    );
    match (a, b) {
        (
            ClientMessageView::ExecRequest { argv, working_dir },
            ClientMessageView::ExecRequest { argv: argv2, working_dir: dir2 },
        ) => lemma_request_front(argv, working_dir, argv2, dir2, x, y),
        (
            ClientMessageView::TermSignal { signo },
            ClientMessageView::TermSignal { signo: signo2 },
        ) => lemma_varint_front(zigzag(signo as int), zigzag(signo2 as int), x, y),
        _ => {},
    }
}

/// A verdict's flag and reason, and what follows them.
spec fn verdict_fields(allowed: bool, reason: Seq<char>, rest: Seq<u8>) -> Seq<u8> {
    seq![if allowed { 1u8 } else { 0u8 }] + (text_packet(reason) + rest)
}

proof fn lemma_verdict_packet(allowed: bool, reason: Seq<char>, rest: Seq<u8>)
    ensures
        server_packet(Ok((allowed, reason))) + rest == varint(0) + verdict_fields(
            allowed,
            reason,
            rest,
        ),
{
    assert(server_packet(Ok((allowed, reason))) + rest =~= varint(0) + verdict_fields(
        allowed,
        reason,
        rest,
    ));
}

proof fn lemma_exit_packet(code: i32, rest: Seq<u8>)
    ensures
        server_packet(Err(code)) + rest == varint(1) + (varint(zigzag(code as int)) + rest),
{
    assert(server_packet(Err(code)) + rest =~= varint(1) + (varint(zigzag(code as int)) + rest));
}

/// A verdict is read off the front of a byte sequence in one way only.
proof fn lemma_verdict_front(
    a: bool,
    a_reason: Seq<char>,
    b: bool,
    b_reason: Seq<char>,
    x: Seq<u8>,
    y: Seq<u8>,
)
    requires
        verdict_fields(a, a_reason, x) == verdict_fields(b, b_reason, y),
    ensures
        a == b,
        a_reason == b_reason,
        x == y,
{
    let p = verdict_fields(a, a_reason, x);
    let q = verdict_fields(b, b_reason, y);
    assert(p[0] == q[0]);
    assert(p.skip(1) =~= text_packet(a_reason) + x);
    assert(q.skip(1) =~= text_packet(b_reason) + y);
    lemma_text_front(a_reason, b_reason, x, y);
}

/// No server message's packet is the beginning of another's: packets that
/// agree, whatever follows them, carry the same message.
pub proof fn law_server_packets_are_distinct(
    a: ServerMessageView,
    b: ServerMessageView,
    x: Seq<u8>,
    y: Seq<u8>,
)
    requires
        ServerMessage::packet(a) + x == ServerMessage::packet(b) + y,
    ensures
        a == b,
        x == y,
{
    let p = match a {
        ServerMessageView::FilterResult { allowed, reason } => {
            lemma_verdict_packet(allowed, reason, x);
            verdict_fields(allowed, reason, x)
        },
        ServerMessageView::Exit { code } => {
            lemma_exit_packet(code, x);
            varint(zigzag(code as int)) + x
        },
    };
    let q = match b {
        ServerMessageView::FilterResult { allowed, reason } => {
            lemma_verdict_packet(allowed, reason, y);
            verdict_fields(allowed, reason, y)
        },
        ServerMessageView::Exit { code } => {
            lemma_exit_packet(code, y);
            varint(zigzag(code as int)) + y
        },
    };
    lemma_varint_front(
        if a is FilterResult { 0 } else { 1 },
        if b is FilterResult { 0 } else { 1 },
        p,
        q,
    );
    match (a, b) {
        (
            ServerMessageView::FilterResult { allowed, reason },
            ServerMessageView::FilterResult { allowed: allowed2, reason: reason2 },
        ) => lemma_verdict_front(allowed, reason, allowed2, reason2, x, y),
        (ServerMessageView::Exit { code }, ServerMessageView::Exit { code: code2 }) => {
            lemma_varint_front(zigzag(code as int), zigzag(code2 as int), x, y)
        },
        _ => {},
    }
}

/// The number that groups of seven bits make, the lowest first.
pub open spec fn groups_value(bytes: Seq<u8>) -> nat
    decreases bytes.len(),
{
    if bytes.len() == 0 {
        0
    } else {
        (bytes[0] % 128) as nat + 128 * groups_value(bytes.drop_first())
    }
}

/// A number is written in groups of seven bits that make it again; all but the
/// last have the top bit set, and there is no group too many.
pub proof fn law_varint_reads_back(n: nat)
    ensures
        varint(n).len() > 0,
        groups_value(varint(n)) == n,
        varint(n).last() < 128,
        forall|i: int| 0 <= i < varint(n).len() - 1 ==> #[trigger] varint(n)[i] >= 128,
        varint(n).len() > 1 ==> varint(n).last() > 0,
    decreases n,
{
    if n < 128 {
        assert(varint(n).drop_first() =~= seq![]);
        reveal_with_fuel(groups_value, 2);
    } else {
        let rest = varint(n / 128);
        law_varint_reads_back(n / 128);
        assert(varint(n).drop_first() =~= rest);
        assert(varint(n).last() == rest.last());
        assert forall|i: int| 0 <= i < varint(n).len() - 1 implies #[trigger] varint(n)[i]
            >= 128 by {
            if i > 0 {
                assert(varint(n)[i] == rest[i - 1]);
            }
        }
        if rest.len() == 1 {
            assert(rest.last() == n / 128);
        }
    }
}

/// Numbers that are not negative are folded onto the even ones, the others onto
/// the odd ones.
pub proof fn law_zigzag(n: int)
    ensures
        n >= 0 ==> zigzag(n) == 2 * n,
        n < 0 ==> zigzag(n) == 2 * (-n) - 1,
{
}

/// A string's packet ends in its UTF-8 bytes, and says before how many there
/// are.
pub proof fn law_text_packet(s: Seq<char>)
    ensures
        ({
            let p = text_packet(s);
            let n = encode_utf8(s).len();
            let k = p.len() - n;
            &&& k > 0
            &&& p.skip(k) == encode_utf8(s)
            &&& groups_value(p.take(k)) == n
            &&& p.take(k) == varint(n)
            &&& p[k - 1] < 128
            &&& forall|i: int| 0 <= i < k - 1 ==> #[trigger] p[i] >= 128
        }),
{
    let p = text_packet(s);
    let utf8 = encode_utf8(s);
    law_varint_reads_back(utf8.len());
    let k = p.len() - utf8.len();
    assert(p.take(k) =~= varint(utf8.len()));
    assert(p.skip(k) =~= utf8);
    assert forall|i: int| 0 <= i < k - 1 implies #[trigger] p[i] >= 128 by {
        assert(p[i] == varint(utf8.len())[i]);
    }
}

/// Strings follow each other in order.
pub proof fn law_text_packets(v: Seq<Seq<char>>, s: Seq<char>)
    ensures
        text_packets(seq![]) == Seq::<u8>::empty(),
        text_packets(v.push(s)) == text_packets(v) + text_packet(s),
    decreases v.len(),
{
    if v.len() == 0 {
        reveal_with_fuel(text_packets, 2);
        assert(v.push(s).drop_first() =~= seq![]);
        assert(text_packets(v.push(s)) =~= text_packets(v) + text_packet(s));
    } else {
        law_text_packets(v.drop_first(), s);
        assert(v.push(s).drop_first() =~= v.drop_first().push(s));
        assert(text_packets(v.push(s)) =~= text_packets(v) + text_packet(s));
    }
}

/// A request's packet is a 0, the number of its arguments, the arguments, and
/// the working directory.
pub proof fn law_request_packet(argv: Seq<Seq<char>>, working_dir: Seq<char>)
    ensures
        ({
            let p = ClientMessage::packet((ClientMessageView::ExecRequest { argv, working_dir }));
            &&& p[0] == 0
            &&& p.skip(1) == varint(argv.len()) + text_packets(argv) + text_packet(working_dir)
        }),
{
    let p = ClientMessage::packet((ClientMessageView::ExecRequest { argv, working_dir }));
    assert(p.skip(1) =~= varint(argv.len()) + text_packets(argv) + text_packet(working_dir));
}

/// A signal's packet is a 1 and the signal's number, folded.
pub proof fn law_signal_packet(signo: i32)
    ensures
        ({
            let p = ClientMessage::packet((ClientMessageView::TermSignal { signo }));
            &&& p[0] == 1
            &&& p.skip(1) == varint(zigzag(signo as int))
            &&& p.last() < 128
            &&& groups_value(p.skip(1)) == (if signo >= 0 { 2 * signo } else { -2 * signo - 1 })
        }),
{
    let p = ClientMessage::packet((ClientMessageView::TermSignal { signo }));
    law_varint_reads_back(zigzag(signo as int));
    assert(p.skip(1) =~= varint(zigzag(signo as int)));
}

/// A verdict's packet is a 0, a 1 or a 0 for permission or denial, and the reason.
pub proof fn law_verdict_packet(allowed: bool, reason: Seq<char>)
    ensures
        ({
            let p = ServerMessage::packet((ServerMessageView::FilterResult { allowed, reason }));
            &&& p[0] == 0
            &&& p[1] == (if allowed { 1u8 } else { 0u8 })
            &&& p.skip(2) == text_packet(reason)
        }),
{
    let p = ServerMessage::packet((ServerMessageView::FilterResult { allowed, reason }));
    assert(p.skip(2) =~= text_packet(reason));
}

/// An exit's packet is a 1 and the exit code, folded.
pub proof fn law_exit_packet(code: i32)
    ensures
        ({
            let p = ServerMessage::packet((ServerMessageView::Exit { code }));
            &&& p[0] == 1
            &&& p.skip(1) == varint(zigzag(code as int))
            &&& p.last() < 128
            &&& groups_value(p.skip(1)) == (if code >= 0 { 2 * code } else { -2 * code - 1 })
        }),
{
    let p = ServerMessage::packet((ServerMessageView::Exit { code }));
    law_varint_reads_back(zigzag(code as int));
    assert(p.skip(1) =~= varint(zigzag(code as int)));
}

/// A packet, whatever follows it, is never taken for one that cannot be read.
pub proof fn law_packets_can_be_read(
    client: ClientMessageView,
    server: ServerMessageView,
    rest: Seq<u8>,
)
    ensures
        !unreadable::<ClientMessage>(ClientMessage::packet(client) + rest),
        !unreadable::<ServerMessage>(ServerMessage::packet(server) + rest),
{
    let p = ClientMessage::packet(client) + rest;
    assert(p[0] == 0 || p[0] == 1);
    assert forall|m: ClientMessageView| p.is_prefix_of(#[trigger] ClientMessage::packet(m)) implies
        p.len() >= ClientMessage::packet(m).len() by {
        let q = ClientMessage::packet(m);
        let more = q.skip(p.len() as int);
        assert(q =~= p + more);
        assert(q + seq![] =~= ClientMessage::packet(client) + (rest + more));
        law_client_packets_are_distinct(m, client, seq![], rest + more);
        assert((rest + more).len() == 0);
    }
    let p = ServerMessage::packet(server) + rest;
    assert(p[0] == 0 || p[0] == 1);
    assert forall|m: ServerMessageView| p.is_prefix_of(#[trigger] ServerMessage::packet(m)) implies
        p.len() >= ServerMessage::packet(m).len() by {
        let q = ServerMessage::packet(m);
        let more = q.skip(p.len() as int);
        assert(q =~= p + more);
        assert(q + seq![] =~= ServerMessage::packet(server) + (rest + more));
        law_server_packets_are_distinct(m, server, seq![], rest + more);
        assert((rest + more).len() == 0);
    }
}

/// Nothing, a packet that lacks its last bytes, and an unknown variant cannot be
/// read.
pub proof fn law_what_cannot_be_read(client: ClientMessageView, n: int, first: u8, rest: Seq<u8>)
    requires
        0 <= n < ClientMessage::packet(client).len(),
        2 <= first < 128,
    ensures
        unreadable::<ClientMessage>(seq![]),
        unreadable::<ClientMessage>(ClientMessage::packet(client).take(n)),
        unreadable::<ClientMessage>(seq![first] + rest),
        unreadable::<ServerMessage>(seq![]),
        unreadable::<ServerMessage>(seq![first] + rest),
{
    let p = ClientMessage::packet(client);
    assert(p.subrange(0, n) =~= p.take(n));
    assert(p.take(n).is_prefix_of(p));
    assert(cut_short::<ClientMessage>(p.take(n)));
}

/// A server's packet that lacks its last bytes cannot be read.
pub proof fn law_cut_server_packets_cannot_be_read(server: ServerMessageView, n: int)
    requires
        0 <= n < ServerMessage::packet(server).len(),
    ensures
        unreadable::<ServerMessage>(ServerMessage::packet(server).take(n)),
{
    let p = ServerMessage::packet(server);
    assert(p.subrange(0, n) =~= p.take(n));
    assert(p.take(n).is_prefix_of(p));
    assert(cut_short::<ServerMessage>(p.take(n)));
}

/// The plain values of a message give the message back.
pub proof fn law_bodies(client: ClientMessageView, server: ServerMessageView)
    ensures
        client_message(client_body(client)) == client,
        server_message(server_body(server)) == server,
        client matches ClientMessageView::ExecRequest { argv, working_dir } ==> client_body(client)
            == Ok::<(Seq<Seq<char>>, Seq<char>), i32>((argv, working_dir)),
        client matches ClientMessageView::TermSignal { signo } ==> client_body(client) == Err::<
            (Seq<Seq<char>>, Seq<char>),
            i32,
        >(signo),
        server matches ServerMessageView::FilterResult { allowed, reason } ==> server_body(server)
            == Ok::<(bool, Seq<char>), i32>((allowed, reason)),
        server matches ServerMessageView::Exit { code } ==> server_body(server) == Err::<
            (bool, Seq<char>),
            i32,
        >(code),
{
}

/// A list of strings shows each of them, in order.
pub proof fn law_texts(v: Seq<String>)
    ensures
        texts(v).len() == v.len(),
        forall|i: int| 0 <= i < v.len() ==> #[trigger] texts(v)[i] == v[i]@,
{
}

/// A message shows all that it says.
pub proof fn law_message_views(
    argv: Vec<String>,
    dir: String,
    signo: i32,
    allowed: bool,
    reason: String,
    code: i32,
)
    ensures
        (ClientMessage::ExecRequest { argv, working_dir: dir })@ == (
        ClientMessageView::ExecRequest { argv: texts(argv@), working_dir: dir@ }),
        (ClientMessage::TermSignal { signo })@ == (ClientMessageView::TermSignal { signo }),
        (ServerMessage::FilterResult { allowed, reason })@ == (ServerMessageView::FilterResult {
            allowed,
            reason: reason@,
        }),
        (ServerMessage::Exit { code })@ == (ServerMessageView::Exit { code }),
{
}

/// What postcard reads is the message with these values, and what it refuses is
/// refused with its error.
pub proof fn law_readings(bytes: Seq<u8>)
    ensures
        match postcard_client(bytes) {
            Ok(Ok((argv, working_dir))) => ClientMessage::parsed(bytes) == Ok::<
                ClientMessageView,
                postcard::Error,
            >(ClientMessageView::ExecRequest { argv, working_dir }),
            Ok(Err(signo)) => ClientMessage::parsed(bytes) == Ok::<
                ClientMessageView,
                postcard::Error,
            >(ClientMessageView::TermSignal { signo }),
            Err(e) => ClientMessage::parsed(bytes) == Err::<ClientMessageView, postcard::Error>(e),
        },
        match postcard_server(bytes) {
            Ok(Ok((allowed, reason))) => ServerMessage::parsed(bytes) == Ok::<
                ServerMessageView,
                postcard::Error,
            >(ServerMessageView::FilterResult { allowed, reason }),
            Ok(Err(code)) => ServerMessage::parsed(bytes) == Ok::<
                ServerMessageView,
                postcard::Error,
            >(ServerMessageView::Exit { code }),
            Err(e) => ServerMessage::parsed(bytes) == Err::<ServerMessageView, postcard::Error>(e),
        },
{
}

} // verus!
