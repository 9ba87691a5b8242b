//! How a process ended, as numbers.

use vstd::prelude::*;

verus! {

/// The exit code of a tool that was denied what it asked for, or failed.
pub const FAILED_CODE: u8 = 1;

/// How a process ended: the code it exited with, or the signal that ended it.
#[derive(Debug, Clone, Copy)]
pub struct WaitStatus {
    pub code: Option<i32>,
    pub signal: Option<i32>,
}

/// The exit code that a status is reported as.
pub open spec fn reported_code(status: WaitStatus) -> int {
    match status.code {
        Some(code) => code as int,
        None => match status.signal {
            Some(sig) => 128 + sig,
            None => 1,
        },
    }
}

/// A status whose signal number leaves room for the offset it is reported with.
pub open spec fn reportable(status: WaitStatus) -> bool {
    reported_code(status) <= i32::MAX
}

/// Extract exit code from a process status. For signal deaths, return
/// 128 + signal number (standard shell convention).
pub fn exit_code(status: &WaitStatus) -> (res: i32)
    requires
        reportable(*status),
    ensures
        res == reported_code(*status),
{
    if let Some(code) = status.code {
        code
    } else if let Some(sig) = status.signal {
        128 + sig
    } else {
        1
    }
}

/// The exit code cut down to the eight bits that a process can exit with.
pub fn exit_byte(code: i32) -> (res: u8)
    ensures
        res as int == code as int % 256,
{
    assert((code as u8) as int == code as int % 256) by (bit_vector);
    #[verifier::truncate]
    (code as u8)
}

/// The value nearest to `code` that a process can exit with.
pub open spec fn clamped(code: int) -> int {
    if code < 0 {
        0
    } else if code > 255 {
        255
    } else {
        code
    }
}

/// The exit code that is nearest to `code` among those a process can have.
pub fn clamp_code(code: i32) -> (res: u8)
    ensures
        res as int == clamped(code as int),
{
    if code < 0 {
        0
    } else if code > 255 {
        255
    } else {
        code as u8
    }
}

/// What waiting for a child came to: the exit code it reported, if it exited at
/// all, or nothing where the wait failed.
pub open spec fn child_code(waited: Option<Option<i32>>) -> int {
    match waited {
        Some(Some(code)) => code as int % 256,
        _ => 1,
    }
}

/// The launcher's exit code once its child has been waited for: the child's
/// own, or 1 where a signal ended it or the wait failed.
pub fn wait_for_child(waited: Option<Option<i32>>) -> (res: u8)
    ensures
        res as int == child_code(waited),
{
    match waited {
        Some(Some(code)) => exit_byte(code),
        _ => 1,
    }
}

// ---------------------------------------------------------------------------
// Laws
// ---------------------------------------------------------------------------

/// A process that exited is reported with its own code, one that a signal ended
/// with 128 and the signal's number, and any other with 1.
pub proof fn law_status_is_reported(c: i32, s: i32, signal: Option<i32>)
    ensures
        reported_code((WaitStatus { code: Some(c), signal })) == c,
        reported_code((WaitStatus { code: None, signal: Some(s) })) == 128 + s,
        reported_code((WaitStatus { code: None, signal: None })) == 1,
{
}

/// Every status can be reported but one with a signal number near the largest
/// ones.
pub proof fn law_reportable(status: WaitStatus)
    ensures
        !reportable(status) <==> status.code is None && (status.signal matches Some(s) && s
            > 2147483647 - 128),
{
}

/// Two processes that exited are reported alike only if they exited alike.
pub proof fn law_reported_codes_tell_apart(a: WaitStatus, b: WaitStatus)
    requires
        a.code is Some,
        b.code is Some,
    ensures
        reported_code(a) == reported_code(b) <==> a.code == b.code,
{
}

/// A code that a process can exit with stays as it is; others are moved to the
/// nearest end of the range.
pub proof fn law_clamping(code: int)
    ensures
        0 <= clamped(code) <= 255,
        0 <= code <= 255 ==> clamped(code) == code,
        code < 0 ==> clamped(code) == 0,
        code > 255 ==> clamped(code) == 255,
{
}

/// A launcher exits with its child's code where that is one a process can exit
/// with, and with its last eight bits otherwise; without a code it fails.
pub proof fn law_child_code_is_preserved(code: i32)
    ensures
        0 <= code <= 255 ==> child_code(Some(Some(code))) == code,
        0 <= child_code(Some(Some(code))) <= 255,
        (code - child_code(Some(Some(code)))) % 256 == 0,
        child_code(Some(None)) == 1,
        child_code(None) == 1,
        FAILED_CODE == 1,
{
}

} // verus!
