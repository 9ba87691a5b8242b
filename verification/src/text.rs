//! Text the tools print and read: numbers in decimal and hexadecimal,
//! trimming, and the passage between bytes and strings.

use crate::path::same_bytes;
use vstd::prelude::*;
use vstd::string::*;
use vstd::utf8::{encode_utf8, encode_utf8_decode_utf8, valid_utf8};

verus! {

/// Checks that a byte slice is UTF-8 and views it as a string.
///
/// Calls `core::str::from_utf8`. The contract claims that the call succeeds
/// exactly on valid UTF-8, and that the string then has those very bytes.
#[verifier::external_body]
pub(crate) fn utf8_str(bytes: &[u8]) -> (res: Option<&str>)
    ensures
        res is Some <==> valid_utf8(bytes@),
        res matches Some(s) ==> encode_utf8(s@) == bytes@,
{
    core::str::from_utf8(bytes).ok()
}

/// The text that a byte sequence is shown as.
pub uninterp spec fn lossy_utf8(bytes: Seq<u8>) -> Seq<char>;

/// Makes text of bytes that may not be UTF-8.
///
/// Calls `String::from_utf8_lossy`. The contract names the text, which is a
/// function of the bytes (what is not UTF-8 in them is replaced), and claims
/// that valid UTF-8 is taken over as it is.
#[verifier::external_body]
pub(crate) fn lossy_text(bytes: &[u8]) -> (res: String)
    ensures
        res@ == lossy_utf8(bytes@),
        valid_utf8(bytes@) ==> encode_utf8(res@) == bytes@,
{
    String::from_utf8_lossy(bytes).into_owned()
}

/// True if two strings have the same characters.
pub fn same_text(a: &str, b: &str) -> (res: bool)
    ensures
        res == (a@ == b@),
{
    proof {
        encode_utf8_decode_utf8(a@);
        encode_utf8_decode_utf8(b@);
    }
    same_bytes(a.as_bytes(), b.as_bytes())
}

/// The decimal digit of `d`, for `d` below ten.
pub open spec fn digit_char(d: int) -> char {
    (('0' as int) + d) as char
}

/// The decimal notation of a natural number.
pub open spec fn decimal(n: nat) -> Seq<char>
    decreases n,
{
    if n < 10 {
        seq![digit_char(n as int)]
    } else {
        decimal(n / 10).push(digit_char((n % 10) as int))
    }
}

/// The decimal notation of an integer.
pub open spec fn signed_decimal(n: int) -> Seq<char> {
    if n < 0 {
        seq!['-'] + decimal((-n) as nat)
    } else {
        decimal(n as nat)
    }
}

fn digit_str(d: u64) -> (res: &'static str)
    requires
        d < 10,
    ensures
        res@ == seq![digit_char(d as int)],
{
    let s = match d {
        0 => "0",
        1 => "1",
        2 => "2",
        3 => "3",
        4 => "4",
        5 => "5",
        6 => "6",
        7 => "7",
        8 => "8",
        _ => "9",
    };
    proof {
        reveal_strlit("0");
        reveal_strlit("1");
        reveal_strlit("2");
        reveal_strlit("3");
        reveal_strlit("4");
        reveal_strlit("5");
        reveal_strlit("6");
        reveal_strlit("7");
        reveal_strlit("8");
        reveal_strlit("9");
    }
    assert(s@ =~= seq![digit_char(d as int)]);
    s
}

/// Appends the decimal notation of `n`.
pub fn push_decimal(out: &mut String, n: u64)
    ensures
        final(out)@ == old(out)@ + decimal(n as nat),
    decreases n,
{
    if n < 10 {
        out.append(digit_str(n));
    } else {
        push_decimal(out, n / 10);
        out.append(digit_str(n % 10));
    }
}

/// Appends the decimal notation of `n`, with a minus sign where it is negative.
pub fn push_signed(out: &mut String, n: i64)
    ensures
        final(out)@ == old(out)@ + signed_decimal(n as int),
{
    if n < 0 {
        proof {
            reveal_strlit("-");
        }
        out.append("-");
        assert("-"@ =~= seq!['-']);
        if n == i64::MIN {
            push_decimal(out, 9223372036854775808);
        } else {
            push_decimal(out, (-n) as u64);
        }
    } else {
        push_decimal(out, n as u64);
    }
}

/// The lower-case hexadecimal digit of `d`, for `d` below sixteen.
pub open spec fn hex_char(d: int) -> char {
    if d < 10 {
        digit_char(d)
    } else {
        (('a' as int) + d - 10) as char
    }
}

/// Two hexadecimal digits for each byte, the high one first.
pub open spec fn hex(bytes: Seq<u8>) -> Seq<char> {
    Seq::new(
        2 * bytes.len(),
        |i: int| hex_char(if i % 2 == 0 { bytes[i / 2] as int / 16 } else { bytes[i / 2] as int % 16 }),
    )
}

fn hex_str(d: u8) -> (res: &'static str)
    requires
        d < 16,
    ensures
        res@ == seq![hex_char(d as int)],
{
    if d < 10 {
        return digit_str(d as u64);
    }
    let s = match d {
        10 => "a",
        11 => "b",
        12 => "c",
        13 => "d",
        14 => "e",
        _ => "f",
    };
    proof {
        reveal_strlit("a");
        reveal_strlit("b");
        reveal_strlit("c");
        reveal_strlit("d");
        reveal_strlit("e");
        reveal_strlit("f");
    }
    assert(s@ =~= seq![hex_char(d as int)]);
    s
}

/// Writes bytes in lower-case hexadecimal.
pub fn to_hex(bytes: &[u8]) -> (res: String)
    ensures
        res@ == hex(bytes@),
{
    let mut res = String::new();
    let mut i: usize = 0;
    while i < bytes.len()
        invariant
            i <= bytes.len(),
            res@ == hex(bytes@.take(i as int)),
        decreases bytes.len() - i,
    {
        let b = bytes[i];
        res.append(hex_str(b / 16));
        res.append(hex_str(b % 16));
        assert(res@ =~= hex(bytes@.take(i + 1)));
        i += 1;
    }
    assert(bytes@.take(i as int) =~= bytes@);
    res
}

/// The characters of a string.
pub fn to_chars(s: &str) -> (res: Vec<char>)
    ensures
        res@ == s@,
{
    let mut res: Vec<char> = Vec::new();
    for c in it: s.chars()
        invariant
            res@ == it.seq().take(it.index()),
            it.seq() == s@,
    {
        res.push(c);
    }
    assert(res@ =~= s@);
    res
}

/// The characters that Unicode counts as white space.
pub open spec fn white_space(c: char) -> bool {
    let n = c as u32;
    ||| 0x9 <= n <= 0xd
    ||| n == 0x20
    ||| n == 0x85
    ||| n == 0xa0
    ||| n == 0x1680
    ||| 0x2000 <= n <= 0x200a
    ||| n == 0x2028
    ||| n == 0x2029
    ||| n == 0x202f
    ||| n == 0x205f
    ||| n == 0x3000
}

/// True for the characters that Unicode counts as white space.
pub fn is_white_space(c: char) -> (res: bool)
    ensures
        res == white_space(c),
{
    let n = c as u32;
    (0x9 <= n && n <= 0xd) || n == 0x20 || n == 0x85 || n == 0xa0 || n == 0x1680 || (0x2000 <= n && n
        <= 0x200a) || n == 0x2028 || n == 0x2029 || n == 0x202f || n == 0x205f || n == 0x3000
}

/// A text without the white space at either end.
pub open spec fn trimmed(s: Seq<char>) -> Seq<char>
    decreases s.len(),
{
    if s.len() > 0 && white_space(s[0]) {
        trimmed(s.drop_first())
    } else if s.len() > 0 && white_space(s.last()) {
        trimmed(s.drop_last())
    } else {
        s
    }
}

/// The number that a run of decimal digits denotes.
pub open spec fn digits_value(s: Seq<char>) -> nat
    decreases s.len(),
{
    if s.len() == 0 {
        0
    } else {
        (10 * digits_value(s.drop_last()) + (s.last() as int - '0' as int)) as nat
    }
}

pub open spec fn is_digit(c: char) -> bool {
    '0' <= c && c <= '9'
}

/// One decimal digit or more, and nothing else.
pub open spec fn all_digits(s: Seq<char>) -> bool {
    s.len() > 0 && forall|i: int| 0 <= i < s.len() ==> is_digit(#[trigger] s[i])
}

/// A text without the sign it may begin with.
pub open spec fn unsigned_part(s: Seq<char>) -> Seq<char> {
    if s.len() > 0 && (s[0] == '-' || s[0] == '+') {
        s.drop_first()
    } else {
        s
    }
}

/// The integer that a text denotes: decimal digits, at least one, after an
/// optional sign.
pub open spec fn integer_value(s: Seq<char>) -> Option<int> {
    if !all_digits(unsigned_part(s)) {
        None
    } else if s[0] == '-' {
        Some(-(digits_value(unsigned_part(s)) as int))
    } else {
        Some(digits_value(unsigned_part(s)) as int)
    }
}

/// The integer that a text denotes, if it is one of 32 bits.
pub open spec fn i32_value(s: Seq<char>) -> Option<i32> {
    match integer_value(s) {
        Some(v) => if i32::MIN <= v <= i32::MAX {
            Some(v as i32)
        } else {
            None
        },
        None => None,
    }
}

/// Removes the white space at either end.
pub fn trim(s: &[char]) -> (res: &[char])
    ensures
        res@ == trimmed(s@),
{
    let mut from: usize = 0;
    let mut to: usize = s.len();
    assert(s@.subrange(0, s@.len() as int) =~= s@);
    while from < to && is_white_space(s[from])
        invariant
            from <= to == s.len(),
            trimmed(s@.subrange(from as int, to as int)) == trimmed(s@),
        decreases to - from,
    {
        assert(s@.subrange(from as int, to as int).drop_first() =~= s@.subrange(
            from + 1,
            to as int,
        ));
        from += 1;
    }
    while from < to && is_white_space(s[to - 1])
        invariant
            from <= to <= s.len(),
            from < to ==> !white_space(s@[from as int]),
            trimmed(s@.subrange(from as int, to as int)) == trimmed(s@),
        decreases to - from,
    {
        assert(s@.subrange(from as int, to as int).drop_last() =~= s@.subrange(
            from as int,
            to - 1,
        ));
        to -= 1;
    }
    vstd::slice::slice_subrange(s, from, to)
}

proof fn lemma_digits_grow(s: Seq<char>, k: int)
    requires
        0 <= k <= s.len(),
        forall|i: int| 0 <= i < s.len() ==> is_digit(#[trigger] s[i]),
    ensures
        digits_value(s.take(k)) <= digits_value(s),
    decreases s.len(),
{
    if k == s.len() {
        assert(s.take(k) =~= s);
    } else {
        let t = s.drop_last();
        lemma_digits_grow(t, k);
        assert(t.take(k) =~= s.take(k));
        assert(is_digit(s[s.len() - 1]));
    }
}

/// Reads a decimal integer of 32 bits.
pub fn parse_i32(s: &[char]) -> (res: Option<i32>)
    ensures
        res == i32_value(s@),
{
    let signed = s.len() > 0 && (s[0] == '-' || s[0] == '+');
    let negative = s.len() > 0 && s[0] == '-';
    let digits = if signed {
        vstd::slice::slice_subrange(s, 1, s.len())
    } else {
        s
    };
    assert(digits@ =~= unsigned_part(s@));
    if digits.len() == 0 {
        return None;
    }
    let mut i: usize = 0;
    while i < digits.len()
        invariant
            i <= digits.len(),
            digits@ == unsigned_part(s@),
            forall|j: int| 0 <= j < i ==> is_digit(#[trigger] digits@[j]),
        decreases digits.len() - i,
    {
        let c = digits[i];
        if !('0' <= c && c <= '9') {
            assert(!is_digit(digits@[i as int]));
            return None;
        }
        i += 1;
    }
    let mut value: i64 = 0;
    let mut k: usize = 0;
    while k < digits.len()
        invariant
            k <= digits.len(),
            forall|j: int| 0 <= j < digits@.len() ==> is_digit(#[trigger] digits@[j]),
            value == digits_value(digits@.take(k as int)),
            0 <= value <= 2147483648,
            integer_value(s@) == Some(
                if negative {
                    -(digits_value(digits@) as int)
                } else {
                    digits_value(digits@) as int
                },
            ),
        decreases digits.len() - k,
    {
        let c = digits[k];
        assert(is_digit(digits@[k as int]));
        let d: i64 = (c as u32 - '0' as u32) as i64;
        value = value * 10 + d;
        proof {
            assert(digits@.take(k + 1).drop_last() =~= digits@.take(k as int));
        }
        if value > 2147483648 {
            proof {
                lemma_digits_grow(digits@, k + 1);
            }
            return None;
        }
        k += 1;
    }
    assert(digits@.take(k as int) =~= digits@);
    if negative {
        Some((-value) as i32)
    } else if value == 2147483648 {
        None
    } else {
        Some(value as i32)
    }
}

// ---------------------------------------------------------------------------
// Laws
// ---------------------------------------------------------------------------

/// The decimal notation of a number is read as that number; it has digits
/// only, and no leading zero.
pub proof fn law_decimal_reads_back(n: nat)
    ensures
        decimal(n).len() > 0,
        forall|i: int|
            0 <= i < decimal(n).len() ==> '0' <= #[trigger] decimal(n)[i] && decimal(n)[i] <= '9',
        digits_value(decimal(n)) == n,
        n > 0 ==> decimal(n)[0] != '0',
        decimal(0) == seq!['0'],
    decreases n,
{
    if n >= 10 {
        law_decimal_reads_back(n / 10);
        assert(decimal(n).drop_last() =~= decimal(n / 10));
    } else {
        assert(decimal(n).drop_last() =~= seq![]);
        reveal_with_fuel(digits_value, 2);
    }
}

/// A digit behind a number makes it ten times as large, and adds its own value.
pub proof fn law_digits_shift(s: Seq<char>, c: char)
    requires
        '0' <= c && c <= '9',
    ensures
        digits_value(seq![]) == 0,
        digits_value(s.push(c)) == 10 * digits_value(s) + (c as int - 48),
{
    assert(s.push(c).drop_last() =~= s);
}

/// Digits are the ten decimal ones.
pub proof fn law_digits(c: char)
    ensures
        is_digit(c) <==> 48 <= c as int <= 57,
{
}

/// The notation of a negative number is a minus sign and the notation of its
/// opposite, and every integer is read back from its notation.
pub proof fn law_signed_decimal_reads_back(n: int)
    ensures
        n >= 0 ==> signed_decimal(n) == decimal(n as nat),
        n < 0 ==> signed_decimal(n) == seq!['-'] + decimal((-n) as nat),
        integer_value(signed_decimal(n)) == Some(n),
        i32::MIN <= n <= i32::MAX ==> i32_value(signed_decimal(n)) == Some(n as i32),
{
    let m = if n < 0 {
        (-n) as nat
    } else {
        n as nat
    };
    law_decimal_reads_back(m);
    assert(all_digits(decimal(m)));
    if n < 0 {
        assert(signed_decimal(n).drop_first() =~= decimal(m));
    } else {
        assert(unsigned_part(signed_decimal(n)) == decimal(m));
    }
}

/// Digits denote their value, with a plus sign or without; a minus sign makes it
/// negative.
pub proof fn law_signs(s: Seq<char>)
    requires
        s.len() > 0,
        forall|i: int| 0 <= i < s.len() ==> '0' <= #[trigger] s[i] && s[i] <= '9',
    ensures
        integer_value(s) == Some(digits_value(s) as int),
        integer_value(seq!['+'] + s) == Some(digits_value(s) as int),
        integer_value(seq!['-'] + s) == Some(-(digits_value(s) as int)),
{
    assert(all_digits(s));
    assert((seq!['+'] + s).drop_first() =~= s);
    assert((seq!['-'] + s).drop_first() =~= s);
}

/// Nothing else denotes an integer: without its sign it is digits, one at least.
pub proof fn law_only_digits_are_integers(s: Seq<char>, k: int)
    requires
        integer_value(s) is Some,
    ensures
        s.len() > 0,
        s[0] == '-' || s[0] == '+' ==> s.len() > 1,
        0 <= k < s.len() ==> ('0' <= s[k] && s[k] <= '9') || (k == 0 && (s[0] == '-' || s[0]
            == '+')),
{
    let digits = unsigned_part(s);
    assert(all_digits(digits));
    if digits != s {
        assert(digits == s.drop_first());
        if 0 < k < s.len() {
            assert(s[k] == digits[k - 1]);
        }
    }
}

/// An integer has 32 bits if it lies in their range, and else it has none.
pub proof fn law_i32_range(s: Seq<char>)
    ensures
        match integer_value(s) {
            Some(v) => if -2147483648 <= v <= 2147483647 {
                i32_value(s) is Some && i32_value(s)->Some_0 == v
            } else {
                i32_value(s) is None
            },
            None => i32_value(s) is None,
        },
{
}

/// White space is what Unicode counts as such: five controls, the space, and
/// nineteen more.
pub proof fn law_white_space(c: char)
    ensures
        white_space(c) <==> {
            ||| c as int == 9 || c as int == 10 || c as int == 11 || c as int == 12 || c as int
                == 13 || c as int == 32
            ||| c as int == 0x85 || c as int == 0xa0 || c as int == 0x1680
            ||| 0x2000 <= c as int && c as int <= 0x200a
            ||| c as int == 0x2028 || c as int == 0x2029 || c as int == 0x202f || c as int == 0x205f
                || c as int == 0x3000
        },
{
}

/// Trimming takes away white space at both ends and nothing else, and leaves
/// none there.
pub proof fn law_trimming(s: Seq<char>)
    ensures
        exists|i: int, j: int|
            {
                &&& 0 <= i <= j <= s.len()
                &&& trimmed(s) == #[trigger] s.subrange(i, j)
                &&& forall|k: int| 0 <= k < i ==> white_space(#[trigger] s[k])
                &&& forall|k: int| j <= k < s.len() ==> white_space(#[trigger] s[k])
                &&& i < j ==> !white_space(s[i]) && !white_space(s[j - 1])
            },
{
    let (i, j) = lemma_trim(s);
    assert(trimmed(s) == s.subrange(i, j));
}

proof fn lemma_trim(s: Seq<char>) -> (bounds: (int, int))
    ensures
        0 <= bounds.0 <= bounds.1 <= s.len(),
        trimmed(s) == s.subrange(bounds.0, bounds.1),
        forall|k: int| 0 <= k < bounds.0 ==> white_space(#[trigger] s[k]),
        forall|k: int| bounds.1 <= k < s.len() ==> white_space(#[trigger] s[k]),
        bounds.0 < bounds.1 ==> !white_space(s[bounds.0]) && !white_space(s[bounds.1 - 1]),
    decreases s.len(),
{
    if s.len() > 0 && white_space(s[0]) {
        let t = s.drop_first();
        let (i, j) = lemma_trim(t);
        assert(t.subrange(i, j) =~= s.subrange(i + 1, j + 1));
        assert forall|k: int| 0 <= k < i + 1 implies white_space(#[trigger] s[k]) by {
            if k > 0 {
                assert(s[k] == t[k - 1]);
            }
        }
        assert forall|k: int| j + 1 <= k < s.len() implies white_space(#[trigger] s[k]) by {
            assert(s[k] == t[k - 1]);
        }
        (i + 1, j + 1)
    } else if s.len() > 0 && white_space(s.last()) {
        let t = s.drop_last();
        let (i, j) = lemma_trim(t);
        assert(t.subrange(i, j) =~= s.subrange(i, j));
        assert forall|k: int| 0 <= k < i implies white_space(#[trigger] s[k]) by {
            assert(s[k] == t[k]);
        }
        assert forall|k: int| j <= k < s.len() implies white_space(#[trigger] s[k]) by {
            if k < t.len() {
                assert(s[k] == t[k]);
            }
        }
        (i, j)
    } else {
        assert(s.subrange(0, s.len() as int) =~= s);
        (0, s.len() as int)
    }
}

/// White space around a text that has none at its ends is trimmed away.
pub proof fn law_trimming_takes_the_margins(a: Seq<char>, s: Seq<char>, b: Seq<char>)
    requires
        forall|k: int| 0 <= k < a.len() ==> white_space(#[trigger] a[k]),
        forall|k: int| 0 <= k < b.len() ==> white_space(#[trigger] b[k]),
        s.len() > 0,
        !white_space(s[0]),
        !white_space(s.last()),
    ensures
        trimmed(a + s + b) == s,
    decreases a.len() + b.len(),
{
    let all = a + s + b;
    if a.len() > 0 {
        let rest = a.drop_first();
        assert forall|k: int| 0 <= k < rest.len() implies white_space(#[trigger] rest[k]) by {
            assert(rest[k] == a[k + 1]);
        }
        law_trimming_takes_the_margins(rest, s, b);
        assert(all[0] == a[0]);
        assert(all.drop_first() =~= rest + s + b);
    } else if b.len() > 0 {
        let rest = b.drop_last();
        assert forall|k: int| 0 <= k < rest.len() implies white_space(#[trigger] rest[k]) by {
            assert(rest[k] == b[k]);
        }
        law_trimming_takes_the_margins(a, s, rest);
        assert(all[0] == s[0]);
        assert(all.last() == b.last());
        assert(b.last() == b[b.len() - 1]);
        assert(all.drop_last() =~= a + s + rest);
    } else {
        assert(all =~= s);
    }
}

/// A hexadecimal digit stands for a value.
pub open spec fn hex_digit_means(c: char, value: int) -> bool {
    ||| 48 <= c as int <= 57 && value == c as int - 48
    ||| 97 <= c as int <= 102 && value == c as int - 97 + 10
}

/// Each byte is written as two hexadecimal digits, which stand for its higher
/// and its lower half.
pub proof fn law_hex_digits(bytes: Seq<u8>, i: int)
    requires
        0 <= i < bytes.len(),
    ensures
        hex(bytes).len() == 2 * bytes.len(),
        hex_digit_means(hex(bytes)[2 * i], bytes[i] as int / 16),
        hex_digit_means(hex(bytes)[2 * i + 1], bytes[i] as int % 16),
{
}

/// Different bytes are written differently.
pub proof fn law_hex_tells_apart(a: Seq<u8>, b: Seq<u8>)
    requires
        hex(a) == hex(b),
    ensures
        a == b,
{
    assert(hex(a).len() == 2 * a.len());
    assert(hex(b).len() == 2 * b.len());
    assert forall|i: int| 0 <= i < a.len() implies a[i] == b[i] by {
        law_hex_digits(a, i);
        law_hex_digits(b, i);
    }
    assert(a =~= b);
}

} // verus!
