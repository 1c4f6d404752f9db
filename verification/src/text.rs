//! Small text utilities: the whitespace test used by the whitespace policy,
//! decimal rendering of byte offsets, and construction of error-token values.

use vstd::prelude::*;

verus! {

/// XML whitespace bytes: tab, line feed, carriage return, space.
///
/// This is a deliberate choice of XML's own whitespace production (`S`) as
/// the crate's notion of whitespace: the whitespace policy collapses text
/// runs made of these four characters only. Other Unicode spacing characters
/// (such as no-break space U+00A0 or ideographic space U+3000) are ordinary
/// text and are always kept.
pub open spec fn ws_byte(b: u8) -> bool {
    b == 9 || b == 10 || b == 13 || b == 32
}

/// A byte run is whitespace-only when every byte is XML whitespace. For valid
/// UTF-8 input this coincides with every decoded character being whitespace,
/// since these byte values never occur inside a multi-byte encoding.
pub open spec fn ws_only_bytes(s: Seq<u8>) -> bool {
    forall|i: int| 0 <= i < s.len() ==> ws_byte(s[i])
}

/// Decide whether a byte run consists only of XML whitespace.
pub fn whitespace_only(b: &Vec<u8>) -> (r: bool)
    ensures
        r == ws_only_bytes(b@),
{
    let mut i: usize = 0;
    while i < b.len()
        invariant
            i <= b@.len(),
            forall|j: int| 0 <= j < i ==> ws_byte(b@[j]),
        decreases b@.len() - i,
    {
        let c = b[i];
        if !(c == 9 || c == 10 || c == 13 || c == 32) {
            proof {
                assert(!ws_byte(b@[i as int]));
            }
            return false;
        }
        i += 1;
    }
    true
}

/// The decimal digit character for `d % 10`.
pub open spec fn dec_digit_char(d: nat) -> char {
    ((48 + (d % 10)) as u8) as char
}

/// The decimal rendering of `n`, most significant digit first.
pub open spec fn dec_digits(n: nat) -> Seq<char>
    decreases n,
{
    if n < 10 {
        seq![dec_digit_char(n)]
    } else {
        dec_digits(n / 10).push(dec_digit_char(n % 10))
    }
}

/// Relies on `String::push`: appends exactly the given character.
#[verifier::external_body]
pub fn push_char(s: &mut String, c: char)
    ensures
        final(s)@ == old(s)@.push(c),
{
    s.push(c);
}

/// Relies on `String::push_str`: appends exactly the characters of `t`.
#[verifier::external_body]
pub fn push_str(s: &mut String, t: &str)
    ensures
        final(s)@ == old(s)@ + t@,
{
    s.push_str(t);
}

/// Append the decimal rendering of `n` to `s`.
pub fn push_dec_digits(n: u64, s: &mut String)
    ensures
        final(s)@ == old(s)@ + dec_digits(n as nat),
    decreases n,
{
    if n >= 10 {
        push_dec_digits(n / 10, s);
    }
    let ghost mid = s@;
    let d: u8 = 48 + (n % 10) as u8;
    push_char(s, d as char);
    proof {
        assert(d == (48 + ((n as nat) % 10)) as u8);
        if n < 10 {
            assert(mid.push(dec_digit_char(n as nat)) =~= old(s)@ + dec_digits(n as nat));
        } else {
            assert((n / 10) as nat == (n as nat) / 10);
            assert(mid.push(dec_digit_char((n as nat) % 10)) =~= old(s)@ + dec_digits(n as nat));
        }
    }
}

/// The value of an error token: the failure position in the byte stream and a
/// human-readable reason.
pub open spec fn error_value(pos: nat, reason: Seq<char>) -> Seq<char> {
    "Error at position "@ + dec_digits(pos) + ": "@ + reason
}

/// Reason reported when a byte run that should carry text is not valid UTF-8.
pub open spec fn bad_utf8_reason() -> Seq<char> {
    "invalid UTF-8"@
}

/// Reason reported when the byte source itself fails, wrapping its message.
pub open spec fn read_fail_reason(m: Seq<char>) -> Seq<char> {
    "read failure: "@ + m
}

/// Render an error-token value from a position and a reason.
pub fn error_message(pos: usize, reason: &str) -> (s: String)
    ensures
        s@ == error_value(pos as nat, reason@),
{
    let mut s = String::new();
    push_str(&mut s, "Error at position ");
    push_dec_digits(pos as u64, &mut s);
    push_str(&mut s, ": ");
    push_str(&mut s, reason);
    proof {
        assert((pos as u64) as nat == pos as nat);
        assert(s@ =~= error_value(pos as nat, reason@));
    }
    s
}

} // verus!
