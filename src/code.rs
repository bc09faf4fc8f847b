//! Short codes: strings of a fixed length over the ASCII letters and digits.

use vstd::prelude::*;

verus! {

/// The number of characters in every code the service issues.
pub const CODE_LEN: u32 = 4;

/// `b` is the ASCII encoding of a letter (either case) or a decimal digit.
pub open spec fn is_alphanumeric_byte(b: u8) -> bool {
    (0x41 <= b && b <= 0x5a) || (0x61 <= b && b <= 0x7a) || (0x30 <= b && b <= 0x39)
}

/// `c` is an ASCII letter (either case) or a decimal digit.
pub open spec fn is_code_char(c: char) -> bool {
    ('A' <= c && c <= 'Z') || ('a' <= c && c <= 'z') || ('0' <= c && c <= '9')
}

/// `s` has exactly `n` characters, each a letter or a digit.
pub open spec fn is_code_of_len(s: Seq<char>, n: nat) -> bool {
    &&& s.len() == n
    &&& forall|i: int| 0 <= i < s.len() ==> #[trigger] is_code_char(s[i])
}

/// `s` is a code as the service issues them.
pub open spec fn is_code(s: Seq<char>) -> bool {
    is_code_of_len(s, CODE_LEN as nat)
}

/// Relies on rand's `Alphanumeric` distribution sampled from `thread_rng`:
/// it returns one byte of `A-Z`, `a-z` or `0-9`.
#[verifier::external_body]
fn sample_alphanumeric() -> (r: u8)
    ensures
        is_alphanumeric_byte(r),
{
    rand::Rng::sample(&mut rand::thread_rng(), rand::distributions::Alphanumeric)
}

/// Relies on `String::push`: appends one character at the end.
#[verifier::external_body]
fn push_char(s: &mut String, c: char)
    ensures
        final(s)@ == old(s)@.push(c),
{
    s.push(c)
}

/// Draws a fresh random code of `length` characters, each a letter or a
/// digit. The table is not consulted: two calls may return the same code.
pub fn generate_rand_code(length: u32) -> (r: String)
    ensures
        is_code_of_len(r@, length as nat),
{
    let mut s = String::new();
    let mut i: u32 = 0;
    while i < length
        invariant
            i <= length,
            is_code_of_len(s@, i as nat),
        decreases length - i,
    {
        let b = sample_alphanumeric();
        let c = b as char;
        push_char(&mut s, c);
        i = i + 1;
    }
    s
}

} // verus!
