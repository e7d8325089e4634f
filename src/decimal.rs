//! Decimal notation of unsigned integers, as ASCII bytes and as text.
use vstd::prelude::*;

verus! {

/// The ASCII code of the digit zero.
pub const ASCII_ZERO: u8 = 48;

/// The ASCII code of the decimal digit `d` (for `d < 10`).
pub open spec fn digit(d: nat) -> u8 {
    (ASCII_ZERO + d) as u8
}

/// The shortest decimal notation of `n`, most significant digit first.
pub open spec fn decimal(n: nat) -> Seq<u8>
    decreases n,
{
    if n < 10 {
        seq![digit(n)]
    } else {
        decimal(n / 10).push(digit(n % 10))
    }
}

/// ASCII bytes read as characters.
pub open spec fn as_text(bytes: Seq<u8>) -> Seq<char> {
    bytes.map_values(|b: u8| b as char)
}

/// Reading bytes as characters commutes with concatenation.
pub proof fn lemma_as_text_concat(a: Seq<u8>, b: Seq<u8>)
    ensures
        as_text(a + b) == as_text(a) + as_text(b),
{
    assert(as_text(a + b) =~= as_text(a) + as_text(b));
}

/// Appends the decimal notation of `n` to `out`.
pub fn push_decimal(out: &mut Vec<u8>, n: u128)
    ensures
        final(out)@ == old(out)@ + decimal(n as nat),
    decreases n,
{
    if n >= 10 {
        push_decimal(out, n / 10);
    }
    let d: u8 = (n % 10) as u8;
    out.push(ASCII_ZERO + d);
    assert(final(out)@ =~= old(out)@ + decimal(n as nat));
}

/// Appends the decimal notation of `n` to `out` as text.
pub fn push_decimal_text(out: &mut String, n: u128)
    ensures
        final(out)@ == old(out)@ + as_text(decimal(n as nat)),
    decreases n,
{
    if n >= 10 {
        push_decimal_text(out, n / 10);
    }
    let d: u8 = (n % 10) as u8;
    out.push((ASCII_ZERO + d) as char);
    assert(as_text(decimal(n as nat)) =~= if n >= 10 {
        as_text(decimal((n / 10) as nat)).push(digit((n % 10) as nat) as char)
    } else {
        seq![digit(n as nat) as char]
    });
    assert(final(out)@ =~= old(out)@ + as_text(decimal(n as nat)));
}

/// Relies on `String::push`: the character is appended at the end.
pub assume_specification[ String::push ](string: &mut String, ch: char)
    ensures
        final(string)@ == old(string)@.push(ch),
;

} // verus!
