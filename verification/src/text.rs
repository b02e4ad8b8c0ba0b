use vstd::prelude::*;

verus! {

/// Collects characters into a `String` through std's `FromIterator<char>`
/// for `String`. Claimed: the string holds exactly these characters, in
/// order (what std documents for collecting an iterator of `char`).
#[verifier::external_body]
pub(crate) fn string_from_chars(chars: &Vec<char>) -> (s: String)
    ensures
        s@ == chars@,
{
    chars.iter().collect::<String>()
}

/// The lowercase hexadecimal digit for `d < 16`.
pub open spec fn hex_digit(d: int) -> char {
    if d < 10 {
        (48 + d) as char
    } else {
        (87 + d) as char
    }
}

/// `n` in lowercase hexadecimal without leading zeros, as `{:x}` prints it.
pub open spec fn hex_text(n: u16) -> Seq<char>
    decreases n,
{
    if n < 16 {
        seq![hex_digit(n as int)]
    } else {
        hex_text(n / 16) + seq![hex_digit((n % 16) as int)]
    }
}

/// The digit character for `d < 16`.
pub fn hex_digit_char(d: u16) -> (c: char)
    requires
        d < 16,
    ensures
        c == hex_digit(d as int),
{
    let b: u8 = d as u8;
    if b < 10 {
        (48 + b) as char
    } else {
        (87 + b) as char
    }
}

/// Appends `n` in lowercase hexadecimal without leading zeros.
pub fn push_hex(chars: &mut Vec<char>, n: u16)
    ensures
        final(chars)@ == old(chars)@ + hex_text(n),
{
    let mut v: u16 = n;
    let mut digits: Vec<char> = Vec::new();
    while v >= 16
        invariant
            hex_text(n) == hex_text(v) + digits@,
        decreases v,
    {
        let c = hex_digit_char(v % 16);
        digits.insert(0, c);
        assert(hex_text(v) == hex_text(v / 16) + seq![c]);
        v = v / 16;
        assert(hex_text(n) =~= hex_text(v) + digits@);
    }
    let c = hex_digit_char(v);
    digits.insert(0, c);
    assert(hex_text(n) =~= digits@);
    chars.append(&mut digits);
}

} // verus!
