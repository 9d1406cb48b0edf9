//! Text helpers: comparing strings, decimal digits, decoding bytes into a string.

use vstd::prelude::*;
use vstd::string::{StrSliceExecFns, StringExecFns};
use vstd::utf8::{decode_utf8, encode_utf8, encode_utf8_decode_utf8, valid_utf8};

verus! {

/// Whether two strings hold the same characters.
pub fn str_eq(left: &str, right: &str) -> (equal: bool)
    ensures
        equal == (left@ == right@),
{
    let a = left.as_bytes();
    let b = right.as_bytes();
    proof {
        encode_utf8_decode_utf8(left@);
        encode_utf8_decode_utf8(right@);
    }
    if a.len() != b.len() {
        return false;
    }
    let mut i: usize = 0;
    while i < a.len()
        invariant
            i <= a.len(),
            a@.len() == b@.len(),
            a@.take(i as int) == b@.take(i as int),
            a@ == encode_utf8(left@),
            b@ == encode_utf8(right@),
            decode_utf8(encode_utf8(left@)) == left@,
            decode_utf8(encode_utf8(right@)) == right@,
        decreases a.len() - i,
    {
        if a[i] != b[i] {
            return false;
        }
        assert(a@.take(i + 1) =~= a@.take(i as int).push(a@[i as int]));
        assert(b@.take(i + 1) =~= b@.take(i as int).push(b@[i as int]));
        i += 1;
    }
    assert(a@ =~= a@.take(i as int));
    assert(b@ =~= b@.take(i as int));
    true
}

/// Decodes bytes as UTF-8, with `String::from_utf8`.
///
/// Trusted: the call succeeds exactly on well-formed UTF-8, and the string then holds the
/// characters that the bytes encode.
#[verifier::external_body]
pub(crate) fn string_from_utf8(bytes: Vec<u8>) -> (text: Option<String>)
    ensures
        text is Some <==> valid_utf8(bytes@),
        text matches Some(decoded) ==> decoded@ == decode_utf8(bytes@),
{
    match String::from_utf8(bytes) {
        Ok(decoded) => Some(decoded),
        Err(_) => None,
    }
}

/// The character of a decimal digit.
pub open spec fn digit_char(digit: int) -> char {
    if digit == 0 {
        '0'
    } else if digit == 1 {
        '1'
    } else if digit == 2 {
        '2'
    } else if digit == 3 {
        '3'
    } else if digit == 4 {
        '4'
    } else if digit == 5 {
        '5'
    } else if digit == 6 {
        '6'
    } else if digit == 7 {
        '7'
    } else if digit == 8 {
        '8'
    } else {
        '9'
    }
}

/// The decimal digits of `value`, most significant first, without leading zeros.
pub open spec fn decimal(value: nat) -> Seq<char>
    decreases value,
{
    if value < 10 {
        seq![digit_char(value as int)]
    } else {
        decimal(value / 10).push(digit_char((value % 10) as int))
    }
}

/// A number has at least six decimal digits exactly if it is at least 100000, and a `u32`
/// has at most ten.
pub proof fn lemma_decimal_len(value: nat)
    ensures
        decimal(value).len() >= 1,
        decimal(value).len() >= 6 <==> value >= 100_000,
        value <= u32::MAX ==> decimal(value).len() <= 10,
{
    reveal_with_fuel(decimal, 11);
}

/// The one-character string of a decimal digit.
fn digit_str(digit: u8) -> (text: &'static str)
    requires
        digit < 10,
    ensures
        text@ == seq![digit_char(digit as int)],
{
    proof {
        reveal_strlit("0");
        reveal_strlit("1");
        reveal_strlit("2");
        reveal_strlit("3");
        reveal_strlit("4");
        reveal_strlit("5");
        reveal_strlit("6");
        reveal_strlit("7");
        reveal_strlit("8");
        reveal_strlit("9");
    }
    let text = if digit == 0 {
        "0"
    } else if digit == 1 {
        "1"
    } else if digit == 2 {
        "2"
    } else if digit == 3 {
        "3"
    } else if digit == 4 {
        "4"
    } else if digit == 5 {
        "5"
    } else if digit == 6 {
        "6"
    } else if digit == 7 {
        "7"
    } else if digit == 8 {
        "8"
    } else {
        "9"
    };
    assert(text@ =~= seq![digit_char(digit as int)]);
    text
}

/// The characters that a list of digits, least significant first, stands for.
pub open spec fn digits_text(digits: Seq<u8>) -> Seq<char> {
    Seq::new(digits.len(), |i: int| digit_char(digits[digits.len() - 1 - i] as int))
}

/// The decimal digits of `value` as numbers, least significant first.
pub fn decimal_digits(value: u32) -> (digits: Vec<u8>)
    ensures
        digits_text(digits@) == decimal(value as nat),
        forall|i: int| 0 <= i < digits@.len() ==> digits@[i] < 10,
{
    let mut digits: Vec<u8> = Vec::new();
    let mut rest: u32 = value;
    while rest >= 10
        invariant
            decimal(value as nat) == decimal(rest as nat) + digits_text(digits@),
            forall|i: int| 0 <= i < digits@.len() ==> digits@[i] < 10,
        decreases rest,
    {
        let ghost before = digits@;
        digits.push((rest % 10) as u8);
        assert(decimal(rest as nat) + digits_text(before) =~= decimal((rest / 10) as nat)
            + digits_text(digits@));
        rest = rest / 10;
    }
    let ghost before = digits@;
    digits.push(rest as u8);
    assert(decimal(rest as nat) + digits_text(before) =~= digits_text(digits@));
    digits
}

/// Appends the characters `from..to` of the text that `digits` stands for.
pub fn append_digits(text: &mut String, digits: &Vec<u8>, from: usize, to: usize)
    requires
        from <= to <= digits@.len(),
        forall|i: int| 0 <= i < digits@.len() ==> digits@[i] < 10,
    ensures
        final(text)@ == old(text)@ + digits_text(digits@).subrange(from as int, to as int),
{
    let mut i: usize = from;
    while i < to
        invariant
            from <= i <= to <= digits@.len(),
            forall|i: int| 0 <= i < digits@.len() ==> digits@[i] < 10,
            text@ == old(text)@ + digits_text(digits@).subrange(from as int, i as int),
        decreases to - i,
    {
        let ghost before = text@;
        text.append(digit_str(digits[digits.len() - 1 - i]));
        assert(text@ =~= old(text)@ + digits_text(digits@).subrange(from as int, i + 1));
        i += 1;
    }
}

/// `text` without the terminators (`'\0'`) that it ends in.
pub open spec fn strip_terminators(text: Seq<char>) -> Seq<char>
    decreases text.len(),
{
    if text.len() > 0 && text.last() == '\0' {
        strip_terminators(text.drop_last())
    } else {
        text
    }
}

/// Stripping leaves a prefix that does not end in a terminator, and drops terminators only.
pub proof fn lemma_strip_terminators(text: Seq<char>)
    ensures
        strip_terminators(text).len() <= text.len(),
        strip_terminators(text) == text.take(strip_terminators(text).len() as int),
        strip_terminators(text).len() > 0 ==> strip_terminators(text).last() != '\0',
        forall|i: int| strip_terminators(text).len() <= i < text.len() ==> text[i] == '\0',
    decreases text.len(),
{
    if text.len() > 0 && text.last() == '\0' {
        lemma_strip_terminators(text.drop_last());
        let kept = strip_terminators(text).len() as int;
        assert(text.drop_last().take(kept) =~= text.take(kept));
        assert forall|i: int| kept <= i < text.len() implies text[i] == '\0' by {
            if i < text.len() - 1 {
                assert(text.drop_last()[i] == text[i]);
            }
        }
    } else {
        assert(text.take(text.len() as int) =~= text);
    }
}

/// Returns `text` without the terminators (`'\0'`) that it ends in.
pub fn without_terminators(text: &str) -> (stripped: String)
    ensures
        stripped@ == strip_terminators(text@),
{
    let mut kept: usize = text.unicode_len();
    assert(text@.take(kept as int) =~= text@);
    loop
        invariant
            kept <= text@.len(),
            strip_terminators(text@) == strip_terminators(text@.take(kept as int)),
        ensures
            kept <= text@.len(),
            strip_terminators(text@) == text@.take(kept as int),
        decreases kept,
    {
        if kept == 0 {
            break;
        }
        if text.get_char(kept - 1) != '\0' {
            break;
        }
        assert(text@.take(kept as int).drop_last() =~= text@.take(kept - 1));
        kept -= 1;
    }
    text.substring_char(0, kept).to_owned()
}

} // verus!
