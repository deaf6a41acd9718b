//! Numbers and status lines as text.

use vstd::prelude::*;

verus! {

/// `String::push` appends the given character to the end of the string.
pub assume_specification[ String::push ](s: &mut String, ch: char)
    ensures
        final(s)@ == old(s)@.push(ch),
;

/// `core::str::from_utf8` gives the string whose UTF-8 encoding the bytes
/// are, and fails exactly when they are not valid UTF-8.
#[verifier::external_body]
pub(crate) fn checked_utf8(bytes: &[u8]) -> (text: Option<&str>)
    ensures
        text is Some == vstd::utf8::valid_utf8(bytes@),
        text matches Some(t) ==> vstd::utf8::encode_utf8(t@) == bytes@,
{
    core::str::from_utf8(bytes).ok()
}

/// The character of a digit in base 10 or 16, letters in lower case.
pub open spec fn digit(value: nat) -> char {
    if value < 10 {
        (48 + value) as char
    } else {
        (87 + value) as char
    }
}

/// A number in decimal, without leading zeros.
pub open spec fn decimal(value: nat) -> Seq<char>
    decreases value,
{
    if value < 10 {
        seq![digit(value)]
    } else {
        decimal(value / 10).push(digit(value % 10))
    }
}

/// The low `width` hexadecimal digits of a number.
pub open spec fn hex(value: nat, width: nat) -> Seq<char>
    decreases width,
{
    if width == 0 {
        Seq::empty()
    } else {
        hex(value / 16, (width - 1) as nat).push(digit(value % 16))
    }
}

fn digit_char(value: u8) -> (ch: char)
    requires
        value < 16,
    ensures
        ch == digit(value as nat),
{
    if value < 10 {
        (48 + value) as char
    } else {
        (87 + value) as char
    }
}

/// Append a number in decimal.
pub fn push_decimal(s: &mut String, value: u64)
    ensures
        final(s)@ == old(s)@ + decimal(value as nat),
    decreases value,
{
    if value >= 10 {
        push_decimal(s, value / 10);
    }
    s.push(digit_char((value % 10) as u8));
    assert(s@ =~= old(s)@ + decimal(value as nat));
}

/// Append the low `width` hexadecimal digits of a number.
pub fn push_hex(s: &mut String, value: u32, width: u8)
    ensures
        final(s)@ == old(s)@ + hex(value as nat, width as nat),
    decreases width,
{
    if width > 0 {
        push_hex(s, value / 16, width - 1);
        s.push(digit_char((value % 16) as u8));
    }
    assert(s@ =~= old(s)@ + hex(value as nat, width as nat));
}

/// `0x` and eight hexadecimal digits: an address.
pub open spec fn address(value: u32) -> Seq<char> {
    "0x"@ + hex(value as nat, 8)
}

/// Append an address.
pub fn push_address(s: &mut String, value: u32)
    ensures
        final(s)@ == old(s)@ + address(value),
{
    s.append("0x");
    push_hex(s, value, 8);
    assert(s@ =~= old(s)@ + address(value));
}

/// `0x` and four hexadecimal digits: a register.
pub open spec fn register(value: u16) -> Seq<char> {
    "0x"@ + hex(value as nat, 4)
}

/// Append a register value.
pub fn push_register(s: &mut String, value: u16)
    ensures
        final(s)@ == old(s)@ + register(value),
{
    s.append("0x");
    push_hex(s, value as u32, 4);
    assert(s@ =~= old(s)@ + register(value));
}

/// A number as its decimal digits spell it.
pub open spec fn spelled(digits: Seq<char>) -> nat
    decreases digits.len(),
{
    if digits.len() == 0 {
        0
    } else {
        10 * spelled(digits.drop_last()) + (digits.last() as nat - 48) as nat
    }
}

/// A decimal rendering spells the number it renders, so two numbers never
/// print alike.
pub proof fn decimal_spells_the_number(value: nat)
    ensures
        spelled(decimal(value)) == value,
    decreases value,
{
    reveal_with_fuel(spelled, 2);
    if value < 10 {
        assert(decimal(value).drop_last() =~= Seq::empty());
        assert(decimal(value).last() == digit(value));
    } else {
        decimal_spells_the_number(value / 10);
        assert(decimal(value).drop_last() =~= decimal(value / 10));
        assert(decimal(value).last() == digit(value % 10));
    }
}

/// Sixteen to the power of `n`.
pub open spec fn sixteens(n: nat) -> nat
    decreases n,
{
    if n == 0 {
        1
    } else {
        16 * sixteens((n - 1) as nat)
    }
}

/// A number as its hexadecimal digits spell it.
pub open spec fn spelled_hex(digits: Seq<char>) -> nat
    decreases digits.len(),
{
    if digits.len() == 0 {
        0
    } else {
        let last = digits.last() as nat;
        16 * spelled_hex(digits.drop_last()) + (if last < 58 {
            (last - 48) as nat
        } else {
            (last - 97 + 10) as nat
        })
    }
}

/// A hexadecimal rendering has the asked-for number of digits and spells the
/// number, cut down to what they can hold.
pub proof fn hex_spells_the_number(value: nat, width: nat)
    ensures
        hex(value, width).len() == width,
        spelled_hex(hex(value, width)) == value % sixteens(width),
    decreases width,
{
    if width > 0 {
        let rest = (width - 1) as nat;
        hex_spells_the_number(value / 16, rest);
        assert(hex(value, width).drop_last() =~= hex(value / 16, rest));
        assert(hex(value, width).last() == digit(value % 16));
        lemma_sixteens(rest);
        vstd::arithmetic::div_mod::lemma_mod_breakdown(value as int, 16, sixteens(rest) as int);
    }
}

proof fn lemma_sixteens(n: nat)
    ensures
        sixteens(n) > 0,
    decreases n,
{
    if n > 0 {
        lemma_sixteens((n - 1) as nat);
    }
}

/// A decimal rendering has no leading zero but for zero itself.
pub proof fn decimal_has_no_leading_zero(value: nat)
    ensures
        decimal(value).len() > 0,
        value > 0 ==> decimal(value)[0] != '0',
        value == 0 ==> decimal(value) == seq!['0'],
    decreases value,
{
    if value >= 10 {
        decimal_has_no_leading_zero(value / 10);
        assert(decimal(value)[0] == decimal(value / 10)[0]);
    }
}

} // verus!
