//! Pieces of text for diagnostics.

use vstd::prelude::*;
use vstd::string::StringExecFns;
use vstd::utf8::{decode_utf8, valid_utf8};

verus! {

/// The diagnostic text of a Vulkan structure type.
pub uninterp spec fn structure_type_text(raw: i32) -> Seq<char>;

/// The text that `Debug` of `ash::vk::StructureType` writes for a raw value:
/// the constant's name, or the number where no constant has it. Only that it
/// is a function of the number is claimed.
#[verifier::external_body]
pub(crate) fn structure_type_debug(raw: i32) -> (text: String)
    ensures
        text@ == structure_type_text(raw),
{
    format!("{:?}", ash::vk::StructureType::from_raw(raw))
}

/// The diagnostic text of a Vulkan format.
pub uninterp spec fn format_text(raw: i32) -> Seq<char>;

/// The text that `Debug` of `ash::vk::Format` writes for a raw value: the
/// constant's name, or the number where no constant has it. Only that it is a
/// function of the number is claimed.
#[verifier::external_body]
pub(crate) fn format_debug(raw: i32) -> (text: String)
    ensures
        text@ == format_text(raw),
{
    format!("{:?}", ash::vk::Format::from_raw(raw))
}

/// The diagnostic text of a Vulkan result code.
pub uninterp spec fn result_text(raw: i32) -> Seq<char>;

/// The text that `Debug` of `ash::vk::Result` writes for a raw value: the
/// constant's name, or the number where no constant has it. Only that it is a
/// function of the number is claimed.
#[verifier::external_body]
pub(crate) fn result_debug(raw: i32) -> (text: String)
    ensures
        text@ == result_text(raw),
{
    format!("{:?}", ash::vk::Result::from_raw(raw))
}

/// Bytes as text, with replacement characters where they are not UTF-8.
pub uninterp spec fn lossy_text(bytes: Seq<u8>) -> Seq<char>;

/// The text that `String::from_utf8_lossy` gives: valid UTF-8 is decoded as it
/// stands. What stands in place of other bytes is named, not spelled out.
#[verifier::external_body]
pub(crate) fn from_utf8_lossy(bytes: &[u8]) -> (text: String)
    ensures
        text@ == lossy_text(bytes@),
        valid_utf8(bytes@) ==> text@ == decode_utf8(bytes@),
{
    String::from_utf8_lossy(bytes).into_owned()
}

/// The lower-case hexadecimal digit of a value below sixteen.
pub open spec fn hex_digit(value: nat) -> char {
    seq!['0', '1', '2', '3', '4', '5', '6', '7', '8', '9', 'a', 'b', 'c', 'd', 'e', 'f'][value as int]
}

/// A number in lower-case hexadecimal, without leading zeros.
pub open spec fn hex_text(value: nat) -> Seq<char>
    decreases value,
{
    if value < 16 {
        seq![hex_digit(value)]
    } else {
        hex_text(value / 16).push(hex_digit(value % 16))
    }
}

fn hex_digit_text(value: u32) -> (text: &'static str)
    requires
        value < 16,
    ensures
        text@ == seq![hex_digit(value as nat)],
{
    proof {
        reveal_strlit("0");
        reveal_strlit("1");
        reveal_strlit("2");
        reveal_strlit("3");
        reveal_strlit("4");
        reveal_strlit("5");
        reveal_strlit("6");
        reveal_strlit("7");
        reveal_strlit("8");
        reveal_strlit("9");
        reveal_strlit("a");
        reveal_strlit("b");
        reveal_strlit("c");
        reveal_strlit("d");
        reveal_strlit("e");
        reveal_strlit("f");
    }
    match value {
        0 => "0",
        1 => "1",
        2 => "2",
        3 => "3",
        4 => "4",
        5 => "5",
        6 => "6",
        7 => "7",
        8 => "8",
        9 => "9",
        10 => "a",
        11 => "b",
        12 => "c",
        13 => "d",
        14 => "e",
        _ => "f",
    }
}

/// Appends a number in hexadecimal.
pub fn append_hex(text: &mut String, value: u32)
    ensures
        final(text)@ == old(text)@ + hex_text(value as nat),
    decreases value,
{
    if value >= 16 {
        append_hex(text, value / 16);
    }
    text.append(hex_digit_text(value % 16));
}

/// A hexadecimal text has one more digit for every sixteen times as large a
/// number, and its last digit is what is left of whole sixteens.
pub proof fn hexadecimal_digits_weigh_sixteen(value: nat, digit: nat)
    requires
        digit < 16,
    ensures
        hex_text(digit).len() == 1,
        value > 0 ==> hex_text(16 * value + digit) == hex_text(value) + hex_text(digit),
        digit < 10 ==> hex_text(digit)[0] as int == 48 + digit,
        digit >= 10 ==> hex_text(digit)[0] as int == 97 + digit - 10,
{
    if value > 0 {
        assert((16 * value + digit) / 16 == value);
        assert((16 * value + digit) % 16 == digit);
        assert(hex_text(16 * value + digit) =~= hex_text(value) + hex_text(digit));
    }
}

} // verus!
