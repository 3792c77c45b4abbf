//! Hexadecimal text for bytes, as produced and accepted by `commonware-formatting`.

use vstd::prelude::*;

verus! {

/// The two lowercase digits that render one byte.
pub open spec fn byte_digits(byte: u8) -> Seq<char> {
    seq![crate::text::digit((byte / 16) as nat), crate::text::digit((byte % 16) as nat)]
}

/// The lowercase hexadecimal rendering of `bytes`, two digits per byte.
pub open spec fn hex_text(bytes: Seq<u8>) -> Seq<char> {
    Seq::new(
        2 * bytes.len(),
        |i: int| byte_digits(bytes[i / 2])[i % 2],
    )
}

/// The value of a hexadecimal digit of either case, if `ch` is one.
pub open spec fn digit_value(ch: char) -> Option<nat> {
    if '0' <= ch && ch <= '9' {
        Some((ch as nat - 48) as nat)
    } else if 'a' <= ch && ch <= 'f' {
        Some((ch as nat - 87) as nat)
    } else if 'A' <= ch && ch <= 'F' {
        Some((ch as nat - 55) as nat)
    } else {
        None
    }
}

/// Whether `ch` is one of the whitespace characters that hex text may hold.
pub open spec fn is_hex_space(ch: char) -> bool {
    ch == '\t' || ch == '\n' || ch == '\r' || ch == ' '
}

/// The text with its hex whitespace left out.
pub open spec fn without_hex_space(text: Seq<char>) -> Seq<char> {
    text.filter(|ch: char| !is_hex_space(ch))
}

/// The digits of hex text: whitespace left out, then a `0X` prefix, then a `0x` or `0X` prefix.
pub open spec fn hex_digits(text: Seq<char>) -> Seq<char> {
    let spaceless = without_hex_space(text);
    let first = if spaceless.len() >= 2 && spaceless[0] == '0' && spaceless[1] == 'X' {
        spaceless.skip(2)
    } else {
        spaceless
    };
    if first.len() >= 2 && first[0] == '0' && (first[1] == 'x' || first[1] == 'X') {
        first.skip(2)
    } else {
        first
    }
}

/// The bytes that hex text stands for, or `None` if it holds an odd number of digits or anything
/// that is no digit.
pub open spec fn hex_bytes(text: Seq<char>) -> Option<Seq<u8>> {
    let digits = hex_digits(text);
    if digits.len() % 2 == 0 && (forall|i: int|
        0 <= i < digits.len() ==> (#[trigger] digit_value(digits[i])) is Some) {
        Some(
            Seq::new(
                digits.len() / 2,
                |i: int|
                    (16 * digit_value(digits[2 * i]).unwrap() + digit_value(
                        digits[2 * i + 1],
                    ).unwrap()) as u8,
            ),
        )
    } else {
        None
    }
}

/// Renders bytes as lowercase hexadecimal text.
///
/// Calls `commonware_formatting::hex`, which writes two lowercase digits per byte, the high half
/// first.
#[verifier::external_body]
pub(crate) fn hex(bytes: &[u8]) -> (text: String)
    ensures
        text@ == hex_text(bytes@),
{
    commonware_formatting::hex(bytes)
}

/// Reads bytes from hexadecimal text.
///
/// Calls `commonware_formatting::from_hex`, which drops tabs, line breaks and spaces, strips an
/// optional `0x` or `0X` prefix, and then reads two digits of either case per byte. It gives
/// nothing when the number of digits is odd or a character is no digit.
#[verifier::external_body]
pub(crate) fn from_hex(text: &str) -> (bytes: Option<Vec<u8>>)
    ensures
        match bytes {
            Some(bytes) => hex_bytes(text@) == Some(bytes@),
            None => hex_bytes(text@) is None,
        },
{
    commonware_formatting::from_hex(text)
}

/// Reading back what was rendered gives the same bytes.
pub proof fn hex_round_trip(bytes: Seq<u8>)
    ensures
        hex_bytes(hex_text(bytes)) == Some(bytes),
{
    let text = hex_text(bytes);
    assert forall|i: int| 0 <= i < text.len() implies !is_hex_space(#[trigger] text[i]) && text[i] != 'x'
        && text[i] != 'X' && digit_value(text[i]) == Some(
        (if i % 2 == 0 { bytes[i / 2] / 16 } else { bytes[i / 2] % 16 }) as nat,
    ) by {
        let byte = bytes[i / 2];
        assert(i % 2 == 0 || i % 2 == 1);
        assert(byte / 16 < 16 && byte % 16 < 16);
    }
    spaceless_text_is_kept(text);
    assert(hex_digits(text) == text);
    assert forall|i: int| 0 <= i < bytes.len() implies (16 * digit_value(text[2 * i]).unwrap()
        + digit_value(#[trigger] text[2 * i + 1]).unwrap()) as u8 == bytes[i] by {
        assert((2 * i) / 2 == i && (2 * i + 1) / 2 == i);
        assert((2 * i) % 2 == 0 && (2 * i + 1) % 2 == 1);
        let byte = bytes[i];
        assert(16 * (byte / 16) + byte % 16 == byte);
    }
    assert(hex_bytes(text).unwrap() =~= bytes);
}

/// Text without hex whitespace loses nothing to its removal.
proof fn spaceless_text_is_kept(text: Seq<char>)
    requires
        forall|i: int| 0 <= i < text.len() ==> !is_hex_space(#[trigger] text[i]),
    ensures
        without_hex_space(text) == text,
    decreases text.len(),
{
    reveal(Seq::filter);
    if text.len() > 0 {
        spaceless_text_is_kept(text.drop_last());
        assert(without_hex_space(text) =~= text);
    }
}

/// Distinct byte strings render as distinct texts.
pub proof fn hex_is_injective(left: Seq<u8>, right: Seq<u8>)
    requires
        hex_text(left) == hex_text(right),
    ensures
        left == right,
{
    hex_round_trip(left);
    hex_round_trip(right);
}

/// Every byte is rendered by two digits of its own, which stand for it in base sixteen.
pub proof fn hex_pairs_denote_bytes(bytes: Seq<u8>, index: int)
    requires
        0 <= index < bytes.len(),
    ensures
        hex_text(bytes).len() == 2 * bytes.len(),
        crate::text::denoted(hex_text(bytes).subrange(2 * index, 2 * index + 2), 16)
            == bytes[index],
{
    let pair = hex_text(bytes).subrange(2 * index, 2 * index + 2);
    let byte = bytes[index];
    assert((2 * index) / 2 == index && (2 * index) % 2 == 0);
    assert((2 * index + 1) / 2 == index && (2 * index + 1) % 2 == 1);
    assert(pair[0] == crate::text::digit((byte / 16) as nat));
    assert(pair[1] == crate::text::digit((byte % 16) as nat));
    let first = pair.drop_last();
    assert(first.drop_last() =~= Seq::<char>::empty());
    assert(first.last() == pair[0]);
    assert(pair.last() == pair[1]);
    assert(crate::text::denoted(first.drop_last(), 16) == 0);
    assert(crate::text::denoted(first, 16) == crate::text::numeral(pair[0]));
}

} // verus!
