//! Hexadecimal text: two ASCII digits per byte, the high nibble first.

use vstd::prelude::*;

verus! {

/// The lowercase hexadecimal digit, as an ASCII byte, of a value below sixteen.
pub open spec fn hex_digit(value: int) -> u8
    recommends
        0 <= value < 16,
{
    if value < 10 {
        (0x30 + value) as u8
    } else {
        (0x61 + value - 10) as u8
    }
}

/// The hexadecimal text of `data`: for each byte the digit of its high
/// nibble, then the digit of its low nibble, in lower case.
pub open spec fn hex_text(data: Seq<u8>) -> Seq<u8> {
    Seq::new(
        2 * data.len(),
        |i: int|
            if i % 2 == 0 {
                hex_digit(data[i / 2] as int / 16)
            } else {
                hex_digit(data[i / 2] as int % 16)
            },
    )
}

/// The value of a hexadecimal digit given as an ASCII byte, in either case.
pub open spec fn hex_value(digit: u8) -> Option<int> {
    if 0x30 <= digit <= 0x39 {
        Some(digit - 0x30)
    } else if 0x61 <= digit <= 0x66 {
        Some(digit - 0x61 + 10)
    } else if 0x41 <= digit <= 0x46 {
        Some(digit - 0x41 + 10)
    } else {
        None
    }
}

/// Whether `text` is hexadecimal text: an even number of hexadecimal digits.
pub open spec fn is_hex_text(text: Seq<u8>) -> bool {
    &&& text.len() % 2 == 0
    &&& forall|i: int| 0 <= i < text.len() ==> hex_value(#[trigger] text[i]) is Some
}

/// The bytes that hexadecimal text stands for.
pub open spec fn hex_bytes(text: Seq<u8>) -> Seq<u8> {
    Seq::new(
        (text.len() / 2) as nat,
        |j: int| (16 * hex_value(text[2 * j]).unwrap() + hex_value(text[2 * j + 1]).unwrap()) as u8,
    )
}

/// The hexadecimal text of any bytes is hexadecimal text, stands for those
/// bytes, and holds no zero byte.
pub proof fn lemma_hex_text_round_trip(data: Seq<u8>)
    ensures
        is_hex_text(hex_text(data)),
        hex_bytes(hex_text(data)) == data,
        forall|i: int| 0 <= i < hex_text(data).len() ==> hex_text(data)[i] != 0,
{
    let text = hex_text(data);
    assert forall|i: int| 0 <= i < text.len() implies hex_value(#[trigger] text[i]) is Some
        && text[i] != 0 by {
        let byte = data[i / 2] as int;
        assert(0 <= byte / 16 < 16 && 0 <= byte % 16 < 16);
    }
    assert forall|j: int| 0 <= j < data.len() implies hex_bytes(text)[j] == data[j] by {
        let byte = data[j] as int;
        assert(0 <= byte / 16 < 16 && 0 <= byte % 16 < 16);
        assert((2 * j) / 2 == j && (2 * j) % 2 == 0);
        assert((2 * j + 1) / 2 == j && (2 * j + 1) % 2 == 1);
        assert(hex_value(text[2 * j]) == Some(byte / 16));
        assert(hex_value(text[2 * j + 1]) == Some(byte % 16));
    }
    assert(hex_bytes(text) =~= data);
}

} // verus!
