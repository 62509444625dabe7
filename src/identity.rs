//! Resolution of hex identifiers into fixed-width byte strings.
use vstd::prelude::*;
use vstd::string::StringSliceAdditionalSpecFns;

verus! {

/// An ASCII hex digit, either case.
pub open spec fn is_hex_digit(c: u8) -> bool {
    (0x30 <= c && c <= 0x39) || (0x61 <= c && c <= 0x66) || (0x41 <= c && c <= 0x46)
}

/// The value of a hex digit.
pub open spec fn hex_value(c: u8) -> int {
    if c <= 0x39 {
        c - 0x30
    } else if c >= 0x61 {
        c - 0x61 + 10
    } else {
        c - 0x41 + 10
    }
}

/// The bytes that a hex text stands for: two digits per byte, high digit first.
/// `None` for an odd length or a character that is no hex digit.
pub open spec fn hex_decoded(text: Seq<u8>) -> Option<Seq<u8>> {
    if text.len() % 2 == 0 && forall|i: int| 0 <= i < text.len() ==> is_hex_digit(#[trigger] text[i]) {
        Some(Seq::new((text.len() / 2) as nat, |k: int| (hex_value(text[2 * k]) * 16 + hex_value(text[2 * k + 1])) as u8))
    } else {
        None
    }
}

/// The text after an optional leading `0x`.
pub open spec fn without_hex_prefix(text: Seq<u8>) -> Seq<u8> {
    if text.len() >= 2 && text[0] == 0x30u8 && text[1] == 0x78u8 {
        text.subrange(2, text.len() as int)
    } else {
        text
    }
}

/// The `width` bytes that a hex identifier (with or without `0x`) stands for,
/// or `None` when it is no hex text or decodes to another length.
pub open spec fn fixed_hex(text: Seq<u8>, width: nat) -> Option<Seq<u8>> {
    match hex_decoded(without_hex_prefix(text)) {
        Some(b) => if b.len() == width { Some(b) } else { None },
        None => None,
    }
}

/// Relies on hex::decode: pairs of hex digits of either case become bytes;
/// odd length or any other character is an error.
#[verifier::external_body]
fn decode_hex(text: &[u8]) -> (r: Option<Vec<u8>>)
    ensures
        match r {
            Some(v) => hex_decoded(text@) == Some(v@),
            None => hex_decoded(text@) is None,
        },
{
    hex::decode(text).ok()
}

/// Decodes a hex identifier, with or without a leading `0x`, that must stand
/// for exactly `width` bytes.
pub fn parse_fixed_hex(text: &str, width: usize) -> (r: Option<Vec<u8>>)
    ensures
        match r {
            Some(v) => fixed_hex(text.spec_bytes(), width as nat) == Some(v@),
            None => fixed_hex(text.spec_bytes(), width as nat) is None,
        },
{
    let b = text.as_bytes();
    let body: &[u8] = if b.len() >= 2 && b[0] == 0x30u8 && b[1] == 0x78u8 {
        vstd::slice::slice_subrange(b, 2, b.len())
    } else {
        b
    };
    proof {
        assert(body@ == without_hex_prefix(b@));
    }
    match decode_hex(body) {
        Some(v) => {
            if v.len() == width {
                Some(v)
            } else {
                None
            }
        },
        None => None,
    }
}

} // verus!
