//! Hexadecimal text for byte strings, as the export commands print it.

use vstd::prelude::*;
use vstd::string::StringExecFns;

verus! {

/// The lower-case hexadecimal digit for a value below sixteen.
pub open spec fn hex_digit(nibble: int) -> char {
    seq!['0', '1', '2', '3', '4', '5', '6', '7', '8', '9', 'a', 'b', 'c', 'd', 'e', 'f'][nibble]
}

/// Two lower-case hexadecimal digits per byte, high digit first, in the order
/// of the bytes.
pub open spec fn hex_spec(bytes: Seq<u8>) -> Seq<char>
    decreases bytes.len(),
{
    if bytes.len() == 0 {
        Seq::empty()
    } else {
        hex_spec(bytes.drop_last()).push(hex_digit(bytes.last() as int / 16)).push(
            hex_digit(bytes.last() as int % 16),
        )
    }
}

/// The text of [`to_hex`]: the marker `0x`, then the digits.
pub open spec fn prefixed_hex_spec(bytes: Seq<u8>) -> Seq<char> {
    seq!['0', 'x'] + hex_spec(bytes)
}

/// Calls the `Debug` formatting of `sp_core::hexdisplay::HexDisplay`.
///
/// Trusted: that formatting writes every byte, in order, as `{:02x}`, which is
/// two lower-case hexadecimal digits, and nothing else. Unlike the `Display`
/// formatting it never abbreviates.
#[verifier::external_body]
fn hex_display(bytes: &[u8]) -> (text: String)
    ensures
        text@ == hex_spec(bytes@),
{
    format!("{:?}", sp_core::hexdisplay::HexDisplay::from(&bytes))
}

/// The hexadecimal text of `bytes`, with `0x` in front.
pub fn to_hex(bytes: &[u8]) -> (text: String)
    ensures
        text@ == prefixed_hex_spec(bytes@),
        text@.len() == 2 + 2 * bytes@.len(),
{
    let digits = hex_display(bytes);
    let mut text = String::from_str("0x");
    text.append(digits.as_str());
    proof {
        reveal_strlit("0x");
        assert("0x"@ =~= seq!['0', 'x']);
        lemma_hex_len(bytes@);
    }
    text
}

/// Hexadecimal text has two characters per byte.
pub proof fn lemma_hex_len(bytes: Seq<u8>)
    ensures
        hex_spec(bytes).len() == 2 * bytes.len(),
    decreases bytes.len(),
{
    if bytes.len() > 0 {
        lemma_hex_len(bytes.drop_last());
    }
}

} // verus!
