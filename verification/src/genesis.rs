//! The genesis of the parachain: its first head and its validation code.
//!
//! Both are constants of the build. Export tooling, node startup and
//! validators all derive them independently and must agree byte for byte.

use vstd::prelude::*;
use crate::codec::{encode_spec, le_bytes};
use crate::hex::{hex_spec, prefixed_hex_spec, to_hex};
use crate::state::{HeadData, HeadView, ParachainState};

verus! {

/// The head before any block: counter zero, block number zero.
pub open spec fn genesis_head_spec() -> HeadView {
    HeadView { counter: 0, block_number: 0 }
}

/// The bytes of the validation code: an empty WebAssembly module, which is
/// the four-byte magic number followed by version one.
pub open spec fn validation_code_spec() -> Seq<u8> {
    seq![0x00u8, 0x61u8, 0x73u8, 0x6du8, 0x01u8, 0x00u8, 0x00u8, 0x00u8]
}

/// The execution bytecode that validators run to check a candidate.
#[derive(Debug, PartialEq, Eq)]
pub struct ValidationCode {
    bytes: Vec<u8>,
}

impl View for ValidationCode {
    type V = Seq<u8>;

    closed spec fn view(&self) -> Seq<u8> {
        self.bytes@
    }
}

impl ValidationCode {
    /// The bytes of the code.
    pub fn as_bytes(&self) -> (bytes: &[u8])
        ensures
            bytes@ == self@,
    {
        self.bytes.as_slice()
    }
}

/// The genesis head. Every call returns the same head.
pub fn genesis_head() -> (head: HeadData)
    ensures
        head@ == genesis_head_spec(),
{
    HeadData { counter: ParachainState::zero(), block_number: 0 }
}

/// The validation code. Every call returns the same bytes.
pub fn validation_code() -> (code: ValidationCode)
    ensures
        code@ == validation_code_spec(),
{
    let mut bytes: Vec<u8> = Vec::new();
    bytes.push(0x00);
    bytes.push(0x61);
    bytes.push(0x73);
    bytes.push(0x6d);
    bytes.push(0x01);
    bytes.push(0x00);
    bytes.push(0x00);
    bytes.push(0x00);
    assert(bytes@ =~= validation_code_spec());
    ValidationCode { bytes }
}

/// The text that the export of the genesis state prints: the encoded genesis
/// head in hexadecimal.
pub fn genesis_state_hex() -> (text: String)
    ensures
        text@ == prefixed_hex_spec(encode_spec(genesis_head_spec())),
        text@ == "0x00000000000000000000000000000000"@,
{
    let bytes = genesis_head().encode();
    proof {
        lemma_genesis_state_hex();
    }
    to_hex(bytes.as_slice())
}

/// The text that the export of the validation code prints: the code in
/// hexadecimal.
pub fn validation_code_hex() -> (text: String)
    ensures
        text@ == prefixed_hex_spec(validation_code_spec()),
        text@ == "0x0061736d01000000"@,
{
    let code = validation_code();
    proof {
        lemma_validation_code_hex();
    }
    to_hex(code.as_bytes())
}

/// The encoded genesis head is sixteen zero bytes, whoever computes it and
/// however often.
pub proof fn lemma_genesis_encoding()
    ensures
        encode_spec(genesis_head_spec()) == Seq::new(16, |i: int| 0u8),
{
    reveal_with_fuel(le_bytes, 9);
    assert(le_bytes(0, 8) =~= Seq::new(8, |i: int| 0u8));
    assert(encode_spec(genesis_head_spec()) =~= Seq::new(16, |i: int| 0u8));
}

/// Zero bytes read as zero digits.
proof fn lemma_hex_of_zeros(count: nat)
    ensures
        hex_spec(Seq::new(count, |i: int| 0u8)) == Seq::new(2 * count, |i: int| '0'),
    decreases count,
{
    let zeros = Seq::new(count, |i: int| 0u8);
    if count > 0 {
        let fewer = Seq::new((count - 1) as nat, |i: int| 0u8);
        lemma_hex_of_zeros((count - 1) as nat);
        assert(zeros.drop_last() =~= fewer);
        assert(hex_spec(zeros) =~= Seq::new(2 * count, |i: int| '0'));
    } else {
        assert(hex_spec(zeros) =~= Seq::new(2 * count, |i: int| '0'));
    }
}

/// The exported genesis state is the marker `0x` and thirty-two zeros.
pub proof fn lemma_genesis_state_hex()
    ensures
        prefixed_hex_spec(encode_spec(genesis_head_spec()))
            == "0x00000000000000000000000000000000"@,
{
    lemma_genesis_encoding();
    lemma_hex_of_zeros(16);
    reveal_strlit("0x00000000000000000000000000000000");
    assert(prefixed_hex_spec(Seq::new(16, |i: int| 0u8))
        =~= "0x00000000000000000000000000000000"@);
}

/// The exported validation code is the marker `0x` and the sixteen digits
/// of the eight bytes.
pub proof fn lemma_validation_code_hex()
    ensures
        prefixed_hex_spec(validation_code_spec()) == "0x0061736d01000000"@,
{
    let code = validation_code_spec();
    reveal_strlit("0x0061736d01000000");
    reveal_with_fuel(hex_spec, 10);
    assert(prefixed_hex_spec(code) =~= "0x0061736d01000000"@);
}

} // verus!
