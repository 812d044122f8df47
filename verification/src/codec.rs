//! The byte encoding of head data and of proofs of validity.
//!
//! A head is sixteen bytes: the counter, then the block number, each as eight
//! bytes with the least significant byte first. A proof of validity is twenty
//! bytes: the prior head, then the increment as four bytes with the least
//! significant byte first.

use vstd::prelude::*;
use crate::collation::{ProofOfValidity, ProofView};
use crate::state::{HeadData, HeadView, MAX_COUNTER};

verus! {

/// Number of bytes in an encoded 64-bit integer.
pub const WORD_LEN: usize = 8;

/// Number of bytes in an encoded head.
pub const HEAD_LEN: usize = 16;

/// Number of bytes in an encoded increment.
pub const DELTA_LEN: usize = 4;

/// Number of bytes in an encoded proof of validity.
pub const PROOF_LEN: usize = 20;

/// The `width` lowest base-256 digits of `value`, least significant first.
pub open spec fn le_bytes(value: nat, width: nat) -> Seq<u8>
    decreases width,
{
    if width == 0 {
        Seq::empty()
    } else {
        seq![(value % 256) as u8] + le_bytes(value / 256, (width - 1) as nat)
    }
}

/// The number whose base-256 digits, least significant first, are `bytes`.
pub open spec fn le_value(bytes: Seq<u8>) -> nat
    decreases bytes.len(),
{
    if bytes.len() == 0 {
        0
    } else {
        bytes[0] as nat + 256 * le_value(bytes.drop_first())
    }
}

/// The number of values that `width` base-256 digits can tell apart.
pub open spec fn radix(width: nat) -> nat
    decreases width,
{
    if width == 0 {
        1
    } else {
        256 * radix((width - 1) as nat)
    }
}

/// The bytes of a head: counter first, block number second.
pub open spec fn encode_spec(head: HeadView) -> Seq<u8> {
    le_bytes(head.counter, WORD_LEN as nat) + le_bytes(head.block_number, WORD_LEN as nat)
}

/// The head that `bytes` stand for, if they stand for one: there are exactly
/// sixteen of them and the counter they hold is in range.
pub open spec fn decode_spec(bytes: Seq<u8>) -> Option<HeadView> {
    if bytes.len() == HEAD_LEN && le_value(bytes.subrange(0, WORD_LEN as int)) <= MAX_COUNTER {
        Some(
            HeadView {
                counter: le_value(bytes.subrange(0, WORD_LEN as int)),
                block_number: le_value(bytes.subrange(WORD_LEN as int, HEAD_LEN as int)),
            },
        )
    } else {
        None
    }
}

/// The bytes of a proof of validity: prior head first, increment second.
pub open spec fn encode_proof_spec(pov: ProofView) -> Seq<u8> {
    encode_spec(pov.prior_head) + le_bytes(pov.delta, DELTA_LEN as nat)
}

/// The proof of validity that `bytes` stand for, if they stand for one: there
/// are exactly twenty of them and the first sixteen stand for a head.
pub open spec fn decode_proof_spec(bytes: Seq<u8>) -> Option<ProofView> {
    if bytes.len() == PROOF_LEN && decode_spec(bytes.subrange(0, HEAD_LEN as int)) is Some {
        Some(
            ProofView {
                prior_head: decode_spec(bytes.subrange(0, HEAD_LEN as int)).unwrap(),
                delta: le_value(bytes.subrange(HEAD_LEN as int, PROOF_LEN as int)),
            },
        )
    } else {
        None
    }
}

/// Writing `width` digits gives `width` bytes.
pub proof fn lemma_le_bytes_len(value: nat, width: nat)
    ensures
        le_bytes(value, width).len() == width,
    decreases width,
{
    if width > 0 {
        lemma_le_bytes_len(value / 256, (width - 1) as nat);
    }
}

/// Eight bytes tell apart as many values as 64 bits, four bytes as many as
/// 32 bits.
pub proof fn lemma_radix_eight()
    ensures
        radix(8) == 0x1_0000_0000_0000_0000,
        radix(4) == 0x1_0000_0000,
{
    reveal_with_fuel(radix, 9);
}

/// A byte string of length `n` stands for a number below `radix(n)`.
pub proof fn lemma_le_value_bound(bytes: Seq<u8>)
    ensures
        le_value(bytes) < radix(bytes.len()),
    decreases bytes.len(),
{
    if bytes.len() > 0 {
        lemma_le_value_bound(bytes.drop_first());
    }
}

/// Reading back the digits of a number that fits gives the number.
pub proof fn lemma_value_of_bytes(value: nat, width: nat)
    requires
        value < radix(width),
    ensures
        le_value(le_bytes(value, width)) == value,
    decreases width,
{
    if width > 0 {
        let rest = le_bytes(value / 256, (width - 1) as nat);
        lemma_value_of_bytes(value / 256, (width - 1) as nat);
        assert(le_bytes(value, width).drop_first() =~= rest);
    }
}

/// Writing out the number that a byte string stands for gives the string.
pub proof fn lemma_bytes_of_value(bytes: Seq<u8>)
    ensures
        le_bytes(le_value(bytes), bytes.len()) == bytes,
    decreases bytes.len(),
{
    if bytes.len() > 0 {
        let rest = bytes.drop_first();
        lemma_bytes_of_value(rest);
        assert(le_value(bytes) % 256 == bytes[0] as nat);
        assert(le_value(bytes) / 256 == le_value(rest));
        assert(le_bytes(le_value(bytes), bytes.len()) =~= seq![bytes[0]] + rest);
        assert(seq![bytes[0]] + rest =~= bytes);
    }
}

/// More digits tell more values apart.
pub proof fn lemma_radix_monotonic(a: nat, b: nat)
    requires
        a <= b,
    ensures
        radix(a) <= radix(b),
        radix(a) >= 1,
    decreases b,
{
    if a < b {
        lemma_radix_monotonic(a, (b - 1) as nat);
    } else if a > 0 {
        lemma_radix_monotonic((a - 1) as nat, (a - 1) as nat);
    }
}

/// The encoding of a head is sixteen bytes long.
pub proof fn lemma_encode_len(head: HeadView)
    ensures
        encode_spec(head).len() == HEAD_LEN,
{
    lemma_le_bytes_len(head.counter, WORD_LEN as nat);
    lemma_le_bytes_len(head.block_number, WORD_LEN as nat);
}

/// Decoding the encoding of a head gives the head back, provided its counter
/// is in range and its block number fits in 64 bits.
pub proof fn lemma_decode_encode(head: HeadView)
    requires
        head.counter <= MAX_COUNTER,
        head.block_number <= u64::MAX,
    ensures
        decode_spec(encode_spec(head)) == Some(head),
{
    let first = le_bytes(head.counter, WORD_LEN as nat);
    let second = le_bytes(head.block_number, WORD_LEN as nat);
    let bytes = encode_spec(head);
    lemma_encode_len(head);
    lemma_le_bytes_len(head.counter, WORD_LEN as nat);
    lemma_le_bytes_len(head.block_number, WORD_LEN as nat);
    assert(bytes.subrange(0, WORD_LEN as int) =~= first);
    assert(bytes.subrange(WORD_LEN as int, HEAD_LEN as int) =~= second);
    lemma_radix_eight();
    lemma_value_of_bytes(head.counter, WORD_LEN as nat);
    lemma_value_of_bytes(head.block_number, WORD_LEN as nat);
}

/// Bytes that decode to a head are the encoding of that head: no two byte
/// strings stand for the same head. The block number of a decoded head fits
/// in 64 bits.
pub proof fn lemma_encode_decode(bytes: Seq<u8>)
    requires
        decode_spec(bytes) is Some,
    ensures
        encode_spec(decode_spec(bytes).unwrap()) == bytes,
        decode_spec(bytes).unwrap().counter <= MAX_COUNTER,
        decode_spec(bytes).unwrap().block_number <= u64::MAX,
{
    let first = bytes.subrange(0, WORD_LEN as int);
    let second = bytes.subrange(WORD_LEN as int, HEAD_LEN as int);
    lemma_radix_eight();
    lemma_le_value_bound(second);
    lemma_bytes_of_value(first);
    lemma_bytes_of_value(second);
    assert(first + second =~= bytes);
}

/// Decoding the encoding of a proof of validity gives the proof back,
/// provided its prior head can be encoded and its increment fits in 32 bits.
pub proof fn lemma_decode_encode_proof(pov: ProofView)
    requires
        pov.prior_head.counter <= MAX_COUNTER,
        pov.prior_head.block_number <= u64::MAX,
        pov.delta <= u32::MAX,
    ensures
        encode_proof_spec(pov).len() == PROOF_LEN,
        decode_proof_spec(encode_proof_spec(pov)) == Some(pov),
{
    let head = encode_spec(pov.prior_head);
    let delta = le_bytes(pov.delta, DELTA_LEN as nat);
    let bytes = encode_proof_spec(pov);
    lemma_encode_len(pov.prior_head);
    lemma_le_bytes_len(pov.delta, DELTA_LEN as nat);
    assert(bytes.subrange(0, HEAD_LEN as int) =~= head);
    assert(bytes.subrange(HEAD_LEN as int, PROOF_LEN as int) =~= delta);
    lemma_decode_encode(pov.prior_head);
    lemma_radix_eight();
    lemma_value_of_bytes(pov.delta, DELTA_LEN as nat);
}

/// Bytes that decode to a proof of validity are the encoding of that proof,
/// and the increment of a decoded proof fits in 32 bits.
pub proof fn lemma_encode_decode_proof(bytes: Seq<u8>)
    requires
        decode_proof_spec(bytes) is Some,
    ensures
        encode_proof_spec(decode_proof_spec(bytes).unwrap()) == bytes,
        decode_proof_spec(bytes).unwrap().delta <= u32::MAX,
{
    let head = bytes.subrange(0, HEAD_LEN as int);
    let delta = bytes.subrange(HEAD_LEN as int, PROOF_LEN as int);
    lemma_encode_decode(head);
    lemma_radix_eight();
    lemma_le_value_bound(delta);
    lemma_bytes_of_value(delta);
    assert(head + delta =~= bytes);
}

/// Appends the `width` lowest bytes of `value` to `out`, least significant
/// first.
fn push_le(out: &mut Vec<u8>, value: u64, width: usize)
    ensures
        final(out)@ == old(out)@ + le_bytes(value as nat, width as nat),
{
    let ghost start = out@;
    let mut rest: u64 = value;
    let mut i: usize = 0;
    while i < width
        invariant
            i <= width,
            out@ + le_bytes(rest as nat, (width - i) as nat) == start + le_bytes(
                value as nat,
                width as nat,
            ),
        decreases width - i,
    {
        let ghost before = out@;
        let digit: u8 = (rest % 256) as u8;
        out.push(digit);
        proof {
            let tail = le_bytes((rest / 256) as nat, (width - i - 1) as nat);
            assert(le_bytes(rest as nat, (width - i) as nat) == seq![digit] + tail);
            assert(before + (seq![digit] + tail) =~= before.push(digit) + tail);
        }
        rest = rest / 256;
        i += 1;
    }
    assert(out@ + le_bytes(rest as nat, 0) =~= out@);
}

/// Reads the number that the `width` bytes from `start` on stand for.
fn read_le(bytes: &[u8], start: usize, width: usize) -> (value: u64)
    requires
        width <= WORD_LEN,
        start + width <= bytes@.len(),
    ensures
        value == le_value(bytes@.subrange(start as int, start + width)),
{
    let len: usize = bytes.len();
    let end: usize = start + width;
    let mut value: u64 = 0;
    let mut i: usize = width;
    assert(bytes@.subrange(start + width, end as int).len() == 0);
    while i > 0
        invariant
            i <= width,
            width <= WORD_LEN,
            end == start + width,
            end <= len,
            len == bytes@.len(),
            value == le_value(bytes@.subrange(start + i, end as int)),
        decreases i,
    {
        i -= 1;
        proof {
            let higher = bytes@.subrange(start + i + 1, end as int);
            let here = bytes@.subrange(start + i, end as int);
            assert(here.drop_first() =~= higher);
            lemma_le_value_bound(higher);
            lemma_radix_monotonic(higher.len(), 7);
            lemma_radix_eight();
            assert(radix(8) == 256 * radix(7));
        }
        value = value * 256 + bytes[start + i] as u64;
    }
    value
}

impl HeadData {
    /// The sixteen bytes that stand for this head. They decode to this head
    /// again.
    pub fn encode(&self) -> (bytes: Vec<u8>)
        ensures
            bytes@ == encode_spec(self@),
            bytes@.len() == HEAD_LEN,
            decode_spec(bytes@) == Some(self@),
    {
        let mut bytes: Vec<u8> = Vec::new();
        let counter: u64 = self.counter.value();
        push_le(&mut bytes, counter, WORD_LEN);
        push_le(&mut bytes, self.block_number, WORD_LEN);
        proof {
            assert(bytes@ =~= encode_spec(self@));
            lemma_encode_len(self@);
            lemma_decode_encode(self@);
        }
        bytes
    }

    /// The head that `bytes` stand for. There is one exactly when `bytes` has
    /// sixteen bytes and the counter in the first eight is in range. Its
    /// encoding is `bytes`.
    pub fn decode(bytes: &[u8]) -> (head: Option<HeadData>)
        ensures
            match head {
                Some(h) => decode_spec(bytes@) == Some(h@) && encode_spec(h@) == bytes@,
                None => decode_spec(bytes@) is None,
            },
    {
        if bytes.len() != HEAD_LEN {
            return None;
        }
        let counter: u64 = read_le(bytes, 0, WORD_LEN);
        let block_number: u64 = read_le(bytes, WORD_LEN, WORD_LEN);
        proof {
            if decode_spec(bytes@) is Some {
                lemma_encode_decode(bytes@);
            }
        }
        HeadData::new(counter, block_number)
    }
}

impl ProofOfValidity {
    /// The twenty bytes that stand for this proof. They decode to this proof
    /// again.
    pub fn encode(&self) -> (bytes: Vec<u8>)
        ensures
            bytes@ == encode_proof_spec(self@),
            bytes@.len() == PROOF_LEN,
            decode_proof_spec(bytes@) == Some(self@),
    {
        let mut bytes = self.prior_head.encode();
        push_le(&mut bytes, self.delta as u64, DELTA_LEN);
        proof {
            lemma_decode_encode_proof(self@);
        }
        bytes
    }

    /// The proof that `bytes` stand for. There is one exactly when `bytes`
    /// has twenty bytes and the first sixteen stand for a head. Its encoding
    /// is `bytes`.
    pub fn decode(bytes: &[u8]) -> (decoded: Option<ProofOfValidity>)
        ensures
            match decoded {
                Some(p) => decode_proof_spec(bytes@) == Some(p@) && encode_proof_spec(p@)
                    == bytes@,
                None => decode_proof_spec(bytes@) is None,
            },
    {
        if bytes.len() != PROOF_LEN {
            return None;
        }
        let head = vstd::slice::slice_subrange(bytes, 0, HEAD_LEN);
        match HeadData::decode(head) {
            Some(prior_head) => {
                let delta: u64 = read_le(bytes, HEAD_LEN, DELTA_LEN);
                proof {
                    lemma_encode_decode_proof(bytes@);
                }
                Some(ProofOfValidity { prior_head, delta: delta as u32 })
            },
            None => None,
        }
    }
}

} // verus!
