//! Collation pipeline of a minimal "adder" parachain collator.
//!
//! The parachain keeps one bounded counter. Each block adds a small increment
//! to it. The crate derives the genesis head, executes the state transition,
//! packages every produced head with the proof a validator needs to re-execute
//! it, and decides the steps of the registration handshake with the
//! relay-chain node.
//!
//! - [`state`]: the counter and the head data.
//! - [`transition`]: the state-transition function.
//! - [`codec`]: the bytes of heads and proofs of validity.
//! - [`genesis`]: the genesis head and the validation code.
//! - [`hex`]: hexadecimal text.
//! - [`identity`]: the collator's key and identifier.
//! - [`collation`]: candidates and the collation builder.
//! - [`collation_lemmas`]: what holds across several collation requests.
//! - [`role`]: the check of the node's role.
//! - [`bridge`]: the registration handshake as a state machine.
//! - [`weights`]: weights of the vesting calls of the relay-chain runtime.

pub mod bridge;
pub mod codec;
pub mod collation;
pub mod collation_lemmas;
pub mod genesis;
pub mod hex;
pub mod identity;
pub mod role;
pub mod state;
pub mod transition;
pub mod weights;
