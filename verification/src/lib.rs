//! A fee-bumping relay for a two-leg transaction scheme: a zero-fee parent
//! transaction carrying a zero-value anchor output, and a child transaction
//! that spends the anchor together with the operator's own funds to raise the
//! effective fee rate of the pair (child pays for parent).
//!
//! The library holds the verified core: coin selection, transaction assembly
//! and consensus encoding, fee and virtual-size arithmetic, the structural
//! checks on a submitted parent transaction, and the submission pipeline as a
//! state machine over plain values. Network and node I/O live outside it.

pub mod model;
pub mod codec;
pub mod select;
pub mod encoding;
pub mod external;
pub mod assemble;
pub mod validate;
pub mod orchestrate;
