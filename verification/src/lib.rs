//! A commitment-scheme library: a generic commitment capability and a
//! Pedersen construction over an abstract group, with verified contracts.

pub mod commitment;
pub mod group;
pub mod modgroup;
pub mod natural;
pub mod pedersen;

pub use commitment::Commitment;
pub use commitment::CommitmentError;
pub use natural::Natural;
pub use pedersen::PedersenCommitment;
pub use pedersen::SerializableCurvePointProjective;
