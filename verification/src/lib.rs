//! Verified core of the EduChain certification system: the state machines of the
//! certificate, reward-token, mentoring-escrow and content-anchor contracts, the
//! on-chain encoding of certificate attributes, and the client-side helpers.

pub mod amount;
pub mod bytes;
pub mod hashing;
pub mod keylist;
pub mod chain;
pub mod escrow;
pub mod token_id;
pub mod token;
pub mod anchor;
pub mod codec;
pub mod certificate;
pub mod nft;
pub mod config;
pub mod interact;
