//! Core of a proof-of-space-and-time farmer: proof of time, sector
//! encoding and plotting, and the decisions of piece retrieval.

pub mod pot;
pub mod encoding;
pub mod plotting;
pub mod retrieval;
