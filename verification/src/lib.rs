//! A rotating savings circle ("ajo"): members pay a fixed contribution each
//! round, one member collects the pot per round, and the circle can be put
//! into an emergency stop or dissolved by vote, after which members take back
//! what they paid in and did not withdraw.
//!
//! [`AjoCircle`] holds the circle's storage. Each entry point is a method that
//! checks the request, updates the storage and hands back the token payment
//! that the host has to make. [`CircleStore`] is the storage as mathematical
//! values; its spec functions say what every entry point does, and the
//! methods of [`AjoCircle`] are proved to do exactly that. [`laws`] proves
//! what holds across requests.
mod addr_map;
mod address;
mod arith;
mod circle;
pub mod laws;
mod rotation;
mod store;
mod types;

pub use addr_map::{key_order, values_in_key_order, AddrMap};
pub use address::{addr_lt, Addr};
pub use arith::pow10;
pub use circle::AjoCircle;
pub use rotation::{
    digest_of_sequence, rotation_digest, sha256_digest, shuffle_with_digest, shuffled, u32_be_bytes,
};
pub use store::{
    CircleStore, Outcome, HARD_CAP, MAX_MEMBERS, MISSED_ROUNDS_LIMIT, SECONDS_PER_DAY,
    WITHDRAWAL_FEE_PERCENT,
};
pub use types::{
    AjoError, CircleData, CircleStatus, DataKey, DissolutionVote, MemberData, MemberStanding,
    Payment,
};
