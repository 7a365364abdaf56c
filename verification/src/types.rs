use vstd::prelude::*;

use crate::address::Addr;

verus! {

/// Every way in which an entry point of the circle can refuse a request.
#[derive(Clone, Copy, Debug, PartialEq, Eq, Structural)]
pub enum AjoError {
    NotFound,
    Unauthorized,
    AlreadyExists,
    InvalidInput,
    AlreadyPaid,
    InsufficientFunds,
    Disqualified,
    VoteAlreadyActive,
    NoActiveVote,
    AlreadyVoted,
    CircleNotActive,
    CircleAlreadyDissolved,
    CircleAtCapacity,
    CirclePanicked,
    PriceUnavailable,
    ArithmeticOverflow,
}

impl AjoError {
    /// The number under which the error is published on the ledger.
    pub fn code(&self) -> (r: u32)
        ensures
            1 <= r <= 16,
            r == error_code(*self),
    {
        match self {
            AjoError::NotFound => 1,
            AjoError::Unauthorized => 2,
            AjoError::AlreadyExists => 3,
            AjoError::InvalidInput => 4,
            AjoError::AlreadyPaid => 5,
            AjoError::InsufficientFunds => 6,
            AjoError::Disqualified => 7,
            AjoError::VoteAlreadyActive => 8,
            AjoError::NoActiveVote => 9,
            AjoError::AlreadyVoted => 10,
            AjoError::CircleNotActive => 11,
            AjoError::CircleAlreadyDissolved => 12,
            AjoError::CircleAtCapacity => 13,
            AjoError::CirclePanicked => 14,
            AjoError::PriceUnavailable => 15,
            AjoError::ArithmeticOverflow => 16,
        }
    }
}

/// The number under which each error is published on the ledger.
pub open spec fn error_code(e: AjoError) -> u32 {
    match e {
        AjoError::NotFound => 1,
        AjoError::Unauthorized => 2,
        AjoError::AlreadyExists => 3,
        AjoError::InvalidInput => 4,
        AjoError::AlreadyPaid => 5,
        AjoError::InsufficientFunds => 6,
        AjoError::Disqualified => 7,
        AjoError::VoteAlreadyActive => 8,
        AjoError::NoActiveVote => 9,
        AjoError::AlreadyVoted => 10,
        AjoError::CircleNotActive => 11,
        AjoError::CircleAlreadyDissolved => 12,
        AjoError::CircleAtCapacity => 13,
        AjoError::CirclePanicked => 14,
        AjoError::PriceUnavailable => 15,
        AjoError::ArithmeticOverflow => 16,
    }
}

/// The settings and progress of a circle.
#[derive(Clone, Copy, Debug, PartialEq, Eq, Structural)]
pub struct CircleData {
    pub organizer: Addr,
    pub token_address: Addr,
    pub contribution_amount: i128,
    pub frequency_days: u32,
    pub max_rounds: u32,
    pub current_round: u32,
    pub member_count: u32,
    pub max_members: u32,
}

/// What the circle records of one member. `status` is 0 while the member
/// takes part and 2 once the member has left.
#[derive(Clone, Copy, Debug, PartialEq, Eq, Structural)]
pub struct MemberData {
    pub address: Addr,
    pub total_contributed: i128,
    pub total_withdrawn: i128,
    pub has_received_payout: bool,
    pub status: u32,
}

/// The life cycle of a circle.
#[derive(Clone, Copy, Debug, PartialEq, Eq, Structural)]
pub enum CircleStatus {
    Active,
    VotingForDissolution,
    Dissolved,
    Panicked,
}

/// A running vote on dissolving the circle. `threshold_mode` 0 asks for a
/// simple majority, 1 for more than 66 percent.
#[derive(Clone, Copy, Debug, PartialEq, Eq, Structural)]
pub struct DissolutionVote {
    pub votes_for: u32,
    pub total_members: u32,
    pub threshold_mode: u32,
}

/// How reliably a member pays: missed rounds, and whether the member may
/// still take part.
#[derive(Clone, Copy, Debug, PartialEq, Eq, Structural)]
pub struct MemberStanding {
    pub missed_count: u32,
    pub is_active: bool,
}

/// The names of the entries of the circle's storage.
#[derive(Clone, Copy, Debug, PartialEq, Eq, Structural)]
pub enum DataKey {
    Circle,
    Members,
    Standings,
    Admin,
    KycStatus,
    CircleStatus,
    DissolutionVote,
    VoteCast,
    RotationOrder,
    RoundDeadline,
    RoundContribCount,
    EthUsdPrice,
    EthUsdDecimals,
    LastDepositAt,
    TotalPool,
}

/// A token payment that an accepted request makes, in the circle's token.
#[derive(Clone, Copy, Debug, PartialEq, Eq, Structural)]
pub enum Payment {
    /// The member pays `amount` into the circle's account.
    FromMember { token: Addr, member: Addr, amount: i128 },
    /// The circle's account pays `amount` out to the member.
    ToMember { token: Addr, member: Addr, amount: i128 },
}

} // verus!
