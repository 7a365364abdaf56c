use vstd::prelude::*;

use crate::addr_map::key_order;
use crate::address::Addr;
use crate::arith::pow10;
use crate::rotation::{digest_of_sequence, shuffled};
use crate::types::{AjoError, CircleData, CircleStatus, DissolutionVote, MemberData, MemberStanding, Payment};

verus! {

/// Members a circle takes when its organizer names no limit.
pub const MAX_MEMBERS: u32 = 50;

/// The most members a circle can ever take.
pub const HARD_CAP: u32 = 100;

/// Seconds in a day of the ledger's clock.
pub const SECONDS_PER_DAY: u64 = 86400;

/// A member who has missed this many rounds may no longer pay in.
pub const MISSED_ROUNDS_LIMIT: u32 = 3;

/// The part of a partial withdrawal, in percent, that stays in the circle.
pub const WITHDRAWAL_FEE_PERCENT: i128 = 10;

/// The member record that joining creates.
pub open spec fn new_member(a: Addr) -> MemberData {
    MemberData {
        address: a,
        total_contributed: 0,
        total_withdrawn: 0,
        has_received_payout: false,
        status: 0,
    }
}

/// The standing that joining creates.
pub open spec fn new_standing() -> MemberStanding {
    MemberStanding { missed_count: 0, is_active: true }
}

/// A map that storage may not hold yet, read as empty when it is missing.
pub open spec fn or_empty<V>(m: Option<Map<Addr, V>>) -> Map<Addr, V> {
    match m {
        Some(m) => m,
        None => Map::empty(),
    }
}

/// What happens to a request: it is accepted with a result, refused with an
/// error (and then changes nothing), or it halts the host, which undoes the
/// whole request.
pub enum Outcome<T> {
    Accepted(T),
    Refused(AjoError),
    Halted,
}

/// What the circle's storage holds, entry by entry (`None` where an entry was
/// never written).
#[verifier::ext_equal]
pub struct CircleStore {
    pub circle: Option<CircleData>,
    pub members: Option<Map<Addr, MemberData>>,
    pub standings: Option<Map<Addr, MemberStanding>>,
    pub admin: Option<Addr>,
    pub kyc_status: Option<Map<Addr, bool>>,
    pub circle_status: Option<CircleStatus>,
    pub dissolution_vote: Option<DissolutionVote>,
    pub vote_cast: Option<Map<Addr, bool>>,
    pub rotation_order: Option<Seq<Addr>>,
    pub round_deadline: Option<u64>,
    pub round_contrib_count: Option<u32>,
    pub eth_usd_price: Option<i128>,
    pub eth_usd_decimals: Option<u32>,
    pub last_deposit_at: Option<Map<Addr, u64>>,
    pub total_pool: Option<i128>,
}

/// `x` as a quotient of Rust's integer division, rounded toward zero.
pub open spec fn div_toward_zero(x: int, d: int) -> int {
    if x >= 0 && d > 0 {
        x / d
    } else if x >= 0 && d < 0 {
        -(x / -d)
    } else if x < 0 && d > 0 {
        -(-x / d)
    } else {
        -x / -d
    }
}

/// Whether `v` fits in an `i128`.
pub open spec fn fits_i128(v: int) -> bool {
    i128::MIN <= v <= i128::MAX
}

impl CircleStore {
    /// Storage of a circle that was never set up.
    pub open spec fn empty() -> CircleStore {
        CircleStore {
            circle: None,
            members: None,
            standings: None,
            admin: None,
            kyc_status: None,
            circle_status: None,
            dissolution_vote: None,
            vote_cast: None,
            rotation_order: None,
            round_deadline: None,
            round_contrib_count: None,
            eth_usd_price: None,
            eth_usd_decimals: None,
            last_deposit_at: None,
            total_pool: None,
        }
    }

    /// The circle's status; `Active` until anything else was written.
    pub open spec fn status(self) -> CircleStatus {
        match self.circle_status {
            Some(st) => st,
            None => CircleStatus::Active,
        }
    }

    /// Whether `admin` is the stored admin.
    pub open spec fn admin_check(self, admin: Addr) -> Result<(), AjoError> {
        match self.admin {
            None => Err(AjoError::NotFound),
            Some(a) => if a != admin {
                Err(AjoError::Unauthorized)
            } else {
                Ok(())
            },
        }
    }

    /// Setting a circle up, at ledger time `now`.
    pub open spec fn initialize_circle(
        self,
        organizer: Addr,
        token_address: Addr,
        contribution_amount: i128,
        frequency_days: u32,
        max_rounds: u32,
        max_members: u32,
        now: u64,
    ) -> Outcome<CircleStore> {
        let cap = if max_members == 0 {
            MAX_MEMBERS
        } else {
            max_members
        };
        let deadline = now + frequency_days * SECONDS_PER_DAY;
        if contribution_amount <= 0 || frequency_days == 0 || max_rounds == 0 || cap == 0 || cap
            > HARD_CAP {
            Outcome::Refused(AjoError::InvalidInput)
        } else if deadline > u64::MAX {
            Outcome::Halted
        } else {
            Outcome::Accepted(
                CircleStore {
                    circle: Some(
                        CircleData {
                            organizer,
                            token_address,
                            contribution_amount,
                            frequency_days,
                            max_rounds,
                            current_round: 1,
                            member_count: 1,
                            max_members: cap,
                        },
                    ),
                    admin: Some(organizer),
                    round_contrib_count: Some(0),
                    round_deadline: Some(deadline as u64),
                    members: Some(Map::empty().insert(organizer, new_member(organizer))),
                    standings: Some(Map::empty().insert(organizer, new_standing())),
                    ..self
                },
            )
        }
    }

    /// The organizer admits `new_member`.
    pub open spec fn join_circle(self, organizer: Addr, new_member_addr: Addr) -> Result<
        CircleStore,
        AjoError,
    > {
        if self.status() == CircleStatus::Panicked {
            Err(AjoError::CirclePanicked)
        } else {
            match self.circle {
                None => Err(AjoError::NotFound),
                Some(c) => if c.organizer != organizer {
                    Err(AjoError::Unauthorized)
                } else {
                    match self.members {
                        None => Err(AjoError::NotFound),
                        Some(ms) => if ms.contains_key(new_member_addr) {
                            Err(AjoError::AlreadyExists)
                        } else if c.member_count >= c.max_members {
                            Err(AjoError::CircleAtCapacity)
                        } else if c.member_count + 1 > u32::MAX {
                            Err(AjoError::InvalidInput)
                        } else {
                            Ok(
                                CircleStore {
                                    members: Some(
                                        ms.insert(new_member_addr, new_member(new_member_addr)),
                                    ),
                                    circle: Some(
                                        CircleData {
                                            member_count: (c.member_count + 1) as u32,
                                            ..c
                                        },
                                    ),
                                    standings: Some(
                                        or_empty(self.standings).insert(
                                            new_member_addr,
                                            new_standing(),
                                        ),
                                    ),
                                    ..self
                                },
                            )
                        },
                    }
                },
            }
        }
    }

    /// `member` pays `amount` in; the payment goes with the result.
    pub open spec fn contribute(self, member: Addr, amount: i128) -> Outcome<
        (CircleStore, Payment),
    > {
        if self.status() == CircleStatus::Panicked {
            Outcome::Refused(AjoError::CirclePanicked)
        } else if amount <= 0 {
            Outcome::Refused(AjoError::InvalidInput)
        } else {
            match (self.circle, self.standings) {
                (None, _) => Outcome::Refused(AjoError::NotFound),
                (_, None) => Outcome::Refused(AjoError::NotFound),
                (Some(c), Some(st)) => if !st.contains_key(member) {
                    Outcome::Refused(AjoError::NotFound)
                } else if st[member].missed_count >= MISSED_ROUNDS_LIMIT {
                    Outcome::Halted
                } else if !st[member].is_active {
                    Outcome::Refused(AjoError::Disqualified)
                } else {
                    match self.members {
                        None => Outcome::Refused(AjoError::NotFound),
                        Some(ms) => if !ms.contains_key(member) {
                            Outcome::Refused(AjoError::NotFound)
                        } else {
                            self.record_contribution(c, st, ms, member, amount)
                        },
                    }
                },
            }
        }
    }

    /// The bookkeeping of an accepted contribution: the member's total grows,
    /// and a member who thereby completes the round is counted; when every
    /// member has, the deadline moves on, the round advances (up to
    /// `max_rounds`) and the count starts over.
    pub open spec fn record_contribution(
        self,
        c: CircleData,
        st: Map<Addr, MemberStanding>,
        ms: Map<Addr, MemberData>,
        member: Addr,
        amount: i128,
    ) -> Outcome<(CircleStore, Payment)> {
        let md = ms[member];
        let target = c.current_round * c.contribution_amount;
        let total = md.total_contributed + amount;
        if !fits_i128(target) || !fits_i128(total) {
            Outcome::Refused(AjoError::ArithmeticOverflow)
        } else {
            let members = Some(
                ms.insert(member, MemberData { total_contributed: total as i128, ..md }),
            );
            let standings = Some(
                st.insert(member, MemberStanding { missed_count: 0, ..st[member] }),
            );
            let pay = Payment::FromMember { token: c.token_address, member, amount };
            let completes = md.total_contributed < target && total >= target;
            let count = self.round_contrib_count.unwrap_or(0) + 1;
            let deadline = self.round_deadline.unwrap_or(0) + c.frequency_days * SECONDS_PER_DAY;
            if !completes {
                Outcome::Accepted((CircleStore { members, standings, ..self }, pay))
            } else if count > u32::MAX {
                Outcome::Refused(AjoError::ArithmeticOverflow)
            } else if count < c.member_count {
                Outcome::Accepted(
                    (
                        CircleStore {
                            members,
                            standings,
                            round_contrib_count: Some(count as u32),
                            ..self
                        },
                        pay,
                    ),
                )
            } else if deadline > u64::MAX {
                Outcome::Halted
            } else {
                let next = if c.current_round < c.max_rounds {
                    CircleData { current_round: (c.current_round + 1) as u32, ..c }
                } else {
                    c
                };
                Outcome::Accepted(
                    (
                        CircleStore {
                            members,
                            standings,
                            round_deadline: Some(deadline as u64),
                            circle: Some(next),
                            round_contrib_count: Some(0),
                            ..self
                        },
                        pay,
                    ),
                )
            }
        }
    }

    /// Whether a contribution passes every check made before its payment:
    /// the member's standing and record exist, the member may pay in, and
    /// the round's target fits an `i128`.
    pub open spec fn contribution_reaches_payment(self, member: Addr, amount: i128) -> bool {
        &&& self.status() != CircleStatus::Panicked
        &&& amount > 0
        &&& self.circle is Some
        &&& self.standings is Some
        &&& self.standings.unwrap().contains_key(member)
        &&& self.standings.unwrap()[member].missed_count < MISSED_ROUNDS_LIMIT
        &&& self.standings.unwrap()[member].is_active
        &&& self.members is Some
        &&& self.members.unwrap().contains_key(member)
        &&& fits_i128(self.circle.unwrap().current_round * self.circle.unwrap().contribution_amount)
    }

    /// Whether a contribution is refused only after its payment was made:
    /// the member's new total, or the count of members who completed the
    /// round, overflows.
    pub open spec fn contribute_refused_after_payment(self, member: Addr, amount: i128) -> bool {
        self.contribution_reaches_payment(member, amount) && self.contribute(member, amount) is Refused
    }

    /// Whether a deposit is refused only after its payment was made: its
    /// contribution is, or the pool overflows.
    pub open spec fn deposit_refused_after_payment(self, member: Addr, now: u64) -> bool {
        self.circle is Some && self.contribution_reaches_payment(
            member,
            self.circle.unwrap().contribution_amount,
        ) && self.deposit(member, now) is Refused
    }

    /// `member` pays the circle's contribution amount in, at ledger time `now`.
    pub open spec fn deposit(self, member: Addr, now: u64) -> Outcome<(CircleStore, Payment)> {
        match self.circle {
            None => Outcome::Refused(AjoError::NotFound),
            Some(c) => match self.contribute(member, c.contribution_amount) {
                Outcome::Halted => Outcome::Halted,
                Outcome::Refused(e) => Outcome::Refused(e),
                Outcome::Accepted((s, pay)) => {
                    let pool = s.total_pool.unwrap_or(0) + c.contribution_amount;
                    if !fits_i128(pool) {
                        Outcome::Refused(AjoError::ArithmeticOverflow)
                    } else {
                        Outcome::Accepted(
                            (
                                CircleStore {
                                    last_deposit_at: Some(
                                        or_empty(s.last_deposit_at).insert(member, now),
                                    ),
                                    total_pool: Some(pool as i128),
                                    ..s
                                },
                                pay,
                            ),
                        )
                    }
                },
            },
        }
    }

    /// `member` collects the pot: every member's contribution amount.
    pub open spec fn claim_payout(self, member: Addr) -> Outcome<(CircleStore, Payment)> {
        if self.status() == CircleStatus::Panicked {
            Outcome::Refused(AjoError::CirclePanicked)
        } else {
            match self.circle {
                None => Outcome::Refused(AjoError::NotFound),
                Some(c) => {
                    let st = or_empty(self.standings);
                    if st.contains_key(member) && !st[member].is_active {
                        Outcome::Refused(AjoError::Disqualified)
                    } else {
                        match self.members {
                            None => Outcome::Refused(AjoError::NotFound),
                            Some(ms) => match self.rotation_order {
                                Some(rot) => if c.current_round == 0 {
                                    Outcome::Halted
                                } else if c.current_round - 1 >= rot.len() {
                                    Outcome::Refused(AjoError::InvalidInput)
                                } else if rot[c.current_round - 1] != member {
                                    Outcome::Refused(AjoError::Unauthorized)
                                } else {
                                    self.pay_out(c, ms, member)
                                },
                                None => self.pay_out(c, ms, member),
                            },
                        }
                    }
                },
            }
        }
    }

    /// The pot goes to `member`, once.
    pub open spec fn pay_out(self, c: CircleData, ms: Map<Addr, MemberData>, member: Addr) -> Outcome<
        (CircleStore, Payment),
    > {
        if !ms.contains_key(member) {
            Outcome::Refused(AjoError::NotFound)
        } else if ms[member].has_received_payout {
            Outcome::Refused(AjoError::AlreadyPaid)
        } else {
            let md = ms[member];
            let payout = c.member_count * c.contribution_amount;
            let withdrawn = md.total_withdrawn + payout;
            if !fits_i128(payout) || !fits_i128(withdrawn) {
                Outcome::Halted
            } else {
                Outcome::Accepted(
                    (
                        CircleStore {
                            members: Some(
                                ms.insert(
                                    member,
                                    MemberData {
                                        has_received_payout: true,
                                        total_withdrawn: withdrawn as i128,
                                        ..md
                                    },
                                ),
                            ),
                            ..self
                        },
                        Payment::ToMember {
                            token: c.token_address,
                            member,
                            amount: payout as i128,
                        },
                    ),
                )
            }
        }
    }

    /// `member` takes `amount` of what it paid in back, less the fee.
    pub open spec fn partial_withdraw(self, member: Addr, amount: i128) -> Outcome<
        (CircleStore, Payment),
    > {
        if self.status() == CircleStatus::Panicked {
            Outcome::Refused(AjoError::CirclePanicked)
        } else if amount <= 0 {
            Outcome::Refused(AjoError::InvalidInput)
        } else {
            match self.members {
                None => Outcome::Refused(AjoError::NotFound),
                Some(ms) => if !ms.contains_key(member) {
                    Outcome::Refused(AjoError::NotFound)
                } else {
                    let md = ms[member];
                    let available = md.total_contributed - md.total_withdrawn;
                    let withdrawn = md.total_withdrawn + amount;
                    let net = amount - amount * WITHDRAWAL_FEE_PERCENT / 100;
                    if !fits_i128(available) {
                        Outcome::Halted
                    } else if amount > available {
                        Outcome::Refused(AjoError::InsufficientFunds)
                    } else if !fits_i128(amount * WITHDRAWAL_FEE_PERCENT) {
                        Outcome::Halted
                    } else {
                        match self.circle {
                            None => Outcome::Refused(AjoError::NotFound),
                            Some(c) => if !fits_i128(withdrawn) {
                                Outcome::Halted
                            } else {
                                Outcome::Accepted(
                                    (
                                        CircleStore {
                                            members: Some(
                                                ms.insert(
                                                    member,
                                                    MemberData {
                                                        total_withdrawn: withdrawn as i128,
                                                        ..md
                                                    },
                                                ),
                                            ),
                                            ..self
                                        },
                                        Payment::ToMember {
                                            token: c.token_address,
                                            member,
                                            amount: net as i128,
                                        },
                                    ),
                                )
                            },
                        }
                    }
                },
            }
        }
    }

    /// A member or the organizer opens a vote on dissolving the circle.
    pub open spec fn start_dissolution_vote(self, caller: Addr, threshold_mode: u32) -> Result<
        CircleStore,
        AjoError,
    > {
        if threshold_mode > 1 {
            Err(AjoError::InvalidInput)
        } else {
            match self.circle {
                None => Err(AjoError::NotFound),
                Some(c) => match self.status() {
                    CircleStatus::Dissolved => Err(AjoError::CircleAlreadyDissolved),
                    CircleStatus::VotingForDissolution => Err(AjoError::VoteAlreadyActive),
                    CircleStatus::Panicked => Err(AjoError::CirclePanicked),
                    CircleStatus::Active => match self.members {
                        None => Err(AjoError::NotFound),
                        Some(ms) => if !ms.contains_key(caller) && c.organizer != caller {
                            Err(AjoError::Unauthorized)
                        } else {
                            Ok(
                                CircleStore {
                                    circle_status: Some(CircleStatus::VotingForDissolution),
                                    dissolution_vote: Some(
                                        DissolutionVote {
                                            votes_for: 0,
                                            total_members: c.member_count,
                                            threshold_mode,
                                        },
                                    ),
                                    vote_cast: Some(Map::empty()),
                                    ..self
                                },
                            )
                        },
                    },
                },
            }
        }
    }

    /// Whether `votes` of `total` meet the vote's threshold.
    pub open spec fn threshold_met(mode: u32, votes: int, total: int) -> bool {
        if mode == 1 {
            votes * 100 > total * 66
        } else {
            votes * 2 > total
        }
    }

    /// Whether counting `votes` of `total` overflows a `u32`.
    pub open spec fn threshold_overflows(mode: u32, votes: int, total: int) -> bool {
        if mode == 1 {
            votes * 100 > u32::MAX || total * 66 > u32::MAX
        } else {
            votes * 2 > u32::MAX
        }
    }

    /// `member` votes for dissolving the circle; the circle is dissolved once
    /// the votes meet the threshold.
    pub open spec fn vote_to_dissolve(self, member: Addr) -> Outcome<CircleStore> {
        if self.status() != CircleStatus::VotingForDissolution {
            Outcome::Refused(AjoError::NoActiveVote)
        } else {
            match self.members {
                None => Outcome::Refused(AjoError::NotFound),
                Some(ms) => if !ms.contains_key(member) {
                    Outcome::Refused(AjoError::Unauthorized)
                } else {
                    let cast = or_empty(self.vote_cast);
                    if cast.contains_key(member) && cast[member] {
                        Outcome::Refused(AjoError::AlreadyVoted)
                    } else {
                        match self.dissolution_vote {
                            None => Outcome::Refused(AjoError::NoActiveVote),
                            Some(v) => {
                                let votes = v.votes_for + 1;
                                if votes > u32::MAX || Self::threshold_overflows(
                                    v.threshold_mode,
                                    votes,
                                    v.total_members as int,
                                ) {
                                    Outcome::Halted
                                } else {
                                    Outcome::Accepted(
                                        CircleStore {
                                            vote_cast: Some(cast.insert(member, true)),
                                            dissolution_vote: Some(
                                                DissolutionVote { votes_for: votes as u32, ..v },
                                            ),
                                            circle_status: if Self::threshold_met(
                                                v.threshold_mode,
                                                votes,
                                                v.total_members as int,
                                            ) {
                                                Some(CircleStatus::Dissolved)
                                            } else {
                                                self.circle_status
                                            },
                                            ..self
                                        },
                                    )
                                }
                            },
                        }
                    }
                },
            }
        }
    }

    /// `member` takes back all it paid in and did not withdraw, and leaves;
    /// only while the circle has status `required`.
    pub open spec fn refund(self, member: Addr, required: CircleStatus) -> Outcome<
        (CircleStore, Payment),
    > {
        if self.status() != required {
            Outcome::Refused(AjoError::CircleNotActive)
        } else {
            match self.members {
                None => Outcome::Refused(AjoError::NotFound),
                Some(ms) => if !ms.contains_key(member) {
                    Outcome::Refused(AjoError::NotFound)
                } else {
                    let md = ms[member];
                    let refund = md.total_contributed - md.total_withdrawn;
                    if !fits_i128(refund) {
                        Outcome::Halted
                    } else if refund <= 0 {
                        Outcome::Refused(AjoError::InsufficientFunds)
                    } else {
                        match self.circle {
                            None => Outcome::Refused(AjoError::NotFound),
                            Some(c) => Outcome::Accepted(
                                (
                                    CircleStore {
                                        members: Some(
                                            ms.insert(
                                                member,
                                                MemberData {
                                                    total_withdrawn: md.total_contributed,
                                                    status: 2,
                                                    ..md
                                                },
                                            ),
                                        ),
                                        ..self
                                    },
                                    Payment::ToMember {
                                        token: c.token_address,
                                        member,
                                        amount: refund as i128,
                                    },
                                ),
                            ),
                        }
                    }
                },
            }
        }
    }

    /// The admin stops the circle in an emergency.
    pub open spec fn panic(self, admin: Addr) -> Result<CircleStore, AjoError> {
        match self.admin_check(admin) {
            Err(e) => Err(e),
            Ok(()) => if self.status() == CircleStatus::Dissolved {
                Err(AjoError::CircleAlreadyDissolved)
            } else if self.status() == CircleStatus::Panicked {
                Err(AjoError::CirclePanicked)
            } else {
                Ok(CircleStore { circle_status: Some(CircleStatus::Panicked), ..self })
            },
        }
    }

    /// Whether `member` is recorded as identity-checked.
    pub open spec fn is_kyc_verified(self, member: Addr) -> bool {
        let kyc = or_empty(self.kyc_status);
        kyc.contains_key(member) && kyc[member]
    }

    /// The admin records whether `member` is identity-checked.
    pub open spec fn set_kyc_status(self, admin: Addr, member: Addr, is_verified: bool) -> Result<
        CircleStore,
        AjoError,
    > {
        match self.admin_check(admin) {
            Err(e) => Err(e),
            Ok(()) => Ok(
                CircleStore {
                    kyc_status: Some(or_empty(self.kyc_status).insert(member, is_verified)),
                    ..self
                },
            ),
        }
    }

    /// The admin records the price of the native token in dollars, as an
    /// integer scaled by ten to the power `decimals`.
    pub open spec fn set_eth_usd_price(self, admin: Addr, price: i128, decimals: u32) -> Result<
        CircleStore,
        AjoError,
    > {
        match self.admin_check(admin) {
            Err(e) => Err(e),
            Ok(()) => if price <= 0 {
                Err(AjoError::InvalidInput)
            } else {
                Ok(
                    CircleStore {
                        eth_usd_price: Some(price),
                        eth_usd_decimals: Some(decimals),
                        ..self
                    },
                )
            },
        }
    }

    /// The amount of the native token that `usd_amount` dollars buy at the
    /// recorded price.
    pub open spec fn native_amount_for_usd(self, usd_amount: i128) -> Result<i128, AjoError> {
        if usd_amount <= 0 {
            Err(AjoError::InvalidInput)
        } else {
            match (self.eth_usd_price, self.eth_usd_decimals) {
                (None, _) => Err(AjoError::PriceUnavailable),
                (_, None) => Err(AjoError::PriceUnavailable),
                (Some(price), Some(decimals)) => {
                    let scaled = usd_amount * pow10(decimals as nat);
                    if decimals > 38 || !fits_i128(scaled) || price == 0 {
                        Err(AjoError::ArithmeticOverflow)
                    } else {
                        let native = div_toward_zero(scaled, price as int);
                        if native <= 0 {
                            Err(AjoError::InvalidInput)
                        } else {
                            Ok(native as i128)
                        }
                    }
                },
            }
        }
    }

    /// The time of `member`'s last deposit.
    pub open spec fn last_deposit_timestamp(self, member: Addr) -> Result<u64, AjoError> {
        match self.last_deposit_at {
            None => Err(AjoError::NotFound),
            Some(m) => if m.contains_key(member) {
                Ok(m[member])
            } else {
                Err(AjoError::NotFound)
            },
        }
    }

    /// The organizer draws the order in which members collect the pot, from
    /// the ledger sequence number `ledger_seq`.
    pub open spec fn shuffle_rotation(self, organizer: Addr, ledger_seq: u32) -> Result<
        CircleStore,
        AjoError,
    > {
        match self.circle {
            None => Err(AjoError::NotFound),
            Some(c) => if c.organizer != organizer {
                Err(AjoError::Unauthorized)
            } else if self.status() == CircleStatus::Panicked {
                Err(AjoError::CirclePanicked)
            } else {
                match self.members {
                    None => Err(AjoError::NotFound),
                    Some(ms) => {
                        let order = key_order(ms);
                        let rotation = if order.len() < 2 {
                            order
                        } else {
                            shuffled(order, digest_of_sequence(ledger_seq))
                        };
                        Ok(CircleStore { rotation_order: Some(rotation), ..self })
                    },
                }
            },
        }
    }

    /// The admin counts a missed round against `member`; at the limit the
    /// member is disqualified.
    pub open spec fn slash_member(self, admin: Addr, member: Addr) -> Outcome<CircleStore> {
        match self.admin_check(admin) {
            Err(e) => Outcome::Refused(e),
            Ok(()) => {
                let st = or_empty(self.standings);
                if !st.contains_key(member) {
                    Outcome::Refused(AjoError::NotFound)
                } else if st[member].missed_count + 1 > u32::MAX {
                    Outcome::Halted
                } else {
                    let missed = st[member].missed_count + 1;
                    Outcome::Accepted(
                        CircleStore {
                            standings: Some(
                                st.insert(
                                    member,
                                    MemberStanding {
                                        missed_count: missed as u32,
                                        is_active: st[member].is_active && missed
                                            < MISSED_ROUNDS_LIMIT,
                                    },
                                ),
                            ),
                            ..self
                        },
                    )
                }
            },
        }
    }

    /// The admin disqualifies `member` and marks it as having left.
    pub open spec fn boot_dormant_member(self, admin: Addr, member: Addr) -> Result<
        CircleStore,
        AjoError,
    > {
        match self.admin_check(admin) {
            Err(e) => Err(e),
            Ok(()) => {
                let st = or_empty(self.standings);
                if !st.contains_key(member) {
                    Err(AjoError::NotFound)
                } else {
                    match self.members {
                        None => Err(AjoError::NotFound),
                        Some(ms) => if !ms.contains_key(member) {
                            Err(AjoError::NotFound)
                        } else {
                            Ok(
                                CircleStore {
                                    standings: Some(
                                        st.insert(
                                            member,
                                            MemberStanding { is_active: false, ..st[member] },
                                        ),
                                    ),
                                    members: Some(
                                        ms.insert(member, MemberData { status: 2, ..ms[member] }),
                                    ),
                                    ..self
                                },
                            )
                        },
                    }
                }
            },
        }
    }
}

} // verus!

verus! {

/// An exec result `r` and the storage `after` are what `outcome` says of a
/// request made on storage `before`: its value and new storage when
/// accepted, its error and unchanged storage when refused.
pub open spec fn settles<T>(
    outcome: Outcome<(CircleStore, T)>,
    before: CircleStore,
    after: CircleStore,
    r: Result<T, AjoError>,
) -> bool {
    match outcome {
        Outcome::Accepted((s, v)) => after == s && r == Ok::<T, AjoError>(v),
        Outcome::Refused(e) => after == before && r == Err::<T, AjoError>(e),
        Outcome::Halted => false,
    }
}

/// As `settles`, for a request that yields no value.
pub open spec fn settles_unit(
    outcome: Outcome<CircleStore>,
    before: CircleStore,
    after: CircleStore,
    r: Result<(), AjoError>,
) -> bool {
    match outcome {
        Outcome::Accepted(s) => after == s && r == Ok::<(), AjoError>(()),
        Outcome::Refused(e) => after == before && r == Err::<(), AjoError>(e),
        Outcome::Halted => false,
    }
}

/// As `settles_unit`, for a request that never halts.
pub open spec fn settles_result(
    result: Result<CircleStore, AjoError>,
    before: CircleStore,
    after: CircleStore,
    r: Result<(), AjoError>,
) -> bool {
    match result {
        Ok(s) => after == s && r == Ok::<(), AjoError>(()),
        Err(e) => after == before && r == Err::<(), AjoError>(e),
    }
}

} // verus!
