use vstd::prelude::*;

use crate::addr_map::{key_order, values_in_key_order, AddrMap};
use crate::rotation::{lemma_shuffled_permutes, rotation_digest, shuffle_with_digest};
use soroban_sdk::Env;
use crate::address::Addr;
use crate::arith::{lemma_pow10_monotone, pow10};
use crate::store::{
    or_empty, settles, settles_result, settles_unit, CircleStore, Outcome, HARD_CAP, MAX_MEMBERS,
    MISSED_ROUNDS_LIMIT, SECONDS_PER_DAY, WITHDRAWAL_FEE_PERCENT,
};
use crate::types::{
    AjoError, CircleData, CircleStatus, DissolutionVote, MemberData, MemberStanding, Payment,
};

verus! {

/// The view of a stored map, when there is one.
pub open spec fn map_view<V>(m: Option<AddrMap<V>>) -> Option<Map<Addr, V>> {
    match m {
        Some(m) => Some(m@),
        None => None,
    }
}

/// The circle's storage, entry by entry (`None` where an entry was never
/// written). The host loads it before a request and stores it back after an
/// accepted one.
pub struct AjoCircle {
    pub circle: Option<CircleData>,
    pub members: Option<AddrMap<MemberData>>,
    pub standings: Option<AddrMap<MemberStanding>>,
    pub admin: Option<Addr>,
    pub kyc_status: Option<AddrMap<bool>>,
    pub circle_status: Option<CircleStatus>,
    pub dissolution_vote: Option<DissolutionVote>,
    pub vote_cast: Option<AddrMap<bool>>,
    pub rotation_order: Option<Vec<Addr>>,
    pub round_deadline: Option<u64>,
    pub round_contrib_count: Option<u32>,
    pub eth_usd_price: Option<i128>,
    pub eth_usd_decimals: Option<u32>,
    pub last_deposit_at: Option<AddrMap<u64>>,
    pub total_pool: Option<i128>,
}

impl View for AjoCircle {
    type V = CircleStore;

    open spec fn view(&self) -> CircleStore {
        CircleStore {
            circle: self.circle,
            members: map_view(self.members),
            standings: map_view(self.standings),
            admin: self.admin,
            kyc_status: map_view(self.kyc_status),
            circle_status: self.circle_status,
            dissolution_vote: self.dissolution_vote,
            vote_cast: map_view(self.vote_cast),
            rotation_order: match self.rotation_order {
                Some(v) => Some(v@),
                None => None,
            },
            round_deadline: self.round_deadline,
            round_contrib_count: self.round_contrib_count,
            eth_usd_price: self.eth_usd_price,
            eth_usd_decimals: self.eth_usd_decimals,
            last_deposit_at: map_view(self.last_deposit_at),
            total_pool: self.total_pool,
        }
    }
}

impl AjoCircle {
    /// Storage of a circle that was never set up.
    pub fn new() -> (r: Self)
        ensures
            r@ == CircleStore::empty(),
    {
        AjoCircle {
            circle: None,
            members: None,
            standings: None,
            admin: None,
            kyc_status: None,
            circle_status: None,
            dissolution_vote: None,
            vote_cast: None,
            rotation_order: None,
            round_deadline: None,
            round_contrib_count: None,
            eth_usd_price: None,
            eth_usd_decimals: None,
            last_deposit_at: None,
            total_pool: None,
        }
    }

    /// Whether `admin` is the stored admin.
    fn require_admin(&self, admin: &Addr) -> (r: Result<(), AjoError>)
        ensures
            r == self@.admin_check(*admin),
    {
        match self.admin {
            None => Err(AjoError::NotFound),
            Some(a) => if a != *admin {
                Err(AjoError::Unauthorized)
            } else {
                Ok(())
            },
        }
    }

    /// Ten to the power `exp`, or `ArithmeticOverflow` where that does not
    /// fit in an `i128` (from `exp == 39` on).
    pub fn pow10_checked(exp: u32) -> (r: Result<i128, AjoError>)
        ensures
            match r {
                Ok(v) => exp <= 38 && v == pow10(exp as nat),
                Err(e) => exp > 38 && e == AjoError::ArithmeticOverflow,
            },
    {
        proof {
            reveal_with_fuel(pow10, 40);
            assert(pow10(38) == 100000000000000000000000000000000000000int);
            assert(pow10(39) == 1000000000000000000000000000000000000000int);
        }
        let mut result: i128 = 1;
        let mut i: u32 = 0;
        while i < exp
            invariant
                i <= exp,
                i <= 38,
                result == pow10(i as nat),
                pow10(38) == 100000000000000000000000000000000000000int,
                pow10(39) == 1000000000000000000000000000000000000000int,
            decreases exp - i,
        {
            proof {
                if i + 1 <= 38 {
                    lemma_pow10_monotone((i + 1) as nat, 38);
                }
            }
            match result.checked_mul(10) {
                Some(next) => {
                    result = next;
                },
                None => {
                    return Err(AjoError::ArithmeticOverflow);
                },
            }
            i = i + 1;
        }
        Ok(result)
    }

    /// The circle's status; `Active` until anything else was written.
    pub fn get_circle_status(&self) -> (r: CircleStatus)
        ensures
            r == self@.status(),
    {
        match self.circle_status {
            Some(st) => st,
            None => CircleStatus::Active,
        }
    }

    /// Whether the circle was stopped in an emergency.
    pub fn is_panicked(&self) -> (r: bool)
        ensures
            r == (self@.status() == CircleStatus::Panicked),
    {
        self.get_circle_status() == CircleStatus::Panicked
    }

    /// The circle's settings and progress.
    pub fn get_circle_state(&self) -> (r: Result<CircleData, AjoError>)
        ensures
            r == match self@.circle {
                Some(c) => Ok::<CircleData, AjoError>(c),
                None => Err(AjoError::NotFound),
            },
    {
        match self.circle {
            Some(c) => Ok(c),
            None => Err(AjoError::NotFound),
        }
    }

    /// The running (or last) dissolution vote.
    pub fn get_dissolution_vote(&self) -> (r: Result<DissolutionVote, AjoError>)
        ensures
            r == match self@.dissolution_vote {
                Some(v) => Ok::<DissolutionVote, AjoError>(v),
                None => Err(AjoError::NoActiveVote),
            },
    {
        match self.dissolution_vote {
            Some(v) => Ok(v),
            None => Err(AjoError::NoActiveVote),
        }
    }

    /// What the circle records of `member`.
    pub fn get_member_balance(&self, member: Addr) -> (r: Result<MemberData, AjoError>)
        ensures
            r == match self@.members {
                Some(ms) => if ms.contains_key(member) {
                    Ok::<MemberData, AjoError>(ms[member])
                } else {
                    Err(AjoError::NotFound)
                },
                None => Err(AjoError::NotFound),
            },
    {
        match &self.members {
            None => Err(AjoError::NotFound),
            Some(ms) => match ms.get(&member) {
                Some(md) => Ok(md),
                None => Err(AjoError::NotFound),
            },
        }
    }

    /// Every member's record, in the ledger's order of their addresses.
    pub fn get_members(&self) -> (r: Result<Vec<MemberData>, AjoError>)
        ensures
            match r {
                Ok(v) => self@.members is Some && v@ == values_in_key_order(
                    self@.members.unwrap(),
                ),
                Err(e) => self@.members is None && e == AjoError::NotFound,
            },
    {
        match &self.members {
            None => Err(AjoError::NotFound),
            Some(ms) => Ok(ms.values()),
        }
    }

    /// What has been deposited with `deposit` in all.
    pub fn get_total_pool(&self) -> (r: i128)
        ensures
            r == self@.total_pool.unwrap_or(0),
    {
        match self.total_pool {
            Some(p) => p,
            None => 0,
        }
    }

    /// The ledger time of `member`'s last deposit.
    pub fn get_last_deposit_timestamp(&self, member: Addr) -> (r: Result<u64, AjoError>)
        ensures
            r == self@.last_deposit_timestamp(member),
    {
        match &self.last_deposit_at {
            None => Err(AjoError::NotFound),
            Some(m) => match m.get(&member) {
                Some(t) => Ok(t),
                None => Err(AjoError::NotFound),
            },
        }
    }

    /// Whether `member` is recorded as identity-checked.
    pub fn is_kyc_verified(&self, member: Addr) -> (r: bool)
        ensures
            r == self@.is_kyc_verified(member),
    {
        match &self.kyc_status {
            None => false,
            Some(m) => match m.get(&member) {
                Some(v) => v,
                None => false,
            },
        }
    }

    /// Sets the circle up: `organizer` becomes its admin and first member;
    /// `max_members` 0 stands for the default limit. `now` is the ledger time.
    pub fn initialize_circle(
        &mut self,
        organizer: Addr,
        token_address: Addr,
        contribution_amount: i128,
        frequency_days: u32,
        max_rounds: u32,
        max_members: u32,
        now: u64,
    ) -> (r: Result<(), AjoError>)
        requires
            !(old(self)@.initialize_circle(
                organizer,
                token_address,
                contribution_amount,
                frequency_days,
                max_rounds,
                max_members,
                now,
            ) is Halted),
        ensures
            settles_unit(
                old(self)@.initialize_circle(
                    organizer,
                    token_address,
                    contribution_amount,
                    frequency_days,
                    max_rounds,
                    max_members,
                    now,
                ),
                old(self)@,
                final(self)@,
                r,
            ),
    {
        let cap = if max_members == 0 {
            MAX_MEMBERS
        } else {
            max_members
        };
        if contribution_amount <= 0 || frequency_days == 0 || max_rounds == 0 || cap == 0 || cap
            > HARD_CAP {
            return Err(AjoError::InvalidInput);
        }
        self.circle = Some(
            CircleData {
                organizer,
                token_address,
                contribution_amount,
                frequency_days,
                max_rounds,
                current_round: 1,
                member_count: 1,
                max_members: cap,
            },
        );
        self.admin = Some(organizer);
        self.round_contrib_count = Some(0);
        self.round_deadline = Some(now + (frequency_days as u64) * SECONDS_PER_DAY);
        let mut members = AddrMap::new();
        members.insert(
            organizer,
            MemberData {
                address: organizer,
                total_contributed: 0,
                total_withdrawn: 0,
                has_received_payout: false,
                status: 0,
            },
        );
        self.members = Some(members);
        let mut standings = AddrMap::new();
        standings.insert(organizer, MemberStanding { missed_count: 0, is_active: true });
        self.standings = Some(standings);
        Ok(())
    }

    /// Whether setting the circle up with these arguments halts the host (the
    /// first deadline does not fit the ledger's clock).
    pub fn initialize_circle_halts(
        &self,
        contribution_amount: i128,
        frequency_days: u32,
        max_rounds: u32,
        max_members: u32,
        now: u64,
    ) -> (r: bool)
        ensures
            forall|organizer: Addr, token_address: Addr|
                r == self@.initialize_circle(
                    organizer,
                    token_address,
                    contribution_amount,
                    frequency_days,
                    max_rounds,
                    max_members,
                    now,
                ) is Halted,
    {
        let cap = if max_members == 0 {
            MAX_MEMBERS
        } else {
            max_members
        };
        if contribution_amount <= 0 || frequency_days == 0 || max_rounds == 0 || cap == 0 || cap
            > HARD_CAP {
            return false;
        }
        (frequency_days as u64) * SECONDS_PER_DAY > u64::MAX - now
    }

    /// The organizer admits `new_member`, with a fresh record and standing.
    pub fn join_circle(&mut self, organizer: Addr, new_member: Addr) -> (r: Result<(), AjoError>)
        ensures
            settles_result(old(self)@.join_circle(organizer, new_member), old(self)@, final(self)@, r),
    {
        if self.get_circle_status() == CircleStatus::Panicked {
            return Err(AjoError::CirclePanicked);
        }
        let c = match self.circle {
            None => return Err(AjoError::NotFound),
            Some(c) => c,
        };
        if c.organizer != organizer {
            return Err(AjoError::Unauthorized);
        }
        match &self.members {
            None => return Err(AjoError::NotFound),
            Some(ms) => if ms.contains_key(&new_member) {
                return Err(AjoError::AlreadyExists);
            },
        }
        if c.member_count >= c.max_members {
            return Err(AjoError::CircleAtCapacity);
        }
        let count = match c.member_count.checked_add(1) {
            None => return Err(AjoError::InvalidInput),
            Some(n) => n,
        };
        let mut ms = self.members.take().unwrap();
        ms.insert(
            new_member,
            MemberData {
                address: new_member,
                total_contributed: 0,
                total_withdrawn: 0,
                has_received_payout: false,
                status: 0,
            },
        );
        self.members = Some(ms);
        self.circle = Some(CircleData { member_count: count, ..c });
        let mut st = match self.standings.take() {
            Some(st) => st,
            None => AddrMap::new(),
        };
        st.insert(new_member, MemberStanding { missed_count: 0, is_active: true });
        self.standings = Some(st);
        Ok(())
    }

    /// The same as `join_circle`.
    pub fn add_member(&mut self, organizer: Addr, new_member: Addr) -> (r: Result<(), AjoError>)
        ensures
            settles_result(old(self)@.join_circle(organizer, new_member), old(self)@, final(self)@, r),
    {
        self.join_circle(organizer, new_member)
    }

    /// The admin stops the circle in an emergency.
    pub fn panic(&mut self, admin: Addr) -> (r: Result<(), AjoError>)
        ensures
            settles_result(old(self)@.panic(admin), old(self)@, final(self)@, r),
    {
        self.require_admin(&admin)?;
        let status = self.get_circle_status();
        if status == CircleStatus::Dissolved {
            return Err(AjoError::CircleAlreadyDissolved);
        }
        if status == CircleStatus::Panicked {
            return Err(AjoError::CirclePanicked);
        }
        self.circle_status = Some(CircleStatus::Panicked);
        Ok(())
    }

    /// The admin records whether `member` is identity-checked.
    pub fn set_kyc_status(&mut self, admin: Addr, member: Addr, is_verified: bool) -> (r: Result<
        (),
        AjoError,
    >)
        ensures
            settles_result(
                old(self)@.set_kyc_status(admin, member, is_verified),
                old(self)@,
                final(self)@,
                r,
            ),
    {
        self.require_admin(&admin)?;
        let mut kyc = match self.kyc_status.take() {
            Some(k) => k,
            None => AddrMap::new(),
        };
        kyc.insert(member, is_verified);
        self.kyc_status = Some(kyc);
        Ok(())
    }

    /// The admin records the native token's price in dollars, scaled by ten
    /// to the power `decimals`.
    pub fn set_eth_usd_price(&mut self, admin: Addr, price: i128, decimals: u32) -> (r: Result<
        (),
        AjoError,
    >)
        ensures
            settles_result(
                old(self)@.set_eth_usd_price(admin, price, decimals),
                old(self)@,
                final(self)@,
                r,
            ),
    {
        self.require_admin(&admin)?;
        if price <= 0 {
            return Err(AjoError::InvalidInput);
        }
        self.eth_usd_price = Some(price);
        self.eth_usd_decimals = Some(decimals);
        Ok(())
    }

    /// The amount of the native token that `usd_amount` dollars buy at the
    /// recorded price, rounded toward zero.
    pub fn native_amount_for_usd(&self, usd_amount: i128) -> (r: Result<i128, AjoError>)
        ensures
            r == self@.native_amount_for_usd(usd_amount),
    {
        if usd_amount <= 0 {
            return Err(AjoError::InvalidInput);
        }
        let price = match self.eth_usd_price {
            None => return Err(AjoError::PriceUnavailable),
            Some(p) => p,
        };
        let decimals = match self.eth_usd_decimals {
            None => return Err(AjoError::PriceUnavailable),
            Some(d) => d,
        };
        let scale = match Self::pow10_checked(decimals) {
            Err(e) => return Err(e),
            Ok(s) => s,
        };
        let scaled = match usd_amount.checked_mul(scale) {
            None => return Err(AjoError::ArithmeticOverflow),
            Some(v) => v,
        };
        proof {
            lemma_pow10_monotone(0, decimals as nat);
            let u = usd_amount as int;
            let p = scale as int;
            assert(u * p > 0) by (nonlinear_arith)
                requires
                    u > 0,
                    p > 0,
            ;
            let x = scaled as int;
            let d = price as int;
            if d > 0 {
                assert(x / d <= x) by (nonlinear_arith)
                    requires
                        x > 0,
                        d > 0,
                ;
                assert(x / d >= 0) by (nonlinear_arith)
                    requires
                        x > 0,
                        d > 0,
                ;
            } else if d < 0 {
                assert(x / (d * -1) <= x) by (nonlinear_arith)
                    requires
                        x > 0,
                        d < 0,
                ;
                assert(x / (d * -1) >= 0) by (nonlinear_arith)
                    requires
                        x > 0,
                        d < 0,
                ;
            }
        }
        let native = match scaled.checked_div(price) {
            None => return Err(AjoError::ArithmeticOverflow),
            Some(v) => v,
        };
        if native <= 0 {
            return Err(AjoError::InvalidInput);
        }
        Ok(native)
    }

    /// The admin may replace the circle's code with the code under
    /// `new_wasm_hash`, which the result hands back for the host to install.
    pub fn upgrade(&self, admin: Addr, new_wasm_hash: [u8; 32]) -> (r: Result<[u8; 32], AjoError>)
        ensures
            match self@.admin_check(admin) {
                Ok(()) => r == Ok::<[u8; 32], AjoError>(new_wasm_hash),
                Err(e) => r == Err::<[u8; 32], AjoError>(e),
            },
    {
        self.require_admin(&admin)?;
        Ok(new_wasm_hash)
    }

    /// A member or the organizer opens a vote on dissolving the circle.
    pub fn start_dissolution_vote(&mut self, caller: Addr, threshold_mode: u32) -> (r: Result<
        (),
        AjoError,
    >)
        ensures
            settles_result(
                old(self)@.start_dissolution_vote(caller, threshold_mode),
                old(self)@,
                final(self)@,
                r,
            ),
    {
        if threshold_mode > 1 {
            return Err(AjoError::InvalidInput);
        }
        let c = match self.circle {
            None => return Err(AjoError::NotFound),
            Some(c) => c,
        };
        match self.get_circle_status() {
            CircleStatus::Dissolved => return Err(AjoError::CircleAlreadyDissolved),
            CircleStatus::VotingForDissolution => return Err(AjoError::VoteAlreadyActive),
            CircleStatus::Panicked => return Err(AjoError::CirclePanicked),
            CircleStatus::Active => {},
        }
        match &self.members {
            None => return Err(AjoError::NotFound),
            Some(ms) => if !ms.contains_key(&caller) && c.organizer != caller {
                return Err(AjoError::Unauthorized);
            },
        }
        self.circle_status = Some(CircleStatus::VotingForDissolution);
        self.dissolution_vote = Some(
            DissolutionVote { votes_for: 0, total_members: c.member_count, threshold_mode },
        );
        self.vote_cast = Some(AddrMap::new());
        Ok(())
    }

    /// Stores `md` as `member`'s record.
    fn set_member(&mut self, member: Addr, md: MemberData)
        requires
            old(self).members is Some,
        ensures
            final(self)@ == (CircleStore {
                members: Some(old(self)@.members.unwrap().insert(member, md)),
                ..old(self)@
            }),
    {
        let mut ms = self.members.take().unwrap();
        ms.insert(member, md);
        self.members = Some(ms);
    }

    /// Stores `st` as `member`'s standing, creating the standings if there
    /// are none yet.
    fn set_standing(&mut self, member: Addr, st: MemberStanding)
        ensures
            final(self)@ == (CircleStore {
                standings: Some(or_empty(old(self)@.standings).insert(member, st)),
                ..old(self)@
            }),
    {
        let mut m = match self.standings.take() {
            Some(m) => m,
            None => AddrMap::new(),
        };
        m.insert(member, st);
        self.standings = Some(m);
    }

    /// Checks a contribution of `amount` by `member` and works out what it
    /// changes, without changing anything.
    fn plan_contribution(&self, member: Addr, amount: i128) -> (r: Result<ContributionPlan, AjoError>)
        requires
            !(self@.contribute(member, amount) is Halted),
        ensures
            match self@.contribute(member, amount) {
                Outcome::Accepted((s, pay)) => r is Ok && self@.members is Some
                    && self@.after_contribution(r->Ok_0) == s && r->Ok_0.payment == pay,
                Outcome::Refused(e) => r == Err::<ContributionPlan, AjoError>(e),
                Outcome::Halted => false,
            },
    {
        if self.get_circle_status() == CircleStatus::Panicked {
            return Err(AjoError::CirclePanicked);
        }
        if amount <= 0 {
            return Err(AjoError::InvalidInput);
        }
        let c = match self.circle {
            None => return Err(AjoError::NotFound),
            Some(c) => c,
        };
        let standing = match &self.standings {
            None => return Err(AjoError::NotFound),
            Some(st) => match st.get(&member) {
                None => return Err(AjoError::NotFound),
                Some(x) => x,
            },
        };
        if !standing.is_active {
            return Err(AjoError::Disqualified);
        }
        let md = match &self.members {
            None => return Err(AjoError::NotFound),
            Some(ms) => match ms.get(&member) {
                None => return Err(AjoError::NotFound),
                Some(x) => x,
            },
        };
        let target = match (c.current_round as i128).checked_mul(c.contribution_amount) {
            None => return Err(AjoError::ArithmeticOverflow),
            Some(t) => t,
        };
        let total = match md.total_contributed.checked_add(amount) {
            None => return Err(AjoError::ArithmeticOverflow),
            Some(t) => t,
        };
        let completes = md.total_contributed < target && total >= target;
        let payment = Payment::FromMember { token: c.token_address, member, amount };
        let mut count: u32 = 0;
        let mut advances = false;
        let mut deadline: u64 = 0;
        let mut next_circle = c;
        if completes {
            let prev = match self.round_contrib_count {
                Some(n) => n,
                None => 0,
            };
            count = match prev.checked_add(1) {
                None => return Err(AjoError::ArithmeticOverflow),
                Some(n) => n,
            };
            if count >= c.member_count {
                advances = true;
                let prev_deadline = match self.round_deadline {
                    Some(d) => d,
                    None => 0,
                };
                deadline = prev_deadline + (c.frequency_days as u64) * SECONDS_PER_DAY;
                if c.current_round < c.max_rounds {
                    next_circle = CircleData { current_round: c.current_round + 1, ..c };
                }
            }
        }
        Ok(
            ContributionPlan {
                member,
                md,
                standing,
                total,
                completes,
                advances,
                count,
                deadline,
                next_circle,
                payment,
            },
        )
    }

    /// Makes the changes that a checked contribution works out.
    fn apply_contribution(&mut self, plan: &ContributionPlan)
        requires
            old(self).members is Some,
        ensures
            final(self)@ == old(self)@.after_contribution(*plan),
    {
        let md = MemberData { total_contributed: plan.total, ..plan.md };
        self.set_member(plan.member, md);
        self.set_standing(plan.member, MemberStanding { missed_count: 0, ..plan.standing });
        if plan.completes {
            if plan.advances {
                self.round_deadline = Some(plan.deadline);
                self.circle = Some(plan.next_circle);
                self.round_contrib_count = Some(0);
            } else {
                self.round_contrib_count = Some(plan.count);
            }
        }
    }

    /// `member` pays `amount` into the circle. A member who thereby completes
    /// the round is counted; once every member has, the deadline moves on and
    /// the round advances. The result is the payment to make.
    pub fn contribute(&mut self, member: Addr, amount: i128) -> (r: Result<Payment, AjoError>)
        requires
            !(old(self)@.contribute(member, amount) is Halted),
        ensures
            settles(old(self)@.contribute(member, amount), old(self)@, final(self)@, r),
    {
        let plan = self.plan_contribution(member, amount)?;
        self.apply_contribution(&plan);
        Ok(plan.payment)
    }

    /// Whether a contribution of `amount` by `member` halts the host: the
    /// member has missed too many rounds, or the next deadline does not fit
    /// the ledger's clock.
    pub fn contribute_halts(&self, member: Addr, amount: i128) -> (r: bool)
        ensures
            r == self@.contribute(member, amount) is Halted,
    {
        if self.get_circle_status() == CircleStatus::Panicked || amount <= 0 {
            return false;
        }
        let c = match self.circle {
            None => return false,
            Some(c) => c,
        };
        let standing = match &self.standings {
            None => return false,
            Some(st) => match st.get(&member) {
                None => return false,
                Some(x) => x,
            },
        };
        if standing.missed_count >= MISSED_ROUNDS_LIMIT {
            return true;
        }
        if !standing.is_active {
            return false;
        }
        let md = match &self.members {
            None => return false,
            Some(ms) => match ms.get(&member) {
                None => return false,
                Some(x) => x,
            },
        };
        let target = match (c.current_round as i128).checked_mul(c.contribution_amount) {
            None => return false,
            Some(t) => t,
        };
        let total = match md.total_contributed.checked_add(amount) {
            None => return false,
            Some(t) => t,
        };
        if !(md.total_contributed < target && total >= target) {
            return false;
        }
        let prev = match self.round_contrib_count {
            Some(n) => n,
            None => 0,
        };
        let count = match prev.checked_add(1) {
            None => return false,
            Some(n) => n,
        };
        if count < c.member_count {
            return false;
        }
        let prev_deadline = match self.round_deadline {
            Some(d) => d,
            None => 0,
        };
        (c.frequency_days as u64) * SECONDS_PER_DAY > u64::MAX - prev_deadline
    }

    /// Whether checks made before the payment of a contribution pass.
    fn contribution_reaches_payment(&self, member: Addr, amount: i128) -> (r: bool)
        ensures
            r == self@.contribution_reaches_payment(member, amount),
    {
        if self.get_circle_status() == CircleStatus::Panicked || amount <= 0 {
            return false;
        }
        let c = match self.circle {
            None => return false,
            Some(c) => c,
        };
        match &self.standings {
            None => return false,
            Some(st) => match st.get(&member) {
                None => return false,
                Some(x) => if x.missed_count >= MISSED_ROUNDS_LIMIT || !x.is_active {
                    return false;
                },
            },
        }
        match &self.members {
            None => return false,
            Some(ms) => if !ms.contains_key(&member) {
                return false;
            },
        }
        (c.current_round as i128).checked_mul(c.contribution_amount).is_some()
    }

    /// Whether a contribution of `amount` by `member` is refused only after
    /// its payment was made (so that a payment that fails halts the host
    /// first).
    pub fn contribute_refused_after_payment(&self, member: Addr, amount: i128) -> (r: bool)
        ensures
            r == self@.contribute_refused_after_payment(member, amount),
    {
        if !self.contribution_reaches_payment(member, amount) {
            return false;
        }
        let c = self.circle.unwrap();
        let md = match &self.members {
            None => return false,
            Some(ms) => match ms.get(&member) {
                None => return false,
                Some(x) => x,
            },
        };
        let target = (c.current_round as i128) * c.contribution_amount;
        let total = match md.total_contributed.checked_add(amount) {
            None => return true,
            Some(t) => t,
        };
        if !(md.total_contributed < target && total >= target) {
            return false;
        }
        let prev = match self.round_contrib_count {
            Some(n) => n,
            None => 0,
        };
        prev == u32::MAX
    }

    /// Whether a deposit by `member` is refused only after its payment was
    /// made.
    pub fn deposit_refused_after_payment(&self, member: Addr) -> (r: bool)
        ensures
            forall|now: u64| r == self@.deposit_refused_after_payment(member, now),
    {
        let c = match self.circle {
            None => return false,
            Some(c) => c,
        };
        if !self.contribution_reaches_payment(member, c.contribution_amount) {
            return false;
        }
        if self.contribute_refused_after_payment(member, c.contribution_amount) {
            return true;
        }
        if self.contribute_halts(member, c.contribution_amount) {
            return false;
        }
        let prev_pool = match self.total_pool {
            Some(p) => p,
            None => 0,
        };
        prev_pool.checked_add(c.contribution_amount).is_none()
    }

    /// `member` pays the circle's contribution amount in, as `contribute`
    /// does; the deposit's time `now` is recorded and the pool grows.
    pub fn deposit(&mut self, member: Addr, now: u64) -> (r: Result<Payment, AjoError>)
        requires
            !(old(self)@.deposit(member, now) is Halted),
        ensures
            settles(old(self)@.deposit(member, now), old(self)@, final(self)@, r),
    {
        let c = match self.circle {
            None => return Err(AjoError::NotFound),
            Some(c) => c,
        };
        let amount = c.contribution_amount;
        let plan = self.plan_contribution(member, amount)?;
        let prev_pool = match self.total_pool {
            Some(p) => p,
            None => 0,
        };
        let pool = match prev_pool.checked_add(amount) {
            None => return Err(AjoError::ArithmeticOverflow),
            Some(p) => p,
        };
        self.apply_contribution(&plan);
        let mut deposits = match self.last_deposit_at.take() {
            Some(m) => m,
            None => AddrMap::new(),
        };
        deposits.insert(member, now);
        self.last_deposit_at = Some(deposits);
        self.total_pool = Some(pool);
        Ok(plan.payment)
    }

    /// Whether a deposit by `member` halts the host (as its contribution
    /// would).
    pub fn deposit_halts(&self, member: Addr) -> (r: bool)
        ensures
            forall|now: u64| r == self@.deposit(member, now) is Halted,
    {
        match self.circle {
            None => false,
            Some(c) => self.contribute_halts(member, c.contribution_amount),
        }
    }

    /// `member` collects the pot: every member's contribution amount. Where
    /// a rotation was drawn, only the member whose turn the current round is
    /// may collect. The result is the payment to make.
    pub fn claim_payout(&mut self, member: Addr) -> (r: Result<Payment, AjoError>)
        requires
            !(old(self)@.claim_payout(member) is Halted),
        ensures
            settles(old(self)@.claim_payout(member), old(self)@, final(self)@, r),
    {
        if self.get_circle_status() == CircleStatus::Panicked {
            return Err(AjoError::CirclePanicked);
        }
        let c = match self.circle {
            None => return Err(AjoError::NotFound),
            Some(c) => c,
        };
        match &self.standings {
            None => {},
            Some(st) => match st.get(&member) {
                Some(standing) => if !standing.is_active {
                    return Err(AjoError::Disqualified);
                },
                None => {},
            },
        }
        if self.members.is_none() {
            return Err(AjoError::NotFound);
        }
        match &self.rotation_order {
            None => {},
            Some(rotation) => {
                let idx = c.current_round - 1;
                if idx as usize >= rotation.len() {
                    return Err(AjoError::InvalidInput);
                }
                if rotation[idx as usize] != member {
                    return Err(AjoError::Unauthorized);
                }
            },
        }
        let md = match &self.members {
            None => return Err(AjoError::NotFound),
            Some(ms) => match ms.get(&member) {
                None => return Err(AjoError::NotFound),
                Some(x) => x,
            },
        };
        if md.has_received_payout {
            return Err(AjoError::AlreadyPaid);
        }
        let payout = (c.member_count as i128) * c.contribution_amount;
        let withdrawn = md.total_withdrawn + payout;
        self.set_member(
            member,
            MemberData { has_received_payout: true, total_withdrawn: withdrawn, ..md },
        );
        Ok(Payment::ToMember { token: c.token_address, member, amount: payout })
    }

    /// Whether collecting the pot halts the host: the round counter is 0
    /// while a rotation is drawn, or the pot or the member's withdrawn total
    /// does not fit an `i128`.
    pub fn claim_payout_halts(&self, member: Addr) -> (r: bool)
        ensures
            r == self@.claim_payout(member) is Halted,
    {
        if self.get_circle_status() == CircleStatus::Panicked {
            return false;
        }
        let c = match self.circle {
            None => return false,
            Some(c) => c,
        };
        match &self.standings {
            None => {},
            Some(st) => match st.get(&member) {
                Some(standing) => if !standing.is_active {
                    return false;
                },
                None => {},
            },
        }
        if self.members.is_none() {
            return false;
        }
        match &self.rotation_order {
            None => {},
            Some(rotation) => {
                if c.current_round == 0 {
                    return true;
                }
                let idx = c.current_round - 1;
                if idx as usize >= rotation.len() || rotation[idx as usize] != member {
                    return false;
                }
            },
        }
        let md = match &self.members {
            None => return false,
            Some(ms) => match ms.get(&member) {
                None => return false,
                Some(x) => x,
            },
        };
        if md.has_received_payout {
            return false;
        }
        match (c.member_count as i128).checked_mul(c.contribution_amount) {
            None => true,
            Some(payout) => md.total_withdrawn.checked_add(payout).is_none(),
        }
    }

    /// `member` takes `amount` of what it paid in and did not withdraw back;
    /// the payment is `amount` less a tenth of it (rounded down), which stays
    /// in the circle.
    pub fn partial_withdraw(&mut self, member: Addr, amount: i128) -> (r: Result<Payment, AjoError>)
        requires
            !(old(self)@.partial_withdraw(member, amount) is Halted),
        ensures
            settles(old(self)@.partial_withdraw(member, amount), old(self)@, final(self)@, r),
    {
        if self.get_circle_status() == CircleStatus::Panicked {
            return Err(AjoError::CirclePanicked);
        }
        if amount <= 0 {
            return Err(AjoError::InvalidInput);
        }
        let md = match &self.members {
            None => return Err(AjoError::NotFound),
            Some(ms) => match ms.get(&member) {
                None => return Err(AjoError::NotFound),
                Some(x) => x,
            },
        };
        let available = md.total_contributed - md.total_withdrawn;
        if amount > available {
            return Err(AjoError::InsufficientFunds);
        }
        let net = amount - (amount * WITHDRAWAL_FEE_PERCENT) / 100;
        let c = match self.circle {
            None => return Err(AjoError::NotFound),
            Some(c) => c,
        };
        let withdrawn = md.total_withdrawn + amount;
        self.set_member(member, MemberData { total_withdrawn: withdrawn, ..md });
        Ok(Payment::ToMember { token: c.token_address, member, amount: net })
    }

    /// Whether a partial withdrawal halts the host: what the member has
    /// available, the fee or the new withdrawn total does not fit an `i128`.
    pub fn partial_withdraw_halts(&self, member: Addr, amount: i128) -> (r: bool)
        ensures
            r == self@.partial_withdraw(member, amount) is Halted,
    {
        if self.get_circle_status() == CircleStatus::Panicked || amount <= 0 {
            return false;
        }
        let md = match &self.members {
            None => return false,
            Some(ms) => match ms.get(&member) {
                None => return false,
                Some(x) => x,
            },
        };
        let available = match md.total_contributed.checked_sub(md.total_withdrawn) {
            None => return true,
            Some(a) => a,
        };
        if amount > available {
            return false;
        }
        if amount.checked_mul(WITHDRAWAL_FEE_PERCENT).is_none() {
            return true;
        }
        if self.circle.is_none() {
            return false;
        }
        md.total_withdrawn.checked_add(amount).is_none()
    }

    /// `member` votes for dissolving the circle; once the votes meet the
    /// threshold, the circle is dissolved.
    pub fn vote_to_dissolve(&mut self, member: Addr) -> (r: Result<(), AjoError>)
        requires
            !(old(self)@.vote_to_dissolve(member) is Halted),
        ensures
            settles_unit(old(self)@.vote_to_dissolve(member), old(self)@, final(self)@, r),
    {
        if self.get_circle_status() != CircleStatus::VotingForDissolution {
            return Err(AjoError::NoActiveVote);
        }
        match &self.members {
            None => return Err(AjoError::NotFound),
            Some(ms) => if !ms.contains_key(&member) {
                return Err(AjoError::Unauthorized);
            },
        }
        let voted = match &self.vote_cast {
            None => false,
            Some(m) => match m.get(&member) {
                Some(v) => v,
                None => false,
            },
        };
        if voted {
            return Err(AjoError::AlreadyVoted);
        }
        let v = match self.dissolution_vote {
            None => return Err(AjoError::NoActiveVote),
            Some(v) => v,
        };
        let votes = v.votes_for + 1;
        let met = if v.threshold_mode == 1 {
            votes * 100 > v.total_members * 66
        } else {
            votes * 2 > v.total_members
        };
        let mut cast = match self.vote_cast.take() {
            Some(m) => m,
            None => AddrMap::new(),
        };
        cast.insert(member, true);
        self.vote_cast = Some(cast);
        self.dissolution_vote = Some(DissolutionVote { votes_for: votes, ..v });
        if met {
            self.circle_status = Some(CircleStatus::Dissolved);
        }
        Ok(())
    }

    /// Whether a vote halts the host: the count of votes, or the products
    /// that compare it with the threshold, do not fit a `u32`.
    pub fn vote_to_dissolve_halts(&self, member: Addr) -> (r: bool)
        ensures
            r == self@.vote_to_dissolve(member) is Halted,
    {
        if self.get_circle_status() != CircleStatus::VotingForDissolution {
            return false;
        }
        match &self.members {
            None => return false,
            Some(ms) => if !ms.contains_key(&member) {
                return false;
            },
        }
        let voted = match &self.vote_cast {
            None => false,
            Some(m) => match m.get(&member) {
                Some(v) => v,
                None => false,
            },
        };
        if voted {
            return false;
        }
        let v = match self.dissolution_vote {
            None => return false,
            Some(v) => v,
        };
        let votes = match v.votes_for.checked_add(1) {
            None => return true,
            Some(n) => n,
        };
        if v.threshold_mode == 1 {
            votes.checked_mul(100).is_none() || v.total_members.checked_mul(66).is_none()
        } else {
            votes.checked_mul(2).is_none()
        }
    }

    /// `member` takes back what it paid in and did not withdraw, and is
    /// marked as having left; only while the circle has status `required`.
    fn refund_member(&mut self, member: Addr, required: CircleStatus) -> (r: Result<Payment, AjoError>)
        requires
            !(old(self)@.refund(member, required) is Halted),
        ensures
            settles(old(self)@.refund(member, required), old(self)@, final(self)@, r),
    {
        if self.get_circle_status() != required {
            return Err(AjoError::CircleNotActive);
        }
        let md = match &self.members {
            None => return Err(AjoError::NotFound),
            Some(ms) => match ms.get(&member) {
                None => return Err(AjoError::NotFound),
                Some(x) => x,
            },
        };
        let refund = md.total_contributed - md.total_withdrawn;
        if refund <= 0 {
            return Err(AjoError::InsufficientFunds);
        }
        let c = match self.circle {
            None => return Err(AjoError::NotFound),
            Some(c) => c,
        };
        self.set_member(
            member,
            MemberData { total_withdrawn: md.total_withdrawn + refund, status: 2, ..md },
        );
        Ok(Payment::ToMember { token: c.token_address, member, amount: refund })
    }

    /// Whether a refund halts the host: what the member has available does
    /// not fit an `i128`.
    fn refund_halts(&self, member: Addr, required: CircleStatus) -> (r: bool)
        ensures
            r == self@.refund(member, required) is Halted,
    {
        if self.get_circle_status() != required {
            return false;
        }
        match &self.members {
            None => false,
            Some(ms) => match ms.get(&member) {
                None => false,
                Some(md) => md.total_contributed.checked_sub(md.total_withdrawn).is_none(),
            },
        }
    }

    /// After the circle was dissolved by vote, `member` takes back what it
    /// paid in and did not withdraw. The result is the payment to make.
    pub fn dissolve_and_refund(&mut self, member: Addr) -> (r: Result<Payment, AjoError>)
        requires
            !(old(self)@.refund(member, CircleStatus::Dissolved) is Halted),
        ensures
            settles(old(self)@.refund(member, CircleStatus::Dissolved), old(self)@, final(self)@, r),
    {
        self.refund_member(member, CircleStatus::Dissolved)
    }

    /// Whether `dissolve_and_refund` halts the host.
    pub fn dissolve_and_refund_halts(&self, member: Addr) -> (r: bool)
        ensures
            r == self@.refund(member, CircleStatus::Dissolved) is Halted,
    {
        self.refund_halts(member, CircleStatus::Dissolved)
    }

    /// After an emergency stop, `member` takes back what it paid in and did
    /// not withdraw. The result is the payment to make.
    pub fn emergency_refund(&mut self, member: Addr) -> (r: Result<Payment, AjoError>)
        requires
            !(old(self)@.refund(member, CircleStatus::Panicked) is Halted),
        ensures
            settles(old(self)@.refund(member, CircleStatus::Panicked), old(self)@, final(self)@, r),
    {
        self.refund_member(member, CircleStatus::Panicked)
    }

    /// Whether `emergency_refund` halts the host.
    pub fn emergency_refund_halts(&self, member: Addr) -> (r: bool)
        ensures
            r == self@.refund(member, CircleStatus::Panicked) is Halted,
    {
        self.refund_halts(member, CircleStatus::Panicked)
    }

    /// The admin counts a missed round against `member`; at the limit the
    /// member is disqualified.
    pub fn slash_member(&mut self, admin: Addr, member: Addr) -> (r: Result<(), AjoError>)
        requires
            !(old(self)@.slash_member(admin, member) is Halted),
        ensures
            settles_unit(old(self)@.slash_member(admin, member), old(self)@, final(self)@, r),
    {
        self.require_admin(&admin)?;
        let standing = match &self.standings {
            None => return Err(AjoError::NotFound),
            Some(st) => match st.get(&member) {
                None => return Err(AjoError::NotFound),
                Some(x) => x,
            },
        };
        let missed = standing.missed_count + 1;
        let is_active = if missed >= MISSED_ROUNDS_LIMIT {
            false
        } else {
            standing.is_active
        };
        self.set_standing(member, MemberStanding { missed_count: missed, is_active });
        Ok(())
    }

    /// Whether counting a missed round halts the host (the count does not
    /// fit a `u32`).
    pub fn slash_member_halts(&self, admin: Addr, member: Addr) -> (r: bool)
        ensures
            r == self@.slash_member(admin, member) is Halted,
    {
        if self.require_admin(&admin).is_err() {
            return false;
        }
        match &self.standings {
            None => false,
            Some(st) => match st.get(&member) {
                None => false,
                Some(x) => x.missed_count == u32::MAX,
            },
        }
    }

    /// The admin disqualifies `member` and marks it as having left.
    pub fn boot_dormant_member(&mut self, admin: Addr, member: Addr) -> (r: Result<(), AjoError>)
        ensures
            settles_result(old(self)@.boot_dormant_member(admin, member), old(self)@, final(self)@, r),
    {
        self.require_admin(&admin)?;
        let standing = match &self.standings {
            None => return Err(AjoError::NotFound),
            Some(st) => match st.get(&member) {
                None => return Err(AjoError::NotFound),
                Some(x) => x,
            },
        };
        let md = match &self.members {
            None => return Err(AjoError::NotFound),
            Some(ms) => match ms.get(&member) {
                None => return Err(AjoError::NotFound),
                Some(x) => x,
            },
        };
        self.set_standing(member, MemberStanding { is_active: false, ..standing });
        self.set_member(member, MemberData { status: 2, ..md });
        Ok(())
    }

    /// The organizer draws the order in which members collect the pot: the
    /// members in the ledger's order of addresses, shuffled by the SHA-256
    /// digest of the ledger sequence number `ledger_seq`. The rotation holds
    /// each member once.
    pub fn shuffle_rotation(&mut self, env: &Env, organizer: Addr, ledger_seq: u32) -> (r: Result<
        (),
        AjoError,
    >)
        ensures
            settles_result(
                old(self)@.shuffle_rotation(organizer, ledger_seq),
                old(self)@,
                final(self)@,
                r,
            ),
            r is Ok ==> final(self)@.rotation_order.unwrap().to_multiset() == key_order(
                old(self)@.members.unwrap(),
            ).to_multiset(),
    {
        let c = match self.circle {
            None => return Err(AjoError::NotFound),
            Some(c) => c,
        };
        if c.organizer != organizer {
            return Err(AjoError::Unauthorized);
        }
        if self.get_circle_status() == CircleStatus::Panicked {
            return Err(AjoError::CirclePanicked);
        }
        let order = match &self.members {
            None => return Err(AjoError::NotFound),
            Some(ms) => ms.keys(),
        };
        let ghost keys = order@;
        let rotation = if order.len() < 2 {
            order
        } else {
            let digest = rotation_digest(env, ledger_seq);
            proof {
                lemma_shuffled_permutes(keys, digest@);
            }
            shuffle_with_digest(order, &digest)
        };
        self.rotation_order = Some(rotation);
        Ok(())
    }
}

/// What a checked contribution changes.
struct ContributionPlan {
    member: Addr,
    md: MemberData,
    standing: MemberStanding,
    total: i128,
    completes: bool,
    advances: bool,
    count: u32,
    deadline: u64,
    next_circle: CircleData,
    payment: Payment,
}

impl CircleStore {
    /// The storage after a checked contribution is recorded.
    spec fn after_contribution(self, p: ContributionPlan) -> CircleStore {
        let base = CircleStore {
            members: Some(
                self.members.unwrap().insert(p.member, MemberData { total_contributed: p.total, ..p.md }),
            ),
            standings: Some(
                or_empty(self.standings).insert(p.member, MemberStanding { missed_count: 0, ..p.standing }),
            ),
            ..self
        };
        if !p.completes {
            base
        } else if !p.advances {
            CircleStore { round_contrib_count: Some(p.count), ..base }
        } else {
            CircleStore {
                round_deadline: Some(p.deadline),
                circle: Some(p.next_circle),
                round_contrib_count: Some(0),
                ..base
            }
        }
    }
}

} // verus!
