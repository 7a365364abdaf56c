use vstd::prelude::*;

use crate::addr_map::{key_order, lemma_key_order_exists, values_in_key_order};
use crate::address::{addr_lt, Addr};
use crate::rotation::{draw, lemma_shuffled_permutes, shuffle_steps, shuffled, swap};
use crate::arith::pow10;
use crate::store::{new_member, CircleStore, Outcome, HARD_CAP};
use crate::types::{AjoError, CircleData, CircleStatus, Payment};

verus! {

/// A request that changes the circle, with its arguments (the payment an
/// accepted one makes is left aside).
pub enum Request {
    InitializeCircle {
        organizer: Addr,
        token_address: Addr,
        contribution_amount: i128,
        frequency_days: u32,
        max_rounds: u32,
        max_members: u32,
        now: u64,
    },
    JoinCircle { organizer: Addr, new_member: Addr },
    Contribute { member: Addr, amount: i128 },
    Deposit { member: Addr, now: u64 },
    ClaimPayout { member: Addr },
    PartialWithdraw { member: Addr, amount: i128 },
    StartDissolutionVote { caller: Addr, threshold_mode: u32 },
    VoteToDissolve { member: Addr },
    DissolveAndRefund { member: Addr },
    Panic { admin: Addr },
    EmergencyRefund { member: Addr },
    SetKycStatus { admin: Addr, member: Addr, is_verified: bool },
    SetEthUsdPrice { admin: Addr, price: i128, decimals: u32 },
    ShuffleRotation { organizer: Addr, ledger_seq: u32 },
    SlashMember { admin: Addr, member: Addr },
    BootDormantMember { admin: Addr, member: Addr },
}

/// A refusal or a new storage as an outcome.
pub open spec fn from_result(r: Result<CircleStore, AjoError>) -> Outcome<CircleStore> {
    match r {
        Ok(s) => Outcome::Accepted(s),
        Err(e) => Outcome::Refused(e),
    }
}

/// An outcome with its payment left aside.
pub open spec fn without_payment(o: Outcome<(CircleStore, Payment)>) -> Outcome<CircleStore> {
    match o {
        Outcome::Accepted((s, _)) => Outcome::Accepted(s),
        Outcome::Refused(e) => Outcome::Refused(e),
        Outcome::Halted => Outcome::Halted,
    }
}

impl CircleStore {
    /// What `req` does to the circle.
    pub open spec fn handle(self, req: Request) -> Outcome<CircleStore> {
        match req {
            Request::InitializeCircle {
                organizer,
                token_address,
                contribution_amount,
                frequency_days,
                max_rounds,
                max_members,
                now,
            } => self.initialize_circle(
                organizer,
                token_address,
                contribution_amount,
                frequency_days,
                max_rounds,
                max_members,
                now,
            ),
            Request::JoinCircle { organizer, new_member } => from_result(
                self.join_circle(organizer, new_member),
            ),
            Request::Contribute { member, amount } => without_payment(
                self.contribute(member, amount),
            ),
            Request::Deposit { member, now } => without_payment(self.deposit(member, now)),
            Request::ClaimPayout { member } => without_payment(self.claim_payout(member)),
            Request::PartialWithdraw { member, amount } => without_payment(
                self.partial_withdraw(member, amount),
            ),
            Request::StartDissolutionVote { caller, threshold_mode } => from_result(
                self.start_dissolution_vote(caller, threshold_mode),
            ),
            Request::VoteToDissolve { member } => self.vote_to_dissolve(member),
            Request::DissolveAndRefund { member } => without_payment(
                self.refund(member, CircleStatus::Dissolved),
            ),
            Request::Panic { admin } => from_result(self.panic(admin)),
            Request::EmergencyRefund { member } => without_payment(
                self.refund(member, CircleStatus::Panicked),
            ),
            Request::SetKycStatus { admin, member, is_verified } => from_result(
                self.set_kyc_status(admin, member, is_verified),
            ),
            Request::SetEthUsdPrice { admin, price, decimals } => from_result(
                self.set_eth_usd_price(admin, price, decimals),
            ),
            Request::ShuffleRotation { organizer, ledger_seq } => from_result(
                self.shuffle_rotation(organizer, ledger_seq),
            ),
            Request::SlashMember { admin, member } => self.slash_member(admin, member),
            Request::BootDormantMember { admin, member } => from_result(
                self.boot_dormant_member(admin, member),
            ),
        }
    }

    /// What every request keeps: the round lies between 1 and `max_rounds`;
    /// the member count lies between 1 and the circle's limit, at most the
    /// hard cap, and equals the number of member records; every member has a
    /// standing; every record carries its member's address; no member's
    /// paid-in or withdrawn total is negative, and a member who has not
    /// collected the pot never has withdrawn more than it paid in; the admin
    /// is the organizer.
    pub open spec fn well_formed(self) -> bool {
        &&& self.circle matches Some(c) ==> {
            &&& 1 <= c.current_round <= c.max_rounds
            &&& 1 <= c.member_count <= c.max_members <= HARD_CAP
            &&& c.contribution_amount > 0
            &&& c.frequency_days > 0
            &&& self.members is Some
            &&& self.admin == Some(c.organizer)
        }
        &&& self.members matches Some(ms) ==> {
            &&& ms.dom().finite()
            &&& self.standings is Some
            &&& forall|k: Addr| #[trigger]
                ms.contains_key(k) ==> {
                    &&& self.standings.unwrap().contains_key(k)
                    &&& ms[k].address == k
                    &&& ms[k].total_contributed >= 0
                    &&& ms[k].total_withdrawn >= 0
                    &&& !ms[k].has_received_payout ==> ms[k].total_withdrawn
                        <= ms[k].total_contributed
                }
        }
        &&& (self.circle is Some && self.members is Some) ==> self.circle.unwrap().member_count
            == self.members.unwrap().dom().len()
    }
}

/// The ledger's order on addresses, by which maps keep their entries and
/// members are listed, is a strict total order.
pub proof fn law_address_order_total(a: Addr, b: Addr, c: Addr)
    ensures
        !addr_lt(a, a),
        addr_lt(a, b) ==> !addr_lt(b, a),
        addr_lt(a, b) && addr_lt(b, c) ==> addr_lt(a, c),
        a == b || addr_lt(a, b) || addr_lt(b, a),
{
}

/// A circle that was never set up is well formed.
pub proof fn law_empty_well_formed()
    ensures
        CircleStore::empty().well_formed(),
{
}

/// Every accepted request keeps the circle well formed.
pub proof fn law_requests_keep_well_formed(s: CircleStore, req: Request)
    requires
        s.well_formed(),
    ensures
        s.handle(req) matches Outcome::Accepted(t) ==> t.well_formed(),
{
    broadcast use vstd::set::group_set_axioms;

    match req {
        Request::InitializeCircle { organizer, .. } => {
            if let Outcome::Accepted(t) = s.handle(req) {
                let ms = t.members.unwrap();
                assert(ms.dom() =~= Set::empty().insert(organizer));
            }
        },
        Request::JoinCircle { organizer, new_member } => {
            if let Ok(t) = s.join_circle(organizer, new_member) {
                let ms = s.members.unwrap();
                assert(t.members.unwrap().dom() =~= ms.dom().insert(new_member));
            }
        },
        Request::Contribute { member, amount } => {
            lemma_contribute_keeps_well_formed(s, member, amount);
        },
        Request::Deposit { member, now } => {
            if let Some(c) = s.circle {
                lemma_contribute_keeps_well_formed(s, member, c.contribution_amount);
            }
        },
        Request::ClaimPayout { member } => {
            if let Outcome::Accepted((t, _)) = s.claim_payout(member) {
                let c = s.circle.unwrap();
                let ms = s.members.unwrap();
                assert(c.member_count * c.contribution_amount >= 0) by (nonlinear_arith)
                    requires
                        c.member_count >= 1,
                        c.contribution_amount > 0,
                ;
                assert(t.members.unwrap().dom() =~= ms.dom());
            }
        },
        Request::PartialWithdraw { member, amount } => {
            if let Outcome::Accepted((t, _)) = s.partial_withdraw(member, amount) {
                assert(t.members.unwrap().dom() =~= s.members.unwrap().dom());
            }
        },
        Request::DissolveAndRefund { member } => {
            if let Outcome::Accepted((t, _)) = s.refund(member, CircleStatus::Dissolved) {
                assert(t.members.unwrap().dom() =~= s.members.unwrap().dom());
            }
        },
        Request::EmergencyRefund { member } => {
            if let Outcome::Accepted((t, _)) = s.refund(member, CircleStatus::Panicked) {
                assert(t.members.unwrap().dom() =~= s.members.unwrap().dom());
            }
        },
        Request::BootDormantMember { admin, member } => {
            if let Ok(t) = s.boot_dormant_member(admin, member) {
                assert(t.members.unwrap().dom() =~= s.members.unwrap().dom());
            }
        },
        _ => {},
    }
}

/// A contribution keeps the circle well formed.
proof fn lemma_contribute_keeps_well_formed(s: CircleStore, member: Addr, amount: i128)
    requires
        s.well_formed(),
    ensures
        s.contribute(member, amount) matches Outcome::Accepted((t, _)) ==> t.well_formed(),
{
    broadcast use vstd::set::group_set_axioms;

    if let Outcome::Accepted((t, _)) = s.contribute(member, amount) {
        assert(t.members.unwrap().dom() =~= s.members.unwrap().dom());
    }
}

/// A circle that was stopped in an emergency, or dissolved, stays so:
/// no accepted request changes its status.
pub proof fn law_stopped_circle_stays_stopped(s: CircleStore, req: Request)
    requires
        s.status() == CircleStatus::Panicked || s.status() == CircleStatus::Dissolved,
    ensures
        s.handle(req) matches Outcome::Accepted(t) ==> t.status() == s.status(),
{
}

/// No member joins a full circle: an admitted member raises the count by
/// one, and the count never passes the circle's limit.
pub proof fn law_join_respects_capacity(s: CircleStore, organizer: Addr, new_member: Addr)
    ensures
        s.join_circle(organizer, new_member) matches Ok(t) ==> {
            &&& t.circle.unwrap().member_count == s.circle.unwrap().member_count + 1
            &&& t.circle.unwrap().member_count <= t.circle.unwrap().max_members
            &&& t.members.unwrap().contains_key(new_member)
        },
        s.join_circle(organizer, new_member) is Ok ==> !s.members.unwrap().contains_key(
            new_member,
        ),
        (s.status() != CircleStatus::Panicked && s.circle is Some && s.circle.unwrap().organizer
            == organizer && s.members is Some && !s.members.unwrap().contains_key(new_member)
            && s.circle.unwrap().member_count >= s.circle.unwrap().max_members) ==> s.join_circle(organizer, new_member) == Err::<
            CircleStore,
            AjoError,
        >(AjoError::CircleAtCapacity),
{
}

/// Once the admin stops the circle, it reports itself stopped and takes no
/// more money in, admits no one and pays nothing out but refunds.
pub proof fn law_panic_stops_circle(s: CircleStore, admin: Addr, member: Addr, amount: i128)
    ensures
        s.panic(admin) matches Ok(t) ==> {
            &&& t.status() == CircleStatus::Panicked
            &&& t.contribute(member, amount) == Outcome::<(CircleStore, Payment)>::Refused(
                AjoError::CirclePanicked,
            )
            &&& t.partial_withdraw(member, amount) == Outcome::<(CircleStore, Payment)>::Refused(
                AjoError::CirclePanicked,
            )
            &&& t.claim_payout(member) == Outcome::<(CircleStore, Payment)>::Refused(
                AjoError::CirclePanicked,
            )
            &&& t.join_circle(admin, member) == Err::<CircleStore, AjoError>(
                AjoError::CirclePanicked,
            )
            &&& t.refund(member, CircleStatus::Dissolved) == Outcome::<
                (CircleStore, Payment),
            >::Refused(AjoError::CircleNotActive)
        },
{
}

/// A refund pays out exactly what the member paid in and did not withdraw,
/// and the refund right after it is refused as there is nothing left
/// (`law_emergency_refund_at_most_once` and
/// `law_dissolution_refund_at_most_once` extend this to every later refund).
pub proof fn law_refund_drains(s: CircleStore, member: Addr, required: CircleStatus)
    ensures
        s.refund(member, required) matches Outcome::Accepted((t, pay)) ==> {
            &&& pay == Payment::ToMember {
                token: s.circle.unwrap().token_address,
                member,
                amount: (s.members.unwrap()[member].total_contributed - s.members.unwrap()[
                    member
                ].total_withdrawn) as i128,
            }
            &&& t.members.unwrap()[member].total_withdrawn == t.members.unwrap()[
                member
            ].total_contributed
            &&& t.refund(member, required) == Outcome::<(CircleStore, Payment)>::Refused(
                AjoError::InsufficientFunds,
            )
        },
{
}

/// What a member pays in comes back in an emergency refund: after a
/// contribution and an emergency stop, the refund is everything the member
/// paid in, this contribution included, less what it withdrew.
pub proof fn law_contribution_refunded_after_panic(
    s: CircleStore,
    member: Addr,
    amount: i128,
    admin: Addr,
)
    requires
        s.well_formed(),
    ensures
        s.contribute(member, amount) matches Outcome::Accepted((t, _)) ==> (t.panic(admin) matches Ok(
            u,
        ) ==> {
            let md = s.members.unwrap()[member];
            let due = md.total_contributed + amount - md.total_withdrawn;
            &&& due > 0 ==> u.refund(member, CircleStatus::Panicked) == Outcome::Accepted(
                (
                    CircleStore {
                        members: Some(
                            u.members.unwrap().insert(
                                member,
                                crate::types::MemberData {
                                    total_withdrawn: (md.total_contributed + amount) as i128,
                                    status: 2,
                                    ..u.members.unwrap()[member]
                                },
                            ),
                        ),
                        ..u
                    },
                    Payment::ToMember {
                        token: s.circle.unwrap().token_address,
                        member,
                        amount: due as i128,
                    },
                ),
            )
            &&& due <= 0 ==> u.refund(member, CircleStatus::Panicked) == Outcome::<
                (CircleStore, Payment),
            >::Refused(AjoError::InsufficientFunds)
        }),
{
    if let Outcome::Accepted((t, _)) = s.contribute(member, amount) {
        lemma_contribute_keeps_well_formed(s, member, amount);
        if let Ok(u) = t.panic(admin) {
            let ms = s.members.unwrap();
            assert(ms.contains_key(member));
            assert(ms[member].total_withdrawn >= 0);
            assert(u.members.unwrap()[member].total_contributed == ms[member].total_contributed + amount);
        }
    }
}

/// What a request records, a later read gives back: the identity check the
/// admin set, the time and amount of a deposit, and the record a joining
/// member starts with.
pub proof fn law_reads_return_writes(
    s: CircleStore,
    admin: Addr,
    member: Addr,
    is_verified: bool,
    now: u64,
)
    ensures
        s.set_kyc_status(admin, member, is_verified) matches Ok(t) ==> t.is_kyc_verified(member)
            == is_verified,
        s.deposit(member, now) matches Outcome::Accepted((t, _)) ==> {
            &&& t.last_deposit_timestamp(member) == Ok::<u64, AjoError>(now)
            &&& t.total_pool == Some(
                (s.total_pool.unwrap_or(0) + s.circle.unwrap().contribution_amount) as i128,
            )
        },
        s.join_circle(admin, member) matches Ok(t) ==> t.members.unwrap()[member] == new_member(
            member,
        ),
{
}

/// The claim right after a payout is refused as already paid
/// (`law_payout_at_most_once` extends this to every later claim).
pub proof fn law_next_claim_refused(s: CircleStore, member: Addr)
    ensures
        s.claim_payout(member) matches Outcome::Accepted((t, _)) ==> t.claim_payout(member)
            == Outcome::<(CircleStore, Payment)>::Refused(AjoError::AlreadyPaid),
{
}

/// The vote right after a member's vote is refused
/// (`law_vote_at_most_once` extends this to every later vote).
pub proof fn law_next_vote_refused(s: CircleStore, member: Addr)
    ensures
        s.vote_to_dissolve(member) matches Outcome::Accepted(t) ==> {
            ||| t.vote_to_dissolve(member) == Outcome::<CircleStore>::Refused(AjoError::AlreadyVoted)
            ||| t.vote_to_dissolve(member) == Outcome::<CircleStore>::Refused(AjoError::NoActiveVote)
        },
{
}

/// A partial withdrawal never takes out more than the member paid in and
/// did not withdraw, and pays the amount less a tenth of it.
pub proof fn law_withdrawal_within_balance(s: CircleStore, member: Addr, amount: i128)
    ensures
        s.partial_withdraw(member, amount) matches Outcome::Accepted((t, pay)) ==> {
            &&& t.members.unwrap()[member].total_withdrawn <= t.members.unwrap()[
                member
            ].total_contributed
            &&& t.members.unwrap()[member].total_withdrawn == s.members.unwrap()[
                member
            ].total_withdrawn + amount
            &&& pay == Payment::ToMember {
                token: s.circle.unwrap().token_address,
                member,
                amount: (amount - amount * 10 / 100) as i128,
            }
        },
{
}

/// A drawn rotation holds exactly the members it was drawn from, each as
/// often as before.
pub proof fn law_shuffle_keeps_members(order: Seq<Addr>, digest: Seq<u8>)
    requires
        digest.len() == 32,
    ensures
        shuffled(order, digest).to_multiset() == order.to_multiset(),
        shuffled(order, digest).len() == order.len(),
{
    lemma_shuffled_permutes(order, digest);
}

/// Setting a circle up stores what it was given: the organizer is the admin
/// and only member, the first round is under way, and the limit is the one
/// asked for (or the default).
pub proof fn law_initialize_then_read(
    s: CircleStore,
    organizer: Addr,
    token_address: Addr,
    contribution_amount: i128,
    frequency_days: u32,
    max_rounds: u32,
    max_members: u32,
    now: u64,
)
    ensures
        s.initialize_circle(
            organizer,
            token_address,
            contribution_amount,
            frequency_days,
            max_rounds,
            max_members,
            now,
        ) matches Outcome::Accepted(t) ==> {
            &&& t.circle.unwrap().organizer == organizer
            &&& t.circle.unwrap().token_address == token_address
            &&& t.circle.unwrap().contribution_amount == contribution_amount
            &&& t.circle.unwrap().current_round == 1
            &&& t.circle.unwrap().member_count == 1
            &&& t.circle.unwrap().max_members == (if max_members == 0 {
                50
            } else {
                max_members
            })
            &&& t.admin == Some(organizer)
            &&& t.members.unwrap().dom() == set![organizer]
            &&& t.round_deadline == Some((now + frequency_days * 86400) as u64)
            &&& t.status() == s.status()
        },
{
    if let Outcome::Accepted(t) = s.initialize_circle(
        organizer,
        token_address,
        contribution_amount,
        frequency_days,
        max_rounds,
        max_members,
        now,
    ) {
        assert(t.members.unwrap().dom() =~= set![organizer]);
    }
}


/// The circle after `req`: the new storage where the request is accepted;
/// otherwise the storage as it was (a refused request changes nothing, and
/// a halted one is undone).
pub open spec fn step(s: CircleStore, req: Request) -> CircleStore {
    match s.handle(req) {
        Outcome::Accepted(t) => t,
        _ => s,
    }
}

/// The circle after the requests `reqs`, one after the other.
pub open spec fn run(s: CircleStore, reqs: Seq<Request>) -> CircleStore
    decreases reqs.len(),
{
    if reqs.len() == 0 {
        s
    } else {
        run(step(s, reqs[0]), reqs.drop_first())
    }
}

/// Whether `reqs` holds no request that sets the circle up anew.
pub open spec fn no_setup(reqs: Seq<Request>) -> bool {
    forall|i: int| 0 <= i < reqs.len() ==> !(#[trigger] reqs[i] is InitializeCircle)
}

/// Whether `req` is a payment into the circle by `m`.
pub open spec fn pays_in(req: Request, m: Addr) -> bool {
    match req {
        Request::Contribute { member, .. } => member == m,
        Request::Deposit { member, .. } => member == m,
        _ => false,
    }
}

/// Any sequence of requests keeps the circle well formed.
pub proof fn law_run_keeps_well_formed(s: CircleStore, reqs: Seq<Request>)
    requires
        s.well_formed(),
    ensures
        run(s, reqs).well_formed(),
    decreases reqs.len(),
{
    if reqs.len() > 0 {
        law_requests_keep_well_formed(s, reqs[0]);
        law_run_keeps_well_formed(step(s, reqs[0]), reqs.drop_first());
    }
}

/// The changes of status that a request may make.
pub open spec fn allowed_status_change(before: CircleStatus, after: CircleStatus, req: Request) -> bool {
    ||| after == before
    ||| before == CircleStatus::Active && after == CircleStatus::VotingForDissolution
        && req is StartDissolutionVote
    ||| before == CircleStatus::VotingForDissolution && after == CircleStatus::Dissolved
        && req is VoteToDissolve
    ||| (before == CircleStatus::Active || before == CircleStatus::VotingForDissolution) && after
        == CircleStatus::Panicked && req is Panic
}

/// The status moves only as the table says: a vote opens from `Active`, a
/// vote that meets its threshold dissolves the circle, an emergency stop
/// comes from `Active` or a running vote; nothing else changes it, so
/// `Dissolved` and `Panicked` are never left.
pub proof fn law_status_changes(s: CircleStore, req: Request)
    ensures
        allowed_status_change(s.status(), step(s, req).status(), req),
{
}

/// The pool of deposits only grows, and only a deposit changes it.
pub proof fn law_pool_only_grows(s: CircleStore, req: Request)
    ensures
        step(s, req).total_pool.unwrap_or(0) >= s.total_pool.unwrap_or(0),
        step(s, req).total_pool != s.total_pool ==> req is Deposit,
{
}

/// Over any sequence of requests the pool of deposits only grows.
pub proof fn law_run_pool_only_grows(s: CircleStore, reqs: Seq<Request>)
    ensures
        run(s, reqs).total_pool.unwrap_or(0) >= s.total_pool.unwrap_or(0),
    decreases reqs.len(),
{
    if reqs.len() > 0 {
        law_pool_only_grows(s, reqs[0]);
        law_run_pool_only_grows(step(s, reqs[0]), reqs.drop_first());
    }
}

/// A contribution or a deposit, accepted or not, leaves the round where it
/// was or moves it on by one, never past `max_rounds`, and changes nothing
/// else of the circle's settings.
pub proof fn law_contribution_round(s: CircleStore, member: Addr, amount: i128, now: u64)
    requires
        s.well_formed(),
        s.circle is Some,
    ensures
        ({
            let c = s.circle.unwrap();
            forall|req: Request|
                req == (Request::Contribute { member, amount }) || req == (Request::Deposit {
                    member,
                    now,
                }) ==> {
                    let c2 = #[trigger] step(s, req).circle.unwrap();
                    &&& step(s, req).circle is Some
                    &&& c2.current_round == c.current_round || c2.current_round == c.current_round
                        + 1
                    &&& 1 <= c2.current_round <= c.max_rounds
                    &&& c2 == (CircleData { current_round: c2.current_round, ..c })
                }
        }),
{
}

/// The member list that `get_members` returns has one record per member,
/// `member_count` of them, each carrying its member's address, in the
/// ledger's order of addresses.
pub proof fn law_member_list_matches_count(s: CircleStore)
    requires
        s.well_formed(),
        s.circle is Some,
    ensures
        values_in_key_order(s.members.unwrap()).len() == s.circle.unwrap().member_count,
        forall|i: int|
            0 <= i < values_in_key_order(s.members.unwrap()).len() ==> (#[trigger] values_in_key_order(
                s.members.unwrap(),
            )[i]).address == key_order(s.members.unwrap())[i],
{
    let ms = s.members.unwrap();
    lemma_key_order_exists(ms);
    assert forall|i: int| 0 <= i < values_in_key_order(ms).len() implies (
    #[trigger] values_in_key_order(ms)[i]).address == key_order(ms)[i] by {
        assert(key_order(ms).contains(key_order(ms)[i]));
        assert(ms.contains_key(key_order(ms)[i]));
    }
}

/// `m` has collected the pot.
pub open spec fn has_collected(s: CircleStore, m: Addr) -> bool {
    &&& s.members is Some
    &&& s.members.unwrap().contains_key(m)
    &&& s.members.unwrap()[m].has_received_payout
}

/// A member who collected stays so through any request but a new setup.
proof fn lemma_collected_kept(s: CircleStore, req: Request, m: Addr)
    requires
        s.well_formed(),
        has_collected(s, m),
        !(req is InitializeCircle),
    ensures
        has_collected(step(s, req), m),
{
}

/// A member who collected stays so through any requests but a new setup.
proof fn lemma_collected_run(s: CircleStore, reqs: Seq<Request>, m: Addr)
    requires
        s.well_formed(),
        has_collected(s, m),
        no_setup(reqs),
    ensures
        has_collected(run(s, reqs), m),
        run(s, reqs).well_formed(),
    decreases reqs.len(),
{
    if reqs.len() > 0 {
        assert(!(reqs[0] is InitializeCircle));
        lemma_collected_kept(s, reqs[0], m);
        law_requests_keep_well_formed(s, reqs[0]);
        let rest = reqs.drop_first();
        assert forall|i: int| 0 <= i < rest.len() implies !(#[trigger] rest[i] is InitializeCircle) by {
            assert(rest[i] == reqs[i + 1]);
        }
        lemma_collected_run(step(s, reqs[0]), rest, m);
    }
}

/// A member collects the pot at most once per circle: after a payout, every
/// later claim by the member is refused (and pays nothing), whatever
/// requests come between, as long as the circle is not set up anew.
pub proof fn law_payout_at_most_once(s: CircleStore, m: Addr, reqs: Seq<Request>)
    requires
        s.well_formed(),
        no_setup(reqs),
    ensures
        s.claim_payout(m) matches Outcome::Accepted((t, _)) ==> run(t, reqs).claim_payout(
            m,
        ) is Refused,
{
    if let Outcome::Accepted((t, _)) = s.claim_payout(m) {
        law_requests_keep_well_formed(s, Request::ClaimPayout { member: m });
        assert(has_collected(t, m));
        lemma_collected_run(t, reqs, m);
    }
}

/// `m` was refunded while the circle had status `required`, and has not
/// paid anything in since.
pub open spec fn was_refunded(s: CircleStore, m: Addr, required: CircleStatus) -> bool {
    &&& s.well_formed()
    &&& s.status() == required
    &&& s.members is Some
    &&& s.members.unwrap().contains_key(m)
    &&& s.members.unwrap()[m].total_withdrawn >= s.members.unwrap()[m].total_contributed
}

/// A refunded member stays refunded through any request but a new setup,
/// or (in a dissolved circle) a payment of its own.
proof fn lemma_refunded_kept(s: CircleStore, req: Request, m: Addr, required: CircleStatus)
    requires
        required == CircleStatus::Panicked || required == CircleStatus::Dissolved,
        was_refunded(s, m, required),
        !(req is InitializeCircle),
        required == CircleStatus::Dissolved ==> !pays_in(req, m),
    ensures
        was_refunded(step(s, req), m, required),
{
    law_requests_keep_well_formed(s, req);
    law_stopped_circle_stays_stopped(s, req);
    if let Request::ClaimPayout { member } = req {
        if let Outcome::Accepted((t, _)) = s.claim_payout(member) {
            let c = s.circle.unwrap();
            assert(c.member_count * c.contribution_amount >= 0) by (nonlinear_arith)
                requires
                    c.member_count >= 1,
                    c.contribution_amount > 0,
            ;
        }
    }
}

/// A refunded member stays refunded through any such requests.
proof fn lemma_refunded_run(s: CircleStore, reqs: Seq<Request>, m: Addr, required: CircleStatus)
    requires
        required == CircleStatus::Panicked || required == CircleStatus::Dissolved,
        was_refunded(s, m, required),
        no_setup(reqs),
        required == CircleStatus::Dissolved ==> forall|i: int|
            0 <= i < reqs.len() ==> !pays_in(#[trigger] reqs[i], m),
    ensures
        was_refunded(run(s, reqs), m, required),
    decreases reqs.len(),
{
    if reqs.len() > 0 {
        assert(!(reqs[0] is InitializeCircle));
        lemma_refunded_kept(s, reqs[0], m, required);
        let rest = reqs.drop_first();
        assert forall|i: int| 0 <= i < rest.len() implies !(#[trigger] rest[i] is InitializeCircle) by {
            assert(rest[i] == reqs[i + 1]);
        }
        if required == CircleStatus::Dissolved {
            assert forall|i: int| 0 <= i < rest.len() implies !pays_in(#[trigger] rest[i], m) by {
                assert(rest[i] == reqs[i + 1]);
            }
        }
        lemma_refunded_run(step(s, reqs[0]), rest, m, required);
    }
}

/// An emergency refund is paid at most once per member: after it, every
/// later emergency refund to the member is refused with
/// `InsufficientFunds` (and pays nothing), whatever requests come between,
/// as long as the circle is not set up anew.
pub proof fn law_emergency_refund_at_most_once(s: CircleStore, m: Addr, reqs: Seq<Request>)
    requires
        s.well_formed(),
        no_setup(reqs),
    ensures
        s.refund(m, CircleStatus::Panicked) matches Outcome::Accepted((t, _)) ==> run(
            t,
            reqs,
        ).refund(m, CircleStatus::Panicked) == Outcome::<(CircleStore, Payment)>::Refused(
            AjoError::InsufficientFunds,
        ),
{
    if let Outcome::Accepted((t, _)) = s.refund(m, CircleStatus::Panicked) {
        law_requests_keep_well_formed(s, Request::EmergencyRefund { member: m });
        assert(was_refunded(t, m, CircleStatus::Panicked));
        lemma_refunded_run(t, reqs, m, CircleStatus::Panicked);
    }
}

/// What a dissolved circle owes a member is refunded at most once: after
/// the refund, every later refund to the member is refused with
/// `InsufficientFunds` (and pays nothing), whatever requests come between,
/// as long as the member pays nothing in and the circle is not set up anew.
pub proof fn law_dissolution_refund_at_most_once(s: CircleStore, m: Addr, reqs: Seq<Request>)
    requires
        s.well_formed(),
        no_setup(reqs),
        forall|i: int| 0 <= i < reqs.len() ==> !pays_in(#[trigger] reqs[i], m),
    ensures
        s.refund(m, CircleStatus::Dissolved) matches Outcome::Accepted((t, _)) ==> run(
            t,
            reqs,
        ).refund(m, CircleStatus::Dissolved) == Outcome::<(CircleStore, Payment)>::Refused(
            AjoError::InsufficientFunds,
        ),
{
    if let Outcome::Accepted((t, _)) = s.refund(m, CircleStatus::Dissolved) {
        law_requests_keep_well_formed(s, Request::DissolveAndRefund { member: m });
        assert(was_refunded(t, m, CircleStatus::Dissolved));
        lemma_refunded_run(t, reqs, m, CircleStatus::Dissolved);
    }
}

/// `m` has voted in the circle's one dissolution vote.
pub open spec fn has_voted(s: CircleStore, m: Addr) -> bool {
    &&& s.status() != CircleStatus::Active
    &&& s.status() == CircleStatus::VotingForDissolution ==> s.vote_cast is Some
        && s.vote_cast.unwrap().contains_key(m) && s.vote_cast.unwrap()[m]
}

/// A member who voted stays so through any request.
proof fn lemma_voted_run(s: CircleStore, reqs: Seq<Request>, m: Addr)
    requires
        has_voted(s, m),
    ensures
        has_voted(run(s, reqs), m),
    decreases reqs.len(),
{
    if reqs.len() > 0 {
        law_status_changes(s, reqs[0]);
        lemma_voted_run(step(s, reqs[0]), reqs.drop_first(), m);
    }
}

/// A member votes at most once on dissolving the circle: after its vote,
/// every later vote by the member is refused, whatever requests come
/// between (a vote opens only while the circle is `Active`, and the circle
/// never returns to `Active`).
pub proof fn law_vote_at_most_once(s: CircleStore, m: Addr, reqs: Seq<Request>)
    ensures
        s.vote_to_dissolve(m) matches Outcome::Accepted(t) ==> run(t, reqs).vote_to_dissolve(
            m,
        ) is Refused,
{
    if let Outcome::Accepted(t) = s.vote_to_dissolve(m) {
        assert(has_voted(t, m));
        lemma_voted_run(t, reqs, m);
    }
}

/// A contribution counts its member toward the round only when it brings
/// the member's total from below the round's target (the round number times
/// the contribution amount) to the target or above; so each member is counted
/// at most once per round. A contribution by a member who had already
/// reached the target, or who stays below it, leaves the count, the round
/// and the deadline as they were. When the member is counted and is the
/// last one missing, the count starts over, the deadline moves on by the
/// circle's period and the round advances (up to `max_rounds`); otherwise
/// the count grows by one.
pub proof fn law_contribution_counts_member_once(s: CircleStore, member: Addr, amount: i128)
    ensures
        s.contribute(member, amount) matches Outcome::Accepted((t, _)) ==> {
            let c = s.circle.unwrap();
            let target = c.current_round * c.contribution_amount;
            let before = s.members.unwrap()[member].total_contributed;
            let after = t.members.unwrap()[member].total_contributed;
            let count = s.round_contrib_count.unwrap_or(0) + 1;
            &&& after == before + amount
            &&& (before >= target || after < target) ==> {
                &&& t.round_contrib_count == s.round_contrib_count
                &&& t.round_deadline == s.round_deadline
                &&& t.circle == s.circle
            }
            &&& (before < target && after >= target && count < c.member_count) ==> {
                &&& t.round_contrib_count == Some(count as u32)
                &&& t.round_deadline == s.round_deadline
                &&& t.circle == s.circle
            }
            &&& (before < target && after >= target && count >= c.member_count) ==> {
                &&& t.round_contrib_count == Some(0u32)
                &&& t.round_deadline == Some(
                    (s.round_deadline.unwrap_or(0) + c.frequency_days * 86400) as u64,
                )
                &&& t.circle.unwrap().current_round == if c.current_round < c.max_rounds {
                    c.current_round + 1
                } else {
                    c.current_round as int
                }
            }
        },
{
}

/// Where a rotation was drawn and the round lies within it, only the member
/// at the round's place in the rotation (place `current_round - 1`) may
/// collect the pot: a claim by anyone else is never accepted, and that
/// member's claim is never refused as out of turn.
pub proof fn law_claim_follows_rotation(s: CircleStore, member: Addr)
    requires
        s.circle is Some,
        s.rotation_order is Some,
        1 <= s.circle.unwrap().current_round <= s.rotation_order.unwrap().len(),
    ensures
        member != s.rotation_order.unwrap()[s.circle.unwrap().current_round - 1] ==> !(s.claim_payout(
            member,
        ) is Accepted),
        (member != s.rotation_order.unwrap()[s.circle.unwrap().current_round - 1] && s.status()
            != CircleStatus::Panicked && s.members is Some && !(or_empty_standing_blocks(s, member)))
            ==> s.claim_payout(member) == Outcome::<(CircleStore, Payment)>::Refused(
            AjoError::Unauthorized,
        ),
        member == s.rotation_order.unwrap()[s.circle.unwrap().current_round - 1] ==> s.claim_payout(
            member,
        ) != Outcome::<(CircleStore, Payment)>::Refused(AjoError::Unauthorized),
{
}

/// Whether `member`'s standing bars it from collecting.
pub open spec fn or_empty_standing_blocks(s: CircleStore, member: Addr) -> bool {
    s.standings is Some && s.standings.unwrap().contains_key(member)
        && !s.standings.unwrap()[member].is_active
}

/// A vote adds one to the votes for dissolving, keeps the number of members
/// and the threshold mode, and dissolves the circle exactly when the votes
/// meet the threshold: in mode 1 when `votes * 100 > members * 66` (more
/// than 66 percent), otherwise when `votes * 2 > members` (a majority).
pub proof fn law_vote_threshold(s: CircleStore, member: Addr)
    ensures
        s.vote_to_dissolve(member) matches Outcome::Accepted(t) ==> {
            let v = s.dissolution_vote.unwrap();
            let w = t.dissolution_vote.unwrap();
            &&& w.votes_for == v.votes_for + 1
            &&& w.total_members == v.total_members
            &&& w.threshold_mode == v.threshold_mode
            &&& v.threshold_mode == 1 ==> (t.status() == CircleStatus::Dissolved <==> w.votes_for
                * 100 > v.total_members * 66)
            &&& v.threshold_mode != 1 ==> (t.status() == CircleStatus::Dissolved <==> w.votes_for
                * 2 > v.total_members)
        },
{
}

/// A partial withdrawal is accepted whenever it asks for a positive amount
/// no larger than what the member paid in and did not withdraw (on a circle
/// that is not stopped, with the member and the circle present, and no
/// overflow), and is refused with `InsufficientFunds` when it asks for more.
pub proof fn law_withdrawal_accepted_within_balance(s: CircleStore, member: Addr, amount: i128)
    requires
        s.status() != CircleStatus::Panicked,
        s.circle is Some,
        s.members is Some,
        s.members.unwrap().contains_key(member),
        ({
            let md = s.members.unwrap()[member];
            &&& i128::MIN <= md.total_contributed - md.total_withdrawn <= i128::MAX
            &&& md.total_withdrawn + amount <= i128::MAX
            &&& amount * 10 <= i128::MAX
        }),
    ensures
        ({
            let md = s.members.unwrap()[member];
            &&& (0 < amount <= md.total_contributed - md.total_withdrawn) ==> s.partial_withdraw(
                member,
                amount,
            ) is Accepted
            &&& (amount > 0 && amount > md.total_contributed - md.total_withdrawn)
                ==> s.partial_withdraw(member, amount) == Outcome::<
                (CircleStore, Payment),
            >::Refused(AjoError::InsufficientFunds)
        }),
{
}

/// A drawn rotation of two members is swapped exactly when byte 1 of the
/// digest is even.
pub proof fn law_shuffle_two(s: Seq<Addr>, h: Seq<u8>)
    requires
        s.len() == 2,
        h.len() == 32,
    ensures
        shuffled(s, h) == if h[1] % 2 == 0 {
            seq![s[1], s[0]]
        } else {
            s
        },
{
    let j = draw(h, 1);
    assert(j == h[1] % 2);
    assert(shuffled(s, h) == shuffle_steps(swap(s, 1, j), h, 0));
    assert(shuffle_steps(swap(s, 1, j), h, 0) == swap(s, 1, j));
    assert(swap(s, 1, j) =~= if h[1] % 2 == 0 {
        seq![s[1], s[0]]
    } else {
        s
    });
}

/// Shuffling runs its steps from the last place down to place 1: the last
/// place receives the item at `digest[(n - 1) % 32] % n`, and the rest is the
/// shuffle of what then stands before the last place.
pub proof fn law_shuffle_last_step_first(s: Seq<Addr>, h: Seq<u8>)
    requires
        s.len() >= 2,
        h.len() == 32,
    ensures
        ({
            let n = s.len() as int;
            let j = (h[(n - 1) % 32] as int) % n;
            let t = s.update(n - 1, s[j]).update(j, s[n - 1]);
            &&& shuffled(s, h)[n - 1] == s[j]
            &&& shuffled(s, h) == shuffled(t.take(n - 1), h).push(t[n - 1])
        }),
{
    let n = s.len() as int;
    let j = (h[(n - 1) % 32] as int) % n;
    let t = s.update(n - 1, s[j]).update(j, s[n - 1]);
    assert(t == swap(s, n - 1, draw(h, n - 1)));
    assert(shuffled(s, h) == shuffle_steps(t, h, n - 2));
    lemma_shuffle_keeps_last(t, h, n - 2);
    let p = t.take(n - 1);
    assert(p.len() == n - 1);
    assert(shuffled(p, h) == shuffle_steps(p, h, n - 2));
    crate::rotation::lemma_shuffle_steps_permutes(p, h, n - 2);
    assert(shuffled(s, h) == shuffled(p, h).push(t[n - 1]));
    assert(t[n - 1] == s[j]);
}

/// Steps below the last place leave the last place alone.
proof fn lemma_shuffle_keeps_last(u: Seq<Addr>, h: Seq<u8>, i: int)
    requires
        u.len() >= 1,
        i <= u.len() - 2,
        h.len() == 32,
    ensures
        shuffle_steps(u, h, i) == shuffle_steps(u.take(u.len() - 1), h, i).push(u[u.len() - 1]),
    decreases i,
{
    let l = u.len() as int;
    if i <= 0 {
        assert(u =~= u.take(l - 1).push(u[l - 1]));
    } else {
        let j = draw(h, i);
        assert(0 <= j <= i);
        let v = swap(u, i, j);
        assert(v.take(l - 1) =~= swap(u.take(l - 1), i, j));
        assert(v[l - 1] == u[l - 1]);
        lemma_shuffle_keeps_last(v, h, i - 1);
    }
}

/// Powers of ten: ten to the zero is one, ten to the one is ten, and
/// exponents add as factors multiply.
pub proof fn law_pow10(a: nat, b: nat)
    ensures
        pow10(0) == 1,
        pow10(1) == 10,
        pow10(a + b) == pow10(a) * pow10(b),
    decreases b,
{
    if b > 0 {
        law_pow10(a, (b - 1) as nat);
        assert(pow10(a + b) == 10 * pow10((a + b - 1) as nat));
        assert(pow10(a) * pow10(b) == pow10(a) * (10 * pow10((b - 1) as nat)));
        assert(pow10(a) * (10 * pow10((b - 1) as nat)) == 10 * (pow10(a) * pow10((b - 1) as nat)))
            by (nonlinear_arith);
    }
}

/// Setting up is refused with `InvalidInput` exactly when the amount, the
/// period or the number of rounds is not positive, or the member limit (0
/// standing for 50) passes the hard cap of 100; otherwise it is accepted
/// unless the first deadline overflows the ledger's clock.
pub proof fn law_initialize_validates(
    s: CircleStore,
    organizer: Addr,
    token_address: Addr,
    contribution_amount: i128,
    frequency_days: u32,
    max_rounds: u32,
    max_members: u32,
    now: u64,
)
    ensures
        ({
            let o = s.initialize_circle(
                organizer,
                token_address,
                contribution_amount,
                frequency_days,
                max_rounds,
                max_members,
                now,
            );
            let valid = contribution_amount > 0 && frequency_days > 0 && max_rounds > 0
                && max_members <= 100;
            &&& !valid ==> o == Outcome::<CircleStore>::Refused(AjoError::InvalidInput)
            &&& (valid && now + frequency_days * 86400 <= u64::MAX) ==> o is Accepted
            &&& (valid && now + frequency_days * 86400 > u64::MAX) ==> o is Halted
        }),
{
}

/// An accepted contribution pays `amount` from the member into the circle's
/// token, clears the member's missed rounds, and is refused for an amount
/// that is not positive, or for a member whose standing is inactive.
pub proof fn law_contribution_payment(s: CircleStore, member: Addr, amount: i128)
    ensures
        s.contribute(member, amount) matches Outcome::Accepted((t, pay)) ==> {
            &&& amount > 0
            &&& pay == Payment::FromMember {
                token: s.circle.unwrap().token_address,
                member,
                amount,
            }
            &&& t.standings.unwrap()[member].missed_count == 0
            &&& t.standings.unwrap()[member].is_active
            &&& s.standings.unwrap()[member].is_active
            &&& s.status() != CircleStatus::Panicked
        },
        (s.status() != CircleStatus::Panicked && amount <= 0) ==> s.contribute(member, amount)
            == Outcome::<(CircleStore, Payment)>::Refused(AjoError::InvalidInput),
{
}

/// A deposit pays the circle's contribution amount from the member.
pub proof fn law_deposit_payment(s: CircleStore, member: Addr, now: u64)
    ensures
        s.deposit(member, now) matches Outcome::Accepted((t, pay)) ==> {
            &&& pay == Payment::FromMember {
                token: s.circle.unwrap().token_address,
                member,
                amount: s.circle.unwrap().contribution_amount,
            }
            &&& t.members.unwrap()[member].total_contributed == s.members.unwrap()[
                member
            ].total_contributed + s.circle.unwrap().contribution_amount
        },
{
}

/// A payout pays the member the pot: the number of members times the
/// contribution amount; the member's withdrawn total grows by as much.
pub proof fn law_payout_amount(s: CircleStore, member: Addr)
    ensures
        s.claim_payout(member) matches Outcome::Accepted((t, pay)) ==> {
            let c = s.circle.unwrap();
            let before = s.members.unwrap()[member];
            let after = t.members.unwrap()[member];
            &&& pay == Payment::ToMember {
                token: c.token_address,
                member,
                amount: (c.member_count * c.contribution_amount) as i128,
            }
            &&& after.total_withdrawn == before.total_withdrawn + c.member_count
                * c.contribution_amount
            &&& after.has_received_payout
            &&& !before.has_received_payout
            &&& after.total_contributed == before.total_contributed
        },
{
}

/// Opening a vote starts it with no votes, the current member count and
/// the chosen mode, and needs the caller to be a member or the organizer
/// and the mode to be 0 or 1.
pub proof fn law_vote_opens(s: CircleStore, caller: Addr, threshold_mode: u32)
    ensures
        s.start_dissolution_vote(caller, threshold_mode) matches Ok(t) ==> {
            &&& t.status() == CircleStatus::VotingForDissolution
            &&& s.status() == CircleStatus::Active
            &&& t.dissolution_vote == Some(
                crate::types::DissolutionVote {
                    votes_for: 0,
                    total_members: s.circle.unwrap().member_count,
                    threshold_mode,
                },
            )
            &&& threshold_mode <= 1
            &&& s.members.unwrap().contains_key(caller) || s.circle.unwrap().organizer == caller
            &&& forall|m: Addr| !(#[trigger] t.vote_cast.unwrap().contains_key(m))
        },
        threshold_mode > 1 ==> s.start_dissolution_vote(caller, threshold_mode) == Err::<
            CircleStore,
            AjoError,
        >(AjoError::InvalidInput),
{
}

/// Only members vote, each only while a vote runs.
pub proof fn law_vote_needs_member(s: CircleStore, member: Addr)
    ensures
        s.vote_to_dissolve(member) is Accepted ==> s.status() == CircleStatus::VotingForDissolution
            && s.members.unwrap().contains_key(member),
{
}

/// The admin alone stops the circle, updates identity checks and prices,
/// counts missed rounds, disqualifies members and replaces the code: any
/// other caller is refused with `Unauthorized` (or `NotFound` where no admin
/// is stored).
pub proof fn law_admin_only(s: CircleStore, caller: Addr, member: Addr, flag: bool, price: i128, decimals: u32)
    requires
        s.admin != Some(caller),
    ensures
        s.panic(caller) is Err,
        s.set_kyc_status(caller, member, flag) is Err,
        s.set_eth_usd_price(caller, price, decimals) is Err,
        s.slash_member(caller, member) is Refused,
        s.boot_dormant_member(caller, member) is Err,
        s.admin_check(caller) == (if s.admin is None {
            Err::<(), AjoError>(AjoError::NotFound)
        } else {
            Err::<(), AjoError>(AjoError::Unauthorized)
        }),
{
}

/// Counting a missed round raises the member's count by one and leaves it
/// active only while the count stays below three.
pub proof fn law_slash_counts(s: CircleStore, admin: Addr, member: Addr)
    ensures
        s.slash_member(admin, member) matches Outcome::Accepted(t) ==> {
            let before = s.standings.unwrap()[member];
            let after = t.standings.unwrap()[member];
            &&& after.missed_count == before.missed_count + 1
            &&& after.is_active == (before.is_active && before.missed_count + 1 < 3)
        },
{
}

/// Disqualifying a member marks its standing inactive and its record as
/// left, and keeps its totals.
pub proof fn law_boot_disqualifies(s: CircleStore, admin: Addr, member: Addr)
    ensures
        s.boot_dormant_member(admin, member) matches Ok(t) ==> {
            &&& !t.standings.unwrap()[member].is_active
            &&& t.members.unwrap()[member].status == 2
            &&& t.members.unwrap()[member].total_contributed == s.members.unwrap()[
                member
            ].total_contributed
            &&& t.members.unwrap()[member].total_withdrawn == s.members.unwrap()[
                member
            ].total_withdrawn
        },
{
}

/// A circle that was never set up is `Active`, and no member is identity
/// checked until the admin says so.
pub proof fn law_defaults(member: Addr)
    ensures
        CircleStore::empty().status() == CircleStatus::Active,
        !CircleStore::empty().is_kyc_verified(member),
        CircleStore::empty().native_amount_for_usd(1) == Err::<i128, AjoError>(
            AjoError::PriceUnavailable,
        ),
{
}

/// At a positive price, the native amount is the dollar amount scaled by
/// ten to the `decimals`, divided by the price and rounded down: it times the
/// price is at most the scaled amount, and one more would be too much.
pub proof fn law_native_amount_rounds_down(s: CircleStore, usd_amount: i128)
    requires
        s.eth_usd_price matches Some(p) && p > 0,
    ensures
        s.native_amount_for_usd(usd_amount) matches Ok(n) ==> {
            let p = s.eth_usd_price.unwrap() as int;
            let scaled = usd_amount * pow10(s.eth_usd_decimals.unwrap() as nat);
            &&& n > 0
            &&& n * p <= scaled < (n + 1) * p
        },
{
    if let Ok(n) = s.native_amount_for_usd(usd_amount) {
        let p = s.eth_usd_price.unwrap() as int;
        let scaled = usd_amount * pow10(s.eth_usd_decimals.unwrap() as nat);
        assert(n == scaled / p);
        assert((scaled / p) * p <= scaled < (scaled / p + 1) * p) by (nonlinear_arith)
            requires
                p > 0,
                scaled >= 0,
        ;
    }
}

/// A refund is paid only while the circle has the status it asks for
/// (dissolved, or stopped in an emergency), only to a member who has
/// something left to take back, and marks the member as having left.
pub proof fn law_refund_conditions(s: CircleStore, member: Addr, required: CircleStatus)
    ensures
        s.refund(member, required) matches Outcome::Accepted((t, _)) ==> {
            &&& s.status() == required
            &&& s.members.unwrap()[member].total_contributed > s.members.unwrap()[
                member
            ].total_withdrawn
            &&& t.members.unwrap()[member].status == 2
            &&& t.status() == s.status()
        },
        s.status() != required ==> s.refund(member, required) == Outcome::<
            (CircleStore, Payment),
        >::Refused(AjoError::CircleNotActive),
{
}

/// Only the organizer admits members, and only new ones.
pub proof fn law_join_by_organizer(s: CircleStore, organizer: Addr, new_member: Addr)
    ensures
        s.join_circle(organizer, new_member) is Ok ==> s.circle.unwrap().organizer == organizer
            && s.status() != CircleStatus::Panicked,
        (s.circle is Some && s.circle.unwrap().organizer != organizer && s.status()
            != CircleStatus::Panicked) ==> s.join_circle(organizer, new_member) == Err::<
            CircleStore,
            AjoError,
        >(AjoError::Unauthorized),
{
}

/// The pot goes only to a member who has not collected it, is not
/// disqualified, while the circle is not stopped.
pub proof fn law_claim_conditions(s: CircleStore, member: Addr)
    ensures
        s.claim_payout(member) is Accepted ==> {
            &&& s.status() != CircleStatus::Panicked
            &&& !s.members.unwrap()[member].has_received_payout
            &&& !or_empty_standing_blocks(s, member)
        },
{
}

} // verus!
