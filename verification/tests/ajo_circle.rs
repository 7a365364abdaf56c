use ajo_circle::{
    shuffle_with_digest, rotation_digest, u32_be_bytes, AddrMap, Addr, AjoCircle, AjoError, CircleStatus,
    MemberStanding, Payment,
};
use soroban_sdk::Env;
use std::collections::HashMap;

fn addr(n: u128) -> Addr {
    Addr { kind: 1, hi: 0, lo: n }
}

/// Token balances, moved as the circle's payments say.
struct Ledger {
    balances: HashMap<Addr, i128>,
}

impl Ledger {
    fn new() -> Self {
        Ledger { balances: HashMap::new() }
    }

    fn mint(&mut self, who: Addr, amount: i128) {
        *self.balances.entry(who).or_insert(0) += amount;
    }

    fn balance(&self, who: Addr) -> i128 {
        *self.balances.get(&who).unwrap_or(&0)
    }

    fn settle(&mut self, payment: Payment) {
        let circle = addr(999);
        match payment {
            Payment::FromMember { member, amount, .. } => {
                assert!(self.balance(member) >= amount);
                self.mint(member, -amount);
                self.mint(circle, amount);
            }
            Payment::ToMember { member, amount, .. } => {
                self.mint(circle, -amount);
                self.mint(member, amount);
            }
        }
    }
}

fn setup_circle_with_member() -> (AjoCircle, Addr, Addr, Addr, Ledger) {
    let mut circle = AjoCircle::new();
    let organizer = addr(1);
    let member = addr(2);
    let token = addr(3);
    let mut ledger = Ledger::new();
    ledger.mint(organizer, 1000);
    ledger.mint(member, 1000);
    circle.initialize_circle(organizer, token, 100, 7, 12, 5, 0).unwrap();
    circle.add_member(organizer, member).unwrap();
    (circle, organizer, member, token, ledger)
}

#[test]
fn enforce_member_limit() {
    let (mut circle, organizer, _, token, _) = setup_circle_with_member();
    circle.initialize_circle(organizer, token, 100, 7, 12, 2, 0).unwrap();
    circle.add_member(organizer, addr(10)).unwrap();
    let res = circle.add_member(organizer, addr(11));
    assert_eq!(res, Err(AjoError::CircleAtCapacity));
}

#[test]
fn test_panic_flow() {
    let (mut circle, organizer, member, _, _) = setup_circle_with_member();
    assert!(!circle.is_panicked());
    circle.panic(organizer).unwrap();
    assert!(circle.is_panicked());
    assert_eq!(circle.get_circle_status(), CircleStatus::Panicked);
    assert!(!circle.contribute_halts(member, 50));
    let res = circle.contribute(member, 50_i128);
    assert_eq!(res, Err(AjoError::CirclePanicked));
}

#[test]
fn test_emergency_refund() {
    let (mut circle, organizer, member, _, mut ledger) = setup_circle_with_member();
    let pay = circle.contribute(member, 200_i128).unwrap();
    ledger.settle(pay);
    assert_eq!(ledger.balance(member), 800_i128);
    circle.panic(organizer).unwrap();
    let pay = circle.emergency_refund(member).unwrap();
    ledger.settle(pay);
    match pay {
        Payment::ToMember { amount, .. } => assert_eq!(amount, 200_i128),
        _ => panic!("refund goes to the member"),
    }
    assert_eq!(ledger.balance(member), 1000_i128);
}

#[test]
fn initialize_stores_settings() {
    let mut circle = AjoCircle::new();
    assert_eq!(circle.get_circle_state(), Err(AjoError::NotFound));
    circle.initialize_circle(addr(1), addr(3), 100, 7, 12, 0, 1_000).unwrap();
    let c = circle.get_circle_state().unwrap();
    assert_eq!(c.max_members, 50);
    assert_eq!(c.current_round, 1);
    assert_eq!(c.member_count, 1);
    assert_eq!(circle.round_deadline, Some(1_000 + 7 * 86_400));
    assert_eq!(circle.round_contrib_count, Some(0));
    assert_eq!(circle.admin, Some(addr(1)));
    let members = circle.get_members().unwrap();
    assert_eq!(members.len(), 1);
    assert_eq!(members[0].address, addr(1));
}

#[test]
fn initialize_rejects_bad_settings() {
    let mut circle = AjoCircle::new();
    assert_eq!(circle.initialize_circle(addr(1), addr(3), 0, 7, 12, 5, 0), Err(AjoError::InvalidInput));
    assert_eq!(circle.initialize_circle(addr(1), addr(3), 100, 0, 12, 5, 0), Err(AjoError::InvalidInput));
    assert_eq!(circle.initialize_circle(addr(1), addr(3), 100, 7, 0, 5, 0), Err(AjoError::InvalidInput));
    assert_eq!(circle.initialize_circle(addr(1), addr(3), 100, 7, 12, 101, 0), Err(AjoError::InvalidInput));
    assert_eq!(circle.get_circle_state(), Err(AjoError::NotFound));
    assert!(circle.initialize_circle(addr(1), addr(3), 100, 7, 12, 100, 0).is_ok());
}

#[test]
fn initialize_halts_when_deadline_overflows() {
    let circle = AjoCircle::new();
    assert!(circle.initialize_circle_halts(100, 7, 12, 5, u64::MAX));
    assert!(!circle.initialize_circle_halts(100, 7, 12, 5, 0));
    assert!(!circle.initialize_circle_halts(0, 7, 12, 5, u64::MAX));
}

#[test]
fn join_errors() {
    let mut circle = AjoCircle::new();
    assert_eq!(circle.join_circle(addr(1), addr(2)), Err(AjoError::NotFound));
    circle.initialize_circle(addr(1), addr(3), 100, 7, 12, 5, 0).unwrap();
    assert_eq!(circle.join_circle(addr(9), addr(2)), Err(AjoError::Unauthorized));
    assert_eq!(circle.join_circle(addr(1), addr(1)), Err(AjoError::AlreadyExists));
    circle.join_circle(addr(1), addr(2)).unwrap();
    assert_eq!(circle.get_circle_state().unwrap().member_count, 2);
    assert_eq!(circle.standings.as_ref().unwrap().get(&addr(2)), Some(MemberStanding { missed_count: 0, is_active: true }));
}

#[test]
fn members_listed_in_address_order() {
    let mut circle = AjoCircle::new();
    circle.initialize_circle(addr(5), addr(3), 100, 7, 12, 5, 0).unwrap();
    circle.join_circle(addr(5), addr(9)).unwrap();
    circle.join_circle(addr(5), addr(2)).unwrap();
    circle.join_circle(addr(5), Addr { kind: 0, hi: 7, lo: 7 }).unwrap();
    let order: Vec<Addr> = circle.get_members().unwrap().iter().map(|m| m.address).collect();
    assert_eq!(order, vec![Addr { kind: 0, hi: 7, lo: 7 }, addr(2), addr(5), addr(9)]);
}

#[test]
fn contribution_completes_round() {
    let (mut circle, organizer, member, token, _) = setup_circle_with_member();
    let pay = circle.contribute(organizer, 100).unwrap();
    assert_eq!(pay, Payment::FromMember { token, member: organizer, amount: 100 });
    assert_eq!(circle.round_contrib_count, Some(1));
    assert_eq!(circle.get_circle_state().unwrap().current_round, 1);
    circle.contribute(member, 60).unwrap();
    assert_eq!(circle.round_contrib_count, Some(1));
    circle.contribute(member, 40).unwrap();
    let c = circle.get_circle_state().unwrap();
    assert_eq!(c.current_round, 2);
    assert_eq!(circle.round_contrib_count, Some(0));
    assert_eq!(circle.round_deadline, Some(14 * 86_400));
    assert_eq!(circle.get_member_balance(member).unwrap().total_contributed, 100);
}

#[test]
fn contribute_errors() {
    let (mut circle, organizer, member, _, _) = setup_circle_with_member();
    assert_eq!(circle.contribute(member, 0), Err(AjoError::InvalidInput));
    assert_eq!(circle.contribute(addr(77), 10), Err(AjoError::NotFound));
    circle.boot_dormant_member(organizer, member).unwrap();
    assert_eq!(circle.contribute(member, 10), Err(AjoError::Disqualified));
    assert_eq!(circle.get_member_balance(member).unwrap().status, 2);
}

#[test]
fn three_missed_rounds_halt_contribution() {
    let (mut circle, organizer, member, _, _) = setup_circle_with_member();
    circle.slash_member(organizer, member).unwrap();
    circle.slash_member(organizer, member).unwrap();
    assert!(!circle.contribute_halts(member, 10));
    circle.slash_member(organizer, member).unwrap();
    let st = circle.standings.as_ref().unwrap().get(&member).unwrap();
    assert_eq!(st, MemberStanding { missed_count: 3, is_active: false });
    assert!(circle.contribute_halts(member, 10));
    assert!(circle.deposit_halts(member));
    assert_eq!(circle.slash_member(organizer, addr(77)), Err(AjoError::NotFound));
    assert_eq!(circle.slash_member(member, member), Err(AjoError::Unauthorized));
}

#[test]
fn deposit_records_time_and_pool() {
    let (mut circle, _, member, token, _) = setup_circle_with_member();
    assert_eq!(circle.get_total_pool(), 0);
    assert_eq!(circle.get_last_deposit_timestamp(member), Err(AjoError::NotFound));
    let pay = circle.deposit(member, 4242).unwrap();
    assert_eq!(pay, Payment::FromMember { token, member, amount: 100 });
    assert_eq!(circle.get_total_pool(), 100);
    assert_eq!(circle.get_last_deposit_timestamp(member), Ok(4242));
    assert_eq!(circle.get_last_deposit_timestamp(addr(1)), Err(AjoError::NotFound));
}

#[test]
fn deposit_pool_overflow_changes_nothing() {
    let (mut circle, _, member, _, _) = setup_circle_with_member();
    circle.total_pool = Some(i128::MAX);
    assert_eq!(circle.deposit(member, 1), Err(AjoError::ArithmeticOverflow));
    assert_eq!(circle.get_member_balance(member).unwrap().total_contributed, 0);
    assert_eq!(circle.round_contrib_count, Some(0));
}

#[test]
fn payout_once() {
    let (mut circle, _, member, token, _) = setup_circle_with_member();
    let pay = circle.claim_payout(member).unwrap();
    assert_eq!(pay, Payment::ToMember { token, member, amount: 200 });
    let md = circle.get_member_balance(member).unwrap();
    assert!(md.has_received_payout);
    assert_eq!(md.total_withdrawn, 200);
    assert_eq!(circle.claim_payout(member), Err(AjoError::AlreadyPaid));
}

#[test]
fn payout_follows_rotation() {
    let (mut circle, organizer, member, _, _) = setup_circle_with_member();
    circle.rotation_order = Some(vec![member, organizer]);
    assert_eq!(circle.claim_payout(organizer), Err(AjoError::Unauthorized));
    assert!(circle.claim_payout(member).is_ok());
    circle.rotation_order = Some(vec![]);
    assert_eq!(circle.claim_payout(organizer), Err(AjoError::InvalidInput));
}

#[test]
fn payout_halts_on_round_zero_with_rotation() {
    let (mut circle, organizer, member, _, _) = setup_circle_with_member();
    let mut c = circle.circle.unwrap();
    c.current_round = 0;
    circle.circle = Some(c);
    assert!(!circle.claim_payout_halts(member));
    circle.rotation_order = Some(vec![member, organizer]);
    assert!(circle.claim_payout_halts(member));
}

#[test]
fn partial_withdraw_keeps_fee() {
    let (mut circle, _, member, token, _) = setup_circle_with_member();
    circle.contribute(member, 100).unwrap();
    assert_eq!(circle.partial_withdraw(member, 101), Err(AjoError::InsufficientFunds));
    assert_eq!(circle.partial_withdraw(member, -5), Err(AjoError::InvalidInput));
    let pay = circle.partial_withdraw(member, 55).unwrap();
    assert_eq!(pay, Payment::ToMember { token, member, amount: 50 });
    assert_eq!(circle.get_member_balance(member).unwrap().total_withdrawn, 55);
    assert_eq!(circle.partial_withdraw(member, 46), Err(AjoError::InsufficientFunds));
}

#[test]
fn dissolution_vote_simple_majority() {
    let (mut circle, organizer, member, _, _) = setup_circle_with_member();
    assert_eq!(circle.vote_to_dissolve(member), Err(AjoError::NoActiveVote));
    assert_eq!(circle.start_dissolution_vote(member, 2), Err(AjoError::InvalidInput));
    assert_eq!(circle.start_dissolution_vote(addr(77), 0), Err(AjoError::Unauthorized));
    circle.start_dissolution_vote(member, 0).unwrap();
    assert_eq!(circle.start_dissolution_vote(member, 0), Err(AjoError::VoteAlreadyActive));
    assert_eq!(circle.get_circle_status(), CircleStatus::VotingForDissolution);
    circle.vote_to_dissolve(member).unwrap();
    assert_eq!(circle.vote_to_dissolve(member), Err(AjoError::AlreadyVoted));
    assert_eq!(circle.get_circle_status(), CircleStatus::VotingForDissolution);
    assert_eq!(circle.vote_to_dissolve(addr(77)), Err(AjoError::Unauthorized));
    circle.vote_to_dissolve(organizer).unwrap();
    assert_eq!(circle.get_circle_status(), CircleStatus::Dissolved);
    assert_eq!(circle.get_dissolution_vote().unwrap().votes_for, 2);
    assert_eq!(circle.start_dissolution_vote(member, 0), Err(AjoError::CircleAlreadyDissolved));
    assert_eq!(circle.panic(organizer), Err(AjoError::CircleAlreadyDissolved));
}

#[test]
fn dissolution_vote_supermajority() {
    let (mut circle, organizer, member, _, _) = setup_circle_with_member();
    circle.join_circle(organizer, addr(4)).unwrap();
    assert_eq!(circle.get_dissolution_vote(), Err(AjoError::NoActiveVote));
    circle.start_dissolution_vote(organizer, 1).unwrap();
    circle.vote_to_dissolve(member).unwrap();
    circle.vote_to_dissolve(organizer).unwrap();
    // 2 of 3 votes: 200 > 198
    assert_eq!(circle.get_circle_status(), CircleStatus::Dissolved);
}

#[test]
fn dissolve_and_refund_after_vote() {
    let (mut circle, organizer, member, token, _) = setup_circle_with_member();
    circle.contribute(member, 300).unwrap();
    assert_eq!(circle.dissolve_and_refund(member), Err(AjoError::CircleNotActive));
    circle.start_dissolution_vote(organizer, 0).unwrap();
    circle.vote_to_dissolve(member).unwrap();
    circle.vote_to_dissolve(organizer).unwrap();
    assert!(!circle.dissolve_and_refund_halts(member));
    let pay = circle.dissolve_and_refund(member).unwrap();
    assert_eq!(pay, Payment::ToMember { token, member, amount: 300 });
    assert_eq!(circle.dissolve_and_refund(member), Err(AjoError::InsufficientFunds));
    assert_eq!(circle.dissolve_and_refund(organizer), Err(AjoError::InsufficientFunds));
    assert_eq!(circle.emergency_refund(member), Err(AjoError::CircleNotActive));
}

#[test]
fn panic_needs_admin() {
    let (mut circle, organizer, member, _, _) = setup_circle_with_member();
    assert_eq!(circle.panic(member), Err(AjoError::Unauthorized));
    circle.panic(organizer).unwrap();
    assert_eq!(circle.panic(organizer), Err(AjoError::CirclePanicked));
    assert_eq!(circle.join_circle(organizer, addr(8)), Err(AjoError::CirclePanicked));
    assert_eq!(circle.start_dissolution_vote(organizer, 0), Err(AjoError::CirclePanicked));
    assert_eq!(circle.claim_payout(member), Err(AjoError::CirclePanicked));
    assert_eq!(AjoCircle::new().panic(organizer), Err(AjoError::NotFound));
}

#[test]
fn emergency_refund_without_contribution() {
    let (mut circle, organizer, member, _, _) = setup_circle_with_member();
    circle.panic(organizer).unwrap();
    assert!(!circle.emergency_refund_halts(member));
    assert_eq!(circle.emergency_refund(member), Err(AjoError::InsufficientFunds));
    assert_eq!(circle.emergency_refund(addr(77)), Err(AjoError::NotFound));
}

#[test]
fn kyc_and_price() {
    let (mut circle, organizer, member, _, _) = setup_circle_with_member();
    assert!(!circle.is_kyc_verified(member));
    assert_eq!(circle.set_kyc_status(member, member, true), Err(AjoError::Unauthorized));
    circle.set_kyc_status(organizer, member, true).unwrap();
    assert!(circle.is_kyc_verified(member));
    assert_eq!(circle.native_amount_for_usd(10), Err(AjoError::PriceUnavailable));
    assert_eq!(circle.set_eth_usd_price(organizer, 0, 2), Err(AjoError::InvalidInput));
    circle.set_eth_usd_price(organizer, 250_000, 2).unwrap();
    // 5000 dollars at 2500.00 dollars each: 5000 * 100 / 250000 = 2
    assert_eq!(circle.native_amount_for_usd(5000), Ok(2));
    assert_eq!(circle.native_amount_for_usd(100), Err(AjoError::InvalidInput));
    assert_eq!(circle.native_amount_for_usd(0), Err(AjoError::InvalidInput));
    circle.set_eth_usd_price(organizer, 3, 39).unwrap();
    assert_eq!(circle.native_amount_for_usd(1), Err(AjoError::ArithmeticOverflow));
    circle.set_eth_usd_price(organizer, 3, 38).unwrap();
    assert_eq!(circle.native_amount_for_usd(2), Err(AjoError::ArithmeticOverflow));
    assert_eq!(circle.native_amount_for_usd(1), Ok(33_333_333_333_333_333_333_333_333_333_333_333_333));
}

#[test]
fn native_amount_rounds_toward_zero_for_negative_price() {
    let mut circle = AjoCircle::new();
    circle.eth_usd_price = Some(-3);
    circle.eth_usd_decimals = Some(0);
    assert_eq!(circle.native_amount_for_usd(10), Err(AjoError::InvalidInput));
}

#[test]
fn pow10_checked_values() {
    assert_eq!(AjoCircle::pow10_checked(0), Ok(1));
    assert_eq!(AjoCircle::pow10_checked(3), Ok(1000));
    assert_eq!(AjoCircle::pow10_checked(38), Ok(100_000_000_000_000_000_000_000_000_000_000_000_000));
    assert_eq!(AjoCircle::pow10_checked(39), Err(AjoError::ArithmeticOverflow));
}

#[test]
fn upgrade_needs_admin() {
    let (circle, organizer, member, _, _) = setup_circle_with_member();
    assert_eq!(circle.upgrade(organizer, [7u8; 32]), Ok([7u8; 32]));
    assert_eq!(circle.upgrade(member, [7u8; 32]), Err(AjoError::Unauthorized));
}

#[test]
fn error_codes() {
    assert_eq!(AjoError::NotFound.code(), 1);
    assert_eq!(AjoError::CircleAtCapacity.code(), 13);
    assert_eq!(AjoError::ArithmeticOverflow.code(), 16);
}

#[test]
fn rotation_digest_is_sha256_of_sequence() {
    let env = Env::default();
    assert_eq!(u32_be_bytes(300), [0, 0, 1, 0x2c]);
    let d = rotation_digest(&env, 5);
    assert_eq!(
        d,
        [34, 31, 138, 242, 55, 42, 149, 6, 79, 46, 247, 215, 113, 34, 22, 169, 171, 70, 231, 239, 152, 72, 47, 210, 55, 225,
         6, 248, 62, 170, 117, 105]
    );
}

#[test]
fn shuffle_by_digest() {
    let env = Env::default();
    let d = rotation_digest(&env, 5);
    let (a, b, c, e) = (addr(1), addr(2), addr(3), addr(4));
    assert_eq!(shuffle_with_digest(vec![a, b, c], &d), vec![c, b, a]);
    assert_eq!(shuffle_with_digest(vec![a, b, c, e], &d), vec![e, b, a, c]);
    assert_eq!(shuffle_with_digest(vec![a], &d), vec![a]);
}

#[test]
fn shuffle_rotation_draws_from_members() {
    let env = Env::default();
    let (mut circle, organizer, member, _, _) = setup_circle_with_member();
    circle.join_circle(organizer, addr(3)).unwrap();
    assert_eq!(circle.shuffle_rotation(&env, member, 5), Err(AjoError::Unauthorized));
    circle.shuffle_rotation(&env, organizer, 5).unwrap();
    assert_eq!(circle.rotation_order, Some(vec![addr(3), addr(2), addr(1)]));
    let mut single = AjoCircle::new();
    single.initialize_circle(organizer, addr(3), 100, 7, 12, 5, 0).unwrap();
    single.shuffle_rotation(&env, organizer, 5).unwrap();
    assert_eq!(single.rotation_order, Some(vec![organizer]));
}

#[test]
fn addr_map_keeps_order() {
    let mut m: AddrMap<u64> = AddrMap::new();
    m.insert(addr(5), 50);
    m.insert(addr(1), 10);
    m.insert(addr(3), 30);
    m.insert(addr(1), 11);
    assert_eq!(m.keys(), vec![addr(1), addr(3), addr(5)]);
    assert_eq!(m.values(), vec![11, 30, 50]);
    assert_eq!(m.len(), 3);
    assert!(m.contains_key(&addr(3)));
    assert_eq!(m.get(&addr(4)), None);
    assert!(addr(1).less_than(&addr(2)));
    assert!(Addr { kind: 0, hi: 9, lo: 9 }.less_than(&addr(0)));
}

#[test]
fn member_count_matches_members() {
    let (mut circle, organizer, _, _, _) = setup_circle_with_member();
    circle.join_circle(organizer, addr(20)).unwrap();
    let _ = circle.join_circle(organizer, addr(20));
    circle.boot_dormant_member(organizer, addr(20)).unwrap();
    let c = circle.get_circle_state().unwrap();
    assert_eq!(c.member_count, 3);
    assert_eq!(circle.members.as_ref().unwrap().len(), 3);
    assert_eq!(circle.standings.as_ref().unwrap().len(), 3);
}

#[test]
fn stopped_circle_stays_stopped() {
    let (mut circle, organizer, member, _, _) = setup_circle_with_member();
    circle.panic(organizer).unwrap();
    assert_eq!(circle.start_dissolution_vote(member, 0), Err(AjoError::CirclePanicked));
    assert_eq!(circle.vote_to_dissolve(member), Err(AjoError::NoActiveVote));
    circle.initialize_circle(organizer, addr(3), 100, 7, 12, 5, 0).unwrap();
    assert_eq!(circle.get_circle_status(), CircleStatus::Panicked);
}

#[test]
fn payout_stays_collected_across_requests() {
    let (mut circle, organizer, member, _, _) = setup_circle_with_member();
    circle.claim_payout(member).unwrap();
    circle.contribute(member, 300).unwrap();
    circle.partial_withdraw(member, 50).unwrap();
    circle.join_circle(organizer, addr(30)).unwrap();
    circle.boot_dormant_member(organizer, addr(30)).unwrap();
    assert_eq!(circle.claim_payout(member), Err(AjoError::AlreadyPaid));
    assert!(circle.get_member_balance(member).unwrap().has_received_payout);
}

#[test]
fn emergency_refund_paid_once_across_requests() {
    let (mut circle, organizer, member, _, _) = setup_circle_with_member();
    circle.contribute(member, 120).unwrap();
    circle.panic(organizer).unwrap();
    circle.emergency_refund(member).unwrap();
    assert_eq!(circle.contribute(member, 50), Err(AjoError::CirclePanicked));
    assert_eq!(circle.deposit(member, 9), Err(AjoError::CirclePanicked));
    circle.set_kyc_status(organizer, member, true).unwrap();
    assert_eq!(circle.emergency_refund(member), Err(AjoError::InsufficientFunds));
}

#[test]
fn dissolution_refund_paid_once_across_requests() {
    let (mut circle, organizer, member, _, _) = setup_circle_with_member();
    circle.contribute(member, 150).unwrap();
    circle.start_dissolution_vote(organizer, 0).unwrap();
    circle.vote_to_dissolve(member).unwrap();
    circle.vote_to_dissolve(organizer).unwrap();
    circle.dissolve_and_refund(member).unwrap();
    circle.claim_payout(member).unwrap();
    assert_eq!(circle.partial_withdraw(member, 1), Err(AjoError::InsufficientFunds));
    assert_eq!(circle.dissolve_and_refund(member), Err(AjoError::InsufficientFunds));
}

#[test]
fn vote_counted_once_across_requests() {
    let (mut circle, organizer, member, _, _) = setup_circle_with_member();
    circle.join_circle(organizer, addr(4)).unwrap();
    circle.join_circle(organizer, addr(5)).unwrap();
    circle.start_dissolution_vote(organizer, 1).unwrap();
    circle.vote_to_dissolve(member).unwrap();
    circle.contribute(member, 10).unwrap();
    assert_eq!(circle.start_dissolution_vote(organizer, 0), Err(AjoError::VoteAlreadyActive));
    assert_eq!(circle.vote_to_dissolve(member), Err(AjoError::AlreadyVoted));
    assert_eq!(circle.get_dissolution_vote().unwrap().votes_for, 1);
    circle.panic(organizer).unwrap();
    assert_eq!(circle.vote_to_dissolve(member), Err(AjoError::NoActiveVote));
}

#[test]
fn pool_only_grows() {
    let (mut circle, organizer, member, _, _) = setup_circle_with_member();
    circle.deposit(member, 1).unwrap();
    circle.deposit(organizer, 2).unwrap();
    assert_eq!(circle.get_total_pool(), 200);
    circle.partial_withdraw(member, 50).unwrap();
    circle.claim_payout(organizer).unwrap();
    circle.panic(organizer).unwrap();
    circle.emergency_refund(member).unwrap();
    assert_eq!(circle.get_total_pool(), 200);
}

#[test]
fn round_stops_at_max_rounds() {
    let mut circle = AjoCircle::new();
    let organizer = addr(1);
    circle.initialize_circle(organizer, addr(3), 100, 7, 1, 5, 0).unwrap();
    circle.contribute(organizer, 100).unwrap();
    let c = circle.get_circle_state().unwrap();
    assert_eq!(c.current_round, 1);
    assert_eq!(circle.round_contrib_count, Some(0));
    assert_eq!(circle.round_deadline, Some(14 * 86_400));
}

#[test]
fn member_list_matches_count() {
    let (mut circle, organizer, _, _, _) = setup_circle_with_member();
    circle.join_circle(organizer, addr(0)).unwrap();
    let list = circle.get_members().unwrap();
    assert_eq!(list.len() as u32, circle.get_circle_state().unwrap().member_count);
    let addrs: Vec<Addr> = list.iter().map(|m| m.address).collect();
    assert_eq!(addrs, vec![addr(0), addr(1), addr(2)]);
}

#[test]
fn refusal_after_payment() {
    let (mut circle, _, member, _, _) = setup_circle_with_member();
    assert!(!circle.contribute_refused_after_payment(member, 100));
    let mut md = circle.get_member_balance(member).unwrap();
    md.total_contributed = i128::MAX - 10;
    circle.members.as_mut().unwrap().insert(member, md);
    assert!(circle.contribute_refused_after_payment(member, 100));
    assert!(!circle.contribute_refused_after_payment(member, 0));
    assert_eq!(circle.contribute(member, 100), Err(AjoError::ArithmeticOverflow));
    let (mut other, _, member2, _, _) = setup_circle_with_member();
    other.total_pool = Some(i128::MAX);
    assert!(other.deposit_refused_after_payment(member2));
    assert!(!other.deposit_refused_after_payment(addr(77)));
}
