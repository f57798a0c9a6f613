use infra_market::action::{Action, Event, Receipt};
use infra_market::commitment::create_commit;
use infra_market::error::Error;
use infra_market::ident::{Address, Bytes32, Outcome};
use infra_market::market::StorageInfraMarket;
use infra_market::timing::{InfraMarketState, A_WEEK_SECS, FOUR_DAYS, TWO_DAYS};
use infra_market::uint::U256;

fn addr(n: u64) -> Address {
    Address::from_u64(n)
}

fn out(n: u64) -> Outcome {
    Outcome::from_u64(n)
}

fn amt(n: u64) -> U256 {
    U256::from_u64(n)
}

const OPERATOR: u64 = 900;
const TRADING: u64 = 1;
const LAUNCH: u64 = 1_000;
const DEADLINE: u64 = 10_000_000;
const CALLER: u64 = 10;
const WHINGER: u64 = 20;
const T_CALL: u64 = 2_000;
const T_WHINGE: u64 = 3_000;

fn registered() -> StorageInfraMarket {
    let mut m = StorageInfraMarket::new();
    m.ctor(addr(OPERATOR), addr(901), addr(902), addr(903), addr(904)).unwrap();
    m.register(addr(TRADING), Bytes32 { w0: 1, w1: 0, w2: 0, w3: 0 }, LAUNCH, DEADLINE, addr(5))
        .unwrap();
    m
}

fn called() -> StorageInfraMarket {
    let mut m = registered();
    m.call(addr(TRADING), out(1), Address::zero(), addr(CALLER), T_CALL).unwrap();
    m
}

fn whinged() -> StorageInfraMarket {
    let mut m = called();
    m.whinge(addr(TRADING), out(2), Address::zero(), addr(WHINGER), T_WHINGE).unwrap();
    m
}

#[test]
fn call_records_and_takes_the_bond() {
    let mut m = registered();
    let r = m.call(addr(TRADING), out(1), addr(11), addr(CALLER), T_CALL).unwrap();
    assert_eq!(
        r,
        Receipt {
            amount: amt(2_000_000),
            actions: vec![
                Action::TakeFromSender { amount: amt(2_000_000) },
                Action::Log {
                    event: Event::CallMade {
                        trading_addr: addr(TRADING),
                        winner: out(1),
                        incentive_recipient: addr(11),
                    },
                },
            ],
        }
    );
    let e = &m.campaign(addr(TRADING)).unwrap().epochs[0];
    assert_eq!(e.who_called, addr(11));
    assert_eq!(e.when_called, T_CALL);
    assert_eq!(e.what_called, out(1));
    assert!(!e.winner_set);
    assert_eq!(m.dao_money(), amt(7_000_000));
}

#[test]
fn call_defaults_the_recipient_to_the_sender() {
    let m = called();
    assert_eq!(m.campaign(addr(TRADING)).unwrap().epochs[0].who_called, addr(CALLER));
}

#[test]
fn call_is_open_from_launch_to_deadline_inclusive() {
    let mut m = registered();
    assert_eq!(
        m.call(addr(TRADING), out(1), addr(11), addr(CALLER), LAUNCH - 1).unwrap_err(),
        Error::NotInsideCallingPeriod
    );
    assert_eq!(
        m.call(addr(TRADING), out(1), addr(11), addr(CALLER), DEADLINE + 1).unwrap_err(),
        Error::PastCallingDeadline
    );
    let mut at_launch = m.clone();
    at_launch.call(addr(TRADING), out(1), addr(11), addr(CALLER), LAUNCH).unwrap();
    m.call(addr(TRADING), out(1), addr(11), addr(CALLER), DEADLINE).unwrap();
}

#[test]
fn call_refuses_the_inconclusive_outcome_and_a_second_call() {
    let mut m = registered();
    assert_eq!(
        m.call(addr(TRADING), out(0), addr(11), addr(CALLER), T_CALL).unwrap_err(),
        Error::BadWinner
    );
    m.call(addr(TRADING), out(1), addr(11), addr(CALLER), T_CALL).unwrap();
    assert_eq!(
        m.call(addr(TRADING), out(2), addr(12), addr(13), T_CALL + 1).unwrap_err(),
        Error::CampaignAlreadyCalled
    );
    let e = &m.campaign(addr(TRADING)).unwrap().epochs[0];
    assert_eq!(e.who_called, addr(11));
    assert_eq!(e.what_called, out(1));
}

#[test]
fn whinge_records_and_takes_the_bond() {
    let mut m = called();
    let r = m.whinge(addr(TRADING), out(2), addr(21), addr(WHINGER), T_WHINGE).unwrap();
    assert_eq!(
        r,
        Receipt {
            amount: amt(7_000_000),
            actions: vec![
                Action::TakeFromSender { amount: amt(7_000_000) },
                Action::Log {
                    event: Event::Whinged {
                        trading_addr: addr(TRADING),
                        preferred_outcome: out(2),
                        bond_recipient: addr(21),
                    },
                },
            ],
        }
    );
    let e = &m.campaign(addr(TRADING)).unwrap().epochs[0];
    assert_eq!(e.who_whinged, addr(21));
    assert_eq!(e.when_whinged, T_WHINGE);
    assert_eq!(e.whinger_preferred_winner, out(2));
    assert_eq!(
        m.status(addr(TRADING), T_WHINGE + 1),
        Ok((InfraMarketState::Predicting.code(), TWO_DAYS - 1))
    );
}

#[test]
fn whinge_may_prefer_the_inconclusive_outcome() {
    let mut m = called();
    m.whinge(addr(TRADING), out(0), Address::zero(), addr(WHINGER), T_WHINGE).unwrap();
    let e = &m.campaign(addr(TRADING)).unwrap().epochs[0];
    assert_eq!(e.who_whinged, addr(WHINGER));
    assert_eq!(e.whinger_preferred_winner, out(0));
}

#[test]
fn whinge_is_refused_for_each_cause() {
    let mut m = registered();
    assert_eq!(
        m.whinge(addr(TRADING), out(2), addr(21), addr(WHINGER), T_WHINGE).unwrap_err(),
        Error::NotInWhingingPeriod
    );
    let mut m = called();
    assert_eq!(
        m.whinge(addr(TRADING), out(2), addr(21), addr(WHINGER), T_CALL + TWO_DAYS).unwrap_err(),
        Error::NotInWhingingPeriod
    );
    assert_eq!(
        m.whinge(addr(TRADING), out(1), addr(21), addr(WHINGER), T_WHINGE).unwrap_err(),
        Error::CantWhingeCalled
    );
    m.whinge(addr(TRADING), out(2), addr(21), addr(WHINGER), T_CALL + TWO_DAYS - 1).unwrap();
    assert_eq!(
        m.whinge(addr(TRADING), out(3), addr(22), addr(23), T_CALL + TWO_DAYS - 1).unwrap_err(),
        Error::AlreadyWhinged
    );
    assert_eq!(m.campaign(addr(TRADING)).unwrap().epochs[0].who_whinged, addr(21));
}

#[test]
fn close_is_refused_for_each_cause() {
    let mut m = registered();
    assert_eq!(
        m.close(addr(TRADING), addr(3), addr(4), TWO_DAYS - 1).unwrap_err(),
        Error::NotAfterWhinging
    );
    assert_eq!(
        m.close(addr(TRADING), addr(3), addr(4), T_CALL + TWO_DAYS).unwrap_err(),
        Error::CampaignZeroCaller
    );
    let mut m = called();
    assert_eq!(
        m.close(addr(TRADING), addr(3), addr(4), T_CALL + TWO_DAYS - 1).unwrap_err(),
        Error::NotAfterWhinging
    );
    let mut w = whinged();
    assert_eq!(
        w.close(addr(TRADING), addr(3), addr(4), T_CALL + TWO_DAYS).unwrap_err(),
        Error::SomeoneWhinged
    );
    m.close(addr(TRADING), addr(3), addr(4), T_CALL + TWO_DAYS).unwrap();
    assert_eq!(
        m.close(addr(TRADING), addr(3), addr(4), T_CALL + TWO_DAYS + 1).unwrap_err(),
        Error::WinnerAlreadyDeclared
    );
}

#[test]
fn end_to_end_close_without_whinge() {
    let t = 50_000;
    let w = out(0xABCD);
    let mut m = StorageInfraMarket::new();
    m.ctor(addr(OPERATOR), addr(901), addr(902), addr(903), addr(904)).unwrap();
    m.register(addr(TRADING), Bytes32 { w0: 1, w1: 0, w2: 0, w3: 0 }, t, t + 10, addr(5)).unwrap();
    m.call(addr(TRADING), w, Address::zero(), addr(CALLER), t + 1).unwrap();
    assert_eq!(
        m.close(addr(TRADING), Address::zero(), addr(30), t + 3).unwrap_err(),
        Error::NotAfterWhinging
    );
    assert_eq!(m.winner(addr(TRADING)), Ok(out(0)));
    assert_eq!(m.dao_money(), amt(7_000_000));
    let r = m.close(addr(TRADING), Address::zero(), addr(30), t + 1 + TWO_DAYS).unwrap();
    assert_eq!(
        r,
        Receipt {
            amount: amt(2_000_000),
            actions: vec![
                Action::Transfer { recipient: addr(30), amount: amt(1_000_000) },
                Action::Transfer { recipient: addr(CALLER), amount: amt(2_000_000) },
                Action::Transfer { recipient: addr(CALLER), amount: amt(1_000_000) },
                Action::Log {
                    event: Event::InfraMarketClosed {
                        incentive_recipient: addr(30),
                        trading_addr: addr(TRADING),
                        winner: w,
                    },
                },
                Action::Decide { trading_addr: addr(TRADING), outcome: w },
            ],
        }
    );
    assert_eq!(m.winner(addr(TRADING)), Ok(w));
    assert!(m.campaign(addr(TRADING)).unwrap().epochs[0].winner_set);
    assert_eq!(m.dao_money(), amt(5_000_000));
}

#[test]
fn predict_records_and_freezes() {
    let mut m = whinged();
    let digest = Bytes32 { w0: 9, w1: 9, w2: 9, w3: 9 };
    let r = m.predict(addr(TRADING), digest, addr(40), T_WHINGE + 5, amt(100), amt(100)).unwrap();
    assert_eq!(
        r,
        Receipt {
            amount: amt(0),
            actions: vec![
                Action::Freeze { holder: addr(40), until: T_WHINGE + 5 + A_WEEK_SECS },
                Action::Log {
                    event: Event::Committed {
                        trading_addr: addr(TRADING),
                        predictor: addr(40),
                        commitment: digest,
                    },
                },
            ],
        }
    );
    let e = &m.campaign(addr(TRADING)).unwrap().epochs[0];
    let v = e.vote_of(addr(40)).unwrap();
    assert_eq!(v.commitment, digest);
    assert!(!v.revealed);
    assert!(v.weight.is_zero());
    assert!(e.vote_of(addr(41)).is_none());
}

#[test]
fn predict_is_refused_for_each_cause() {
    let digest = Bytes32 { w0: 9, w1: 9, w2: 9, w3: 9 };
    let mut m = called();
    assert_eq!(
        m.predict(addr(TRADING), digest, addr(40), T_CALL + 5, amt(100), amt(100)).unwrap_err(),
        Error::PredictingNotStarted
    );
    let mut m = whinged();
    assert_eq!(
        m.predict(addr(TRADING), digest, addr(40), T_WHINGE + TWO_DAYS, amt(100), amt(100))
            .unwrap_err(),
        Error::PredictingNotStarted
    );
    assert_eq!(
        m.predict(addr(TRADING), digest, addr(40), T_WHINGE, amt(0), amt(100)).unwrap_err(),
        Error::ZeroBal
    );
    assert_eq!(
        m.predict(addr(TRADING), digest, addr(40), T_WHINGE, amt(100), amt(99)).unwrap_err(),
        Error::StakedArbUnusual
    );
    assert_eq!(
        m.predict(addr(TRADING), Bytes32::zero(), addr(40), T_WHINGE, amt(100), amt(100))
            .unwrap_err(),
        Error::NotAllowedZeroCommit
    );
    m.predict(addr(TRADING), digest, addr(40), T_WHINGE + TWO_DAYS - 1, amt(100), amt(101)).unwrap();
    assert_eq!(
        m.predict(addr(TRADING), Bytes32 { w0: 1, w1: 0, w2: 0, w3: 0 }, addr(40), T_WHINGE, amt(100), amt(100))
            .unwrap_err(),
        Error::AlreadyCommitted
    );
    let v = m.campaign(addr(TRADING)).unwrap().epochs[0].vote_of(addr(40)).unwrap();
    assert_eq!(v.commitment, digest);
}

#[test]
fn predict_refuses_a_freeze_past_the_end_of_time() {
    let mut m = StorageInfraMarket::new();
    m.ctor(addr(OPERATOR), addr(901), addr(902), addr(903), addr(904)).unwrap();
    m.register(addr(TRADING), Bytes32 { w0: 1, w1: 0, w2: 0, w3: 0 }, 0, u64::MAX, addr(5)).unwrap();
    let late = u64::MAX - A_WEEK_SECS;
    m.call(addr(TRADING), out(1), Address::zero(), addr(CALLER), late).unwrap();
    m.whinge(addr(TRADING), out(2), Address::zero(), addr(WHINGER), late).unwrap();
    let digest = Bytes32 { w0: 9, w1: 9, w2: 9, w3: 9 };
    assert_eq!(
        m.predict(addr(TRADING), digest, addr(40), late + 1, amt(100), amt(100)).unwrap_err(),
        Error::CheckedAddOverflow
    );
    let r = m.predict(addr(TRADING), digest, addr(40), late, amt(100), amt(100)).unwrap();
    assert_eq!(r.actions[0], Action::Freeze { holder: addr(40), until: u64::MAX });
}

#[test]
fn reveal_records_weight_and_tallies() {
    let mut m = whinged();
    let seed = amt(777);
    let digest = create_commit(addr(40), out(2), seed);
    m.predict(addr(TRADING), digest, addr(40), T_WHINGE + 5, amt(100), amt(100)).unwrap();
    let r = m
        .reveal_commitment(
            addr(TRADING),
            addr(40),
            out(2),
            seed,
            addr(41),
            T_WHINGE + TWO_DAYS,
            amt(100),
            amt(150),
        )
        .unwrap();
    assert_eq!(
        r,
        Receipt {
            amount: amt(0),
            actions: vec![Action::Log {
                event: Event::CommitmentRevealed {
                    trading_addr: addr(TRADING),
                    revealer: addr(40),
                    caller: addr(41),
                    outcome: out(2),
                    bal: amt(100),
                },
            }],
        }
    );
    let e = &m.campaign(addr(TRADING)).unwrap().epochs[0];
    let v = e.vote_of(addr(40)).unwrap();
    assert!(v.revealed);
    assert_eq!(v.outcome, out(2));
    assert_eq!(v.weight, amt(100));
    assert_eq!(v.commitment, digest);
    assert_eq!(e.total_revealed_weight, amt(100));
    assert_eq!(m.cur_outcome_vested_arb(addr(TRADING), out(2)), Ok(amt(100)));
    assert_eq!(m.cur_outcome_vested_arb(addr(TRADING), out(1)), Ok(amt(0)));
    assert_eq!(
        m.status(addr(TRADING), T_WHINGE + TWO_DAYS),
        Ok((InfraMarketState::Revealing.code(), TWO_DAYS))
    );
}

#[test]
fn reveal_is_refused_for_each_cause() {
    let mut m = whinged();
    let seed = amt(777);
    let digest = create_commit(addr(40), out(2), seed);
    m.predict(addr(TRADING), digest, addr(40), T_WHINGE + 5, amt(100), amt(100)).unwrap();
    let t = T_WHINGE + TWO_DAYS;
    assert_eq!(
        m.reveal_commitment(addr(TRADING), addr(40), out(2), seed, addr(40), t - 1, amt(100), amt(100))
            .unwrap_err(),
        Error::NotInCommitReveal(T_WHINGE, t - 1)
    );
    assert_eq!(
        m.reveal_commitment(
            addr(TRADING),
            addr(40),
            out(2),
            seed,
            addr(40),
            T_WHINGE + FOUR_DAYS,
            amt(100),
            amt(100)
        )
        .unwrap_err(),
        Error::NotInCommitReveal(T_WHINGE, T_WHINGE + FOUR_DAYS)
    );
    assert_eq!(
        m.reveal_commitment(addr(TRADING), addr(41), out(2), seed, addr(41), t, amt(100), amt(100))
            .unwrap_err(),
        Error::CommitNotTheSame
    );
    assert_eq!(
        m.reveal_commitment(addr(TRADING), addr(40), out(1), seed, addr(40), t, amt(100), amt(100))
            .unwrap_err(),
        Error::CommitNotTheSame
    );
    assert_eq!(
        m.reveal_commitment(addr(TRADING), addr(40), out(2), amt(778), addr(40), t, amt(100), amt(100))
            .unwrap_err(),
        Error::CommitNotTheSame
    );
    assert_eq!(
        m.reveal_commitment(addr(TRADING), addr(40), out(2), seed, addr(40), t, amt(100), amt(99))
            .unwrap_err(),
        Error::StakedArbUnusual
    );
    assert!(m.campaign(addr(TRADING)).unwrap().epochs[0].total_revealed_weight.is_zero());
    m.reveal_commitment(addr(TRADING), addr(40), out(2), seed, addr(40), t, amt(100), amt(100))
        .unwrap();
}

#[test]
fn reveal_of_a_commitment_made_by_another_voter_is_refused() {
    let mut m = whinged();
    let seed = amt(777);
    let digest = create_commit(addr(40), out(2), seed);
    m.predict(addr(TRADING), digest, addr(41), T_WHINGE + 5, amt(100), amt(100)).unwrap();
    assert_eq!(
        m.reveal_commitment(
            addr(TRADING),
            addr(41),
            out(2),
            seed,
            addr(41),
            T_WHINGE + TWO_DAYS,
            amt(100),
            amt(100)
        )
        .unwrap_err(),
        Error::CommitNotTheSame
    );
}

#[test]
fn a_voter_reveals_once() {
    let mut m = whinged();
    let seed = amt(777);
    let digest = create_commit(addr(40), out(0), seed);
    m.predict(addr(TRADING), digest, addr(40), T_WHINGE + 5, amt(100), amt(100)).unwrap();
    let t = T_WHINGE + TWO_DAYS + 10;
    m.reveal_commitment(addr(TRADING), addr(40), out(0), seed, addr(40), t, amt(100), amt(100))
        .unwrap();
    assert_eq!(
        m.reveal_commitment(addr(TRADING), addr(40), out(0), seed, addr(40), t + 1, amt(100), amt(100))
            .unwrap_err(),
        Error::AlreadyRevealed
    );
    assert_eq!(
        m.reveal_digest(addr(TRADING), addr(40), out(0), digest, addr(40), t + 1, amt(100), amt(100))
            .unwrap_err(),
        Error::AlreadyRevealed
    );
    assert_eq!(
        m.reveal_commitment(addr(TRADING), addr(40), out(5), amt(1), addr(40), t + 1, amt(1), amt(1))
            .unwrap_err(),
        Error::AlreadyRevealed
    );
    let e = &m.campaign(addr(TRADING)).unwrap().epochs[0];
    assert_eq!(e.total_revealed_weight, amt(100));
    assert_eq!(e.tallies.len(), 1);
    assert_eq!(e.tallies[0].weight, amt(100));
}

#[test]
fn reveal_with_a_digest_checks_the_digest_alone() {
    let mut m = whinged();
    let digest = Bytes32 { w0: 1, w1: 2, w2: 3, w3: 4 };
    m.predict(addr(TRADING), digest, addr(40), T_WHINGE + 5, amt(100), amt(100)).unwrap();
    let t = T_WHINGE + TWO_DAYS;
    let other = Bytes32 { w0: 1, w1: 2, w2: 3, w3: 5 };
    assert_eq!(
        m.reveal_digest(addr(TRADING), addr(40), out(2), other, addr(40), t, amt(100), amt(100))
            .unwrap_err(),
        Error::CommitNotTheSame
    );
    m.reveal_digest(addr(TRADING), addr(40), out(2), digest, addr(40), t, amt(100), amt(100)).unwrap();
    assert_eq!(m.cur_outcome_vested_arb(addr(TRADING), out(2)), Ok(amt(100)));
}

#[test]
fn total_revealed_weight_is_the_sum_of_the_tallies() {
    let mut m = whinged();
    let votes = [(40, 1, 10), (41, 2, 30), (42, 3, 5), (43, 2, 7), (44, 1, 1), (45, 0, 4)];
    for (voter, outcome, weight) in votes {
        let digest = create_commit(addr(voter), out(outcome), amt(voter));
        m.predict(addr(TRADING), digest, addr(voter), T_WHINGE + 5, amt(weight), amt(weight)).unwrap();
    }
    let mut total = 0;
    for (voter, outcome, weight) in votes {
        m.reveal_commitment(
            addr(TRADING),
            addr(voter),
            out(outcome),
            amt(voter),
            addr(voter),
            T_WHINGE + TWO_DAYS,
            amt(weight),
            amt(weight),
        )
        .unwrap();
        total += weight;
        let e = &m.campaign(addr(TRADING)).unwrap().epochs[0];
        assert_eq!(e.total_revealed_weight, amt(total));
        let sum: u64 = e.tallies.iter().map(|t| t.weight.l0).sum();
        assert_eq!(sum, total);
    }
    assert_eq!(m.cur_outcome_vested_arb(addr(TRADING), out(1)), Ok(amt(11)));
    assert_eq!(m.cur_outcome_vested_arb(addr(TRADING), out(2)), Ok(amt(37)));
    assert_eq!(m.cur_outcome_vested_arb(addr(TRADING), out(3)), Ok(amt(5)));
    assert_eq!(m.cur_outcome_vested_arb(addr(TRADING), out(0)), Ok(amt(4)));
    assert_eq!(m.cur_outcome_vested_arb(addr(TRADING), out(9)), Ok(amt(0)));
}

#[test]
fn reveal_refuses_a_total_that_does_not_fit() {
    let mut m = whinged();
    let big = U256 { l0: 0, l1: 0, l2: 0, l3: 1 << 63 };
    for voter in [40, 41] {
        let digest = create_commit(addr(voter), out(1), amt(voter));
        m.predict(addr(TRADING), digest, addr(voter), T_WHINGE + 5, big, big).unwrap();
    }
    let t = T_WHINGE + TWO_DAYS;
    m.reveal_commitment(addr(TRADING), addr(40), out(1), amt(40), addr(40), t, big, big).unwrap();
    assert_eq!(
        m.reveal_commitment(addr(TRADING), addr(41), out(1), amt(41), addr(41), t, big, big)
            .unwrap_err(),
        Error::CheckedAddOverflow
    );
    let e = &m.campaign(addr(TRADING)).unwrap().epochs[0];
    assert_eq!(e.total_revealed_weight, big);
    assert!(!e.vote_of(addr(41)).unwrap().revealed);
    let almost = U256 { l0: u64::MAX, l1: u64::MAX, l2: u64::MAX, l3: (1 << 63) - 1 };
    m.predict(
        addr(TRADING),
        create_commit(addr(42), out(2), amt(42)),
        addr(42),
        T_WHINGE + 5,
        almost,
        almost,
    )
    .unwrap();
    m.reveal_commitment(addr(TRADING), addr(42), out(2), amt(42), addr(42), t, almost, almost)
        .unwrap();
    let e = &m.campaign(addr(TRADING)).unwrap().epochs[0];
    assert_eq!(e.total_revealed_weight, U256::max_value());
}
