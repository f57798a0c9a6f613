use infra_market::action::{Action, Event, Receipt};
use infra_market::commitment::create_commit;
use infra_market::error::Error;
use infra_market::ident::{Address, Bytes32, Outcome};
use infra_market::market::StorageInfraMarket;
use infra_market::timing::{InfraMarketState, FOUR_DAYS, TWO_DAYS};
use infra_market::uint::U256;

fn addr(n: u64) -> Address {
    Address::from_u64(n)
}

fn out(n: u64) -> Outcome {
    Outcome::from_u64(n)
}

fn amt(n: u64) -> U256 {
    U256::from_u64(n)
}

const OPERATOR: u64 = 900;
const TRADING: u64 = 1;
const CALLER: u64 = 10;
const WHINGER: u64 = 20;
const FEES: u64 = 30;
const T_CALL: u64 = 2_000;
const T_WHINGE: u64 = 3_000;
const T_REVEAL: u64 = T_WHINGE + TWO_DAYS;
const T_DECLARE: u64 = T_WHINGE + FOUR_DAYS;

/// A market with one campaign whose call of outcome 1 was whinged about in
/// favour of `preferred`, and in which each of `votes` (voter, outcome,
/// weight) was committed and revealed.
fn voted(preferred: u64, votes: &[(u64, u64, u64)]) -> StorageInfraMarket {
    let mut m = StorageInfraMarket::new();
    m.ctor(addr(OPERATOR), addr(901), addr(902), addr(903), addr(904)).unwrap();
    m.register(addr(TRADING), Bytes32 { w0: 1, w1: 0, w2: 0, w3: 0 }, 1_000, 10_000_000, addr(5))
        .unwrap();
    m.call(addr(TRADING), out(1), Address::zero(), addr(CALLER), T_CALL).unwrap();
    m.whinge(addr(TRADING), out(preferred), Address::zero(), addr(WHINGER), T_WHINGE).unwrap();
    cast(&mut m, votes, T_WHINGE);
    m
}

/// Commits and reveals each of `votes` in the current epoch, whose whinge
/// was made at `whinged_at`. A voter of weight zero holds stake at the
/// commitment and none at the reveal.
fn cast(m: &mut StorageInfraMarket, votes: &[(u64, u64, u64)], whinged_at: u64) {
    for &(voter, outcome, weight) in votes {
        let digest = create_commit(addr(voter), out(outcome), amt(voter));
        let held = weight.max(1);
        m.predict(addr(TRADING), digest, addr(voter), whinged_at + 1, amt(held), amt(held))
            .unwrap();
    }
    for &(voter, outcome, weight) in votes {
        m.reveal_commitment(
            addr(TRADING),
            addr(voter),
            out(outcome),
            amt(voter),
            addr(voter),
            whinged_at + TWO_DAYS,
            amt(weight),
            amt(weight),
        )
        .unwrap();
    }
}

const A: u64 = 0xA;
const B: u64 = 0xB;
const C: u64 = 0xC;

fn three_outcomes() -> StorageInfraMarket {
    voted(B, &[(40, A, 10), (41, B, 30), (42, C, 5)])
}

#[test]
fn declare_with_all_outcomes_names_the_heaviest() {
    let mut m = three_outcomes();
    m.declare(addr(TRADING), vec![out(A), out(B), out(C)], addr(FEES), T_DECLARE).unwrap();
    assert_eq!(m.winner(addr(TRADING)), Ok(out(B)));
    assert!(m.campaign(addr(TRADING)).unwrap().epochs[0].winner_set);
}

#[test]
fn declare_refuses_a_set_that_leaves_out_a_heavier_outcome() {
    let mut m = three_outcomes();
    assert_eq!(
        m.declare(addr(TRADING), vec![out(A), out(C)], addr(FEES), T_DECLARE).unwrap_err(),
        Error::IncorrectSweepInvocation
    );
    assert_eq!(
        m.declare(addr(TRADING), vec![out(C)], addr(FEES), T_DECLARE).unwrap_err(),
        Error::IncorrectSweepInvocation
    );
    assert_eq!(
        m.declare(addr(TRADING), vec![out(A)], addr(FEES), T_DECLARE).unwrap_err(),
        Error::IncorrectSweepInvocation
    );
    assert_eq!(
        m.declare(addr(TRADING), vec![out(A), out(A), out(C), out(C)], addr(FEES), T_DECLARE)
            .unwrap_err(),
        Error::IncorrectSweepInvocation
    );
    assert_eq!(m.winner(addr(TRADING)), Ok(out(0)));
    assert!(!m.campaign(addr(TRADING)).unwrap().epochs[0].winner_set);
    assert_eq!(m.dao_money(), amt(7_000_000));
}

#[test]
fn declare_accepts_a_set_whose_rest_cannot_outweigh_it() {
    let mut with_two = three_outcomes();
    with_two.declare(addr(TRADING), vec![out(A), out(B)], addr(FEES), T_DECLARE).unwrap();
    assert_eq!(with_two.winner(addr(TRADING)), Ok(out(B)));
    let mut with_one = three_outcomes();
    with_one.declare(addr(TRADING), vec![out(B)], addr(FEES), T_DECLARE).unwrap();
    assert_eq!(with_one.winner(addr(TRADING)), Ok(out(B)));
    let mut with_strangers = three_outcomes();
    with_strangers
        .declare(addr(TRADING), vec![out(99), out(B), out(98), out(B)], addr(FEES), T_DECLARE)
        .unwrap();
    assert_eq!(with_strangers.winner(addr(TRADING)), Ok(out(B)));
}

#[test]
fn declare_at_the_edge_of_what_was_left_out() {
    let mut m = voted(2, &[(40, 1, 10), (41, 2, 10), (42, 3, 11)]);
    assert_eq!(
        m.declare(addr(TRADING), vec![out(1), out(2)], addr(FEES), T_DECLARE).unwrap_err(),
        Error::IncorrectSweepInvocation
    );
    let mut m = voted(2, &[(40, 1, 10), (41, 2, 12), (42, 3, 10)]);
    m.declare(addr(TRADING), vec![out(1), out(2)], addr(FEES), T_DECLARE).unwrap();
    assert_eq!(m.winner(addr(TRADING)), Ok(out(2)));
}

#[test]
fn declare_breaks_a_tie_by_the_smaller_tag() {
    let mut m = voted(9, &[(40, 7, 10), (41, 3, 10), (42, 5, 10)]);
    m.declare(addr(TRADING), vec![out(7), out(5), out(3)], addr(FEES), T_DECLARE).unwrap();
    assert_eq!(m.winner(addr(TRADING)), Ok(out(3)));
    let mut m = voted(9, &[(40, 7, 10), (41, 3, 10), (42, 5, 11)]);
    m.declare(addr(TRADING), vec![out(3), out(5), out(7)], addr(FEES), T_DECLARE).unwrap();
    assert_eq!(m.winner(addr(TRADING)), Ok(out(5)));
}

#[test]
fn declare_without_votes_follows_the_whinger() {
    let mut m = voted(2, &[]);
    let r = m.declare(addr(TRADING), vec![out(1)], addr(FEES), T_DECLARE).unwrap();
    assert_eq!(m.winner(addr(TRADING)), Ok(out(2)));
    assert_eq!(r.actions[0], Action::Transfer { recipient: addr(WHINGER), amount: amt(10_000_000) });
    assert_eq!(
        r.actions[r.actions.len() - 1],
        Action::Decide { trading_addr: addr(TRADING), outcome: out(2) }
    );
}

#[test]
fn declare_is_refused_for_each_cause() {
    let mut m = StorageInfraMarket::new();
    m.ctor(addr(OPERATOR), addr(901), addr(902), addr(903), addr(904)).unwrap();
    m.register(addr(TRADING), Bytes32 { w0: 1, w1: 0, w2: 0, w3: 0 }, 1_000, 10_000_000, addr(5))
        .unwrap();
    m.call(addr(TRADING), out(1), Address::zero(), addr(CALLER), T_CALL).unwrap();
    assert_eq!(
        m.declare(addr(TRADING), vec![out(1)], addr(FEES), T_DECLARE).unwrap_err(),
        Error::WhingedTimeUnset
    );
    let mut m = three_outcomes();
    assert_eq!(
        m.declare(addr(TRADING), vec![out(B)], addr(FEES), T_DECLARE - 1).unwrap_err(),
        Error::NotReadyToDeclare
    );
    assert_eq!(
        m.declare(addr(TRADING), vec![], addr(FEES), T_DECLARE).unwrap_err(),
        Error::OutcomesEmpty
    );
    m.declare(addr(TRADING), vec![out(B)], addr(FEES), T_DECLARE).unwrap();
    assert_eq!(
        m.declare(addr(TRADING), vec![out(A)], addr(FEES), T_DECLARE + 1).unwrap_err(),
        Error::CampaignWinnerSet
    );
    assert_eq!(
        m.declare(addr(TRADING), vec![], addr(FEES), T_DECLARE + 1).unwrap_err(),
        Error::CampaignWinnerSet
    );
    assert_eq!(m.winner(addr(TRADING)), Ok(out(B)));
}

#[test]
fn a_winner_is_set_once() {
    let mut m = three_outcomes();
    m.declare(addr(TRADING), vec![out(A), out(B), out(C)], addr(FEES), T_DECLARE).unwrap();
    let dao = m.dao_money();
    assert!(m.declare(addr(TRADING), vec![out(A), out(B), out(C)], addr(FEES), T_DECLARE).is_err());
    assert!(m.close(addr(TRADING), addr(FEES), addr(FEES), T_DECLARE).is_err());
    assert!(m.call(addr(TRADING), out(C), addr(FEES), addr(FEES), T_DECLARE).is_err());
    assert!(m.whinge(addr(TRADING), out(C), addr(FEES), addr(FEES), T_CALL + 1).is_err());
    m.sweep(addr(TRADING), 0, addr(40), addr(FEES), T_DECLARE, amt(10)).unwrap();
    m.capture(addr(TRADING), 0, addr(FEES), addr(41)).unwrap();
    assert_eq!(m.winner(addr(TRADING)), Ok(out(B)));
    assert!(m.campaign(addr(TRADING)).unwrap().epochs[0].winner_set);
    assert_eq!(m.dao_money(), dao);
    assert_eq!(m.status(addr(TRADING), T_DECLARE), Ok((InfraMarketState::Sweeping.code(), 0)));
}

#[test]
fn end_to_end_whinge_vote_and_declare() {
    let w1 = out(1);
    let w2 = out(2);
    let mut m = voted(2, &[(40, 2, 100), (41, 1, 50)]);
    assert_eq!(
        m.status(addr(TRADING), T_DECLARE),
        Ok((InfraMarketState::Declarable.code(), 0))
    );
    let r = m.declare(addr(TRADING), vec![w1, w2], addr(FEES), T_DECLARE).unwrap();
    assert_eq!(
        r,
        Receipt {
            amount: amt(6_000_000),
            actions: vec![
                Action::Transfer { recipient: addr(WHINGER), amount: amt(10_000_000) },
                Action::Transfer { recipient: addr(FEES), amount: amt(5_000_000) },
                Action::Transfer { recipient: addr(FEES), amount: amt(1_000_000) },
                Action::Log {
                    event: Event::Declared {
                        trading_addr: addr(TRADING),
                        winner: w2,
                        fee_recipient: addr(FEES),
                    },
                },
                Action::Decide { trading_addr: addr(TRADING), outcome: w2 },
            ],
        }
    );
    assert!(!r.actions.iter().any(|a| matches!(a, Action::Transfer { recipient, .. } if *recipient == addr(CALLER))));
    assert_eq!(m.winner(addr(TRADING)), Ok(w2));
    assert_eq!(m.dao_money(), amt(0));
    assert_eq!(m.campaign(addr(TRADING)).unwrap().epochs[0].who_called, addr(CALLER));
}

#[test]
fn declare_for_the_caller_pays_the_caller() {
    let mut m = voted(2, &[(40, 2, 50), (41, 1, 100)]);
    let r = m.declare(addr(TRADING), vec![out(1), out(2)], addr(FEES), T_DECLARE).unwrap();
    assert_eq!(r.actions[0], Action::Transfer { recipient: addr(CALLER), amount: amt(10_000_000) });
    assert_eq!(r.actions.len(), 5);
    assert_eq!(m.winner(addr(TRADING)), Ok(out(1)));
}

#[test]
fn declare_for_a_third_outcome_pays_neither() {
    let mut m = voted(2, &[(40, 3, 50)]);
    let r = m.declare(addr(TRADING), vec![out(3)], addr(FEES), T_DECLARE).unwrap();
    assert_eq!(
        r.actions,
        vec![
            Action::Transfer { recipient: addr(FEES), amount: amt(5_000_000) },
            Action::Transfer { recipient: addr(FEES), amount: amt(1_000_000) },
            Action::Log {
                event: Event::Declared {
                    trading_addr: addr(TRADING),
                    winner: out(3),
                    fee_recipient: addr(FEES),
                },
            },
            Action::Decide { trading_addr: addr(TRADING), outcome: out(3) },
        ]
    );
    assert_eq!(r.amount, amt(6_000_000));
    assert_eq!(m.dao_money(), amt(0));
}

#[test]
fn an_inconclusive_result_opens_the_next_epoch() {
    let mut m = voted(0, &[(40, 0, 100), (41, 1, 50)]);
    let r = m.declare(addr(TRADING), vec![out(0), out(1)], addr(FEES), T_DECLARE).unwrap();
    assert_eq!(r.actions[0], Action::Transfer { recipient: addr(WHINGER), amount: amt(10_000_000) });
    assert!(!r.actions.iter().any(|a| matches!(a, Action::Decide { .. })));
    assert_eq!(m.winner(addr(TRADING)), Ok(out(0)));
    let e = &m.campaign(addr(TRADING)).unwrap().epochs[0];
    assert!(e.winner_set);
    assert!(e.who_called.is_zero());
    assert_eq!(e.what_called, out(1));
    assert_eq!(m.status(addr(TRADING), T_DECLARE), Ok((InfraMarketState::Callable.code(), 10_000_000 - T_DECLARE)));
    assert_eq!(m.cur_epoch(addr(TRADING)), 0);

    let t2 = T_DECLARE + 100;
    m.call(addr(TRADING), out(4), Address::zero(), addr(11), t2).unwrap();
    assert_eq!(m.cur_epoch(addr(TRADING)), 1);
    let c = m.campaign(addr(TRADING)).unwrap();
    assert_eq!(c.epochs.len(), 2);
    assert!(c.epochs[0].winner_set);
    assert_eq!(c.epochs[0].winner, out(0));
    assert_eq!(c.epochs[0].total_revealed_weight, amt(150));
    assert_eq!(c.epochs[1].who_called, addr(11));
    assert_eq!(c.epochs[1].what_called, out(4));
    assert_eq!(c.epochs[1].when_called, t2);
    assert!(!c.epochs[1].winner_set);
    assert!(c.epochs[1].total_revealed_weight.is_zero());
    assert_eq!(m.cur_outcome_vested_arb(addr(TRADING), out(0)), Ok(amt(0)));
    assert_eq!(m.status(addr(TRADING), t2 + 1), Ok((InfraMarketState::Whinging.code(), TWO_DAYS - 1)));

    let r = m.close(addr(TRADING), Address::zero(), addr(12), t2 + TWO_DAYS).unwrap();
    assert_eq!(
        r.actions,
        vec![
            Action::Transfer { recipient: addr(11), amount: amt(2_000_000) },
            Action::Log {
                event: Event::InfraMarketClosed {
                    incentive_recipient: addr(12),
                    trading_addr: addr(TRADING),
                    winner: out(4),
                },
            },
            Action::Decide { trading_addr: addr(TRADING), outcome: out(4) },
        ]
    );
    assert!(r.amount.is_zero());
    assert_eq!(m.winner(addr(TRADING)), Ok(out(4)));

    m.sweep(addr(TRADING), 0, addr(41), addr(FEES), t2, amt(50)).unwrap();
    m.capture(addr(TRADING), 0, addr(FEES), addr(40)).unwrap();
    assert_eq!(m.sweep(addr(TRADING), 2, addr(41), addr(FEES), t2, amt(50)).unwrap_err(), Error::InvalidEpoch);
    assert_eq!(m.capture(addr(TRADING), 2, addr(FEES), addr(40)).unwrap_err(), Error::InvalidEpoch);
    assert_eq!(
        m.sweep(addr(TRADING), 1, addr(41), addr(FEES), t2, amt(50)).unwrap_err(),
        Error::WhingedTimeUnset
    );
    assert_eq!(m.capture(addr(TRADING), 1, addr(FEES), addr(40)).unwrap_err(), Error::NotWinner);
}

#[test]
fn escape_is_open_after_an_inconclusive_result() {
    let mut m = voted(0, &[(40, 0, 100)]);
    m.declare(addr(TRADING), vec![out(0)], addr(FEES), T_DECLARE).unwrap();
    assert_eq!(m.escape(addr(TRADING), 10_000_000).unwrap_err(), Error::CannotEscape);
    m.escape(addr(TRADING), 10_000_001).unwrap();
    assert!(m.campaign(addr(TRADING)).unwrap().escaped);
}

#[test]
fn incentives_come_out_of_the_treasury() {
    let mut m = voted(2, &[(40, 2, 100)]);
    for trading in [2, 3] {
        m.register(addr(trading), Bytes32 { w0: trading, w1: 0, w2: 0, w3: 0 }, 1_000, 10_000_000, addr(5))
            .unwrap();
        m.call(addr(trading), out(1), Address::zero(), addr(CALLER), T_CALL).unwrap();
    }
    assert_eq!(m.dao_money(), amt(21_000_000));
    let r = m.declare(addr(TRADING), vec![out(2)], addr(FEES), T_DECLARE).unwrap();
    assert_eq!(r.amount, amt(6_000_000));
    assert_eq!(m.dao_money(), amt(14_000_000));
    for (trading, left) in [(2, 12_000_000), (3, 10_000_000)] {
        let r = m.close(addr(trading), addr(FEES), addr(31), T_CALL + TWO_DAYS).unwrap();
        assert_eq!(r.amount, amt(2_000_000));
        assert_eq!(m.dao_money(), amt(left));
    }
}

#[test]
fn a_later_epoch_earns_no_incentive() {
    let mut m = voted(0, &[(40, 0, 100)]);
    m.declare(addr(TRADING), vec![out(0)], addr(FEES), T_DECLARE).unwrap();
    assert_eq!(m.dao_money(), amt(0));
    m.register(addr(2), Bytes32 { w0: 2, w1: 0, w2: 0, w3: 0 }, 1_000, 10_000_000, addr(5)).unwrap();
    assert_eq!(m.dao_money(), amt(7_000_000));
    let t2 = T_DECLARE + 10;
    m.call(addr(TRADING), out(1), Address::zero(), addr(CALLER), t2).unwrap();
    m.whinge(addr(TRADING), out(2), Address::zero(), addr(WHINGER), t2 + 1).unwrap();
    cast(&mut m, &[(50, 2, 10)], t2 + 1);
    let r = m.declare(addr(TRADING), vec![out(2)], addr(FEES), t2 + 1 + FOUR_DAYS).unwrap();
    assert_eq!(
        r,
        Receipt {
            amount: amt(0),
            actions: vec![
                Action::Transfer { recipient: addr(WHINGER), amount: amt(9_000_000) },
                Action::Log {
                    event: Event::Declared {
                        trading_addr: addr(TRADING),
                        winner: out(2),
                        fee_recipient: addr(FEES),
                    },
                },
                Action::Decide { trading_addr: addr(TRADING), outcome: out(2) },
            ],
        }
    );
    assert_eq!(m.dao_money(), amt(7_000_000));
    assert_eq!(m.cur_epoch(addr(TRADING)), 1);
    assert_eq!(m.winner(addr(TRADING)), Ok(out(2)));
}

#[test]
fn sweep_splits_the_stake_between_sweeper_and_pot() {
    let mut m = voted(2, &[(40, 2, 100), (41, 1, 50)]);
    m.declare(addr(TRADING), vec![out(1), out(2)], addr(FEES), T_DECLARE).unwrap();
    assert_eq!(m.sweep_stake(addr(TRADING), 0, addr(41), T_DECLARE), Ok(amt(50)));
    let r = m.sweep(addr(TRADING), 0, addr(41), addr(FEES), T_DECLARE, amt(50)).unwrap();
    assert_eq!(
        r,
        Receipt {
            amount: amt(5),
            actions: vec![Action::TransferStake { recipient: addr(FEES), amount: amt(5) }],
        }
    );
    let e = &m.campaign(addr(TRADING)).unwrap().epochs[0];
    assert_eq!(e.pot_existing, amt(45));
    assert_eq!(e.pot_outstanding, amt(45));
    assert!(e.vote_of(addr(41)).unwrap().swept);
    assert_eq!(e.vote_of(addr(41)).unwrap().weight, amt(50));
    assert!(!e.vote_of(addr(40)).unwrap().swept);
}

#[test]
fn sweep_fee_is_a_tenth_rounded_down() {
    for (seized, fee, rest) in [(0, 0, 0), (9, 0, 9), (10, 1, 9), (19, 1, 18), (1000, 100, 900), (1009, 100, 909)] {
        let mut m = voted(2, &[(40, 2, 100), (41, 1, 50)]);
        m.declare(addr(TRADING), vec![out(1), out(2)], addr(FEES), T_DECLARE).unwrap();
        let r = m.sweep(addr(TRADING), 0, addr(41), addr(FEES), T_DECLARE, amt(seized)).unwrap();
        assert_eq!(r.amount, amt(fee));
        if fee == 0 {
            assert!(r.actions.is_empty());
        } else {
            assert_eq!(r.actions, vec![Action::TransferStake { recipient: addr(FEES), amount: amt(fee) }]);
        }
        let e = &m.campaign(addr(TRADING)).unwrap().epochs[0];
        assert_eq!(e.pot_existing, amt(rest));
        assert_eq!(e.pot_outstanding, amt(rest));
    }
}

#[test]
fn sweep_is_refused_for_each_cause() {
    let mut m = voted(2, &[(40, 2, 100), (41, 1, 50), (42, 1, 0)]);
    m.predict(
        addr(TRADING),
        Bytes32 { w0: 5, w1: 5, w2: 5, w3: 5 },
        addr(43),
        T_WHINGE + 1,
        amt(10),
        amt(10),
    )
    .unwrap();
    assert_eq!(
        m.sweep(addr(TRADING), 1, addr(41), addr(FEES), T_DECLARE, amt(50)).unwrap_err(),
        Error::InvalidEpoch
    );
    assert_eq!(
        m.sweep(addr(TRADING), 0, addr(41), addr(FEES), T_DECLARE, amt(50)).unwrap_err(),
        Error::WinnerUnset
    );
    assert_eq!(m.sweep_stake(addr(TRADING), 0, addr(41), T_DECLARE), Err(Error::WinnerUnset));
    m.declare(addr(TRADING), vec![out(1), out(2)], addr(FEES), T_DECLARE).unwrap();
    assert_eq!(
        m.sweep(addr(TRADING), 0, addr(41), addr(FEES), T_DECLARE - 1, amt(50)).unwrap_err(),
        Error::NotInsideSweepingPeriod
    );
    for victim in [40, 42, 43, 44] {
        assert_eq!(
            m.sweep(addr(TRADING), 0, addr(victim), addr(FEES), T_DECLARE, amt(50)).unwrap_err(),
            Error::BadVictim
        );
        assert_eq!(m.sweep_stake(addr(TRADING), 0, addr(victim), T_DECLARE), Err(Error::BadVictim));
    }
    let huge = U256 { l0: 0, l1: 0, l2: 0, l3: 1 << 60 };
    assert_eq!(
        m.sweep(addr(TRADING), 0, addr(41), addr(FEES), T_DECLARE, huge).unwrap_err(),
        Error::CheckedMulOverflow
    );
    let e = &m.campaign(addr(TRADING)).unwrap().epochs[0];
    assert!(e.pot_existing.is_zero());
    assert!(!e.vote_of(addr(41)).unwrap().swept);
}

#[test]
fn sweep_of_a_closed_epoch_is_refused() {
    let mut m = StorageInfraMarket::new();
    m.ctor(addr(OPERATOR), addr(901), addr(902), addr(903), addr(904)).unwrap();
    m.register(addr(TRADING), Bytes32 { w0: 1, w1: 0, w2: 0, w3: 0 }, 1_000, 10_000_000, addr(5))
        .unwrap();
    m.call(addr(TRADING), out(1), Address::zero(), addr(CALLER), T_CALL).unwrap();
    m.close(addr(TRADING), Address::zero(), addr(12), T_CALL + TWO_DAYS).unwrap();
    assert_eq!(
        m.sweep(addr(TRADING), 0, addr(41), addr(FEES), T_DECLARE, amt(50)).unwrap_err(),
        Error::WhingedTimeUnset
    );
}

#[test]
fn sweep_refuses_a_pot_that_does_not_fit() {
    let mut votes = vec![(40, 2, 1000)];
    for voter in 100..250 {
        votes.push((voter, 1, 1));
    }
    let mut m = voted(2, &votes);
    m.declare(addr(TRADING), vec![out(1), out(2)], addr(FEES), T_DECLARE).unwrap();
    let seized = U256 { l0: 0, l1: 0, l2: 0, l3: 1 << 57 };
    let fee = U256 {
        l0: 0x3333333333333333,
        l1: 0x3333333333333333,
        l2: 0x3333333333333333,
        l3: 0x33333333333333,
    };
    let mut swept = 0;
    for voter in 100..250 {
        match m.sweep(addr(TRADING), 0, addr(voter), addr(FEES), T_DECLARE, seized) {
            Ok(r) => {
                assert_eq!(r.amount, fee);
                swept += 1;
            }
            Err(cause) => {
                assert_eq!(cause, Error::CheckedAddOverflow);
                assert!(!m.campaign(addr(TRADING)).unwrap().epochs[0]
                    .vote_of(addr(voter))
                    .unwrap()
                    .swept);
                break;
            }
        }
    }
    assert_eq!(swept, 142);
    let e = &m.campaign(addr(TRADING)).unwrap().epochs[0];
    assert_eq!(e.pot_existing, e.pot_outstanding);
    assert_eq!(
        e.pot_existing,
        U256 {
            l0: 0x99999999999999b6,
            l1: 0x9999999999999999,
            l2: 0x9999999999999999,
            l3: 0xff99999999999999,
        }
    );
}

#[test]
fn a_stake_is_swept_once() {
    let mut m = voted(2, &[(40, 2, 100), (41, 1, 50)]);
    m.declare(addr(TRADING), vec![out(1), out(2)], addr(FEES), T_DECLARE).unwrap();
    m.sweep(addr(TRADING), 0, addr(41), addr(FEES), T_DECLARE, amt(50)).unwrap();
    assert_eq!(
        m.sweep(addr(TRADING), 0, addr(41), addr(FEES), T_DECLARE + 1, amt(50)).unwrap_err(),
        Error::BadVictim
    );
    assert_eq!(m.sweep_stake(addr(TRADING), 0, addr(41), T_DECLARE + 1), Err(Error::BadVictim));
    m.capture(addr(TRADING), 0, addr(FEES), addr(40)).unwrap();
    assert_eq!(
        m.sweep(addr(TRADING), 0, addr(41), addr(32), u64::MAX, amt(1)).unwrap_err(),
        Error::BadVictim
    );
    let e = &m.campaign(addr(TRADING)).unwrap().epochs[0];
    assert_eq!(e.pot_existing, amt(45));
}

#[test]
fn capture_pays_the_share_of_the_pot() {
    let mut m = voted(2, &[(40, 2, 100), (41, 1, 50)]);
    m.declare(addr(TRADING), vec![out(1), out(2)], addr(FEES), T_DECLARE).unwrap();
    m.sweep(addr(TRADING), 0, addr(41), addr(FEES), T_DECLARE, amt(50)).unwrap();
    let r = m.capture(addr(TRADING), 0, addr(33), addr(40)).unwrap();
    assert_eq!(
        r,
        Receipt {
            amount: amt(45),
            actions: vec![Action::TransferStake { recipient: addr(33), amount: amt(45) }],
        }
    );
    let e = &m.campaign(addr(TRADING)).unwrap().epochs[0];
    assert_eq!(e.pot_existing, amt(45));
    assert_eq!(e.pot_outstanding, amt(0));
    assert!(e.vote_of(addr(40)).unwrap().claimed);
}

#[test]
fn capture_shares_are_rounded_down() {
    let mut m = voted(2, &[(40, 2, 100), (41, 2, 50), (42, 1, 100)]);
    m.declare(addr(TRADING), vec![out(1), out(2)], addr(FEES), T_DECLARE).unwrap();
    assert_eq!(m.winner(addr(TRADING)), Ok(out(2)));
    m.sweep(addr(TRADING), 0, addr(42), addr(FEES), T_DECLARE, amt(1000)).unwrap();
    let r = m.capture(addr(TRADING), 0, addr(33), addr(40)).unwrap();
    assert_eq!(r.amount, amt(599));
    let r = m.capture(addr(TRADING), 0, addr(34), addr(41)).unwrap();
    assert_eq!(r.amount, amt(299));
    let e = &m.campaign(addr(TRADING)).unwrap().epochs[0];
    assert_eq!(e.pot_existing, amt(900));
    assert_eq!(e.pot_outstanding, amt(2));
}

#[test]
fn capture_of_an_empty_pot_pays_nothing() {
    let mut m = voted(2, &[(40, 2, 100), (41, 1, 50)]);
    m.declare(addr(TRADING), vec![out(1), out(2)], addr(FEES), T_DECLARE).unwrap();
    let r = m.capture(addr(TRADING), 0, addr(33), addr(40)).unwrap();
    assert_eq!(r, Receipt { amount: amt(0), actions: vec![] });
    assert!(m.campaign(addr(TRADING)).unwrap().epochs[0].vote_of(addr(40)).unwrap().claimed);
    m.sweep(addr(TRADING), 0, addr(41), addr(FEES), T_DECLARE, amt(50)).unwrap();
    assert_eq!(m.capture(addr(TRADING), 0, addr(33), addr(40)).unwrap_err(), Error::PotAlreadyClaimed);
}

#[test]
fn a_share_is_captured_once() {
    let mut m = voted(2, &[(40, 2, 100), (41, 1, 50), (43, 2, 100)]);
    m.declare(addr(TRADING), vec![out(1), out(2)], addr(FEES), T_DECLARE).unwrap();
    m.sweep(addr(TRADING), 0, addr(41), addr(FEES), T_DECLARE, amt(50)).unwrap();
    let r = m.capture(addr(TRADING), 0, addr(33), addr(40)).unwrap();
    assert_eq!(r.amount, amt(22));
    assert_eq!(m.campaign(addr(TRADING)).unwrap().epochs[0].pot_outstanding, amt(23));
    assert_eq!(m.capture(addr(TRADING), 0, addr(33), addr(40)).unwrap_err(), Error::PotAlreadyClaimed);
    assert_eq!(m.capture(addr(TRADING), 0, addr(35), addr(40)).unwrap_err(), Error::PotAlreadyClaimed);
    assert_eq!(m.campaign(addr(TRADING)).unwrap().epochs[0].pot_outstanding, amt(23));
    let r = m.capture(addr(TRADING), 0, addr(36), addr(43)).unwrap();
    assert_eq!(r.amount, amt(22));
    assert_eq!(m.campaign(addr(TRADING)).unwrap().epochs[0].pot_outstanding, amt(1));
}

#[test]
fn capture_is_refused_for_each_cause() {
    let mut m = voted(2, &[(40, 2, 100), (41, 1, 50), (42, 2, 0)]);
    m.predict(
        addr(TRADING),
        Bytes32 { w0: 5, w1: 5, w2: 5, w3: 5 },
        addr(43),
        T_WHINGE + 1,
        amt(10),
        amt(10),
    )
    .unwrap();
    assert_eq!(m.capture(addr(TRADING), 1, addr(33), addr(40)).unwrap_err(), Error::InvalidEpoch);
    assert_eq!(m.capture(addr(TRADING), 0, addr(33), addr(40)).unwrap_err(), Error::WinnerUnset);
    m.declare(addr(TRADING), vec![out(1), out(2)], addr(FEES), T_DECLARE).unwrap();
    for caller in [41, 43, 44] {
        assert_eq!(m.capture(addr(TRADING), 0, addr(33), addr(caller)).unwrap_err(), Error::NotWinner);
    }
    m.capture(addr(TRADING), 0, addr(33), addr(42)).unwrap();
    m.capture(addr(TRADING), 0, addr(33), addr(40)).unwrap();
}

#[test]
fn capture_refuses_a_share_of_no_weight_and_a_product_that_does_not_fit() {
    let mut m = voted(2, &[(40, 1, 0)]);
    m.declare(addr(TRADING), vec![out(1)], addr(FEES), T_DECLARE).unwrap();
    assert_eq!(m.winner(addr(TRADING)), Ok(out(2)));
    assert_eq!(m.capture(addr(TRADING), 0, addr(33), addr(40)).unwrap_err(), Error::NotWinner);
    let mut m = voted(2, &[(40, 2, 0)]);
    m.declare(addr(TRADING), vec![out(2)], addr(FEES), T_DECLARE).unwrap();
    assert_eq!(m.winner(addr(TRADING)), Ok(out(2)));
    assert_eq!(m.capture(addr(TRADING), 0, addr(33), addr(40)).unwrap_err(), Error::CheckedDivOverflow);

    let huge = U256 { l0: 0, l1: 0, l2: 0, l3: 1 << 40 };
    let mut m = StorageInfraMarket::new();
    m.ctor(addr(OPERATOR), addr(901), addr(902), addr(903), addr(904)).unwrap();
    m.register(addr(TRADING), Bytes32 { w0: 1, w1: 0, w2: 0, w3: 0 }, 1_000, 10_000_000, addr(5))
        .unwrap();
    m.call(addr(TRADING), out(1), Address::zero(), addr(CALLER), T_CALL).unwrap();
    m.whinge(addr(TRADING), out(2), Address::zero(), addr(WHINGER), T_WHINGE).unwrap();
    m.predict(addr(TRADING), create_commit(addr(40), out(2), amt(1)), addr(40), T_WHINGE, huge, huge)
        .unwrap();
    m.reveal_commitment(addr(TRADING), addr(40), out(2), amt(1), addr(40), T_REVEAL, huge, huge)
        .unwrap();
    m.declare(addr(TRADING), vec![out(2)], addr(FEES), T_DECLARE).unwrap();
    assert_eq!(m.capture(addr(TRADING), 0, addr(33), addr(40)).unwrap_err(), Error::CheckedMulOverflow);
    assert!(!m.campaign(addr(TRADING)).unwrap().epochs[0].vote_of(addr(40)).unwrap().claimed);
}

#[test]
fn capture_refuses_a_pot_product_that_does_not_fit() {
    let stake = U256 { l0: 0, l1: 0, l2: 0, l3: 1 << 50 };
    let mut m = voted(2, &[(40, 2, 1), (41, 2, 1), (42, 1, 1)]);
    m.declare(addr(TRADING), vec![out(1), out(2)], addr(FEES), T_DECLARE).unwrap();
    m.sweep(addr(TRADING), 0, addr(42), addr(FEES), T_DECLARE, stake).unwrap();
    assert_eq!(m.capture(addr(TRADING), 0, addr(33), addr(40)).unwrap_err(), Error::CheckedMulOverflow);
    let e = &m.campaign(addr(TRADING)).unwrap().epochs[0];
    assert!(!e.vote_of(addr(40)).unwrap().claimed);
    assert_eq!(e.pot_outstanding, e.pot_existing);
}
