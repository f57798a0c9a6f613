use infra_market::action::{Action, Event};
use infra_market::error::Error;
use infra_market::fees::INCENTIVE_AMT_TOTAL;
use infra_market::ident::{Address, Bytes32, Outcome};
use infra_market::market::StorageInfraMarket;
use infra_market::timing::{InfraMarketState, TWO_DAYS};
use infra_market::uint::U256;

fn addr(n: u64) -> Address {
    Address::from_u64(n)
}

fn desc(n: u64) -> Bytes32 {
    Bytes32 { w0: 0, w1: 0, w2: 0, w3: n }
}

const OPERATOR: u64 = 900;

fn constructed() -> StorageInfraMarket {
    let mut m = StorageInfraMarket::new();
    m.ctor(addr(OPERATOR), addr(901), addr(902), addr(903), addr(904)).unwrap();
    m
}

#[test]
fn a_new_market_is_disabled_and_empty() {
    let m = StorageInfraMarket::new();
    assert!(!m.is_enabled());
    assert!(m.operator().is_zero());
    assert!(m.dao_money().is_zero());
    assert!(m.campaign(addr(1)).is_none());
    assert_eq!(m.cur_epoch(addr(1)), 0);
}

#[test]
fn construction_enables_and_reports_it() {
    let mut m = StorageInfraMarket::new();
    let r = m.ctor(addr(OPERATOR), addr(901), addr(902), addr(903), addr(904)).unwrap();
    assert!(r.amount.is_zero());
    assert_eq!(r.actions, vec![Action::Log { event: Event::InfraMarketEnabled { status: true } }]);
    assert!(m.is_enabled());
    assert_eq!(m.operator(), addr(OPERATOR));
}

#[test]
fn test_infra_cant_be_recreated() {
    let mut c = StorageInfraMarket::new();
    let z = Address::zero();
    c.ctor(z, z, z, z, z).unwrap();
    assert_eq!(Error::AlreadyConstructed, c.ctor(z, z, z, z, z).unwrap_err());
    assert_eq!(
        Error::AlreadyConstructed,
        c.ctor(addr(1), addr(2), addr(3), addr(4), addr(5)).unwrap_err()
    );
    assert!(c.operator().is_zero());
}

#[test]
fn construction_stays_refused_after_other_operations() {
    let mut m = constructed();
    m.register(addr(1), desc(1), 100, 200, addr(50)).unwrap();
    m.enable_contract(false, addr(OPERATOR)).unwrap();
    assert_eq!(
        m.ctor(addr(1), addr(2), addr(3), addr(4), addr(5)).unwrap_err(),
        Error::AlreadyConstructed
    );
    assert_eq!(m.operator(), addr(OPERATOR));
}

#[test]
fn only_the_operator_switches() {
    let mut m = constructed();
    assert_eq!(m.enable_contract(false, addr(1)).unwrap_err(), Error::NotOperator);
    assert!(m.is_enabled());
    let r = m.enable_contract(false, addr(OPERATOR)).unwrap();
    assert_eq!(r.actions, vec![Action::Log { event: Event::InfraMarketEnabled { status: false } }]);
    assert!(!m.is_enabled());
    m.enable_contract(true, addr(OPERATOR)).unwrap();
    assert!(m.is_enabled());
}

#[test]
fn test_infra_operator_pause_no_run() {
    let mut c = constructed();
    c.register(addr(1), desc(1), 100, 200, addr(50)).unwrap();
    c.enable_contract(false, addr(OPERATOR)).unwrap();
    let before = format!("{:?}", c);
    let w = Outcome::from_u64(5);
    let rs = [
        c.register(addr(2), desc(2), 100, 200, addr(50)).unwrap_err(),
        c.call(addr(1), w, addr(3), addr(50), 150).unwrap_err(),
        c.close(addr(1), addr(3), addr(50), 150).unwrap_err(),
        c.whinge(addr(1), w, addr(3), addr(50), 150).unwrap_err(),
        c.predict(addr(1), desc(9), addr(50), 150, U256::from_u64(1), U256::from_u64(1)).unwrap_err(),
        c.reveal_commitment(
            addr(1),
            addr(50),
            w,
            U256::from_u64(1),
            addr(50),
            150,
            U256::from_u64(1),
            U256::from_u64(1),
        )
        .unwrap_err(),
        c.reveal_digest(
            addr(1),
            addr(50),
            w,
            desc(9),
            addr(50),
            150,
            U256::from_u64(1),
            U256::from_u64(1),
        )
        .unwrap_err(),
        c.declare(addr(1), vec![w], addr(3), 150).unwrap_err(),
        c.sweep_stake(addr(1), 0, addr(50), 150).unwrap_err(),
        c.sweep(addr(1), 0, addr(50), addr(3), 150, U256::from_u64(1)).unwrap_err(),
        c.capture(addr(1), 0, addr(3), addr(50)).unwrap_err(),
        c.escape(addr(1), 500).unwrap_err(),
        c.status(addr(1), 150).unwrap_err(),
    ];
    for (i, r) in rs.into_iter().enumerate() {
        assert_eq!(Error::NotEnabled, r, "{i}");
    }
    assert_eq!(before, format!("{:?}", c));
}

#[test]
fn a_market_that_was_never_constructed_refuses_as_disabled() {
    let mut m = StorageInfraMarket::new();
    assert_eq!(m.register(addr(1), desc(1), 100, 200, addr(50)).unwrap_err(), Error::NotEnabled);
    assert_eq!(m.escape(addr(1), 500).unwrap_err(), Error::NotEnabled);
}

#[test]
fn registration_takes_the_incentives() {
    let mut m = constructed();
    let r = m.register(addr(1), desc(7), 100, 200, addr(50)).unwrap();
    assert_eq!(INCENTIVE_AMT_TOTAL, 7_000_000);
    assert_eq!(r.amount, U256::from_u64(7_000_000));
    assert_eq!(
        r.actions,
        vec![
            Action::TakeFromSender { amount: U256::from_u64(7_000_000) },
            Action::Log {
                event: Event::MarketCreated {
                    incentive_sender: addr(50),
                    trading_addr: addr(1),
                    desc: desc(7),
                    launch_ts: 100,
                    call_deadline: 200,
                },
            },
        ]
    );
    assert_eq!(m.dao_money(), U256::from_u64(7_000_000));
    assert_eq!(m.start_ts(addr(1)), Ok(100));
    assert_eq!(m.end_ts(addr(1)), Ok(200));
    assert_eq!(m.winner(addr(1)), Ok(Outcome::zero()));
    assert_eq!(m.cur_epoch(addr(1)), 0);
    let c = m.campaign(addr(1)).unwrap();
    assert_eq!(c.trading_addr, addr(1));
    assert_eq!(c.desc, desc(7));
    assert!(!c.escaped);
    assert_eq!(c.epochs.len(), 1);
    m.register(addr(2), desc(8), 0, u64::MAX, addr(51)).unwrap();
    assert_eq!(m.dao_money(), U256::from_u64(14_000_000));
    assert_eq!(m.end_ts(addr(2)), Ok(u64::MAX));
    assert_eq!(m.end_ts(addr(1)), Ok(200));
}

#[test]
fn registration_is_refused_for_each_cause_in_order() {
    let mut m = constructed();
    m.register(addr(1), desc(7), 100, 200, addr(50)).unwrap();
    assert_eq!(m.register(addr(1), desc(7), 100, 200, addr(50)).unwrap_err(), Error::AlreadyRegistered);
    assert_eq!(m.register(addr(1), desc(0), 100, 0, addr(50)).unwrap_err(), Error::AlreadyRegistered);
    assert_eq!(m.register(addr(2), desc(7), 100, 0, addr(50)).unwrap_err(), Error::ZeroCallDeadline);
    assert_eq!(m.register(addr(0), desc(0), 100, 0, addr(50)).unwrap_err(), Error::ZeroCallDeadline);
    assert_eq!(m.register(addr(0), desc(0), 100, 200, addr(50)).unwrap_err(), Error::ZeroTradingAddr);
    assert_eq!(m.register(addr(2), desc(0), 100, 200, addr(50)).unwrap_err(), Error::ZeroDesc);
    assert_eq!(m.dao_money(), U256::from_u64(7_000_000));
    assert!(m.campaign(addr(2)).is_none());
}

#[test]
fn getters_of_an_unknown_campaign_give_zero() {
    let m = constructed();
    assert_eq!(m.winner(addr(1)), Ok(Outcome::zero()));
    assert_eq!(m.start_ts(addr(1)), Ok(0));
    assert_eq!(m.end_ts(addr(1)), Ok(0));
    assert_eq!(m.cur_outcome_vested_arb(addr(1), Outcome::from_u64(1)), Ok(U256::zero()));
    assert_eq!(m.status(addr(1), 5).unwrap_err(), Error::NotRegistered);
}

#[test]
fn operations_on_an_unknown_campaign_are_refused() {
    let mut m = constructed();
    let w = Outcome::from_u64(5);
    let one = U256::from_u64(1);
    assert_eq!(m.call(addr(1), w, addr(3), addr(50), 150).unwrap_err(), Error::NotRegistered);
    assert_eq!(m.close(addr(1), addr(3), addr(50), 150).unwrap_err(), Error::NotRegistered);
    assert_eq!(m.whinge(addr(1), w, addr(3), addr(50), 150).unwrap_err(), Error::NotRegistered);
    assert_eq!(m.predict(addr(1), desc(9), addr(50), 150, one, one).unwrap_err(), Error::NotRegistered);
    assert_eq!(
        m.reveal_commitment(addr(1), addr(50), w, one, addr(50), 150, one, one).unwrap_err(),
        Error::NotRegistered
    );
    assert_eq!(m.declare(addr(1), vec![w], addr(3), 150).unwrap_err(), Error::NotRegistered);
    assert_eq!(m.sweep(addr(1), 0, addr(50), addr(3), 150, one).unwrap_err(), Error::NotRegistered);
    assert_eq!(m.capture(addr(1), 0, addr(3), addr(50)).unwrap_err(), Error::NotRegistered);
    assert_eq!(m.escape(addr(1), 500).unwrap_err(), Error::NotRegistered);
}

#[test]
fn status_follows_a_call_to_its_close() {
    let mut m = constructed();
    m.register(addr(1), desc(7), 100, 5000, addr(50)).unwrap();
    assert_eq!(m.status(addr(1), 90), Ok((InfraMarketState::Callable.code(), 4910)));
    assert_eq!(m.status(addr(1), 6000), Ok((InfraMarketState::Callable.code(), 0)));
    m.call(addr(1), Outcome::from_u64(5), addr(3), addr(50), 1000).unwrap();
    assert_eq!(m.status(addr(1), 1001), Ok((InfraMarketState::Whinging.code(), TWO_DAYS - 1)));
    assert_eq!(m.status(addr(1), 1000 + TWO_DAYS), Ok((InfraMarketState::Closable.code(), 0)));
    m.close(addr(1), addr(3), addr(50), 1000 + TWO_DAYS).unwrap();
    assert_eq!(m.status(addr(1), 1000 + TWO_DAYS), Ok((InfraMarketState::Sweeping.code(), 0)));
}

#[test]
fn escape_needs_the_deadline_to_have_passed() {
    let mut m = constructed();
    m.register(addr(1), desc(7), 100, 200, addr(50)).unwrap();
    assert_eq!(m.escape(addr(1), 199).unwrap_err(), Error::CannotEscape);
    assert_eq!(m.escape(addr(1), 200).unwrap_err(), Error::CannotEscape);
    let r = m.escape(addr(1), 201).unwrap();
    assert!(r.amount.is_zero());
    assert_eq!(
        r.actions,
        vec![
            Action::Escape { trading_addr: addr(1) },
            Action::Log { event: Event::CampaignEscaped { trading_addr: addr(1) } },
        ]
    );
    assert!(m.campaign(addr(1)).unwrap().escaped);
    assert_eq!(m.escape(addr(1), 202).unwrap_err(), Error::CannotEscape);
    assert_eq!(m.escape(addr(1), u64::MAX).unwrap_err(), Error::CannotEscape);
    assert!(m.campaign(addr(1)).unwrap().escaped);
}

#[test]
fn escape_is_refused_while_a_call_stands() {
    let mut m = constructed();
    m.register(addr(1), desc(7), 100, 200, addr(50)).unwrap();
    m.call(addr(1), Outcome::from_u64(5), addr(3), addr(50), 150).unwrap();
    assert_eq!(m.escape(addr(1), 201).unwrap_err(), Error::CannotEscape);
    m.close(addr(1), addr(3), addr(50), 150 + TWO_DAYS).unwrap();
    assert_eq!(m.escape(addr(1), 150 + TWO_DAYS + 1).unwrap_err(), Error::CannotEscape);
    assert!(!m.campaign(addr(1)).unwrap().escaped);
}
