use match_provider::{AccountAddress, Amount, MatchProvider, MatchRecord, ResourceAddress, Transfer};

fn account(b: u8) -> AccountAddress {
    AccountAddress { node_id: [b; 30] }
}

fn resource(b: u8) -> ResourceAddress {
    ResourceAddress { node_id: [b; 30] }
}

fn full_record(fee: u128) -> MatchRecord {
    MatchRecord {
        fee: Amount { attos: fee },
        creator_id: 1,
        creator_address: Some(account(0xA)),
        acceptor_id: 2,
        acceptor_address: Some(account(0xB)),
        winner_id: 0,
    }
}

#[test]
fn record_invariants_are_checked() {
    let good = full_record(100);
    assert!(good.is_well_formed());
    let mut half_set = good;
    half_set.acceptor_address = None;
    assert!(!half_set.is_well_formed());
    let mut self_match = good;
    self_match.acceptor_id = 1;
    assert!(!self_match.is_well_formed());
    let mut stranger_wins = good;
    stranger_wins.winner_id = 3;
    assert!(!stranger_wins.is_well_formed());
    let mut creator_zero = good;
    creator_zero.creator_id = 0;
    assert!(creator_zero.is_well_formed());
    let mut no_creator_address = good;
    no_creator_address.creator_address = None;
    assert!(!no_creator_address.is_well_formed());
    let mut decided = good;
    decided.winner_id = 2;
    assert!(decided.is_well_formed());
}

#[test]
fn restored_match_holds_what_it_owes() {
    let p = MatchProvider::with_match(resource(1), resource(2), 9, Some(full_record(100))).unwrap();
    assert_eq!(p.escrow_balance(), Amount { attos: 200 });
    assert_eq!(p.get_match(9), Some(full_record(100)));
    let mut open = full_record(100);
    open.acceptor_id = 0;
    open.acceptor_address = None;
    let p = MatchProvider::with_match(resource(1), resource(2), 9, Some(open)).unwrap();
    assert_eq!(p.escrow_balance(), Amount { attos: 100 });
    let mut decided = full_record(100);
    decided.winner_id = 1;
    let p = MatchProvider::with_match(resource(1), resource(2), 9, Some(decided)).unwrap();
    assert_eq!(p.escrow_balance(), Amount { attos: 0 });
    let p = MatchProvider::with_match(resource(1), resource(2), 9, None).unwrap();
    assert_eq!(p.get_match(9), None);
    assert_eq!(p.escrow_balance(), Amount { attos: 0 });
}

#[test]
fn restore_refuses_bad_records() {
    let mut bad = full_record(100);
    bad.acceptor_address = None;
    assert!(MatchProvider::with_match(resource(1), resource(2), 9, Some(bad)).is_none());
    assert!(MatchProvider::with_match(resource(1), resource(2), 9, Some(full_record(u128::MAX))).is_none());
}

#[test]
fn restored_match_can_be_decided() {
    let mut p = MatchProvider::with_match(resource(1), resource(2), 9, Some(full_record(100))).unwrap();
    let plan = p.set_winner(&resource(2), 9, 1).unwrap();
    assert_eq!(plan, vec![Transfer::Pay { to: account(0xA), amount: Amount { attos: 200 } }]);
    assert_eq!(p.escrow_balance(), Amount { attos: 0 });
}
