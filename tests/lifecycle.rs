use match_provider::{AccountAddress, Amount, MatchError, MatchProvider, MatchRecord, ResourceAddress, Transfer};

fn account(b: u8) -> AccountAddress {
    AccountAddress { node_id: [b; 30] }
}

fn resource(b: u8) -> ResourceAddress {
    ResourceAddress { node_id: [b; 30] }
}

fn amt(attos: u128) -> Amount {
    Amount { attos }
}

fn provider() -> MatchProvider {
    MatchProvider::new(resource(1), resource(2))
}

const ID: u128 = 42;
const C: u128 = 10;
const A: u128 = 20;

#[test]
fn new_provider_is_empty() {
    let p = provider();
    assert_eq!(p.escrow_balance(), amt(0));
    assert_eq!(p.get_match(ID), None);
    assert_eq!(p.token_address(), resource(1));
}

#[test]
fn two_registrations_fill_and_third_is_refused() {
    let mut p = provider();
    let plan = p.register(ID, C, amt(100), account(0xA)).unwrap();
    assert_eq!(plan, vec![Transfer::Pull { from: account(0xA), amount: amt(100) }]);
    let open = p.get_match(ID).unwrap();
    assert_eq!(
        open,
        MatchRecord {
            fee: amt(100),
            creator_id: C,
            creator_address: Some(account(0xA)),
            acceptor_id: 0,
            acceptor_address: None,
            winner_id: 0,
        }
    );
    let plan = p.register(ID, A, amt(100), account(0xB)).unwrap();
    assert_eq!(plan, vec![Transfer::Pull { from: account(0xB), amount: amt(100) }]);
    let full = p.get_match(ID).unwrap();
    assert_eq!(full.acceptor_id, A);
    assert_eq!(full.acceptor_address, Some(account(0xB)));
    assert_eq!(p.escrow_balance(), amt(200));
    assert_eq!(p.register(ID, 30, amt(100), account(0xC)), Err(MatchError::InvalidState));
    assert_eq!(p.escrow_balance(), amt(200));
    assert_eq!(p.get_match(ID), Some(full));
}

#[test]
fn same_identity_twice_is_refused() {
    let mut p = provider();
    p.register(ID, C, amt(100), account(0xA)).unwrap();
    assert_eq!(p.register(ID, C, amt(100), account(0xA)), Err(MatchError::ValidationFailure));
    assert_eq!(p.escrow_balance(), amt(100));
    assert_eq!(p.get_match(ID).unwrap().acceptor_id, 0);
}

#[test]
fn fee_mismatch_is_refused_and_escrow_unchanged() {
    let mut p = provider();
    p.register(ID, C, amt(100), account(0xA)).unwrap();
    assert_eq!(p.register(ID, A, amt(50), account(0xB)), Err(MatchError::ValidationFailure));
    assert_eq!(p.escrow_balance(), amt(100));
    assert_eq!(p.register(ID, A, amt(150), account(0xB)), Err(MatchError::ValidationFailure));
    assert_eq!(p.escrow_balance(), amt(100));
}

#[test]
fn identity_zero_can_create_but_not_join_or_win() {
    let mut p = provider();
    let plan = p.register(ID, 0, amt(100), account(0xA)).unwrap();
    assert_eq!(plan, vec![Transfer::Pull { from: account(0xA), amount: amt(100) }]);
    let open = p.get_match(ID).unwrap();
    assert_eq!(open.creator_id, 0);
    assert_eq!(open.creator_address, Some(account(0xA)));
    assert_eq!(p.register(ID, 0, amt(100), account(0xB)), Err(MatchError::ValidationFailure));
    p.register(ID, A, amt(100), account(0xB)).unwrap();
    assert_eq!(p.escrow_balance(), amt(200));
    assert_eq!(p.set_winner(&resource(2), ID, 0), Err(MatchError::Unauthorized));
    assert_eq!(p.get_match(ID).unwrap().winner_id, 0);
    assert_eq!(p.escrow_balance(), amt(200));
    let plan = p.set_winner(&resource(2), ID, A).unwrap();
    assert_eq!(plan, vec![Transfer::Pay { to: account(0xB), amount: amt(200) }]);
}

#[test]
fn acceptor_zero_is_refused() {
    let mut p = provider();
    p.register(ID, C, amt(100), account(0xA)).unwrap();
    assert_eq!(p.register(ID, 0, amt(100), account(0xB)), Err(MatchError::ValidationFailure));
    assert_eq!(p.escrow_balance(), amt(100));
    assert_eq!(p.get_match(ID).unwrap().acceptor_id, 0);
}

#[test]
fn join_then_cancel_restores_open_match() {
    let mut p = provider();
    p.register(ID, C, amt(100), account(0xA)).unwrap();
    let before = p.get_match(ID);
    p.register(ID, A, amt(100), account(0xB)).unwrap();
    p.cancel_registration(&resource(2), ID, A).unwrap();
    assert_eq!(p.get_match(ID), before);
    assert_eq!(p.escrow_balance(), amt(100));
}

#[test]
fn set_winner_without_acceptor_is_refused() {
    let mut p = provider();
    p.register(ID, C, amt(100), account(0xA)).unwrap();
    assert_eq!(p.set_winner(&resource(2), ID, C), Err(MatchError::InvalidState));
    assert_eq!(p.escrow_balance(), amt(100));
}

#[test]
fn round_trip_pays_winner_twice_the_fee() {
    let mut p = provider();
    p.register(ID, C, amt(100), account(0xA)).unwrap();
    p.register(ID, A, amt(100), account(0xB)).unwrap();
    let plan = p.set_winner(&resource(2), ID, A).unwrap();
    assert_eq!(plan, vec![Transfer::Pay { to: account(0xB), amount: amt(200) }]);
    assert_eq!(p.get_match(ID).unwrap().winner_id, A);
    assert_eq!(p.escrow_balance(), amt(0));
}

#[test]
fn creator_can_win() {
    let mut p = provider();
    p.register(ID, C, amt(7), account(0xA)).unwrap();
    p.register(ID, A, amt(7), account(0xB)).unwrap();
    let plan = p.set_winner(&resource(2), ID, C).unwrap();
    assert_eq!(plan, vec![Transfer::Pay { to: account(0xA), amount: amt(14) }]);
    assert_eq!(p.get_match(ID).unwrap().winner_id, C);
}

#[test]
fn set_winner_refusals() {
    let mut p = provider();
    assert_eq!(p.set_winner(&resource(2), ID, C), Err(MatchError::NotFound));
    p.register(ID, C, amt(100), account(0xA)).unwrap();
    p.register(ID, A, amt(100), account(0xB)).unwrap();
    assert_eq!(p.set_winner(&resource(9), ID, A), Err(MatchError::Unauthorized));
    assert_eq!(p.set_winner(&resource(2), ID, 99), Err(MatchError::Unauthorized));
    assert_eq!(p.escrow_balance(), amt(200));
    p.set_winner(&resource(2), ID, A).unwrap();
    assert_eq!(p.set_winner(&resource(2), ID, C), Err(MatchError::InvalidState));
    assert_eq!(p.register(ID, 30, amt(100), account(0xC)), Err(MatchError::InvalidState));
    assert_eq!(p.cancel_registration(&resource(2), ID, A), Err(MatchError::InvalidState));
    assert_eq!(p.escrow_balance(), amt(0));
}

#[test]
fn cancel_open_match_refunds_creator() {
    let mut p = provider();
    p.register(ID, C, amt(100), account(0xA)).unwrap();
    let plan = p.cancel_match(&resource(2), ID).unwrap();
    assert_eq!(plan, vec![Transfer::Pay { to: account(0xA), amount: amt(100) }]);
    assert_eq!(p.get_match(ID), None);
    assert_eq!(p.escrow_balance(), amt(0));
}

#[test]
fn cancel_full_match_refunds_both() {
    let mut p = provider();
    p.register(ID, C, amt(100), account(0xA)).unwrap();
    p.register(ID, A, amt(100), account(0xB)).unwrap();
    let plan = p.cancel_match(&resource(2), ID).unwrap();
    assert_eq!(
        plan,
        vec![
            Transfer::Pay { to: account(0xA), amount: amt(100) },
            Transfer::Pay { to: account(0xB), amount: amt(100) },
        ]
    );
    assert_eq!(p.get_match(ID), None);
    assert_eq!(p.escrow_balance(), amt(0));
    p.register(ID, 30, amt(5), account(0xC)).unwrap();
    assert_eq!(p.get_match(ID).unwrap().creator_id, 30);
}

#[test]
fn cancel_decided_match_is_refused() {
    let mut p = provider();
    p.register(ID, C, amt(100), account(0xA)).unwrap();
    p.register(ID, A, amt(100), account(0xB)).unwrap();
    p.set_winner(&resource(2), ID, C).unwrap();
    assert_eq!(p.cancel_match(&resource(2), ID), Err(MatchError::InvalidState));
    assert_eq!(p.get_match(ID).unwrap().winner_id, C);
}

#[test]
fn cancel_match_refusals() {
    let mut p = provider();
    assert_eq!(p.cancel_match(&resource(2), ID), Err(MatchError::NotFound));
    p.register(ID, C, amt(100), account(0xA)).unwrap();
    assert_eq!(p.cancel_match(&resource(1), ID), Err(MatchError::Unauthorized));
    assert_eq!(p.escrow_balance(), amt(100));
}

#[test]
fn cancel_registration_reopens_match() {
    let mut p = provider();
    p.register(ID, C, amt(100), account(0xA)).unwrap();
    p.register(ID, A, amt(100), account(0xB)).unwrap();
    let plan = p.cancel_registration(&resource(2), ID, A).unwrap();
    assert_eq!(plan, vec![Transfer::Pay { to: account(0xB), amount: amt(100) }]);
    let open = p.get_match(ID).unwrap();
    assert_eq!(open.acceptor_id, 0);
    assert_eq!(open.acceptor_address, None);
    assert_eq!(open.creator_id, C);
    assert_eq!(p.escrow_balance(), amt(100));
    p.register(ID, 30, amt(100), account(0xC)).unwrap();
    let full = p.get_match(ID).unwrap();
    assert_eq!(full.acceptor_id, 30);
    assert_eq!(full.acceptor_address, Some(account(0xC)));
    assert_eq!(p.escrow_balance(), amt(200));
}

#[test]
fn cancel_registration_refusals() {
    let mut p = provider();
    assert_eq!(p.cancel_registration(&resource(2), ID, A), Err(MatchError::NotFound));
    p.register(ID, C, amt(100), account(0xA)).unwrap();
    assert_eq!(p.cancel_registration(&resource(2), ID, A), Err(MatchError::InvalidState));
    p.register(ID, A, amt(100), account(0xB)).unwrap();
    assert_eq!(p.cancel_registration(&resource(2), ID, C), Err(MatchError::Unauthorized));
    assert_eq!(p.cancel_registration(&resource(3), ID, A), Err(MatchError::Unauthorized));
    assert_eq!(p.escrow_balance(), amt(200));
}

#[test]
fn escrow_tracks_owed_fees_across_matches() {
    let mut p = provider();
    p.register(1, C, amt(10), account(0xA)).unwrap();
    p.register(2, C, amt(30), account(0xA)).unwrap();
    p.register(2, A, amt(30), account(0xB)).unwrap();
    p.register(3, A, amt(5), account(0xB)).unwrap();
    p.register(3, C, amt(5), account(0xA)).unwrap();
    assert_eq!(p.escrow_balance(), amt(10 + 60 + 10));
    p.set_winner(&resource(2), 3, C).unwrap();
    assert_eq!(p.escrow_balance(), amt(70));
    p.cancel_registration(&resource(2), 2, A).unwrap();
    assert_eq!(p.escrow_balance(), amt(40));
    p.cancel_match(&resource(2), 1).unwrap();
    assert_eq!(p.escrow_balance(), amt(30));
    p.cancel_match(&resource(2), 2).unwrap();
    assert_eq!(p.escrow_balance(), amt(0));
    assert_eq!(p.get_match(3).unwrap().winner_id, C);
}

#[test]
fn large_fee_doubles_exactly() {
    let mut p = provider();
    let fee: u128 = u128::MAX / 2;
    p.register(ID, C, amt(fee), account(0xA)).unwrap();
    p.register(ID, A, amt(fee), account(0xB)).unwrap();
    let plan = p.set_winner(&resource(2), ID, A).unwrap();
    assert_eq!(plan, vec![Transfer::Pay { to: account(0xB), amount: amt(fee * 2) }]);
}
