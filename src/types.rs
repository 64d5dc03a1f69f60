use vstd::prelude::*;

verus! {

/// A quantity of the staked asset, counted in its smallest units
/// (one unit of the asset is 10^18 of them).
#[derive(Clone, Copy, Debug, PartialEq, Eq, Structural)]
pub struct Amount {
    pub attos: u128,
}

/// The address of an account that pays stakes in and receives payouts.
#[derive(Clone, Copy, Debug, PartialEq, Eq)]
pub struct AccountAddress {
    pub node_id: [u8; 30],
}

/// The address of a resource: the staked asset, or the administrative badge.
#[derive(Clone, Copy, Debug, PartialEq, Eq)]
pub struct ResourceAddress {
    pub node_id: [u8; 30],
}

/// One match, kept under its match identifier. Identity `0` means "unset".
#[derive(Clone, Copy, Debug, PartialEq, Eq)]
pub struct MatchRecord {
    pub fee: Amount,
    pub creator_id: u128,
    pub creator_address: Option<AccountAddress>,
    pub acceptor_id: u128,
    pub acceptor_address: Option<AccountAddress>,
    pub winner_id: u128,
}

/// Why an entry point refused to act. A refused call changes nothing.
#[derive(Clone, Copy, Debug, PartialEq, Eq, Structural)]
pub enum MatchError {
    /// The match does not exist.
    NotFound,
    /// The match is not in the state the operation needs.
    InvalidState,
    /// The caller lacks the administrative badge, or names an identity
    /// that is not a party to the match.
    Unauthorized,
    /// Stake mismatch, self-matching, a reserved identity or a missing
    /// payout address.
    ValidationFailure,
    /// An account could not pay its stake in.
    InsufficientFunds,
}

/// A movement of the staked asset that an accepted operation asks for.
#[derive(Clone, Copy, Debug, PartialEq, Eq)]
pub enum Transfer {
    /// Withdraw `amount` from the account at `from` into the escrow.
    Pull { from: AccountAddress, amount: Amount },
    /// Pay `amount` out of the escrow to the account at `to`.
    Pay { to: AccountAddress, amount: Amount },
}

/// A record is Open: a creator, no acceptor, no winner.
pub open spec fn is_open(r: MatchRecord) -> bool {
    r.acceptor_id == 0 && r.winner_id == 0
}

/// A record is Full: both parties registered, no winner yet.
pub open spec fn is_full(r: MatchRecord) -> bool {
    r.acceptor_id != 0 && r.winner_id == 0
}

/// A record is Decided: a winner was declared and paid.
pub open spec fn is_decided(r: MatchRecord) -> bool {
    r.winner_id != 0
}

/// The invariants of a single record.
pub open spec fn record_wf(r: MatchRecord) -> bool {
    &&& r.creator_address is Some
    &&& (r.acceptor_id == 0 <==> r.acceptor_address is None)
    &&& (r.acceptor_id != 0 ==> r.acceptor_id != r.creator_id)
    &&& (r.winner_id != 0 ==> r.acceptor_id != 0)
    &&& (r.winner_id != 0 ==> r.winner_id == r.creator_id || r.winner_id == r.acceptor_id)
}

impl MatchRecord {
    /// Tells whether the record satisfies the record invariants.
    pub fn is_well_formed(&self) -> (r: bool)
        ensures
            r == record_wf(*self),
    {
        self.creator_address.is_some() && (self.acceptor_id == 0)
            == self.acceptor_address.is_none() && (self.acceptor_id == 0 || self.acceptor_id
            != self.creator_id) && (
        self.winner_id == 0 || (self.acceptor_id != 0 && (self.winner_id == self.creator_id
            || self.winner_id == self.acceptor_id)))
    }
}

/// What the escrow owes on account of a record: one fee while Open, two
/// while Full, nothing once Decided (the winner was paid).
pub open spec fn owed(r: MatchRecord) -> int {
    if r.winner_id != 0 {
        0
    } else if r.acceptor_id != 0 {
        2 * r.fee.attos
    } else {
        r.fee.attos as int
    }
}

/// The amount `2 * a`, the payout of a decided match.
pub open spec fn doubled(a: Amount) -> Amount {
    Amount { attos: (2 * a.attos) as u128 }
}

} // verus!
