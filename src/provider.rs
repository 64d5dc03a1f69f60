use vstd::prelude::*;
use crate::types::{
    AccountAddress, Amount, MatchError, MatchRecord, ResourceAddress, Transfer, record_wf, owed,
    doubled, is_open, is_full, is_decided,
};
use crate::store::{MatchStore, keys_unique, records_of, total_owed};

verus! {

/// The record kept under `k` in `m`, if any.
pub open spec fn record_at(m: Map<u128, MatchRecord>, k: u128) -> Option<MatchRecord> {
    if m.contains_key(k) {
        Some(m[k])
    } else {
        None
    }
}

/// The Open record that a first registration creates.
pub open spec fn opened(user_id: u128, amount: Amount, payer: AccountAddress) -> MatchRecord {
    MatchRecord {
        fee: amount,
        creator_id: user_id,
        creator_address: Some(payer),
        acceptor_id: 0,
        acceptor_address: None,
        winner_id: 0,
    }
}

/// `r` with `user_id`, paying from `payer`, as its acceptor.
pub open spec fn joined(r: MatchRecord, user_id: u128, payer: AccountAddress) -> MatchRecord {
    MatchRecord { acceptor_id: user_id, acceptor_address: Some(payer), ..r }
}

/// `r` with its acceptor cleared.
pub open spec fn left(r: MatchRecord) -> MatchRecord {
    MatchRecord { acceptor_id: 0, acceptor_address: None, ..r }
}

/// `r` decided in favour of `user_id`.
pub open spec fn decided(r: MatchRecord, user_id: u128) -> MatchRecord {
    MatchRecord { winner_id: user_id, ..r }
}

/// What `register` makes of the record `cur` kept under the match identifier:
/// the record kept afterwards, or why the registration is refused.
pub open spec fn register_step(
    cur: Option<MatchRecord>,
    user_id: u128,
    amount: Amount,
    payer: AccountAddress,
) -> Result<MatchRecord, MatchError> {
    match cur {
        None => Ok(opened(user_id, amount, payer)),
        Some(r) => if r.acceptor_id != 0 || r.winner_id != 0 {
            Err(MatchError::InvalidState)
        } else if r.fee != amount {
            Err(MatchError::ValidationFailure)
        } else if user_id == 0 || user_id == r.creator_id {
            Err(MatchError::ValidationFailure)
        } else {
            Ok(joined(r, user_id, payer))
        },
    }
}

/// What `set_winner` makes of the record `cur`: the Decided record, or why
/// it is refused.
pub open spec fn set_winner_step(authorized: bool, cur: Option<MatchRecord>, user_id: u128) -> Result<
    MatchRecord,
    MatchError,
> {
    if !authorized {
        Err(MatchError::Unauthorized)
    } else {
        match cur {
            None => Err(MatchError::NotFound),
            Some(r) => if r.acceptor_id == 0 || r.winner_id != 0 {
                Err(MatchError::InvalidState)
            } else if user_id == 0 || (user_id != r.creator_id && user_id != r.acceptor_id) {
                Err(MatchError::Unauthorized)
            } else {
                Ok(decided(r, user_id))
            },
        }
    }
}

/// Where the winner of a Decided record is paid.
pub open spec fn winner_address(r: MatchRecord) -> AccountAddress {
    if r.winner_id == r.acceptor_id {
        r.acceptor_address.unwrap()
    } else {
        r.creator_address.unwrap()
    }
}

/// What `cancel_match` makes of the record `cur`: the record it cancels, or
/// why it is refused.
pub open spec fn cancel_match_step(authorized: bool, cur: Option<MatchRecord>) -> Result<
    MatchRecord,
    MatchError,
> {
    if !authorized {
        Err(MatchError::Unauthorized)
    } else {
        match cur {
            None => Err(MatchError::NotFound),
            Some(r) => if r.winner_id != 0 {
                Err(MatchError::InvalidState)
            } else {
                Ok(r)
            },
        }
    }
}

/// The refunds of a cancelled match: the creator's fee, then the acceptor's
/// if there is one.
pub open spec fn refunds(r: MatchRecord) -> Seq<Transfer> {
    if r.acceptor_id != 0 {
        seq![
            Transfer::Pay { to: r.creator_address.unwrap(), amount: r.fee },
            Transfer::Pay { to: r.acceptor_address.unwrap(), amount: r.fee },
        ]
    } else {
        seq![Transfer::Pay { to: r.creator_address.unwrap(), amount: r.fee }]
    }
}

/// What `cancel_registration` makes of the record `cur`: the record with its
/// acceptor cleared, or why it is refused.
pub open spec fn cancel_registration_step(
    authorized: bool,
    cur: Option<MatchRecord>,
    user_id: u128,
) -> Result<MatchRecord, MatchError> {
    if !authorized {
        Err(MatchError::Unauthorized)
    } else {
        match cur {
            None => Err(MatchError::NotFound),
            Some(r) => if r.winner_id != 0 || r.acceptor_id == 0 {
                Err(MatchError::InvalidState)
            } else if user_id != r.acceptor_id {
                Err(MatchError::Unauthorized)
            } else {
                Ok(left(r))
            },
        }
    }
}

/// Tells whether two resource addresses are the same.
fn same_resource(a: &ResourceAddress, b: &ResourceAddress) -> (r: bool)
    ensures
        r == (*a == *b),
{
    let mut i: usize = 0;
    while i < 30
        invariant
            i <= 30,
            forall|j: int| 0 <= j < i ==> a.node_id@[j] == b.node_id@[j],
        decreases 30 - i,
    {
        if a.node_id[i] != b.node_id[i] {
            return false;
        }
        i = i + 1;
    }
    assert(a.node_id@ =~= b.node_id@);
    assert(a.node_id == b.node_id);
    true
}

/// The match provider: the escrow of all stakes in flight and the store of
/// match records. Privileged operations require the administrative badge.
pub struct MatchProvider {
    token_address: ResourceAddress,
    admin_badge: ResourceAddress,
    escrow: u128,
    matches: MatchStore,
}

impl MatchProvider {
    /// The records kept, by match identifier.
    pub closed spec fn records(&self) -> Map<u128, MatchRecord> {
        self.matches@
    }

    /// The balance of the escrow, in the asset's smallest units.
    pub closed spec fn escrow(&self) -> int {
        self.escrow as int
    }

    /// The asset accepted as stake.
    pub closed spec fn asset(&self) -> ResourceAddress {
        self.token_address
    }

    /// The badge that the privileged operations require.
    pub closed spec fn badge(&self) -> ResourceAddress {
        self.admin_badge
    }

    /// The invariants: each record is well formed, and the escrow holds
    /// exactly what is owed on the records.
    pub closed spec fn wf(&self) -> bool {
        &&& self.matches.wf()
        &&& forall|k: u128| #[trigger]
            self.matches@.contains_key(k) ==> record_wf(self.matches@[k])
        &&& self.escrow as int == self.matches.total()
    }

    /// A provider with no matches and an empty escrow, staking the asset
    /// `token_address`, whose privileged operations require `admin_badge`.
    pub fn new(token_address: ResourceAddress, admin_badge: ResourceAddress) -> (r: MatchProvider)
        ensures
            r.wf(),
            r.records() == Map::<u128, MatchRecord>::empty(),
            r.escrow() == 0,
            r.asset() == token_address,
            r.badge() == admin_badge,
    {
        MatchProvider { token_address, admin_badge, escrow: 0, matches: MatchStore::new() }
    }

    /// A provider holding the single match `match_id`, as persisted in
    /// `rec` (none if the match is absent), with an escrow holding exactly
    /// what is owed on it. `None` if the record breaks the record invariants
    /// or what it owes does not fit the escrow's counter.
    pub fn with_match(
        token_address: ResourceAddress,
        admin_badge: ResourceAddress,
        match_id: u128,
        rec: Option<MatchRecord>,
    ) -> (r: Option<MatchProvider>)
        ensures
            r is Some <==> match rec {
                None => true,
                Some(m) => record_wf(m) && owed(m) <= u128::MAX,
            },
            r matches Some(p) ==> {
                &&& p.wf()
                &&& p.asset() == token_address
                &&& p.badge() == admin_badge
                &&& p.records() == match rec {
                    None => Map::<u128, MatchRecord>::empty(),
                    Some(m) => Map::<u128, MatchRecord>::empty().insert(match_id, m),
                }
                &&& p.escrow() == match rec {
                    None => 0,
                    Some(m) => owed(m),
                }
            },
    {
        let mut p = MatchProvider::new(token_address, admin_badge);
        match rec {
            None => Some(p),
            Some(m) => {
                if !m.is_well_formed() {
                    return None;
                }
                let owed_now: u128 = if m.winner_id != 0 {
                    0
                } else if m.acceptor_id != 0 {
                    match m.fee.attos.checked_mul(2) {
                        Some(v) => v,
                        None => {
                            return None;
                        },
                    }
                } else {
                    m.fee.attos
                };
                p.escrow = owed_now;
                p.matches.put(match_id, m);
                Some(p)
            },
        }
    }

    /// Registers `user_id` for the match `match_id` with a stake of `amount`
    /// paid from `address`. The first registration opens the match with
    /// `amount` as its fee; the second, with the same fee and another
    /// non-zero identity, fills it (identity `0` stands for "unset" and
    /// cannot join).
    /// On success the stake is credited to the escrow and the one transfer
    /// returned pulls it from `address`; a refused call changes nothing.
    pub fn register(
        &mut self,
        match_id: u128,
        user_id: u128,
        amount: Amount,
        address: AccountAddress,
    ) -> (r: Result<Vec<Transfer>, MatchError>)
        requires
            old(self).wf(),
            register_step(record_at(old(self).records(), match_id), user_id, amount, address) is Ok
                ==> old(self).escrow() + amount.attos <= u128::MAX,
        ensures
            final(self).wf(),
            final(self).asset() == old(self).asset(),
            final(self).badge() == old(self).badge(),
            match register_step(record_at(old(self).records(), match_id), user_id, amount, address) {
                Ok(rec) => match r {
                    Ok(plan) => {
                        &&& plan@ == seq![Transfer::Pull { from: address, amount }]
                        &&& final(self).records() == old(self).records().insert(match_id, rec)
                        &&& final(self).escrow() == old(self).escrow() + amount.attos
                    },
                    Err(_) => false,
                },
                Err(e) => match r {
                    Ok(_) => false,
                    Err(e2) => e2 == e && *final(self) == *old(self),
                },
            },
    {
        let rec = match self.matches.get(match_id) {
            None => {
                MatchRecord {
                    fee: amount,
                    creator_id: user_id,
                    creator_address: Some(address),
                    acceptor_id: 0,
                    acceptor_address: None,
                    winner_id: 0,
                }
            },
            Some(cur) => {
                if cur.acceptor_id != 0 || cur.winner_id != 0 {
                    return Err(MatchError::InvalidState);
                }
                if cur.fee != amount {
                    return Err(MatchError::ValidationFailure);
                }
                if user_id == 0 || user_id == cur.creator_id {
                    return Err(MatchError::ValidationFailure);
                }
                MatchRecord { acceptor_id: user_id, acceptor_address: Some(address), ..cur }
            },
        };
        self.escrow = self.escrow + amount.attos;
        self.matches.put(match_id, rec);
        let mut plan: Vec<Transfer> = Vec::new();
        plan.push(Transfer::Pull { from: address, amount });
        proof {
            assert(plan@ =~= seq![Transfer::Pull { from: address, amount }]);
        }
        Ok(plan)
    }

    /// Declares `user_id` the winner of the Full match `match_id` and pays
    /// both stakes to the winner's address. Requires the administrative
    /// badge. The record is kept, in its Decided state.
    pub fn set_winner(&mut self, badge: &ResourceAddress, match_id: u128, user_id: u128) -> (r:
        Result<Vec<Transfer>, MatchError>)
        requires
            old(self).wf(),
        ensures
            final(self).wf(),
            final(self).asset() == old(self).asset(),
            final(self).badge() == old(self).badge(),
            match set_winner_step(
                *badge == old(self).badge(),
                record_at(old(self).records(), match_id),
                user_id,
            ) {
                Ok(rec) => match r {
                    Ok(plan) => {
                        &&& plan@ == seq![
                            Transfer::Pay { to: winner_address(rec), amount: doubled(rec.fee) },
                        ]
                        &&& doubled(rec.fee).attos == 2 * rec.fee.attos
                        &&& final(self).records() == old(self).records().insert(match_id, rec)
                        &&& final(self).escrow() == old(self).escrow() - 2 * rec.fee.attos
                    },
                    Err(_) => false,
                },
                Err(e) => match r {
                    Ok(_) => false,
                    Err(e2) => e2 == e && *final(self) == *old(self),
                },
            },
    {
        if !same_resource(badge, &self.admin_badge) {
            return Err(MatchError::Unauthorized);
        }
        let cur = match self.matches.get(match_id) {
            None => {
                return Err(MatchError::NotFound);
            },
            Some(cur) => cur,
        };
        if cur.acceptor_id == 0 || cur.winner_id != 0 {
            return Err(MatchError::InvalidState);
        }
        if user_id == 0 {
            return Err(MatchError::Unauthorized);
        }
        let to = if cur.acceptor_id == user_id {
            cur.acceptor_address
        } else if cur.creator_id == user_id {
            cur.creator_address
        } else {
            return Err(MatchError::Unauthorized);
        };
        let to = match to {
            Some(to) => to,
            None => {
                return Err(MatchError::ValidationFailure);
            },
        };
        proof {
            self.matches.lemma_total_covers(match_id);
        }
        let payout = Amount { attos: cur.fee.attos * 2 };
        self.escrow = self.escrow - payout.attos;
        self.matches.put(match_id, MatchRecord { winner_id: user_id, ..cur });
        let mut plan: Vec<Transfer> = Vec::new();
        plan.push(Transfer::Pay { to, amount: payout });
        proof {
            assert(plan@ =~= seq![Transfer::Pay { to, amount: payout }]);
        }
        Ok(plan)
    }

    /// Cancels the undecided match `match_id`: refunds the creator's fee, and
    /// the acceptor's if there is one, then removes the record. Requires the
    /// administrative badge.
    pub fn cancel_match(&mut self, badge: &ResourceAddress, match_id: u128) -> (r: Result<
        Vec<Transfer>,
        MatchError,
    >)
        requires
            old(self).wf(),
        ensures
            final(self).wf(),
            final(self).asset() == old(self).asset(),
            final(self).badge() == old(self).badge(),
            match cancel_match_step(*badge == old(self).badge(), record_at(old(self).records(), match_id)) {
                Ok(rec) => match r {
                    Ok(plan) => {
                        &&& plan@ == refunds(rec)
                        &&& final(self).records() == old(self).records().remove(match_id)
                        &&& final(self).escrow() == old(self).escrow() - owed(rec)
                    },
                    Err(_) => false,
                },
                Err(e) => match r {
                    Ok(_) => false,
                    Err(e2) => e2 == e && *final(self) == *old(self),
                },
            },
    {
        if !same_resource(badge, &self.admin_badge) {
            return Err(MatchError::Unauthorized);
        }
        let cur = match self.matches.get(match_id) {
            None => {
                return Err(MatchError::NotFound);
            },
            Some(cur) => cur,
        };
        if cur.winner_id != 0 {
            return Err(MatchError::InvalidState);
        }
        let creator = match cur.creator_address {
            Some(a) => a,
            None => {
                return Err(MatchError::ValidationFailure);
            },
        };
        let mut plan: Vec<Transfer> = Vec::new();
        plan.push(Transfer::Pay { to: creator, amount: cur.fee });
        let mut refunded: u128 = cur.fee.attos;
        proof {
            self.matches.lemma_total_covers(match_id);
        }
        if cur.acceptor_id != 0 {
            let acceptor = match cur.acceptor_address {
                Some(a) => a,
                None => {
                    return Err(MatchError::ValidationFailure);
                },
            };
            plan.push(Transfer::Pay { to: acceptor, amount: cur.fee });
            refunded = refunded + cur.fee.attos;
        }
        self.escrow = self.escrow - refunded;
        self.matches.delete(match_id);
        proof {
            assert(plan@ =~= refunds(cur));
        }
        Ok(plan)
    }

    /// Cancels the registration of the acceptor `user_id` in the undecided
    /// match `match_id`: refunds the acceptor's fee and returns the match to
    /// Open. Requires the administrative badge.
    pub fn cancel_registration(&mut self, badge: &ResourceAddress, match_id: u128, user_id: u128) -> (r:
        Result<Vec<Transfer>, MatchError>)
        requires
            old(self).wf(),
        ensures
            final(self).wf(),
            final(self).asset() == old(self).asset(),
            final(self).badge() == old(self).badge(),
            match cancel_registration_step(
                *badge == old(self).badge(),
                record_at(old(self).records(), match_id),
                user_id,
            ) {
                Ok(rec) => match r {
                    Ok(plan) => {
                        &&& plan@ == seq![
                            Transfer::Pay {
                                to: old(self).records()[match_id].acceptor_address.unwrap(),
                                amount: rec.fee,
                            },
                        ]
                        &&& final(self).records() == old(self).records().insert(match_id, rec)
                        &&& final(self).escrow() == old(self).escrow() - rec.fee.attos
                    },
                    Err(_) => false,
                },
                Err(e) => match r {
                    Ok(_) => false,
                    Err(e2) => e2 == e && *final(self) == *old(self),
                },
            },
    {
        if !same_resource(badge, &self.admin_badge) {
            return Err(MatchError::Unauthorized);
        }
        let cur = match self.matches.get(match_id) {
            None => {
                return Err(MatchError::NotFound);
            },
            Some(cur) => cur,
        };
        if cur.winner_id != 0 || cur.acceptor_id == 0 {
            return Err(MatchError::InvalidState);
        }
        if cur.acceptor_id != user_id {
            return Err(MatchError::Unauthorized);
        }
        let to = match cur.acceptor_address {
            Some(a) => a,
            None => {
                return Err(MatchError::ValidationFailure);
            },
        };
        proof {
            self.matches.lemma_total_covers(match_id);
        }
        self.escrow = self.escrow - cur.fee.attos;
        self.matches.put(match_id, MatchRecord { acceptor_id: 0, acceptor_address: None, ..cur });
        let mut plan: Vec<Transfer> = Vec::new();
        plan.push(Transfer::Pay { to, amount: cur.fee });
        proof {
            assert(plan@ =~= seq![Transfer::Pay { to, amount: cur.fee }]);
        }
        Ok(plan)
    }

    /// The balance of the escrow.
    pub fn escrow_balance(&self) -> (r: Amount)
        ensures
            r.attos == self.escrow(),
    {
        Amount { attos: self.escrow }
    }

    /// The record of the match `match_id`, if there is one.
    pub fn get_match(&self, match_id: u128) -> (r: Option<MatchRecord>)
        requires
            self.wf(),
        ensures
            r == record_at(self.records(), match_id),
            r matches Some(m) ==> record_wf(m),
    {
        self.matches.get(match_id)
    }

    /// The asset accepted as stake.
    pub fn token_address(&self) -> (r: ResourceAddress)
        ensures
            r == self.asset(),
    {
        self.token_address
    }

    /// The escrow holds exactly what is owed: listing each record kept once,
    /// the fees owed on them (one fee while Open, two while Full, none once
    /// Decided) add up to the escrow's balance. Every operation keeps this.
    pub proof fn lemma_escrow_balanced(&self)
        requires
            self.wf(),
        ensures
            exists|s: Seq<(u128, MatchRecord)>|
                {
                    &&& keys_unique(s)
                    &&& records_of(s) == self.records()
                    &&& self.escrow() == total_owed(s)
                },
    {
        self.matches.lemma_total_is_sum();
        let s = self.matches.entries();
        assert(keys_unique(s) && records_of(s) == self.records() && self.escrow() == total_owed(s));
    }

    /// Every record kept satisfies the record invariants.
    pub proof fn lemma_records_wf(&self)
        requires
            self.wf(),
        ensures
            forall|k: u128| #[trigger]
                self.records().contains_key(k) ==> record_wf(self.records()[k]),
    {
    }

} // impl MatchProvider

/// Registering for a match that is Full or Decided is refused as the lobby
/// is full; joining an Open match with another fee, or as its own creator,
/// is refused as invalid. A refused registration changes nothing.
pub proof fn lemma_register_refusals(
    r: MatchRecord,
    user_id: u128,
    amount: Amount,
    payer: AccountAddress,
)
    requires
        record_wf(r),
    ensures
        !is_open(r) ==> register_step(Some(r), user_id, amount, payer) == Err::<
            MatchRecord,
            MatchError,
        >(MatchError::InvalidState),
        is_open(r) && amount != r.fee ==> register_step(Some(r), user_id, amount, payer) == Err::<
            MatchRecord,
            MatchError,
        >(MatchError::ValidationFailure),
        is_open(r) && user_id == r.creator_id ==> register_step(Some(r), user_id, amount, payer)
            == Err::<MatchRecord, MatchError>(MatchError::ValidationFailure),
{
}

/// Joining an Open match and then cancelling that registration gives the
/// Open record back, and the one fee credited is the one fee refunded.
pub proof fn lemma_join_then_cancel(r: MatchRecord, user_id: u128, payer: AccountAddress)
    requires
        record_wf(r),
        is_open(r),
        user_id != 0,
        user_id != r.creator_id,
    ensures
        register_step(Some(r), user_id, r.fee, payer) == Ok::<MatchRecord, MatchError>(
            joined(r, user_id, payer),
        ),
        owed(joined(r, user_id, payer)) == owed(r) + r.fee.attos,
        cancel_registration_step(true, Some(joined(r, user_id, payer)), user_id) == Ok::<
            MatchRecord,
            MatchError,
        >(r),
{
    assert(left(joined(r, user_id, payer)) == r);
}

/// Two registrations with the same fee by two distinct identities take a
/// match from Absent to Open to Full, and a third registration is refused as
/// the lobby is full. (Identity `0` means "unset" and cannot join.)
pub proof fn lemma_two_registrations_fill(
    creator: u128,
    acceptor: u128,
    third: u128,
    fee: Amount,
    third_amount: Amount,
    creator_address: AccountAddress,
    acceptor_address: AccountAddress,
    third_address: AccountAddress,
)
    requires
        acceptor != 0,
        creator != acceptor,
    ensures
        register_step(None, creator, fee, creator_address) == Ok::<MatchRecord, MatchError>(
            opened(creator, fee, creator_address),
        ),
        is_open(opened(creator, fee, creator_address)),
        register_step(Some(opened(creator, fee, creator_address)), acceptor, fee, acceptor_address)
            == Ok::<MatchRecord, MatchError>(
            joined(opened(creator, fee, creator_address), acceptor, acceptor_address),
        ),
        is_full(joined(opened(creator, fee, creator_address), acceptor, acceptor_address)),
        register_step(
            Some(joined(opened(creator, fee, creator_address), acceptor, acceptor_address)),
            third,
            third_amount,
            third_address,
        ) == Err::<MatchRecord, MatchError>(MatchError::InvalidState),
{
}

/// Opening a match, filling it and declaring the acceptor the winner pays
/// exactly twice the fee to the acceptor's address, records the acceptor as
/// winner, and leaves nothing owed on the match.
pub proof fn lemma_round_trip(
    creator: u128,
    acceptor: u128,
    fee: Amount,
    creator_address: AccountAddress,
    acceptor_address: AccountAddress,
)
    requires
        acceptor != 0,
        creator != acceptor,
    ensures
        ({
            let full = joined(opened(creator, fee, creator_address), acceptor, acceptor_address);
            &&& owed(full) == 2 * fee.attos
            &&& set_winner_step(true, Some(full), acceptor) == Ok::<MatchRecord, MatchError>(
                decided(full, acceptor),
            )
            &&& decided(full, acceptor).winner_id == acceptor
            &&& is_decided(decided(full, acceptor))
            &&& winner_address(decided(full, acceptor)) == acceptor_address
            &&& owed(decided(full, acceptor)) == 0
        }),
{
}

/// Cancelling an Open match refunds exactly its fee to the creator (the
/// record is then removed); cancelling a Decided match is refused.
pub proof fn lemma_cancel_open_or_decided(r: MatchRecord)
    requires
        record_wf(r),
    ensures
        is_open(r) ==> cancel_match_step(true, Some(r)) == Ok::<MatchRecord, MatchError>(r)
            && refunds(r) == seq![Transfer::Pay { to: r.creator_address.unwrap(), amount: r.fee }]
            && owed(r) == r.fee.attos,
        is_decided(r) ==> cancel_match_step(true, Some(r)) == Err::<MatchRecord, MatchError>(
            MatchError::InvalidState,
        ),
{
}

/// Cancelling the acceptor's registration in a Full match returns it to
/// Open, refunding one fee, after which another identity (not the creator)
/// can register with the same fee and fill it again.
pub proof fn lemma_cancel_registration_reopens(
    r: MatchRecord,
    newcomer: u128,
    newcomer_address: AccountAddress,
)
    requires
        record_wf(r),
        is_full(r),
        newcomer != 0,
        newcomer != r.creator_id,
    ensures
        cancel_registration_step(true, Some(r), r.acceptor_id) == Ok::<MatchRecord, MatchError>(
            left(r),
        ),
        is_open(left(r)),
        left(r).acceptor_id == 0,
        owed(r) - owed(left(r)) == r.fee.attos,
        register_step(Some(left(r)), newcomer, r.fee, newcomer_address) == Ok::<
            MatchRecord,
            MatchError,
        >(joined(left(r), newcomer, newcomer_address)),
        is_full(joined(left(r), newcomer, newcomer_address)),
{
}

} // verus!
