//! Laws of the ledger engine, proved against the spec-level transition
//! relation in [`crate::processor`].

use vstd::prelude::*;
use crate::types::{StateModel, Transaction, TransactionType};
use crate::processor::{
    apply_spec, chargeback_allowed, dispute_allowed, dispute_spec, lemma_apply_wf,
    resolve_allowed, resolve_spec,
};

verus! {

/// The state after applying a whole sequence of records, in input order.
pub open spec fn apply_all(s: StateModel, txs: Seq<Transaction>) -> StateModel
    decreases txs.len(),
{
    if txs.len() == 0 {
        s
    } else {
        apply_all(apply_spec(s, txs[0]), txs.subrange(1, txs.len() as int))
    }
}

/// Over any sequence of deposits, a client that starts with nothing held
/// keeps `held == 0` and `total == available`. Since the hypotheses hold
/// again at every intermediate state, the property holds after every step.
pub proof fn lemma_deposit_sequence_held_zero(s: StateModel, txs: Seq<Transaction>, cid: u16)
    requires
        s.wf(),
        forall|i: int|
            0 <= i < txs.len() ==> (#[trigger] txs[i]).transaction_type
                == TransactionType::Deposit,
        s.clients.dom().contains(cid) ==> s.clients[cid].held == 0,
    ensures
        apply_all(s, txs).wf(),
        apply_all(s, txs).clients.dom().contains(cid) ==> {
            &&& apply_all(s, txs).clients[cid].held == 0
            &&& apply_all(s, txs).clients[cid].total == apply_all(s, txs).clients[cid].available
        },
    decreases txs.len(),
{
    if txs.len() == 0 {
    } else {
        let s1 = apply_spec(s, txs[0]);
        lemma_apply_wf(s, txs[0]);
        lemma_deposit_sequence_held_zero(s1, txs.subrange(1, txs.len() as int), cid);
    }
}

/// A deposit or withdrawal whose transaction id duplicates a stored one is
/// a no-op: the whole state, balances included, is unchanged.
pub proof fn lemma_duplicate_id_no_op(s: StateModel, t: Transaction)
    requires
        s.transfers.dom().contains(t.id),
        t.transaction_type == TransactionType::Deposit || t.transaction_type
            == TransactionType::Withdrawal,
    ensures
        apply_spec(s, t) == s,
{
}

/// A withdrawal exceeding the client's available funds is a no-op.
pub proof fn lemma_overdraw_no_op(s: StateModel, t: Transaction)
    requires
        t.transaction_type == TransactionType::Withdrawal,
        s.clients.dom().contains(t.client_id),
        s.clients[t.client_id].available < t.amount,
    ensures
        apply_spec(s, t) == s,
{
}

/// A withdrawal for a client with no account is a no-op: in particular,
/// no account is created for the client.
pub proof fn lemma_withdrawal_unknown_client_no_op(s: StateModel, t: Transaction)
    requires
        t.transaction_type == TransactionType::Withdrawal,
        !s.clients.dom().contains(t.client_id),
    ensures
        apply_spec(s, t) == s,
        !apply_spec(s, t).clients.dom().contains(t.client_id),
{
}

/// A dispute that references no stored transaction, or one of another
/// client, or one already disputed, or a withdrawal, is a no-op.
pub proof fn lemma_invalid_dispute_no_op(s: StateModel, t: Transaction)
    requires
        t.transaction_type == TransactionType::Dispute,
        !s.transfers.dom().contains(t.id) || s.transfers[t.id].client_id != t.client_id
            || s.transfers[t.id].disputed || s.transfers[t.id].transaction_type
            == TransactionType::Withdrawal,
    ensures
        apply_spec(s, t) == s,
{
}

/// Every transaction of every kind on a locked client's account is a
/// no-op: the whole state is unchanged.
pub proof fn lemma_locked_client_frozen(s: StateModel, t: Transaction)
    requires
        s.wf(),
        s.clients.dom().contains(t.client_id),
        s.clients[t.client_id].locked,
    ensures
        apply_spec(s, t) == s,
{
}

/// A stored transaction is never overwritten or deleted: whatever record
/// comes next, every stored id stays stored, and only the disputed flag of
/// its record can change.
pub proof fn lemma_stored_records_persist(s: StateModel, t: Transaction)
    ensures
        forall|tid: u32| #[trigger] s.transfers.dom().contains(tid) ==> {
            &&& apply_spec(s, t).transfers.dom().contains(tid)
            &&& apply_spec(s, t).transfers[tid].id == s.transfers[tid].id
            &&& apply_spec(s, t).transfers[tid].client_id == s.transfers[tid].client_id
            &&& apply_spec(s, t).transfers[tid].amount == s.transfers[tid].amount
            &&& apply_spec(s, t).transfers[tid].transaction_type
                == s.transfers[tid].transaction_type
        },
{
}

/// An account is never deleted, and once locked it stays locked.
pub proof fn lemma_lock_is_permanent(s: StateModel, t: Transaction)
    ensures
        forall|cid: u16| #[trigger] s.clients.dom().contains(cid) ==> {
            &&& apply_spec(s, t).clients.dom().contains(cid)
            &&& (s.clients[cid].locked ==> apply_spec(s, t).clients[cid].locked)
        },
{
}

/// A dispute followed by a resolve of the same transaction restores the
/// state exactly: balances return to their pre-dispute values and the
/// stored record ends not disputed.
pub proof fn lemma_dispute_resolve_round_trip(s: StateModel, d: Transaction, r: Transaction)
    requires
        s.wf(),
        d.transaction_type == TransactionType::Dispute,
        r.transaction_type == TransactionType::Resolve,
        r.id == d.id,
        r.client_id == d.client_id,
        dispute_allowed(s, d),
    ensures
        resolve_allowed(apply_spec(s, d), r),
        apply_spec(apply_spec(s, d), r) == s,
{
    let s1 = dispute_spec(s, d);
    let tt = s.transfers[d.id];
    assert(s.clients.dom().contains(tt.client_id));
    let s2 = resolve_spec(s1, r);
    assert(s2.transfers =~= s.transfers);
    assert(s2.clients =~= s.clients);
    assert(s2 =~= s);
}

/// A dispute followed by a chargeback of the same transaction locks the
/// account, removes the disputed amount from `held` and `total`, and
/// leaves `available` as the dispute left it. Afterwards, by
/// [`lemma_locked_client_frozen`], every later transaction for the client
/// is a no-op.
pub proof fn lemma_dispute_chargeback(s: StateModel, d: Transaction, cb: Transaction)
    requires
        s.wf(),
        d.transaction_type == TransactionType::Dispute,
        cb.transaction_type == TransactionType::Chargeback,
        cb.id == d.id,
        cb.client_id == d.client_id,
        dispute_allowed(s, d),
    ensures
        chargeback_allowed(apply_spec(s, d), cb),
        apply_spec(apply_spec(s, d), cb).clients.dom().contains(d.client_id),
        apply_spec(apply_spec(s, d), cb).clients[d.client_id].locked,
        apply_spec(apply_spec(s, d), cb).clients[d.client_id].held == s.clients[d.client_id].held,
        apply_spec(apply_spec(s, d), cb).clients[d.client_id].available
            == s.clients[d.client_id].available - s.transfers[d.id].amount,
        apply_spec(apply_spec(s, d), cb).clients[d.client_id].total == s.clients[d.client_id].total
            - s.transfers[d.id].amount,
{
    let s1 = dispute_spec(s, d);
    let tt = s.transfers[d.id];
    assert(s.clients.dom().contains(tt.client_id));
}

} // verus!
