//! The ledger engine's transition function: one entry point that applies
//! a transaction record to the engine state under the validity rules of
//! its kind. Each rule is first stated as a spec-level transition on the
//! state model; the executable code is proved to implement it exactly.

use vstd::prelude::*;
use crate::types::{account_ok, Client, State, StateModel, Transaction, TransactionType, BALANCE_CAP};

verus! {

broadcast use vstd::std_specs::hash::group_hash_axioms;

/// The account a deposit starts from: the existing one, or a fresh
/// zero-balance account for a client seen for the first time.
pub open spec fn deposit_base(s: StateModel, cid: u16) -> Client {
    if s.clients.dom().contains(cid) {
        s.clients[cid]
    } else {
        Client { id: cid, locked: false, available: 0, held: 0, total: 0 }
    }
}

/// A deposit is applied iff its transaction id is fresh, the account (if it
/// already exists) is not locked, and the new balances stay within the cap.
pub open spec fn deposit_allowed(s: StateModel, t: Transaction) -> bool {
    &&& !s.transfers.dom().contains(t.id)
    &&& !deposit_base(s, t.client_id).locked
    &&& deposit_base(s, t.client_id).available + t.amount <= BALANCE_CAP
    &&& deposit_base(s, t.client_id).total + t.amount <= BALANCE_CAP
}

/// The deposit rule: add the amount to `available` and `total` of the
/// (possibly fresh) account and store the record undisputed; reject as a
/// no-op otherwise.
pub open spec fn deposit_spec(s: StateModel, t: Transaction) -> StateModel {
    if deposit_allowed(s, t) {
        let c = deposit_base(s, t.client_id);
        let c2 = Client {
            id: c.id,
            locked: c.locked,
            available: (c.available + t.amount) as i128,
            held: c.held,
            total: (c.total + t.amount) as i128,
        };
        StateModel {
            transfers: s.transfers.insert(
                t.id,
                Transaction {
                    transaction_type: t.transaction_type,
                    client_id: t.client_id,
                    id: t.id,
                    amount: t.amount,
                    disputed: false,
                },
            ),
            clients: s.clients.insert(t.client_id, c2),
        }
    } else {
        s
    }
}

/// The deposit rule preserves the engine invariant.
pub proof fn lemma_deposit_wf(s: StateModel, t: Transaction)
    requires
        s.wf(),
        t.transaction_type == TransactionType::Deposit,
    ensures
        deposit_spec(s, t).wf(),
{
    if deposit_allowed(s, t) {
        let s2 = deposit_spec(s, t);
        assert forall|cid: u16| #[trigger] s2.clients.dom().contains(cid) implies {
            &&& s2.clients[cid].id == cid
            &&& account_ok(s2.clients[cid])
        } by {
            if cid != t.client_id {
                assert(s.clients.dom().contains(cid));
            }
        }
        assert forall|tid: u32| #[trigger] s2.transfers.dom().contains(tid) implies {
            let tr = s2.transfers[tid];
            &&& tr.id == tid
            &&& s2.clients.dom().contains(tr.client_id)
            &&& (tr.transaction_type == TransactionType::Deposit
                || tr.transaction_type == TransactionType::Withdrawal)
            &&& (tr.disputed ==> tr.transaction_type == TransactionType::Deposit)
        } by {
            if tid != t.id {
                assert(s.transfers.dom().contains(tid));
            }
        }
    }
}

fn process_deposit(state: State, transaction: Transaction) -> (r: State)
    requires
        state@.wf(),
        transaction.transaction_type == TransactionType::Deposit,
    ensures
        r@ == deposit_spec(state@, transaction),
{
    let ghost s0 = state@;
    let mut state = state;
    if state.transfers.contains_key(&transaction.id) {
        return state;
    }

    let client = match state.clients.get(&transaction.client_id) {
        Some(client) => *client,
        None => Client::new(transaction.client_id),
    };

    if client.locked {
        return state;
    }

    let amount = transaction.amount as i128;
    if client.available > BALANCE_CAP - amount || client.total > BALANCE_CAP - amount {
        return state;
    }

    let updated = Client {
        id: client.id,
        locked: client.locked,
        available: client.available + amount,
        held: client.held,
        total: client.total + amount,
    };
    state.clients.insert(transaction.client_id, updated);

    let stored = Transaction {
        transaction_type: transaction.transaction_type,
        client_id: transaction.client_id,
        id: transaction.id,
        amount: transaction.amount,
        disputed: false,
    };
    state.transfers.insert(transaction.id, stored);

    proof {
        assert(state@ =~= deposit_spec(s0, transaction));
    }
    state
}

/// A withdrawal is applied iff its transaction id is fresh, the client has
/// an account, the account is not locked, and `available` covers the amount.
pub open spec fn withdrawal_allowed(s: StateModel, t: Transaction) -> bool {
    &&& !s.transfers.dom().contains(t.id)
    &&& s.clients.dom().contains(t.client_id)
    &&& !s.clients[t.client_id].locked
    &&& s.clients[t.client_id].available >= t.amount
}

/// The withdrawal rule: subtract the amount from `available` and `total`
/// and store the record undisputed; reject as a no-op otherwise.
pub open spec fn withdrawal_spec(s: StateModel, t: Transaction) -> StateModel {
    if withdrawal_allowed(s, t) {
        let c = s.clients[t.client_id];
        let c2 = Client {
            id: c.id,
            locked: c.locked,
            available: (c.available - t.amount) as i128,
            held: c.held,
            total: (c.total - t.amount) as i128,
        };
        StateModel {
            transfers: s.transfers.insert(
                t.id,
                Transaction {
                    transaction_type: t.transaction_type,
                    client_id: t.client_id,
                    id: t.id,
                    amount: t.amount,
                    disputed: false,
                },
            ),
            clients: s.clients.insert(t.client_id, c2),
        }
    } else {
        s
    }
}

/// The withdrawal rule preserves the engine invariant.
pub proof fn lemma_withdrawal_wf(s: StateModel, t: Transaction)
    requires
        s.wf(),
        t.transaction_type == TransactionType::Withdrawal,
    ensures
        withdrawal_spec(s, t).wf(),
{
    if withdrawal_allowed(s, t) {
        let s2 = withdrawal_spec(s, t);
        assert forall|cid: u16| #[trigger] s2.clients.dom().contains(cid) implies {
            &&& s2.clients[cid].id == cid
            &&& account_ok(s2.clients[cid])
        } by {
            if cid != t.client_id {
                assert(s.clients.dom().contains(cid));
            }
        }
        assert forall|tid: u32| #[trigger] s2.transfers.dom().contains(tid) implies {
            let tr = s2.transfers[tid];
            &&& tr.id == tid
            &&& s2.clients.dom().contains(tr.client_id)
            &&& (tr.transaction_type == TransactionType::Deposit
                || tr.transaction_type == TransactionType::Withdrawal)
            &&& (tr.disputed ==> tr.transaction_type == TransactionType::Deposit)
        } by {
            if tid != t.id {
                assert(s.transfers.dom().contains(tid));
            }
        }
    }
}

fn process_withdrawal(state: State, transaction: Transaction) -> (r: State)
    requires
        state@.wf(),
        transaction.transaction_type == TransactionType::Withdrawal,
    ensures
        r@ == withdrawal_spec(state@, transaction),
{
    let ghost s0 = state@;
    let mut state = state;
    if state.transfers.contains_key(&transaction.id) {
        return state;
    }

    let client = match state.clients.get(&transaction.client_id) {
        Some(client) => *client,
        None => {
            return state;
        },
    };

    let amount = transaction.amount as i128;
    if client.locked || client.available < amount {
        return state;
    }

    let updated = Client {
        id: client.id,
        locked: client.locked,
        available: client.available - amount,
        held: client.held,
        total: client.total - amount,
    };
    state.clients.insert(transaction.client_id, updated);

    let stored = Transaction {
        transaction_type: transaction.transaction_type,
        client_id: transaction.client_id,
        id: transaction.id,
        amount: transaction.amount,
        disputed: false,
    };
    state.transfers.insert(transaction.id, stored);

    proof {
        assert(state@ =~= withdrawal_spec(s0, transaction));
    }
    state
}

/// A dispute is applied iff it references a stored, not yet disputed
/// deposit of the same client whose account is not locked, and the new
/// balances stay within the cap.
pub open spec fn dispute_allowed(s: StateModel, t: Transaction) -> bool {
    &&& s.transfers.dom().contains(t.id)
    &&& {
        let tt = s.transfers[t.id];
        let c = s.clients[tt.client_id];
        &&& !tt.disputed
        &&& tt.transaction_type == TransactionType::Deposit
        &&& tt.client_id == t.client_id
        &&& !c.locked
        &&& c.held + tt.amount <= BALANCE_CAP
        &&& c.available - tt.amount >= -BALANCE_CAP
    }
}

/// The dispute rule: mark the referenced deposit disputed and move its
/// amount from `available` to `held` (`total` is conserved); reject as a
/// no-op otherwise.
pub open spec fn dispute_spec(s: StateModel, t: Transaction) -> StateModel {
    if dispute_allowed(s, t) {
        let tt = s.transfers[t.id];
        let c = s.clients[tt.client_id];
        let c2 = Client {
            id: c.id,
            locked: c.locked,
            available: (c.available - tt.amount) as i128,
            held: (c.held + tt.amount) as i128,
            total: c.total,
        };
        StateModel {
            transfers: s.transfers.insert(
                t.id,
                Transaction {
                    transaction_type: tt.transaction_type,
                    client_id: tt.client_id,
                    id: tt.id,
                    amount: tt.amount,
                    disputed: true,
                },
            ),
            clients: s.clients.insert(tt.client_id, c2),
        }
    } else {
        s
    }
}

/// The dispute rule preserves the engine invariant.
pub proof fn lemma_dispute_wf(s: StateModel, t: Transaction)
    requires
        s.wf(),
    ensures
        dispute_spec(s, t).wf(),
{
    if dispute_allowed(s, t) {
        let s2 = dispute_spec(s, t);
        let tt = s.transfers[t.id];
        assert forall|cid: u16| #[trigger] s2.clients.dom().contains(cid) implies {
            &&& s2.clients[cid].id == cid
            &&& account_ok(s2.clients[cid])
        } by {
            if cid != tt.client_id {
                assert(s.clients.dom().contains(cid));
            }
        }
        assert forall|tid: u32| #[trigger] s2.transfers.dom().contains(tid) implies {
            let tr = s2.transfers[tid];
            &&& tr.id == tid
            &&& s2.clients.dom().contains(tr.client_id)
            &&& (tr.transaction_type == TransactionType::Deposit
                || tr.transaction_type == TransactionType::Withdrawal)
            &&& (tr.disputed ==> tr.transaction_type == TransactionType::Deposit)
        } by {
            if tid != t.id {
                assert(s.transfers.dom().contains(tid));
            }
        }
    }
}

fn process_dispute(state: State, transaction: Transaction) -> (r: State)
    requires
        state@.wf(),
    ensures
        r@ == dispute_spec(state@, transaction),
{
    let ghost s0 = state@;
    let mut state = state;
    let target = match state.transfers.get(&transaction.id) {
        Some(tx) => *tx,
        None => {
            return state;
        },
    };

    if target.disputed
        || !matches!(target.transaction_type, TransactionType::Deposit)
        || target.client_id != transaction.client_id
    {
        return state;
    }

    proof {
        assert(s0.clients.dom().contains(target.client_id));
    }
    let client = *state.clients.get(&target.client_id).unwrap();

    let amount = target.amount as i128;
    if client.locked || client.held > BALANCE_CAP - amount
        || client.available - amount < -BALANCE_CAP {
        return state;
    }

    let updated = Client {
        id: client.id,
        locked: client.locked,
        available: client.available - amount,
        held: client.held + amount,
        total: client.total,
    };
    state.clients.insert(target.client_id, updated);

    let marked = Transaction {
        transaction_type: target.transaction_type,
        client_id: target.client_id,
        id: target.id,
        amount: target.amount,
        disputed: true,
    };
    state.transfers.insert(transaction.id, marked);

    proof {
        assert(state@ =~= dispute_spec(s0, transaction));
    }
    state
}

/// A resolve is applied iff it references a stored, currently disputed
/// record of the same client whose account is not locked, `held` covers
/// the disputed amount, and `available` stays within the cap.
pub open spec fn resolve_allowed(s: StateModel, t: Transaction) -> bool {
    &&& s.transfers.dom().contains(t.id)
    &&& {
        let tt = s.transfers[t.id];
        let c = s.clients[tt.client_id];
        &&& tt.disputed
        &&& tt.client_id == t.client_id
        &&& !c.locked
        &&& c.held >= tt.amount
        &&& c.available + tt.amount <= BALANCE_CAP
    }
}

/// The resolve rule: clear the disputed flag and move the disputed amount
/// back from `held` to `available` (`total` is conserved); reject as a
/// no-op otherwise.
pub open spec fn resolve_spec(s: StateModel, t: Transaction) -> StateModel {
    if resolve_allowed(s, t) {
        let tt = s.transfers[t.id];
        let c = s.clients[tt.client_id];
        let c2 = Client {
            id: c.id,
            locked: c.locked,
            available: (c.available + tt.amount) as i128,
            held: (c.held - tt.amount) as i128,
            total: c.total,
        };
        StateModel {
            transfers: s.transfers.insert(
                t.id,
                Transaction {
                    transaction_type: tt.transaction_type,
                    client_id: tt.client_id,
                    id: tt.id,
                    amount: tt.amount,
                    disputed: false,
                },
            ),
            clients: s.clients.insert(tt.client_id, c2),
        }
    } else {
        s
    }
}

/// The resolve rule preserves the engine invariant.
pub proof fn lemma_resolve_wf(s: StateModel, t: Transaction)
    requires
        s.wf(),
    ensures
        resolve_spec(s, t).wf(),
{
    if resolve_allowed(s, t) {
        let s2 = resolve_spec(s, t);
        let tt = s.transfers[t.id];
        assert forall|cid: u16| #[trigger] s2.clients.dom().contains(cid) implies {
            &&& s2.clients[cid].id == cid
            &&& account_ok(s2.clients[cid])
        } by {
            if cid != tt.client_id {
                assert(s.clients.dom().contains(cid));
            }
        }
        assert forall|tid: u32| #[trigger] s2.transfers.dom().contains(tid) implies {
            let tr = s2.transfers[tid];
            &&& tr.id == tid
            &&& s2.clients.dom().contains(tr.client_id)
            &&& (tr.transaction_type == TransactionType::Deposit
                || tr.transaction_type == TransactionType::Withdrawal)
            &&& (tr.disputed ==> tr.transaction_type == TransactionType::Deposit)
        } by {
            if tid != t.id {
                assert(s.transfers.dom().contains(tid));
            }
        }
    }
}

fn process_resolve(state: State, transaction: Transaction) -> (r: State)
    requires
        state@.wf(),
    ensures
        r@ == resolve_spec(state@, transaction),
{
    let ghost s0 = state@;
    let mut state = state;
    let target = match state.transfers.get(&transaction.id) {
        Some(tx) => *tx,
        None => {
            return state;
        },
    };

    if !target.disputed || target.client_id != transaction.client_id {
        return state;
    }

    proof {
        assert(s0.clients.dom().contains(target.client_id));
    }
    let client = *state.clients.get(&target.client_id).unwrap();

    let amount = target.amount as i128;
    if client.locked || client.held < amount
        || client.available > BALANCE_CAP - amount {
        return state;
    }

    let updated = Client {
        id: client.id,
        locked: client.locked,
        available: client.available + amount,
        held: client.held - amount,
        total: client.total,
    };
    state.clients.insert(target.client_id, updated);

    let cleared = Transaction {
        transaction_type: target.transaction_type,
        client_id: target.client_id,
        id: target.id,
        amount: target.amount,
        disputed: false,
    };
    state.transfers.insert(transaction.id, cleared);

    proof {
        assert(state@ =~= resolve_spec(s0, transaction));
    }
    state
}

/// A chargeback is applied iff it references a stored, currently disputed
/// record of the same client whose account is not locked and whose `held`
/// covers the disputed amount.
pub open spec fn chargeback_allowed(s: StateModel, t: Transaction) -> bool {
    &&& s.transfers.dom().contains(t.id)
    &&& {
        let tt = s.transfers[t.id];
        let c = s.clients[tt.client_id];
        &&& tt.disputed
        &&& tt.client_id == t.client_id
        &&& !c.locked
        &&& c.held >= tt.amount
    }
}

/// The chargeback rule: lock the account and remove the disputed amount
/// from `held` and `total` (`available` is untouched, the amount was
/// already excluded from it); reject as a no-op otherwise. The stored
/// record keeps its disputed flag; the lock makes it unreachable.
pub open spec fn chargeback_spec(s: StateModel, t: Transaction) -> StateModel {
    if chargeback_allowed(s, t) {
        let tt = s.transfers[t.id];
        let c = s.clients[tt.client_id];
        let c2 = Client {
            id: c.id,
            locked: true,
            available: c.available,
            held: (c.held - tt.amount) as i128,
            total: (c.total - tt.amount) as i128,
        };
        StateModel { transfers: s.transfers, clients: s.clients.insert(tt.client_id, c2) }
    } else {
        s
    }
}

/// The chargeback rule preserves the engine invariant.
pub proof fn lemma_chargeback_wf(s: StateModel, t: Transaction)
    requires
        s.wf(),
    ensures
        chargeback_spec(s, t).wf(),
{
    if chargeback_allowed(s, t) {
        let s2 = chargeback_spec(s, t);
        let tt = s.transfers[t.id];
        assert forall|cid: u16| #[trigger] s2.clients.dom().contains(cid) implies {
            &&& s2.clients[cid].id == cid
            &&& account_ok(s2.clients[cid])
        } by {
            if cid != tt.client_id {
                assert(s.clients.dom().contains(cid));
            }
        }
        assert forall|tid: u32| #[trigger] s2.transfers.dom().contains(tid) implies {
            let tr = s2.transfers[tid];
            &&& tr.id == tid
            &&& s2.clients.dom().contains(tr.client_id)
            &&& (tr.transaction_type == TransactionType::Deposit
                || tr.transaction_type == TransactionType::Withdrawal)
            &&& (tr.disputed ==> tr.transaction_type == TransactionType::Deposit)
        } by {
            assert(s.transfers.dom().contains(tid));
        }
    }
}

fn process_chargeback(state: State, transaction: Transaction) -> (r: State)
    requires
        state@.wf(),
    ensures
        r@ == chargeback_spec(state@, transaction),
{
    let ghost s0 = state@;
    let mut state = state;
    let target = match state.transfers.get(&transaction.id) {
        Some(tx) => *tx,
        None => {
            return state;
        },
    };

    if !target.disputed || target.client_id != transaction.client_id {
        return state;
    }

    proof {
        assert(s0.clients.dom().contains(target.client_id));
    }
    let client = *state.clients.get(&target.client_id).unwrap();

    let amount = target.amount as i128;
    if client.locked || client.held < amount {
        return state;
    }

    let updated = Client {
        id: client.id,
        locked: true,
        available: client.available,
        held: client.held - amount,
        total: client.total - amount,
    };
    state.clients.insert(target.client_id, updated);

    proof {
        assert(state@ =~= chargeback_spec(s0, transaction));
    }
    state
}

/// The full transition relation: what one incoming record does to the
/// engine state, by its kind.
pub open spec fn apply_spec(s: StateModel, t: Transaction) -> StateModel {
    match t.transaction_type {
        TransactionType::Deposit => deposit_spec(s, t),
        TransactionType::Withdrawal => withdrawal_spec(s, t),
        TransactionType::Dispute => dispute_spec(s, t),
        TransactionType::Resolve => resolve_spec(s, t),
        TransactionType::Chargeback => chargeback_spec(s, t),
    }
}

/// Applying any record to a well-formed state yields a well-formed state.
pub proof fn lemma_apply_wf(s: StateModel, t: Transaction)
    requires
        s.wf(),
    ensures
        apply_spec(s, t).wf(),
{
    match t.transaction_type {
        TransactionType::Deposit => lemma_deposit_wf(s, t),
        TransactionType::Withdrawal => lemma_withdrawal_wf(s, t),
        TransactionType::Dispute => lemma_dispute_wf(s, t),
        TransactionType::Resolve => lemma_resolve_wf(s, t),
        TransactionType::Chargeback => lemma_chargeback_wf(s, t),
    }
}

/// The engine's single entry point: apply one transaction record to the
/// state. Invalid records of every kind are silent no-ops; the result is
/// exactly the spec-level transition, and the engine invariant is kept.
pub fn process_transaction(state: State, transaction: Transaction) -> (r: State)
    requires
        state@.wf(),
    ensures
        r@ == apply_spec(state@, transaction),
        r@.wf(),
{
    proof {
        lemma_apply_wf(state@, transaction);
    }
    match transaction.transaction_type {
        TransactionType::Deposit => process_deposit(state, transaction),
        TransactionType::Withdrawal => process_withdrawal(state, transaction),
        TransactionType::Dispute => process_dispute(state, transaction),
        TransactionType::Resolve => process_resolve(state, transaction),
        TransactionType::Chargeback => process_chargeback(state, transaction),
    }
}

} // verus!
