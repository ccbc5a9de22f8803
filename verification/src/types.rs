//! Data model of the ledger: transaction records, client accounts, the
//! engine state with its two maps, and the ghost model the contracts
//! speak of.

use vstd::prelude::*;
use std::collections::HashMap;

verus! {

/// Every balance the engine produces stays within `[-BALANCE_CAP, BALANCE_CAP]`
/// (held balances stay within `[0, BALANCE_CAP]`). A mutation that would leave
/// this range is rejected like any other invalid transaction, which keeps all
/// balance arithmetic inside `i128`. The cap is far beyond any sum of real
/// amounts: a single amount is at most `u64::MAX` minor units.
pub const BALANCE_CAP: i128 = 0x1_0000_0000_0000_0000_0000_0000;

/// The closed set of transaction kinds the engine understands.
#[derive(Clone, Copy, Debug, PartialEq, Eq, Structural)]
pub enum TransactionType {
    Deposit,
    Withdrawal,
    Dispute,
    Resolve,
    Chargeback,
}

/// One parsed input record. `amount` is meaningful only for deposits and
/// withdrawals and is an integer count of minor units; `disputed` is the
/// flag the engine maintains on stored records.
#[derive(Clone, Copy, Debug, PartialEq, Eq, Structural)]
pub struct Transaction {
    pub transaction_type: TransactionType,
    pub client_id: u16,
    pub id: u32,
    pub amount: u64,
    pub disputed: bool,
}

/// One client account: the funds usable for withdrawal (`available`), the
/// funds frozen by active disputes (`held`), their sum (`total`), and the
/// terminal `locked` flag a chargeback sets.
#[derive(Clone, Copy, Debug, PartialEq, Eq, Structural)]
pub struct Client {
    pub id: u16,
    pub locked: bool,
    pub available: i128,
    pub held: i128,
    pub total: i128,
}

impl Client {
    /// A fresh account with zero balances, created on a client's first
    /// valid deposit.
    pub fn new(id: u16) -> (c: Client)
        ensures
            c == (Client { id, locked: false, available: 0, held: 0, total: 0 }),
    {
        Client { id, locked: false, available: 0, held: 0, total: 0 }
    }
}

/// The engine state: stored deposit/withdrawal records by transaction id,
/// and accounts by client id.
#[derive(Debug)]
pub struct State {
    pub transfers: HashMap<u32, Transaction>,
    pub clients: HashMap<u16, Client>,
}

/// The mathematical model of an engine state: the two maps, as `Map` values.
#[verifier::ext_equal]
pub ghost struct StateModel {
    pub transfers: Map<u32, Transaction>,
    pub clients: Map<u16, Client>,
}

impl View for State {
    type V = StateModel;

    open spec fn view(&self) -> StateModel {
        StateModel { transfers: self.transfers@, clients: self.clients@ }
    }
}

impl State {
    /// The empty engine state: no stored transactions, no accounts.
    pub fn new() -> (s: State)
        ensures
            s@.transfers == Map::<u32, Transaction>::empty(),
            s@.clients == Map::<u16, Client>::empty(),
            s@.wf(),
    {
        State { transfers: HashMap::new(), clients: HashMap::new() }
    }
}

/// Well-formedness of one account: `total` is the sum of `available` and
/// `held`, `held` is never negative, and every balance is within the cap.
pub open spec fn account_ok(c: Client) -> bool {
    &&& c.total == c.available + c.held
    &&& 0 <= c.held <= BALANCE_CAP
    &&& -BALANCE_CAP <= c.available <= BALANCE_CAP
    &&& -BALANCE_CAP <= c.total <= BALANCE_CAP
}

impl StateModel {
    /// The engine invariant. Accounts are keyed by their own id and
    /// well-formed; stored records are keyed by their own id, are deposits
    /// or withdrawals only, belong to a client that has an account, and
    /// carry the disputed flag only on deposits.
    pub open spec fn wf(self) -> bool {
        &&& forall|cid: u16| #[trigger] self.clients.dom().contains(cid) ==> {
            &&& self.clients[cid].id == cid
            &&& account_ok(self.clients[cid])
        }
        &&& forall|tid: u32| #[trigger] self.transfers.dom().contains(tid) ==> {
            let t = self.transfers[tid];
            &&& t.id == tid
            &&& self.clients.dom().contains(t.client_id)
            &&& (t.transaction_type == TransactionType::Deposit
                || t.transaction_type == TransactionType::Withdrawal)
            &&& (t.disputed ==> t.transaction_type == TransactionType::Deposit)
        }
    }
}

} // verus!
