//! The executable ledger engine.
//!
//! [`TxProc`] owns all per-client account state and all transaction history
//! and exposes one mutating entry point, [`TxProc::submit_tx_record`], plus
//! read-only queries.  Its contract ties every call to the transition
//! function of the model: submitting a record changes the engine's view by
//! exactly [`apply_record`].

use std::collections::HashMap;

use vstd::prelude::*;

use crate::model::account_of;
use crate::model::apply_record;
use crate::model::ledger_inv;
use crate::model::lemma_apply_preserves_inv;
use crate::model::with_account;
use crate::model::AccountView;
use crate::model::LedgerView;
use crate::model::TxView;
use crate::record::TxRecord;

verus! {

broadcast use vstd::std_specs::hash::group_hash_axioms;

/// One client's account summary: the available and held amounts as integer
/// counts of the smallest currency unit, and the permanent lock flag.  The
/// total amount is always computed, never stored.
#[derive(Clone, Copy, Debug)]
pub struct AccountSummary {
    available_amount: i64,
    held_amount: i64,
    locked: bool,
}

impl AccountSummary {
    /// The sum of the two balances always stays representable, so the
    /// derived total can be computed without overflow.
    #[verifier::type_invariant]
    spec fn total_in_range(self) -> bool {
        i64::MIN <= self.available_amount + self.held_amount <= i64::MAX
    }
}

impl View for AccountSummary {
    type V = AccountView;

    closed spec fn view(&self) -> AccountView {
        AccountView {
            available: self.available_amount as int,
            held: self.held_amount as int,
            locked: self.locked,
        }
    }
}

impl Default for AccountSummary {
    /// A fresh account: zero balances, unlocked.
    fn default() -> (summary: AccountSummary)
        ensures
            summary@ == AccountView::zero(),
    {
        AccountSummary { available_amount: 0, held_amount: 0, locked: false }
    }
}

impl AccountSummary {
    /// Funds the client can withdraw or have newly disputed.
    pub fn available_amount(&self) -> (amount: i64)
        ensures
            amount == self@.available,
    {
        self.available_amount
    }

    /// Funds frozen by active disputes.
    pub fn held_amount(&self) -> (amount: i64)
        ensures
            amount == self@.held,
    {
        self.held_amount
    }

    /// The client's full balance: available plus held.
    pub fn total_amount(&self) -> (amount: i64)
        ensures
            amount == self@.total(),
    {
        proof {
            use_type_invariant(&*self);
        }
        self.available_amount + self.held_amount
    }

    /// Whether a chargeback has permanently frozen the account.
    pub fn is_locked(&self) -> (locked: bool)
        ensures
            locked == self@.locked,
    {
        self.locked
    }
}

/// One recorded deposit or withdrawal with its dispute flags.
#[derive(Clone, Copy)]
struct StoredTx {
    is_deposit: bool,
    client_id: u16,
    amount: i64,
    disputed: bool,
    chargedback: bool,
}

impl View for StoredTx {
    type V = TxView;

    closed spec fn view(&self) -> TxView {
        TxView {
            is_deposit: self.is_deposit,
            client_id: self.client_id,
            amount: self.amount as int,
            disputed: self.disputed,
            chargedback: self.chargedback,
        }
    }
}

/// The ledger engine: every account keyed by client id, every recorded
/// transaction keyed by transaction id, and the client ids in order of
/// first appearance so the summaries can be walked.
pub struct TxProc {
    account_summaries: HashMap<u16, AccountSummary>,
    client_ids: Vec<u16>,
    transactions: HashMap<u32, StoredTx>,
}

impl View for TxProc {
    type V = LedgerView;

    closed spec fn view(&self) -> LedgerView {
        LedgerView {
            accounts: self.account_summaries@.map_values(|summary: AccountSummary| summary@),
            txs: self.transactions@.map_values(|stored: StoredTx| stored@),
        }
    }
}

impl TxProc {
    /// The engine is well formed: the client id list names exactly the
    /// known accounts, once each, and the view satisfies the ledger
    /// invariant.  Construction establishes it and every method preserves
    /// it.
    pub closed spec fn wf(&self) -> bool {
        &&& self.client_ids@.no_duplicates()
        &&& forall|client_id: u16|
            #![trigger self.account_summaries@.dom().contains(client_id)]
            #![trigger self.client_ids@.contains(client_id)]
            self.account_summaries@.dom().contains(client_id) <==> self.client_ids@.contains(
                client_id,
            )
        &&& ledger_inv(self@)
    }
}

impl Default for TxProc {
    /// A fresh engine with no accounts and no recorded transactions.
    fn default() -> (engine: TxProc)
        ensures
            engine.wf(),
            engine@ == LedgerView::empty(),
    {
        let engine = TxProc {
            account_summaries: HashMap::new(),
            client_ids: Vec::new(),
            transactions: HashMap::new(),
        };
        proof {
            assert(engine@ =~~= LedgerView::empty());
        }
        engine
    }
}

impl TxProc {
    /// Apply one record of the input stream.
    ///
    /// The engine's view changes by exactly [`apply_record`]: the record's
    /// client gets an account if it never had one, a locked account drops
    /// the record unconditionally, and otherwise the kind-specific rule of
    /// the model runs.  A record that cannot be applied leaves the state
    /// untouched; nothing here panics or reports a fault.
    pub fn submit_tx_record(&mut self, record: TxRecord)
        requires
            old(self).wf(),
        ensures
            final(self).wf(),
            final(self)@ == apply_record(old(self)@, record),
    {
        let ghost s0 = old(self)@;
        let client_id = record.record_metadata().client_id();
        let tx_id = record.record_metadata().tx_id();

        if !self.account_summaries.contains_key(&client_id) {
            proof {
                assert(!self.client_ids@.contains(client_id));
            }
            self.account_summaries.insert(client_id, AccountSummary::default());
            self.client_ids.push(client_id);
            proof {
                let new_ids = self.client_ids@;
                let old_ids = old(self).client_ids@;
                assert forall|i: int, j: int| 0 <= i < j < new_ids.len() implies new_ids[i]
                    != new_ids[j] by {
                    if j < new_ids.len() - 1 {
                        assert(old_ids[i] != old_ids[j]);
                    } else {
                        assert(new_ids[j] == client_id);
                        assert(old_ids[i] == new_ids[i]);
                    }
                }
                assert(self.client_ids@.no_duplicates());
                assert forall|c: u16| #[trigger]
                    self.client_ids@.contains(c) implies self.account_summaries@.dom().contains(
                    c,
                ) by {
                    let k = choose|k: int| 0 <= k < new_ids.len() && new_ids[k] == c;
                    if k < new_ids.len() - 1 {
                        assert(old_ids.contains(c));
                    }
                }
                assert forall|c: u16| #[trigger]
                    self.account_summaries@.dom().contains(c) implies self.client_ids@.contains(
                    c,
                ) by {
                    if c == client_id {
                        assert(new_ids[new_ids.len() - 1] == c);
                    } else {
                        assert(old_ids.contains(c));
                        let k = choose|k: int| 0 <= k < old_ids.len() && old_ids[k] == c;
                        assert(new_ids[k] == c);
                    }
                }
            }
        }
        proof {
            assert(self@.accounts =~= with_account(s0, client_id).accounts);
            assert(self@.txs =~= with_account(s0, client_id).txs);
            assert(self@ =~~= with_account(s0, client_id));
            assert(self.wf());
        }
        let ghost s1 = self@;

        let summary = *self.account_summaries.get(&client_id).unwrap();
        proof {
            use_type_invariant(&summary);
            assert(summary@ == account_of(s0, client_id));
        }

        if summary.is_locked() {
            return;
        }

        match record {
            TxRecord::DEPOSIT(_, amount) => {
                if amount < 0 {
                    return;
                }
                if self.transactions.contains_key(&tx_id) {
                    return;
                }
                let new_available = match summary.available_amount().checked_add(amount) {
                    Some(value) => value,
                    None => {
                        return;
                    },
                };
                if new_available.checked_add(summary.held_amount()).is_none() {
                    return;
                }
                self.account_summaries.insert(
                    client_id,
                    AccountSummary { available_amount: new_available, ..summary },
                );
                self.transactions.insert(
                    tx_id,
                    StoredTx {
                        is_deposit: true,
                        client_id,
                        amount,
                        disputed: false,
                        chargedback: false,
                    },
                );
                proof {
                    assert(self@.accounts =~= apply_record(s0, record).accounts);
                    assert(self@.txs =~= apply_record(s0, record).txs);
                    assert(self@ =~~= apply_record(s0, record));
                    lemma_apply_preserves_inv(s0, record);
                    assert(self.wf());
                }
            },
            TxRecord::WITHDRAWAL(_, amount) => {
                if amount < 0 {
                    return;
                }
                if self.transactions.contains_key(&tx_id) {
                    return;
                }
                self.transactions.insert(
                    tx_id,
                    StoredTx {
                        is_deposit: false,
                        client_id,
                        amount,
                        disputed: false,
                        chargedback: false,
                    },
                );
                if amount <= summary.available_amount() {
                    self.account_summaries.insert(
                        client_id,
                        AccountSummary {
                            available_amount: summary.available_amount() - amount,
                            ..summary
                        },
                    );
                }
                proof {
                    assert(self@.accounts =~= apply_record(s0, record).accounts);
                    assert(self@.txs =~= apply_record(s0, record).txs);
                    assert(self@ =~~= apply_record(s0, record));
                    lemma_apply_preserves_inv(s0, record);
                    assert(self.wf());
                }
            },
            TxRecord::DISPUTE(_) => {
                if !self.transactions.contains_key(&tx_id) {
                    return;
                }
                let stored = *self.transactions.get(&tx_id).unwrap();
                if !stored.is_deposit || stored.client_id != client_id {
                    return;
                }
                if stored.disputed || stored.chargedback {
                    return;
                }
                let new_available = match summary.available_amount().checked_sub(stored.amount) {
                    Some(value) => value,
                    None => {
                        return;
                    },
                };
                let new_held = match summary.held_amount().checked_add(stored.amount) {
                    Some(value) => value,
                    None => {
                        return;
                    },
                };
                self.account_summaries.insert(
                    client_id,
                    AccountSummary {
                        available_amount: new_available,
                        held_amount: new_held,
                        ..summary
                    },
                );
                self.transactions.insert(tx_id, StoredTx { disputed: true, ..stored });
                proof {
                    assert(self@.accounts =~= apply_record(s0, record).accounts);
                    assert(self@.txs =~= apply_record(s0, record).txs);
                    assert(self@ =~~= apply_record(s0, record));
                    lemma_apply_preserves_inv(s0, record);
                    assert(self.wf());
                }
            },
            TxRecord::RESOLVE(_) => {
                if !self.transactions.contains_key(&tx_id) {
                    return;
                }
                let stored = *self.transactions.get(&tx_id).unwrap();
                if !stored.is_deposit || stored.client_id != client_id {
                    return;
                }
                if !stored.disputed || stored.chargedback {
                    return;
                }
                let new_available = match summary.available_amount().checked_add(stored.amount) {
                    Some(value) => value,
                    None => {
                        return;
                    },
                };
                let new_held = match summary.held_amount().checked_sub(stored.amount) {
                    Some(value) => value,
                    None => {
                        return;
                    },
                };
                self.account_summaries.insert(
                    client_id,
                    AccountSummary {
                        available_amount: new_available,
                        held_amount: new_held,
                        ..summary
                    },
                );
                self.transactions.insert(tx_id, StoredTx { disputed: false, ..stored });
                proof {
                    assert(self@.accounts =~= apply_record(s0, record).accounts);
                    assert(self@.txs =~= apply_record(s0, record).txs);
                    assert(self@ =~~= apply_record(s0, record));
                    lemma_apply_preserves_inv(s0, record);
                    assert(self.wf());
                }
            },
            TxRecord::CHARGEBACK(_) => {
                if !self.transactions.contains_key(&tx_id) {
                    return;
                }
                let stored = *self.transactions.get(&tx_id).unwrap();
                if !stored.is_deposit || stored.client_id != client_id {
                    return;
                }
                if !stored.disputed || stored.chargedback {
                    return;
                }
                let new_held = match summary.held_amount().checked_sub(stored.amount) {
                    Some(value) => value,
                    None => {
                        return;
                    },
                };
                if summary.available_amount().checked_add(new_held).is_none() {
                    return;
                }
                self.account_summaries.insert(
                    client_id,
                    AccountSummary { held_amount: new_held, locked: true, ..summary },
                );
                self.transactions.insert(
                    tx_id,
                    StoredTx { disputed: false, chargedback: true, ..stored },
                );
                proof {
                    assert(self@.accounts =~= apply_record(s0, record).accounts);
                    assert(self@.txs =~= apply_record(s0, record).txs);
                    assert(self@ =~~= apply_record(s0, record));
                    lemma_apply_preserves_inv(s0, record);
                    assert(self.wf());
                }
            },
        }
    }

    /// The summary of one client, absent if the client was never seen.
    pub fn account_summary(&self, client_id: u16) -> (summary: Option<&AccountSummary>)
        ensures
            match summary {
                Some(summary) => self@.accounts.dom().contains(client_id) && summary@
                    == self@.accounts[client_id],
                None => !self@.accounts.dom().contains(client_id),
            },
    {
        self.account_summaries.get(&client_id)
    }

    /// Every known client with its summary, one entry per client, in no
    /// specified order.
    pub fn summary_iterator(&self) -> (summaries: Vec<(u16, AccountSummary)>)
        requires
            self.wf(),
        ensures
            summaries@.len() == self@.accounts.dom().len(),
            forall|i: int|
                0 <= i < summaries@.len() ==> {
                    &&& self@.accounts.dom().contains((#[trigger] summaries@[i]).0)
                    &&& summaries@[i].1@ == self@.accounts[summaries@[i].0]
                },
            forall|i: int, j: int|
                0 <= i < j < summaries@.len() ==> summaries@[i].0 != summaries@[j].0,
            forall|client_id: u16|
                #[trigger] self@.accounts.dom().contains(client_id) ==> exists|i: int|
                    0 <= i < summaries@.len() && summaries@[i].0 == client_id,
    {
        let mut summaries: Vec<(u16, AccountSummary)> = Vec::new();
        let mut index: usize = 0;
        while index < self.client_ids.len()
            invariant
                self.wf(),
                index <= self.client_ids@.len(),
                summaries@.len() == index,
                forall|i: int|
                    0 <= i < index ==> (#[trigger] summaries@[i]).0 == self.client_ids@[i],
                forall|i: int|
                    0 <= i < index ==> self@.accounts.dom().contains(summaries@[i].0)
                        && summaries@[i].1@ == self@.accounts[summaries@[i].0],
            decreases self.client_ids@.len() - index,
        {
            let client_id = self.client_ids[index];
            proof {
                assert(self.client_ids@.contains(client_id));
            }
            let summary = *self.account_summaries.get(&client_id).unwrap();
            summaries.push((client_id, summary));
            index += 1;
        }
        proof {
            assert(self.client_ids@.to_set() =~= self@.accounts.dom());
            self.client_ids@.unique_seq_to_set();
            assert forall|client_id: u16| #[trigger]
                self@.accounts.dom().contains(client_id) implies exists|i: int|
                0 <= i < summaries@.len() && summaries@[i].0 == client_id by {
                assert(self.client_ids@.contains(client_id));
                let k = choose|k: int|
                    0 <= k < self.client_ids@.len() && self.client_ids@[k] == client_id;
                assert(summaries@[k].0 == client_id);
            }
        }
        summaries
    }
}

} // verus!
