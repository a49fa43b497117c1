//! The mathematical model of the engine.
//!
//! The state of the engine is a [`LedgerView`]: a map from client id to
//! account and a map from transaction id to recorded transaction.
//! [`apply_record`] is the transition of the engine on one record; the
//! executable engine promises that submitting a record changes its view by
//! exactly this function.
//!
//! Every rejection path is a silent no-op: the record is dropped and the
//! state is left as it was, except that an account with zero balances is
//! created for a previously unseen client id.  Balances are counts of the
//! smallest currency unit, kept within the signed 64-bit range; a record
//! whose application would take a balance or a balance total outside that
//! range is rejected like any other inapplicable record.

use vstd::prelude::*;

use crate::record::TxRecord;

verus! {

/// One client's account as the contracts see it: the available and held
/// amounts and the lock flag.  The total amount is derived, never stored.
#[verifier::ext_equal]
pub ghost struct AccountView {
    pub available: int,
    pub held: int,
    pub locked: bool,
}

impl AccountView {
    /// A fresh account: zero balances, unlocked.
    pub open spec fn zero() -> AccountView {
        AccountView { available: 0, held: 0, locked: false }
    }

    /// The client's full balance.
    pub open spec fn total(self) -> int {
        self.available + self.held
    }

    /// Both balances and their sum lie in the representable range.
    pub open spec fn in_range(self) -> bool {
        &&& amount_fits(self.available)
        &&& amount_fits(self.held)
        &&& amount_fits(self.total())
    }
}

/// One recorded transaction: its kind, owner, amount and dispute flags.
/// Only deposits take part in the dispute lifecycle; withdrawals are
/// recorded solely so that their transaction id is never reused.
#[verifier::ext_equal]
pub ghost struct TxView {
    pub is_deposit: bool,
    pub client_id: u16,
    pub amount: int,
    pub disputed: bool,
    pub chargedback: bool,
}

impl TxView {
    /// A transaction as it is first recorded: no dispute yet.
    pub open spec fn fresh(is_deposit: bool, client_id: u16, amount: int) -> TxView {
        TxView { is_deposit, client_id, amount, disputed: false, chargedback: false }
    }
}

/// The whole engine state: every account keyed by client id, and every
/// recorded transaction keyed by its stream-wide transaction id.
#[verifier::ext_equal]
pub ghost struct LedgerView {
    pub accounts: Map<u16, AccountView>,
    pub txs: Map<u32, TxView>,
}

impl LedgerView {
    /// The state of a freshly built engine.
    pub open spec fn empty() -> LedgerView {
        LedgerView { accounts: Map::empty(), txs: Map::empty() }
    }
}

/// Whether an amount lies in the representable range of balances.
pub open spec fn amount_fits(amount: int) -> bool {
    i64::MIN <= amount <= i64::MAX
}

/// The account of `client_id`, reading a never-seen client as a fresh
/// zero account.
pub open spec fn account_of(s: LedgerView, client_id: u16) -> AccountView {
    if s.accounts.dom().contains(client_id) {
        s.accounts[client_id]
    } else {
        AccountView::zero()
    }
}

/// The full balance of `client_id`: available plus held, zero for a never
/// seen client.
pub open spec fn total_of(s: LedgerView, client_id: u16) -> int {
    account_of(s, client_id).total()
}

/// The state after the lazily created account of `client_id` exists: the
/// first record naming a client creates its account, whether or not the
/// record itself is then applied.
pub open spec fn with_account(s: LedgerView, client_id: u16) -> LedgerView {
    if s.accounts.dom().contains(client_id) {
        s
    } else {
        LedgerView { accounts: s.accounts.insert(client_id, AccountView::zero()), txs: s.txs }
    }
}

/// `s` with the account of `client_id` replaced.
pub open spec fn set_account(s: LedgerView, client_id: u16, account: AccountView) -> LedgerView {
    LedgerView { accounts: s.accounts.insert(client_id, account), txs: s.txs }
}

/// `s` with the transaction `tx_id` replaced.
pub open spec fn set_tx(s: LedgerView, tx_id: u32, tx: TxView) -> LedgerView {
    LedgerView { accounts: s.accounts, txs: s.txs.insert(tx_id, tx) }
}

/// When a deposit moves funds: the amount is not negative, the transaction
/// id is new, and the new available amount and the new total stay in range.
/// The lock of the account is checked separately, before any kind-specific
/// rule.
pub open spec fn deposit_accepted(s: LedgerView, client_id: u16, tx_id: u32, amount: int) -> bool {
    &&& 0 <= amount
    &&& !s.txs.dom().contains(tx_id)
    &&& amount_fits(account_of(s, client_id).available + amount)
    &&& amount_fits(account_of(s, client_id).total() + amount)
}

/// When a withdrawal consumes its transaction id: the amount is not
/// negative and the id is new.  The id is consumed even when the available
/// amount is insufficient and no funds move.
pub open spec fn withdrawal_recorded(s: LedgerView, tx_id: u32, amount: int) -> bool {
    &&& 0 <= amount
    &&& !s.txs.dom().contains(tx_id)
}

/// When a withdrawal moves funds: it is recorded and the available amount
/// covers it.
pub open spec fn withdrawal_accepted(s: LedgerView, client_id: u16, tx_id: u32, amount: int) -> bool {
    &&& withdrawal_recorded(s, tx_id, amount)
    &&& amount <= account_of(s, client_id).available
}

/// The checks shared by dispute, resolve and chargeback: the referenced
/// transaction exists, it is a deposit, and it belongs to the client named
/// by the record.
pub open spec fn lifecycle_target_matches(s: LedgerView, client_id: u16, tx_id: u32) -> bool {
    &&& s.txs.dom().contains(tx_id)
    &&& s.txs[tx_id].is_deposit
    &&& s.txs[tx_id].client_id == client_id
}

/// When a dispute freezes a deposit: the target matches, the deposit is
/// neither under dispute nor charged back, and the moved balances stay in
/// range.
pub open spec fn dispute_accepted(s: LedgerView, client_id: u16, tx_id: u32) -> bool {
    &&& lifecycle_target_matches(s, client_id, tx_id)
    &&& !s.txs[tx_id].disputed
    &&& !s.txs[tx_id].chargedback
    &&& amount_fits(account_of(s, client_id).available - s.txs[tx_id].amount)
    &&& amount_fits(account_of(s, client_id).held + s.txs[tx_id].amount)
}

/// When a resolve releases a disputed deposit back to the client.
pub open spec fn resolve_accepted(s: LedgerView, client_id: u16, tx_id: u32) -> bool {
    &&& lifecycle_target_matches(s, client_id, tx_id)
    &&& s.txs[tx_id].disputed
    &&& !s.txs[tx_id].chargedback
    &&& amount_fits(account_of(s, client_id).available + s.txs[tx_id].amount)
    &&& amount_fits(account_of(s, client_id).held - s.txs[tx_id].amount)
}

/// When a chargeback removes a disputed deposit for good and locks the
/// account.
pub open spec fn chargeback_accepted(s: LedgerView, client_id: u16, tx_id: u32) -> bool {
    &&& lifecycle_target_matches(s, client_id, tx_id)
    &&& s.txs[tx_id].disputed
    &&& !s.txs[tx_id].chargedback
    &&& amount_fits(account_of(s, client_id).held - s.txs[tx_id].amount)
    &&& amount_fits(account_of(s, client_id).total() - s.txs[tx_id].amount)
}

/// A deposit on the unlocked account of `client_id`.
pub open spec fn apply_deposit(s: LedgerView, client_id: u16, tx_id: u32, amount: int) -> LedgerView {
    if deposit_accepted(s, client_id, tx_id, amount) {
        let account = account_of(s, client_id);
        set_tx(
            set_account(
                s,
                client_id,
                AccountView { available: account.available + amount, ..account },
            ),
            tx_id,
            TxView::fresh(true, client_id, amount),
        )
    } else {
        s
    }
}

/// A withdrawal on the unlocked account of `client_id`.  A recorded but
/// uncovered withdrawal consumes its transaction id and moves nothing.
pub open spec fn apply_withdrawal(s: LedgerView, client_id: u16, tx_id: u32, amount: int) -> LedgerView {
    if withdrawal_recorded(s, tx_id, amount) {
        let account = account_of(s, client_id);
        let recorded = set_tx(s, tx_id, TxView::fresh(false, client_id, amount));
        if amount <= account.available {
            set_account(
                recorded,
                client_id,
                AccountView { available: account.available - amount, ..account },
            )
        } else {
            recorded
        }
    } else {
        s
    }
}

/// A dispute submitted by the unlocked account of `client_id`.
pub open spec fn apply_dispute(s: LedgerView, client_id: u16, tx_id: u32) -> LedgerView {
    if dispute_accepted(s, client_id, tx_id) {
        let account = account_of(s, client_id);
        let amount = s.txs[tx_id].amount;
        set_tx(
            set_account(
                s,
                client_id,
                AccountView {
                    available: account.available - amount,
                    held: account.held + amount,
                    ..account
                },
            ),
            tx_id,
            TxView { disputed: true, ..s.txs[tx_id] },
        )
    } else {
        s
    }
}

/// A resolve submitted by the unlocked account of `client_id`: it exactly
/// reverses the dispute's effect.
pub open spec fn apply_resolve(s: LedgerView, client_id: u16, tx_id: u32) -> LedgerView {
    if resolve_accepted(s, client_id, tx_id) {
        let account = account_of(s, client_id);
        let amount = s.txs[tx_id].amount;
        set_tx(
            set_account(
                s,
                client_id,
                AccountView {
                    available: account.available + amount,
                    held: account.held - amount,
                    ..account
                },
            ),
            tx_id,
            TxView { disputed: false, ..s.txs[tx_id] },
        )
    } else {
        s
    }
}

/// A chargeback submitted by the unlocked account of `client_id`: the held
/// amount drops by the disputed amount, the total with it, and the account
/// is locked for good.
pub open spec fn apply_chargeback(s: LedgerView, client_id: u16, tx_id: u32) -> LedgerView {
    if chargeback_accepted(s, client_id, tx_id) {
        let account = account_of(s, client_id);
        let amount = s.txs[tx_id].amount;
        set_tx(
            set_account(
                s,
                client_id,
                AccountView { held: account.held - amount, locked: true, ..account },
            ),
            tx_id,
            TxView { disputed: false, chargedback: true, ..s.txs[tx_id] },
        )
    } else {
        s
    }
}

/// The transition of the engine on one record.
///
/// The account of the record's client is created first if it was never
/// seen.  A locked account drops every record unconditionally, dispute,
/// resolve and chargeback included.  Then the kind-specific rule runs.
pub open spec fn apply_record(s: LedgerView, record: TxRecord) -> LedgerView {
    let client_id = record.spec_metadata().spec_client_id();
    let tx_id = record.spec_metadata().spec_tx_id();
    let s1 = with_account(s, client_id);
    if account_of(s, client_id).locked {
        s1
    } else {
        match record {
            TxRecord::DEPOSIT(_, amount) => apply_deposit(s1, client_id, tx_id, amount as int),
            TxRecord::WITHDRAWAL(_, amount) => apply_withdrawal(s1, client_id, tx_id, amount as int),
            TxRecord::DISPUTE(_) => apply_dispute(s1, client_id, tx_id),
            TxRecord::RESOLVE(_) => apply_resolve(s1, client_id, tx_id),
            TxRecord::CHARGEBACK(_) => apply_chargeback(s1, client_id, tx_id),
        }
    }
}

/// The invariant of every reachable state: every account's balances and
/// total lie in the representable range, and every recorded amount is a
/// representable non-negative count.
pub open spec fn ledger_inv(s: LedgerView) -> bool {
    &&& forall|client_id: u16|
        s.accounts.dom().contains(client_id) ==> (#[trigger] s.accounts[client_id]).in_range()
    &&& forall|tx_id: u32|
        s.txs.dom().contains(tx_id) ==> 0 <= (#[trigger] s.txs[tx_id]).amount <= i64::MAX
}

/// Applying any record preserves the invariant: no record, applied or
/// ignored, can take a balance out of range or record a negative amount.
pub proof fn lemma_apply_preserves_inv(s: LedgerView, record: TxRecord)
    requires
        ledger_inv(s),
    ensures
        ledger_inv(apply_record(s, record)),
{
    let client_id = record.spec_metadata().spec_client_id();
    let s1 = with_account(s, client_id);
    assert(ledger_inv(s1));
    assert(account_of(s1, client_id) == account_of(s, client_id));
}

} // verus!
