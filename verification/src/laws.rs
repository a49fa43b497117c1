//! The laws of the engine, stated over the model and proved once and for
//! all.  Each law speaks about [`apply_record`], which the executable
//! engine's contract ties to every call of
//! [`crate::TxProc::submit_tx_record`], so each law holds of the running
//! engine as well.

use vstd::prelude::*;

use crate::model::account_of;
use crate::model::apply_record;
use crate::model::chargeback_accepted;
use crate::model::deposit_accepted;
use crate::model::dispute_accepted;
use crate::model::ledger_inv;
use crate::model::resolve_accepted;
use crate::model::total_of;
use crate::model::with_account;
use crate::model::withdrawal_accepted;
use crate::model::LedgerView;
use crate::record::TxRecord;
use crate::record::TxRecordMetadata;

verus! {

/// Idempotency: applying any record twice in a row yields the same state
/// as applying it once.  An accepted deposit or withdrawal consumes its
/// transaction id, an accepted dispute marks its deposit disputed, an
/// accepted resolve clears that mark, an accepted chargeback locks the
/// account, and a rejected record changes nothing; in every case the
/// second application is a no-op.
pub proof fn lemma_apply_idempotent(s: LedgerView, record: TxRecord)
    ensures
        apply_record(apply_record(s, record), record) == apply_record(s, record),
{
    let client_id = record.spec_metadata().spec_client_id();
    let s1 = apply_record(s, record);
    assert(s1.accounts.dom().contains(client_id));
    assert(with_account(s1, client_id) == s1);
}

/// Idempotency, second half: a deposit or withdrawal whose transaction id
/// is already recorded is dropped before any balance mutation, whatever
/// its kind or amount; only the lazy creation of the client's account
/// remains observable.
pub proof fn lemma_duplicate_tx_id_rejected(s: LedgerView, record: TxRecord)
    requires
        record is DEPOSIT || record is WITHDRAWAL,
        s.txs.dom().contains(record.spec_metadata().spec_tx_id()),
    ensures
        apply_record(s, record) == with_account(s, record.spec_metadata().spec_client_id()),
{
}

/// The state after a whole stream of records has been applied in order.
pub open spec fn run_records(s: LedgerView, records: Seq<TxRecord>) -> LedgerView
    decreases records.len(),
{
    if records.len() == 0 {
        s
    } else {
        run_records(apply_record(s, records[0]), records.drop_first())
    }
}

/// How much one record moves the total balance of `client_id`: an accepted
/// deposit adds its amount, an accepted withdrawal subtracts its amount,
/// an accepted chargeback subtracts the disputed amount, and every other
/// record — rejected, for another client, a dispute or a resolve — moves
/// the total not at all.
pub open spec fn record_flow(s: LedgerView, record: TxRecord, client_id: u16) -> int {
    let metadata = record.spec_metadata();
    let tx_id = metadata.spec_tx_id();
    let s1 = with_account(s, client_id);
    if metadata.spec_client_id() != client_id || account_of(s, client_id).locked {
        0
    } else {
        match record {
            TxRecord::DEPOSIT(_, amount) => if deposit_accepted(
                s1,
                client_id,
                tx_id,
                amount as int,
            ) {
                amount as int
            } else {
                0
            },
            TxRecord::WITHDRAWAL(_, amount) => if withdrawal_accepted(
                s1,
                client_id,
                tx_id,
                amount as int,
            ) {
                -(amount as int)
            } else {
                0
            },
            TxRecord::DISPUTE(_) => 0,
            TxRecord::RESOLVE(_) => 0,
            TxRecord::CHARGEBACK(_) => if chargeback_accepted(s1, client_id, tx_id) {
                -s1.txs[tx_id].amount
            } else {
                0
            },
        }
    }
}

/// The sum of [`record_flow`] over a stream, each record weighed in the
/// state it actually meets.
pub open spec fn net_flow(s: LedgerView, records: Seq<TxRecord>, client_id: u16) -> int
    decreases records.len(),
{
    if records.len() == 0 {
        0
    } else {
        record_flow(s, records[0], client_id) + net_flow(
            apply_record(s, records[0]),
            records.drop_first(),
            client_id,
        )
    }
}

/// Conservation, one step: one record moves the total balance of any
/// client by exactly its flow.  In particular a dispute or a resolve
/// leaves every total unchanged, and no record moves the total of a client
/// it does not name.
pub proof fn lemma_record_conservation(s: LedgerView, record: TxRecord, client_id: u16)
    ensures
        total_of(apply_record(s, record), client_id) == total_of(s, client_id) + record_flow(
            s,
            record,
            client_id,
        ),
{
}

/// Conservation: over any stream of records, the total balance of a client
/// is its starting total plus the net flow of the stream.  For a stream of
/// deposits and withdrawals alone this is the sum of the accepted deposit
/// amounts minus the sum of the accepted withdrawal amounts.
pub proof fn lemma_conservation(s: LedgerView, records: Seq<TxRecord>, client_id: u16)
    ensures
        total_of(run_records(s, records), client_id) == total_of(s, client_id) + net_flow(
            s,
            records,
            client_id,
        ),
    decreases records.len(),
{
    if records.len() == 0 {
    } else {
        lemma_record_conservation(s, records[0], client_id);
        lemma_conservation(apply_record(s, records[0]), records.drop_first(), client_id);
    }
}

/// Dispute round-trip: a dispute followed by a resolve of the same deposit
/// restores the state exactly — balances, lock and transaction flags —
/// and the total balance is invariant across both steps.
pub proof fn lemma_dispute_resolve_round_trip(s: LedgerView, metadata: TxRecordMetadata)
    requires
        ledger_inv(s),
        !account_of(s, metadata.spec_client_id()).locked,
        dispute_accepted(s, metadata.spec_client_id(), metadata.spec_tx_id()),
    ensures
        apply_record(apply_record(s, TxRecord::DISPUTE(metadata)), TxRecord::RESOLVE(metadata))
            == with_account(s, metadata.spec_client_id()),
        total_of(apply_record(s, TxRecord::DISPUTE(metadata)), metadata.spec_client_id())
            == total_of(s, metadata.spec_client_id()),
{
    let client_id = metadata.spec_client_id();
    let tx_id = metadata.spec_tx_id();
    let s1 = with_account(s, client_id);
    let s2 = apply_record(s, TxRecord::DISPUTE(metadata));
    assert(resolve_accepted(s2, client_id, tx_id));
    let s3 = apply_record(s2, TxRecord::RESOLVE(metadata));
    assert(s3.accounts =~= s1.accounts);
    assert(s3.txs =~= s1.txs);
    assert(s3 =~~= s1);
}

/// Chargeback terminality, account side: a successful chargeback locks the
/// account for good, and afterwards every record naming that client —
/// deposit, withdrawal, dispute, resolve or chargeback alike — is a
/// no-op.
pub proof fn lemma_chargeback_locks_client(
    s: LedgerView,
    metadata: TxRecordMetadata,
    record: TxRecord,
)
    requires
        !account_of(s, metadata.spec_client_id()).locked,
        chargeback_accepted(s, metadata.spec_client_id(), metadata.spec_tx_id()),
        record.spec_metadata().spec_client_id() == metadata.spec_client_id(),
    ensures
        account_of(apply_record(s, TxRecord::CHARGEBACK(metadata)), metadata.spec_client_id())
            .locked,
        apply_record(apply_record(s, TxRecord::CHARGEBACK(metadata)), record) == apply_record(
            s,
            TxRecord::CHARGEBACK(metadata),
        ),
{
    let client_id = metadata.spec_client_id();
    let s1 = apply_record(s, TxRecord::CHARGEBACK(metadata));
    assert(s1.accounts.dom().contains(client_id));
    assert(with_account(s1, client_id) == s1);
}

/// Chargeback terminality, transaction side: once a deposit is charged
/// back, no later dispute, resolve or chargeback referencing its
/// transaction id ever mutates a balance again, whichever client submits
/// it; at most the submitting client's account is lazily created.
pub proof fn lemma_chargeback_terminal_tx(
    s: LedgerView,
    metadata: TxRecordMetadata,
    record: TxRecord,
)
    requires
        !account_of(s, metadata.spec_client_id()).locked,
        chargeback_accepted(s, metadata.spec_client_id(), metadata.spec_tx_id()),
        record is DISPUTE || record is RESOLVE || record is CHARGEBACK,
        record.spec_metadata().spec_tx_id() == metadata.spec_tx_id(),
    ensures
        apply_record(apply_record(s, TxRecord::CHARGEBACK(metadata)), record) == with_account(
            apply_record(s, TxRecord::CHARGEBACK(metadata)),
            record.spec_metadata().spec_client_id(),
        ),
{
}

/// Cross-client isolation: a dispute, resolve or chargeback that names a
/// transaction owned by a different client never mutates any account or
/// any transaction; at most the submitting client's account is lazily
/// created.
pub proof fn lemma_wrong_client_isolation(s: LedgerView, record: TxRecord)
    requires
        record is DISPUTE || record is RESOLVE || record is CHARGEBACK,
        s.txs.dom().contains(record.spec_metadata().spec_tx_id()),
        s.txs[record.spec_metadata().spec_tx_id()].client_id != record.spec_metadata()
            .spec_client_id(),
    ensures
        apply_record(s, record) == with_account(s, record.spec_metadata().spec_client_id()),
{
}

} // verus!
