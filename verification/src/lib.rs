//! A verified ledger engine.
//!
//! The engine consumes an ordered stream of per-client transaction records
//! (deposit, withdrawal, dispute, resolve, chargeback) and maintains one
//! account summary per client: an available amount, a held amount and a lock
//! flag.  Records that cannot be applied are ignored without any state
//! change, so one bad record never stops the rest of the stream.
//!
//! Amounts are integer counts of the smallest unit of a fixed-precision
//! decimal currency; the transport adapter fixes the scale when it converts
//! to and from the external decimal text form.

mod engine;
mod laws;
mod model;
mod record;

pub use engine::AccountSummary;
pub use engine::TxProc;
pub use laws::lemma_apply_idempotent;
pub use laws::lemma_chargeback_locks_client;
pub use laws::lemma_chargeback_terminal_tx;
pub use laws::lemma_conservation;
pub use laws::lemma_dispute_resolve_round_trip;
pub use laws::lemma_duplicate_tx_id_rejected;
pub use laws::lemma_record_conservation;
pub use laws::lemma_wrong_client_isolation;
pub use laws::net_flow;
pub use laws::record_flow;
pub use laws::run_records;
pub use model::AccountView;
pub use model::LedgerView;
pub use model::TxView;
pub use model::account_of;
pub use model::amount_fits;
pub use model::apply_chargeback;
pub use model::apply_deposit;
pub use model::apply_dispute;
pub use model::apply_record;
pub use model::apply_resolve;
pub use model::apply_withdrawal;
pub use model::chargeback_accepted;
pub use model::deposit_accepted;
pub use model::dispute_accepted;
pub use model::ledger_inv;
pub use model::lemma_apply_preserves_inv;
pub use model::lifecycle_target_matches;
pub use model::resolve_accepted;
pub use model::set_account;
pub use model::set_tx;
pub use model::total_of;
pub use model::with_account;
pub use model::withdrawal_accepted;
pub use model::withdrawal_recorded;
pub use record::TxRecord;
pub use record::TxRecordMetadata;
