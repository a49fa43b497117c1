use tx_proc::TxProc;
use tx_proc::TxRecord;
use tx_proc::TxRecordMetadata;

fn account_data(proc: &TxProc, client_id: u16) -> (i64, i64, i64, bool) {
    let summary = proc.account_summary(client_id).expect("summary not found");
    (
        summary.available_amount(),
        summary.held_amount(),
        summary.total_amount(),
        summary.is_locked(),
    )
}

#[test]
fn deposit_withdraw_dispute_chargeback_scenario() {
    let proc = &mut TxProc::default();

    proc.submit_tx_record(TxRecord::DEPOSIT(TxRecordMetadata::new(1, 3), 2));
    assert_eq!(account_data(proc, 1), (2, 0, 2, false));

    proc.submit_tx_record(TxRecord::WITHDRAWAL(TxRecordMetadata::new(1, 4), 2));
    assert_eq!(account_data(proc, 1), (0, 0, 0, false));

    proc.submit_tx_record(TxRecord::DISPUTE(TxRecordMetadata::new(1, 3)));
    assert_eq!(account_data(proc, 1), (-2, 2, 0, false));

    proc.submit_tx_record(TxRecord::CHARGEBACK(TxRecordMetadata::new(1, 3)));
    assert_eq!(account_data(proc, 1), (-2, 0, -2, true));

    // the account is locked: a later deposit changes nothing
    proc.submit_tx_record(TxRecord::DEPOSIT(TxRecordMetadata::new(1, 5), 2));
    assert_eq!(account_data(proc, 1), (-2, 0, -2, true));
}

#[test]
fn insufficient_withdrawal_is_noop() {
    let proc = &mut TxProc::default();

    proc.submit_tx_record(TxRecord::DEPOSIT(TxRecordMetadata::new(1, 1), 3));
    proc.submit_tx_record(TxRecord::WITHDRAWAL(TxRecordMetadata::new(1, 3), 4));
    assert_eq!(account_data(proc, 1), (3, 0, 3, false));
}

#[test]
fn insufficient_withdrawal_still_consumes_tx_id() {
    let proc = &mut TxProc::default();

    proc.submit_tx_record(TxRecord::DEPOSIT(TxRecordMetadata::new(1, 1), 3));
    // uncovered withdrawal: no funds move, but tx id 2 is recorded
    proc.submit_tx_record(TxRecord::WITHDRAWAL(TxRecordMetadata::new(1, 2), 9));
    assert_eq!(account_data(proc, 1), (3, 0, 3, false));
    // a deposit reusing tx id 2 is dropped by the idempotency guard
    proc.submit_tx_record(TxRecord::DEPOSIT(TxRecordMetadata::new(1, 2), 5));
    assert_eq!(account_data(proc, 1), (3, 0, 3, false));
}

#[test]
fn duplicate_tx_id_with_different_kind_and_amount() {
    let proc = &mut TxProc::default();

    proc.submit_tx_record(TxRecord::DEPOSIT(TxRecordMetadata::new(1, 7), 5));
    assert_eq!(account_data(proc, 1), (5, 0, 5, false));

    // same tx id, same kind, different amount
    proc.submit_tx_record(TxRecord::DEPOSIT(TxRecordMetadata::new(1, 7), 9));
    assert_eq!(account_data(proc, 1), (5, 0, 5, false));

    // same tx id, different kind
    proc.submit_tx_record(TxRecord::WITHDRAWAL(TxRecordMetadata::new(1, 7), 1));
    assert_eq!(account_data(proc, 1), (5, 0, 5, false));
}

#[test]
fn deposit_overflow_is_ignored() {
    let proc = &mut TxProc::default();

    proc.submit_tx_record(TxRecord::DEPOSIT(TxRecordMetadata::new(1, 1), i64::MAX));
    assert_eq!(account_data(proc, 1), (i64::MAX, 0, i64::MAX, false));

    // the new available amount would leave the representable range
    proc.submit_tx_record(TxRecord::DEPOSIT(TxRecordMetadata::new(1, 2), 1));
    assert_eq!(account_data(proc, 1), (i64::MAX, 0, i64::MAX, false));

    // a withdrawal makes room again and its own tx id was not consumed
    proc.submit_tx_record(TxRecord::WITHDRAWAL(TxRecordMetadata::new(1, 3), 1));
    proc.submit_tx_record(TxRecord::DEPOSIT(TxRecordMetadata::new(1, 2), 1));
    assert_eq!(account_data(proc, 1), (i64::MAX, 0, i64::MAX, false));
}

#[test]
fn dispute_overflow_is_ignored() {
    let proc = &mut TxProc::default();

    proc.submit_tx_record(TxRecord::DEPOSIT(TxRecordMetadata::new(1, 1), i64::MAX));
    proc.submit_tx_record(TxRecord::WITHDRAWAL(TxRecordMetadata::new(1, 2), i64::MAX));
    proc.submit_tx_record(TxRecord::DEPOSIT(TxRecordMetadata::new(1, 3), i64::MAX));
    assert_eq!(account_data(proc, 1), (i64::MAX, 0, i64::MAX, false));

    // freezes the first deposit: available drops to zero, held takes it all
    proc.submit_tx_record(TxRecord::DISPUTE(TxRecordMetadata::new(1, 1)));
    assert_eq!(account_data(proc, 1), (0, i64::MAX, i64::MAX, false));

    // freezing the second deposit too would overflow the held amount
    proc.submit_tx_record(TxRecord::DISPUTE(TxRecordMetadata::new(1, 3)));
    assert_eq!(account_data(proc, 1), (0, i64::MAX, i64::MAX, false));

    // the first dispute still resolves cleanly
    proc.submit_tx_record(TxRecord::RESOLVE(TxRecordMetadata::new(1, 1)));
    assert_eq!(account_data(proc, 1), (i64::MAX, 0, i64::MAX, false));
}

#[test]
fn unknown_client_has_no_summary() {
    let proc = &mut TxProc::default();
    assert!(proc.account_summary(1).is_none());
    assert_eq!(proc.summary_iterator().len(), 0);

    // even a rejected record creates the account of the client it names
    proc.submit_tx_record(TxRecord::DISPUTE(TxRecordMetadata::new(1, 9)));
    assert_eq!(account_data(proc, 1), (0, 0, 0, false));
    assert!(proc.account_summary(2).is_none());
}

#[test]
fn summary_iterator_lists_each_client_once() {
    let proc = &mut TxProc::default();

    proc.submit_tx_record(TxRecord::DEPOSIT(TxRecordMetadata::new(5, 1), 10));
    proc.submit_tx_record(TxRecord::DEPOSIT(TxRecordMetadata::new(7, 2), 20));
    proc.submit_tx_record(TxRecord::DEPOSIT(TxRecordMetadata::new(5, 3), 30));

    let summaries = proc.summary_iterator();
    assert_eq!(summaries.len(), 2);

    let mut clients: Vec<u16> = summaries.iter().map(|entry| entry.0).collect();
    clients.sort();
    assert_eq!(clients, vec![5, 7]);

    for (client_id, summary) in summaries.iter() {
        match client_id {
            5 => assert_eq!(summary.available_amount(), 40),
            7 => assert_eq!(summary.available_amount(), 20),
            _ => panic!("unexpected client {client_id}"),
        }
    }
}

#[test]
fn dispute_resolve_round_trip_restores_amounts() {
    let proc = &mut TxProc::default();

    proc.submit_tx_record(TxRecord::DEPOSIT(TxRecordMetadata::new(1, 1), 5));
    proc.submit_tx_record(TxRecord::DEPOSIT(TxRecordMetadata::new(1, 2), 7));
    proc.submit_tx_record(TxRecord::WITHDRAWAL(TxRecordMetadata::new(1, 3), 4));
    let before = account_data(proc, 1);

    proc.submit_tx_record(TxRecord::DISPUTE(TxRecordMetadata::new(1, 2)));
    let during = account_data(proc, 1);
    assert_eq!(during, (before.0 - 7, before.1 + 7, before.2, false));

    proc.submit_tx_record(TxRecord::RESOLVE(TxRecordMetadata::new(1, 2)));
    assert_eq!(account_data(proc, 1), before);
}

#[test]
fn conservation_of_totals() {
    let proc = &mut TxProc::default();

    // accepted deposits: 10 + 4; accepted withdrawal: 3; rejected: the
    // negative deposit, the duplicate tx id and the uncovered withdrawal
    proc.submit_tx_record(TxRecord::DEPOSIT(TxRecordMetadata::new(1, 1), 10));
    proc.submit_tx_record(TxRecord::DEPOSIT(TxRecordMetadata::new(1, 2), -8));
    proc.submit_tx_record(TxRecord::DEPOSIT(TxRecordMetadata::new(1, 1), 100));
    proc.submit_tx_record(TxRecord::WITHDRAWAL(TxRecordMetadata::new(1, 3), 3));
    proc.submit_tx_record(TxRecord::WITHDRAWAL(TxRecordMetadata::new(1, 4), 50));
    proc.submit_tx_record(TxRecord::DEPOSIT(TxRecordMetadata::new(1, 5), 4));

    let (_, _, total, _) = account_data(proc, 1);
    assert_eq!(total, 10 - 3 + 4);
}
