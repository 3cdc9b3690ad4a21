use lock_bridge::database::LockDatabase;
use lock_bridge::types::{DatabaseStats, LockRecord, LockStatus};

fn record(lock_id: &str, block_number: u64) -> LockRecord {
    LockRecord {
        id: 0,
        lock_id: lock_id.to_string(),
        sender: "0x00000000000000000000000000000000000000aa".to_string(),
        amount: "2500000000000000000".to_string(),
        holochain_agent: format!("0x{}", "11".repeat(32)),
        tx_hash: format!("0x{}", "22".repeat(32)),
        block_number,
        timestamp: 1_700_000_000,
        status: LockStatus::Pending,
        error_message: None,
        created_at: 0,
        updated_at: 0,
    }
}

#[test]
fn store_lock_twice_keeps_one_row() {
    let mut db = LockDatabase::new();
    assert!(db.store_lock(&record("7", 100), 10));
    assert!(!db.store_lock(&record("7", 100), 11));
    // a second sighting with other data changes nothing either
    assert!(!db.store_lock(&record("7", 999), 12));
    let stats = db.get_stats();
    assert_eq!(stats.total_locks, 1);
    let stored = db.get_lock("7").unwrap();
    assert_eq!(stored.block_number, 100);
    assert_eq!(stored.created_at, 10);
    assert_eq!(stored.updated_at, 10);
    assert_eq!(stored.id, 1);
}

#[test]
fn store_lock_numbers_rows_from_one() {
    let mut db = LockDatabase::new();
    assert!(db.store_lock(&record("a", 1), 5));
    assert!(db.store_lock(&record("b", 2), 6));
    assert_eq!(db.get_lock("a").unwrap().id, 1);
    assert_eq!(db.get_lock("b").unwrap().id, 2);
    assert_eq!(db.get_lock("b").unwrap().created_at, 6);
}

#[test]
fn get_lock_of_unknown_id_is_none() {
    let mut db = LockDatabase::new();
    assert!(db.get_lock("1").is_none());
    db.store_lock(&record("1", 1), 0);
    assert!(db.get_lock("2").is_none());
    assert_eq!(db.get_lock("1").unwrap().lock_id, "1");
}

#[test]
fn cursor_is_read_back_as_set() {
    let mut db = LockDatabase::new();
    assert_eq!(db.get_last_processed_block(1), None);
    db.set_last_processed_block(1, 500);
    assert_eq!(db.get_last_processed_block(1), Some(500));
    assert_eq!(db.get_last_processed_block(1), Some(500));
    assert_eq!(db.get_last_processed_block(11155111), None);
    db.set_last_processed_block(11155111, 7);
    assert_eq!(db.get_last_processed_block(1), Some(500));
    db.set_last_processed_block(1, 501);
    assert_eq!(db.get_last_processed_block(1), Some(501));
    assert_eq!(db.get_last_processed_block(11155111), Some(7));
    // the store itself does not refuse a cursor that goes back
    db.set_last_processed_block(1, 3);
    assert_eq!(db.get_last_processed_block(1), Some(3));
}

#[test]
fn locks_by_status_come_by_ascending_block() {
    let mut db = LockDatabase::new();
    db.store_lock(&record("c", 30), 0);
    db.store_lock(&record("a", 10), 0);
    db.store_lock(&record("b2", 20), 0);
    db.store_lock(&record("b1", 20), 0);
    db.store_lock(&record("d", 5), 0);
    db.update_lock_status("d", LockStatus::Confirmed, None, 1);
    let pending = db.get_locks_by_status(LockStatus::Pending);
    let ids: Vec<&str> = pending.iter().map(|r| r.lock_id.as_str()).collect();
    assert_eq!(ids, vec!["a", "b2", "b1", "c"]);
    let confirmed = db.get_locks_by_status(LockStatus::Confirmed);
    assert_eq!(confirmed.len(), 1);
    assert_eq!(confirmed[0].lock_id, "d");
    assert!(db.get_locks_by_status(LockStatus::Failed).is_empty());
}

#[test]
fn update_lock_status_overwrites_whatever_was_there() {
    let mut db = LockDatabase::new();
    db.store_lock(&record("1", 1), 100);
    db.update_lock_status("1", LockStatus::Failed, Some("relay refused"), 200);
    let failed = db.get_lock("1").unwrap();
    assert_eq!(failed.status, LockStatus::Failed);
    assert_eq!(failed.error_message.as_deref(), Some("relay refused"));
    assert_eq!(failed.created_at, 100);
    assert_eq!(failed.updated_at, 200);
    // the store does not judge the step, and a later success clears the message
    db.update_lock_status("1", LockStatus::Pending, None, 300);
    let again = db.get_lock("1").unwrap();
    assert_eq!(again.status, LockStatus::Pending);
    assert_eq!(again.error_message, None);
    assert_eq!(again.updated_at, 300);
    // an unknown id changes nothing
    db.update_lock_status("2", LockStatus::Processed, None, 400);
    assert_eq!(db.get_stats().total_locks, 1);
    assert_eq!(db.get_lock("1").unwrap().updated_at, 300);
}

#[test]
fn stats_count_each_status() {
    let mut db = LockDatabase::new();
    assert_eq!(
        db.get_stats(),
        DatabaseStats {
            total_locks: 0,
            pending_locks: 0,
            confirmed_locks: 0,
            processed_locks: 0,
            failed_locks: 0
        }
    );
    for (i, id) in ["a", "b", "c", "d", "e", "f"].iter().enumerate() {
        db.store_lock(&record(id, i as u64), 0);
    }
    db.update_lock_status("b", LockStatus::Confirmed, None, 1);
    db.update_lock_status("c", LockStatus::Processed, None, 1);
    db.update_lock_status("d", LockStatus::Processed, None, 1);
    db.update_lock_status("e", LockStatus::Failed, Some("x"), 1);
    assert_eq!(
        db.get_stats(),
        DatabaseStats {
            total_locks: 6,
            pending_locks: 2,
            confirmed_locks: 1,
            processed_locks: 2,
            failed_locks: 1
        }
    );
}

#[test]
fn status_names_round_trip() {
    for status in [
        LockStatus::Pending,
        LockStatus::Confirmed,
        LockStatus::Processed,
        LockStatus::Failed,
    ] {
        assert_eq!(LockStatus::from_str(status.as_str()), Ok(status));
    }
    assert_eq!(LockStatus::Pending.as_str(), "pending");
    assert_eq!(LockStatus::Confirmed.as_str(), "confirmed");
    assert_eq!(LockStatus::Processed.as_str(), "processed");
    assert_eq!(LockStatus::Failed.as_str(), "failed");
    assert_eq!(
        LockStatus::from_str("Pending"),
        Err("Unknown status: Pending".to_string())
    );
    assert!(LockStatus::Processed.terminal());
    assert!(LockStatus::Failed.terminal());
    assert!(!LockStatus::Pending.terminal());
    assert!(!LockStatus::Confirmed.terminal());
}

#[test]
fn duplicate_keeps_every_field() {
    let mut r = record("9", 4);
    r.error_message = Some("e".to_string());
    let d = r.duplicate();
    assert_eq!(d.lock_id, r.lock_id);
    assert_eq!(d.sender, r.sender);
    assert_eq!(d.amount, r.amount);
    assert_eq!(d.holochain_agent, r.holochain_agent);
    assert_eq!(d.tx_hash, r.tx_hash);
    assert_eq!(d.block_number, 4);
    assert_eq!(d.error_message, r.error_message);
}

#[test]
fn restore_brings_back_what_was_stored() {
    let mut db = LockDatabase::new();
    db.store_lock(&record("a", 1), 10);
    db.store_lock(&record("b", 2), 20);
    db.update_lock_status("a", LockStatus::Failed, Some("why"), 30);
    db.set_last_processed_block(1, 99);
    let rows = db.all_locks();
    assert_eq!(rows.len(), 2);
    assert_eq!(rows[0].lock_id, "a");
    assert_eq!(rows[1].lock_id, "b");
    let back = LockDatabase::restore(&rows, &vec![(1, 5), (2, 7), (1, 99)]).unwrap();
    assert_eq!(back.get_stats(), db.get_stats());
    let a = back.get_lock("a").unwrap();
    assert_eq!(a.status, LockStatus::Failed);
    assert_eq!(a.error_message.as_deref(), Some("why"));
    assert_eq!(a.id, 1);
    assert_eq!(a.created_at, 10);
    assert_eq!(a.updated_at, 30);
    assert_eq!(back.get_lock("b").unwrap().id, 2);
    assert_eq!(back.get_last_processed_block(1), Some(99));
    assert_eq!(back.get_last_processed_block(2), Some(7));
    assert_eq!(back.get_last_processed_block(3), None);
}

#[test]
fn restore_refuses_two_records_of_one_lock() {
    let rows = vec![record("a", 1), record("b", 2), record("a", 3)];
    assert!(LockDatabase::restore(&rows, &Vec::new()).is_none());
    assert!(LockDatabase::restore(&Vec::new(), &Vec::new()).is_some());
}
