use saf_ledger::audit::{Event, EventData, EventKind};
use saf_ledger::database::{count_in, Database};
use saf_ledger::error::LedgerError;
use saf_ledger::ident::fresh_ids;
use saf_ledger::lock::{Claim, Probe, SmartLock, Wait};
use saf_ledger::models::{Item, Loan, LoanItem, LoanStatus, ReturnLoanRequest, UpdateItemRequest, User};
use saf_ledger::restore::{all_distinct, count_units_out};
use saf_ledger::time::{Date, Timestamp};

fn stamp(seconds: u32) -> Timestamp {
    Timestamp { date: Date { year: 2024, month: 1, day: 2 }, seconds, nanos: 0 }
}

fn texts(list: &[&str]) -> Vec<String> {
    list.iter().map(|s| s.to_string()).collect()
}

fn user(id: &str, dni: &str) -> User {
    User {
        id: id.to_string(),
        name: "n".to_string(),
        dni: dni.to_string(),
        address: "a".to_string(),
        phone: None,
        email: None,
        notes: None,
        created_at: stamp(0),
        updated_at: stamp(0),
    }
}

fn item(id: &str, total: i32, available: i32) -> Item {
    Item {
        id: id.to_string(),
        name: "n".to_string(),
        description: None,
        category: "c".to_string(),
        icon: "i".to_string(),
        total_stock: total,
        available_stock: available,
        notes: None,
        created_at: stamp(0),
        updated_at: stamp(0),
    }
}

fn loan(id: &str, status: LoanStatus, items: &[&str]) -> Loan {
    Loan {
        id: id.to_string(),
        user_id: "u".to_string(),
        user_name: "n".to_string(),
        start_date: Date { year: 2024, month: 1, day: 2 },
        expected_end_date: Date { year: 2024, month: 1, day: 9 },
        actual_end_date: None,
        status,
        notes: None,
        created_at: stamp(0),
        updated_at: stamp(0),
        items: items
            .iter()
            .enumerate()
            .map(|(k, i)| LoanItem {
                id: format!("{}-{}", id, k),
                loan_id: id.to_string(),
                item_id: i.to_string(),
                item_name: "n".to_string(),
                quantity: 1,
            })
            .collect(),
    }
}

fn event(id: &str) -> Event {
    Event {
        id: id.to_string(),
        data: EventData::UserDeleted { user_id: "gone".to_string() },
        created_at: stamp(0),
        loan_id: None,
        user_id: None,
    }
}

#[test]
fn status_tags_round_trip() {
    assert_eq!(LoanStatus::Active.as_str(), "active");
    assert_eq!(LoanStatus::Pending.as_str(), "pending");
    assert_eq!(LoanStatus::Returned.as_str(), "returned");
    assert_eq!(LoanStatus::Overdue.as_str(), "overdue");
    for status in [LoanStatus::Active, LoanStatus::Pending, LoanStatus::Returned, LoanStatus::Overdue] {
        assert_eq!(LoanStatus::parse(status.as_str()), status);
    }
    assert_eq!(LoanStatus::parse("anything else"), LoanStatus::Active);
    assert_eq!(LoanStatus::parse(""), LoanStatus::Active);
    assert_eq!(LoanStatus::parse("Returned"), LoanStatus::Active);
}

#[test]
fn event_kinds_have_their_tags() {
    let all = [
        (EventKind::UserCreated, "USER_CREATED"),
        (EventKind::UserUpdated, "USER_UPDATED"),
        (EventKind::UserDeleted, "USER_DELETED"),
        (EventKind::ItemCreated, "ITEM_CREATED"),
        (EventKind::StockUpdated, "STOCK_UPDATED"),
        (EventKind::LoanCreated, "LOAN_CREATED"),
        (EventKind::StockReserved, "STOCK_RESERVED"),
        (EventKind::StockReleased, "STOCK_RELEASED"),
        (EventKind::LoanReturned, "LOAN_RETURNED"),
        (EventKind::ReturnCancelled, "RETURN_CANCELLED"),
    ];
    for (kind, tag) in all {
        assert_eq!(kind.as_str(), tag);
    }
}

#[test]
fn errors_have_their_names() {
    assert_eq!(LedgerError::NotFound.as_str(), "not found");
    assert_eq!(LedgerError::Conflict.as_str(), "conflict");
    assert_eq!(LedgerError::InsufficientStock.as_str(), "insufficient stock");
    assert_eq!(LedgerError::InvalidTransition.as_str(), "invalid transition");
    assert_eq!(LedgerError::InvalidState.as_str(), "invalid state");
}

#[test]
fn drawn_identifiers_are_hyphenated_uuids() {
    let ids = fresh_ids(50);
    assert_eq!(ids.len(), 50);
    for id in &ids {
        assert_eq!(id.len(), 36);
        for (k, c) in id.chars().enumerate() {
            if k == 8 || k == 13 || k == 18 || k == 23 {
                assert_eq!(c, '-');
            } else {
                assert!(c.is_ascii_hexdigit() && !c.is_ascii_uppercase());
            }
        }
        assert_eq!(id.as_bytes()[14], b'4');
    }
    assert!(all_distinct(&ids));
    assert_eq!(fresh_ids(0).len(), 0);
}

#[test]
fn clock_reading_is_in_range() {
    let now = Timestamp::now();
    assert!(1 <= now.date.month && now.date.month <= 12);
    assert!(1 <= now.date.day && now.date.day <= 31);
    assert!(now.seconds < 86_400);
    assert!(now.nanos < 2_000_000_000);
    assert!(now.date.year >= 2024);
}

#[test]
fn dates_and_timestamps_compare_field_by_field() {
    let d = |y, m, d| Date { year: y, month: m, day: d };
    assert!(d(2023, 12, 31).is_before(&d(2024, 1, 1)));
    assert!(d(2024, 1, 31).is_before(&d(2024, 2, 1)));
    assert!(d(2024, 2, 1).is_before(&d(2024, 2, 2)));
    assert!(!d(2024, 2, 2).is_before(&d(2024, 2, 2)));
    assert!(!d(2024, 2, 2).is_before(&d(2024, 1, 30)));
    assert!(!d(2024, 1, 1).is_before(&d(2023, 12, 31)));
    assert!(d(-1, 1, 1).is_before(&d(0, 1, 1)));
    let t = |day, s, n| Timestamp { date: d(2024, 1, day), seconds: s, nanos: n };
    assert!(t(1, 86_399, 0).is_before(&t(2, 0, 0)));
    assert!(t(1, 5, 9).is_before(&t(1, 6, 0)));
    assert!(t(1, 5, 9).is_before(&t(1, 5, 10)));
    assert!(!t(1, 5, 9).is_before(&t(1, 5, 9)));
    assert!(!t(1, 6, 0).is_before(&t(1, 5, 9)));
}

#[test]
fn counting_texts() {
    let list = texts(&["a", "b", "a", "c", "a"]);
    assert_eq!(count_in(&list, &"a".to_string()), 3);
    assert_eq!(count_in(&list, &"c".to_string()), 1);
    assert_eq!(count_in(&list, &"z".to_string()), 0);
    assert_eq!(count_in(&texts(&[]), &"a".to_string()), 0);
    assert!(!all_distinct(&list));
    assert!(all_distinct(&texts(&["a", "b", "c"])));
    assert!(all_distinct(&texts(&[])));
    assert!(!all_distinct(&texts(&["a", "b", "b"])));
}

#[test]
fn units_out_counts_lines_of_loans_not_returned() {
    let loans = vec![
        loan("l1", LoanStatus::Active, &["i", "j", "i"]),
        loan("l2", LoanStatus::Returned, &["i"]),
        loan("l3", LoanStatus::Overdue, &["i"]),
        loan("l4", LoanStatus::Pending, &["j"]),
    ];
    assert_eq!(count_units_out(&loans, &"i".to_string()), 3);
    assert_eq!(count_units_out(&loans, &"j".to_string()), 2);
    assert_eq!(count_units_out(&loans, &"k".to_string()), 0);
}

#[test]
fn consistent_records_are_taken_over() {
    let db = Database::from_records(
        vec![user("u", "1"), user("v", "2")],
        vec![item("i", 5, 3), item("j", 1, 1)],
        vec![loan("l1", LoanStatus::Active, &["i", "i"]), loan("l2", LoanStatus::Returned, &["j"])],
        vec![event("e1"), event("e2")],
    )
    .unwrap();
    assert_eq!(db.get_users().len(), 2);
    assert_eq!(db.get_item_by_id("i").unwrap().available_stock, 3);
    assert_eq!(db.get_loan_by_id("l1").unwrap().items.len(), 2);
    assert_eq!(db.get_events(-1).len(), 2);
    let mut db = db;
    db.return_loan_with("l1", None, None, &texts(&["r0", "r1", "r2"]), stamp(9)).unwrap();
    assert_eq!(db.get_item_by_id("i").unwrap().available_stock, 5);
    assert!(Database::from_records(vec![], vec![], vec![], vec![]).is_some());
}

#[test]
fn inconsistent_records_are_turned_away() {
    let ok_users = || vec![user("u", "1")];
    let ok_items = || vec![item("i", 5, 4)];
    let ok_loans = || vec![loan("l1", LoanStatus::Active, &["i"])];
    let ok_events = || vec![event("e1")];
    assert!(Database::from_records(ok_users(), ok_items(), ok_loans(), ok_events()).is_some());
    // two users with one identifier, or with one national ID
    assert!(Database::from_records(vec![user("u", "1"), user("u", "2")], ok_items(), ok_loans(), ok_events()).is_none());
    assert!(Database::from_records(vec![user("u", "1"), user("v", "1")], ok_items(), ok_loans(), ok_events()).is_none());
    // two items, loans or events with one identifier
    assert!(Database::from_records(ok_users(), vec![item("i", 5, 4), item("i", 0, 0)], ok_loans(), ok_events()).is_none());
    assert!(Database::from_records(
        ok_users(),
        vec![item("i", 5, 3)],
        vec![loan("l1", LoanStatus::Active, &["i"]), loan("l1", LoanStatus::Active, &["i"])],
        ok_events()
    )
    .is_none());
    assert!(Database::from_records(ok_users(), ok_items(), ok_loans(), vec![event("e1"), event("e1")]).is_none());
    // stock that does not add up
    assert!(Database::from_records(ok_users(), vec![item("i", 5, 5)], ok_loans(), ok_events()).is_none());
    assert!(Database::from_records(ok_users(), vec![item("i", 5, 3)], ok_loans(), ok_events()).is_none());
    assert!(Database::from_records(ok_users(), vec![item("i", 0, -1)], ok_loans(), ok_events()).is_none());
    assert!(Database::from_records(ok_users(), vec![item("i", 1, 2)], vec![], ok_events()).is_none());
    // a line that names no item, another loan, or more than one unit
    assert!(Database::from_records(ok_users(), ok_items(), vec![loan("l1", LoanStatus::Returned, &["ghost"])], ok_events()).is_none());
    let mut stray = loan("l1", LoanStatus::Active, &["i"]);
    stray.items[0].loan_id = "l2".to_string();
    assert!(Database::from_records(ok_users(), ok_items(), vec![stray], ok_events()).is_none());
    let mut double = loan("l1", LoanStatus::Active, &["i"]);
    double.items[0].quantity = 2;
    assert!(Database::from_records(ok_users(), ok_items(), vec![double], ok_events()).is_none());
    // two lines with one identifier
    let mut twin = loan("l1", LoanStatus::Returned, &["i", "i"]);
    twin.items[1].id = twin.items[0].id.clone();
    assert!(Database::from_records(ok_users(), vec![item("i", 5, 5)], vec![twin], ok_events()).is_none());
    let other = loan("l2", LoanStatus::Returned, &["i"]);
    let mut same = loan("l1", LoanStatus::Returned, &["i"]);
    same.items[0].id = other.items[0].id.clone();
    assert!(Database::from_records(ok_users(), vec![item("i", 5, 5)], vec![same, other], ok_events()).is_none());
    // a loan may name a user that is gone
    let mut orphan = loan("l1", LoanStatus::Active, &["i"]);
    orphan.user_id = "gone".to_string();
    assert!(Database::from_records(ok_users(), ok_items(), vec![orphan], ok_events()).is_some());
}

#[test]
fn lock_older_than_the_timeout_is_stale() {
    let lock = SmartLock::new("/tmp/store.lock".to_string(), 30);
    assert_eq!(lock.lock_file, "/tmp/store.lock");
    assert_eq!(lock.timeout_seconds, 30);
    assert!(!lock.is_stale(0, 0));
    assert!(!lock.is_stale(29, 999_999_999));
    assert!(!lock.is_stale(30, 0));
    assert!(lock.is_stale(30, 1));
    assert!(lock.is_stale(31, 0));
    assert_eq!(lock.claim(Probe::Absent), Claim::Take { remove_stale: false });
    assert_eq!(lock.claim(Probe::Unreadable), Claim::Take { remove_stale: false });
    assert_eq!(lock.claim(Probe::Age { seconds: 30, nanos: 0 }), Claim::Held);
    assert_eq!(lock.claim(Probe::Age { seconds: 0, nanos: 0 }), Claim::Held);
    assert_eq!(lock.claim(Probe::Age { seconds: 30, nanos: 1 }), Claim::Take { remove_stale: true });
    assert_eq!(lock.claim(Probe::Age { seconds: u64::MAX, nanos: 0 }), Claim::Take { remove_stale: true });
    assert_eq!(lock.guard().lock_file, "/tmp/store.lock");
}

#[test]
fn waiting_for_the_lock_ends_after_the_timeout() {
    assert_eq!(SmartLock::after_attempt(true, Some(100), 5), Wait::Done);
    assert_eq!(SmartLock::after_attempt(true, None, 5), Wait::Done);
    assert_eq!(SmartLock::after_attempt(false, Some(0), 5), Wait::Retry);
    assert_eq!(SmartLock::after_attempt(false, Some(5), 5), Wait::Retry);
    assert_eq!(SmartLock::after_attempt(false, Some(6), 5), Wait::TimedOut);
    assert_eq!(SmartLock::after_attempt(false, None, 5), Wait::Retry);
    assert_eq!(SmartLock::after_attempt(false, Some(1), 0), Wait::TimedOut);
}

#[test]
fn requests_can_be_copied() {
    let r = ReturnLoanRequest { condition: Some("good".to_string()), notes: None };
    let c = r.clone();
    assert_eq!(c.condition.as_deref(), Some("good"));
    assert_eq!(c.notes, None);
    let u = UpdateItemRequest {
        name: Some("n".to_string()),
        description: None,
        category: None,
        icon: None,
        total_stock: Some(3),
        notes: None,
    };
    let c = u.clone();
    assert_eq!(c.name.as_deref(), Some("n"));
    assert_eq!(c.total_stock, Some(3));
    let l = loan("l", LoanStatus::Overdue, &["i", "j"]).clone();
    assert_eq!(l.items.len(), 2);
    assert_eq!(l.items[1].item_id, "j");
    assert_eq!(l.status, LoanStatus::Overdue);
}
