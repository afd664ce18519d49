use saf_ledger::audit::{EventData, EventKind, ReserveReason};
use saf_ledger::database::Database;
use saf_ledger::error::LedgerError;
use saf_ledger::models::{
    CreateItemRequest, CreateLoanRequest, CreateUserRequest, Item, Loan, LoanStatus, User,
};
use saf_ledger::time::{Date, Timestamp};

fn day(year: i32, month: u32, day: u32) -> Date {
    Date { year, month, day }
}

fn at(d: Date, seconds: u32) -> Timestamp {
    Timestamp { date: d, seconds, nanos: 0 }
}

fn ids(names: &[&str]) -> Vec<String> {
    names.iter().map(|s| s.to_string()).collect()
}

fn user_req(name: &str, dni: &str) -> CreateUserRequest {
    CreateUserRequest {
        name: name.to_string(),
        dni: dni.to_string(),
        address: "Rua Maior 1".to_string(),
        phone: None,
        email: None,
        notes: None,
    }
}

fn item_req(name: &str, total: i32) -> CreateItemRequest {
    CreateItemRequest {
        name: name.to_string(),
        description: Some(format!("{} for lending", name)),
        category: "mobility".to_string(),
        icon: "i".to_string(),
        total_stock: total,
        notes: None,
    }
}

fn loan_req(user: &str, items: &[&str], due: Date) -> CreateLoanRequest {
    CreateLoanRequest {
        user_id: user.to_string(),
        item_ids: ids(items),
        start_date: day(2024, 3, 1),
        expected_end_date: due,
        notes: None,
    }
}

fn seeded(total: i32) -> (Database, User, Item) {
    let mut db = Database::new();
    let now = at(day(2024, 3, 1), 100);
    let user = db.create_user_with(user_req("Ana", "111A"), &ids(&["u-1", "e-u-1"]), now).unwrap();
    let item = db.create_item_with(item_req("Andador", total), &ids(&["i-1", "e-i-1"]), now).unwrap();
    (db, user, item)
}

fn available(db: &Database, id: &str) -> i32 {
    db.get_item_by_id(id).unwrap().available_stock
}

fn lend(db: &mut Database, tag: &str, items: &[&str], now: Timestamp) -> Result<Loan, LedgerError> {
    let n = items.len();
    let mut drawn = vec![format!("loan-{}", tag)];
    for k in 0..n {
        drawn.push(format!("line-{}-{}", tag, k));
    }
    drawn.push(format!("ev-{}-created", tag));
    for k in 0..n {
        drawn.push(format!("ev-{}-reserved-{}", tag, k));
    }
    db.create_loan_with(loan_req("u-1", items, day(2024, 3, 15)), &drawn, now)
}

#[test]
fn stock_scenario_two_units_three_loans() {
    let (mut db, _, _) = seeded(2);
    let now = at(day(2024, 3, 2), 0);
    assert_eq!(available(&db, "i-1"), 2);
    let a = lend(&mut db, "a", &["i-1"], now).unwrap();
    assert_eq!(available(&db, "i-1"), 1);
    lend(&mut db, "b", &["i-1"], now).unwrap();
    assert_eq!(available(&db, "i-1"), 0);
    let before = db.get_events(-1).len();
    let c = lend(&mut db, "c", &["i-1"], now);
    assert_eq!(c.unwrap_err(), LedgerError::InsufficientStock);
    assert_eq!(available(&db, "i-1"), 0);
    assert_eq!(db.get_events(-1).len(), before);
    assert_eq!(db.get_loans().len(), 2);
    db.return_loan_with(&a.id, None, None, &ids(&["r-1", "r-2"]), at(day(2024, 3, 3), 0)).unwrap();
    assert_eq!(available(&db, "i-1"), 1);
    assert_eq!(db.get_item_by_id("i-1").unwrap().total_stock, 2);
}

#[test]
fn stock_scenario_with_drawn_identifiers() {
    let mut db = Database::new();
    let user = db.create_user(user_req("Ana", "111A")).unwrap();
    let item = db.create_item(item_req("Andador", 2)).unwrap();
    let request = || CreateLoanRequest {
        user_id: user.id.clone(),
        item_ids: vec![item.id.clone()],
        start_date: day(2024, 3, 1),
        expected_end_date: day(2024, 3, 15),
        notes: None,
    };
    let a = db.create_loan(request()).unwrap();
    assert_eq!(available(&db, &item.id), 1);
    db.create_loan(request()).unwrap();
    assert_eq!(available(&db, &item.id), 0);
    assert_eq!(db.create_loan(request()).unwrap_err(), LedgerError::InsufficientStock);
    assert_eq!(available(&db, &item.id), 0);
    let back = db.return_loan(&a.id, Some("good".to_string()), None).unwrap();
    assert_eq!(back.status, LoanStatus::Returned);
    assert!(back.actual_end_date.is_some());
    assert_eq!(available(&db, &item.id), 1);
}

#[test]
fn new_loan_is_active_and_carries_its_lines() {
    let (mut db, _, _) = seeded(3);
    db.create_item_with(item_req("Muletas", 1), &ids(&["i-2", "e-i-2"]), at(day(2024, 3, 1), 5)).unwrap();
    let now = at(day(2024, 3, 2), 30);
    let loan = lend(&mut db, "a", &["i-1", "i-2"], now).unwrap();
    assert_eq!(loan.id, "loan-a");
    assert_eq!(loan.user_id, "u-1");
    assert_eq!(loan.user_name, "Ana");
    assert_eq!(loan.status, LoanStatus::Active);
    assert_eq!(loan.actual_end_date, None);
    assert_eq!(loan.start_date, day(2024, 3, 1));
    assert_eq!(loan.expected_end_date, day(2024, 3, 15));
    assert_eq!(loan.created_at, now);
    assert_eq!(loan.updated_at, now);
    assert_eq!(loan.items.len(), 2);
    assert_eq!(loan.items[0].id, "line-a-0");
    assert_eq!(loan.items[0].loan_id, "loan-a");
    assert_eq!(loan.items[0].item_id, "i-1");
    assert_eq!(loan.items[0].item_name, "Andador");
    assert_eq!(loan.items[0].quantity, 1);
    assert_eq!(loan.items[1].item_id, "i-2");
    assert_eq!(loan.items[1].item_name, "Muletas");
    assert_eq!(available(&db, "i-1"), 2);
    assert_eq!(available(&db, "i-2"), 0);
    assert_eq!(db.get_item_by_id("i-1").unwrap().updated_at, now);
    let stored = db.get_loan_by_id("loan-a").unwrap();
    assert_eq!(stored.items.len(), 2);
    assert_eq!(stored.status, LoanStatus::Active);
}

#[test]
fn loan_events_are_created_then_reserved() {
    let (mut db, _, _) = seeded(3);
    db.create_item_with(item_req("Muletas", 1), &ids(&["i-2", "e-i-2"]), at(day(2024, 3, 1), 5)).unwrap();
    let before = db.get_events(-1).len();
    let now = at(day(2024, 3, 2), 30);
    lend(&mut db, "a", &["i-1", "i-2"], now).unwrap();
    let events = db.get_events(-1);
    assert_eq!(events.len(), before + 3);
    // the three events of the loan share one time and so keep their order
    let created = &events[0];
    assert_eq!(created.id, "ev-a-created");
    assert_eq!(created.event_type(), "LOAN_CREATED");
    assert_eq!(created.created_at, now);
    assert_eq!(created.loan_id.as_deref(), Some("loan-a"));
    assert_eq!(created.user_id.as_deref(), Some("u-1"));
    match &created.data {
        EventData::LoanCreated { loan_id, user_id, items, start_date, expected_end_date } => {
            assert_eq!(loan_id, "loan-a");
            assert_eq!(user_id, "u-1");
            assert_eq!(items, &ids(&["i-1", "i-2"]));
            assert_eq!(*start_date, day(2024, 3, 1));
            assert_eq!(*expected_end_date, day(2024, 3, 15));
        }
        other => panic!("unexpected payload {:?}", other),
    }
    for k in 0..2 {
        let reserved = &events[1 + k];
        assert_eq!(reserved.id, format!("ev-a-reserved-{}", k));
        assert_eq!(reserved.data.kind(), EventKind::StockReserved);
        assert_eq!(reserved.loan_id.as_deref(), Some("loan-a"));
        assert_eq!(reserved.user_id.as_deref(), Some("u-1"));
        match &reserved.data {
            EventData::StockReserved { item_id, quantity, loan_id, cause } => {
                assert_eq!(item_id, &format!("i-{}", k + 1));
                assert_eq!(*quantity, 1);
                assert_eq!(loan_id, "loan-a");
                assert_eq!(*cause, ReserveReason::LoanCreated);
            }
            other => panic!("unexpected payload {:?}", other),
        }
    }
}

#[test]
fn loan_for_unknown_user_is_not_found() {
    let (mut db, _, _) = seeded(1);
    let mut req = loan_req("nobody", &["i-1"], day(2024, 3, 15));
    req.notes = Some("n".to_string());
    let res = db.create_loan_with(req, &ids(&["a", "b", "c", "d"]), at(day(2024, 3, 2), 0));
    assert_eq!(res.unwrap_err(), LedgerError::NotFound);
    assert_eq!(available(&db, "i-1"), 1);
    assert_eq!(db.get_loans().len(), 0);
    assert_eq!(db.create_loan(loan_req("nobody", &["i-1"], day(2024, 3, 15))).unwrap_err(), LedgerError::NotFound);
}

#[test]
fn loan_for_unknown_item_is_not_found_and_reserves_nothing() {
    let (mut db, _, _) = seeded(1);
    let before = db.get_events(-1).len();
    let res = lend(&mut db, "a", &["i-1", "ghost"], at(day(2024, 3, 2), 0));
    assert_eq!(res.unwrap_err(), LedgerError::NotFound);
    assert_eq!(available(&db, "i-1"), 1);
    assert_eq!(db.get_loans().len(), 0);
    assert_eq!(db.get_events(-1).len(), before);
}

#[test]
fn first_refused_item_decides_the_error() {
    let (mut db, _, _) = seeded(0);
    // the item without stock comes first, the unknown one second
    let res = lend(&mut db, "a", &["i-1", "ghost"], at(day(2024, 3, 2), 0));
    assert_eq!(res.unwrap_err(), LedgerError::InsufficientStock);
    let res = lend(&mut db, "b", &["ghost", "i-1"], at(day(2024, 3, 2), 0));
    assert_eq!(res.unwrap_err(), LedgerError::NotFound);
}

#[test]
fn same_item_twice_needs_two_units() {
    let (mut db, _, _) = seeded(1);
    let res = lend(&mut db, "a", &["i-1", "i-1"], at(day(2024, 3, 2), 0));
    assert_eq!(res.unwrap_err(), LedgerError::InsufficientStock);
    assert_eq!(available(&db, "i-1"), 1);
    db.update_item_stock_with("i-1", 2, &ids(&["e-s"]), at(day(2024, 3, 2), 1)).unwrap();
    let loan = lend(&mut db, "b", &["i-1", "i-1"], at(day(2024, 3, 2), 2)).unwrap();
    assert_eq!(loan.items.len(), 2);
    assert_eq!(available(&db, "i-1"), 0);
}

#[test]
fn loan_with_used_identifier_is_a_conflict() {
    let (mut db, _, _) = seeded(2);
    let drawn = ids(&["u-1", "line", "ev-1", "ev-2"]);
    let res = db.create_loan_with(loan_req("u-1", &["i-1"], day(2024, 3, 15)), &drawn, at(day(2024, 3, 2), 0));
    assert_eq!(res.unwrap_err(), LedgerError::Conflict);
    let twice = ids(&["loan", "line", "same", "same"]);
    let res = db.create_loan_with(loan_req("u-1", &["i-1"], day(2024, 3, 15)), &twice, at(day(2024, 3, 2), 0));
    assert_eq!(res.unwrap_err(), LedgerError::Conflict);
    assert_eq!(available(&db, "i-1"), 2);
    assert!(db.in_use(&"u-1".to_string()));
    assert!(!db.in_use(&"loan".to_string()));
    assert!(db.all_fresh(&ids(&["x", "y"])));
    assert!(!db.all_fresh(&ids(&["x", "x"])));
}

#[test]
fn loan_without_items_is_recorded() {
    let (mut db, _, _) = seeded(1);
    let loan = lend(&mut db, "a", &[], at(day(2024, 3, 2), 0)).unwrap();
    assert_eq!(loan.items.len(), 0);
    assert_eq!(loan.status, LoanStatus::Active);
    assert_eq!(available(&db, "i-1"), 1);
    assert_eq!(db.get_events(1)[0].event_type(), "LOAN_CREATED");
}

#[test]
fn return_restores_stock_of_every_item() {
    let (mut db, _, _) = seeded(5);
    db.create_item_with(item_req("Muletas", 3), &ids(&["i-2", "e-i-2"]), at(day(2024, 3, 1), 5)).unwrap();
    let loan = lend(&mut db, "a", &["i-1", "i-2", "i-1"], at(day(2024, 3, 2), 0)).unwrap();
    assert_eq!(available(&db, "i-1"), 3);
    assert_eq!(available(&db, "i-2"), 2);
    let later = at(day(2024, 3, 9), 77);
    let back = db
        .return_loan_with(&loan.id, Some("worn".to_string()), Some("late".to_string()), &ids(&["r0", "r1", "r2", "r3"]), later)
        .unwrap();
    assert_eq!(available(&db, "i-1"), 5);
    assert_eq!(available(&db, "i-2"), 3);
    assert_eq!(back.status, LoanStatus::Returned);
    assert_eq!(back.actual_end_date, Some(day(2024, 3, 9)));
    assert_eq!(back.notes.as_deref(), Some("late"));
    assert_eq!(back.updated_at, later);
    assert_eq!(back.created_at, at(day(2024, 3, 2), 0));
    assert_eq!(db.get_item_by_id("i-2").unwrap().updated_at, later);
}

#[test]
fn return_without_notes_keeps_the_notes() {
    let (mut db, _, _) = seeded(1);
    let mut req = loan_req("u-1", &["i-1"], day(2024, 3, 15));
    req.notes = Some("handle with care".to_string());
    let loan = db.create_loan_with(req, &ids(&["l", "li", "e1", "e2"]), at(day(2024, 3, 2), 0)).unwrap();
    let back = db.return_loan_with(&loan.id, None, None, &ids(&["r0", "r1"]), at(day(2024, 3, 3), 0)).unwrap();
    assert_eq!(back.notes.as_deref(), Some("handle with care"));
}

#[test]
fn return_events_are_released_then_returned() {
    let (mut db, _, _) = seeded(2);
    let loan = lend(&mut db, "a", &["i-1", "i-1"], at(day(2024, 3, 2), 0)).unwrap();
    let before = db.get_events(-1).len();
    let later = at(day(2024, 3, 9), 0);
    db.return_loan_with(&loan.id, Some("ok".to_string()), None, &ids(&["r0", "r1", "r2"]), later).unwrap();
    let events = db.get_events(-1);
    assert_eq!(events.len(), before + 3);
    for k in 0..2 {
        let e = &events[k];
        assert_eq!(e.id, format!("r{}", k));
        assert_eq!(e.event_type(), "STOCK_RELEASED");
        assert_eq!(e.created_at, later);
        assert_eq!(e.loan_id.as_deref(), Some("loan-a"));
        assert_eq!(e.user_id, None);
        match &e.data {
            EventData::StockReleased { item_id, quantity, loan_id } => {
                assert_eq!(item_id, "i-1");
                assert_eq!(*quantity, 1);
                assert_eq!(loan_id, "loan-a");
            }
            other => panic!("unexpected payload {:?}", other),
        }
    }
    let last = &events[2];
    assert_eq!(last.id, "r2");
    assert_eq!(last.event_type(), "LOAN_RETURNED");
    match &last.data {
        EventData::LoanReturned { loan_id, condition, notes } => {
            assert_eq!(loan_id, "loan-a");
            assert_eq!(condition.as_deref(), Some("ok"));
            assert_eq!(*notes, None);
        }
        other => panic!("unexpected payload {:?}", other),
    }
}

#[test]
fn second_return_is_an_invalid_transition() {
    let (mut db, _, _) = seeded(2);
    let loan = lend(&mut db, "a", &["i-1"], at(day(2024, 3, 2), 0)).unwrap();
    db.return_loan_with(&loan.id, None, None, &ids(&["r0", "r1"]), at(day(2024, 3, 3), 0)).unwrap();
    let before = db.get_events(-1).len();
    let again = db.return_loan_with(&loan.id, None, None, &ids(&["s0", "s1"]), at(day(2024, 3, 4), 0));
    assert_eq!(again.unwrap_err(), LedgerError::InvalidTransition);
    assert_eq!(available(&db, "i-1"), 2);
    assert_eq!(db.get_events(-1).len(), before);
    assert_eq!(db.return_loan(&loan.id, None, None).unwrap_err(), LedgerError::InvalidTransition);
}

#[test]
fn return_of_unknown_loan_is_not_found() {
    let (mut db, _, _) = seeded(2);
    let res = db.return_loan_with("ghost", None, None, &ids(&[]), at(day(2024, 3, 3), 0));
    assert_eq!(res.unwrap_err(), LedgerError::NotFound);
    assert_eq!(db.return_loan("ghost", None, None).unwrap_err(), LedgerError::NotFound);
    assert_eq!(db.cancel_return("ghost", None).unwrap_err(), LedgerError::NotFound);
    assert_eq!(db.get_loan_by_id("ghost").unwrap_err(), LedgerError::NotFound);
}

#[test]
fn return_with_used_identifier_is_a_conflict() {
    let (mut db, _, _) = seeded(2);
    let loan = lend(&mut db, "a", &["i-1"], at(day(2024, 3, 2), 0)).unwrap();
    let res = db.return_loan_with(&loan.id, None, None, &ids(&["r0", "loan-a"]), at(day(2024, 3, 3), 0));
    assert_eq!(res.unwrap_err(), LedgerError::Conflict);
    assert_eq!(available(&db, "i-1"), 1);
    assert_eq!(db.get_loan_by_id(&loan.id).unwrap().status, LoanStatus::Active);
}

#[test]
fn overdue_loan_can_be_returned() {
    let (mut db, _, _) = seeded(1);
    let loan = lend(&mut db, "a", &["i-1"], at(day(2024, 3, 2), 0)).unwrap();
    assert_eq!(db.update_overdue_loans_on(day(2024, 4, 1)), 1);
    assert_eq!(db.get_loan_by_id(&loan.id).unwrap().status, LoanStatus::Overdue);
    assert_eq!(available(&db, "i-1"), 0);
    let back = db.return_loan_with(&loan.id, None, None, &ids(&["r0", "r1"]), at(day(2024, 4, 2), 0)).unwrap();
    assert_eq!(back.status, LoanStatus::Returned);
    assert_eq!(available(&db, "i-1"), 1);
}

#[test]
fn cancel_return_reopens_the_loan() {
    let (mut db, _, _) = seeded(2);
    let loan = lend(&mut db, "a", &["i-1"], at(day(2024, 3, 2), 0)).unwrap();
    db.return_loan_with(&loan.id, None, Some("done".to_string()), &ids(&["r0", "r1"]), at(day(2024, 3, 3), 0)).unwrap();
    assert_eq!(available(&db, "i-1"), 2);
    let before = db.get_events(-1).len();
    let later = at(day(2024, 3, 4), 9);
    let open = db.cancel_return_with(&loan.id, Some("mistake".to_string()), &ids(&["c0", "c1"]), later).unwrap();
    assert_eq!(open.status, LoanStatus::Active);
    assert_eq!(open.actual_end_date, None);
    assert_eq!(open.notes.as_deref(), Some("done"));
    assert_eq!(open.updated_at, later);
    assert_eq!(available(&db, "i-1"), 1);
    let events = db.get_events(-1);
    assert_eq!(events.len(), before + 2);
    assert_eq!(events[0].id, "c0");
    match &events[0].data {
        EventData::StockReserved { item_id, quantity, loan_id, cause } => {
            assert_eq!(item_id, "i-1");
            assert_eq!(*quantity, 1);
            assert_eq!(loan_id, "loan-a");
            assert_eq!(*cause, ReserveReason::ReturnCancelled);
        }
        other => panic!("unexpected payload {:?}", other),
    }
    assert_eq!(events[0].user_id, None);
    assert_eq!(events[1].id, "c1");
    assert_eq!(events[1].event_type(), "RETURN_CANCELLED");
    match &events[1].data {
        EventData::ReturnCancelled { loan_id, reason, cancelled_at } => {
            assert_eq!(loan_id, "loan-a");
            assert_eq!(reason.as_deref(), Some("mistake"));
            assert_eq!(*cancelled_at, later);
        }
        other => panic!("unexpected payload {:?}", other),
    }
}

#[test]
fn cancel_return_fails_when_stock_went_elsewhere() {
    let (mut db, _, _) = seeded(1);
    let a = lend(&mut db, "a", &["i-1"], at(day(2024, 3, 2), 0)).unwrap();
    db.return_loan_with(&a.id, None, None, &ids(&["r0", "r1"]), at(day(2024, 3, 3), 0)).unwrap();
    lend(&mut db, "b", &["i-1"], at(day(2024, 3, 4), 0)).unwrap();
    assert_eq!(available(&db, "i-1"), 0);
    let before = db.get_events(-1).len();
    let res = db.cancel_return_with(&a.id, None, &ids(&["c0", "c1"]), at(day(2024, 3, 5), 0));
    assert_eq!(res.unwrap_err(), LedgerError::InsufficientStock);
    assert_eq!(db.get_loan_by_id(&a.id).unwrap().status, LoanStatus::Returned);
    assert_eq!(available(&db, "i-1"), 0);
    assert_eq!(db.get_events(-1).len(), before);
    assert_eq!(db.cancel_return(&a.id, None).unwrap_err(), LedgerError::InsufficientStock);
}

#[test]
fn cancel_return_of_active_loan_is_an_invalid_transition() {
    let (mut db, _, _) = seeded(1);
    let a = lend(&mut db, "a", &["i-1"], at(day(2024, 3, 2), 0)).unwrap();
    let res = db.cancel_return_with(&a.id, None, &ids(&["c0", "c1"]), at(day(2024, 3, 5), 0));
    assert_eq!(res.unwrap_err(), LedgerError::InvalidTransition);
    db.update_overdue_loans_on(day(2025, 1, 1));
    let res = db.cancel_return_with(&a.id, None, &ids(&["c0", "c1"]), at(day(2025, 1, 5), 0));
    assert_eq!(res.unwrap_err(), LedgerError::InvalidTransition);
}

#[test]
fn cancel_return_with_drawn_identifiers() {
    let mut db = Database::new();
    let user = db.create_user(user_req("Ana", "111A")).unwrap();
    let item = db.create_item(item_req("Andador", 1)).unwrap();
    let loan = db
        .create_loan(CreateLoanRequest {
            user_id: user.id.clone(),
            item_ids: vec![item.id.clone()],
            start_date: day(2024, 3, 1),
            expected_end_date: day(2024, 3, 15),
            notes: None,
        })
        .unwrap();
    db.return_loan(&loan.id, None, None).unwrap();
    let open = db.cancel_return(&loan.id, Some("again".to_string())).unwrap();
    assert_eq!(open.status, LoanStatus::Active);
    assert_eq!(available(&db, &item.id), 0);
    assert_eq!(db.get_events(-1).len(), 2 + 2 + 2 + 2);
}

#[test]
fn last_unit_goes_to_one_of_two_requests() {
    let (mut db, _, _) = seeded(1);
    let first = lend(&mut db, "a", &["i-1"], at(day(2024, 3, 2), 0));
    let second = lend(&mut db, "b", &["i-1"], at(day(2024, 3, 2), 0));
    assert!(first.is_ok());
    assert_eq!(second.unwrap_err(), LedgerError::InsufficientStock);
    assert_eq!(available(&db, "i-1"), 0);
    assert_eq!(db.get_loans().len(), 1);
}

#[test]
fn sweep_marks_yesterday_and_leaves_today_and_tomorrow() {
    let (mut db, _, _) = seeded(3);
    let now = at(day(2024, 3, 1), 0);
    let req = |due| loan_req("u-1", &["i-1"], due);
    db.create_loan_with(req(day(2024, 3, 9)), &ids(&["y", "y1", "y2", "y3"]), now).unwrap();
    db.create_loan_with(req(day(2024, 3, 10)), &ids(&["t", "t1", "t2", "t3"]), now).unwrap();
    db.create_loan_with(req(day(2024, 3, 11)), &ids(&["f", "f1", "f2", "f3"]), now).unwrap();
    let before = db.get_events(-1).len();
    let untouched = db.get_loan_by_id("y").unwrap().updated_at;
    assert_eq!(db.update_overdue_loans_on(day(2024, 3, 10)), 1);
    assert_eq!(db.get_loan_by_id("y").unwrap().status, LoanStatus::Overdue);
    assert_eq!(db.get_loan_by_id("y").unwrap().updated_at, untouched);
    assert_eq!(db.get_loan_by_id("t").unwrap().status, LoanStatus::Active);
    assert_eq!(db.get_loan_by_id("f").unwrap().status, LoanStatus::Active);
    assert_eq!(db.get_events(-1).len(), before);
    assert_eq!(available(&db, "i-1"), 0);
    assert_eq!(db.update_overdue_loans_on(day(2024, 3, 10)), 0);
    assert_eq!(db.update_overdue_loans_on(day(2025, 1, 1)), 2);
}

#[test]
fn sweep_leaves_returned_loans_alone() {
    let (mut db, _, _) = seeded(1);
    let a = lend(&mut db, "a", &["i-1"], at(day(2024, 3, 2), 0)).unwrap();
    db.return_loan_with(&a.id, None, None, &ids(&["r0", "r1"]), at(day(2024, 3, 3), 0)).unwrap();
    assert_eq!(db.update_overdue_loans_on(day(2030, 1, 1)), 0);
    assert_eq!(db.get_loan_by_id(&a.id).unwrap().status, LoanStatus::Returned);
}

#[test]
fn sweep_compares_year_month_and_day() {
    let (mut db, _, _) = seeded(3);
    let now = at(day(2024, 3, 1), 0);
    let req = |due| loan_req("u-1", &["i-1"], due);
    db.create_loan_with(req(day(2023, 12, 31)), &ids(&["a", "a1", "a2", "a3"]), now).unwrap();
    db.create_loan_with(req(day(2024, 1, 31)), &ids(&["b", "b1", "b2", "b3"]), now).unwrap();
    db.create_loan_with(req(day(2024, 2, 1)), &ids(&["c", "c1", "c2", "c3"]), now).unwrap();
    assert_eq!(db.update_overdue_loans_on(day(2024, 1, 1)), 1);
    assert_eq!(db.get_loan_by_id("a").unwrap().status, LoanStatus::Overdue);
    assert_eq!(db.update_overdue_loans_on(day(2024, 2, 1)), 1);
    assert_eq!(db.get_loan_by_id("b").unwrap().status, LoanStatus::Overdue);
    assert_eq!(db.get_loan_by_id("c").unwrap().status, LoanStatus::Active);
    let _ = db.update_overdue_loans();
    assert_eq!(db.get_loan_by_id("c").unwrap().status, LoanStatus::Overdue);
}

#[test]
fn stock_stays_within_bounds_over_a_run() {
    let (mut db, _, _) = seeded(2);
    db.create_item_with(item_req("Muletas", 1), &ids(&["i-2", "e-i-2"]), at(day(2024, 3, 1), 5)).unwrap();
    let within = |db: &Database| {
        for item in db.get_items() {
            assert!(0 <= item.available_stock && item.available_stock <= item.total_stock);
        }
    };
    let mut clock = 0;
    let mut tick = || {
        clock += 1;
        at(day(2024, 3, 2), clock)
    };
    let a = lend(&mut db, "a", &["i-1", "i-2"], tick()).unwrap();
    within(&db);
    let _ = lend(&mut db, "b", &["i-1", "i-2"], tick());
    within(&db);
    let b = lend(&mut db, "c", &["i-1"], tick()).unwrap();
    within(&db);
    let _ = db.update_item_stock_with("i-1", 1, &ids(&["s1"]), tick());
    within(&db);
    db.return_loan_with(&a.id, None, None, &ids(&["r0", "r1", "r2"]), tick()).unwrap();
    within(&db);
    let _ = db.return_loan_with(&a.id, None, None, &ids(&["q0", "q1", "q2"]), tick());
    within(&db);
    db.update_item_stock_with("i-1", 1, &ids(&["s2"]), tick()).unwrap();
    within(&db);
    let _ = db.cancel_return_with(&a.id, None, &ids(&["c0", "c1", "c2"]), tick());
    within(&db);
    db.return_loan_with(&b.id, None, None, &ids(&["w0", "w1"]), tick()).unwrap();
    within(&db);
    db.cancel_return_with(&a.id, None, &ids(&["d0", "d1", "d2"]), tick()).unwrap();
    within(&db);
    assert_eq!(available(&db, "i-1"), 0);
    assert_eq!(available(&db, "i-2"), 0);
}

#[test]
fn loan_keeps_the_name_after_the_user_is_gone() {
    let (mut db, _, _) = seeded(1);
    let a = lend(&mut db, "a", &["i-1"], at(day(2024, 3, 2), 0)).unwrap();
    db.delete_user_with("u-1", &ids(&["d"]), at(day(2024, 3, 3), 0)).unwrap();
    let loan = db.get_loan_by_id(&a.id).unwrap();
    assert_eq!(loan.user_id, "u-1");
    assert_eq!(loan.user_name, "Ana");
    assert_eq!(db.get_loans().len(), 1);
    assert_eq!(db.get_user_by_id("u-1").unwrap_err(), LedgerError::NotFound);
}
