use saf_ledger::audit::{EventData, ItemSource};
use saf_ledger::catalogue::{default_catalogue, DEFAULT_ITEMS};
use saf_ledger::commands::get_default_items;
use saf_ledger::database::Database;
use saf_ledger::error::LedgerError;
use saf_ledger::models::{CatalogueEntry, CreateItemRequest, CreateLoanRequest, CreateUserRequest, Item};
use saf_ledger::time::{Date, Timestamp};

fn moment(seconds: u32) -> Timestamp {
    Timestamp { date: Date { year: 2024, month: 5, day: 20 }, seconds, nanos: 7 }
}

fn names(list: &[&str]) -> Vec<String> {
    list.iter().map(|s| s.to_string()).collect()
}

fn bed(total: i32) -> CreateItemRequest {
    CreateItemRequest {
        name: "Cama".to_string(),
        description: Some("Cama articulada".to_string()),
        category: "bed".to_string(),
        icon: "b".to_string(),
        total_stock: total,
        notes: Some("heavy".to_string()),
    }
}

#[test]
fn new_item_has_all_stock_available() {
    let mut db = Database::new();
    let item = db.create_item_with(bed(4), &names(&["i", "e"]), moment(1)).unwrap();
    assert_eq!(item.id, "i");
    assert_eq!(item.name, "Cama");
    assert_eq!(item.description.as_deref(), Some("Cama articulada"));
    assert_eq!(item.category, "bed");
    assert_eq!(item.icon, "b");
    assert_eq!(item.total_stock, 4);
    assert_eq!(item.available_stock, 4);
    assert_eq!(item.notes.as_deref(), Some("heavy"));
    assert_eq!(item.created_at, moment(1));
    assert_eq!(item.updated_at, moment(1));
    let stored = db.get_item_by_id("i").unwrap();
    assert_eq!(stored.available_stock, 4);
    let events = db.get_events(-1);
    assert_eq!(events.len(), 1);
    assert_eq!(events[0].id, "e");
    assert_eq!(events[0].event_type(), "ITEM_CREATED");
    assert_eq!(events[0].loan_id, None);
    assert_eq!(events[0].user_id, None);
    match &events[0].data {
        EventData::ItemCreated { item_id, name, source } => {
            assert_eq!(item_id, "i");
            assert_eq!(name, "Cama");
            assert_eq!(*source, ItemSource::Custom);
            assert_eq!(source.as_str(), "custom");
        }
        other => panic!("unexpected payload {:?}", other),
    }
}

#[test]
fn new_item_with_no_stock_is_fine() {
    let mut db = Database::new();
    let item = db.create_item_with(bed(0), &names(&["i", "e"]), moment(1)).unwrap();
    assert_eq!(item.total_stock, 0);
    assert_eq!(item.available_stock, 0);
}

#[test]
fn new_item_with_negative_stock_is_an_invalid_state() {
    let mut db = Database::new();
    let res = db.create_item_with(bed(-1), &names(&["i", "e"]), moment(1));
    assert_eq!(res.unwrap_err(), LedgerError::InvalidState);
    assert_eq!(db.get_items().len(), 0);
    assert_eq!(db.get_events(-1).len(), 0);
    assert_eq!(db.create_item(bed(i32::MIN)).unwrap_err(), LedgerError::InvalidState);
}

#[test]
fn new_item_with_used_identifier_is_a_conflict() {
    let mut db = Database::new();
    db.create_item_with(bed(1), &names(&["i", "e"]), moment(1)).unwrap();
    assert_eq!(db.create_item_with(bed(1), &names(&["i", "f"]), moment(2)).unwrap_err(), LedgerError::Conflict);
    assert_eq!(db.create_item_with(bed(1), &names(&["j", "e"]), moment(2)).unwrap_err(), LedgerError::Conflict);
    assert_eq!(db.create_item_with(bed(1), &names(&["j", "j"]), moment(2)).unwrap_err(), LedgerError::Conflict);
    assert_eq!(db.get_items().len(), 1);
    assert_eq!(db.get_events(-1).len(), 1);
    db.create_item_with(bed(1), &names(&["j", "f"]), moment(2)).unwrap();
    assert_eq!(db.get_items().len(), 2);
}

#[test]
fn drawn_item_identifiers_differ() {
    let mut db = Database::new();
    let a = db.create_item(bed(1)).unwrap();
    let b = db.create_item(bed(1)).unwrap();
    assert_ne!(a.id, b.id);
    assert_eq!(a.id.len(), 36);
    assert_eq!(db.get_items().len(), 2);
    assert_eq!(db.get_events(-1).len(), 2);
    assert_eq!(a.created_at, a.updated_at);
}

#[test]
fn total_stock_edit_moves_available_by_the_same_amount() {
    let mut db = Database::new();
    db.create_item_with(bed(5), &names(&["i", "e"]), moment(1)).unwrap();
    db.create_user_with(
        CreateUserRequest {
            name: "Ana".to_string(),
            dni: "1".to_string(),
            address: "a".to_string(),
            phone: None,
            email: None,
            notes: None,
        },
        &names(&["u", "eu"]),
        moment(1),
    )
    .unwrap();
    db.create_loan_with(
        CreateLoanRequest {
            user_id: "u".to_string(),
            item_ids: names(&["i", "i"]),
            start_date: Date { year: 2024, month: 5, day: 20 },
            expected_end_date: Date { year: 2024, month: 6, day: 20 },
            notes: None,
        },
        &names(&["l", "l1", "l2", "x", "x1", "x2"]),
        moment(2),
    )
    .unwrap();
    assert_eq!(db.get_item_by_id("i").unwrap().available_stock, 3);
    let item = db.update_item_stock_with("i", 9, &names(&["s1"]), moment(3)).unwrap();
    assert_eq!(item.total_stock, 9);
    assert_eq!(item.available_stock, 7);
    assert_eq!(item.updated_at, moment(3));
    assert_eq!(item.created_at, moment(1));
    match &db.get_events(1)[0].data {
        EventData::StockUpdated { item_id, previous_total, new_total, previous_available, new_available } => {
            assert_eq!(item_id, "i");
            assert_eq!(*previous_total, 5);
            assert_eq!(*new_total, 9);
            assert_eq!(*previous_available, 3);
            assert_eq!(*new_available, 7);
        }
        other => panic!("unexpected payload {:?}", other),
    }
    let item = db.update_item_stock_with("i", 2, &names(&["s2"]), moment(4)).unwrap();
    assert_eq!(item.total_stock, 2);
    assert_eq!(item.available_stock, 0);
    let before = db.get_events(-1).len();
    let res = db.update_item_stock_with("i", 1, &names(&["s3"]), moment(5));
    assert_eq!(res.unwrap_err(), LedgerError::InvalidState);
    assert_eq!(db.update_item_stock_with("i", -4, &names(&["s3"]), moment(5)).unwrap_err(), LedgerError::InvalidState);
    assert_eq!(db.update_item_stock_with("i", i32::MIN, &names(&["s3"]), moment(5)).unwrap_err(), LedgerError::InvalidState);
    assert_eq!(db.get_item_by_id("i").unwrap().total_stock, 2);
    assert_eq!(db.get_events(-1).len(), before);
    let item = db.update_item_stock_with("i", i32::MAX, &names(&["s4"]), moment(6)).unwrap();
    assert_eq!(item.available_stock, i32::MAX - 2);
}

#[test]
fn total_stock_edit_of_unknown_item_is_not_found() {
    let mut db = Database::new();
    assert_eq!(db.update_item_stock_with("ghost", 3, &names(&["s"]), moment(1)).unwrap_err(), LedgerError::NotFound);
    assert_eq!(db.update_item_stock("ghost", 3).unwrap_err(), LedgerError::NotFound);
    assert_eq!(db.get_item_by_id("ghost").unwrap_err(), LedgerError::NotFound);
}

#[test]
fn total_stock_edit_with_used_identifier_is_a_conflict() {
    let mut db = Database::new();
    db.create_item_with(bed(5), &names(&["i", "e"]), moment(1)).unwrap();
    assert_eq!(db.update_item_stock_with("i", 3, &names(&["e"]), moment(2)).unwrap_err(), LedgerError::Conflict);
    assert_eq!(db.get_item_by_id("i").unwrap().total_stock, 5);
    let item = db.update_item_stock("i", 3).unwrap();
    assert_eq!(item.total_stock, 3);
    assert_eq!(item.available_stock, 3);
}

#[test]
fn reserve_takes_units_or_refuses() {
    let mut item = Database::new().create_item(bed(2)).unwrap();
    assert_eq!(item.reserve(1), Ok(()));
    assert_eq!(item.available_stock, 1);
    assert_eq!(item.reserve(2), Err(LedgerError::InsufficientStock));
    assert_eq!(item.available_stock, 1);
    assert_eq!(item.reserve(1), Ok(()));
    assert_eq!(item.available_stock, 0);
    assert_eq!(item.reserve(1), Err(LedgerError::InsufficientStock));
    assert_eq!(item.total_stock, 2);
}

#[test]
fn release_gives_units_back_without_looking_at_the_total() {
    let mut item: Item = Database::new().create_item(bed(2)).unwrap();
    item.release(1);
    assert_eq!(item.available_stock, 3);
    assert_eq!(item.total_stock, 2);
}

#[test]
fn catalogue_has_its_entries() {
    let list = default_catalogue();
    assert_eq!(list.len(), 52);
    assert_eq!(DEFAULT_ITEMS.len(), 52);
    assert_eq!(list[0].name, "Cama eléctrica");
    assert_eq!(list[0].description, "Cama articulada eléctrica con mando");
    assert_eq!(list[0].category, "mobility");
    assert_eq!(list[51].name, "Portaoxíxeno");
    assert_eq!(list[51].category, "other");
    assert_eq!(get_default_items().len(), 52);
    assert_eq!(get_default_items()[4].name, "Andador");
}

#[test]
fn default_items_are_added_once() {
    let mut db = Database::new();
    let added = db.add_default_items().unwrap();
    assert_eq!(added.len(), 52);
    assert_eq!(added[0].name, "Cama eléctrica");
    assert_eq!(added[0].total_stock, 0);
    assert_eq!(added[0].available_stock, 0);
    assert_eq!(added[0].description.as_deref(), Some("Cama articulada eléctrica con mando"));
    assert_eq!(added[0].notes, None);
    assert_eq!(db.get_items().len(), 52);
    assert_eq!(db.get_events(-1).len(), 52);
    let again = db.add_default_items().unwrap();
    assert_eq!(again.len(), 0);
    assert_eq!(db.get_items().len(), 52);
    assert_eq!(db.get_events(-1).len(), 52);
}

#[test]
fn catalogue_entries_with_a_known_name_are_skipped() {
    let mut db = Database::new();
    db.create_item_with(bed(1), &names(&["i", "e"]), moment(1)).unwrap();
    let entry = |name: &str| CatalogueEntry {
        name: name.to_string(),
        description: format!("{} d", name),
        category: "c".to_string(),
        icon: "x".to_string(),
    };
    let list = vec![entry("Andador"), entry("Cama"), entry("Andador"), entry("Lupa")];
    let added = db
        .add_from_catalogue_with(&list, &names(&["a", "ea", "l", "el"]), moment(2))
        .unwrap();
    assert_eq!(added.len(), 2);
    assert_eq!(added[0].id, "a");
    assert_eq!(added[0].name, "Andador");
    assert_eq!(added[0].description.as_deref(), Some("Andador d"));
    assert_eq!(added[1].id, "l");
    assert_eq!(added[1].name, "Lupa");
    assert_eq!(added[1].created_at, moment(2));
    assert_eq!(db.get_items().len(), 3);
    let events = db.get_events(2);
    assert_eq!(events[0].id, "ea");
    assert_eq!(events[1].id, "el");
    match &events[1].data {
        EventData::ItemCreated { item_id, name, source } => {
            assert_eq!(item_id, "l");
            assert_eq!(name, "Lupa");
            assert_eq!(*source, ItemSource::DefaultList);
            assert_eq!(source.as_str(), "default_list");
        }
        other => panic!("unexpected payload {:?}", other),
    }
    let none = db.add_from_catalogue_with(&list, &names(&[]), moment(3)).unwrap();
    assert_eq!(none.len(), 0);
}

#[test]
fn catalogue_with_used_identifier_is_a_conflict() {
    let mut db = Database::new();
    db.create_item_with(bed(1), &names(&["i", "e"]), moment(1)).unwrap();
    let list = vec![CatalogueEntry {
        name: "Lupa".to_string(),
        description: "d".to_string(),
        category: "c".to_string(),
        icon: "x".to_string(),
    }];
    let res = db.add_from_catalogue_with(&list, &names(&["l", "e"]), moment(2));
    assert_eq!(res.unwrap_err(), LedgerError::Conflict);
    assert_eq!(db.get_items().len(), 1);
}
