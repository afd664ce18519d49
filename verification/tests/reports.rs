use saf_ledger::backup::{first_store_entry, is_store_name, newest_first, BackupInfo};
use saf_ledger::database::Database;
use saf_ledger::models::{Loan, LoanItem, LoanStatus};
use saf_ledger::report::{
    group_by_user, item_names_text, join, loans_of_year, report_sections, shorten, status_label, summarize,
};
use saf_ledger::text::ends_with;
use saf_ledger::time::{Date, Timestamp};

fn words(list: &[&str]) -> Vec<String> {
    list.iter().map(|s| s.to_string()).collect()
}

fn made(id: &str, user: &str, name: &str, year: i32, status: LoanStatus, items: &[&str]) -> Loan {
    let when = Timestamp { date: Date { year, month: 2, day: 3 }, seconds: 0, nanos: 0 };
    Loan {
        id: id.to_string(),
        user_id: user.to_string(),
        user_name: name.to_string(),
        start_date: Date { year, month: 2, day: 3 },
        expected_end_date: Date { year, month: 3, day: 3 },
        actual_end_date: None,
        status,
        notes: None,
        created_at: when,
        updated_at: when,
        items: items
            .iter()
            .enumerate()
            .map(|(k, n)| LoanItem {
                id: format!("{}-{}", id, k),
                loan_id: id.to_string(),
                item_id: format!("item-{}", n),
                item_name: n.to_string(),
                quantity: 1,
            })
            .collect(),
    }
}

fn sample() -> Vec<Loan> {
    vec![
        made("l1", "u2", "Xoan", 2024, LoanStatus::Active, &["Cama", "Lupa"]),
        made("l2", "u1", "Ana", 2024, LoanStatus::Returned, &["Andador"]),
        made("l3", "u2", "Xoan", 2023, LoanStatus::Returned, &[]),
        made("l4", "u3", "Berta", 2024, LoanStatus::Overdue, &["Cama"]),
        made("l5", "u2", "Xoan Novo", 2024, LoanStatus::Pending, &["Muletas", "Cama", "Lupa"]),
    ]
}

#[test]
fn statuses_have_their_labels() {
    assert_eq!(status_label(LoanStatus::Active), "Activo");
    assert_eq!(status_label(LoanStatus::Pending), "Pendente");
    assert_eq!(status_label(LoanStatus::Returned), "Devolto");
    assert_eq!(status_label(LoanStatus::Overdue), "Atrasado");
}

#[test]
fn texts_are_joined_with_the_separator_between() {
    assert_eq!(join(&words(&[]), ", "), "");
    assert_eq!(join(&words(&["a"]), ", "), "a");
    assert_eq!(join(&words(&["a", "b", "c"]), ", "), "a, b, c");
    assert_eq!(join(&words(&["", ""]), "|"), "|");
    assert_eq!(join(&words(&["a", "b"]), ""), "ab");
    assert_eq!(join(&words(&["DNI: 1", "Tel: 2"]), "   |   "), "DNI: 1   |   Tel: 2");
    let loans = sample();
    assert_eq!(item_names_text(&loans[0].items), "Cama, Lupa");
    assert_eq!(item_names_text(&loans[1].items), "Andador");
    assert_eq!(item_names_text(&loans[2].items), "");
}

#[test]
fn long_texts_are_shortened() {
    assert_eq!(shorten("abcdef", 5, 2), "ab...");
    assert_eq!(shorten("abcde", 5, 2), "abcde");
    assert_eq!(shorten("", 5, 2), "");
    assert_eq!(shorten("Cuña e Bastón de aluminio regulable", 32, 29), "Cuña e Bastón de aluminio reg...");
    assert_eq!(shorten("ñandú", 4, 1), "ñ...");
    assert_eq!(shorten("abcdef", 0, 0), "...");
    assert_eq!(shorten("ab", 1, 5), "ab");
}

#[test]
fn loans_are_picked_by_year() {
    let loans = sample();
    let ids = |y: i32| -> Vec<String> { loans_of_year(&loans, y).into_iter().map(|l| l.id).collect() };
    assert_eq!(ids(2024), words(&["l1", "l2", "l4", "l5"]));
    assert_eq!(ids(2023), words(&["l3"]));
    assert_eq!(ids(2022), words(&[]));
}

#[test]
fn loans_are_grouped_by_user_in_order_of_first_loan() {
    let groups = group_by_user(&sample());
    assert_eq!(groups.len(), 3);
    assert_eq!(groups[0].user_id, "u2");
    assert_eq!(groups[0].user_name, "Xoan");
    let of = |k: usize| -> Vec<String> { groups[k].loans.iter().map(|l| l.id.clone()).collect() };
    assert_eq!(of(0), words(&["l1", "l3", "l5"]));
    assert_eq!(groups[1].user_id, "u1");
    assert_eq!(of(1), words(&["l2"]));
    assert_eq!(groups[2].user_id, "u3");
    assert_eq!(of(2), words(&["l4"]));
    assert_eq!(group_by_user(&vec![]).len(), 0);
}

#[test]
fn report_sections_come_by_name() {
    let sections = report_sections(&sample());
    let names: Vec<String> = sections.iter().map(|s| s.user_name.clone()).collect();
    assert_eq!(names, words(&["Ana", "Berta", "Xoan"]));
    assert_eq!(sections[2].loans.len(), 3);
    assert_eq!(sections[2].loans[2].id, "l5");
}

#[test]
fn year_figures_add_up() {
    let sum = summarize(&sample());
    assert_eq!(sum.total_loans, 5);
    assert_eq!(sum.users_served, 3);
    assert_eq!(sum.total_items, 7);
    assert_eq!(sum.active_loans, 1);
    assert_eq!(sum.returned_loans, 2);
    assert_eq!(sum.other_loans, 2);
    let none = summarize(&vec![]);
    assert_eq!(none.total_loans, 0);
    assert_eq!(none.users_served, 0);
    assert_eq!(none.total_items, 0);
    assert_eq!(none.other_loans, 0);
}

#[test]
fn report_of_a_ledger_year() {
    let mut db = Database::new();
    let user = db
        .create_user(saf_ledger::models::CreateUserRequest {
            name: "Ana".to_string(),
            dni: "1".to_string(),
            address: "a".to_string(),
            phone: None,
            email: None,
            notes: None,
        })
        .unwrap();
    let item = db
        .create_item(saf_ledger::models::CreateItemRequest {
            name: "Cama".to_string(),
            description: None,
            category: "bed".to_string(),
            icon: "b".to_string(),
            total_stock: 2,
            notes: None,
        })
        .unwrap();
    for year in [2023, 2024, 2024] {
        db.create_loan(saf_ledger::models::CreateLoanRequest {
            user_id: user.id.clone(),
            item_ids: vec![item.id.clone()],
            start_date: Date { year, month: 1, day: 1 },
            expected_end_date: Date { year, month: 2, day: 1 },
            notes: None,
        })
        .map(|_| ())
        .unwrap_or(());
    }
    let of_year = loans_of_year(&db.get_loans(), 2024);
    assert_eq!(of_year.len(), 1);
    let sum = summarize(&of_year);
    assert_eq!(sum.users_served, 1);
    assert_eq!(sum.total_items, 1);
    assert_eq!(item_names_text(&of_year[0].items), "Cama");
}

#[test]
fn store_entries_are_known_by_their_ending() {
    assert!(is_store_name("saf_database.db"));
    assert!(is_store_name("x.sqlite"));
    assert!(is_store_name("x.sqlite3"));
    assert!(is_store_name(".db"));
    assert!(!is_store_name("metadata.json"));
    assert!(!is_store_name("db"));
    assert!(!is_store_name("x.DB"));
    assert!(!is_store_name("x.db.bak"));
    assert!(!is_store_name(""));
    assert!(ends_with("abc", "bc"));
    assert!(ends_with("abc", ""));
    assert!(ends_with("abc", "abc"));
    assert!(!ends_with("abc", "xabc"));
    assert!(!ends_with("abc", "ab"));
    assert!(ends_with("cuña", "ña"));
    assert_eq!(first_store_entry(&words(&["metadata.json", "a.db", "b.sqlite"])), Some(1));
    assert_eq!(first_store_entry(&words(&["a.sqlite3"])), Some(0));
    assert_eq!(first_store_entry(&words(&["metadata.json"])), None);
    assert_eq!(first_store_entry(&words(&[])), None);
}

#[test]
fn backups_are_shown_latest_first() {
    let info = |name: &str, day: u32, seconds: u32| BackupInfo {
        filename: name.to_string(),
        size: 10,
        created_at: Timestamp { date: Date { year: 2024, month: 4, day }, seconds, nanos: 0 },
        path: format!("/b/{}", name),
    };
    let list = vec![info("a", 2, 0), info("b", 5, 0), info("c", 2, 30), info("d", 5, 0), info("e", 1, 0)];
    let shown: Vec<String> = newest_first(&list).into_iter().map(|b| b.filename).collect();
    assert_eq!(shown, words(&["b", "d", "c", "a", "e"]));
    assert_eq!(newest_first(&vec![]).len(), 0);
    assert_eq!(newest_first(&list)[0].path, "/b/b");
    assert_eq!(newest_first(&list)[0].size, 10);
}
