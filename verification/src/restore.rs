//! Taking a ledger over from stored records, after checking that they are
//! consistent.

use crate::audit::Event;
use crate::database::{count_in, Database};
use crate::ledger::{
    all_line_ids, event_ids, item_ids, line_ids, loan_ids, occurrences, units_out, user_dnis,
    user_ids, Ledger,
};
use crate::loan_ledger::line_item_ids;
use crate::models::{views, Item, Loan, LoanStatus, User};
use vstd::prelude::*;

verus! {

/// No text stands twice in the list.
pub fn all_distinct(keys: &Vec<String>) -> (b: bool)
    ensures
        b == keys.deep_view().no_duplicates(),
{
    let ghost all = keys.deep_view();
    let mut k: usize = 0;
    while k < keys.len()
        invariant
            k <= keys.len(),
            all == keys.deep_view(),
            forall|a: int, b: int| 0 <= a < b < k ==> all[a] != all[b],
        decreases keys.len() - k,
    {
        let mut a: usize = 0;
        while a < k
            invariant
                a <= k,
                k < keys.len(),
                all == keys.deep_view(),
                forall|b: int| 0 <= b < a ==> all[b] != all[k as int],
            decreases k - a,
        {
            if keys[a] == keys[k] {
                proof {
                    assert(all[a as int] == all[k as int]);
                }
                return false;
            }
            a += 1;
        }
        k += 1;
    }
    true
}

fn user_id_column(users: &Vec<User>) -> (r: Vec<String>)
    ensures
        r.deep_view() == user_ids(views(users@)),
{
    let mut out: Vec<String> = Vec::new();
    let mut k: usize = 0;
    while k < users.len()
        invariant
            k <= users.len(),
            out.len() == k,
            forall|i: int| 0 <= i < k ==> out[i]@ == users[i].id@,
        decreases users.len() - k,
    {
        out.push(users[k].id.clone());
        k += 1;
    }
    proof {
        assert(out.deep_view() =~= user_ids(views(users@)));
    }
    out
}

fn user_dni_column(users: &Vec<User>) -> (r: Vec<String>)
    ensures
        r.deep_view() == user_dnis(views(users@)),
{
    let mut out: Vec<String> = Vec::new();
    let mut k: usize = 0;
    while k < users.len()
        invariant
            k <= users.len(),
            out.len() == k,
            forall|i: int| 0 <= i < k ==> out[i]@ == users[i].dni@,
        decreases users.len() - k,
    {
        out.push(users[k].dni.clone());
        k += 1;
    }
    proof {
        assert(out.deep_view() =~= user_dnis(views(users@)));
    }
    out
}

fn item_id_column(items: &Vec<Item>) -> (r: Vec<String>)
    ensures
        r.deep_view() == item_ids(views(items@)),
{
    let mut out: Vec<String> = Vec::new();
    let mut k: usize = 0;
    while k < items.len()
        invariant
            k <= items.len(),
            out.len() == k,
            forall|i: int| 0 <= i < k ==> out[i]@ == items[i].id@,
        decreases items.len() - k,
    {
        out.push(items[k].id.clone());
        k += 1;
    }
    proof {
        assert(out.deep_view() =~= item_ids(views(items@)));
    }
    out
}

fn loan_id_column(loans: &Vec<Loan>) -> (r: Vec<String>)
    ensures
        r.deep_view() == loan_ids(views(loans@)),
{
    let mut out: Vec<String> = Vec::new();
    let mut k: usize = 0;
    while k < loans.len()
        invariant
            k <= loans.len(),
            out.len() == k,
            forall|i: int| 0 <= i < k ==> out[i]@ == loans[i].id@,
        decreases loans.len() - k,
    {
        out.push(loans[k].id.clone());
        k += 1;
    }
    proof {
        assert(out.deep_view() =~= loan_ids(views(loans@)));
    }
    out
}

fn event_id_column(events: &Vec<Event>) -> (r: Vec<String>)
    ensures
        r.deep_view() == event_ids(views(events@)),
{
    let mut out: Vec<String> = Vec::new();
    let mut k: usize = 0;
    while k < events.len()
        invariant
            k <= events.len(),
            out.len() == k,
            forall|i: int| 0 <= i < k ==> out[i]@ == events[i].id@,
        decreases events.len() - k,
    {
        out.push(events[k].id.clone());
        k += 1;
    }
    proof {
        assert(out.deep_view() =~= event_ids(views(events@)));
    }
    out
}

fn line_id_column(loans: &Vec<Loan>) -> (r: Vec<String>)
    ensures
        r.deep_view() == all_line_ids(views(loans@)),
{
    let ghost rows = views(loans@);
    let mut out: Vec<String> = Vec::new();
    let mut i: usize = 0;
    proof {
        assert(rows.take(0) =~= Seq::empty());
        assert(out.deep_view() =~= all_line_ids(rows.take(0)));
    }
    while i < loans.len()
        invariant
            i <= loans.len(),
            rows == views(loans@),
            out.deep_view() == all_line_ids(rows.take(i as int)),
        decreases loans.len() - i,
    {
        let ghost done = out.deep_view();
        let ghost lines = line_ids(rows[i as int].items);
        proof {
            assert(rows.take(i as int + 1).drop_last() =~= rows.take(i as int));
            assert(rows.take(i as int + 1).last() == loans[i as int]@);
            assert(rows[i as int] == loans[i as int]@);
        }
        let mut a: usize = 0;
        while a < loans[i].items.len()
            invariant
                i < loans.len(),
                a <= loans[i as int].items.len(),
                rows == views(loans@),
                rows[i as int] == loans[i as int]@,
                lines == line_ids(rows[i as int].items),
                out.deep_view() == done + lines.take(a as int),
            decreases loans[i as int].items.len() - a,
        {
            let ghost before = out.deep_view();
            out.push(loans[i].items[a].id.clone());
            proof {
                assert(lines[a as int] == loans[i as int].items[a as int].id@);
                assert(out.deep_view() =~= before.push(lines[a as int]));
                assert(lines.take(a as int + 1) =~= lines.take(a as int).push(lines[a as int]));
                assert(out.deep_view() =~= done + lines.take(a as int + 1));
            }
            a += 1;
        }
        proof {
            assert(lines.take(a as int) =~= lines);
        }
        i += 1;
    }
    proof {
        assert(rows.take(i as int) =~= rows);
    }
    out
}

/// The units of one item that are out on loan.
pub fn count_units_out(loans: &Vec<Loan>, item_id: &String) -> (n: u128)
    ensures
        n == units_out(views(loans@), item_id@),
{
    let ghost rows = views(loans@);
    let mut n: u128 = 0;
    let mut i: usize = 0;
    while i < loans.len()
        invariant
            i <= loans.len(),
            rows == views(loans@),
            n == units_out(rows.take(i as int), item_id@),
            n <= i * 0x1_0000_0000_0000_0000,
        decreases loans.len() - i,
    {
        proof {
            assert(rows.take(i as int + 1).drop_last() =~= rows.take(i as int));
            assert(rows.take(i as int + 1).last() == loans[i as int]@);
        }
        match loans[i].status {
            LoanStatus::Returned => {},
            _ => {
                let wanted = line_item_ids(&loans[i].items);
                let held = count_in(&wanted, item_id);
                n = n + held as u128;
            },
        }
        i += 1;
    }
    proof {
        assert(rows.take(i as int) =~= rows);
    }
    n
}

/// Every item has between zero and its total stock available, and what is
/// missing from the total is what is out on loan.
fn stock_adds_up(items: &Vec<Item>, loans: &Vec<Loan>) -> (b: bool)
    ensures
        b == forall|j: int|
            0 <= j < items.len() ==> 0 <= (#[trigger] views(items@)[j]).available_stock
                && views(items@)[j].total_stock - views(items@)[j].available_stock == units_out(
                views(loans@),
                views(items@)[j].id,
            ),
{
    let mut j: usize = 0;
    while j < items.len()
        invariant
            j <= items.len(),
            forall|i: int|
                0 <= i < j ==> 0 <= (#[trigger] views(items@)[i]).available_stock && views(
                    items@,
                )[i].total_stock - views(items@)[i].available_stock == units_out(
                    views(loans@),
                    views(items@)[i].id,
                ),
        decreases items.len() - j,
    {
        proof {
            assert(views(items@)[j as int] == items[j as int]@);
        }
        if items[j].available_stock < 0 {
            return false;
        }
        let out = count_units_out(loans, &items[j].id);
        let gone: i64 = items[j].total_stock as i64 - items[j].available_stock as i64;
        if gone < 0 || gone as u128 != out {
            return false;
        }
        j += 1;
    }
    true
}

/// Every loan line names its loan and a known item, and stands for one
/// unit.
fn lines_are_sound(items: &Vec<Item>, loans: &Vec<Loan>) -> (b: bool)
    ensures
        b == forall|i: int, a: int|
            0 <= i < loans.len() && 0 <= a < views(loans@)[i].items.len() ==> {
                &&& item_ids(views(items@)).contains(
                    (#[trigger] views(loans@)[i].items[a]).item_id,
                )
                &&& views(loans@)[i].items[a].loan_id == views(loans@)[i].id
                &&& views(loans@)[i].items[a].quantity == 1
            },
{
    let known = item_id_column(items);
    let ghost rows = views(loans@);
    let mut i: usize = 0;
    while i < loans.len()
        invariant
            i <= loans.len(),
            rows == views(loans@),
            known.deep_view() == item_ids(views(items@)),
            forall|k: int, a: int|
                0 <= k < i && 0 <= a < rows[k].items.len() ==> {
                    &&& item_ids(views(items@)).contains((#[trigger] rows[k].items[a]).item_id)
                    &&& rows[k].items[a].loan_id == rows[k].id
                    &&& rows[k].items[a].quantity == 1
                },
        decreases loans.len() - i,
    {
        let mut a: usize = 0;
        proof {
            assert(rows[i as int] == loans[i as int]@);
        }
        while a < loans[i].items.len()
            invariant
                i < loans.len(),
                a <= loans[i as int].items.len(),
                rows == views(loans@),
                rows[i as int] == loans[i as int]@,
                known.deep_view() == item_ids(views(items@)),
                forall|b: int|
                    0 <= b < a ==> {
                        &&& item_ids(views(items@)).contains(
                            (#[trigger] rows[i as int].items[b]).item_id,
                        )
                        &&& rows[i as int].items[b].loan_id == rows[i as int].id
                        &&& rows[i as int].items[b].quantity == 1
                    },
            decreases loans[i as int].items.len() - a,
        {
            let line = &loans[i].items[a];
            proof {
                assert(rows[i as int].items[a as int] == line@);
            }
            let named = count_in(&known, &line.item_id) > 0;
            proof {
                if named {
                    lemma_counted_is_there(known.deep_view(), line.item_id@);
                } else {
                    lemma_uncounted_is_absent(known.deep_view(), line.item_id@);
                }
            }
            if !named || !(line.loan_id == loans[i].id) || line.quantity != 1 {
                return false;
            }
            a += 1;
        }
        i += 1;
    }
    true
}

/// What is counted at least once is there.
pub proof fn lemma_counted_is_there(s: Seq<Seq<char>>, x: Seq<char>)
    requires
        occurrences(s, x) > 0,
    ensures
        s.contains(x),
    decreases s.len(),
{
    if s.len() > 0 {
        if s.last() == x {
            assert(s[s.len() - 1] == x);
        } else {
            lemma_counted_is_there(s.drop_last(), x);
            let k = choose|k: int| 0 <= k < s.drop_last().len() && s.drop_last()[k] == x;
            assert(s[k] == x);
        }
    }
}

/// What is counted zero times is not there.
pub proof fn lemma_uncounted_is_absent(s: Seq<Seq<char>>, x: Seq<char>)
    requires
        occurrences(s, x) == 0,
    ensures
        !s.contains(x),
    decreases s.len(),
{
    if s.len() > 0 {
        lemma_uncounted_is_absent(s.drop_last(), x);
        assert forall|k: int| 0 <= k < s.len() implies s[k] != x by {
            if k < s.len() - 1 {
                assert(s.drop_last()[k] == s[k]);
            }
        }
    }
}

impl Database {
    /// The ledger made of stored records, if they are consistent.
    pub fn from_records(users: Vec<User>, items: Vec<Item>, loans: Vec<Loan>, events: Vec<Event>) -> (res:
        Option<Database>)
        ensures
            res is Some <==> (Ledger {
                users: views(users@),
                items: views(items@),
                loans: views(loans@),
                events: views(events@),
            }).wf(),
            res matches Some(db) ==> db.wf() && db@ == (Ledger {
                users: views(users@),
                items: views(items@),
                loans: views(loans@),
                events: views(events@),
            }),
    {
        let sound = all_distinct(&user_id_column(&users)) && all_distinct(&user_dni_column(&users))
            && all_distinct(&item_id_column(&items)) && all_distinct(&loan_id_column(&loans))
            && all_distinct(&line_id_column(&loans)) && all_distinct(&event_id_column(&events)) && stock_adds_up(&items, &loans)
            && lines_are_sound(&items, &loans);
        if sound {
            Some(Database { users, items, loans, events })
        } else {
            None
        }
    }
}

} // verus!
