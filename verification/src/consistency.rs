//! Every operation keeps the ledger consistent.

use crate::ledger::{
    all_line_ids, enough_for, event_ids, first_refusal, item_ids, lacking, line_ids, line_items,
    loan_ids, occurrences, position, refusal, units_held, units_out, user_dnis, user_ids, Ledger,
};
use crate::models::{
    CatalogueEntryView, CreateItemRequestView, CreateLoanRequestView, CreateUserRequestView,
    ItemView, LoanStatus, LoanView, UpdateUserRequestView,
};
use crate::time::{Date, Timestamp};
use vstd::prelude::*;

verus! {

/// What occurs nowhere is counted zero times.
pub proof fn lemma_occurrences_none(s: Seq<Seq<char>>, x: Seq<char>)
    requires
        forall|k: int| 0 <= k < s.len() ==> s[k] != x,
    ensures
        occurrences(s, x) == 0,
    decreases s.len(),
{
    if s.len() > 0 {
        lemma_occurrences_none(s.drop_last(), x);
    }
}

/// An item that no loan line names has no unit out.
pub proof fn lemma_units_out_unnamed(loans: Seq<LoanView>, id: Seq<char>)
    requires
        forall|i: int, a: int|
            0 <= i < loans.len() && 0 <= a < loans[i].items.len() ==> (
            #[trigger] loans[i].items[a]).item_id != id,
    ensures
        units_out(loans, id) == 0,
    decreases loans.len(),
{
    if loans.len() > 0 {
        let rest = loans.drop_last();
        assert forall|i: int, a: int|
            0 <= i < rest.len() && 0 <= a < rest[i].items.len() implies (
        #[trigger] rest[i].items[a]).item_id != id by {
            assert(rest[i] == loans[i]);
        }
        lemma_units_out_unnamed(rest, id);
        let lines = loans.last().items;
        assert forall|k: int| 0 <= k < line_items(lines).len() implies line_items(lines)[k]
            != id by {
            assert(loans[loans.len() - 1].items[k].item_id != id);
        }
        lemma_occurrences_none(line_items(lines), id);
    }
}

/// The identifier of every line of every loan is among the identifiers of
/// all lines, and no other is.
pub proof fn lemma_all_line_ids(loans: Seq<LoanView>, id: Seq<char>)
    ensures
        all_line_ids(loans).contains(id) <==> exists|i: int, a: int|
            0 <= i < loans.len() && 0 <= a < loans[i].items.len() && (
            #[trigger] loans[i].items[a]).id == id,
    decreases loans.len(),
{
    if loans.len() > 0 {
        let rest = loans.drop_last();
        let lines = loans.last().items;
        let all = all_line_ids(loans);
        lemma_all_line_ids(rest, id);
        if all.contains(id) {
            let k = choose|k: int| 0 <= k < all.len() && all[k] == id;
            if k < all_line_ids(rest).len() {
                assert(all_line_ids(rest)[k] == id);
                let (i, a) = choose|i: int, a: int|
                    0 <= i < rest.len() && 0 <= a < rest[i].items.len() && (
                    #[trigger] rest[i].items[a]).id == id;
                assert(loans[i].items[a].id == id);
            } else {
                let a = k - all_line_ids(rest).len();
                assert(line_ids(lines)[a] == id);
                assert(loans[loans.len() - 1].items[a].id == id);
            }
        }
        if exists|i: int, a: int|
            0 <= i < loans.len() && 0 <= a < loans[i].items.len() && (
            #[trigger] loans[i].items[a]).id == id {
            let (i, a) = choose|i: int, a: int|
                0 <= i < loans.len() && 0 <= a < loans[i].items.len() && (
                #[trigger] loans[i].items[a]).id == id;
            if i < rest.len() {
                assert(rest[i].items[a].id == id);
                assert(all_line_ids(rest).contains(id));
                let k = choose|k: int| 0 <= k < all_line_ids(rest).len() && all_line_ids(rest)[k] == id;
                assert(all[k] == id);
            } else {
                assert(line_ids(lines)[a] == id);
                assert(all[all_line_ids(rest).len() + a] == id);
            }
        }
    }
}

/// Loans with the same lines one by one have the same line identifiers.
pub proof fn lemma_all_line_ids_same(loans: Seq<LoanView>, after: Seq<LoanView>)
    requires
        after.len() == loans.len(),
        forall|i: int| 0 <= i < loans.len() ==> (#[trigger] after[i]).items == loans[i].items,
    ensures
        all_line_ids(after) == all_line_ids(loans),
    decreases loans.len(),
{
    if loans.len() > 0 {
        assert forall|i: int| 0 <= i < loans.drop_last().len() implies (
        #[trigger] after.drop_last()[i]).items == loans.drop_last()[i].items by {
            assert(after.drop_last()[i] == after[i]);
        }
        lemma_all_line_ids_same(loans.drop_last(), after.drop_last());
        assert(after[loans.len() - 1].items == loans[loans.len() - 1].items);
    }
}

/// Appending a key that is not among distinct keys keeps them distinct.
pub proof fn lemma_push_distinct(keys: Seq<Seq<char>>, key: Seq<char>)
    requires
        keys.no_duplicates(),
        !keys.contains(key),
    ensures
        keys.push(key).no_duplicates(),
{
    let after = keys.push(key);
    assert forall|i: int, j: int| 0 <= i < after.len() && 0 <= j < after.len() && i != j implies
        after[i] != after[j] by {
        if i < keys.len() && j < keys.len() {
        } else if i < keys.len() {
            assert(keys[i] != key);
        } else {
            assert(keys[j] != key);
        }
    }
}

/// Adding an item keeps the ledger consistent.
pub proof fn lemma_create_item_keeps_wf(
    s: Ledger,
    req: CreateItemRequestView,
    ids: Seq<Seq<char>>,
    now: Timestamp,
)
    requires
        s.wf(),
        ids.len() == 2,
    ensures
        s.create_item(req, ids, now).0.wf(),
{
    let t = s.create_item(req, ids, now).0;
    if req.total_stock >= 0 && s.fresh(ids) {
        let item = t.items.last();
        assert(!s.in_use(ids[0]));
        assert(!s.in_use(ids[1]));
        assert(item_ids(t.items) =~= item_ids(s.items).push(ids[0]));
        assert(event_ids(t.events) =~= event_ids(s.events).push(ids[1]));
        lemma_push_distinct(item_ids(s.items), ids[0]);
        lemma_push_distinct(event_ids(s.events), ids[1]);
        assert forall|i: int, a: int|
            0 <= i < s.loans.len() && 0 <= a < s.loans[i].items.len() implies (
        #[trigger] s.loans[i].items[a]).item_id != ids[0] by {
            assert(s.has_item(s.loans[i].items[a].item_id));
        }
        lemma_units_out_unnamed(s.loans, ids[0]);
        assert forall|j: int| 0 <= j < t.items.len() implies {
            &&& 0 <= (#[trigger] t.items[j]).available_stock
            &&& t.items[j].total_stock - t.items[j].available_stock == units_out(
                t.loans,
                t.items[j].id,
            )
        } by {
            if j < s.items.len() {
                assert(t.items[j] == s.items[j]);
            }
        }
        assert forall|i: int, a: int|
            0 <= i < t.loans.len() && 0 <= a < t.loans[i].items.len() implies {
            &&& t.has_item((#[trigger] t.loans[i].items[a]).item_id)
            &&& t.loans[i].items[a].loan_id == t.loans[i].id
            &&& t.loans[i].items[a].quantity == 1
        } by {
            let wanted = s.loans[i].items[a].item_id;
            assert(s.has_item(wanted));
            let w = choose|w: int| 0 <= w < item_ids(s.items).len() && item_ids(s.items)[w] == wanted;
            assert(item_ids(t.items)[w] == wanted);
        }
    }
}

/// Taking catalogue entries into the inventory keeps the ledger consistent.
pub proof fn lemma_add_from_catalogue_keeps_wf(
    s: Ledger,
    catalogue: Seq<CatalogueEntryView>,
    ids: Seq<Seq<char>>,
    now: Timestamp,
)
    requires
        s.wf(),
        ids.len() == 2 * lacking(s.items, catalogue).len(),
    ensures
        s.add_from_catalogue(catalogue, ids, now).0.wf(),
{
    let t = s.add_from_catalogue(catalogue, ids, now).0;
    if s.fresh(ids) {
        let entries = lacking(s.items, catalogue);
        let m = entries.len() as int;
        let new_items = Seq::new(m as nat, |k: int| ids[2 * k]);
        let new_events = Seq::new(m as nat, |k: int| ids[2 * k + 1]);
        assert(item_ids(t.items) =~= item_ids(s.items) + new_items);
        assert(event_ids(t.events) =~= event_ids(s.events) + new_events);
        assert forall|k: int| 0 <= k < m implies !item_ids(s.items).contains(
            #[trigger] new_items[k],
        ) by {
            assert(!s.in_use(ids[2 * k]));
        }
        assert forall|k: int| 0 <= k < m implies !event_ids(s.events).contains(
            #[trigger] new_events[k],
        ) by {
            assert(!s.in_use(ids[2 * k + 1]));
        }
        lemma_extend_distinct(item_ids(s.items), new_items);
        lemma_extend_distinct(event_ids(s.events), new_events);
        assert forall|j: int| 0 <= j < t.items.len() implies {
            &&& 0 <= (#[trigger] t.items[j]).available_stock
            &&& t.items[j].total_stock - t.items[j].available_stock == units_out(
                t.loans,
                t.items[j].id,
            )
        } by {
            if j < s.items.len() {
                assert(t.items[j] == s.items[j]);
            } else {
                let id = ids[2 * (j - s.items.len())];
                assert(!s.in_use(id));
                assert forall|i: int, a: int|
                    0 <= i < s.loans.len() && 0 <= a < s.loans[i].items.len() implies (
                #[trigger] s.loans[i].items[a]).item_id != id by {
                    assert(s.has_item(s.loans[i].items[a].item_id));
                }
                lemma_units_out_unnamed(s.loans, id);
            }
        }
        assert forall|i: int, a: int|
            0 <= i < t.loans.len() && 0 <= a < t.loans[i].items.len() implies {
            &&& t.has_item((#[trigger] t.loans[i].items[a]).item_id)
            &&& t.loans[i].items[a].loan_id == t.loans[i].id
            &&& t.loans[i].items[a].quantity == 1
        } by {
            let wanted = s.loans[i].items[a].item_id;
            assert(s.has_item(wanted));
            let w = choose|w: int| 0 <= w < item_ids(s.items).len() && item_ids(s.items)[w] == wanted;
            assert(item_ids(t.items)[w] == wanted);
        }
    }
}

/// Setting an item's total stock keeps the ledger consistent.
pub proof fn lemma_set_total_stock_keeps_wf(
    s: Ledger,
    item_id: Seq<char>,
    new_total: int,
    ids: Seq<Seq<char>>,
    now: Timestamp,
)
    requires
        s.wf(),
        ids.len() == 1,
    ensures
        s.set_total_stock(item_id, new_total, ids, now).0.wf(),
{
    let t = s.set_total_stock(item_id, new_total, ids, now).0;
    if t != s {
        let j = position(item_ids(s.items), item_id);
        assert(s.has_item(item_id));
        assert(0 <= j < s.items.len());
        assert(!s.in_use(ids[0]));
        assert(item_ids(t.items) =~= item_ids(s.items));
        assert(event_ids(t.events) =~= event_ids(s.events).push(ids[0]));
        lemma_push_distinct(event_ids(s.events), ids[0]);
        assert forall|k: int| 0 <= k < t.items.len() implies {
            &&& 0 <= (#[trigger] t.items[k]).available_stock
            &&& t.items[k].total_stock - t.items[k].available_stock == units_out(
                t.loans,
                t.items[k].id,
            )
        } by {
            if k != j {
                assert(t.items[k] == s.items[k]);
            } else {
                assert(s.items[j].total_stock - s.items[j].available_stock == units_out(
                    s.loans,
                    s.items[j].id,
                ));
            }
        }
        assert forall|i: int, a: int|
            0 <= i < t.loans.len() && 0 <= a < t.loans[i].items.len() implies {
            &&& t.has_item((#[trigger] t.loans[i].items[a]).item_id)
            &&& t.loans[i].items[a].loan_id == t.loans[i].id
            &&& t.loans[i].items[a].quantity == 1
        } by {
            assert(s.has_item(s.loans[i].items[a].item_id));
        }
    }
}

/// Taking one key out of distinct keys keeps them distinct.
pub proof fn lemma_remove_distinct(keys: Seq<Seq<char>>, at: int)
    requires
        keys.no_duplicates(),
        0 <= at < keys.len(),
    ensures
        keys.remove(at).no_duplicates(),
{
    let after = keys.remove(at);
    assert forall|i: int, j: int| 0 <= i < after.len() && 0 <= j < after.len() && i != j implies
        after[i] != after[j] by {
        let a = if i < at {
            i
        } else {
            i + 1
        };
        let b = if j < at {
            j
        } else {
            j + 1
        };
        assert(after[i] == keys[a]);
        assert(after[j] == keys[b]);
    }
}

/// A change that touches only users and adds events leaves stock and loans
/// consistent.
pub proof fn lemma_users_only(s: Ledger, t: Ledger)
    requires
        s.wf(),
        t.items == s.items,
        t.loans == s.loans,
        user_ids(t.users).no_duplicates(),
        user_dnis(t.users).no_duplicates(),
        event_ids(t.events).no_duplicates(),
    ensures
        t.wf(),
{
    assert forall|i: int, a: int|
        0 <= i < t.loans.len() && 0 <= a < t.loans[i].items.len() implies {
        &&& t.has_item((#[trigger] t.loans[i].items[a]).item_id)
        &&& t.loans[i].items[a].loan_id == t.loans[i].id
        &&& t.loans[i].items[a].quantity == 1
    } by {
        assert(s.has_item(s.loans[i].items[a].item_id));
    }
}

/// Adding a user keeps the ledger consistent.
pub proof fn lemma_create_user_keeps_wf(
    s: Ledger,
    req: CreateUserRequestView,
    ids: Seq<Seq<char>>,
    now: Timestamp,
)
    requires
        s.wf(),
        ids.len() == 2,
    ensures
        s.create_user(req, ids, now).0.wf(),
{
    let t = s.create_user(req, ids, now).0;
    if t != s {
        assert(!s.in_use(ids[0]));
        assert(!s.in_use(ids[1]));
        assert(user_ids(t.users) =~= user_ids(s.users).push(ids[0]));
        assert(user_dnis(t.users) =~= user_dnis(s.users).push(req.dni));
        assert(event_ids(t.events) =~= event_ids(s.events).push(ids[1]));
        lemma_push_distinct(user_ids(s.users), ids[0]);
        lemma_push_distinct(user_dnis(s.users), req.dni);
        lemma_push_distinct(event_ids(s.events), ids[1]);
        lemma_users_only(s, t);
    }
}

/// Editing a user keeps the ledger consistent.
pub proof fn lemma_update_user_keeps_wf(
    s: Ledger,
    id: Seq<char>,
    changes: UpdateUserRequestView,
    ids: Seq<Seq<char>>,
    now: Timestamp,
)
    requires
        s.wf(),
        ids.len() == 1,
    ensures
        s.update_user(id, changes, ids, now).0.wf(),
{
    let t = s.update_user(id, changes, ids, now).0;
    if t != s {
        let u = position(user_ids(s.users), id);
        assert(s.has_user(id));
        assert(0 <= u < s.users.len());
        assert(!s.in_use(ids[0]));
        assert(user_ids(t.users) =~= user_ids(s.users));
        assert(event_ids(t.events) =~= event_ids(s.events).push(ids[0]));
        lemma_push_distinct(event_ids(s.events), ids[0]);
        let after = user_dnis(t.users);
        let before = user_dnis(s.users);
        assert forall|i: int, j: int|
            0 <= i < after.len() && 0 <= j < after.len() && i != j implies after[i]
            != after[j] by {
            assert(before[i] != before[j]);
            if i == u {
                assert(s.users[j].dni == before[j]);
            } else if j == u {
                assert(s.users[i].dni == before[i]);
            }
        }
        lemma_users_only(s, t);
    }
}

/// A removed user is gone: no user of the ledger carries the identifier
/// after the removal.
pub proof fn lemma_deleted_user_is_gone(
    s: Ledger,
    id: Seq<char>,
    ids: Seq<Seq<char>>,
    now: Timestamp,
)
    requires
        s.wf(),
        s.delete_user(id, ids, now).1 is Ok,
    ensures
        !s.delete_user(id, ids, now).0.has_user(id),
{
    let t = s.delete_user(id, ids, now).0;
    if s.has_user(id) {
        let u = position(user_ids(s.users), id);
        let before = user_ids(s.users);
        let after = user_ids(t.users);
        assert(after =~= before.remove(u));
        assert forall|a: int| 0 <= a < after.len() implies after[a] != id by {
            let b = if a < u {
                a
            } else {
                a + 1
            };
            assert(after[a] == before[b]);
            assert(before[b] != before[u]);
        }
    }
}

/// Removing a user keeps the ledger consistent.
pub proof fn lemma_delete_user_keeps_wf(
    s: Ledger,
    id: Seq<char>,
    ids: Seq<Seq<char>>,
    now: Timestamp,
)
    requires
        s.wf(),
        ids.len() == 1,
    ensures
        s.delete_user(id, ids, now).0.wf(),
{
    let t = s.delete_user(id, ids, now).0;
    if t != s {
        assert(!s.in_use(ids[0]));
        assert(event_ids(t.events) =~= event_ids(s.events).push(ids[0]));
        lemma_push_distinct(event_ids(s.events), ids[0]);
        if s.has_user(id) {
            let u = position(user_ids(s.users), id);
            assert(user_ids(t.users) =~= user_ids(s.users).remove(u));
            assert(user_dnis(t.users) =~= user_dnis(s.users).remove(u));
            lemma_remove_distinct(user_ids(s.users), u);
            lemma_remove_distinct(user_dnis(s.users), u);
        }
        lemma_users_only(s, t);
    }
}

/// Distinct keys followed by other distinct keys, none of which is among
/// the first, are distinct.
pub proof fn lemma_extend_distinct(keys: Seq<Seq<char>>, more: Seq<Seq<char>>)
    requires
        keys.no_duplicates(),
        more.no_duplicates(),
        forall|k: int| 0 <= k < more.len() ==> !keys.contains(#[trigger] more[k]),
    ensures
        (keys + more).no_duplicates(),
{
    let all = keys + more;
    assert forall|i: int, j: int| 0 <= i < all.len() && 0 <= j < all.len() && i != j implies
        all[i] != all[j] by {
        if i < keys.len() && j < keys.len() {
        } else if i < keys.len() {
            assert(!keys.contains(more[j - keys.len()]));
        } else if j < keys.len() {
            assert(!keys.contains(more[i - keys.len()]));
        } else {
            assert(more[i - keys.len()] != more[j - keys.len()]);
        }
    }
}

/// A new loan adds what it holds to the units out.
pub proof fn lemma_units_out_push(loans: Seq<LoanView>, new: LoanView, id: Seq<char>)
    ensures
        units_out(loans.push(new), id) == units_out(loans, id) + units_held(new, id),
{
    assert(loans.push(new).drop_last() =~= loans);
}

/// Replacing one loan changes the units out by the difference of what the
/// two loans hold.
pub proof fn lemma_units_out_update(loans: Seq<LoanView>, l: int, new: LoanView, id: Seq<char>)
    requires
        0 <= l < loans.len(),
    ensures
        units_out(loans.update(l, new), id) + units_held(loans[l], id) == units_out(loans, id)
            + units_held(new, id),
    decreases loans.len(),
{
    let after = loans.update(l, new);
    if l == loans.len() - 1 {
        assert(after.drop_last() =~= loans.drop_last());
    } else {
        assert(after.drop_last() =~= loans.drop_last().update(l, new));
        lemma_units_out_update(loans.drop_last(), l, new, id);
    }
}

/// Loans that hold the same units one by one have the same units out.
pub proof fn lemma_units_out_same(loans: Seq<LoanView>, after: Seq<LoanView>, id: Seq<char>)
    requires
        after.len() == loans.len(),
        forall|i: int|
            0 <= i < loans.len() ==> units_held(#[trigger] after[i], id) == units_held(
                loans[i],
                id,
            ),
    ensures
        units_out(after, id) == units_out(loans, id),
    decreases loans.len(),
{
    if loans.len() > 0 {
        assert forall|i: int| 0 <= i < loans.drop_last().len() implies units_held(
            #[trigger] after.drop_last()[i],
            id,
        ) == units_held(loans.drop_last()[i], id) by {
            assert(after.drop_last()[i] == after[i]);
        }
        lemma_units_out_same(loans.drop_last(), after.drop_last(), id);
        assert(units_held(after[loans.len() - 1], id) == units_held(loans[loans.len() - 1], id));
    }
}

/// One loan holds no more than all loans together.
pub proof fn lemma_units_held_bound(loans: Seq<LoanView>, l: int, id: Seq<char>)
    requires
        0 <= l < loans.len(),
    ensures
        units_held(loans[l], id) <= units_out(loans, id),
    decreases loans.len(),
{
    if l < loans.len() - 1 {
        lemma_units_held_bound(loans.drop_last(), l, id);
    }
}

/// Where no requested item is refused, none is.
pub proof fn lemma_no_refusal(items: Seq<ItemView>, wanted: Seq<Seq<char>>, k: int)
    requires
        first_refusal(items, wanted) is None,
        0 <= k < wanted.len(),
    ensures
        refusal(items, wanted[k]) is None,
    decreases wanted.len(),
{
    if k > 0 {
        lemma_no_refusal(items, wanted.drop_first(), k - 1);
    }
}

/// The loan lines of a consistent ledger stay well-formed under a change
/// that keeps the loans and the items' identifiers.
proof fn lemma_lines_stay(s: Ledger, t: Ledger)
    requires
        s.wf(),
        t.loans.len() == s.loans.len(),
        forall|i: int|
            0 <= i < s.loans.len() ==> (#[trigger] t.loans[i]).items == s.loans[i].items
                && t.loans[i].id == s.loans[i].id,
        item_ids(t.items) == item_ids(s.items),
    ensures
        all_line_ids(t.loans).no_duplicates(),
        forall|i: int, a: int|
            0 <= i < t.loans.len() && 0 <= a < t.loans[i].items.len() ==> {
                &&& t.has_item((#[trigger] t.loans[i].items[a]).item_id)
                &&& t.loans[i].items[a].loan_id == t.loans[i].id
                &&& t.loans[i].items[a].quantity == 1
            },
{
    lemma_all_line_ids_same(s.loans, t.loans);
    assert forall|i: int, a: int|
        0 <= i < t.loans.len() && 0 <= a < t.loans[i].items.len() implies {
        &&& t.has_item((#[trigger] t.loans[i].items[a]).item_id)
        &&& t.loans[i].items[a].loan_id == t.loans[i].id
        &&& t.loans[i].items[a].quantity == 1
    } by {
        assert(t.loans[i].items == s.loans[i].items);
        assert(s.has_item(s.loans[i].items[a].item_id));
    }
}

/// Lending keeps the ledger consistent.
pub proof fn lemma_create_loan_keeps_wf(
    s: Ledger,
    req: CreateLoanRequestView,
    ids: Seq<Seq<char>>,
    now: Timestamp,
)
    requires
        s.wf(),
        ids.len() == 2 * req.item_ids.len() + 2,
    ensures
        s.create_loan(req, ids, now).0.wf(),
{
    let t = s.create_loan(req, ids, now).0;
    let n = req.item_ids.len() as int;
    if s.has_user(req.user_id) && first_refusal(s.items, req.item_ids) is None && enough_for(
        s.items,
        req.item_ids,
    ) && s.fresh(ids) {
        let loan = t.loans.last();
        assert(!s.in_use(ids[0]));
        assert(loan_ids(t.loans) =~= loan_ids(s.loans).push(ids[0]));
        lemma_push_distinct(loan_ids(s.loans), ids[0]);
        let more = ids.subrange(n + 1, 2 * n + 2);
        assert(event_ids(t.events) =~= event_ids(s.events) + more);
        assert forall|k: int| 0 <= k < more.len() implies !event_ids(s.events).contains(
            #[trigger] more[k],
        ) by {
            assert(!s.in_use(ids[n + 1 + k]));
        }
        lemma_extend_distinct(event_ids(s.events), more);
        assert(item_ids(t.items) =~= item_ids(s.items));
        assert(line_items(loan.items) =~= req.item_ids);
        let fresh_lines = ids.subrange(1, n + 1);
        assert(line_ids(loan.items) =~= fresh_lines);
        assert(t.loans.drop_last() =~= s.loans);
        assert(all_line_ids(t.loans) == all_line_ids(s.loans) + fresh_lines);
        assert forall|k: int| 0 <= k < fresh_lines.len() implies !all_line_ids(s.loans).contains(
            #[trigger] fresh_lines[k],
        ) by {
            assert(!s.in_use(ids[1 + k]));
            lemma_all_line_ids(s.loans, ids[1 + k]);
        }
        lemma_extend_distinct(all_line_ids(s.loans), fresh_lines);
        assert forall|j: int| 0 <= j < t.items.len() implies {
            &&& 0 <= (#[trigger] t.items[j]).available_stock
            &&& t.items[j].total_stock - t.items[j].available_stock == units_out(
                t.loans,
                t.items[j].id,
            )
        } by {
            lemma_units_out_push(s.loans, loan, s.items[j].id);
            assert(0 <= s.items[j].available_stock);
        }
        assert forall|i: int, a: int|
            0 <= i < t.loans.len() && 0 <= a < t.loans[i].items.len() implies {
            &&& t.has_item((#[trigger] t.loans[i].items[a]).item_id)
            &&& t.loans[i].items[a].loan_id == t.loans[i].id
            &&& t.loans[i].items[a].quantity == 1
        } by {
            if i < s.loans.len() {
                assert(s.has_item(s.loans[i].items[a].item_id));
            } else {
                lemma_no_refusal(s.items, req.item_ids, a);
            }
        }
    }
}

/// Taking a loan back keeps the ledger consistent.
pub proof fn lemma_return_loan_keeps_wf(
    s: Ledger,
    loan_id: Seq<char>,
    condition: Option<Seq<char>>,
    notes: Option<Seq<char>>,
    ids: Seq<Seq<char>>,
    now: Timestamp,
)
    requires
        s.wf(),
        s.has_loan(loan_id) ==> ids.len() == s.loan(loan_id).items.len() + 1,
    ensures
        s.return_loan(loan_id, condition, notes, ids, now).0.wf(),
{
    let t = s.return_loan(loan_id, condition, notes, ids, now).0;
    let l = position(loan_ids(s.loans), loan_id);
    let old = s.loans[l];
    if s.has_loan(loan_id) && (old.status == LoanStatus::Active || old.status
        == LoanStatus::Overdue) && s.fresh(ids) {
        assert(0 <= l < s.loans.len());
        let n = old.items.len() as int;
        assert(loan_ids(t.loans) =~= loan_ids(s.loans));
        assert(event_ids(t.events) =~= event_ids(s.events) + ids);
        assert forall|k: int| 0 <= k < ids.len() implies !event_ids(s.events).contains(
            #[trigger] ids[k],
        ) by {
            assert(!s.in_use(ids[k]));
        }
        lemma_extend_distinct(event_ids(s.events), ids);
        assert(item_ids(t.items) =~= item_ids(s.items));
        assert forall|j: int| 0 <= j < t.items.len() implies {
            &&& 0 <= (#[trigger] t.items[j]).available_stock
            &&& t.items[j].total_stock - t.items[j].available_stock == units_out(
                t.loans,
                t.items[j].id,
            )
        } by {
            lemma_units_out_update(s.loans, l, t.loans[l], s.items[j].id);
            assert(0 <= s.items[j].available_stock);
        }
        lemma_lines_stay(s, t);
    }
}

/// Reopening a returned loan keeps the ledger consistent.
pub proof fn lemma_cancel_return_keeps_wf(
    s: Ledger,
    loan_id: Seq<char>,
    reason: Option<Seq<char>>,
    ids: Seq<Seq<char>>,
    now: Timestamp,
)
    requires
        s.wf(),
        s.has_loan(loan_id) ==> ids.len() == s.loan(loan_id).items.len() + 1,
    ensures
        s.cancel_return(loan_id, reason, ids, now).0.wf(),
{
    let t = s.cancel_return(loan_id, reason, ids, now).0;
    let l = position(loan_ids(s.loans), loan_id);
    let old = s.loans[l];
    if s.has_loan(loan_id) && old.status == LoanStatus::Returned && enough_for(
        s.items,
        line_items(old.items),
    ) && s.fresh(ids) {
        assert(0 <= l < s.loans.len());
        assert(loan_ids(t.loans) =~= loan_ids(s.loans));
        assert(event_ids(t.events) =~= event_ids(s.events) + ids);
        assert forall|k: int| 0 <= k < ids.len() implies !event_ids(s.events).contains(
            #[trigger] ids[k],
        ) by {
            assert(!s.in_use(ids[k]));
        }
        lemma_extend_distinct(event_ids(s.events), ids);
        assert(item_ids(t.items) =~= item_ids(s.items));
        assert forall|j: int| 0 <= j < t.items.len() implies {
            &&& 0 <= (#[trigger] t.items[j]).available_stock
            &&& t.items[j].total_stock - t.items[j].available_stock == units_out(
                t.loans,
                t.items[j].id,
            )
        } by {
            lemma_units_out_update(s.loans, l, t.loans[l], s.items[j].id);
            assert(0 <= s.items[j].available_stock);
        }
        lemma_lines_stay(s, t);
    }
}

/// Marking overdue loans keeps the ledger consistent.
pub proof fn lemma_sweep_keeps_wf(s: Ledger, today: Date)
    requires
        s.wf(),
    ensures
        s.sweep_overdue(today).0.wf(),
{
    let t = s.sweep_overdue(today).0;
    assert(loan_ids(t.loans) =~= loan_ids(s.loans));
    assert forall|j: int| 0 <= j < t.items.len() implies {
        &&& 0 <= (#[trigger] t.items[j]).available_stock
        &&& t.items[j].total_stock - t.items[j].available_stock == units_out(
            t.loans,
            t.items[j].id,
        )
    } by {
        lemma_units_out_same(s.loans, t.loans, s.items[j].id);
    }
    lemma_lines_stay(s, t);
}

} // verus!
