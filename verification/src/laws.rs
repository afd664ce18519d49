//! What holds of the ledger whatever is asked of it.

use crate::audit::{EventDataView, EventKind, EventView, ItemSource, ReserveReason};
use crate::consistency::{
    lemma_add_from_catalogue_keeps_wf, lemma_cancel_return_keeps_wf, lemma_create_item_keeps_wf, lemma_create_loan_keeps_wf,
    lemma_create_user_keeps_wf, lemma_delete_user_keeps_wf, lemma_deleted_user_is_gone,
    lemma_return_loan_keeps_wf, lemma_set_total_stock_keeps_wf, lemma_sweep_keeps_wf,
    lemma_update_user_keeps_wf,
};
use crate::error::LedgerError;
use crate::ledger::{
    edited, enough_for, first_refusal, item_ids, lacking, lemma_position, line_items, loan_ids,
    occurrences, position, refusal, user_ids, Call, Ledger, Operation,
};
use crate::models::{CreateLoanRequestView, ItemView, LoanStatus, LoanView};
use crate::time::{Date, Timestamp};
use vstd::prelude::*;

verus! {

/// In a consistent ledger every item has between zero and its total stock
/// available.
pub proof fn lemma_stock_within_total(s: Ledger, j: int)
    requires
        s.wf(),
        0 <= j < s.items.len(),
    ensures
        0 <= s.items[j].available_stock <= s.items[j].total_stock,
{
}

/// A request leaves a consistent ledger consistent.
pub proof fn lemma_apply_keeps_wf(s: Ledger, call: Call)
    requires
        s.wf(),
    ensures
        s.apply(call).wf(),
{
    if call.ids.len() == s.ids_needed(call.op) {
        match call.op {
            Operation::CreateItem { item: req } => {
                lemma_create_item_keeps_wf(s, req, call.ids, call.now);
            },
            Operation::AddFromCatalogue { catalogue } => {
                lemma_add_from_catalogue_keeps_wf(s, catalogue, call.ids, call.now);
            },
            Operation::SetTotalStock { item_id, new_total } => {
                lemma_set_total_stock_keeps_wf(s, item_id, new_total, call.ids, call.now);
            },
            Operation::CreateUser { user: req } => {
                lemma_create_user_keeps_wf(s, req, call.ids, call.now);
            },
            Operation::UpdateUser { id, changes } => {
                lemma_update_user_keeps_wf(s, id, changes, call.ids, call.now);
            },
            Operation::DeleteUser { id } => {
                lemma_delete_user_keeps_wf(s, id, call.ids, call.now);
            },
            Operation::CreateLoan { loan: req } => {
                lemma_create_loan_keeps_wf(s, req, call.ids, call.now);
            },
            Operation::ReturnLoan { loan_id, condition, notes } => {
                lemma_return_loan_keeps_wf(s, loan_id, condition, notes, call.ids, call.now);
            },
            Operation::CancelReturn { loan_id, cause } => {
                lemma_cancel_return_keeps_wf(s, loan_id, cause, call.ids, call.now);
            },
            Operation::SweepOverdue => {
                lemma_sweep_keeps_wf(s, call.now.date);
            },
        }
    }
}

/// After every sequence of requests to a consistent ledger, every item has
/// between zero and its total stock available.
pub proof fn lemma_stock_bounds_always(s: Ledger, calls: Seq<Call>)
    requires
        s.wf(),
    ensures
        s.run(calls).wf(),
        forall|j: int|
            0 <= j < s.run(calls).items.len() ==> 0 <= (
            #[trigger] s.run(calls).items[j]).available_stock <= s.run(calls).items[j].total_stock,
    decreases calls.len(),
{
    if calls.len() > 0 {
        lemma_stock_bounds_always(s, calls.drop_last());
        lemma_apply_keeps_wf(s.run(calls.drop_last()), calls.last());
    }
}

/// The empty ledger is consistent.
pub proof fn lemma_empty_is_wf()
    ensures
        Ledger::empty().wf(),
{
}

/// What occurs somewhere is counted at least once.
pub proof fn lemma_occurrences_some(s: Seq<Seq<char>>, x: Seq<char>, k: int)
    requires
        0 <= k < s.len(),
        s[k] == x,
    ensures
        occurrences(s, x) >= 1,
    decreases s.len(),
{
    if k < s.len() - 1 {
        lemma_occurrences_some(s.drop_last(), x, k);
    }
}

/// Lending and then taking the loan back leaves every item with the stock
/// it had before: the return is carried out whenever its identifiers are
/// fresh, and then each item's total and available stock are as they were.
pub proof fn lemma_return_undoes_loan(
    s: Ledger,
    req: CreateLoanRequestView,
    ids: Seq<Seq<char>>,
    now: Timestamp,
    condition: Option<Seq<char>>,
    notes: Option<Seq<char>>,
    ids_back: Seq<Seq<char>>,
    later: Timestamp,
)
    requires
        s.wf(),
        ids.len() == 2 * req.item_ids.len() + 2,
        s.create_loan(req, ids, now).1 is Ok,
    ensures
        ({
            let t = s.create_loan(req, ids, now).0;
            let (u, r) = t.return_loan(ids[0], condition, notes, ids_back, later);
            &&& r is Ok <==> t.fresh(ids_back)
            &&& r is Ok ==> {
                &&& u.items.len() == s.items.len()
                &&& forall|j: int|
                    0 <= j < s.items.len() ==> (#[trigger] u.items[j]).id == s.items[j].id
                        && u.items[j].available_stock == s.items[j].available_stock
                        && u.items[j].total_stock == s.items[j].total_stock
            }
        }),
{
    let t = s.create_loan(req, ids, now).0;
    lemma_create_loan_keeps_wf(s, req, ids, now);
    let at = s.loans.len() as int;
    assert(loan_ids(t.loans)[at] == ids[0]);
    lemma_position(loan_ids(t.loans), ids[0], at);
    assert(line_items(t.loans[at].items) =~= req.item_ids);
}

/// Taking a loan back and then cancelling the return restores the loan to
/// `Active` and every item to the stock it had before the return: the
/// cancellation is carried out whenever its identifiers are fresh.
pub proof fn lemma_cancel_undoes_return(
    s: Ledger,
    loan_id: Seq<char>,
    condition: Option<Seq<char>>,
    notes: Option<Seq<char>>,
    ids: Seq<Seq<char>>,
    now: Timestamp,
    cause: Option<Seq<char>>,
    ids_again: Seq<Seq<char>>,
    later: Timestamp,
)
    requires
        s.wf(),
        s.has_loan(loan_id) ==> ids.len() == s.loan(loan_id).items.len() + 1,
        s.return_loan(loan_id, condition, notes, ids, now).1 is Ok,
    ensures
        ({
            let t = s.return_loan(loan_id, condition, notes, ids, now).0;
            let (u, r) = t.cancel_return(loan_id, cause, ids_again, later);
            &&& r is Ok <==> t.fresh(ids_again)
            &&& r matches Ok(loan) ==> {
                &&& loan.status == LoanStatus::Active
                &&& loan.actual_end_date is None
                &&& u.loan(loan_id) == loan
                &&& u.items.len() == s.items.len()
                &&& forall|j: int|
                    0 <= j < s.items.len() ==> (#[trigger] u.items[j]).id == s.items[j].id
                        && u.items[j].available_stock == s.items[j].available_stock
                        && u.items[j].total_stock == s.items[j].total_stock
            }
        }),
{
    let t = s.return_loan(loan_id, condition, notes, ids, now).0;
    lemma_return_loan_keeps_wf(s, loan_id, condition, notes, ids, now);
    let l = position(loan_ids(s.loans), loan_id);
    assert(0 <= l < s.loans.len());
    assert(loan_ids(t.loans) =~= loan_ids(s.loans));
    let lines = line_items(s.loans[l].items);
    assert(t.loans[l].items == s.loans[l].items);
    assert forall|j: int| 0 <= j < t.items.len() implies occurrences(
        lines,
        (#[trigger] t.items[j]).id,
    ) <= t.items[j].available_stock by {
        assert(0 <= s.items[j].available_stock);
    }
    assert(enough_for(t.items, lines));
    let (u, r) = t.cancel_return(loan_id, cause, ids_again, later);
    if r is Ok {
        assert(loan_ids(u.loans) =~= loan_ids(t.loans));
        assert(loan_ids(u.loans)[l] == loan_id);
        lemma_position(loan_ids(u.loans), loan_id, l);
    }
}

/// A return cannot be cancelled once the units have gone elsewhere: where
/// some item on the loan has no unit available, the cancellation is refused
/// with `InsufficientStock` and changes nothing.
pub proof fn lemma_cancel_refused_when_exhausted(
    s: Ledger,
    loan_id: Seq<char>,
    cause: Option<Seq<char>>,
    ids: Seq<Seq<char>>,
    now: Timestamp,
    line: int,
)
    requires
        s.wf(),
        s.has_loan(loan_id),
        s.loan(loan_id).status == LoanStatus::Returned,
        0 <= line < s.loan(loan_id).items.len(),
        s.item(s.loan(loan_id).items[line].item_id).available_stock == 0,
    ensures
        s.cancel_return(loan_id, cause, ids, now) == (
            s,
            Err::<LoanView, LedgerError>(LedgerError::InsufficientStock),
        ),
{
    let l = position(loan_ids(s.loans), loan_id);
    assert(0 <= l < s.loans.len());
    let lines = line_items(s.loans[l].items);
    let wanted = s.loans[l].items[line].item_id;
    assert(s.has_item(wanted));
    let j = position(item_ids(s.items), wanted);
    assert(0 <= j < s.items.len() && item_ids(s.items)[j] == wanted);
    assert(lines[line] == wanted);
    lemma_occurrences_some(lines, wanted, line);
    assert(occurrences(lines, s.items[j].id) > s.items[j].available_stock);
}

/// Where some requested item cannot be lent, the request is refused.
pub proof fn lemma_some_refusal(items: Seq<ItemView>, wanted: Seq<Seq<char>>, k: int)
    requires
        0 <= k < wanted.len(),
        refusal(items, wanted[k]) is Some,
    ensures
        first_refusal(items, wanted) is Some,
    decreases wanted.len(),
{
    if k > 0 && refusal(items, wanted[0]) is None {
        lemma_some_refusal(items, wanted.drop_first(), k - 1);
    }
}

/// Where every requested item is known, a refusal is for want of stock.
pub proof fn lemma_refusal_of_known(items: Seq<ItemView>, wanted: Seq<Seq<char>>)
    requires
        forall|k: int| 0 <= k < wanted.len() ==> item_ids(items).contains(#[trigger] wanted[k]),
    ensures
        first_refusal(items, wanted) is Some ==> first_refusal(items, wanted) == Some(
            LedgerError::InsufficientStock,
        ),
    decreases wanted.len(),
{
    if wanted.len() > 0 {
        assert(item_ids(items).contains(wanted[0]));
        let rest = wanted.drop_first();
        assert forall|k: int| 0 <= k < rest.len() implies item_ids(items).contains(
            #[trigger] rest[k],
        ) by {
            assert(rest[k] == wanted[k + 1]);
        }
        lemma_refusal_of_known(items, rest);
    }
}

/// The last unit of an item is lent once. Of two requests that both ask
/// for an item with one unit available, carried out one after the other,
/// the second is refused where the first was carried out; and where the
/// second names a known user and known items only, it is refused with
/// `InsufficientStock`. Requests made at the same time are carried out one
/// after the other, since each holds the ledger for itself.
pub proof fn lemma_last_unit_lent_once(
    s: Ledger,
    item_id: Seq<char>,
    first: CreateLoanRequestView,
    first_ids: Seq<Seq<char>>,
    first_now: Timestamp,
    second: CreateLoanRequestView,
    second_ids: Seq<Seq<char>>,
    second_now: Timestamp,
)
    requires
        s.wf(),
        s.has_item(item_id),
        s.item(item_id).available_stock == 1,
        first.item_ids.contains(item_id),
        second.item_ids.contains(item_id),
        first_ids.len() == 2 * first.item_ids.len() + 2,
    ensures
        ({
            let (t, a) = s.create_loan(first, first_ids, first_now);
            let (u, b) = t.create_loan(second, second_ids, second_now);
            &&& !(a is Ok && b is Ok)
            &&& a is Ok ==> u == t
            &&& a is Ok && t.has_user(second.user_id) && (forall|k: int|
                0 <= k < second.item_ids.len() ==> t.has_item(#[trigger] second.item_ids[k]))
                ==> b == Err::<LoanView, LedgerError>(LedgerError::InsufficientStock)
        }),
{
    let (t, a) = s.create_loan(first, first_ids, first_now);
    if a is Ok {
        lemma_create_loan_keeps_wf(s, first, first_ids, first_now);
        let j = position(item_ids(s.items), item_id);
        assert(0 <= j < s.items.len() && item_ids(s.items)[j] == item_id);
        let k1 = choose|k: int| 0 <= k < first.item_ids.len() && first.item_ids[k] == item_id;
        lemma_occurrences_some(first.item_ids, item_id, k1);
        assert(occurrences(first.item_ids, s.items[j].id) <= s.items[j].available_stock);
        assert(t.items[j].available_stock == 0);
        assert(item_ids(t.items) =~= item_ids(s.items));
        lemma_position(item_ids(t.items), item_id, j);
        let k2 = choose|k: int| 0 <= k < second.item_ids.len() && second.item_ids[k] == item_id;
        assert(refusal(t.items, second.item_ids[k2]) is Some);
        lemma_some_refusal(t.items, second.item_ids, k2);
        if forall|k: int|
            0 <= k < second.item_ids.len() ==> t.has_item(#[trigger] second.item_ids[k]) {
            lemma_refusal_of_known(t.items, second.item_ids);
        }
    }
}

/// The sweep marks exactly the loans that are due: an active loan that was
/// expected back before `today` becomes `Overdue` and is otherwise as it
/// was; every other loan, among them every loan expected back today or
/// later, stays as it is. Users, items and the audit trail are not touched.
pub proof fn lemma_sweep_marks_the_due(s: Ledger, today: Date, i: int)
    requires
        0 <= i < s.loans.len(),
    ensures
        ({
            let t = s.sweep_overdue(today).0;
            let before = s.loans[i];
            &&& t.users == s.users
            &&& t.items == s.items
            &&& t.events == s.events
            &&& t.loans.len() == s.loans.len()
            &&& before.status == LoanStatus::Active && before.expected_end_date.earlier_than(today)
                ==> t.loans[i] == (LoanView { status: LoanStatus::Overdue, ..before })
            &&& !before.expected_end_date.earlier_than(today) ==> t.loans[i] == before
            &&& before.status != LoanStatus::Active ==> t.loans[i] == before
        }),
{
}

/// The events that a change added to the audit trail.
pub open spec fn appended(before: Ledger, after: Ledger) -> Seq<EventView> {
    after.events.skip(before.events.len() as int)
}

/// The type of each event.
pub open spec fn kinds(events: Seq<EventView>) -> Seq<EventKind> {
    events.map_values(|e: EventView| e.data.kind())
}

/// The event types that a change writes when it is carried out.
pub open spec fn kinds_written(s: Ledger, op: Operation) -> Seq<EventKind> {
    match op {
        Operation::CreateItem { .. } => seq![EventKind::ItemCreated],
        Operation::AddFromCatalogue { catalogue } => Seq::new(
            lacking(s.items, catalogue).len(),
            |k: int| EventKind::ItemCreated,
        ),
        Operation::SetTotalStock { .. } => seq![EventKind::StockUpdated],
        Operation::CreateUser { .. } => seq![EventKind::UserCreated],
        Operation::UpdateUser { changes, .. } => if changes.is_empty() {
            Seq::empty()
        } else {
            seq![EventKind::UserUpdated]
        },
        Operation::DeleteUser { .. } => seq![EventKind::UserDeleted],
        Operation::CreateLoan { loan: req } => seq![EventKind::LoanCreated] + Seq::new(
            req.item_ids.len(),
            |k: int| EventKind::StockReserved,
        ),
        Operation::ReturnLoan { loan_id, .. } => Seq::new(
            s.loan(loan_id).items.len(),
            |k: int| EventKind::StockReleased,
        ).push(EventKind::LoanReturned),
        Operation::CancelReturn { loan_id, .. } => Seq::new(
            s.loan(loan_id).items.len(),
            |k: int| EventKind::StockReserved,
        ).push(EventKind::ReturnCancelled),
        Operation::SweepOverdue => Seq::empty(),
    }
}

/// The audit trail only grows, and every change writes exactly its events.
/// What was written stays as it was. A request that is not carried out
/// changes nothing and writes nothing. One that is carried out adds the
/// events of its kind, in their order and no others, each stamped with the
/// time of the request and a fresh identifier from the request.
pub proof fn lemma_audit_trail(s: Ledger, call: Call)
    ensures
        ({
            let t = s.apply(call);
            &&& s.events.len() <= t.events.len()
            &&& t.events.take(s.events.len() as int) == s.events
            &&& !s.accepts(call) ==> t == s
            &&& s.accepts(call) ==> kinds(appended(s, t)) == kinds_written(s, call.op)
            &&& forall|k: int|
                0 <= k < appended(s, t).len() ==> (#[trigger] appended(s, t)[k]).created_at
                    == call.now && call.ids.contains(appended(s, t)[k].id)
        }),
{
    let t = s.apply(call);
    if s.accepts(call) {
        let added = appended(s, t);
        match call.op {
            Operation::CreateLoan { loan: req } => {
                let n = req.item_ids.len() as int;
                assert(added.len() == n + 1);
                assert(added[0].id == call.ids[n + 1]);
                assert forall|k: int| 0 <= k < added.len() implies (#[trigger] added[k]).created_at
                    == call.now && call.ids.contains(added[k].id) by {
                    if k > 0 {
                        assert(added[k].id == call.ids[n + 1 + k]);
                    }
                }
            },
            Operation::ReturnLoan { loan_id, condition, notes } => {
                let n = s.loan(loan_id).items.len() as int;
                assert(added.len() == n + 1);
                assert forall|k: int| 0 <= k < added.len() implies (#[trigger] added[k]).created_at
                    == call.now && call.ids.contains(added[k].id) by {
                    assert(added[k].id == call.ids[k]);
                }
            },
            Operation::CancelReturn { loan_id, cause } => {
                let n = s.loan(loan_id).items.len() as int;
                assert(added.len() == n + 1);
                assert forall|k: int| 0 <= k < added.len() implies (#[trigger] added[k]).created_at
                    == call.now && call.ids.contains(added[k].id) by {
                    assert(added[k].id == call.ids[k]);
                }
            },
            Operation::CreateItem { item: req } => {
                assert(added.len() == 1);
                assert(added[0].id == call.ids[1]);
            },
            Operation::AddFromCatalogue { catalogue } => {
                assert forall|k: int| 0 <= k < added.len() implies (#[trigger] added[k]).created_at
                    == call.now && call.ids.contains(added[k].id) by {
                    assert(added[k].id == call.ids[2 * k + 1]);
                }
            },
            Operation::CreateUser { user: req } => {
                assert(added.len() == 1);
                assert(added[0].id == call.ids[1]);
            },
            Operation::SetTotalStock { item_id, new_total } => {
                assert(added.len() == 1);
                assert(added[0].id == call.ids[0]);
            },
            Operation::UpdateUser { id, changes } => {
                if !changes.is_empty() {
                    assert(added.len() == 1);
                    assert(added[0].id == call.ids[0]);
                }
            },
            Operation::DeleteUser { id } => {
                assert(added.len() == 1);
                assert(added[0].id == call.ids[0]);
            },
            Operation::SweepOverdue => {},
        }
        assert(kinds(added) =~= kinds_written(s, call.op));
        assert(t.events.take(s.events.len() as int) =~= s.events);
    } else {
        assert(t.events.take(s.events.len() as int) =~= s.events);
    }
}

/// What an event says is what the ledger holds once the change is made.
///
/// - `ITEM_CREATED` names the new item, which has all of its stock
///   available.
/// - `STOCK_UPDATED` carries the item's counts before and after the edit.
/// - `USER_CREATED`, `USER_UPDATED` and `USER_DELETED` name the user; after
///   an edit the user is the old one with the supplied fields replaced, and
///   after a removal no user carries the identifier.
/// - `LOAN_CREATED` carries the new loan's identifier, user, items and dates,
///   and each `STOCK_RESERVED` after it names the item of the line at the
///   same place.
/// - `LOAN_RETURNED` follows one `STOCK_RELEASED` for each line of the loan,
///   each naming that line's item; `RETURN_CANCELLED` follows one
///   `STOCK_RESERVED` for each line.
/// - The sweep writes nothing.
pub proof fn lemma_payloads_match_state(s: Ledger, call: Call)
    requires
        s.wf(),
        s.accepts(call),
    ensures
        ({
            let t = s.apply(call);
            let added = appended(s, t);
            match call.op {
                Operation::SetTotalStock { item_id, new_total } => {
                    &&& added.len() == 1
                    &&& added[0].data == (EventDataView::StockUpdated {
                        item_id,
                        previous_total: s.item(item_id).total_stock,
                        new_total: t.item(item_id).total_stock,
                        previous_available: s.item(item_id).available_stock,
                        new_available: t.item(item_id).available_stock,
                    })
                    &&& t.item(item_id).total_stock == new_total
                },
                Operation::CreateLoan { loan: req } => {
                    let loan = t.loans.last();
                    &&& added.len() == req.item_ids.len() + 1
                    &&& added[0].data == (EventDataView::LoanCreated {
                        loan_id: loan.id,
                        user_id: loan.user_id,
                        items: line_items(loan.items),
                        start_date: loan.start_date,
                        expected_end_date: loan.expected_end_date,
                    })
                    &&& forall|k: int|
                        0 <= k < loan.items.len() ==> (#[trigger] added[k + 1]).data == (
                        EventDataView::StockReserved {
                            item_id: loan.items[k].item_id,
                            quantity: loan.items[k].quantity,
                            loan_id: loan.id,
                            cause: ReserveReason::LoanCreated,
                        })
                },
                Operation::ReturnLoan { loan_id, condition, notes } => {
                    let loan = t.loan(loan_id);
                    &&& loan.status == LoanStatus::Returned
                    &&& loan.actual_end_date == Some(call.now.date)
                    &&& added.len() == loan.items.len() + 1
                    &&& forall|k: int|
                        0 <= k < loan.items.len() ==> (#[trigger] added[k]).data == (
                        EventDataView::StockReleased {
                            item_id: loan.items[k].item_id,
                            quantity: loan.items[k].quantity,
                            loan_id,
                        })
                    &&& added.last().data == (EventDataView::LoanReturned {
                        loan_id,
                        condition,
                        notes,
                    })
                },
                Operation::CancelReturn { loan_id, cause } => {
                    let loan = t.loan(loan_id);
                    &&& loan.status == LoanStatus::Active
                    &&& added.len() == loan.items.len() + 1
                    &&& forall|k: int|
                        0 <= k < loan.items.len() ==> (#[trigger] added[k]).data == (
                        EventDataView::StockReserved {
                            item_id: loan.items[k].item_id,
                            quantity: loan.items[k].quantity,
                            loan_id,
                            cause: ReserveReason::ReturnCancelled,
                        })
                    &&& added.last().data == (EventDataView::ReturnCancelled {
                        loan_id,
                        reason: cause,
                        cancelled_at: call.now,
                    })
                },
                Operation::CreateItem { item } => {
                    let made = t.items.last();
                    &&& t.items.len() == s.items.len() + 1
                    &&& made.total_stock == item.total_stock
                    &&& made.available_stock == item.total_stock
                    &&& added.len() == 1
                    &&& added[0].data == (EventDataView::ItemCreated {
                        item_id: made.id,
                        name: made.name,
                        source: ItemSource::Custom,
                    })
                },
                Operation::AddFromCatalogue { catalogue } => {
                    &&& added.len() == t.items.len() - s.items.len()
                    &&& forall|k: int|
                        0 <= k < added.len() ==> (#[trigger] added[k]).data == (
                        EventDataView::ItemCreated {
                            item_id: t.items[s.items.len() + k].id,
                            name: t.items[s.items.len() + k].name,
                            source: ItemSource::DefaultList,
                        }) && t.items[s.items.len() + k].total_stock == 0
                },
                Operation::CreateUser { user } => {
                    let made = t.users.last();
                    &&& t.users.len() == s.users.len() + 1
                    &&& added.len() == 1
                    &&& added[0].data == (EventDataView::UserCreated {
                        user_id: made.id,
                        name: made.name,
                    })
                    &&& added[0].user_id == Some(made.id)
                },
                Operation::UpdateUser { id, changes } => if changes.is_empty() {
                    added.len() == 0 && t == s
                } else {
                    &&& added.len() == 1
                    &&& added[0].data == (EventDataView::UserUpdated { user_id: id, changes })
                    &&& added[0].user_id == Some(id)
                    &&& t.user(id) == edited(s.user(id), changes, call.now)
                },
                Operation::DeleteUser { id } => {
                    &&& added.len() == 1
                    &&& added[0].data == (EventDataView::UserDeleted { user_id: id })
                    &&& added[0].user_id == Some(id)
                    &&& !t.has_user(id)
                },
                Operation::SweepOverdue => added.len() == 0,
            }
        }),
{
    let t = s.apply(call);
    let added = appended(s, t);
    lemma_apply_keeps_wf(s, call);
    match call.op {
        Operation::UpdateUser { id, changes } => {
            if !changes.is_empty() {
                let u = position(user_ids(s.users), id);
                assert(0 <= u < s.users.len());
                assert(user_ids(t.users) =~= user_ids(s.users));
                lemma_position(user_ids(t.users), id, u);
            }
        },
        Operation::DeleteUser { id } => {
            lemma_deleted_user_is_gone(s, id, call.ids, call.now);
        },
        Operation::AddFromCatalogue { catalogue } => {
            assert forall|k: int| 0 <= k < added.len() implies (#[trigger] added[k]).data == (
            EventDataView::ItemCreated {
                item_id: t.items[s.items.len() + k].id,
                name: t.items[s.items.len() + k].name,
                source: ItemSource::DefaultList,
            }) && t.items[s.items.len() + k].total_stock == 0 by {
                assert(added[k] == t.events[s.events.len() + k]);
            }
        },
        Operation::SetTotalStock { item_id, new_total } => {
            let j = position(item_ids(s.items), item_id);
            assert(0 <= j < s.items.len());
            assert(item_ids(t.items) =~= item_ids(s.items));
            lemma_position(item_ids(t.items), item_id, j);
        },
        Operation::CreateLoan { loan: req } => {
            let loan = t.loans.last();
            assert(line_items(loan.items) =~= req.item_ids);
            let n = req.item_ids.len() as int;
            assert forall|k: int| 0 <= k < loan.items.len() implies (#[trigger] added[k + 1]).data
                == (EventDataView::StockReserved {
                item_id: loan.items[k].item_id,
                quantity: loan.items[k].quantity,
                loan_id: loan.id,
                cause: ReserveReason::LoanCreated,
            }) by {
                assert(added[k + 1] == t.events[s.events.len() + 1 + k]);
            }
        },
        Operation::ReturnLoan { loan_id, condition, notes } => {
            let l = position(loan_ids(s.loans), loan_id);
            assert(0 <= l < s.loans.len());
            assert(loan_ids(t.loans) =~= loan_ids(s.loans));
            lemma_position(loan_ids(t.loans), loan_id, l);
            let loan = t.loan(loan_id);
            assert forall|k: int| 0 <= k < loan.items.len() implies (#[trigger] added[k]).data == (
            EventDataView::StockReleased {
                item_id: loan.items[k].item_id,
                quantity: loan.items[k].quantity,
                loan_id,
            }) by {
                assert(added[k] == t.events[s.events.len() + k]);
                assert(s.loans[l].items[k].quantity == 1);
            }
        },
        Operation::CancelReturn { loan_id, cause } => {
            let l = position(loan_ids(s.loans), loan_id);
            assert(0 <= l < s.loans.len());
            assert(loan_ids(t.loans) =~= loan_ids(s.loans));
            lemma_position(loan_ids(t.loans), loan_id, l);
            let loan = t.loan(loan_id);
            assert forall|k: int| 0 <= k < loan.items.len() implies (#[trigger] added[k]).data == (
            EventDataView::StockReserved {
                item_id: loan.items[k].item_id,
                quantity: loan.items[k].quantity,
                loan_id,
                cause: ReserveReason::ReturnCancelled,
            }) by {
                assert(added[k] == t.events[s.events.len() + k]);
                assert(s.loans[l].items[k].quantity == 1);
            }
        },
        _ => {},
    }
}

/// A loan may go from `from` to `to` in one step: it is returned while
/// active or overdue, falls overdue while active, or is reopened after its
/// return.
pub open spec fn may_become(from: LoanStatus, to: LoanStatus) -> bool {
    ||| from == LoanStatus::Active && to == LoanStatus::Returned
    ||| from == LoanStatus::Overdue && to == LoanStatus::Returned
    ||| from == LoanStatus::Active && to == LoanStatus::Overdue
    ||| from == LoanStatus::Returned && to == LoanStatus::Active
}

/// Loans are never removed, keep their place, their identifier and their
/// lines, and change their status only along the permitted steps. A loan
/// that a request adds is `Active`.
pub proof fn lemma_status_steps(s: Ledger, call: Call, i: int)
    requires
        s.wf(),
        0 <= i < s.apply(call).loans.len(),
    ensures
        ({
            let t = s.apply(call);
            &&& s.loans.len() <= t.loans.len()
            &&& i < s.loans.len() ==> {
                &&& t.loans[i].id == s.loans[i].id
                &&& t.loans[i].items == s.loans[i].items
                &&& t.loans[i].status == s.loans[i].status || may_become(
                    s.loans[i].status,
                    t.loans[i].status,
                )
            }
            &&& i >= s.loans.len() ==> t.loans[i].status == LoanStatus::Active
        }),
{
    if s.accepts(call) {
        match call.op {
            Operation::ReturnLoan { loan_id, .. } => {
                assert(0 <= position(loan_ids(s.loans), loan_id) < s.loans.len());
            },
            Operation::CancelReturn { loan_id, .. } => {
                assert(0 <= position(loan_ids(s.loans), loan_id) < s.loans.len());
            },
            _ => {},
        }
    }
}

/// No request makes a loan `Pending`: where no loan is pending before, none
/// is after.
pub proof fn lemma_pending_is_never_reached(s: Ledger, call: Call)
    requires
        s.wf(),
        forall|i: int| 0 <= i < s.loans.len() ==> (#[trigger] s.loans[i]).status
            != LoanStatus::Pending,
    ensures
        forall|i: int|
            0 <= i < s.apply(call).loans.len() ==> (#[trigger] s.apply(call).loans[i]).status
                != LoanStatus::Pending,
{
    let t = s.apply(call);
    assert forall|i: int| 0 <= i < t.loans.len() implies (#[trigger] t.loans[i]).status
        != LoanStatus::Pending by {
        lemma_status_steps(s, call, i);
        if i < s.loans.len() {
            assert(s.loans[i].status != LoanStatus::Pending);
        }
    }
}

/// Stock moves only with loans and stock edits. Requests about users and the
/// sweep leave every item as it is; requests that add items leave the items
/// that are there as they are; and no request ever changes an item's
/// identifier, name or place.
pub proof fn lemma_stock_moves_only_with_loans_and_edits(s: Ledger, call: Call, j: int)
    requires
        s.wf(),
        0 <= j < s.items.len(),
    ensures
        ({
            let t = s.apply(call);
            &&& s.items.len() <= t.items.len()
            &&& t.items[j].id == s.items[j].id
            &&& t.items[j].name == s.items[j].name
            &&& match call.op {
                Operation::CreateLoan { .. } => t.items[j].total_stock == s.items[j].total_stock
                    && t.items[j].available_stock <= s.items[j].available_stock,
                Operation::CancelReturn { .. } => t.items[j].total_stock == s.items[j].total_stock
                    && t.items[j].available_stock <= s.items[j].available_stock,
                Operation::ReturnLoan { .. } => t.items[j].total_stock == s.items[j].total_stock
                    && t.items[j].available_stock >= s.items[j].available_stock,
                Operation::SetTotalStock { item_id, .. } => item_id != s.items[j].id ==> t.items[j]
                    == s.items[j],
                _ => t.items[j] == s.items[j],
            }
        }),
{
    if s.accepts(call) {
        match call.op {
            Operation::SetTotalStock { item_id, .. } => {
                let at = position(item_ids(s.items), item_id);
                assert(0 <= at < s.items.len());
                assert(item_ids(s.items)[at] == item_id);
            },
            _ => {},
        }
    }
}

/// A refused change changes nothing: the ledger after it is the ledger
/// before it, whichever change was asked for.
pub proof fn lemma_all_or_nothing(s: Ledger, call: Call)
    ensures
        match call.op {
            Operation::CreateItem { item } => {
                let (t, r) = s.create_item(item, call.ids, call.now);
                r is Err ==> t == s
            },
            Operation::AddFromCatalogue { catalogue } => {
                let (t, r) = s.add_from_catalogue(catalogue, call.ids, call.now);
                r is Err ==> t == s
            },
            Operation::SetTotalStock { item_id, new_total } => {
                let (t, r) = s.set_total_stock(item_id, new_total, call.ids, call.now);
                r is Err ==> t == s
            },
            Operation::CreateUser { user } => {
                let (t, r) = s.create_user(user, call.ids, call.now);
                r is Err ==> t == s
            },
            Operation::UpdateUser { id, changes } => {
                let (t, r) = s.update_user(id, changes, call.ids, call.now);
                r is Err ==> t == s
            },
            Operation::DeleteUser { id } => {
                let (t, r) = s.delete_user(id, call.ids, call.now);
                r is Err ==> t == s
            },
            Operation::CreateLoan { loan } => {
                let (t, r) = s.create_loan(loan, call.ids, call.now);
                r is Err ==> t == s
            },
            Operation::ReturnLoan { loan_id, condition, notes } => {
                let (t, r) = s.return_loan(loan_id, condition, notes, call.ids, call.now);
                r is Err ==> t == s
            },
            Operation::CancelReturn { loan_id, cause } => {
                let (t, r) = s.cancel_return(loan_id, cause, call.ids, call.now);
                r is Err ==> t == s
            },
            Operation::SweepOverdue => true,
        },
{
}

} // verus!
