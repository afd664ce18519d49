//! Lending, taking back and reopening loans.

use crate::audit::{Event, EventData, ReserveReason};
use crate::consistency::{
    lemma_cancel_return_keeps_wf, lemma_create_loan_keeps_wf, lemma_return_loan_keeps_wf,
    lemma_sweep_keeps_wf, lemma_units_held_bound,
};
use crate::database::{count_in, Database};
use crate::error::{result_view, LedgerError};
use crate::ident::{fresh_id, fresh_ids};
use crate::ledger::{
    due_count, enough_for, first_refusal, give_units, item_ids, line_items, loan_ids, occurrences,
    position, released_events, reserved_events, take_units, units_held, units_out,
};
use crate::models::{lemma_views_push, views, CreateLoanRequest, Item, Loan, LoanItem, LoanStatus};
use crate::time::{Date, Timestamp};
use vstd::prelude::*;

verus! {

/// Every item has at least as many units available as `wanted` asks of it.
pub(crate) fn has_enough(items: &Vec<Item>, wanted: &Vec<String>) -> (b: bool)
    requires
        forall|j: int| 0 <= j < items.len() ==> items[j].available_stock >= 0,
    ensures
        b == enough_for(views(items@), wanted.deep_view()),
{
    let mut j: usize = 0;
    while j < items.len()
        invariant
            j <= items.len(),
            forall|i: int| 0 <= i < items.len() ==> items[i].available_stock >= 0,
            forall|i: int|
                0 <= i < j ==> occurrences(wanted.deep_view(), items[i].id@)
                    <= items[i].available_stock,
        decreases items.len() - j,
    {
        let asked = count_in(wanted, &items[j].id);
        if asked > items[j].available_stock as usize {
            proof {
                assert(views(items@)[j as int].id == items[j as int].id@);
            }
            return false;
        }
        j += 1;
    }
    proof {
        assert forall|i: int| 0 <= i < views(items@).len() implies occurrences(
            wanted.deep_view(),
            (#[trigger] views(items@)[i]).id,
        ) <= views(items@)[i].available_stock by {
            assert(views(items@)[i] == items[i]@);
        }
    }
    true
}

/// Reserves one unit for each entry of `wanted`.
pub(crate) fn reserve_units(items: &mut Vec<Item>, wanted: &Vec<String>, now: Timestamp)
    requires
        forall|j: int| 0 <= j < old(items).len() ==> old(items)[j].available_stock >= 0,
        enough_for(views(old(items)@), wanted.deep_view()),
    ensures
        views(final(items)@) == take_units(views(old(items)@), wanted.deep_view(), now),
{
    let ghost before = views(items@);
    let ghost after = take_units(before, wanted.deep_view(), now);
    let mut j: usize = 0;
    while j < items.len()
        invariant
            j <= items.len(),
            items.len() == before.len(),
            after == take_units(before, wanted.deep_view(), now),
            enough_for(before, wanted.deep_view()),
            forall|i: int|
                0 <= i < before.len() ==> 0 <= (#[trigger] before[i]).available_stock <= i32::MAX,
            forall|i: int| 0 <= i < j ==> items[i]@ == after[i],
            forall|i: int| j <= i < items.len() ==> items[i]@ == before[i],
        decreases items.len() - j,
    {
        let asked = count_in(wanted, &items[j].id);
        proof {
            assert(occurrences(wanted.deep_view(), before[j as int].id)
                <= before[j as int].available_stock);
        }
        if asked > 0 {
            // never refused: the item has that many units
            let _ = items[j].reserve(asked as i32);
            items[j].updated_at = now;
        }
        j += 1;
    }
    proof {
        assert(views(items@) =~= after);
    }
}

/// Releases one unit for each entry of `given`.
pub(crate) fn release_units(items: &mut Vec<Item>, given: &Vec<String>, now: Timestamp)
    requires
        forall|j: int|
            0 <= j < old(items).len() ==> 0 <= (#[trigger] old(items)[j]).available_stock
                && old(items)[j].available_stock + occurrences(
                given.deep_view(),
                old(items)[j].id@,
            ) <= i32::MAX,
    ensures
        views(final(items)@) == give_units(views(old(items)@), given.deep_view(), now),
{
    let ghost before = views(items@);
    let ghost after = give_units(before, given.deep_view(), now);
    let mut j: usize = 0;
    while j < items.len()
        invariant
            j <= items.len(),
            items.len() == before.len(),
            after == give_units(before, given.deep_view(), now),
            forall|i: int|
                0 <= i < before.len() ==> 0 <= (#[trigger] before[i]).available_stock
                    && before[i].available_stock + occurrences(given.deep_view(), before[i].id)
                    <= i32::MAX,
            forall|i: int| 0 <= i < j ==> items[i]@ == after[i],
            forall|i: int| j <= i < items.len() ==> items[i]@ == before[i],
        decreases items.len() - j,
    {
        let back = count_in(given, &items[j].id);
        proof {
            assert(before[j as int].available_stock + occurrences(
                given.deep_view(),
                before[j as int].id,
            ) <= i32::MAX);
        }
        if back > 0 {
            items[j].release(back as i32);
            items[j].updated_at = now;
        }
        j += 1;
    }
    proof {
        assert(views(items@) =~= after);
    }
}

/// The item that each line takes a unit of.
pub fn line_item_ids(lines: &Vec<LoanItem>) -> (r: Vec<String>)
    ensures
        r.deep_view() == line_items(views(lines@)),
{
    let mut out: Vec<String> = Vec::new();
    let mut k: usize = 0;
    while k < lines.len()
        invariant
            k <= lines.len(),
            out.len() == k,
            forall|i: int| 0 <= i < k ==> out[i]@ == lines[i].item_id@,
        decreases lines.len() - k,
    {
        out.push(lines[k].item_id.clone());
        k += 1;
    }
    proof {
        assert(out.deep_view() =~= line_items(views(lines@)));
    }
    out
}

/// Writes one `STOCK_RESERVED` event for each entry of `wanted`; event `k`
/// carries the identifier `ids[from + k]`.
pub(crate) fn log_reserved(
    events: &mut Vec<Event>,
    ids: &Vec<String>,
    from: usize,
    wanted: &Vec<String>,
    loan_id: &String,
    user_id: &Option<String>,
    cause: ReserveReason,
    now: Timestamp,
)
    requires
        from + wanted.len() <= ids.len(),
    ensures
        views(final(events)@) == views(old(events)@) + reserved_events(
            ids.deep_view().subrange(from as int, from + wanted.len()),
            wanted.deep_view(),
            loan_id@,
            user_id.deep_view(),
            cause,
            now,
        ),
{
    let ghost base = views(events@);
    let ghost all = reserved_events(
        ids.deep_view().subrange(from as int, from + wanted.len()),
        wanted.deep_view(),
        loan_id@,
        user_id.deep_view(),
        cause,
        now,
    );
    let mut k: usize = 0;
    while k < wanted.len()
        invariant
            k <= wanted.len(),
            from + wanted.len() <= ids.len(),
            all == reserved_events(
                ids.deep_view().subrange(from as int, from + wanted.len()),
                wanted.deep_view(),
                loan_id@,
                user_id.deep_view(),
                cause,
                now,
            ),
            events.len() == base.len() + k,
            forall|i: int| 0 <= i < base.len() ==> events[i]@ == base[i],
            forall|i: int| 0 <= i < k ==> events[base.len() + i]@ == all[i],
        decreases wanted.len() - k,
    {
        let event = Event {
            id: ids[from + k].clone(),
            data: EventData::StockReserved {
                item_id: wanted[k].clone(),
                quantity: 1,
                loan_id: loan_id.clone(),
                cause,
            },
            created_at: now,
            loan_id: Some(loan_id.clone()),
            user_id: user_id.clone(),
        };
        proof {
            assert(event@ == all[k as int]);
        }
        events.push(event);
        k += 1;
    }
    proof {
        assert(views(events@) =~= base + all);
    }
}

/// Writes one `STOCK_RELEASED` event for each entry of `given`; event `k`
/// carries the identifier `ids[from + k]`.
pub(crate) fn log_released(
    events: &mut Vec<Event>,
    ids: &Vec<String>,
    from: usize,
    given: &Vec<String>,
    loan_id: &String,
    now: Timestamp,
)
    requires
        from + given.len() <= ids.len(),
    ensures
        views(final(events)@) == views(old(events)@) + released_events(
            ids.deep_view().subrange(from as int, from + given.len()),
            given.deep_view(),
            loan_id@,
            now,
        ),
{
    let ghost base = views(events@);
    let ghost all = released_events(
        ids.deep_view().subrange(from as int, from + given.len()),
        given.deep_view(),
        loan_id@,
        now,
    );
    let mut k: usize = 0;
    while k < given.len()
        invariant
            k <= given.len(),
            from + given.len() <= ids.len(),
            all == released_events(
                ids.deep_view().subrange(from as int, from + given.len()),
                given.deep_view(),
                loan_id@,
                now,
            ),
            events.len() == base.len() + k,
            forall|i: int| 0 <= i < base.len() ==> events[i]@ == base[i],
            forall|i: int| 0 <= i < k ==> events[base.len() + i]@ == all[i],
        decreases given.len() - k,
    {
        let event = Event {
            id: ids[from + k].clone(),
            data: EventData::StockReleased {
                item_id: given[k].clone(),
                quantity: 1,
                loan_id: loan_id.clone(),
            },
            created_at: now,
            loan_id: Some(loan_id.clone()),
            user_id: None,
        };
        proof {
            assert(event@ == all[k as int]);
        }
        events.push(event);
        k += 1;
    }
    proof {
        assert(views(events@) =~= base + all);
    }
}

impl Database {
    /// Looks every requested item up, in order, and stops at the first that
    /// is unknown or has no unit available. Where none is, the answer holds
    /// the index of each requested item.
    pub(crate) fn scan_request(&self, wanted: &Vec<String>) -> (r: Result<Vec<usize>, LedgerError>)
        requires
            self.wf(),
        ensures
            match r {
                Ok(slots) => {
                    &&& first_refusal(self@.items, wanted.deep_view()) is None
                    &&& slots.len() == wanted.len()
                    &&& forall|k: int|
                        0 <= k < wanted.len() ==> (#[trigger] slots[k]) < self.items.len()
                            && slots[k] == position(item_ids(self@.items), wanted[k]@)
                },
                Err(e) => first_refusal(self@.items, wanted.deep_view()) == Some(e),
            },
    {
        let ghost asked = wanted.deep_view();
        let mut slots: Vec<usize> = Vec::new();
        let mut k: usize = 0;
        proof {
            assert(asked.skip(0) =~= asked);
        }
        while k < wanted.len()
            invariant
                k <= wanted.len(),
                self.wf(),
                asked == wanted.deep_view(),
                slots.len() == k,
                first_refusal(self@.items, asked) == first_refusal(
                    self@.items,
                    asked.skip(k as int),
                ),
                forall|i: int|
                    0 <= i < k ==> (#[trigger] slots[i]) < self.items.len() && slots[i]
                        == position(item_ids(self@.items), wanted[i]@),
            decreases wanted.len() - k,
        {
            proof {
                assert(asked.skip(k as int)[0] == wanted[k as int]@);
                assert(asked.skip(k as int).drop_first() =~= asked.skip(k as int + 1));
            }
            match self.find_item(&wanted[k]) {
                None => {
                    return Err(LedgerError::NotFound);
                },
                Some(j) => {
                    if self.items[j].available_stock < 1 {
                        return Err(LedgerError::InsufficientStock);
                    }
                    slots.push(j);
                },
            }
            k += 1;
        }
        Ok(slots)
    }

    /// The lines of a new loan.
    pub(crate) fn build_lines(&self, wanted: &Vec<String>, slots: &Vec<usize>, ids: &Vec<String>) -> (r:
        Vec<LoanItem>)
        requires
            slots.len() == wanted.len(),
            ids.len() >= wanted.len() + 1,
            forall|k: int|
                0 <= k < wanted.len() ==> (#[trigger] slots[k]) < self.items.len() && slots[k]
                    == position(item_ids(self@.items), wanted[k]@),
        ensures
            views(r@) == self@.new_lines(wanted.deep_view(), ids.deep_view()),
    {
        let mut lines: Vec<LoanItem> = Vec::new();
        let mut k: usize = 0;
        while k < wanted.len()
            invariant
                k <= wanted.len(),
                slots.len() == wanted.len(),
                ids.len() >= wanted.len() + 1,
                lines.len() == k,
                forall|i: int|
                    0 <= i < wanted.len() ==> (#[trigger] slots[i]) < self.items.len()
                        && slots[i] == position(item_ids(self@.items), wanted[i]@),
                forall|i: int|
                    0 <= i < k ==> lines[i]@ == self@.new_lines(
                        wanted.deep_view(),
                        ids.deep_view(),
                    )[i],
            decreases wanted.len() - k,
        {
            let line = LoanItem {
                id: ids[1 + k].clone(),
                loan_id: ids[0].clone(),
                item_id: wanted[k].clone(),
                item_name: self.items[slots[k]].name.clone(),
                quantity: 1,
            };
            proof {
                assert(self@.items[slots[k as int] as int].name == self.items[slots[k as int] as int].name@);
            }
            lines.push(line);
            k += 1;
        }
        proof {
            assert(views(lines@) =~= self@.new_lines(wanted.deep_view(), ids.deep_view()));
        }
        lines
    }

    /// Lends one unit of each requested item to a user. Records
    /// `LOAN_CREATED`, then one `STOCK_RESERVED` for each item. With `n`
    /// items requested, `ids` holds the loan's identifier, those of the `n`
    /// lines, that of the creation event and those of the `n` reservation
    /// events.
    pub fn create_loan_with(&mut self, req: CreateLoanRequest, ids: &Vec<String>, now: Timestamp) -> (res:
        Result<Loan, LedgerError>)
        requires
            old(self).wf(),
            ids@.len() == 2 * req.item_ids@.len() + 2,
        ensures
            final(self).wf(),
            (final(self)@, result_view(res)) == old(self)@.create_loan(req@, ids.deep_view(), now),
    {
        let n = req.item_ids.len();
        assert(ids.len() == 2 * n + 2);
        let u = match self.find_user(&req.user_id) {
            Some(u) => u,
            None => {
                return Err(LedgerError::NotFound);
            },
        };
        let slots = match self.scan_request(&req.item_ids) {
            Ok(slots) => slots,
            Err(e) => {
                return Err(e);
            },
        };
        proof {
            assert forall|j: int| 0 <= j < self.items.len() implies self.items[j].available_stock
                >= 0 by {
                assert(self@.items[j].available_stock >= 0);
            }
        }
        if !has_enough(&self.items, &req.item_ids) {
            return Err(LedgerError::InsufficientStock);
        }
        if !self.all_fresh(ids) {
            return Err(LedgerError::Conflict);
        }
        let lines = self.build_lines(&req.item_ids, &slots, ids);
        let loan = Loan {
            id: ids[0].clone(),
            user_id: req.user_id.clone(),
            user_name: self.users[u].name.clone(),
            start_date: req.start_date,
            expected_end_date: req.expected_end_date,
            actual_end_date: None,
            status: LoanStatus::Active,
            notes: req.notes,
            created_at: now,
            updated_at: now,
            items: lines,
        };
        let out = loan.clone();
        let user_ref = Some(req.user_id.clone());
        let created = Event {
            id: ids[n + 1].clone(),
            data: EventData::LoanCreated {
                loan_id: ids[0].clone(),
                user_id: req.user_id,
                items: req.item_ids.clone(),
                start_date: req.start_date,
                expected_end_date: req.expected_end_date,
            },
            created_at: now,
            loan_id: Some(ids[0].clone()),
            user_id: user_ref.clone(),
        };
        proof {
            let copied = created.data->LoanCreated_items;
            assert(copied.deep_view() =~= req.item_ids.deep_view());
            lemma_views_push(self.loans@, loan);
            lemma_views_push(self.events@, created);
            lemma_create_loan_keeps_wf(self@, req@, ids.deep_view(), now);
        }
        reserve_units(&mut self.items, &req.item_ids, now);
        self.loans.push(loan);
        self.events.push(created);
        log_reserved(
            &mut self.events,
            ids,
            n + 2,
            &req.item_ids,
            &ids[0],
            &user_ref,
            ReserveReason::LoanCreated,
            now,
        );
        Ok(out)
    }

    /// Lends under newly drawn identifiers, at the current time.
    pub fn create_loan(&mut self, req: CreateLoanRequest) -> (res: Result<Loan, LedgerError>)
        requires
            old(self).wf(),
        ensures
            final(self).wf(),
            !old(self)@.has_user(req@.user_id) ==> res == Err::<Loan, LedgerError>(
                LedgerError::NotFound,
            ),
            old(self)@.has_user(req@.user_id) && first_refusal(old(self)@.items, req@.item_ids)
                is Some ==> res == Err::<Loan, LedgerError>(
                first_refusal(old(self)@.items, req@.item_ids)->0,
            ),
            old(self)@.has_user(req@.user_id) && first_refusal(old(self)@.items, req@.item_ids)
                is None && !enough_for(old(self)@.items, req@.item_ids) ==> res == Err::<
                Loan,
                LedgerError,
            >(LedgerError::InsufficientStock),
            res is Err ==> final(self)@ == old(self)@,
            exists|ids: Seq<Seq<char>>, now: Timestamp|
                ids.len() == 2 * req@.item_ids.len() + 2 && (final(self)@, result_view(res))
                    == #[trigger] old(self)@.create_loan(req@, ids, now),
    {
        let n = req.item_ids.len();
        let mut ids = fresh_ids(n);
        let mut more = fresh_ids(n);
        ids.append(&mut more);
        ids.push(fresh_id());
        ids.push(fresh_id());
        let now = Timestamp::now();
        self.create_loan_with(req, &ids, now)
    }

    /// Every item can take back the units that the loan at `l` holds.
    proof fn lemma_room_for_return(&self, l: int)
        requires
            self.wf(),
            0 <= l < self.loans.len(),
            self.loans[l].status.holds_stock(),
        ensures
            forall|j: int|
                0 <= j < self.items.len() ==> 0 <= (#[trigger] self.items[j]).available_stock
                    && self.items[j].available_stock + occurrences(
                    line_items(views(self.loans[l].items@)),
                    self.items[j].id@,
                ) <= i32::MAX,
    {
        assert forall|j: int| 0 <= j < self.items.len() implies 0 <= (
        #[trigger] self.items[j]).available_stock && self.items[j].available_stock + occurrences(
            line_items(views(self.loans[l].items@)),
            self.items[j].id@,
        ) <= i32::MAX by {
            let item = self@.items[j];
            assert(item == self.items[j]@);
            assert(item.total_stock - item.available_stock == units_out(self@.loans, item.id));
            lemma_units_held_bound(self@.loans, l, item.id);
            assert(self@.loans[l] == self.loans[l]@);
            assert(units_held(self@.loans[l], item.id) == occurrences(
                line_items(views(self.loans[l].items@)),
                item.id,
            ));
        }
    }

    /// Takes a loan back: the loan becomes `Returned` on the day of `now`,
    /// every line's unit is released, and `notes`, where given, replace the
    /// loan's notes. Records one `STOCK_RELEASED` for each line, then
    /// `LOAN_RETURNED`. Only an active or overdue loan can be taken back.
    /// With `n` lines on the loan, `ids` holds the identifiers of the `n`
    /// release events and that of the return event.
    pub fn return_loan_with(
        &mut self,
        loan_id: &str,
        condition: Option<String>,
        notes: Option<String>,
        ids: &Vec<String>,
        now: Timestamp,
    ) -> (res: Result<Loan, LedgerError>)
        requires
            old(self).wf(),
            old(self)@.has_loan(loan_id@) ==> ids@.len() == old(self)@.loan(loan_id@).items.len()
                + 1,
        ensures
            final(self).wf(),
            (final(self)@, result_view(res)) == old(self)@.return_loan(
                loan_id@,
                condition.deep_view(),
                notes.deep_view(),
                ids.deep_view(),
                now,
            ),
    {
        let key = String::from_str(loan_id);
        let l = match self.find_loan(&key) {
            Some(l) => l,
            None => {
                return Err(LedgerError::NotFound);
            },
        };
        match self.loans[l].status {
            LoanStatus::Active | LoanStatus::Overdue => {},
            _ => {
                return Err(LedgerError::InvalidTransition);
            },
        }
        if !self.all_fresh(ids) {
            return Err(LedgerError::Conflict);
        }
        let given = line_item_ids(&self.loans[l].items);
        let n = given.len();
        proof {
            assert(self@.loans[l as int] == self.loans[l as int]@);
            assert(n == self@.loans[l as int].items.len());
            self.lemma_room_for_return(l as int);
            lemma_return_loan_keeps_wf(
                self@,
                loan_id@,
                condition.deep_view(),
                notes.deep_view(),
                ids.deep_view(),
                now,
            );
        }
        release_units(&mut self.items, &given, now);
        self.loans[l].status = LoanStatus::Returned;
        self.loans[l].actual_end_date = Some(now.date);
        match &notes {
            Some(v) => {
                self.loans[l].notes = Some(v.clone());
            },
            None => {},
        }
        self.loans[l].updated_at = now;
        log_released(&mut self.events, ids, 0, &given, &key, now);
        let returned = Event {
            id: ids[n].clone(),
            data: EventData::LoanReturned { loan_id: key.clone(), condition, notes },
            created_at: now,
            loan_id: Some(key),
            user_id: None,
        };
        proof {
            lemma_views_push(self.events@, returned);
        }
        self.events.push(returned);
        let out = self.loans[l].clone();
        proof {
            assert(views(self.loans@) =~= views(old(self).loans@).update(l as int, out@));
        }
        Ok(out)
    }

    /// Takes a loan back at the current time.
    pub fn return_loan(&mut self, loan_id: &str, condition: Option<String>, notes: Option<String>) -> (res:
        Result<Loan, LedgerError>)
        requires
            old(self).wf(),
        ensures
            final(self).wf(),
            !old(self)@.has_loan(loan_id@) ==> res == Err::<Loan, LedgerError>(
                LedgerError::NotFound,
            ),
            old(self)@.has_loan(loan_id@) && old(self)@.loan(loan_id@).status != LoanStatus::Active
                && old(self)@.loan(loan_id@).status != LoanStatus::Overdue ==> res == Err::<
                Loan,
                LedgerError,
            >(LedgerError::InvalidTransition),
            res is Err ==> final(self)@ == old(self)@,
            res matches Ok(loan) ==> loan.status == LoanStatus::Returned,
            exists|ids: Seq<Seq<char>>, now: Timestamp|
                (final(self)@, result_view(res)) == #[trigger] old(self)@.return_loan(
                    loan_id@,
                    condition.deep_view(),
                    notes.deep_view(),
                    ids,
                    now,
                ),
    {
        let key = String::from_str(loan_id);
        let lines: usize = match self.find_loan(&key) {
            Some(l) => self.loans[l].items.len(),
            None => 0,
        };
        proof {
            if self@.has_loan(loan_id@) {
                let l = position(loan_ids(self@.loans), loan_id@);
                assert(self@.loans[l] == self.loans[l]@);
            }
        }
        let mut ids = fresh_ids(lines);
        ids.push(fresh_id());
        let now = Timestamp::now();
        self.return_loan_with(loan_id, condition, notes, &ids, now)
    }

    /// Reopens a returned loan: it becomes `Active` with no return date, and
    /// every line's unit is reserved again. Records one `STOCK_RESERVED` for
    /// each line, then `RETURN_CANCELLED`. Refused with `InsufficientStock`
    /// where the units have gone to other loans in the meantime. With `n`
    /// lines on the loan, `ids` holds the identifiers of the `n` reservation
    /// events and that of the cancellation event.
    pub fn cancel_return_with(
        &mut self,
        loan_id: &str,
        reason: Option<String>,
        ids: &Vec<String>,
        now: Timestamp,
    ) -> (res: Result<Loan, LedgerError>)
        requires
            old(self).wf(),
            old(self)@.has_loan(loan_id@) ==> ids@.len() == old(self)@.loan(loan_id@).items.len()
                + 1,
        ensures
            final(self).wf(),
            (final(self)@, result_view(res)) == old(self)@.cancel_return(
                loan_id@,
                reason.deep_view(),
                ids.deep_view(),
                now,
            ),
    {
        let key = String::from_str(loan_id);
        let l = match self.find_loan(&key) {
            Some(l) => l,
            None => {
                return Err(LedgerError::NotFound);
            },
        };
        match self.loans[l].status {
            LoanStatus::Returned => {},
            _ => {
                return Err(LedgerError::InvalidTransition);
            },
        }
        let wanted = line_item_ids(&self.loans[l].items);
        let n = wanted.len();
        proof {
            assert(self@.loans[l as int] == self.loans[l as int]@);
            assert(n == self@.loans[l as int].items.len());
            assert forall|j: int| 0 <= j < self.items.len() implies self.items[j].available_stock
                >= 0 by {
                assert(self@.items[j].available_stock >= 0);
            }
        }
        if !has_enough(&self.items, &wanted) {
            return Err(LedgerError::InsufficientStock);
        }
        if !self.all_fresh(ids) {
            return Err(LedgerError::Conflict);
        }
        proof {
            lemma_cancel_return_keeps_wf(self@, loan_id@, reason.deep_view(), ids.deep_view(), now);
        }
        reserve_units(&mut self.items, &wanted, now);
        self.loans[l].status = LoanStatus::Active;
        self.loans[l].actual_end_date = None;
        self.loans[l].updated_at = now;
        let nobody: Option<String> = None;
        log_reserved(
            &mut self.events,
            ids,
            0,
            &wanted,
            &key,
            &nobody,
            ReserveReason::ReturnCancelled,
            now,
        );
        let cancelled = Event {
            id: ids[n].clone(),
            data: EventData::ReturnCancelled { loan_id: key.clone(), reason, cancelled_at: now },
            created_at: now,
            loan_id: Some(key),
            user_id: None,
        };
        proof {
            lemma_views_push(self.events@, cancelled);
        }
        self.events.push(cancelled);
        let out = self.loans[l].clone();
        proof {
            assert(views(self.loans@) =~= views(old(self).loans@).update(l as int, out@));
        }
        Ok(out)
    }

    /// Reopens a returned loan at the current time.
    pub fn cancel_return(&mut self, loan_id: &str, reason: Option<String>) -> (res: Result<
        Loan,
        LedgerError,
    >)
        requires
            old(self).wf(),
        ensures
            final(self).wf(),
            !old(self)@.has_loan(loan_id@) ==> res == Err::<Loan, LedgerError>(
                LedgerError::NotFound,
            ),
            old(self)@.has_loan(loan_id@) && old(self)@.loan(loan_id@).status
                != LoanStatus::Returned ==> res == Err::<Loan, LedgerError>(
                LedgerError::InvalidTransition,
            ),
            old(self)@.has_loan(loan_id@) && old(self)@.loan(loan_id@).status
                == LoanStatus::Returned && !enough_for(
                old(self)@.items,
                line_items(old(self)@.loan(loan_id@).items),
            ) ==> res == Err::<Loan, LedgerError>(LedgerError::InsufficientStock),
            res is Err ==> final(self)@ == old(self)@,
            res matches Ok(loan) ==> loan.status == LoanStatus::Active,
            exists|ids: Seq<Seq<char>>, now: Timestamp|
                (final(self)@, result_view(res)) == #[trigger] old(self)@.cancel_return(
                    loan_id@,
                    reason.deep_view(),
                    ids,
                    now,
                ),
    {
        let key = String::from_str(loan_id);
        let lines: usize = match self.find_loan(&key) {
            Some(l) => self.loans[l].items.len(),
            None => 0,
        };
        proof {
            if self@.has_loan(loan_id@) {
                let l = position(loan_ids(self@.loans), loan_id@);
                assert(self@.loans[l] == self.loans[l]@);
            }
        }
        let mut ids = fresh_ids(lines);
        ids.push(fresh_id());
        let now = Timestamp::now();
        self.cancel_return_with(loan_id, reason, &ids, now)
    }

    /// Marks as `Overdue` every active loan that was expected back before
    /// `today`, and says how many it marked. No event is written.
    pub fn update_overdue_loans_on(&mut self, today: Date) -> (marked: usize)
        requires
            old(self).wf(),
        ensures
            final(self).wf(),
            (final(self)@, marked as nat) == old(self)@.sweep_overdue(today),
    {
        let ghost before = views(self.loans@);
        let ghost after = self@.sweep_overdue(today).0.loans;
        proof {
            lemma_sweep_keeps_wf(self@, today);
        }
        let mut marked: usize = 0;
        let mut i: usize = 0;
        while i < self.loans.len()
            invariant
                i <= self.loans.len(),
                self.loans.len() == before.len(),
                self.users == old(self).users,
                self.items == old(self).items,
                self.events == old(self).events,
                after == old(self)@.sweep_overdue(today).0.loans,
                before == old(self)@.loans,
                marked <= i,
                marked == due_count(before.take(i as int), today),
                forall|k: int| 0 <= k < i ==> self.loans[k]@ == after[k],
                forall|k: int| i <= k < before.len() ==> self.loans[k]@ == before[k],
            decreases self.loans.len() - i,
        {
            proof {
                assert(before.take(i as int + 1).drop_last() =~= before.take(i as int));
                assert(before.take(i as int + 1).last() == before[i as int]);
            }
            let due = match self.loans[i].status {
                LoanStatus::Active => self.loans[i].expected_end_date.is_before(&today),
                _ => false,
            };
            if due {
                self.loans[i].status = LoanStatus::Overdue;
                marked += 1;
            }
            i += 1;
        }
        proof {
            assert(before.take(i as int) =~= before);
            assert(views(self.loans@) =~= after);
        }
        marked
    }

    /// Marks the loans that are overdue today.
    pub fn update_overdue_loans(&mut self) -> (marked: usize)
        requires
            old(self).wf(),
        ensures
            final(self).wf(),
            exists|today: Date|
                (final(self)@, marked as nat) == #[trigger] old(self)@.sweep_overdue(today),
    {
        let now = Timestamp::now();
        self.update_overdue_loans_on(now.date)
    }

    /// The loan with the identifier.
    pub fn get_loan_by_id(&self, id: &str) -> (res: Result<Loan, LedgerError>)
        requires
            self.wf(),
        ensures
            res is Ok == self@.has_loan(id@),
            res matches Ok(loan) ==> loan@ == self@.loan(id@),
            res matches Err(e) ==> e == LedgerError::NotFound,
    {
        let key = String::from_str(id);
        match self.find_loan(&key) {
            Some(l) => Ok(self.loans[l].clone()),
            None => Err(LedgerError::NotFound),
        }
    }
}

} // verus!
