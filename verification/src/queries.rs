//! Reading the ledger: listings, searches and the overview figures.

use crate::audit::{Event, EventView};
use crate::database::Database;
use crate::ledger::{
    count_status, first_n, item_matches, refers_to_loan, total_available, user_matches, Ledger,
};
use crate::models::{
    lemma_views_push, views, DashboardStats, DashboardStatsView, Item, ItemView, Loan, LoanStatus,
    LoanView, User, UserView,
};
use crate::ordering::{copies_from, is_listing, listing, ranking, Ranked};
use crate::text::{contains_ignoring_case, lemma_bytes_order, sorts_before, text_before};
use vstd::prelude::*;

verus! {

/// Users are listed by name.
impl Ranked for User {
    open spec fn before(a: UserView, b: UserView) -> bool {
        text_before(a.name, b.name)
    }

    fn stands_before(&self, other: &Self) -> (r: bool) {
        sorts_before(self.name.as_str(), other.name.as_str())
    }

    fn duplicate(&self) -> (r: Self) {
        self.clone()
    }

    proof fn lemma_ranking(a: UserView, b: UserView, c: UserView) {
        lemma_bytes_order(
            vstd::utf8::encode_utf8(a.name),
            vstd::utf8::encode_utf8(b.name),
            vstd::utf8::encode_utf8(c.name),
        );
    }
}

/// Items are listed by name.
impl Ranked for Item {
    open spec fn before(a: ItemView, b: ItemView) -> bool {
        text_before(a.name, b.name)
    }

    fn stands_before(&self, other: &Self) -> (r: bool) {
        sorts_before(self.name.as_str(), other.name.as_str())
    }

    fn duplicate(&self) -> (r: Self) {
        self.clone()
    }

    proof fn lemma_ranking(a: ItemView, b: ItemView, c: ItemView) {
        lemma_bytes_order(
            vstd::utf8::encode_utf8(a.name),
            vstd::utf8::encode_utf8(b.name),
            vstd::utf8::encode_utf8(c.name),
        );
    }
}

/// Loans are listed from the latest creation time to the earliest.
impl Ranked for Loan {
    open spec fn before(a: LoanView, b: LoanView) -> bool {
        b.created_at.earlier_than(a.created_at)
    }

    fn stands_before(&self, other: &Self) -> (r: bool) {
        other.created_at.is_before(&self.created_at)
    }

    fn duplicate(&self) -> (r: Self) {
        self.clone()
    }

    proof fn lemma_ranking(a: LoanView, b: LoanView, c: LoanView) {
    }
}

/// Events are listed from the latest to the earliest.
impl Ranked for Event {
    open spec fn before(a: EventView, b: EventView) -> bool {
        b.created_at.earlier_than(a.created_at)
    }

    fn stands_before(&self, other: &Self) -> (r: bool) {
        other.created_at.is_before(&self.created_at)
    }

    fn duplicate(&self) -> (r: Self) {
        self.clone()
    }

    proof fn lemma_ranking(a: EventView, b: EventView, c: EventView) {
    }
}

/// `stats` holds the figures of the overview of the ledger: how many loans
/// are active, how many are still out (active or overdue), how many are
/// overdue, the units available of all items together (held at `i64::MAX`
/// where the sum is larger), the number of users, the five latest loans and
/// the ten latest events.
pub open spec fn is_overview(s: Ledger, stats: DashboardStatsView) -> bool {
    &&& stats.active_loans == count_status(s.loans, LoanStatus::Active)
    &&& stats.overdue_loans == count_status(s.loans, LoanStatus::Overdue)
    &&& stats.pending_returns == stats.active_loans + stats.overdue_loans
    &&& stats.total_items_available == if total_available(s.items) <= i64::MAX {
        total_available(s.items)
    } else {
        i64::MAX as int
    }
    &&& stats.total_users == s.users.len()
    &&& exists|all: Seq<LoanView>| #[trigger]
        is_listing(s.loans, ranking::<Loan>(), all) && stats.recent_loans == first_n(all, 5)
    &&& exists|all: Seq<EventView>| #[trigger]
        is_listing(s.events, ranking::<Event>(), all) && stats.recent_events == first_n(all, 10)
}

/// The records with at most `limit` of them kept from the front; all of
/// them where `limit` is negative.
pub fn keep_first<T: View>(all: Vec<T>, limit: i64) -> (out: Vec<T>)
    ensures
        out@ == first_n(all@, limit as int),
        views(out@) == first_n(views(all@), limit as int),
{
    let mut out = all;
    if 0 <= limit && (limit as u64) < (out.len() as u64) {
        out.truncate(limit as usize);
    }
    proof {
        assert(views(out@) =~= first_n(views(all@), limit as int));
    }
    out
}

impl Database {
    /// All users in the order in which they were created.
    pub fn all_users(&self) -> (out: Vec<User>)
        ensures
            views(out@) == self@.users,
    {
        let out = copies_from(&self.users, 0);
        proof {
            assert(self@.users.skip(0) =~= self@.users);
        }
        out
    }

    /// All items in the order in which they were created.
    pub fn all_items(&self) -> (out: Vec<Item>)
        ensures
            views(out@) == self@.items,
    {
        let out = copies_from(&self.items, 0);
        proof {
            assert(self@.items.skip(0) =~= self@.items);
        }
        out
    }

    /// All loans in the order in which they were created.
    pub fn all_loans(&self) -> (out: Vec<Loan>)
        ensures
            views(out@) == self@.loans,
    {
        let out = copies_from(&self.loans, 0);
        proof {
            assert(self@.loans.skip(0) =~= self@.loans);
        }
        out
    }

    /// The audit trail from its entry number `from` on, in the order in
    /// which it was written; nothing where the trail is shorter.
    pub fn events_from(&self, from: usize) -> (out: Vec<Event>)
        ensures
            views(out@) == if from <= self@.events.len() {
                self@.events.skip(from as int)
            } else {
                Seq::empty()
            },
    {
        copies_from(&self.events, from)
    }

    /// All users, by name.
    pub fn get_users(&self) -> (out: Vec<User>)
        ensures
            is_listing(self@.users, ranking::<User>(), views(out@)),
    {
        listing(&self.users)
    }

    /// The users that match the query, by name.
    pub fn search_users(&self, query: &str) -> (out: Vec<User>)
        ensures
            is_listing(
                self@.users.filter(|u: UserView| user_matches(u, query@)),
                ranking::<User>(),
                views(out@),
            ),
    {
        let ghost wanted = |u: UserView| user_matches(u, query@);
        let mut found: Vec<User> = Vec::new();
        let mut i: usize = 0;
        proof {
            assert(self@.users.take(0) =~= Seq::empty());
            reveal(Seq::filter);
            assert(views(found@) =~= self@.users.take(0).filter(wanted));
        }
        while i < self.users.len()
            invariant
                i <= self.users.len(),
                wanted == |u: UserView| user_matches(u, query@),
                views(found@) == self@.users.take(i as int).filter(wanted),
            decreases self.users.len() - i,
        {
            let user = &self.users[i];
            let hit = contains_ignoring_case(user.name.as_str(), query) || contains_ignoring_case(
                user.dni.as_str(),
                query,
            ) || contains_ignoring_case(user.address.as_str(), query);
            proof {
                let rows = self@.users;
                assert(rows.take(i as int + 1) =~= rows.take(i as int).push(rows[i as int]));
                rows.take(i as int).lemma_filter_push(rows[i as int], wanted);
                assert(hit == wanted(rows[i as int]));
            }
            if hit {
                let copy = user.clone();
                proof {
                    lemma_views_push(found@, copy);
                }
                found.push(copy);
            }
            i += 1;
        }
        proof {
            assert(self@.users.take(i as int) =~= self@.users);
        }
        listing(&found)
    }

    /// All items, by name.
    pub fn get_items(&self) -> (out: Vec<Item>)
        ensures
            is_listing(self@.items, ranking::<Item>(), views(out@)),
    {
        listing(&self.items)
    }

    /// The items that match the query, by name.
    pub fn search_items(&self, query: &str) -> (out: Vec<Item>)
        ensures
            is_listing(
                self@.items.filter(|i: ItemView| item_matches(i, query@)),
                ranking::<Item>(),
                views(out@),
            ),
    {
        let ghost wanted = |i: ItemView| item_matches(i, query@);
        let mut found: Vec<Item> = Vec::new();
        let mut i: usize = 0;
        proof {
            assert(self@.items.take(0) =~= Seq::empty());
            reveal(Seq::filter);
            assert(views(found@) =~= self@.items.take(0).filter(wanted));
        }
        while i < self.items.len()
            invariant
                i <= self.items.len(),
                wanted == |i: ItemView| item_matches(i, query@),
                views(found@) == self@.items.take(i as int).filter(wanted),
            decreases self.items.len() - i,
        {
            let item = &self.items[i];
            let in_description = match &item.description {
                Some(d) => contains_ignoring_case(d.as_str(), query),
                None => false,
            };
            let hit = contains_ignoring_case(item.name.as_str(), query) || in_description;
            proof {
                let rows = self@.items;
                assert(rows.take(i as int + 1) =~= rows.take(i as int).push(rows[i as int]));
                rows.take(i as int).lemma_filter_push(rows[i as int], wanted);
                assert(hit == wanted(rows[i as int]));
            }
            if hit {
                let copy = item.clone();
                proof {
                    lemma_views_push(found@, copy);
                }
                found.push(copy);
            }
            i += 1;
        }
        proof {
            assert(self@.items.take(i as int) =~= self@.items);
        }
        listing(&found)
    }

    /// All loans, the latest first.
    pub fn get_loans(&self) -> (out: Vec<Loan>)
        ensures
            is_listing(self@.loans, ranking::<Loan>(), views(out@)),
    {
        listing(&self.loans)
    }

    /// The latest events, the latest first: at most `limit` of them, all of
    /// them where `limit` is negative.
    pub fn get_events(&self, limit: i64) -> (out: Vec<Event>)
        ensures
            exists|all: Seq<EventView>| #[trigger]
                is_listing(self@.events, ranking::<Event>(), all) && views(out@) == first_n(
                    all,
                    limit as int,
                ),
    {
        let all = listing(&self.events);
        let ghost whole = views(all@);
        let out = keep_first(all, limit);
        proof {
            assert(self@.events == views(self.events@));
            assert(is_listing(self@.events, ranking::<Event>(), whole));
            assert(views(out@) == first_n(whole, limit as int));
        }
        out
    }

    /// The events that refer to the loan, the latest first.
    pub fn get_events_by_loan(&self, loan_id: &str) -> (out: Vec<Event>)
        ensures
            is_listing(
                self@.events.filter(|e: EventView| refers_to_loan(e, loan_id@)),
                ranking::<Event>(),
                views(out@),
            ),
    {
        let ghost wanted = |e: EventView| refers_to_loan(e, loan_id@);
        let key = String::from_str(loan_id);
        let mut found: Vec<Event> = Vec::new();
        let mut i: usize = 0;
        proof {
            assert(self@.events.take(0) =~= Seq::empty());
            reveal(Seq::filter);
            assert(views(found@) =~= self@.events.take(0).filter(wanted));
        }
        while i < self.events.len()
            invariant
                i <= self.events.len(),
                key@ == loan_id@,
                wanted == |e: EventView| refers_to_loan(e, loan_id@),
                views(found@) == self@.events.take(i as int).filter(wanted),
            decreases self.events.len() - i,
        {
            let hit = match &self.events[i].loan_id {
                Some(id) => *id == key,
                None => false,
            };
            proof {
                let rows = self@.events;
                assert(rows.take(i as int + 1) =~= rows.take(i as int).push(rows[i as int]));
                rows.take(i as int).lemma_filter_push(rows[i as int], wanted);
                assert(rows[i as int].loan_id == self.events[i as int].loan_id.deep_view());
                assert(hit == wanted(rows[i as int]));
            }
            if hit {
                let copy = self.events[i].clone();
                proof {
                    lemma_views_push(found@, copy);
                }
                found.push(copy);
            }
            i += 1;
        }
        proof {
            assert(self@.events.take(i as int) =~= self@.events);
        }
        listing(&found)
    }

    /// The figures of the overview.
    pub fn get_dashboard_stats(&self) -> (stats: DashboardStats)
        requires
            self.wf(),
        ensures
            is_overview(self@, stats@),
    {
        let mut active: usize = 0;
        let mut overdue: usize = 0;
        let mut i: usize = 0;
        while i < self.loans.len()
            invariant
                i <= self.loans.len(),
                active + overdue <= i,
                active == count_status(self@.loans.take(i as int), LoanStatus::Active),
                overdue == count_status(self@.loans.take(i as int), LoanStatus::Overdue),
            decreases self.loans.len() - i,
        {
            proof {
                let rows = self@.loans;
                assert(rows.take(i as int + 1).drop_last() =~= rows.take(i as int));
                assert(rows.take(i as int + 1).last() == self.loans[i as int]@);
            }
            match self.loans[i].status {
                LoanStatus::Active => {
                    active += 1;
                },
                LoanStatus::Overdue => {
                    overdue += 1;
                },
                _ => {},
            }
            i += 1;
        }
        proof {
            assert(self@.loans.take(i as int) =~= self@.loans);
        }
        let mut sum: i64 = 0;
        let mut j: usize = 0;
        while j < self.items.len()
            invariant
                j <= self.items.len(),
                self.wf(),
                0 <= total_available(self@.items.take(j as int)),
                sum == if total_available(self@.items.take(j as int)) <= i64::MAX {
                    total_available(self@.items.take(j as int))
                } else {
                    i64::MAX as int
                },
            decreases self.items.len() - j,
        {
            proof {
                let rows = self@.items;
                assert(rows.take(j as int + 1).drop_last() =~= rows.take(j as int));
                assert(rows.take(j as int + 1).last() == self.items[j as int]@);
                assert(rows[j as int].available_stock >= 0);
            }
            let units = self.items[j].available_stock as i64;
            if sum > i64::MAX - units {
                sum = i64::MAX;
            } else {
                sum = sum + units;
            }
            j += 1;
        }
        proof {
            assert(self@.items.take(j as int) =~= self@.items);
        }
        let recent_loans = keep_first(self.get_loans(), 5);
        let recent_events = self.get_events(10);
        DashboardStats {
            active_loans: active,
            pending_returns: active + overdue,
            overdue_loans: overdue,
            total_items_available: sum,
            total_users: self.users.len(),
            recent_loans,
            recent_events,
        }
    }
}

} // verus!
