//! The ledger held in memory.

use crate::audit::Event;
use crate::ledger::{
    event_ids, item_ids, lemma_position, loan_ids, occurrences, position, user_dnis, user_ids,
    Ledger,
};
use crate::models::{views, Item, Loan, User};
use vstd::prelude::*;

verus! {

/// The ledger of users, items, loans and events. Records are kept in the
/// order in which they were created.
pub struct Database {
    pub(crate) users: Vec<User>,
    pub(crate) items: Vec<Item>,
    pub(crate) loans: Vec<Loan>,
    pub(crate) events: Vec<Event>,
}

impl View for Database {
    type V = Ledger;

    open(crate) spec fn view(&self) -> Ledger {
        Ledger {
            users: views(self.users@),
            items: views(self.items@),
            loans: views(self.loans@),
            events: views(self.events@),
        }
    }
}

impl Database {
    /// The ledger is consistent: see [`Ledger::wf`].
    pub open spec fn wf(&self) -> bool {
        self@.wf()
    }

    /// An empty ledger.
    pub fn new() -> (db: Database)
        ensures
            db@ == Ledger::empty(),
            db.wf(),
    {
        let db = Database {
            users: Vec::new(),
            items: Vec::new(),
            loans: Vec::new(),
            events: Vec::new(),
        };
        proof {
            assert(db@.users =~= Seq::empty());
            assert(db@.items =~= Seq::empty());
            assert(db@.loans =~= Seq::empty());
            assert(db@.events =~= Seq::empty());
        }
        db
    }
}

/// The number of times `id` stands in `ids`.
pub fn count_in(ids: &Vec<String>, id: &String) -> (n: usize)
    ensures
        n == occurrences(ids.deep_view(), id@),
{
    let mut n: usize = 0;
    let mut k: usize = 0;
    while k < ids.len()
        invariant
            k <= ids.len(),
            n <= k,
            n == occurrences(ids.deep_view().take(k as int), id@),
        decreases ids.len() - k,
    {
        proof {
            let whole = ids.deep_view();
            assert(whole.take(k as int + 1).drop_last() =~= whole.take(k as int));
            assert(whole.take(k as int + 1).last() == ids[k as int]@);
        }
        if ids[k] == *id {
            n += 1;
        }
        k += 1;
    }
    proof {
        assert(ids.deep_view().take(k as int) =~= ids.deep_view());
    }
    n
}

impl Database {
    /// The index of the user with the identifier.
    pub(crate) fn find_user(&self, id: &String) -> (r: Option<usize>)
        ensures
            r is Some == self@.has_user(id@),
            r matches Some(i) ==> i < self.users.len() && self.users[i as int].id@ == id@,
            r matches Some(i) ==> self@.wf() ==> i == position(user_ids(self@.users), id@),
    {
        let mut i: usize = 0;
        while i < self.users.len()
            invariant
                i <= self.users.len(),
                forall|j: int| 0 <= j < i ==> self.users[j].id@ != id@,
            decreases self.users.len() - i,
        {
            if self.users[i].id == *id {
                proof {
                    assert(user_ids(self@.users)[i as int] == id@);
                    if self@.wf() {
                        lemma_position(user_ids(self@.users), id@, i as int);
                    }
                }
                return Some(i);
            }
            i += 1;
        }
        None
    }

    /// The index of the user with the national ID.
    pub(crate) fn find_dni(&self, dni: &String) -> (r: Option<usize>)
        ensures
            r is Some == user_dnis(self@.users).contains(dni@),
            r matches Some(i) ==> i < self.users.len() && self.users[i as int].dni@ == dni@,
    {
        let mut i: usize = 0;
        while i < self.users.len()
            invariant
                i <= self.users.len(),
                forall|j: int| 0 <= j < i ==> self.users[j].dni@ != dni@,
            decreases self.users.len() - i,
        {
            if self.users[i].dni == *dni {
                proof {
                    assert(user_dnis(self@.users)[i as int] == dni@);
                }
                return Some(i);
            }
            i += 1;
        }
        None
    }

    /// The index of the item with the identifier.
    pub(crate) fn find_item(&self, id: &String) -> (r: Option<usize>)
        ensures
            r is Some == self@.has_item(id@),
            r matches Some(i) ==> i < self.items.len() && self.items[i as int].id@ == id@,
            r matches Some(i) ==> self@.wf() ==> i == position(item_ids(self@.items), id@),
    {
        let mut i: usize = 0;
        while i < self.items.len()
            invariant
                i <= self.items.len(),
                forall|j: int| 0 <= j < i ==> self.items[j].id@ != id@,
            decreases self.items.len() - i,
        {
            if self.items[i].id == *id {
                proof {
                    assert(item_ids(self@.items)[i as int] == id@);
                    if self@.wf() {
                        lemma_position(item_ids(self@.items), id@, i as int);
                    }
                }
                return Some(i);
            }
            i += 1;
        }
        None
    }

    /// The index of the loan with the identifier.
    pub(crate) fn find_loan(&self, id: &String) -> (r: Option<usize>)
        ensures
            r is Some == self@.has_loan(id@),
            r matches Some(i) ==> i < self.loans.len() && self.loans[i as int].id@ == id@,
            r matches Some(i) ==> self@.wf() ==> i == position(loan_ids(self@.loans), id@),
    {
        let mut i: usize = 0;
        while i < self.loans.len()
            invariant
                i <= self.loans.len(),
                forall|j: int| 0 <= j < i ==> self.loans[j].id@ != id@,
            decreases self.loans.len() - i,
        {
            if self.loans[i].id == *id {
                proof {
                    assert(loan_ids(self@.loans)[i as int] == id@);
                    if self@.wf() {
                        lemma_position(loan_ids(self@.loans), id@, i as int);
                    }
                }
                return Some(i);
            }
            i += 1;
        }
        None
    }

    /// Some event carries the identifier.
    pub(crate) fn has_event(&self, id: &String) -> (b: bool)
        ensures
            b == event_ids(self@.events).contains(id@),
    {
        let mut i: usize = 0;
        while i < self.events.len()
            invariant
                i <= self.events.len(),
                forall|j: int| 0 <= j < i ==> self.events[j].id@ != id@,
            decreases self.events.len() - i,
        {
            if self.events[i].id == *id {
                proof {
                    assert(event_ids(self@.events)[i as int] == id@);
                }
                return true;
            }
            i += 1;
        }
        false
    }

    /// Some line of some loan carries the identifier.
    pub(crate) fn has_line(&self, id: &String) -> (b: bool)
        ensures
            b == self@.has_line(id@),
    {
        let mut i: usize = 0;
        while i < self.loans.len()
            invariant
                i <= self.loans.len(),
                forall|j: int, a: int|
                    0 <= j < i && 0 <= a < self.loans[j].items.len() ==> self.loans[j].items[a].id@
                        != id@,
            decreases self.loans.len() - i,
        {
            let mut a: usize = 0;
            while a < self.loans[i].items.len()
                invariant
                    i < self.loans.len(),
                    a <= self.loans[i as int].items.len(),
                    forall|b: int| 0 <= b < a ==> self.loans[i as int].items[b].id@ != id@,
                decreases self.loans[i as int].items.len() - a,
            {
                if self.loans[i].items[a].id == *id {
                    proof {
                        assert(self@.loans[i as int].items[a as int].id == id@);
                    }
                    return true;
                }
                a += 1;
            }
            i += 1;
        }
        proof {
            assert forall|j: int, a: int|
                0 <= j < self@.loans.len() && 0 <= a < self@.loans[j].items.len() implies (
            #[trigger] self@.loans[j].items[a]).id != id@ by {
                assert(self.loans[j].items[a].id@ != id@);
            }
        }
        false
    }

    /// Some record of the ledger carries the identifier.
    pub fn in_use(&self, id: &String) -> (b: bool)
        ensures
            b == self@.in_use(id@),
    {
        self.find_user(id).is_some() || self.find_item(id).is_some() || self.find_loan(
            id,
        ).is_some() || self.has_line(id) || self.has_event(id)
    }

    /// The identifiers differ from one another and from every identifier in
    /// the ledger.
    pub fn all_fresh(&self, ids: &Vec<String>) -> (b: bool)
        ensures
            b == self@.fresh(ids.deep_view()),
    {
        let ghost keys = ids.deep_view();
        let mut k: usize = 0;
        while k < ids.len()
            invariant
                k <= ids.len(),
                keys == ids.deep_view(),
                forall|a: int| 0 <= a < k ==> !self@.in_use(#[trigger] keys[a]),
                forall|a: int, b: int| 0 <= a < b < k ==> keys[a] != keys[b],
            decreases ids.len() - k,
        {
            if self.in_use(&ids[k]) {
                proof {
                    assert(keys[k as int] == ids[k as int]@);
                }
                return false;
            }
            let mut a: usize = 0;
            while a < k
                invariant
                    a <= k,
                    k < ids.len(),
                    keys == ids.deep_view(),
                    forall|b: int| 0 <= b < a ==> keys[b] != keys[k as int],
                decreases k - a,
            {
                if ids[a] == ids[k] {
                    proof {
                        assert(keys[a as int] == keys[k as int]);
                    }
                    return false;
                }
                a += 1;
            }
            k += 1;
        }
        true
    }
}

} // verus!
