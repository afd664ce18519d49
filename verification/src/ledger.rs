//! The ledger as a mathematical value, and what each operation does to it.
//!
//! Every operation is a function from the ledger before, the request, the
//! identifiers drawn for the new records and the time of the call to the
//! ledger after and the answer. A refused operation leaves the ledger as it
//! was.

use crate::audit::{EventDataView, EventView, ItemSource, ReserveReason};
use crate::error::LedgerError;
use crate::models::{
    CatalogueEntryView, CreateItemRequestView, CreateLoanRequestView, CreateUserRequestView,
    ItemView, LoanItemView, LoanStatus, LoanView, UpdateUserRequestView, UserView,
};
use crate::text::text_contains;
use crate::time::{Date, Timestamp};
use vstd::prelude::*;

verus! {

/// Users, items and loans in the order in which they were created, and the
/// audit trail in the order in which it was written.
pub struct Ledger {
    pub users: Seq<UserView>,
    pub items: Seq<ItemView>,
    pub loans: Seq<LoanView>,
    pub events: Seq<EventView>,
}

/// The identifier of each user.
pub open spec fn user_ids(users: Seq<UserView>) -> Seq<Seq<char>> {
    users.map_values(|u: UserView| u.id)
}

/// The national ID of each user.
pub open spec fn user_dnis(users: Seq<UserView>) -> Seq<Seq<char>> {
    users.map_values(|u: UserView| u.dni)
}

/// The identifier of each item.
pub open spec fn item_ids(items: Seq<ItemView>) -> Seq<Seq<char>> {
    items.map_values(|i: ItemView| i.id)
}

/// The identifier of each loan.
pub open spec fn loan_ids(loans: Seq<LoanView>) -> Seq<Seq<char>> {
    loans.map_values(|l: LoanView| l.id)
}

/// The identifier of each event.
pub open spec fn event_ids(events: Seq<EventView>) -> Seq<Seq<char>> {
    events.map_values(|e: EventView| e.id)
}

/// The name of each item.
pub open spec fn item_names(items: Seq<ItemView>) -> Seq<Seq<char>> {
    items.map_values(|i: ItemView| i.name)
}

/// The name of each catalogue entry.
pub open spec fn entry_names(entries: Seq<CatalogueEntryView>) -> Seq<Seq<char>> {
    entries.map_values(|e: CatalogueEntryView| e.name)
}

/// The entries of a catalogue that the inventory lacks: those whose name no
/// item has and no earlier entry of the catalogue has, in the order of the
/// catalogue.
pub open spec fn lacking(items: Seq<ItemView>, catalogue: Seq<CatalogueEntryView>) -> Seq<
    CatalogueEntryView,
>
    decreases catalogue.len(),
{
    if catalogue.len() == 0 {
        Seq::empty()
    } else {
        let earlier = lacking(items, catalogue.drop_last());
        let name = catalogue.last().name;
        if item_names(items).contains(name) || entry_names(earlier).contains(name) {
            earlier
        } else {
            earlier.push(catalogue.last())
        }
    }
}

/// The items made of catalogue entries, with no stock: item `k` carries the
/// identifier `ids[2 * k]`.
pub open spec fn stocked_from(entries: Seq<CatalogueEntryView>, ids: Seq<Seq<char>>, now: Timestamp) -> Seq<
    ItemView,
> {
    Seq::new(
        entries.len(),
        |k: int|
            ItemView {
                id: ids[2 * k],
                name: entries[k].name,
                description: Some(entries[k].description),
                category: entries[k].category,
                icon: entries[k].icon,
                total_stock: 0,
                available_stock: 0,
                notes: None,
                created_at: now,
                updated_at: now,
            },
    )
}

/// One `ITEM_CREATED` event for each item made of a catalogue entry: event
/// `k` carries the identifier `ids[2 * k + 1]`.
pub open spec fn stocked_events(
    entries: Seq<CatalogueEntryView>,
    ids: Seq<Seq<char>>,
    now: Timestamp,
) -> Seq<EventView> {
    Seq::new(
        entries.len(),
        |k: int|
            entry(
                ids[2 * k + 1],
                EventDataView::ItemCreated {
                    item_id: ids[2 * k],
                    name: entries[k].name,
                    source: ItemSource::DefaultList,
                },
                now,
                None,
                None,
            ),
    )
}

/// The item that each line of a loan takes a unit of.
pub open spec fn line_items(lines: Seq<LoanItemView>) -> Seq<Seq<char>> {
    lines.map_values(|l: LoanItemView| l.item_id)
}

/// The identifier of each line of a loan.
pub open spec fn line_ids(lines: Seq<LoanItemView>) -> Seq<Seq<char>> {
    lines.map_values(|l: LoanItemView| l.id)
}

/// The identifiers of the lines of all loans, loan after loan.
pub open spec fn all_line_ids(loans: Seq<LoanView>) -> Seq<Seq<char>>
    decreases loans.len(),
{
    if loans.len() == 0 {
        Seq::empty()
    } else {
        all_line_ids(loans.drop_last()) + line_ids(loans.last().items)
    }
}

/// An index at which `key` stands in `keys`; the only one where the keys are
/// distinct.
pub open spec fn position(keys: Seq<Seq<char>>, key: Seq<char>) -> int {
    choose|i: int| 0 <= i < keys.len() && keys[i] == key
}

/// Where the keys are distinct, a key stands at one index only.
pub proof fn lemma_position(keys: Seq<Seq<char>>, key: Seq<char>, i: int)
    requires
        keys.no_duplicates(),
        0 <= i < keys.len(),
        keys[i] == key,
    ensures
        keys.contains(key),
        position(keys, key) == i,
{
}

/// How often `x` occurs in `s`.
pub open spec fn occurrences(s: Seq<Seq<char>>, x: Seq<char>) -> nat
    decreases s.len(),
{
    if s.len() == 0 {
        0
    } else {
        occurrences(s.drop_last(), x) + if s.last() == x {
            1nat
        } else {
            0nat
        }
    }
}

/// The units of one item that a loan holds: one for each of its lines that
/// names the item, unless the loan has been returned.
pub open spec fn units_held(loan: LoanView, item_id: Seq<char>) -> nat {
    if loan.status.holds_stock() {
        occurrences(line_items(loan.items), item_id)
    } else {
        0
    }
}

/// The units of one item that are out on loan.
pub open spec fn units_out(loans: Seq<LoanView>, item_id: Seq<char>) -> nat
    decreases loans.len(),
{
    if loans.len() == 0 {
        0
    } else {
        units_out(loans.drop_last(), item_id) + units_held(loans.last(), item_id)
    }
}

/// Every item has at least as many units available as `wanted` asks of it.
pub open spec fn enough_for(items: Seq<ItemView>, wanted: Seq<Seq<char>>) -> bool {
    forall|j: int|
        0 <= j < items.len() ==> occurrences(wanted, (#[trigger] items[j]).id)
            <= items[j].available_stock
}

/// The items after one unit was reserved for each entry of `wanted`. An item
/// that was touched carries the time of the change.
pub open spec fn take_units(items: Seq<ItemView>, wanted: Seq<Seq<char>>, now: Timestamp) -> Seq<
    ItemView,
> {
    Seq::new(
        items.len(),
        |j: int|
            if occurrences(wanted, items[j].id) > 0 {
                ItemView {
                    available_stock: items[j].available_stock - occurrences(wanted, items[j].id),
                    updated_at: now,
                    ..items[j]
                }
            } else {
                items[j]
            },
    )
}

/// The items after one unit was released for each entry of `given`.
pub open spec fn give_units(items: Seq<ItemView>, given: Seq<Seq<char>>, now: Timestamp) -> Seq<
    ItemView,
> {
    Seq::new(
        items.len(),
        |j: int|
            if occurrences(given, items[j].id) > 0 {
                ItemView {
                    available_stock: items[j].available_stock + occurrences(given, items[j].id),
                    updated_at: now,
                    ..items[j]
                }
            } else {
                items[j]
            },
    )
}

/// Why one requested item cannot be lent, if it cannot: it is unknown, or
/// no unit of it is available.
pub open spec fn refusal(items: Seq<ItemView>, id: Seq<char>) -> Option<LedgerError> {
    if !item_ids(items).contains(id) {
        Some(LedgerError::NotFound)
    } else if items[position(item_ids(items), id)].available_stock < 1 {
        Some(LedgerError::InsufficientStock)
    } else {
        None
    }
}

/// The refusal of the first requested item that cannot be lent.
pub open spec fn first_refusal(items: Seq<ItemView>, wanted: Seq<Seq<char>>) -> Option<
    LedgerError,
>
    decreases wanted.len(),
{
    if wanted.len() == 0 {
        None
    } else {
        match refusal(items, wanted[0]) {
            Some(e) => Some(e),
            None => first_refusal(items, wanted.drop_first()),
        }
    }
}

/// An audit entry.
pub open spec fn entry(
    id: Seq<char>,
    data: EventDataView,
    at: Timestamp,
    loan_id: Option<Seq<char>>,
    user_id: Option<Seq<char>>,
) -> EventView {
    EventView { id, data, created_at: at, loan_id, user_id }
}

/// One `STOCK_RESERVED` event for each reserved unit, in the order of
/// `wanted`; event `k` carries the identifier `ids[k]`.
pub open spec fn reserved_events(
    ids: Seq<Seq<char>>,
    wanted: Seq<Seq<char>>,
    loan_id: Seq<char>,
    user_id: Option<Seq<char>>,
    cause: ReserveReason,
    now: Timestamp,
) -> Seq<EventView> {
    Seq::new(
        wanted.len(),
        |k: int|
            entry(
                ids[k],
                EventDataView::StockReserved { item_id: wanted[k], quantity: 1, loan_id, cause },
                now,
                Some(loan_id),
                user_id,
            ),
    )
}

/// One `STOCK_RELEASED` event for each released unit, in the order of
/// `given`; event `k` carries the identifier `ids[k]`.
pub open spec fn released_events(
    ids: Seq<Seq<char>>,
    given: Seq<Seq<char>>,
    loan_id: Seq<char>,
    now: Timestamp,
) -> Seq<EventView> {
    Seq::new(
        given.len(),
        |k: int|
            entry(
                ids[k],
                EventDataView::StockReleased { item_id: given[k], quantity: 1, loan_id },
                now,
                Some(loan_id),
                None,
            ),
    )
}

/// A loan is overdue on `today`: it is active and was expected back on an
/// earlier day.
pub open spec fn falls_due(loan: LoanView, today: Date) -> bool {
    loan.status == LoanStatus::Active && loan.expected_end_date.earlier_than(today)
}

/// How many loans are overdue on `today` and not yet marked so.
pub open spec fn due_count(loans: Seq<LoanView>, today: Date) -> nat
    decreases loans.len(),
{
    if loans.len() == 0 {
        0
    } else {
        due_count(loans.drop_last(), today) + if falls_due(loans.last(), today) {
            1nat
        } else {
            0nat
        }
    }
}

/// The users but the one with the given identifier.
pub open spec fn without_user(users: Seq<UserView>, id: Seq<char>) -> Seq<UserView> {
    if user_ids(users).contains(id) {
        users.remove(position(user_ids(users), id))
    } else {
        users
    }
}

/// A user after an edit: each supplied field replaces the stored one.
pub open spec fn edited(user: UserView, changes: UpdateUserRequestView, now: Timestamp) -> UserView {
    UserView {
        id: user.id,
        name: match changes.name {
            Some(v) => v,
            None => user.name,
        },
        dni: match changes.dni {
            Some(v) => v,
            None => user.dni,
        },
        address: match changes.address {
            Some(v) => v,
            None => user.address,
        },
        phone: match changes.phone {
            Some(v) => Some(v),
            None => user.phone,
        },
        email: match changes.email {
            Some(v) => Some(v),
            None => user.email,
        },
        notes: match changes.notes {
            Some(v) => Some(v),
            None => user.notes,
        },
        created_at: user.created_at,
        updated_at: now,
    }
}

impl Ledger {
    /// The ledger that holds nothing.
    pub open spec fn empty() -> Ledger {
        Ledger { users: Seq::empty(), items: Seq::empty(), loans: Seq::empty(), events: Seq::empty() }
    }

    /// Some user carries the identifier.
    pub open spec fn has_user(self, id: Seq<char>) -> bool {
        user_ids(self.users).contains(id)
    }

    /// The user with the identifier.
    pub open spec fn user(self, id: Seq<char>) -> UserView {
        self.users[position(user_ids(self.users), id)]
    }

    /// Some item carries the identifier.
    pub open spec fn has_item(self, id: Seq<char>) -> bool {
        item_ids(self.items).contains(id)
    }

    /// The item with the identifier.
    pub open spec fn item(self, id: Seq<char>) -> ItemView {
        self.items[position(item_ids(self.items), id)]
    }

    /// Some loan carries the identifier.
    pub open spec fn has_loan(self, id: Seq<char>) -> bool {
        loan_ids(self.loans).contains(id)
    }

    /// The loan with the identifier.
    pub open spec fn loan(self, id: Seq<char>) -> LoanView {
        self.loans[position(loan_ids(self.loans), id)]
    }

    /// Some line of some loan carries the identifier.
    pub open spec fn has_line(self, id: Seq<char>) -> bool {
        exists|i: int, a: int|
            0 <= i < self.loans.len() && 0 <= a < self.loans[i].items.len()
                && #[trigger] self.loans[i].items[a].id == id
    }

    /// Some record of the ledger carries the identifier.
    pub open spec fn in_use(self, id: Seq<char>) -> bool {
        self.has_user(id) || self.has_item(id) || self.has_loan(id) || self.has_line(id)
            || event_ids(self.events).contains(id)
    }

    /// The identifiers differ from one another and from every identifier in
    /// the ledger.
    pub open spec fn fresh(self, ids: Seq<Seq<char>>) -> bool {
        ids.no_duplicates() && forall|k: int| 0 <= k < ids.len() ==> !self.in_use(#[trigger] ids[k])
    }

    /// The ledger is consistent.
    ///
    /// - No two users, items, loans, loan lines or events share an identifier,
    ///   and no two users share a national ID.
    /// - Every item has between zero and its total stock available, and what
    ///   is missing from the total is exactly what is out on loan.
    /// - Every loan line names its loan and an item of the ledger, and
    ///   stands for one unit.
    pub open spec fn wf(self) -> bool {
        &&& user_ids(self.users).no_duplicates()
        &&& user_dnis(self.users).no_duplicates()
        &&& item_ids(self.items).no_duplicates()
        &&& loan_ids(self.loans).no_duplicates()
        &&& all_line_ids(self.loans).no_duplicates()
        &&& event_ids(self.events).no_duplicates()
        &&& forall|j: int|
            0 <= j < self.items.len() ==> {
                &&& 0 <= (#[trigger] self.items[j]).available_stock
                &&& self.items[j].total_stock - self.items[j].available_stock == units_out(
                    self.loans,
                    self.items[j].id,
                )
            }
        &&& forall|i: int, a: int|
            0 <= i < self.loans.len() && 0 <= a < self.loans[i].items.len() ==> {
                &&& self.has_item((#[trigger] self.loans[i].items[a]).item_id)
                &&& self.loans[i].items[a].loan_id == self.loans[i].id
                &&& self.loans[i].items[a].quantity == 1
            }
    }

    /// Adds an item with all of its stock available. `ids` holds the item's
    /// identifier and that of the event.
    pub open spec fn create_item(
        self,
        req: CreateItemRequestView,
        ids: Seq<Seq<char>>,
        now: Timestamp,
    ) -> (Ledger, Result<ItemView, LedgerError>) {
        if req.total_stock < 0 {
            (self, Err(LedgerError::InvalidState))
        } else if !self.fresh(ids) {
            (self, Err(LedgerError::Conflict))
        } else {
            let item = ItemView {
                id: ids[0],
                name: req.name,
                description: req.description,
                category: req.category,
                icon: req.icon,
                total_stock: req.total_stock,
                available_stock: req.total_stock,
                notes: req.notes,
                created_at: now,
                updated_at: now,
            };
            let event = entry(
                ids[1],
                EventDataView::ItemCreated {
                    item_id: ids[0],
                    name: req.name,
                    source: ItemSource::Custom,
                },
                now,
                None,
                None,
            );
            (
                Ledger { items: self.items.push(item), events: self.events.push(event), ..self },
                Ok(item),
            )
        }
    }

    /// Takes into the inventory, with no stock, every entry of a catalogue
    /// that it lacks. `ids` holds, for each such entry in turn, the
    /// identifier of the item and that of its event.
    pub open spec fn add_from_catalogue(
        self,
        catalogue: Seq<CatalogueEntryView>,
        ids: Seq<Seq<char>>,
        now: Timestamp,
    ) -> (Ledger, Result<Seq<ItemView>, LedgerError>) {
        let entries = lacking(self.items, catalogue);
        if !self.fresh(ids) {
            (self, Err(LedgerError::Conflict))
        } else {
            let added = stocked_from(entries, ids, now);
            (
                Ledger {
                    items: self.items + added,
                    events: self.events + stocked_events(entries, ids, now),
                    ..self
                },
                Ok(added),
            )
        }
    }

    /// Sets an item's total stock and moves its available stock by the same
    /// amount. `ids` holds the identifier of the event.
    pub open spec fn set_total_stock(
        self,
        item_id: Seq<char>,
        new_total: int,
        ids: Seq<Seq<char>>,
        now: Timestamp,
    ) -> (Ledger, Result<ItemView, LedgerError>) {
        let j = position(item_ids(self.items), item_id);
        let old = self.items[j];
        let new_available = old.available_stock + (new_total - old.total_stock);
        if !self.has_item(item_id) {
            (self, Err(LedgerError::NotFound))
        } else if new_available < 0 {
            (self, Err(LedgerError::InvalidState))
        } else if !self.fresh(ids) {
            (self, Err(LedgerError::Conflict))
        } else {
            let item = ItemView {
                total_stock: new_total,
                available_stock: new_available,
                updated_at: now,
                ..old
            };
            let event = entry(
                ids[0],
                EventDataView::StockUpdated {
                    item_id,
                    previous_total: old.total_stock,
                    new_total,
                    previous_available: old.available_stock,
                    new_available,
                },
                now,
                None,
                None,
            );
            (
                Ledger { items: self.items.update(j, item), events: self.events.push(event), ..self },
                Ok(item),
            )
        }
    }

    /// Adds a user. `ids` holds the user's identifier and that of the event.
    pub open spec fn create_user(
        self,
        req: CreateUserRequestView,
        ids: Seq<Seq<char>>,
        now: Timestamp,
    ) -> (Ledger, Result<UserView, LedgerError>) {
        if user_dnis(self.users).contains(req.dni) {
            (self, Err(LedgerError::Conflict))
        } else if !self.fresh(ids) {
            (self, Err(LedgerError::Conflict))
        } else {
            let user = UserView {
                id: ids[0],
                name: req.name,
                dni: req.dni,
                address: req.address,
                phone: req.phone,
                email: req.email,
                notes: req.notes,
                created_at: now,
                updated_at: now,
            };
            let event = entry(
                ids[1],
                EventDataView::UserCreated { user_id: ids[0], name: req.name },
                now,
                None,
                Some(ids[0]),
            );
            (
                Ledger { users: self.users.push(user), events: self.events.push(event), ..self },
                Ok(user),
            )
        }
    }

    /// Another user than the one at `u` has the national ID.
    pub open spec fn dni_held_by_other(self, u: int, dni: Seq<char>) -> bool {
        exists|v: int| 0 <= v < self.users.len() && v != u && (#[trigger] self.users[v]).dni == dni
    }

    /// Replaces the supplied fields of a user. With no field supplied the
    /// ledger stays as it is and no event is written. `ids` holds the
    /// identifier of the event.
    pub open spec fn update_user(
        self,
        id: Seq<char>,
        changes: UpdateUserRequestView,
        ids: Seq<Seq<char>>,
        now: Timestamp,
    ) -> (Ledger, Result<UserView, LedgerError>) {
        let u = position(user_ids(self.users), id);
        if !self.has_user(id) {
            (self, Err(LedgerError::NotFound))
        } else if changes.is_empty() {
            (self, Ok(self.users[u]))
        } else if changes.dni is Some && self.dni_held_by_other(u, changes.dni->0) {
            (self, Err(LedgerError::Conflict))
        } else if !self.fresh(ids) {
            (self, Err(LedgerError::Conflict))
        } else {
            let user = edited(self.users[u], changes, now);
            let event = entry(
                ids[0],
                EventDataView::UserUpdated { user_id: id, changes },
                now,
                None,
                Some(id),
            );
            (
                Ledger { users: self.users.update(u, user), events: self.events.push(event), ..self },
                Ok(user),
            )
        }
    }

    /// Removes a user, whether or not loans still name them, and records the
    /// removal even where no such user was there. `ids` holds the identifier
    /// of the event.
    pub open spec fn delete_user(self, id: Seq<char>, ids: Seq<Seq<char>>, now: Timestamp) -> (
        Ledger,
        Result<(), LedgerError>,
    ) {
        if !self.fresh(ids) {
            (self, Err(LedgerError::Conflict))
        } else {
            let event = entry(
                ids[0],
                EventDataView::UserDeleted { user_id: id },
                now,
                None,
                Some(id),
            );
            (
                Ledger {
                    users: without_user(self.users, id),
                    events: self.events.push(event),
                    ..self
                },
                Ok(()),
            )
        }
    }

    /// The lines of a new loan: line `k` takes one unit of the `k`-th
    /// requested item and carries the identifier `ids[1 + k]`.
    pub open spec fn new_lines(self, wanted: Seq<Seq<char>>, ids: Seq<Seq<char>>) -> Seq<
        LoanItemView,
    > {
        Seq::new(
            wanted.len(),
            |k: int|
                LoanItemView {
                    id: ids[1 + k],
                    loan_id: ids[0],
                    item_id: wanted[k],
                    item_name: self.item(wanted[k]).name,
                    quantity: 1,
                },
        )
    }

    /// Lends one unit of each requested item to a user. With `n` items
    /// requested, `ids` holds the loan's identifier, those of the `n` lines,
    /// that of the creation event and those of the `n` reservation events.
    pub open spec fn create_loan(
        self,
        req: CreateLoanRequestView,
        ids: Seq<Seq<char>>,
        now: Timestamp,
    ) -> (Ledger, Result<LoanView, LedgerError>) {
        let n = req.item_ids.len() as int;
        if !self.has_user(req.user_id) {
            (self, Err(LedgerError::NotFound))
        } else if first_refusal(self.items, req.item_ids) is Some {
            (self, Err(first_refusal(self.items, req.item_ids)->0))
        } else if !enough_for(self.items, req.item_ids) {
            (self, Err(LedgerError::InsufficientStock))
        } else if !self.fresh(ids) {
            (self, Err(LedgerError::Conflict))
        } else {
            let loan = LoanView {
                id: ids[0],
                user_id: req.user_id,
                user_name: self.user(req.user_id).name,
                start_date: req.start_date,
                expected_end_date: req.expected_end_date,
                actual_end_date: None,
                status: LoanStatus::Active,
                notes: req.notes,
                created_at: now,
                updated_at: now,
                items: self.new_lines(req.item_ids, ids),
            };
            let created = entry(
                ids[n + 1],
                EventDataView::LoanCreated {
                    loan_id: ids[0],
                    user_id: req.user_id,
                    items: req.item_ids,
                    start_date: req.start_date,
                    expected_end_date: req.expected_end_date,
                },
                now,
                Some(ids[0]),
                Some(req.user_id),
            );
            let reserved = reserved_events(
                ids.subrange(n + 2, 2 * n + 2),
                req.item_ids,
                ids[0],
                Some(req.user_id),
                ReserveReason::LoanCreated,
                now,
            );
            (
                Ledger {
                    users: self.users,
                    items: take_units(self.items, req.item_ids, now),
                    loans: self.loans.push(loan),
                    events: self.events.push(created) + reserved,
                },
                Ok(loan),
            )
        }
    }

    /// Takes a loan back: every line's unit is released. With `n` lines on
    /// the loan, `ids` holds the identifiers of the `n` release events and
    /// that of the return event.
    pub open spec fn return_loan(
        self,
        loan_id: Seq<char>,
        condition: Option<Seq<char>>,
        notes: Option<Seq<char>>,
        ids: Seq<Seq<char>>,
        now: Timestamp,
    ) -> (Ledger, Result<LoanView, LedgerError>) {
        let l = position(loan_ids(self.loans), loan_id);
        let old = self.loans[l];
        let n = old.items.len() as int;
        if !self.has_loan(loan_id) {
            (self, Err(LedgerError::NotFound))
        } else if old.status != LoanStatus::Active && old.status != LoanStatus::Overdue {
            (self, Err(LedgerError::InvalidTransition))
        } else if !self.fresh(ids) {
            (self, Err(LedgerError::Conflict))
        } else {
            let loan = LoanView {
                status: LoanStatus::Returned,
                actual_end_date: Some(now.date),
                notes: match notes {
                    Some(v) => Some(v),
                    None => old.notes,
                },
                updated_at: now,
                ..old
            };
            let released = released_events(
                ids.subrange(0, n),
                line_items(old.items),
                loan_id,
                now,
            );
            let returned = entry(
                ids[n],
                EventDataView::LoanReturned { loan_id, condition, notes },
                now,
                Some(loan_id),
                None,
            );
            (
                Ledger {
                    users: self.users,
                    items: give_units(self.items, line_items(old.items), now),
                    loans: self.loans.update(l, loan),
                    events: (self.events + released).push(returned),
                },
                Ok(loan),
            )
        }
    }

    /// Reopens a returned loan: every line's unit is reserved again. With
    /// `n` lines on the loan, `ids` holds the identifiers of the `n`
    /// reservation events and that of the cancellation event.
    pub open spec fn cancel_return(
        self,
        loan_id: Seq<char>,
        reason: Option<Seq<char>>,
        ids: Seq<Seq<char>>,
        now: Timestamp,
    ) -> (Ledger, Result<LoanView, LedgerError>) {
        let l = position(loan_ids(self.loans), loan_id);
        let old = self.loans[l];
        let n = old.items.len() as int;
        if !self.has_loan(loan_id) {
            (self, Err(LedgerError::NotFound))
        } else if old.status != LoanStatus::Returned {
            (self, Err(LedgerError::InvalidTransition))
        } else if !enough_for(self.items, line_items(old.items)) {
            (self, Err(LedgerError::InsufficientStock))
        } else if !self.fresh(ids) {
            (self, Err(LedgerError::Conflict))
        } else {
            let loan = LoanView {
                status: LoanStatus::Active,
                actual_end_date: None,
                updated_at: now,
                ..old
            };
            let reserved = reserved_events(
                ids.subrange(0, n),
                line_items(old.items),
                loan_id,
                None,
                ReserveReason::ReturnCancelled,
                now,
            );
            let cancelled = entry(
                ids[n],
                EventDataView::ReturnCancelled { loan_id, reason, cancelled_at: now },
                now,
                Some(loan_id),
                None,
            );
            (
                Ledger {
                    users: self.users,
                    items: take_units(self.items, line_items(old.items), now),
                    loans: self.loans.update(l, loan),
                    events: (self.events + reserved).push(cancelled),
                },
                Ok(loan),
            )
        }
    }

    /// Marks every loan that is overdue on `today`. No event is written for
    /// this change.
    pub open spec fn sweep_overdue(self, today: Date) -> (Ledger, nat) {
        (
            Ledger {
                loans: self.loans.map_values(
                    |l: LoanView|
                        if falls_due(l, today) {
                            LoanView { status: LoanStatus::Overdue, ..l }
                        } else {
                            l
                        },
                ),
                ..self
            },
            due_count(self.loans, today),
        )
    }
}

/// A user matches a search: the name, the national ID or the address
/// contains the query.
pub open spec fn user_matches(user: UserView, query: Seq<char>) -> bool {
    text_contains(user.name, query) || text_contains(user.dni, query) || text_contains(
        user.address,
        query,
    )
}

/// An item matches a search: the name or the description contains the
/// query.
pub open spec fn item_matches(item: ItemView, query: Seq<char>) -> bool {
    text_contains(item.name, query) || (item.description matches Some(d) && text_contains(d, query))
}

/// An event is about a loan: it refers to the loan.
pub open spec fn refers_to_loan(event: EventView, loan_id: Seq<char>) -> bool {
    event.loan_id == Some(loan_id)
}

/// How many loans have the status.
pub open spec fn count_status(loans: Seq<LoanView>, status: LoanStatus) -> nat
    decreases loans.len(),
{
    if loans.len() == 0 {
        0
    } else {
        count_status(loans.drop_last(), status) + if loans.last().status == status {
            1nat
        } else {
            0nat
        }
    }
}

/// The units available of all items together.
pub open spec fn total_available(items: Seq<ItemView>) -> int
    decreases items.len(),
{
    if items.len() == 0 {
        0
    } else {
        total_available(items.drop_last()) + items.last().available_stock
    }
}

/// The first `limit` entries of a listing; all of them where `limit` is
/// negative or beyond the end.
pub open spec fn first_n<V>(all: Seq<V>, limit: int) -> Seq<V> {
    if 0 <= limit < all.len() {
        all.take(limit)
    } else {
        all
    }
}

/// A change that the ledger can be asked to make.
pub enum Operation {
    CreateItem { item: CreateItemRequestView },
    AddFromCatalogue { catalogue: Seq<CatalogueEntryView> },
    SetTotalStock { item_id: Seq<char>, new_total: int },
    CreateUser { user: CreateUserRequestView },
    UpdateUser { id: Seq<char>, changes: UpdateUserRequestView },
    DeleteUser { id: Seq<char> },
    CreateLoan { loan: CreateLoanRequestView },
    ReturnLoan { loan_id: Seq<char>, condition: Option<Seq<char>>, notes: Option<Seq<char>> },
    CancelReturn { loan_id: Seq<char>, cause: Option<Seq<char>> },
    SweepOverdue,
}

/// One request to the ledger: the change, the identifiers drawn for it and
/// the time at which it is made.
pub struct Call {
    pub op: Operation,
    pub ids: Seq<Seq<char>>,
    pub now: Timestamp,
}

impl Ledger {
    /// How many identifiers a change needs: one for each record and each
    /// event that it may write.
    pub open spec fn ids_needed(self, op: Operation) -> nat {
        match op {
            Operation::CreateItem { .. } => 2,
            Operation::AddFromCatalogue { catalogue } => 2 * lacking(self.items, catalogue).len(),
            Operation::SetTotalStock { .. } => 1,
            Operation::CreateUser { .. } => 2,
            Operation::UpdateUser { .. } => 1,
            Operation::DeleteUser { .. } => 1,
            Operation::CreateLoan { loan } => 2 * loan.item_ids.len() + 2,
            Operation::ReturnLoan { loan_id, .. } => if self.has_loan(loan_id) {
                self.loan(loan_id).items.len() + 1
            } else {
                0
            },
            Operation::CancelReturn { loan_id, .. } => if self.has_loan(loan_id) {
                self.loan(loan_id).items.len() + 1
            } else {
                0
            },
            Operation::SweepOverdue => 0,
        }
    }

    /// The ledger after a request. A request that brings the wrong number of
    /// identifiers is not carried out.
    pub open spec fn apply(self, call: Call) -> Ledger {
        if call.ids.len() != self.ids_needed(call.op) {
            self
        } else {
            match call.op {
                Operation::CreateItem { item } => self.create_item(item, call.ids, call.now).0,
                Operation::AddFromCatalogue { catalogue } => self.add_from_catalogue(
                    catalogue,
                    call.ids,
                    call.now,
                ).0,
                Operation::SetTotalStock { item_id, new_total } => self.set_total_stock(
                    item_id,
                    new_total,
                    call.ids,
                    call.now,
                ).0,
                Operation::CreateUser { user } => self.create_user(user, call.ids, call.now).0,
                Operation::UpdateUser { id, changes } => self.update_user(
                    id,
                    changes,
                    call.ids,
                    call.now,
                ).0,
                Operation::DeleteUser { id } => self.delete_user(id, call.ids, call.now).0,
                Operation::CreateLoan { loan } => self.create_loan(loan, call.ids, call.now).0,
                Operation::ReturnLoan { loan_id, condition, notes } => self.return_loan(
                    loan_id,
                    condition,
                    notes,
                    call.ids,
                    call.now,
                ).0,
                Operation::CancelReturn { loan_id, cause } => self.cancel_return(
                    loan_id,
                    cause,
                    call.ids,
                    call.now,
                ).0,
                Operation::SweepOverdue => self.sweep_overdue(call.now.date).0,
            }
        }
    }

    /// The request is carried out: it brings the right number of identifiers
    /// and the change is not refused.
    pub open spec fn accepts(self, call: Call) -> bool {
        call.ids.len() == self.ids_needed(call.op) && match call.op {
            Operation::CreateItem { item } => self.create_item(item, call.ids, call.now).1 is Ok,
            Operation::AddFromCatalogue { catalogue } => self.add_from_catalogue(
                catalogue,
                call.ids,
                call.now,
            ).1 is Ok,
            Operation::SetTotalStock { item_id, new_total } => self.set_total_stock(
                item_id,
                new_total,
                call.ids,
                call.now,
            ).1 is Ok,
            Operation::CreateUser { user } => self.create_user(user, call.ids, call.now).1 is Ok,
            Operation::UpdateUser { id, changes } => self.update_user(
                id,
                changes,
                call.ids,
                call.now,
            ).1 is Ok,
            Operation::DeleteUser { id } => self.delete_user(id, call.ids, call.now).1 is Ok,
            Operation::CreateLoan { loan } => self.create_loan(loan, call.ids, call.now).1 is Ok,
            Operation::ReturnLoan { loan_id, condition, notes } => self.return_loan(
                loan_id,
                condition,
                notes,
                call.ids,
                call.now,
            ).1 is Ok,
            Operation::CancelReturn { loan_id, cause } => self.cancel_return(
                loan_id,
                cause,
                call.ids,
                call.now,
            ).1 is Ok,
            Operation::SweepOverdue => true,
        }
    }

    /// The ledger after a sequence of requests, carried out in order.
    pub open spec fn run(self, calls: Seq<Call>) -> Ledger
        decreases calls.len(),
    {
        if calls.len() == 0 {
            self
        } else {
            self.run(calls.drop_last()).apply(calls.last())
        }
    }
}

} // verus!
