//! The audit trail: one immutable event for every recorded change.

use crate::models::{UpdateUserRequest, UpdateUserRequestView};
use crate::time::{Date, Timestamp};
use vstd::prelude::*;

verus! {

/// The closed vocabulary of event types.
#[derive(Debug, Clone, Copy, PartialEq, Eq, Structural)]
pub enum EventKind {
    UserCreated,
    UserUpdated,
    UserDeleted,
    ItemCreated,
    StockUpdated,
    LoanCreated,
    StockReserved,
    StockReleased,
    LoanReturned,
    ReturnCancelled,
}

impl EventKind {
    /// The tag under which each type is recorded.
    pub open spec fn tag(self) -> Seq<char> {
        match self {
            EventKind::UserCreated => "USER_CREATED"@,
            EventKind::UserUpdated => "USER_UPDATED"@,
            EventKind::UserDeleted => "USER_DELETED"@,
            EventKind::ItemCreated => "ITEM_CREATED"@,
            EventKind::StockUpdated => "STOCK_UPDATED"@,
            EventKind::LoanCreated => "LOAN_CREATED"@,
            EventKind::StockReserved => "STOCK_RESERVED"@,
            EventKind::StockReleased => "STOCK_RELEASED"@,
            EventKind::LoanReturned => "LOAN_RETURNED"@,
            EventKind::ReturnCancelled => "RETURN_CANCELLED"@,
        }
    }

    /// The tag of the event type.
    pub fn as_str(&self) -> (s: &'static str)
        ensures
            s@ == self.tag(),
    {
        match self {
            EventKind::UserCreated => "USER_CREATED",
            EventKind::UserUpdated => "USER_UPDATED",
            EventKind::UserDeleted => "USER_DELETED",
            EventKind::ItemCreated => "ITEM_CREATED",
            EventKind::StockUpdated => "STOCK_UPDATED",
            EventKind::LoanCreated => "LOAN_CREATED",
            EventKind::StockReserved => "STOCK_RESERVED",
            EventKind::StockReleased => "STOCK_RELEASED",
            EventKind::LoanReturned => "LOAN_RETURNED",
            EventKind::ReturnCancelled => "RETURN_CANCELLED",
        }
    }
}

/// How an item came into the inventory.
#[derive(Debug, Clone, Copy, PartialEq, Eq, Structural)]
pub enum ItemSource {
    /// Taken from the built-in catalogue.
    DefaultList,
    /// Entered by hand.
    Custom,
}

impl ItemSource {
    /// The tag under which each source is recorded.
    pub open spec fn tag(self) -> Seq<char> {
        match self {
            ItemSource::DefaultList => "default_list"@,
            ItemSource::Custom => "custom"@,
        }
    }

    /// The tag of the source.
    pub fn as_str(&self) -> (s: &'static str)
        ensures
            s@ == self.tag(),
    {
        match self {
            ItemSource::DefaultList => "default_list",
            ItemSource::Custom => "custom",
        }
    }
}

/// Why a unit was reserved.
#[derive(Debug, Clone, Copy, PartialEq, Eq, Structural)]
pub enum ReserveReason {
    /// A new loan took the unit.
    LoanCreated,
    /// A return was cancelled and the loan took the unit back.
    ReturnCancelled,
}

/// The payload of an event, one variant for each event type.
#[derive(Debug)]
pub enum EventData {
    UserCreated { user_id: String, name: String },
    UserUpdated { user_id: String, changes: UpdateUserRequest },
    UserDeleted { user_id: String },
    ItemCreated { item_id: String, name: String, source: ItemSource },
    StockUpdated {
        item_id: String,
        previous_total: i32,
        new_total: i32,
        previous_available: i32,
        new_available: i32,
    },
    LoanCreated {
        loan_id: String,
        user_id: String,
        items: Vec<String>,
        start_date: Date,
        expected_end_date: Date,
    },
    StockReserved { item_id: String, quantity: i32, loan_id: String, cause: ReserveReason },
    StockReleased { item_id: String, quantity: i32, loan_id: String },
    LoanReturned { loan_id: String, condition: Option<String>, notes: Option<String> },
    ReturnCancelled { loan_id: String, reason: Option<String>, cancelled_at: Timestamp },
}

/// [`EventData`] as a mathematical value.
pub enum EventDataView {
    UserCreated { user_id: Seq<char>, name: Seq<char> },
    UserUpdated { user_id: Seq<char>, changes: UpdateUserRequestView },
    UserDeleted { user_id: Seq<char> },
    ItemCreated { item_id: Seq<char>, name: Seq<char>, source: ItemSource },
    StockUpdated {
        item_id: Seq<char>,
        previous_total: int,
        new_total: int,
        previous_available: int,
        new_available: int,
    },
    LoanCreated {
        loan_id: Seq<char>,
        user_id: Seq<char>,
        items: Seq<Seq<char>>,
        start_date: Date,
        expected_end_date: Date,
    },
    StockReserved { item_id: Seq<char>, quantity: int, loan_id: Seq<char>, cause: ReserveReason },
    StockReleased { item_id: Seq<char>, quantity: int, loan_id: Seq<char> },
    LoanReturned { loan_id: Seq<char>, condition: Option<Seq<char>>, notes: Option<Seq<char>> },
    ReturnCancelled { loan_id: Seq<char>, reason: Option<Seq<char>>, cancelled_at: Timestamp },
}

impl EventDataView {
    /// The event type that a payload belongs to.
    pub open spec fn kind(self) -> EventKind {
        match self {
            EventDataView::UserCreated { .. } => EventKind::UserCreated,
            EventDataView::UserUpdated { .. } => EventKind::UserUpdated,
            EventDataView::UserDeleted { .. } => EventKind::UserDeleted,
            EventDataView::ItemCreated { .. } => EventKind::ItemCreated,
            EventDataView::StockUpdated { .. } => EventKind::StockUpdated,
            EventDataView::LoanCreated { .. } => EventKind::LoanCreated,
            EventDataView::StockReserved { .. } => EventKind::StockReserved,
            EventDataView::StockReleased { .. } => EventKind::StockReleased,
            EventDataView::LoanReturned { .. } => EventKind::LoanReturned,
            EventDataView::ReturnCancelled { .. } => EventKind::ReturnCancelled,
        }
    }
}

impl View for EventData {
    type V = EventDataView;

    open spec fn view(&self) -> EventDataView {
        match *self {
            EventData::UserCreated { user_id, name } => EventDataView::UserCreated {
                user_id: user_id@,
                name: name@,
            },
            EventData::UserUpdated { user_id, changes } => EventDataView::UserUpdated {
                user_id: user_id@,
                changes: changes@,
            },
            EventData::UserDeleted { user_id } => EventDataView::UserDeleted { user_id: user_id@ },
            EventData::ItemCreated { item_id, name, source } => EventDataView::ItemCreated {
                item_id: item_id@,
                name: name@,
                source,
            },
            EventData::StockUpdated {
                item_id,
                previous_total,
                new_total,
                previous_available,
                new_available,
            } => EventDataView::StockUpdated {
                item_id: item_id@,
                previous_total: previous_total as int,
                new_total: new_total as int,
                previous_available: previous_available as int,
                new_available: new_available as int,
            },
            EventData::LoanCreated { loan_id, user_id, items, start_date, expected_end_date } =>
                EventDataView::LoanCreated {
                    loan_id: loan_id@,
                    user_id: user_id@,
                    items: items.deep_view(),
                    start_date,
                    expected_end_date,
                },
            EventData::StockReserved { item_id, quantity, loan_id, cause } =>
                EventDataView::StockReserved {
                    item_id: item_id@,
                    quantity: quantity as int,
                    loan_id: loan_id@,
                    cause,
                },
            EventData::StockReleased { item_id, quantity, loan_id } =>
                EventDataView::StockReleased {
                    item_id: item_id@,
                    quantity: quantity as int,
                    loan_id: loan_id@,
                },
            EventData::LoanReturned { loan_id, condition, notes } => EventDataView::LoanReturned {
                loan_id: loan_id@,
                condition: condition.deep_view(),
                notes: notes.deep_view(),
            },
            EventData::ReturnCancelled { loan_id, reason, cancelled_at } =>
                EventDataView::ReturnCancelled {
                    loan_id: loan_id@,
                    reason: reason.deep_view(),
                    cancelled_at,
                },
        }
    }
}

impl Clone for EventData {
    fn clone(&self) -> (r: Self)
        ensures
            r@ == self@,
    {
        match self {
            EventData::UserCreated { user_id, name } => EventData::UserCreated {
                user_id: user_id.clone(),
                name: name.clone(),
            },
            EventData::UserUpdated { user_id, changes } => EventData::UserUpdated {
                user_id: user_id.clone(),
                changes: changes.clone(),
            },
            EventData::UserDeleted { user_id } => EventData::UserDeleted {
                user_id: user_id.clone(),
            },
            EventData::ItemCreated { item_id, name, source } => EventData::ItemCreated {
                item_id: item_id.clone(),
                name: name.clone(),
                source: *source,
            },
            EventData::StockUpdated {
                item_id,
                previous_total,
                new_total,
                previous_available,
                new_available,
            } => EventData::StockUpdated {
                item_id: item_id.clone(),
                previous_total: *previous_total,
                new_total: *new_total,
                previous_available: *previous_available,
                new_available: *new_available,
            },
            EventData::LoanCreated { loan_id, user_id, items, start_date, expected_end_date } => {
                let copied = items.clone();
                proof {
                    assert(copied.deep_view() =~= items.deep_view());
                }
                EventData::LoanCreated {
                    loan_id: loan_id.clone(),
                    user_id: user_id.clone(),
                    items: copied,
                    start_date: *start_date,
                    expected_end_date: *expected_end_date,
                }
            },
            EventData::StockReserved { item_id, quantity, loan_id, cause } =>
                EventData::StockReserved {
                    item_id: item_id.clone(),
                    quantity: *quantity,
                    loan_id: loan_id.clone(),
                    cause: *cause,
                },
            EventData::StockReleased { item_id, quantity, loan_id } => EventData::StockReleased {
                item_id: item_id.clone(),
                quantity: *quantity,
                loan_id: loan_id.clone(),
            },
            EventData::LoanReturned { loan_id, condition, notes } => EventData::LoanReturned {
                loan_id: loan_id.clone(),
                condition: condition.clone(),
                notes: notes.clone(),
            },
            EventData::ReturnCancelled { loan_id, reason, cancelled_at } =>
                EventData::ReturnCancelled {
                    loan_id: loan_id.clone(),
                    reason: reason.clone(),
                    cancelled_at: *cancelled_at,
                },
        }
    }
}

impl EventData {
    /// The event type that the payload belongs to.
    pub fn kind(&self) -> (k: EventKind)
        ensures
            k == self@.kind(),
    {
        match self {
            EventData::UserCreated { .. } => EventKind::UserCreated,
            EventData::UserUpdated { .. } => EventKind::UserUpdated,
            EventData::UserDeleted { .. } => EventKind::UserDeleted,
            EventData::ItemCreated { .. } => EventKind::ItemCreated,
            EventData::StockUpdated { .. } => EventKind::StockUpdated,
            EventData::LoanCreated { .. } => EventKind::LoanCreated,
            EventData::StockReserved { .. } => EventKind::StockReserved,
            EventData::StockReleased { .. } => EventKind::StockReleased,
            EventData::LoanReturned { .. } => EventKind::LoanReturned,
            EventData::ReturnCancelled { .. } => EventKind::ReturnCancelled,
        }
    }
}

/// One entry of the audit trail. The loan and user references are for
/// lookup only; the entry does not own what they name.
#[derive(Debug)]
pub struct Event {
    pub id: String,
    pub data: EventData,
    pub created_at: Timestamp,
    pub loan_id: Option<String>,
    pub user_id: Option<String>,
}

/// [`Event`] as a mathematical value.
pub struct EventView {
    pub id: Seq<char>,
    pub data: EventDataView,
    pub created_at: Timestamp,
    pub loan_id: Option<Seq<char>>,
    pub user_id: Option<Seq<char>>,
}

impl View for Event {
    type V = EventView;

    open spec fn view(&self) -> EventView {
        EventView {
            id: self.id@,
            data: self.data@,
            created_at: self.created_at,
            loan_id: self.loan_id.deep_view(),
            user_id: self.user_id.deep_view(),
        }
    }
}

impl Clone for Event {
    fn clone(&self) -> (r: Self)
        ensures
            r@ == self@,
    {
        Event {
            id: self.id.clone(),
            data: self.data.clone(),
            created_at: self.created_at,
            loan_id: self.loan_id.clone(),
            user_id: self.user_id.clone(),
        }
    }
}

impl Event {
    /// The tag of the event's type.
    pub fn event_type(&self) -> (s: &'static str)
        ensures
            s@ == self@.data.kind().tag(),
    {
        self.data.kind().as_str()
    }
}

} // verus!
