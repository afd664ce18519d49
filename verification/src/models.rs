//! Records kept by the ledger, the requests that change them, and the
//! mathematical view of each.

use crate::audit::{Event, EventView};
use crate::time::{Date, Timestamp};
use vstd::prelude::*;

verus! {

/// The views of a sequence of records, element by element.
pub open spec fn views<T: View>(s: Seq<T>) -> Seq<T::V> {
    s.map_values(|x: T| x@)
}

/// Where a loan stands. A new loan is `Active`; `Pending` is declared but no
/// operation produces it.
#[derive(Debug, Clone, Copy, PartialEq, Eq, Structural)]
pub enum LoanStatus {
    Active,
    Pending,
    Returned,
    Overdue,
}

impl LoanStatus {
    /// The stored tag of each status.
    pub open spec fn tag(self) -> Seq<char> {
        match self {
            LoanStatus::Active => "active"@,
            LoanStatus::Pending => "pending"@,
            LoanStatus::Returned => "returned"@,
            LoanStatus::Overdue => "overdue"@,
        }
    }

    /// The status that a stored tag stands for; an unknown tag reads as
    /// `Active`.
    pub open spec fn of_tag(tag: Seq<char>) -> LoanStatus {
        if tag == "pending"@ {
            LoanStatus::Pending
        } else if tag == "returned"@ {
            LoanStatus::Returned
        } else if tag == "overdue"@ {
            LoanStatus::Overdue
        } else {
            LoanStatus::Active
        }
    }

    /// The loan's items are out of the store: every status but `Returned`.
    pub open spec fn holds_stock(self) -> bool {
        self != LoanStatus::Returned
    }

    /// The stored tag of the status.
    pub fn as_str(&self) -> (s: &'static str)
        ensures
            s@ == self.tag(),
    {
        match self {
            LoanStatus::Active => "active",
            LoanStatus::Pending => "pending",
            LoanStatus::Returned => "returned",
            LoanStatus::Overdue => "overdue",
        }
    }

    /// Reads a stored tag back.
    pub fn parse(tag: &str) -> (status: LoanStatus)
        ensures
            status == LoanStatus::of_tag(tag@),
    {
        let t = String::from_str(tag);
        if t == String::from_str("pending") {
            LoanStatus::Pending
        } else if t == String::from_str("returned") {
            LoanStatus::Returned
        } else if t == String::from_str("overdue") {
            LoanStatus::Overdue
        } else {
            LoanStatus::Active
        }
    }
}

/// A borrower.
#[derive(Debug)]
pub struct User {
    pub id: String,
    pub name: String,
    pub dni: String,
    pub address: String,
    pub phone: Option<String>,
    pub email: Option<String>,
    pub notes: Option<String>,
    pub created_at: Timestamp,
    pub updated_at: Timestamp,
}

/// [`User`] as a mathematical value.
pub struct UserView {
    pub id: Seq<char>,
    pub name: Seq<char>,
    pub dni: Seq<char>,
    pub address: Seq<char>,
    pub phone: Option<Seq<char>>,
    pub email: Option<Seq<char>>,
    pub notes: Option<Seq<char>>,
    pub created_at: Timestamp,
    pub updated_at: Timestamp,
}

impl View for User {
    type V = UserView;

    open spec fn view(&self) -> UserView {
        UserView {
            id: self.id@,
            name: self.name@,
            dni: self.dni@,
            address: self.address@,
            phone: self.phone.deep_view(),
            email: self.email.deep_view(),
            notes: self.notes.deep_view(),
            created_at: self.created_at,
            updated_at: self.updated_at,
        }
    }
}

impl Clone for User {
    fn clone(&self) -> (r: Self)
        ensures
            r@ == self@,
    {
        User {
            id: self.id.clone(),
            name: self.name.clone(),
            dni: self.dni.clone(),
            address: self.address.clone(),
            phone: self.phone.clone(),
            email: self.email.clone(),
            notes: self.notes.clone(),
            created_at: self.created_at,
            updated_at: self.updated_at,
        }
    }
}

/// What is needed to add a user.
#[derive(Debug)]
pub struct CreateUserRequest {
    pub name: String,
    pub dni: String,
    pub address: String,
    pub phone: Option<String>,
    pub email: Option<String>,
    pub notes: Option<String>,
}

/// [`CreateUserRequest`] as a mathematical value.
pub struct CreateUserRequestView {
    pub name: Seq<char>,
    pub dni: Seq<char>,
    pub address: Seq<char>,
    pub phone: Option<Seq<char>>,
    pub email: Option<Seq<char>>,
    pub notes: Option<Seq<char>>,
}

impl View for CreateUserRequest {
    type V = CreateUserRequestView;

    open spec fn view(&self) -> CreateUserRequestView {
        CreateUserRequestView {
            name: self.name@,
            dni: self.dni@,
            address: self.address@,
            phone: self.phone.deep_view(),
            email: self.email.deep_view(),
            notes: self.notes.deep_view(),
        }
    }
}

impl Clone for CreateUserRequest {
    fn clone(&self) -> (r: Self)
        ensures
            r@ == self@,
    {
        CreateUserRequest {
            name: self.name.clone(),
            dni: self.dni.clone(),
            address: self.address.clone(),
            phone: self.phone.clone(),
            email: self.email.clone(),
            notes: self.notes.clone(),
        }
    }
}

/// The fields of a user to replace; an absent field is left as it is.
#[derive(Debug)]
pub struct UpdateUserRequest {
    pub name: Option<String>,
    pub dni: Option<String>,
    pub address: Option<String>,
    pub phone: Option<String>,
    pub email: Option<String>,
    pub notes: Option<String>,
}

/// [`UpdateUserRequest`] as a mathematical value.
pub struct UpdateUserRequestView {
    pub name: Option<Seq<char>>,
    pub dni: Option<Seq<char>>,
    pub address: Option<Seq<char>>,
    pub phone: Option<Seq<char>>,
    pub email: Option<Seq<char>>,
    pub notes: Option<Seq<char>>,
}

impl UpdateUserRequestView {
    /// No field is supplied.
    pub open spec fn is_empty(self) -> bool {
        self.name is None && self.dni is None && self.address is None && self.phone is None
            && self.email is None && self.notes is None
    }
}

impl View for UpdateUserRequest {
    type V = UpdateUserRequestView;

    open spec fn view(&self) -> UpdateUserRequestView {
        UpdateUserRequestView {
            name: self.name.deep_view(),
            dni: self.dni.deep_view(),
            address: self.address.deep_view(),
            phone: self.phone.deep_view(),
            email: self.email.deep_view(),
            notes: self.notes.deep_view(),
        }
    }
}

impl Clone for UpdateUserRequest {
    fn clone(&self) -> (r: Self)
        ensures
            r@ == self@,
    {
        UpdateUserRequest {
            name: self.name.clone(),
            dni: self.dni.clone(),
            address: self.address.clone(),
            phone: self.phone.clone(),
            email: self.email.clone(),
            notes: self.notes.clone(),
        }
    }
}

impl UpdateUserRequest {
    /// Whether no field is supplied.
    pub fn is_empty(&self) -> (b: bool)
        ensures
            b == self@.is_empty(),
    {
        self.name.is_none() && self.dni.is_none() && self.address.is_none()
            && self.phone.is_none() && self.email.is_none() && self.notes.is_none()
    }
}

/// A kind of equipment with its stock counts.
#[derive(Debug)]
pub struct Item {
    pub id: String,
    pub name: String,
    pub description: Option<String>,
    pub category: String,
    pub icon: String,
    pub total_stock: i32,
    pub available_stock: i32,
    pub notes: Option<String>,
    pub created_at: Timestamp,
    pub updated_at: Timestamp,
}

/// [`Item`] as a mathematical value.
pub struct ItemView {
    pub id: Seq<char>,
    pub name: Seq<char>,
    pub description: Option<Seq<char>>,
    pub category: Seq<char>,
    pub icon: Seq<char>,
    pub total_stock: int,
    pub available_stock: int,
    pub notes: Option<Seq<char>>,
    pub created_at: Timestamp,
    pub updated_at: Timestamp,
}

impl View for Item {
    type V = ItemView;

    open spec fn view(&self) -> ItemView {
        ItemView {
            id: self.id@,
            name: self.name@,
            description: self.description.deep_view(),
            category: self.category@,
            icon: self.icon@,
            total_stock: self.total_stock as int,
            available_stock: self.available_stock as int,
            notes: self.notes.deep_view(),
            created_at: self.created_at,
            updated_at: self.updated_at,
        }
    }
}

impl Clone for Item {
    fn clone(&self) -> (r: Self)
        ensures
            r@ == self@,
    {
        Item {
            id: self.id.clone(),
            name: self.name.clone(),
            description: self.description.clone(),
            category: self.category.clone(),
            icon: self.icon.clone(),
            total_stock: self.total_stock,
            available_stock: self.available_stock,
            notes: self.notes.clone(),
            created_at: self.created_at,
            updated_at: self.updated_at,
        }
    }
}

/// What is needed to add an item.
#[derive(Debug)]
pub struct CreateItemRequest {
    pub name: String,
    pub description: Option<String>,
    pub category: String,
    pub icon: String,
    pub total_stock: i32,
    pub notes: Option<String>,
}

/// [`CreateItemRequest`] as a mathematical value.
pub struct CreateItemRequestView {
    pub name: Seq<char>,
    pub description: Option<Seq<char>>,
    pub category: Seq<char>,
    pub icon: Seq<char>,
    pub total_stock: int,
    pub notes: Option<Seq<char>>,
}

impl View for CreateItemRequest {
    type V = CreateItemRequestView;

    open spec fn view(&self) -> CreateItemRequestView {
        CreateItemRequestView {
            name: self.name@,
            description: self.description.deep_view(),
            category: self.category@,
            icon: self.icon@,
            total_stock: self.total_stock as int,
            notes: self.notes.deep_view(),
        }
    }
}

impl Clone for CreateItemRequest {
    fn clone(&self) -> (r: Self)
        ensures
            r@ == self@,
    {
        CreateItemRequest {
            name: self.name.clone(),
            description: self.description.clone(),
            category: self.category.clone(),
            icon: self.icon.clone(),
            total_stock: self.total_stock,
            notes: self.notes.clone(),
        }
    }
}

/// The fields of an item that an edit may replace.
#[derive(Debug)]
pub struct UpdateItemRequest {
    pub name: Option<String>,
    pub description: Option<String>,
    pub category: Option<String>,
    pub icon: Option<String>,
    pub total_stock: Option<i32>,
    pub notes: Option<String>,
}

/// [`UpdateItemRequest`] as a mathematical value.
pub struct UpdateItemRequestView {
    pub name: Option<Seq<char>>,
    pub description: Option<Seq<char>>,
    pub category: Option<Seq<char>>,
    pub icon: Option<Seq<char>>,
    pub total_stock: Option<i32>,
    pub notes: Option<Seq<char>>,
}

impl View for UpdateItemRequest {
    type V = UpdateItemRequestView;

    open spec fn view(&self) -> UpdateItemRequestView {
        UpdateItemRequestView {
            name: self.name.deep_view(),
            description: self.description.deep_view(),
            category: self.category.deep_view(),
            icon: self.icon.deep_view(),
            total_stock: self.total_stock,
            notes: self.notes.deep_view(),
        }
    }
}

impl Clone for UpdateItemRequest {
    fn clone(&self) -> (r: Self)
        ensures
            r@ == self@,
    {
        UpdateItemRequest {
            name: self.name.clone(),
            description: self.description.clone(),
            category: self.category.clone(),
            icon: self.icon.clone(),
            total_stock: self.total_stock,
            notes: self.notes.clone(),
        }
    }
}

/// One unit of one item on a loan.
#[derive(Debug)]
pub struct LoanItem {
    pub id: String,
    pub loan_id: String,
    pub item_id: String,
    pub item_name: String,
    pub quantity: i32,
}

/// [`LoanItem`] as a mathematical value.
pub struct LoanItemView {
    pub id: Seq<char>,
    pub loan_id: Seq<char>,
    pub item_id: Seq<char>,
    pub item_name: Seq<char>,
    pub quantity: int,
}

impl View for LoanItem {
    type V = LoanItemView;

    open spec fn view(&self) -> LoanItemView {
        LoanItemView {
            id: self.id@,
            loan_id: self.loan_id@,
            item_id: self.item_id@,
            item_name: self.item_name@,
            quantity: self.quantity as int,
        }
    }
}

impl Clone for LoanItem {
    fn clone(&self) -> (r: Self)
        ensures
            r@ == self@,
    {
        LoanItem {
            id: self.id.clone(),
            loan_id: self.loan_id.clone(),
            item_id: self.item_id.clone(),
            item_name: self.item_name.clone(),
            quantity: self.quantity,
        }
    }
}

/// A loan of one or more items to one user. The borrower's name is kept on
/// the loan as it was when the loan was made.
#[derive(Debug)]
pub struct Loan {
    pub id: String,
    pub user_id: String,
    pub user_name: String,
    pub start_date: Date,
    pub expected_end_date: Date,
    pub actual_end_date: Option<Date>,
    pub status: LoanStatus,
    pub notes: Option<String>,
    pub created_at: Timestamp,
    pub updated_at: Timestamp,
    pub items: Vec<LoanItem>,
}

/// [`Loan`] as a mathematical value.
pub struct LoanView {
    pub id: Seq<char>,
    pub user_id: Seq<char>,
    pub user_name: Seq<char>,
    pub start_date: Date,
    pub expected_end_date: Date,
    pub actual_end_date: Option<Date>,
    pub status: LoanStatus,
    pub notes: Option<Seq<char>>,
    pub created_at: Timestamp,
    pub updated_at: Timestamp,
    pub items: Seq<LoanItemView>,
}

impl View for Loan {
    type V = LoanView;

    open spec fn view(&self) -> LoanView {
        LoanView {
            id: self.id@,
            user_id: self.user_id@,
            user_name: self.user_name@,
            start_date: self.start_date,
            expected_end_date: self.expected_end_date,
            actual_end_date: self.actual_end_date,
            status: self.status,
            notes: self.notes.deep_view(),
            created_at: self.created_at,
            updated_at: self.updated_at,
            items: views(self.items@),
        }
    }
}

/// Appending a record appends its view.
pub proof fn lemma_views_push<T: View>(s: Seq<T>, x: T)
    ensures
        views(s.push(x)) == views(s).push(x@),
{
    assert(views(s.push(x)) =~= views(s).push(x@));
}

/// A copy of a loan's lines.
pub fn clone_lines(lines: &Vec<LoanItem>) -> (r: Vec<LoanItem>)
    ensures
        views(r@) == views(lines@),
{
    let mut out: Vec<LoanItem> = Vec::new();
    let mut i: usize = 0;
    while i < lines.len()
        invariant
            i <= lines.len(),
            out.len() == i,
            forall|j: int| 0 <= j < i ==> out[j]@ == lines[j]@,
        decreases lines.len() - i,
    {
        out.push(lines[i].clone());
        i += 1;
    }
    proof {
        assert(views(out@) =~= views(lines@));
    }
    out
}

impl Clone for Loan {
    fn clone(&self) -> (r: Self)
        ensures
            r@ == self@,
    {
        Loan {
            id: self.id.clone(),
            user_id: self.user_id.clone(),
            user_name: self.user_name.clone(),
            start_date: self.start_date,
            expected_end_date: self.expected_end_date,
            actual_end_date: self.actual_end_date,
            status: self.status,
            notes: self.notes.clone(),
            created_at: self.created_at,
            updated_at: self.updated_at,
            items: clone_lines(&self.items),
        }
    }
}

/// What is needed to lend: the borrower, the items, one unit of each, and
/// the dates.
#[derive(Debug)]
pub struct CreateLoanRequest {
    pub user_id: String,
    pub item_ids: Vec<String>,
    pub start_date: Date,
    pub expected_end_date: Date,
    pub notes: Option<String>,
}

/// [`CreateLoanRequest`] as a mathematical value.
pub struct CreateLoanRequestView {
    pub user_id: Seq<char>,
    pub item_ids: Seq<Seq<char>>,
    pub start_date: Date,
    pub expected_end_date: Date,
    pub notes: Option<Seq<char>>,
}

impl View for CreateLoanRequest {
    type V = CreateLoanRequestView;

    open spec fn view(&self) -> CreateLoanRequestView {
        CreateLoanRequestView {
            user_id: self.user_id@,
            item_ids: self.item_ids.deep_view(),
            start_date: self.start_date,
            expected_end_date: self.expected_end_date,
            notes: self.notes.deep_view(),
        }
    }
}

impl Clone for CreateLoanRequest {
    fn clone(&self) -> (r: Self)
        ensures
            r@ == self@,
    {
        let item_ids = self.item_ids.clone();
        proof {
            assert(item_ids.deep_view() =~= self.item_ids.deep_view());
        }
        CreateLoanRequest {
            user_id: self.user_id.clone(),
            item_ids,
            start_date: self.start_date,
            expected_end_date: self.expected_end_date,
            notes: self.notes.clone(),
        }
    }
}

/// What the borrower reports when bringing a loan back.
#[derive(Debug)]
pub struct ReturnLoanRequest {
    pub condition: Option<String>,
    pub notes: Option<String>,
}

/// [`ReturnLoanRequest`] as a mathematical value.
pub struct ReturnLoanRequestView {
    pub condition: Option<Seq<char>>,
    pub notes: Option<Seq<char>>,
}

impl View for ReturnLoanRequest {
    type V = ReturnLoanRequestView;

    open spec fn view(&self) -> ReturnLoanRequestView {
        ReturnLoanRequestView {
            condition: self.condition.deep_view(),
            notes: self.notes.deep_view(),
        }
    }
}

impl Clone for ReturnLoanRequest {
    fn clone(&self) -> (r: Self)
        ensures
            r@ == self@,
    {
        ReturnLoanRequest { condition: self.condition.clone(), notes: self.notes.clone() }
    }
}

/// An entry of a catalogue of items that can be taken into the inventory.
#[derive(Debug)]
pub struct CatalogueEntry {
    pub name: String,
    pub description: String,
    pub category: String,
    pub icon: String,
}

/// [`CatalogueEntry`] as a mathematical value.
pub struct CatalogueEntryView {
    pub name: Seq<char>,
    pub description: Seq<char>,
    pub category: Seq<char>,
    pub icon: Seq<char>,
}

impl View for CatalogueEntry {
    type V = CatalogueEntryView;

    open spec fn view(&self) -> CatalogueEntryView {
        CatalogueEntryView {
            name: self.name@,
            description: self.description@,
            category: self.category@,
            icon: self.icon@,
        }
    }
}

impl Clone for CatalogueEntry {
    fn clone(&self) -> (r: Self)
        ensures
            r@ == self@,
    {
        CatalogueEntry {
            name: self.name.clone(),
            description: self.description.clone(),
            category: self.category.clone(),
            icon: self.icon.clone(),
        }
    }
}

/// The figures of the overview page.
#[derive(Debug)]
pub struct DashboardStats {
    pub active_loans: usize,
    pub pending_returns: usize,
    pub overdue_loans: usize,
    pub total_items_available: i64,
    pub total_users: usize,
    pub recent_loans: Vec<Loan>,
    pub recent_events: Vec<Event>,
}

/// [`DashboardStats`] as a mathematical value.
pub struct DashboardStatsView {
    pub active_loans: nat,
    pub pending_returns: nat,
    pub overdue_loans: nat,
    pub total_items_available: int,
    pub total_users: nat,
    pub recent_loans: Seq<LoanView>,
    pub recent_events: Seq<EventView>,
}

impl View for DashboardStats {
    type V = DashboardStatsView;

    open spec fn view(&self) -> DashboardStatsView {
        DashboardStatsView {
            active_loans: self.active_loans as nat,
            pending_returns: self.pending_returns as nat,
            overdue_loans: self.overdue_loans as nat,
            total_items_available: self.total_items_available as int,
            total_users: self.total_users as nat,
            recent_loans: views(self.recent_loans@),
            recent_events: views(self.recent_events@),
        }
    }
}

} // verus!
