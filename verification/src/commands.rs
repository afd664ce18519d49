//! The requests of the front end that do more than pass a call on.

use crate::catalogue::{default_catalogue, default_entries};
use crate::database::Database;
use crate::models::{
    lemma_views_push, views, CatalogueEntry, DashboardStats, Loan, LoanStatus, LoanView,
};
use crate::ordering::{is_listing, ranking};
use crate::queries::is_overview;
use crate::time::{Date, Timestamp};
use vstd::prelude::*;

verus! {

/// The loans with the given status, in the order of the listing.
pub fn loans_with_status(all: &Vec<Loan>, status: LoanStatus) -> (out: Vec<Loan>)
    ensures
        views(out@) == views(all@).filter(|l: LoanView| l.status == status),
{
    let ghost wanted = |l: LoanView| l.status == status;
    let ghost rows = views(all@);
    let mut out: Vec<Loan> = Vec::new();
    let mut i: usize = 0;
    proof {
        assert(rows.take(0) =~= Seq::empty());
        reveal(Seq::filter);
        assert(views(out@) =~= rows.take(0).filter(wanted));
    }
    while i < all.len()
        invariant
            i <= all.len(),
            rows == views(all@),
            wanted == |l: LoanView| l.status == status,
            views(out@) == rows.take(i as int).filter(wanted),
        decreases all.len() - i,
    {
        proof {
            assert(rows.take(i as int + 1) =~= rows.take(i as int).push(rows[i as int]));
            rows.take(i as int).lemma_filter_push(rows[i as int], wanted);
        }
        if all[i].status == status {
            let copy = all[i].clone();
            proof {
                lemma_views_push(out@, copy);
            }
            out.push(copy);
        }
        i += 1;
    }
    proof {
        assert(rows.take(i as int) =~= rows);
    }
    out
}

/// The active loans, the latest first.
pub fn get_active_loans(db: &Database) -> (out: Vec<Loan>)
    ensures
        exists|all: Seq<LoanView>| #[trigger]
            is_listing(db@.loans, ranking::<Loan>(), all) && views(out@) == all.filter(
                |l: LoanView| l.status == LoanStatus::Active,
            ),
{
    let all = db.get_loans();
    loans_with_status(&all, LoanStatus::Active)
}

/// The overdue loans, the latest first.
pub fn get_overdue_loans(db: &Database) -> (out: Vec<Loan>)
    ensures
        exists|all: Seq<LoanView>| #[trigger]
            is_listing(db@.loans, ranking::<Loan>(), all) && views(out@) == all.filter(
                |l: LoanView| l.status == LoanStatus::Overdue,
            ),
{
    let all = db.get_loans();
    loans_with_status(&all, LoanStatus::Overdue)
}

/// Marks the loans that are overdue on `today`, then takes the figures of
/// the overview, so that they count those loans as overdue.
pub fn get_dashboard_stats_on(db: &mut Database, today: Date) -> (stats: DashboardStats)
    requires
        old(db).wf(),
    ensures
        final(db).wf(),
        final(db)@ == old(db)@.sweep_overdue(today).0,
        is_overview(final(db)@, stats@),
{
    db.update_overdue_loans_on(today);
    db.get_dashboard_stats()
}

/// The figures of the overview as of today.
pub fn get_dashboard_stats(db: &mut Database) -> (stats: DashboardStats)
    requires
        old(db).wf(),
    ensures
        final(db).wf(),
        exists|today: Date| final(db)@ == #[trigger] old(db)@.sweep_overdue(today).0,
        is_overview(final(db)@, stats@),
{
    let now = Timestamp::now();
    get_dashboard_stats_on(db, now.date)
}

/// The built-in catalogue, whether or not the inventory holds its entries.
pub fn get_default_items() -> (out: Vec<CatalogueEntry>)
    ensures
        views(out@) == default_entries(),
{
    default_catalogue()
}

} // verus!
