//! What the printed and exported reports say: labels, joined names, the
//! loans of a year grouped by user, and the figures of the year. Writing
//! the files is left to the caller.

use crate::ledger::count_status;
use crate::models::{lemma_views_push, views, Loan, LoanItem, LoanItemView, LoanStatus, LoanView};
use crate::ordering::{is_listing, listing, ranking, Ranked};
use crate::text::{lemma_bytes_order, sorts_before, text_before};
use vstd::prelude::*;

verus! {

/// The label of each status.
pub open spec fn status_label_text(status: LoanStatus) -> Seq<char> {
    match status {
        LoanStatus::Active => "Activo"@,
        LoanStatus::Pending => "Pendente"@,
        LoanStatus::Returned => "Devolto"@,
        LoanStatus::Overdue => "Atrasado"@,
    }
}

/// The label under which a report shows a status.
pub fn status_label(status: LoanStatus) -> (s: &'static str)
    ensures
        s@ == status_label_text(status),
{
    match status {
        LoanStatus::Active => "Activo",
        LoanStatus::Pending => "Pendente",
        LoanStatus::Returned => "Devolto",
        LoanStatus::Overdue => "Atrasado",
    }
}

/// The parts one after the other with `sep` between them.
pub open spec fn joined(parts: Seq<Seq<char>>, sep: Seq<char>) -> Seq<char>
    decreases parts.len(),
{
    if parts.len() == 0 {
        Seq::empty()
    } else if parts.len() == 1 {
        parts[0]
    } else {
        joined(parts.drop_last(), sep) + sep + parts.last()
    }
}

/// Joins the parts with `sep` between them.
pub fn join(parts: &Vec<String>, sep: &str) -> (out: String)
    ensures
        out@ == joined(parts.deep_view(), sep@),
{
    let ghost all = parts.deep_view();
    let mut out = String::new();
    let mut k: usize = 0;
    proof {
        assert(all.take(0).len() == 0);
    }
    while k < parts.len()
        invariant
            k <= parts.len(),
            all == parts.deep_view(),
            out@ == joined(all.take(k as int), sep@),
        decreases parts.len() - k,
    {
        proof {
            assert(all.take(k as int + 1).drop_last() =~= all.take(k as int));
            assert(all.take(k as int + 1).last() == parts[k as int]@);
            if k == 0 {
                assert(all.take(1)[0] == parts[0]@);
            }
        }
        if k > 0 {
            out.append(sep);
        }
        out.append(parts[k].as_str());
        proof {
            if k == 0 {
                assert(out@ =~= parts[0]@);
            }
        }
        k += 1;
    }
    proof {
        assert(all.take(k as int) =~= all);
    }
    out
}

/// The name of the item of each line.
pub open spec fn line_names(lines: Seq<LoanItemView>) -> Seq<Seq<char>> {
    lines.map_values(|l: LoanItemView| l.item_name)
}

/// The names of a loan's items, separated by a comma and a blank.
pub fn item_names_text(lines: &Vec<LoanItem>) -> (out: String)
    ensures
        out@ == joined(line_names(views(lines@)), ", "@),
{
    let mut names: Vec<String> = Vec::new();
    let mut k: usize = 0;
    while k < lines.len()
        invariant
            k <= lines.len(),
            names.len() == k,
            forall|i: int| 0 <= i < k ==> names[i]@ == lines[i].item_name@,
        decreases lines.len() - k,
    {
        names.push(lines[k].item_name.clone());
        k += 1;
    }
    proof {
        assert(names.deep_view() =~= line_names(views(lines@)));
    }
    join(&names, ", ")
}

/// A text cut down for a narrow column: one of more than `longest`
/// characters keeps its first `kept` and ends in three dots.
pub open spec fn shortened(text: Seq<char>, longest: nat, kept: nat) -> Seq<char> {
    if text.len() > longest && kept <= text.len() {
        text.take(kept as int) + "..."@
    } else {
        text
    }
}

/// Cuts a text down for a narrow column.
pub fn shorten(text: &str, longest: usize, kept: usize) -> (out: String)
    ensures
        out@ == shortened(text@, longest as nat, kept as nat),
{
    let n = text.unicode_len();
    if n > longest && kept <= n {
        let head = text.substring_char(0, kept);
        let mut out = String::from_str(head);
        out.append("...");
        proof {
            assert(text@.subrange(0, kept as int) =~= text@.take(kept as int));
        }
        out
    } else {
        String::from_str(text)
    }
}

/// The loans that began in the year, in the order of the listing.
pub fn loans_of_year(loans: &Vec<Loan>, year: i32) -> (out: Vec<Loan>)
    ensures
        views(out@) == views(loans@).filter(|l: LoanView| l.start_date.year == year),
{
    let ghost wanted = |l: LoanView| l.start_date.year == year;
    let ghost rows = views(loans@);
    let mut out: Vec<Loan> = Vec::new();
    let mut i: usize = 0;
    proof {
        assert(rows.take(0) =~= Seq::empty());
        reveal(Seq::filter);
        assert(views(out@) =~= rows.take(0).filter(wanted));
    }
    while i < loans.len()
        invariant
            i <= loans.len(),
            rows == views(loans@),
            wanted == |l: LoanView| l.start_date.year == year,
            views(out@) == rows.take(i as int).filter(wanted),
        decreases loans.len() - i,
    {
        proof {
            assert(rows.take(i as int + 1) =~= rows.take(i as int).push(rows[i as int]));
            rows.take(i as int).lemma_filter_push(rows[i as int], wanted);
        }
        if loans[i].start_date.year == year {
            let copy = loans[i].clone();
            proof {
                lemma_views_push(out@, copy);
            }
            out.push(copy);
        }
        i += 1;
    }
    proof {
        assert(rows.take(i as int) =~= rows);
    }
    out
}

/// The loans of one user in a report, under the name that the first of them
/// carries.
#[derive(Debug)]
pub struct ReportSection {
    pub user_id: String,
    pub user_name: String,
    pub loans: Vec<Loan>,
}

/// [`ReportSection`] as a mathematical value.
pub struct ReportSectionView {
    pub user_id: Seq<char>,
    pub user_name: Seq<char>,
    pub loans: Seq<LoanView>,
}

impl View for ReportSection {
    type V = ReportSectionView;

    open spec fn view(&self) -> ReportSectionView {
        ReportSectionView {
            user_id: self.user_id@,
            user_name: self.user_name@,
            loans: views(self.loans@),
        }
    }
}

impl Clone for ReportSection {
    fn clone(&self) -> (r: Self)
        ensures
            r@ == self@,
    {
        let mut loans: Vec<Loan> = Vec::new();
        let mut k: usize = 0;
        while k < self.loans.len()
            invariant
                k <= self.loans.len(),
                loans.len() == k,
                forall|i: int| 0 <= i < k ==> loans[i]@ == self.loans[i]@,
            decreases self.loans.len() - k,
        {
            loans.push(self.loans[k].clone());
            k += 1;
        }
        proof {
            assert(views(loans@) =~= views(self.loans@));
        }
        ReportSection { user_id: self.user_id.clone(), user_name: self.user_name.clone(), loans }
    }
}

/// Sections are listed by the user's name.
impl Ranked for ReportSection {
    open spec fn before(a: ReportSectionView, b: ReportSectionView) -> bool {
        text_before(a.user_name, b.user_name)
    }

    fn stands_before(&self, other: &Self) -> (r: bool) {
        sorts_before(self.user_name.as_str(), other.user_name.as_str())
    }

    fn duplicate(&self) -> (r: Self) {
        self.clone()
    }

    proof fn lemma_ranking(a: ReportSectionView, b: ReportSectionView, c: ReportSectionView) {
        lemma_bytes_order(
            vstd::utf8::encode_utf8(a.user_name),
            vstd::utf8::encode_utf8(b.user_name),
            vstd::utf8::encode_utf8(c.user_name),
        );
    }
}

/// The place of the section of a user, or the number of sections where the
/// user has none.
pub open spec fn section_of(sections: Seq<ReportSectionView>, user_id: Seq<char>) -> int
    decreases sections.len(),
{
    if sections.len() == 0 {
        0
    } else if sections[0].user_id == user_id {
        0
    } else {
        1 + section_of(sections.drop_first(), user_id)
    }
}

/// The loans grouped by user: one section for each user, in the order in
/// which the users first occur, each with the user's loans in their order.
pub open spec fn grouped(loans: Seq<LoanView>) -> Seq<ReportSectionView>
    decreases loans.len(),
{
    if loans.len() == 0 {
        Seq::empty()
    } else {
        let earlier = grouped(loans.drop_last());
        let loan = loans.last();
        let at = section_of(earlier, loan.user_id);
        if at < earlier.len() {
            earlier.update(
                at,
                ReportSectionView { loans: earlier[at].loans.push(loan), ..earlier[at] },
            )
        } else {
            earlier.push(
                ReportSectionView {
                    user_id: loan.user_id,
                    user_name: loan.user_name,
                    loans: seq![loan],
                },
            )
        }
    }
}

fn find_section(sections: &Vec<ReportSection>, user_id: &String) -> (at: usize)
    ensures
        at == section_of(views(sections@), user_id@),
        at <= sections.len(),
{
    let ghost all = views(sections@);
    let mut k: usize = 0;
    proof {
        assert(all.skip(0) =~= all);
    }
    while k < sections.len()
        invariant
            k <= sections.len(),
            all == views(sections@),
            section_of(all, user_id@) == k + section_of(all.skip(k as int), user_id@),
        decreases sections.len() - k,
    {
        proof {
            assert(all.skip(k as int)[0] == sections[k as int]@);
            assert(all.skip(k as int).drop_first() =~= all.skip(k as int + 1));
        }
        if sections[k].user_id == *user_id {
            return k;
        }
        k += 1;
    }
    proof {
        assert(all.skip(k as int).len() == 0);
    }
    k
}

/// Groups the loans by user.
pub fn group_by_user(loans: &Vec<Loan>) -> (out: Vec<ReportSection>)
    ensures
        views(out@) == grouped(views(loans@)),
{
    let ghost rows = views(loans@);
    let mut out: Vec<ReportSection> = Vec::new();
    let mut i: usize = 0;
    proof {
        assert(rows.take(0).len() == 0);
        assert(views(out@) =~= grouped(rows.take(0)));
    }
    while i < loans.len()
        invariant
            i <= loans.len(),
            rows == views(loans@),
            views(out@) == grouped(rows.take(i as int)),
        decreases loans.len() - i,
    {
        let ghost earlier = views(out@);
        proof {
            assert(rows.take(i as int + 1).drop_last() =~= rows.take(i as int));
            assert(rows.take(i as int + 1).last() == loans[i as int]@);
        }
        let at = find_section(&out, &loans[i].user_id);
        let copy = loans[i].clone();
        if at < out.len() {
            let ghost before = out[at as int]@;
            proof {
                lemma_views_push(out[at as int].loans@, copy);
            }
            out[at].loans.push(copy);
            proof {
                assert(out[at as int]@ == (ReportSectionView {
                    loans: before.loans.push(loans[i as int]@),
                    ..before
                }));
                assert(views(out@) =~= earlier.update(at as int, out[at as int]@));
            }
        } else {
            let mut first: Vec<Loan> = Vec::new();
            first.push(copy);
            let section = ReportSection {
                user_id: loans[i].user_id.clone(),
                user_name: loans[i].user_name.clone(),
                loans: first,
            };
            proof {
                assert(views(section.loans@) =~= seq![loans[i as int]@]);
                lemma_views_push(out@, section);
            }
            out.push(section);
        }
        i += 1;
    }
    proof {
        assert(rows.take(i as int) =~= rows);
    }
    out
}

/// The sections of a report: the loans grouped by user, the sections by the
/// user's name.
pub fn report_sections(loans: &Vec<Loan>) -> (out: Vec<ReportSection>)
    ensures
        is_listing(grouped(views(loans@)), ranking::<ReportSection>(), views(out@)),
{
    let groups = group_by_user(loans);
    listing(&groups)
}

/// The lines of all loans together.
pub open spec fn total_lines(loans: Seq<LoanView>) -> nat
    decreases loans.len(),
{
    if loans.len() == 0 {
        0
    } else {
        total_lines(loans.drop_last()) + loans.last().items.len()
    }
}

/// The figures at the head of a yearly report.
#[derive(Debug, Clone, Copy, PartialEq, Eq, Structural)]
pub struct YearSummary {
    pub total_loans: usize,
    pub users_served: usize,
    pub total_items: u128,
    pub active_loans: usize,
    pub returned_loans: usize,
    pub other_loans: usize,
}

/// Counts the loans of a report, the users that they were made to, the
/// items lent, and the loans that are active, returned, or neither.
pub fn summarize(loans: &Vec<Loan>) -> (sum: YearSummary)
    ensures
        sum.total_loans == loans.len(),
        sum.users_served == grouped(views(loans@)).len(),
        sum.total_items == total_lines(views(loans@)),
        sum.active_loans == count_status(views(loans@), LoanStatus::Active),
        sum.returned_loans == count_status(views(loans@), LoanStatus::Returned),
        sum.other_loans == sum.total_loans - sum.active_loans - sum.returned_loans,
{
    let ghost rows = views(loans@);
    let mut active: usize = 0;
    let mut returned: usize = 0;
    let mut lines: u128 = 0;
    let mut i: usize = 0;
    while i < loans.len()
        invariant
            i <= loans.len(),
            rows == views(loans@),
            active + returned <= i,
            active == count_status(rows.take(i as int), LoanStatus::Active),
            returned == count_status(rows.take(i as int), LoanStatus::Returned),
            lines == total_lines(rows.take(i as int)),
            lines <= i * 0x1_0000_0000_0000_0000,
        decreases loans.len() - i,
    {
        proof {
            assert(rows.take(i as int + 1).drop_last() =~= rows.take(i as int));
            assert(rows.take(i as int + 1).last() == loans[i as int]@);
        }
        match loans[i].status {
            LoanStatus::Active => {
                active += 1;
            },
            LoanStatus::Returned => {
                returned += 1;
            },
            _ => {},
        }
        lines = lines + loans[i].items.len() as u128;
        i += 1;
    }
    proof {
        assert(rows.take(i as int) =~= rows);
    }
    let users = group_by_user(loans).len();
    YearSummary {
        total_loans: loans.len(),
        users_served: users,
        total_items: lines,
        active_loans: active,
        returned_loans: returned,
        other_loans: loans.len() - active - returned,
    }
}

} // verus!
