//! Employment history: an append-only ledger of per-employee entries.
//!
//! Listing reports one employee's entries ordered by start date, newest
//! first, with absent start dates sorted in front of every present one, as
//! the backing store's native descending null-ordering does. Adding an entry
//! deliberately performs no check that the employee id exists.

use vstd::prelude::*;
use vstd::string::*;
use vstd::seq_lib::group_to_multiset_ensures;
use vstd::multiset::group_multiset_axioms;

use crate::audit::{appended_one, AuditTrail};
use crate::dates::{lenient_date_spec, parse_lenient_date, Date};
use crate::models::{EmploymentHistory, EmploymentHistoryCreate};

verus! {

/// The listing order on start dates: an absent date ranks above every
/// present one, and present dates rank by calendar order, latest first.
/// `start_ge(a, b)` says `a` may stand before `b`.
pub open spec fn start_ge(a: Option<Date>, b: Option<Date>) -> bool {
    match a {
        None => true,
        Some(x) => match b {
            None => false,
            Some(y) => y.le_spec(x),
        },
    }
}

/// Start dates never ascend along the sequence.
pub open spec fn sorted_by_start_desc(s: Seq<EmploymentHistory>) -> bool {
    forall|i: int, j: int|
        #![trigger s[i].start_date, s[j].start_date]
        0 <= i <= j < s.len() ==> start_ge(s[i].start_date, s[j].start_date)
}

/// Membership of one employee's entries.
pub open spec fn for_employee(emp_id: i32) -> spec_fn(EmploymentHistory) -> bool {
    |h: EmploymentHistory| h.emp_id == emp_id
}

/// Compares two optional start dates in listing order.
fn start_ge_exec(a: &Option<Date>, b: &Option<Date>) -> (r: bool)
    ensures
        r == start_ge(*a, *b),
{
    match a {
        None => true,
        Some(x) => match b {
            None => false,
            Some(y) => y.le(x),
        },
    }
}

/// The append-only ledger of employment-history entries.
pub struct HistoryLedger {
    pub entries: Vec<EmploymentHistory>,
}

impl HistoryLedger {
    /// History ids are store-assigned in insertion order, starting at 1.
    pub open spec fn wf(self) -> bool {
        forall|i: int|
            0 <= i < self.entries@.len() ==> #[trigger] self.entries@[i].history_id == i + 1
    }

    /// An empty ledger.
    pub fn new() -> (r: HistoryLedger)
        ensures
            r.wf(),
            r.entries@.len() == 0,
    {
        HistoryLedger { entries: Vec::new() }
    }

    /// Appends one entry for the given employee id and appends one
    /// ADD-HISTORY audit entry. Deliberately, the employee id is not checked
    /// against the registry: the reference is soft, and an entry for an
    /// unknown id is stored all the same. Malformed dates are dropped, not
    /// rejected. Entries are never updated or removed.
    pub fn add(
        &mut self,
        emp_id: i32,
        data: &EmploymentHistoryCreate,
        admin_id: i32,
        now: i64,
        audit: &mut AuditTrail,
    ) -> (history_id: i32)
        requires
            old(self).wf(),
            old(audit).wf(),
            old(self).entries@.len() + 1 < i32::MAX,
            old(audit).entries@.len() + 1 < i32::MAX,
        ensures
            final(self).wf(),
            final(audit).wf(),
            history_id == old(self).entries@.len() + 1,
            final(self).entries@.len() == old(self).entries@.len() + 1,
            final(self).entries@.subrange(0, old(self).entries@.len() as int) == old(
                self,
            ).entries@,
            final(self).entries@.last().history_id == history_id,
            final(self).entries@.last().emp_id == emp_id,
            final(self).entries@.last().company_name == data.company_name,
            final(self).entries@.last().start_date == lenient_date_spec(data.start_date),
            final(self).entries@.last().end_date == lenient_date_spec(data.end_date),
            final(self).entries@.last().role == data.role,
            final(self).entries@.last().payslip_pdf_path is None,
            final(self).entries@.last().created_at == now,
            appended_one(
                *old(audit),
                *final(audit),
                admin_id,
                Some(emp_id),
                "ADD_EMPLOYMENT_HISTORY"@,
                now,
            ),
            final(audit).entries@.last().details matches Some(d) && d@
                == "Added employment history: "@ + data.company_name@,
    {
        let history_id: i32 = (self.entries.len() + 1) as i32;
        let record = EmploymentHistory {
            history_id,
            emp_id,
            company_name: data.company_name.clone(),
            start_date: parse_lenient_date(&data.start_date),
            end_date: parse_lenient_date(&data.end_date),
            role: crate::models::clone_opt_string(&data.role),
            payslip_pdf_path: None,
            created_at: now,
        };
        self.entries.push(record);
        let details = String::from_str("Added employment history: ").concat(
            data.company_name.as_str(),
        );
        audit.append(
            admin_id,
            Some(emp_id),
            String::from_str("ADD_EMPLOYMENT_HISTORY"),
            Some(details),
            now,
        );
        proof {
            assert(final(self).entries@.subrange(0, old(self).entries@.len() as int)
                =~= old(self).entries@);
            assert(final(audit).entries@.subrange(0, old(audit).entries@.len() as int)
                =~= old(audit).entries@);
        }
        history_id
    }

    /// One employee's entries, ordered by start date descending with absent
    /// dates first: exactly the ledger's entries for that id, as a
    /// multiset, and nothing else.
    pub fn list(&self, emp_id: i32) -> (r: Vec<EmploymentHistory>)
        ensures
            sorted_by_start_desc(r@),
            forall|i: int| 0 <= i < r@.len() ==> #[trigger] r@[i].emp_id == emp_id,
            r@.to_multiset() == self.entries@.filter(for_employee(emp_id)).to_multiset(),
    {
        broadcast use group_to_multiset_ensures;
        broadcast use group_multiset_axioms;

        let ghost pred = for_employee(emp_id);
        let n = self.entries.len();
        let mut working: Vec<EmploymentHistory> = Vec::new();
        let mut i: usize = 0;
        while i < n
            invariant
                n == self.entries@.len(),
                i <= n,
                working@ == self.entries@.subrange(0, i as int).filter(pred),
                pred == for_employee(emp_id),
            decreases n - i,
        {
            proof {
                reveal(Seq::filter);
                assert(self.entries@.subrange(0, (i + 1) as int).drop_last()
                    =~= self.entries@.subrange(0, i as int));
                assert(self.entries@.subrange(0, (i + 1) as int).last()
                    == self.entries@[i as int]);
            }
            if self.entries[i].emp_id == emp_id {
                working.push(self.entries[i].clone());
            }
            i += 1;
        }
        proof {
            assert(self.entries@.subrange(0, n as int) =~= self.entries@);
            assert(working@.to_multiset() == self.entries@.filter(pred).to_multiset());
        }
        let ghost selected = working@;
        let mut out: Vec<EmploymentHistory> = Vec::new();
        while working.len() > 0
            invariant
                sorted_by_start_desc(out@),
                out@.to_multiset().add(working@.to_multiset()) == selected.to_multiset(),
                out@.len() + working@.len() == selected.len(),
                forall|a: int| 0 <= a < out@.len() ==> #[trigger] out@[a].emp_id == emp_id,
                forall|a: int| 0 <= a < working@.len() ==> #[trigger] working@[a].emp_id == emp_id,
                forall|a: int, b: int|
                    #![trigger out@[a].start_date, working@[b].start_date]
                    0 <= a < out@.len() && 0 <= b < working@.len() ==> start_ge(
                        out@[a].start_date,
                        working@[b].start_date,
                    ),
            decreases working@.len(),
        {
            let mut best: usize = 0;
            let mut k: usize = 1;
            while k < working.len()
                invariant
                    working@.len() > 0,
                    best < working@.len(),
                    k <= working@.len(),
                    forall|j: int|
                        #![trigger working@[j].start_date]
                        0 <= j < k ==> start_ge(
                            working@[best as int].start_date,
                            working@[j].start_date,
                        ),
                decreases working@.len() - k,
            {
                if !start_ge_exec(&working[best].start_date, &working[k].start_date) {
                    proof {
                        let wb = working@[best as int].start_date;
                        let wk = working@[k as int].start_date;
                        assert(start_ge(wk, wb)) by {
                            assert(!start_ge(wb, wk));
                        }
                        assert(forall|j: int|
                            #![trigger working@[j].start_date]
                            0 <= j < k ==> start_ge(wk, working@[j].start_date));
                    }
                    best = k;
                }
                k += 1;
            }
            let ghost pre_working = working@;
            let item = working.remove(best);
            proof {
                pre_working.to_multiset_ensures();
                out@.to_multiset_ensures();
                assert(pre_working[best as int] == item);
                assert(pre_working.contains(item));
                assert(pre_working.to_multiset().count(item) > 0);
                assert(working@.to_multiset() =~= pre_working.to_multiset().remove(item));
                assert(out@.push(item).to_multiset() =~= out@.to_multiset().insert(item));
                assert(out@.push(item).to_multiset().add(working@.to_multiset())
                    =~= selected.to_multiset());
            }
            out.push(item);
        }
        proof {
            assert(out@.to_multiset().add(working@.to_multiset()) =~= out@.to_multiset());
        }
        out
    }
}

} // verus!
