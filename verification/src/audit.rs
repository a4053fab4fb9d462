//! Append-only audit trail of admin actions.
//!
//! Every mutating operation of the other components records exactly one entry
//! here on success. Entries are never updated or removed; retrieval reports
//! the most recent entries first, capped at 100.

use vstd::prelude::*;
use vstd::seq_lib::group_to_multiset_ensures;
use vstd::multiset::group_multiset_axioms;

use crate::models::AuditLog;

verus! {

/// The cap on how many entries `recent` reports.
pub const RECENT_CAP: usize = 100;

/// Timestamps never increase along the sequence.
pub open spec fn sorted_by_time_desc(s: Seq<AuditLog>) -> bool {
    forall|i: int, j: int| 0 <= i <= j < s.len() ==> s[i].timestamp >= s[j].timestamp
}

/// Exactly one entry was appended: the earlier entries stand untouched, and
/// the new last entry records the given actor, target, action tag and time.
/// Its detail text is constrained separately by each operation.
pub open spec fn appended_one(
    pre: AuditTrail,
    post: AuditTrail,
    admin_id: i32,
    emp_id: Option<i32>,
    action: Seq<char>,
    now: i64,
) -> bool {
    &&& post.entries@.len() == pre.entries@.len() + 1
    &&& post.entries@.subrange(0, pre.entries@.len() as int) == pre.entries@
    &&& post.entries@.last().log_id == pre.entries@.len() + 1
    &&& post.entries@.last().admin_id == Some(admin_id)
    &&& post.entries@.last().emp_id == emp_id
    &&& post.entries@.last().action@ == action
    &&& post.entries@.last().timestamp == now
}

/// The append-only log of admin actions.
pub struct AuditTrail {
    pub entries: Vec<AuditLog>,
}

impl AuditTrail {
    /// Log ids are store-assigned in insertion order, starting at 1.
    pub open spec fn wf(self) -> bool {
        forall|i: int| 0 <= i < self.entries@.len() ==> #[trigger] self.entries@[i].log_id == i + 1
    }

    /// An empty trail.
    pub fn new() -> (r: AuditTrail)
        ensures
            r.wf(),
            r.entries@.len() == 0,
    {
        AuditTrail { entries: Vec::new() }
    }

    /// The entry `append` would write for the given action.
    pub open spec fn appended_entry(
        self,
        admin_id: i32,
        emp_id: Option<i32>,
        action: String,
        details: Option<String>,
        now: i64,
    ) -> AuditLog {
        AuditLog {
            log_id: (self.entries@.len() + 1) as i32,
            admin_id: Some(admin_id),
            emp_id,
            action,
            details,
            timestamp: now,
        }
    }

    /// Appends one entry recording an admin action. Insert-only: nothing is
    /// ever rewritten, and the entry's id is the next in insertion order.
    pub fn append(
        &mut self,
        admin_id: i32,
        emp_id: Option<i32>,
        action: String,
        details: Option<String>,
        now: i64,
    )
        requires
            old(self).wf(),
            old(self).entries@.len() + 1 < i32::MAX,
        ensures
            final(self).wf(),
            final(self).entries@ == old(self).entries@.push(
                old(self).appended_entry(admin_id, emp_id, action, details, now),
            ),
    {
        let log_id: i32 = (self.entries.len() + 1) as i32;
        self.entries.push(AuditLog {
            log_id,
            admin_id: Some(admin_id),
            emp_id,
            action,
            details,
            timestamp: now,
        });
    }

    /// How many entries the trail holds.
    pub fn len(&self) -> (r: usize)
        ensures
            r == self.entries@.len(),
    {
        self.entries.len()
    }

    /// The most recent entries, newest first, at most 100 of them. The result
    /// is drawn from the trail without invention: its multiset of entries is
    /// contained in the trail's, it is the whole trail when the trail holds
    /// no more than 100, and no entry left out is newer than any entry
    /// reported.
    pub fn recent(&self) -> (r: Vec<AuditLog>)
        ensures
            r@.len() == if self.entries@.len() <= RECENT_CAP {
                self.entries@.len()
            } else {
                RECENT_CAP as nat
            },
            sorted_by_time_desc(r@),
            r@.to_multiset().subset_of(self.entries@.to_multiset()),
            self.entries@.len() <= RECENT_CAP ==> r@.to_multiset()
                == self.entries@.to_multiset(),
            forall|a: AuditLog, i: int|
                #![trigger self.entries@.to_multiset().sub(r@.to_multiset()).count(a), r@[i]]
                self.entries@.to_multiset().sub(r@.to_multiset()).count(a) > 0 && 0 <= i
                    < r@.len() ==> r@[i].timestamp >= a.timestamp,
    {
        broadcast use group_to_multiset_ensures;
        broadcast use group_multiset_axioms;

        let mut working = self.entries.clone();
        assert(working@ =~= self.entries@);
        let mut out: Vec<AuditLog> = Vec::new();
        proof {
            assert(out@.to_multiset().add(working@.to_multiset())
                =~= self.entries@.to_multiset());
        }
        while out.len() < RECENT_CAP && working.len() > 0
            invariant
                sorted_by_time_desc(out@),
                out@.to_multiset().add(working@.to_multiset())
                    == self.entries@.to_multiset(),
                out@.len() + working@.len() == self.entries@.len(),
                out@.len() <= RECENT_CAP,
                forall|i: int, j: int|
                    0 <= i < out@.len() && 0 <= j < working@.len()
                        ==> #[trigger] out@[i].timestamp >= #[trigger] working@[j].timestamp,
            decreases working@.len(),
        {
            let mut best: usize = 0;
            let mut k: usize = 1;
            while k < working.len()
                invariant
                    working@.len() > 0,
                    best < working@.len(),
                    k <= working@.len(),
                    forall|j: int|
                        0 <= j < k ==> #[trigger] working@[j].timestamp
                            <= working@[best as int].timestamp,
                decreases working@.len() - k,
            {
                if working[k].timestamp > working[best].timestamp {
                    best = k;
                }
                k += 1;
            }
            let ghost pre_working = working@;
            let item = working.remove(best);
            proof {
                pre_working.to_multiset_ensures();
                out@.to_multiset_ensures();
                assert(pre_working[best as int] == item);
                assert(pre_working.contains(item));
                assert(pre_working.to_multiset().count(item) > 0);
                assert(working@.to_multiset() =~= pre_working.to_multiset().remove(item));
                assert(out@.push(item).to_multiset() =~= out@.to_multiset().insert(item));
                assert(out@.push(item).to_multiset().add(working@.to_multiset())
                    =~= self.entries@.to_multiset());
            }
            out.push(item);
        }
        proof {
            self.entries@.to_multiset_ensures();
            working@.to_multiset_ensures();
            assert(self.entries@.to_multiset().sub(out@.to_multiset())
                =~= working@.to_multiset());
            assert forall|a: AuditLog, i: int|
                #![trigger self.entries@.to_multiset().sub(out@.to_multiset()).count(a), out@[i]]
                self.entries@.to_multiset().sub(out@.to_multiset()).count(a) > 0 && 0 <= i
                    < out@.len() implies out@[i].timestamp >= a.timestamp by {
                assert(working@.to_multiset().count(a) > 0);
                assert(working@.contains(a));
                let j = choose|j: int| 0 <= j < working@.len() && working@[j] == a;
                assert(out@[i].timestamp >= working@[j].timestamp);
            }
        }
        out
    }
}

} // verus!
