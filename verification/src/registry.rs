//! Employee records: listing, lookup, creation, partial-update merge and
//! deletion, each successful mutation coupled to exactly one audit entry.

use vstd::prelude::*;
use vstd::string::*;
use vstd::pervasive::VecAdditionalExecFns;

use crate::audit::{appended_one, AuditTrail};
use crate::dates::{iso_date_of, lenient_date_spec, parse_lenient_date};
use crate::errors::EmsError;
use crate::models::{Employee, EmployeeCreate, EmployeeUpdate};
use crate::text::{dec_str_of, i32_to_string};

verus! {

/// Some stored employee carries this id.
pub open spec fn has_emp(s: Seq<Employee>, emp_id: i32) -> bool {
    exists|i: int| 0 <= i < s.len() && s[i].emp_id == emp_id
}

/// The position of the employee with this id; meaningful only under
/// `has_emp` and a well-formed registry, where the id is unique.
pub open spec fn emp_index_of(s: Seq<Employee>, emp_id: i32) -> int {
    choose|i: int| 0 <= i < s.len() && s[i].emp_id == emp_id
}

/// How a stored record and a partial update merge: every supplied field
/// replaces the stored one, every omitted field keeps it, a supplied but
/// unparseable joining date keeps the stored one, and `updated_at` is
/// refreshed unconditionally while `created_at` and the id never change.
pub open spec fn is_merged(pre: Employee, post: Employee, data: EmployeeUpdate, now: i64) -> bool {
    &&& post.emp_id == pre.emp_id
    &&& post.first_name == match data.first_name {
        Some(v) => v,
        None => pre.first_name,
    }
    &&& post.last_name == match data.last_name {
        Some(v) => v,
        None => pre.last_name,
    }
    &&& post.email == match data.email {
        Some(v) => Some(v),
        None => pre.email,
    }
    &&& post.phone == match data.phone {
        Some(v) => Some(v),
        None => pre.phone,
    }
    &&& post.department == match data.department {
        Some(v) => Some(v),
        None => pre.department,
    }
    &&& post.designation == match data.designation {
        Some(v) => Some(v),
        None => pre.designation,
    }
    &&& post.joining_date == match data.joining_date {
        Some(s) => match iso_date_of(s@) {
            Some(d) => Some(d),
            None => pre.joining_date,
        },
        None => pre.joining_date,
    }
    &&& post.status == match data.status {
        Some(v) => v,
        None => pre.status,
    }
    &&& post.created_at == pre.created_at
    &&& post.updated_at == now
}

/// The record `create` stores: the fields as supplied, the joining date
/// parsed leniently, the status defaulting to "Active" when omitted, and
/// both timestamps set to the present moment.
pub open spec fn is_created(post: Employee, data: EmployeeCreate, emp_id: i32, now: i64) -> bool {
    &&& post.emp_id == emp_id
    &&& post.first_name == data.first_name
    &&& post.last_name == data.last_name
    &&& post.email == data.email
    &&& post.phone == data.phone
    &&& post.department == data.department
    &&& post.designation == data.designation
    &&& post.joining_date == lenient_date_spec(data.joining_date)
    &&& (data.status matches Some(v) ==> post.status == v)
    &&& (data.status is None ==> post.status@ == "Active"@)
    &&& post.created_at == now
    &&& post.updated_at == now
}

/// The store of employee records. Ids are assigned by the store, unique and
/// handed out in ascending order, so the record sequence is sorted by id.
pub struct EmployeeRegistry {
    pub employees: Vec<Employee>,
    pub next_id: i32,
}

impl EmployeeRegistry {
    /// Ids are at least 1, strictly ascending in storage order, and below
    /// the next id to hand out.
    pub open spec fn wf(self) -> bool {
        &&& 1 <= self.next_id
        &&& forall|i: int|
            0 <= i < self.employees@.len() ==> 1 <= #[trigger] self.employees@[i].emp_id
                < self.next_id
        &&& forall|i: int, j: int|
            #![trigger self.employees@[i].emp_id, self.employees@[j].emp_id]
            0 <= i < j < self.employees@.len() ==> self.employees@[i].emp_id
                < self.employees@[j].emp_id
    }

    /// An empty registry; the first record will get id 1.
    pub fn new() -> (r: EmployeeRegistry)
        ensures
            r.wf(),
            r.employees@.len() == 0,
            r.next_id == 1,
    {
        EmployeeRegistry { employees: Vec::new(), next_id: 1 }
    }

    /// Distinct positions hold distinct ids.
    proof fn lemma_ids_unique(self)
        requires
            self.wf(),
        ensures
            forall|i: int, j: int|
                #![trigger self.employees@[i].emp_id, self.employees@[j].emp_id]
                0 <= i < self.employees@.len() && 0 <= j < self.employees@.len() && i != j
                    ==> self.employees@[i].emp_id != self.employees@[j].emp_id,
    {
    }

    /// The position of the record with this id, or nothing.
    fn find_index(&self, emp_id: i32) -> (r: Option<usize>)
        ensures
            r matches Some(i) ==> i < self.employees@.len() && self.employees@[i as int].emp_id
                == emp_id,
            r is None ==> !has_emp(self.employees@, emp_id),
    {
        let n = self.employees.len();
        let mut i: usize = 0;
        while i < n
            invariant
                n == self.employees@.len(),
                i <= n,
                forall|j: int| 0 <= j < i ==> #[trigger] self.employees@[j].emp_id != emp_id,
            decreases n - i,
        {
            if self.employees[i].emp_id == emp_id {
                return Some(i);
            }
            i += 1;
        }
        None
    }

    /// All employees, ascending by id.
    pub fn list(&self) -> (r: Vec<Employee>)
        requires
            self.wf(),
        ensures
            r@ == self.employees@,
            forall|i: int, j: int|
                #![trigger r@[i].emp_id, r@[j].emp_id]
                0 <= i < j < r@.len() ==> r@[i].emp_id < r@[j].emp_id,
    {
        let r = self.employees.clone();
        proof {
            assert(r@ =~= self.employees@);
        }
        r
    }

    /// The employee with this id, or `NotFound`.
    pub fn get(&self, emp_id: i32) -> (r: Result<Employee, EmsError>)
        requires
            self.wf(),
        ensures
            r is Ok <==> has_emp(self.employees@, emp_id),
            r matches Ok(e) ==> self.employees@.contains(e) && e.emp_id == emp_id,
            r matches Err(err) ==> err == EmsError::NotFound,
    {
        match self.find_index(emp_id) {
            Some(i) => {
                let e = self.employees[i].clone();
                proof {
                    assert(self.employees@[i as int] == e);
                    assert(self.employees@.contains(e));
                }
                Ok(e)
            },
            None => Err(EmsError::NotFound),
        }
    }

    /// Stores a new employee and appends one CREATE audit entry. The new
    /// record takes the next id, its status defaults to "Active" when
    /// omitted, a malformed joining date is silently dropped, and both
    /// timestamps are the present moment.
    pub fn create(
        &mut self,
        data: &EmployeeCreate,
        admin_id: i32,
        now: i64,
        audit: &mut AuditTrail,
    ) -> (new_id: i32)
        requires
            old(self).wf(),
            old(audit).wf(),
            old(self).next_id < i32::MAX,
            old(audit).entries@.len() + 1 < i32::MAX,
        ensures
            final(self).wf(),
            final(audit).wf(),
            new_id == old(self).next_id,
            final(self).next_id == old(self).next_id + 1,
            final(self).employees@.len() == old(self).employees@.len() + 1,
            final(self).employees@.subrange(0, old(self).employees@.len() as int) == old(
                self,
            ).employees@,
            is_created(final(self).employees@.last(), *data, new_id, now),
            appended_one(*old(audit), *final(audit), admin_id, Some(new_id), "CREATE_EMPLOYEE"@, now),
            final(audit).entries@.last().details matches Some(d) && d@ == "Created employee: "@
                + data.first_name@ + " "@ + data.last_name@,
    {
        let emp_id = self.next_id;
        self.next_id = self.next_id + 1;
        let status = match &data.status {
            Some(v) => v.clone(),
            None => String::from_str("Active"),
        };
        let joining_date = parse_lenient_date(&data.joining_date);
        let record = Employee {
            emp_id,
            first_name: data.first_name.clone(),
            last_name: data.last_name.clone(),
            email: crate::models::clone_opt_string(&data.email),
            phone: crate::models::clone_opt_string(&data.phone),
            department: crate::models::clone_opt_string(&data.department),
            designation: crate::models::clone_opt_string(&data.designation),
            joining_date,
            status,
            created_at: now,
            updated_at: now,
        };
        self.employees.push(record);
        let details = String::from_str("Created employee: ").concat(
            data.first_name.as_str(),
        ).concat(" ").concat(data.last_name.as_str());
        audit.append(
            admin_id,
            Some(emp_id),
            String::from_str("CREATE_EMPLOYEE"),
            Some(details),
            now,
        );
        proof {
            assert(final(self).employees@.subrange(0, old(self).employees@.len() as int)
                =~= old(self).employees@);
            assert(final(audit).entries@.subrange(0, old(audit).entries@.len() as int)
                =~= old(audit).entries@);
        }
        emp_id
    }

    /// Applies a partial update to the employee with this id and appends one
    /// UPDATE audit entry, or reports `NotFound` and appends nothing. Every
    /// omitted field keeps its stored value, independently per field.
    pub fn update(
        &mut self,
        emp_id: i32,
        data: &EmployeeUpdate,
        admin_id: i32,
        now: i64,
        audit: &mut AuditTrail,
    ) -> (r: Result<(), EmsError>)
        requires
            old(self).wf(),
            old(audit).wf(),
            old(audit).entries@.len() + 1 < i32::MAX,
        ensures
            final(self).wf(),
            final(audit).wf(),
            r is Ok <==> has_emp(old(self).employees@, emp_id),
            r matches Err(err) ==> err == EmsError::NotFound,
            !has_emp(old(self).employees@, emp_id) ==> *final(self) == *old(self) && *final(audit)
                == *old(audit),
            has_emp(old(self).employees@, emp_id) ==> {
                &&& final(self).employees@.len() == old(self).employees@.len()
                &&& final(self).next_id == old(self).next_id
                &&& forall|j: int|
                    0 <= j < old(self).employees@.len() && old(self).employees@[j].emp_id != emp_id
                        ==> #[trigger] final(self).employees@[j] == old(self).employees@[j]
                &&& forall|j: int|
                    0 <= j < old(self).employees@.len() && old(self).employees@[j].emp_id == emp_id
                        ==> is_merged(
                        old(self).employees@[j],
                        #[trigger] final(self).employees@[j],
                        *data,
                        now,
                    )
                &&& appended_one(
                    *old(audit),
                    *final(audit),
                    admin_id,
                    Some(emp_id),
                    "UPDATE_EMPLOYEE"@,
                    now,
                )
                &&& final(audit).entries@.last().details matches Some(d) && d@
                    == "Updated employee ID: "@ + dec_str_of(emp_id as int)
            },
    {
        match self.find_index(emp_id) {
            None => Err(EmsError::NotFound),
            Some(i) => {
                let cur = self.employees[i].clone();
                let merged = Employee {
                    emp_id: cur.emp_id,
                    first_name: match &data.first_name {
                        Some(v) => v.clone(),
                        None => cur.first_name,
                    },
                    last_name: match &data.last_name {
                        Some(v) => v.clone(),
                        None => cur.last_name,
                    },
                    email: match &data.email {
                        Some(v) => Some(v.clone()),
                        None => cur.email,
                    },
                    phone: match &data.phone {
                        Some(v) => Some(v.clone()),
                        None => cur.phone,
                    },
                    department: match &data.department {
                        Some(v) => Some(v.clone()),
                        None => cur.department,
                    },
                    designation: match &data.designation {
                        Some(v) => Some(v.clone()),
                        None => cur.designation,
                    },
                    joining_date: match &data.joining_date {
                        Some(s) => match crate::dates::parse_iso_date(s.as_str()) {
                            Some(d) => Some(d),
                            None => cur.joining_date,
                        },
                        None => cur.joining_date,
                    },
                    status: match &data.status {
                        Some(v) => v.clone(),
                        None => cur.status,
                    },
                    created_at: cur.created_at,
                    updated_at: now,
                };
                self.employees.set(i, merged);
                let details = String::from_str("Updated employee ID: ").concat(
                    i32_to_string(emp_id).as_str(),
                );
                audit.append(
                    admin_id,
                    Some(emp_id),
                    String::from_str("UPDATE_EMPLOYEE"),
                    Some(details),
                    now,
                );
                proof {
                    old(self).lemma_ids_unique();
                    assert(final(audit).entries@.subrange(0, old(audit).entries@.len() as int)
                        =~= old(audit).entries@);
                }
                Ok(())
            },
        }
    }

    /// Removes the employee with this id and appends one DELETE audit entry
    /// whose detail carries the removed record's display name, or reports
    /// `NotFound` and appends nothing.
    pub fn delete(&mut self, emp_id: i32, admin_id: i32, now: i64, audit: &mut AuditTrail) -> (r:
        Result<(), EmsError>)
        requires
            old(self).wf(),
            old(audit).wf(),
            old(audit).entries@.len() + 1 < i32::MAX,
        ensures
            final(self).wf(),
            final(audit).wf(),
            r is Ok <==> has_emp(old(self).employees@, emp_id),
            r matches Err(err) ==> err == EmsError::NotFound,
            !has_emp(old(self).employees@, emp_id) ==> *final(self) == *old(self) && *final(audit)
                == *old(audit),
            has_emp(old(self).employees@, emp_id) ==> {
                &&& final(self).next_id == old(self).next_id
                &&& final(self).employees@ == old(self).employees@.remove(
                    emp_index_of(old(self).employees@, emp_id),
                )
                &&& appended_one(
                    *old(audit),
                    *final(audit),
                    admin_id,
                    Some(emp_id),
                    "DELETE_EMPLOYEE"@,
                    now,
                )
                &&& final(audit).entries@.last().details matches Some(d) && d@
                    == "Deleted employee: "@ + old(self).employees@[emp_index_of(
                    old(self).employees@,
                    emp_id,
                )].first_name@ + " "@ + old(self).employees@[emp_index_of(
                    old(self).employees@,
                    emp_id,
                )].last_name@
            },
    {
        match self.find_index(emp_id) {
            None => Err(EmsError::NotFound),
            Some(i) => {
                let details = String::from_str("Deleted employee: ").concat(
                    self.employees[i].first_name.as_str(),
                ).concat(" ").concat(self.employees[i].last_name.as_str());
                self.employees.remove(i);
                audit.append(
                    admin_id,
                    Some(emp_id),
                    String::from_str("DELETE_EMPLOYEE"),
                    Some(details),
                    now,
                );
                proof {
                    old(self).lemma_ids_unique();
                    let k = emp_index_of(old(self).employees@, emp_id);
                    assert(0 <= k < old(self).employees@.len() && old(self).employees@[k].emp_id
                        == emp_id);
                    assert(k == i as int);
                    assert(final(audit).entries@.subrange(0, old(audit).entries@.len() as int)
                        =~= old(audit).entries@);
                }
                Ok(())
            },
        }
    }
}

/// A partial update supplying only a status leaves every other stored field
/// unchanged and refreshes `updated_at`.
pub proof fn lemma_status_only_update(pre: Employee, post: Employee, data: EmployeeUpdate, now: i64)
    requires
        is_merged(pre, post, data, now),
        data.first_name is None,
        data.last_name is None,
        data.email is None,
        data.phone is None,
        data.department is None,
        data.designation is None,
        data.joining_date is None,
    ensures
        post.emp_id == pre.emp_id,
        post.first_name == pre.first_name,
        post.last_name == pre.last_name,
        post.email == pre.email,
        post.phone == pre.phone,
        post.department == pre.department,
        post.designation == pre.designation,
        post.joining_date == pre.joining_date,
        post.created_at == pre.created_at,
        post.updated_at == now,
        data.status matches Some(v) ==> post.status == v,
{
}

} // verus!
