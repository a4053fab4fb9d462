//! Domain entities, request shapes, raw row shapes and the uniform response
//! envelope.
//!
//! Entities are mutated only through the component that owns them; ids and
//! timestamps are store-assigned. Raw rows are decoded to entities by pure,
//! hand-written field mappings.

use vstd::prelude::*;
use vstd::string::*;

use crate::dates::Date;

verus! {

/// A registered administrator. Immutable after creation.
pub struct Admin {
    pub admin_id: i32,
    pub email: String,
    pub password_hash: String,
    pub created_at: i64,
}

/// Login request: email and clear-text password.
pub struct AdminLogin {
    pub email: String,
    pub password: String,
}

/// Registration request: email and clear-text password.
pub struct AdminRegister {
    pub email: String,
    pub password: String,
}

/// Successful authentication: a signed bearer token and a message.
pub struct LoginResponse {
    pub token: String,
    pub message: String,
}

/// The identity a signed token carries: subject id, subject email, expiry.
pub struct Claims {
    pub admin_id: i32,
    pub email: String,
    pub exp: usize,
}

/// An employee record.
pub struct Employee {
    pub emp_id: i32,
    pub first_name: String,
    pub last_name: String,
    pub email: Option<String>,
    pub phone: Option<String>,
    pub department: Option<String>,
    pub designation: Option<String>,
    pub joining_date: Option<Date>,
    pub status: String,
    pub created_at: i64,
    pub updated_at: i64,
}

/// Fields for creating an employee; omitted status defaults to "Active".
pub struct EmployeeCreate {
    pub first_name: String,
    pub last_name: String,
    pub email: Option<String>,
    pub phone: Option<String>,
    pub department: Option<String>,
    pub designation: Option<String>,
    pub joining_date: Option<String>,
    pub status: Option<String>,
}

/// A partial update: any omitted field keeps its stored value.
pub struct EmployeeUpdate {
    pub first_name: Option<String>,
    pub last_name: Option<String>,
    pub email: Option<String>,
    pub phone: Option<String>,
    pub department: Option<String>,
    pub designation: Option<String>,
    pub joining_date: Option<String>,
    pub status: Option<String>,
}

/// One employment-history entry; append-only.
pub struct EmploymentHistory {
    pub history_id: i32,
    pub emp_id: i32,
    pub company_name: String,
    pub start_date: Option<Date>,
    pub end_date: Option<Date>,
    pub role: Option<String>,
    pub payslip_pdf_path: Option<String>,
    pub created_at: i64,
}

/// Fields for appending an employment-history entry.
pub struct EmploymentHistoryCreate {
    pub company_name: String,
    pub start_date: Option<String>,
    pub end_date: Option<String>,
    pub role: Option<String>,
}

/// One audit-trail entry; append-only, immutable.
pub struct AuditLog {
    pub log_id: i32,
    pub admin_id: Option<i32>,
    pub emp_id: Option<i32>,
    pub action: String,
    pub details: Option<String>,
    pub timestamp: i64,
}

/// The uniform envelope every operation's outcome is reported through.
pub struct ApiResponse<T> {
    pub status: String,
    pub message: String,
    pub data: Option<T>,
}

impl<T> ApiResponse<T> {
    /// A success envelope carrying a payload.
    pub fn success(message: String, data: T) -> (r: Self)
        ensures
            r.status@ == "success"@,
            r.message == message,
            r.data == Some(data),
    {
        ApiResponse { status: String::from_str("success"), message, data: Some(data) }
    }

    /// An error envelope; never carries a payload.
    pub fn error(message: String) -> (r: Self)
        ensures
            r.status@ == "error"@,
            r.message == message,
            r.data is None,
    {
        ApiResponse { status: String::from_str("error"), message, data: None }
    }
}

/// Clones an optional string, preserving its value.
pub fn clone_opt_string(s: &Option<String>) -> (r: Option<String>)
    ensures
        r == *s,
{
    match s {
        Some(text) => Some(text.clone()),
        None => None,
    }
}

impl Clone for Employee {
    /// A value-preserving copy.
    fn clone(&self) -> (r: Self)
        ensures
            r == *self,
    {
        Employee {
            emp_id: self.emp_id,
            first_name: self.first_name.clone(),
            last_name: self.last_name.clone(),
            email: clone_opt_string(&self.email),
            phone: clone_opt_string(&self.phone),
            department: clone_opt_string(&self.department),
            designation: clone_opt_string(&self.designation),
            joining_date: self.joining_date,
            status: self.status.clone(),
            created_at: self.created_at,
            updated_at: self.updated_at,
        }
    }
}

impl Clone for EmploymentHistory {
    /// A value-preserving copy.
    fn clone(&self) -> (r: Self)
        ensures
            r == *self,
    {
        EmploymentHistory {
            history_id: self.history_id,
            emp_id: self.emp_id,
            company_name: self.company_name.clone(),
            start_date: self.start_date,
            end_date: self.end_date,
            role: clone_opt_string(&self.role),
            payslip_pdf_path: clone_opt_string(&self.payslip_pdf_path),
            created_at: self.created_at,
        }
    }
}

impl Clone for AuditLog {
    /// A value-preserving copy.
    fn clone(&self) -> (r: Self)
        ensures
            r == *self,
    {
        AuditLog {
            log_id: self.log_id,
            admin_id: self.admin_id,
            emp_id: self.emp_id,
            action: self.action.clone(),
            details: clone_opt_string(&self.details),
            timestamp: self.timestamp,
        }
    }
}

/// The raw shape an employee row arrives in from the backing store.
pub struct EmployeeRow {
    pub emp_id: i32,
    pub first_name: String,
    pub last_name: String,
    pub email: Option<String>,
    pub phone: Option<String>,
    pub department: Option<String>,
    pub designation: Option<String>,
    pub joining_date: Option<Date>,
    pub status: String,
    pub created_at: i64,
    pub updated_at: i64,
}

/// Pure row-to-entity mapping for employees: every field carries over.
pub fn employee_from_row(row: EmployeeRow) -> (r: Employee)
    ensures
        r.emp_id == row.emp_id,
        r.first_name == row.first_name,
        r.last_name == row.last_name,
        r.email == row.email,
        r.phone == row.phone,
        r.department == row.department,
        r.designation == row.designation,
        r.joining_date == row.joining_date,
        r.status == row.status,
        r.created_at == row.created_at,
        r.updated_at == row.updated_at,
{
    Employee {
        emp_id: row.emp_id,
        first_name: row.first_name,
        last_name: row.last_name,
        email: row.email,
        phone: row.phone,
        department: row.department,
        designation: row.designation,
        joining_date: row.joining_date,
        status: row.status,
        created_at: row.created_at,
        updated_at: row.updated_at,
    }
}

/// The raw shape a history row arrives in: the store names the role column
/// "position" and keeps no payslip path.
pub struct EmploymentHistoryRow {
    pub history_id: i32,
    pub emp_id: i32,
    pub company_name: String,
    pub start_date: Option<Date>,
    pub end_date: Option<Date>,
    pub position: Option<String>,
    pub created_at: i64,
}

/// Pure row-to-entity mapping for history entries: the stored "position"
/// becomes the entity's role, and the payslip path is always absent.
pub fn history_from_row(row: EmploymentHistoryRow) -> (r: EmploymentHistory)
    ensures
        r.history_id == row.history_id,
        r.emp_id == row.emp_id,
        r.company_name == row.company_name,
        r.start_date == row.start_date,
        r.end_date == row.end_date,
        r.role == row.position,
        r.payslip_pdf_path is None,
        r.created_at == row.created_at,
{
    EmploymentHistory {
        history_id: row.history_id,
        emp_id: row.emp_id,
        company_name: row.company_name,
        start_date: row.start_date,
        end_date: row.end_date,
        role: row.position,
        payslip_pdf_path: None,
        created_at: row.created_at,
    }
}

} // verus!
