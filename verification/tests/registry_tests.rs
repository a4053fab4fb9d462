use ems_core::audit::AuditTrail;
use ems_core::dates::Date;
use ems_core::errors::EmsError;
use ems_core::ledger::HistoryLedger;
use ems_core::models::{
    employee_from_row, history_from_row, EmployeeCreate, EmployeeRow, EmployeeUpdate,
    EmploymentHistoryCreate, EmploymentHistoryRow,
};
use ems_core::registry::EmployeeRegistry;

fn create_fields(first: &str, last: &str) -> EmployeeCreate {
    EmployeeCreate {
        first_name: first.to_string(),
        last_name: last.to_string(),
        email: None,
        phone: None,
        department: None,
        designation: None,
        joining_date: None,
        status: None,
    }
}

fn empty_patch() -> EmployeeUpdate {
    EmployeeUpdate {
        first_name: None,
        last_name: None,
        email: None,
        phone: None,
        department: None,
        designation: None,
        joining_date: None,
        status: None,
    }
}

#[test]
fn create_defaults_status_active_and_equal_timestamps() {
    let mut reg = EmployeeRegistry::new();
    let mut audit = AuditTrail::new();
    let id = reg.create(&create_fields("Ada", "Byron"), 7, 1000, &mut audit);
    assert_eq!(id, 1);
    let e = reg.get(1).unwrap();
    assert_eq!(e.status, "Active");
    assert_eq!(e.created_at, 1000);
    assert_eq!(e.updated_at, 1000);
    assert_eq!(e.first_name, "Ada");
    assert_eq!(e.last_name, "Byron");
    assert!(e.email.is_none());
    assert!(e.joining_date.is_none());
}

#[test]
fn create_keeps_supplied_status_and_parses_joining_date() {
    let mut reg = EmployeeRegistry::new();
    let mut audit = AuditTrail::new();
    let mut fields = create_fields("Grace", "Hopper");
    fields.status = Some("Probation".to_string());
    fields.joining_date = Some("2020-01-15".to_string());
    let id = reg.create(&fields, 7, 1000, &mut audit);
    let e = reg.get(id).unwrap();
    assert_eq!(e.status, "Probation");
    assert_eq!(e.joining_date, Some(Date { year: 2020, month: 1, day: 15 }));
}

#[test]
fn create_silently_drops_malformed_joining_date() {
    let mut reg = EmployeeRegistry::new();
    let mut audit = AuditTrail::new();
    let mut fields = create_fields("Ada", "Byron");
    fields.joining_date = Some("15/01/2020".to_string());
    let id = reg.create(&fields, 7, 1000, &mut audit);
    let e = reg.get(id).unwrap();
    assert!(e.joining_date.is_none());
    let mut fields2 = create_fields("Alan", "Turing");
    fields2.joining_date = Some("2020-13-45".to_string());
    let id2 = reg.create(&fields2, 7, 1000, &mut audit);
    assert!(reg.get(id2).unwrap().joining_date.is_none());
}

#[test]
fn update_status_only_preserves_other_fields_and_advances_updated_at() {
    let mut reg = EmployeeRegistry::new();
    let mut audit = AuditTrail::new();
    let mut fields = create_fields("Grace", "Hopper");
    fields.email = Some("grace@example.com".to_string());
    fields.department = Some("Engineering".to_string());
    fields.joining_date = Some("2019-06-01".to_string());
    let id = reg.create(&fields, 7, 1000, &mut audit);
    let mut patch = empty_patch();
    patch.status = Some("Inactive".to_string());
    reg.update(id, &patch, 7, 2000, &mut audit).unwrap();
    let e = reg.get(id).unwrap();
    assert_eq!(e.status, "Inactive");
    assert_eq!(e.first_name, "Grace");
    assert_eq!(e.last_name, "Hopper");
    assert_eq!(e.email.as_deref(), Some("grace@example.com"));
    assert_eq!(e.department.as_deref(), Some("Engineering"));
    assert_eq!(e.joining_date, Some(Date { year: 2019, month: 6, day: 1 }));
    assert_eq!(e.created_at, 1000);
    assert_eq!(e.updated_at, 2000);
}

#[test]
fn update_nonexistent_returns_notfound_and_logs_nothing() {
    let mut reg = EmployeeRegistry::new();
    let mut audit = AuditTrail::new();
    let r = reg.update(99, &empty_patch(), 7, 1000, &mut audit);
    assert_eq!(r, Err(EmsError::NotFound));
    assert_eq!(audit.entries.len(), 0);
}

#[test]
fn delete_nonexistent_returns_notfound_and_logs_nothing() {
    let mut reg = EmployeeRegistry::new();
    let mut audit = AuditTrail::new();
    reg.create(&create_fields("Ada", "Byron"), 7, 1000, &mut audit);
    let before = audit.entries.len();
    let r = reg.delete(42, 7, 2000, &mut audit);
    assert_eq!(r, Err(EmsError::NotFound));
    assert_eq!(audit.entries.len(), before);
}

#[test]
fn update_merges_each_field_independently() {
    let mut reg = EmployeeRegistry::new();
    let mut audit = AuditTrail::new();
    let mut fields = create_fields("Ada", "Byron");
    fields.phone = Some("123".to_string());
    let id = reg.create(&fields, 7, 1000, &mut audit);
    let mut patch = empty_patch();
    patch.email = Some("ada@example.com".to_string());
    reg.update(id, &patch, 7, 2000, &mut audit).unwrap();
    let e = reg.get(id).unwrap();
    assert_eq!(e.email.as_deref(), Some("ada@example.com"));
    assert_eq!(e.phone.as_deref(), Some("123"));
    assert_eq!(e.first_name, "Ada");
}

#[test]
fn update_malformed_date_keeps_previous_value() {
    let mut reg = EmployeeRegistry::new();
    let mut audit = AuditTrail::new();
    let mut fields = create_fields("Ada", "Byron");
    fields.joining_date = Some("2019-06-01".to_string());
    let id = reg.create(&fields, 7, 1000, &mut audit);
    let mut patch = empty_patch();
    patch.joining_date = Some("not-a-date".to_string());
    reg.update(id, &patch, 7, 2000, &mut audit).unwrap();
    let e = reg.get(id).unwrap();
    assert_eq!(e.joining_date, Some(Date { year: 2019, month: 6, day: 1 }));
}

#[test]
fn omitted_optional_field_is_never_cleared() {
    let mut reg = EmployeeRegistry::new();
    let mut audit = AuditTrail::new();
    let mut fields = create_fields("Ada", "Byron");
    fields.email = Some("ada@example.com".to_string());
    let id = reg.create(&fields, 7, 1000, &mut audit);
    let mut patch = empty_patch();
    patch.first_name = Some("Augusta".to_string());
    reg.update(id, &patch, 7, 2000, &mut audit).unwrap();
    let e = reg.get(id).unwrap();
    assert_eq!(e.email.as_deref(), Some("ada@example.com"));
    assert_eq!(e.first_name, "Augusta");
}

#[test]
fn every_successful_mutation_appends_one_matching_audit_entry() {
    let mut reg = EmployeeRegistry::new();
    let mut audit = AuditTrail::new();
    let id = reg.create(&create_fields("Grace", "Hopper"), 9, 1000, &mut audit);
    assert_eq!(audit.entries.len(), 1);
    assert_eq!(audit.entries[0].action, "CREATE_EMPLOYEE");
    assert_eq!(audit.entries[0].emp_id, Some(id));
    assert_eq!(audit.entries[0].admin_id, Some(9));
    assert_eq!(
        audit.entries[0].details.as_deref(),
        Some("Created employee: Grace Hopper")
    );

    let mut patch = empty_patch();
    patch.status = Some("Inactive".to_string());
    reg.update(id, &patch, 9, 2000, &mut audit).unwrap();
    assert_eq!(audit.entries.len(), 2);
    assert_eq!(audit.entries[1].action, "UPDATE_EMPLOYEE");
    assert_eq!(audit.entries[1].emp_id, Some(id));
    assert_eq!(
        audit.entries[1].details.as_deref(),
        Some("Updated employee ID: 1")
    );

    reg.delete(id, 9, 3000, &mut audit).unwrap();
    assert_eq!(audit.entries.len(), 3);
    assert_eq!(audit.entries[2].action, "DELETE_EMPLOYEE");
    assert_eq!(audit.entries[2].emp_id, Some(id));
    assert_eq!(
        audit.entries[2].details.as_deref(),
        Some("Deleted employee: Grace Hopper")
    );
    assert_eq!(reg.get(id).err(), Some(EmsError::NotFound));
}

#[test]
fn list_is_ascending_by_id_and_reflects_deletion() {
    let mut reg = EmployeeRegistry::new();
    let mut audit = AuditTrail::new();
    let a = reg.create(&create_fields("A", "One"), 7, 1000, &mut audit);
    let b = reg.create(&create_fields("B", "Two"), 7, 1000, &mut audit);
    let c = reg.create(&create_fields("C", "Three"), 7, 1000, &mut audit);
    let ids: Vec<i32> = reg.list().iter().map(|e| e.emp_id).collect();
    assert_eq!(ids, vec![a, b, c]);
    reg.delete(b, 7, 2000, &mut audit).unwrap();
    let ids: Vec<i32> = reg.list().iter().map(|e| e.emp_id).collect();
    assert_eq!(ids, vec![a, c]);
}

#[test]
fn employee_row_decoder_maps_every_field() {
    let row = EmployeeRow {
        emp_id: 4,
        first_name: "Ada".to_string(),
        last_name: "Byron".to_string(),
        email: Some("ada@example.com".to_string()),
        phone: None,
        department: Some("Math".to_string()),
        designation: None,
        joining_date: Some(Date { year: 2019, month: 6, day: 1 }),
        status: "Active".to_string(),
        created_at: 10,
        updated_at: 20,
    };
    let e = employee_from_row(row);
    assert_eq!(e.emp_id, 4);
    assert_eq!(e.email.as_deref(), Some("ada@example.com"));
    assert_eq!(e.department.as_deref(), Some("Math"));
    assert_eq!(e.joining_date, Some(Date { year: 2019, month: 6, day: 1 }));
    assert_eq!(e.created_at, 10);
    assert_eq!(e.updated_at, 20);
}

#[test]
fn history_row_decoder_maps_position_to_role_and_no_payslip_path() {
    let row = EmploymentHistoryRow {
        history_id: 2,
        emp_id: 4,
        company_name: "Acme".to_string(),
        start_date: Some(Date { year: 2018, month: 3, day: 5 }),
        end_date: None,
        position: Some("Engineer".to_string()),
        created_at: 30,
    };
    let h = history_from_row(row);
    assert_eq!(h.history_id, 2);
    assert_eq!(h.role.as_deref(), Some("Engineer"));
    assert!(h.payslip_pdf_path.is_none());
    assert_eq!(h.company_name, "Acme");
}

#[test]
fn history_add_performs_no_employee_existence_check() {
    // The soft reference is deliberate: an entry for an id the registry has
    // never issued is stored and logged all the same.
    let mut ledger = HistoryLedger::new();
    let mut audit = AuditTrail::new();
    let data = EmploymentHistoryCreate {
        company_name: "Acme".to_string(),
        start_date: None,
        end_date: None,
        role: None,
    };
    let hid = ledger.add(42, &data, 7, 1000, &mut audit);
    assert_eq!(hid, 1);
    assert_eq!(ledger.entries.len(), 1);
    assert_eq!(ledger.entries[0].emp_id, 42);
    assert_eq!(audit.entries.len(), 1);
    assert_eq!(audit.entries[0].action, "ADD_EMPLOYMENT_HISTORY");
    assert_eq!(audit.entries[0].emp_id, Some(42));
    assert_eq!(
        audit.entries[0].details.as_deref(),
        Some("Added employment history: Acme")
    );
}

#[test]
fn history_add_drops_malformed_dates() {
    let mut ledger = HistoryLedger::new();
    let mut audit = AuditTrail::new();
    let data = EmploymentHistoryCreate {
        company_name: "Acme".to_string(),
        start_date: Some("bogus".to_string()),
        end_date: Some("2020-02-30".to_string()),
        role: Some("Engineer".to_string()),
    };
    ledger.add(1, &data, 7, 1000, &mut audit);
    assert!(ledger.entries[0].start_date.is_none());
    assert!(ledger.entries[0].end_date.is_none());
    assert_eq!(ledger.entries[0].role.as_deref(), Some("Engineer"));
}

#[test]
fn history_list_orders_by_start_date_descending_with_nulls_first() {
    // Pins the store's native descending null-ordering: absent start dates
    // come before every present one.
    let mut ledger = HistoryLedger::new();
    let mut audit = AuditTrail::new();
    let mk = |company: &str, start: Option<&str>| EmploymentHistoryCreate {
        company_name: company.to_string(),
        start_date: start.map(|s| s.to_string()),
        end_date: None,
        role: None,
    };
    ledger.add(5, &mk("Old", Some("2018-01-01")), 7, 1000, &mut audit);
    ledger.add(5, &mk("Unknown", None), 7, 1000, &mut audit);
    ledger.add(5, &mk("New", Some("2021-05-05")), 7, 1000, &mut audit);
    ledger.add(6, &mk("Other", Some("2030-01-01")), 7, 1000, &mut audit);
    let rows = ledger.list(5);
    let companies: Vec<&str> = rows.iter().map(|h| h.company_name.as_str()).collect();
    assert_eq!(companies, vec!["Unknown", "New", "Old"]);
}
