use ems_core::audit::AuditTrail;
use ems_core::errors::EmsError;
use ems_core::vault::{content_type_for, FilePart, PayslipVault};

fn part(name: &str, filename: Option<&str>, data: &[u8]) -> FilePart {
    FilePart {
        name: name.to_string(),
        filename: filename.map(|f| f.to_string()),
        data: data.to_vec(),
    }
}

#[test]
fn upload_exe_is_rejected_and_stores_nothing() {
    let mut vault = PayslipVault::new();
    let mut audit = AuditTrail::new();
    let parts = vec![part("file", Some("virus.exe"), &[1, 2, 3])];
    let r = vault.upload(9, &parts, 7, 1000, &mut audit);
    assert_eq!(r.err(), Some(EmsError::BadRequest));
    assert_eq!(vault.list(9).len(), 0);
    assert_eq!(audit.entries.len(), 0);
}

#[test]
fn upload_without_file_part_is_rejected() {
    let mut vault = PayslipVault::new();
    let mut audit = AuditTrail::new();
    let parts = vec![part("attachment", Some("a.pdf"), &[1])];
    let r = vault.upload(9, &parts, 7, 1000, &mut audit);
    assert_eq!(r.err(), Some(EmsError::BadRequest));
    assert_eq!(audit.entries.len(), 0);
}

#[test]
fn upload_consumes_only_the_first_file_part() {
    let mut vault = PayslipVault::new();
    let mut audit = AuditTrail::new();
    let parts = vec![
        part("file", Some("a.pdf"), &[1, 1, 1]),
        part("file", Some("b.xlsx"), &[2, 2]),
    ];
    let receipt = vault.upload(9, &parts, 7, 1000, &mut audit).unwrap();
    assert!(receipt.filename.ends_with(".pdf"));
    assert_eq!(receipt.size, 3);
    assert_eq!(vault.list(9).len(), 1);
}

#[test]
fn two_uploads_with_identical_original_names_stay_distinct() {
    let mut vault = PayslipVault::new();
    let mut audit = AuditTrail::new();
    let first = vault
        .upload(5, &vec![part("file", Some("payslip.pdf"), &[1, 2, 3])], 7, 1000, &mut audit)
        .unwrap();
    let second = vault
        .upload(5, &vec![part("file", Some("payslip.pdf"), &[4, 5, 6])], 7, 2000, &mut audit)
        .unwrap();
    assert_ne!(first.filename, second.filename);

    let (bytes1, _) = vault.retrieve(&first.filename).unwrap();
    let (bytes2, _) = vault.retrieve(&second.filename).unwrap();
    assert_eq!(bytes1, vec![1, 2, 3]);
    assert_eq!(bytes2, vec![4, 5, 6]);

    let listed = vault.list(5);
    assert_eq!(listed.len(), 2);
    let names: Vec<&str> = listed.iter().map(|p| p.filename.as_str()).collect();
    assert!(names.contains(&first.filename.as_str()));
    assert!(names.contains(&second.filename.as_str()));
}

#[test]
fn upload_defaults_missing_extension_to_pdf() {
    let mut vault = PayslipVault::new();
    let mut audit = AuditTrail::new();
    let receipt = vault
        .upload(3, &vec![part("file", Some("README"), &[9])], 7, 1000, &mut audit)
        .unwrap();
    assert!(receipt.filename.ends_with(".pdf"));
    let (_, ctype) = vault.retrieve(&receipt.filename).unwrap();
    assert_eq!(ctype, "application/pdf");
}

#[test]
fn upload_folds_extension_case() {
    let mut vault = PayslipVault::new();
    let mut audit = AuditTrail::new();
    let receipt = vault
        .upload(3, &vec![part("file", Some("REPORT.PDF"), &[9])], 7, 1000, &mut audit)
        .unwrap();
    assert!(receipt.filename.ends_with(".pdf"));
}

#[test]
fn upload_with_trailing_dot_is_rejected() {
    let mut vault = PayslipVault::new();
    let mut audit = AuditTrail::new();
    let r = vault.upload(3, &vec![part("file", Some("strange."), &[9])], 7, 1000, &mut audit);
    assert_eq!(r.err(), Some(EmsError::BadRequest));
}

#[test]
fn all_allowed_extensions_upload_with_their_content_types() {
    let cases = [
        ("a.pdf", "application/pdf"),
        ("a.xlsx", "application/vnd.openxmlformats-officedocument.spreadsheetml.sheet"),
        ("a.xls", "application/vnd.ms-excel"),
        ("a.docx", "application/vnd.openxmlformats-officedocument.wordprocessingml.document"),
        ("a.doc", "application/msword"),
    ];
    for (original, expected_type) in cases {
        let mut vault = PayslipVault::new();
        let mut audit = AuditTrail::new();
        let receipt = vault
            .upload(1, &vec![part("file", Some(original), &[1])], 7, 1000, &mut audit)
            .unwrap();
        let (_, ctype) = vault.retrieve(&receipt.filename).unwrap();
        assert_eq!(ctype, expected_type);
    }
}

#[test]
fn content_type_defaults_to_octet_stream() {
    assert_eq!(content_type_for("odd.bin"), "application/octet-stream");
    assert_eq!(content_type_for("noext"), "application/octet-stream");
}

#[test]
fn retrieve_missing_file_is_notfound() {
    let vault = PayslipVault::new();
    assert_eq!(vault.retrieve("nope.pdf").err(), Some(EmsError::NotFound));
}

#[test]
fn list_of_absent_directory_is_empty() {
    let vault = PayslipVault::new();
    assert!(vault.list(77).is_empty());
}

#[test]
fn upload_receipt_reports_name_path_and_size() {
    let mut vault = PayslipVault::new();
    let mut audit = AuditTrail::new();
    let receipt = vault
        .upload(5, &vec![part("file", Some("x.doc"), &[1, 2, 3, 4])], 7, 1000, &mut audit)
        .unwrap();
    assert_eq!(receipt.size, 4);
    assert_eq!(receipt.filename.len(), 36 + 1 + 3);
    assert_eq!(
        receipt.stored_path,
        format!("./uploads/payslips/5/{}", receipt.filename)
    );
    let listed = vault.list(5);
    assert_eq!(listed[0].filename, receipt.filename);
    assert_eq!(listed[0].size, 4);
    assert_eq!(listed[0].path, format!("/payslip/{}", receipt.filename));
}

#[test]
fn upload_appends_one_matching_audit_entry() {
    let mut vault = PayslipVault::new();
    let mut audit = AuditTrail::new();
    let receipt = vault
        .upload(5, &vec![part("file", Some("x.pdf"), &[1])], 11, 1000, &mut audit)
        .unwrap();
    assert_eq!(audit.entries.len(), 1);
    assert_eq!(audit.entries[0].action, "UPLOAD_PAYSLIP");
    assert_eq!(audit.entries[0].admin_id, Some(11));
    assert_eq!(audit.entries[0].emp_id, Some(5));
    assert_eq!(
        audit.entries[0].details.as_deref(),
        Some(format!("Uploaded payslip: {}", receipt.filename).as_str())
    );
}

#[test]
fn uploads_for_different_employees_stay_in_their_directories() {
    let mut vault = PayslipVault::new();
    let mut audit = AuditTrail::new();
    let a = vault
        .upload(1, &vec![part("file", Some("a.pdf"), &[1])], 7, 1000, &mut audit)
        .unwrap();
    let b = vault
        .upload(2, &vec![part("file", Some("b.pdf"), &[2])], 7, 1000, &mut audit)
        .unwrap();
    assert_eq!(vault.list(1).len(), 1);
    assert_eq!(vault.list(2).len(), 1);
    assert_eq!(vault.list(1)[0].filename, a.filename);
    assert_eq!(vault.list(2)[0].filename, b.filename);
}
