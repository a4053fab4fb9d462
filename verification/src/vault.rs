//! Payslip document vault: validated file storage on a per-employee
//! directory tree, with collision-resistant generated names.
//!
//! The directory listing is the only source of truth: no relational row
//! links a stored file to anything else. Uploading validates the original
//! filename's extension against a fixed allow-list before any byte is
//! stored, then stores the bytes under a fresh random name. Retrieval scans
//! the directories in order and serves the first file carrying the requested
//! name, with a content type chosen from a fixed extension table.

use vstd::prelude::*;
use vstd::string::*;
use vstd::pervasive::unreached;
use vstd::pervasive::VecAdditionalExecFns;

use crate::audit::{appended_one, AuditTrail};
use crate::errors::EmsError;
use crate::text::{ascii_lower, dec_str_of, eq_ascii_lower, i32_to_string};

verus! {

// ---------------------------------------------------------------------------
// Filename extensions
// ---------------------------------------------------------------------------

/// The greatest index of `c` in `s`, or -1 when `c` does not occur.
pub open spec fn last_pos(s: Seq<char>, c: char) -> int
    decreases s.len(),
{
    if s.len() == 0 {
        -1
    } else if s.last() == c {
        s.len() - 1
    } else {
        last_pos(s.drop_last(), c)
    }
}

/// `last_pos` marks an occurrence with nothing after it, or -1 when there is
/// no occurrence at all.
pub proof fn lemma_last_pos_props(s: Seq<char>, c: char)
    ensures
        last_pos(s, c) >= 0 ==> last_pos(s, c) < s.len() && s[last_pos(s, c)] == c && forall|
            j: int,
        | last_pos(s, c) < j < s.len() ==> s[j] != c,
        last_pos(s, c) == -1 ==> forall|j: int| 0 <= j < s.len() ==> s[j] != c,
        last_pos(s, c) >= -1,
    decreases s.len(),
{
    if s.len() > 0 && s.last() != c {
        lemma_last_pos_props(s.drop_last(), c);
        assert(forall|j: int| 0 <= j < s.len() - 1 ==> s[j] == s.drop_last()[j]);
    }
}

/// An occurrence with nothing after it is exactly what `last_pos` marks.
pub proof fn lemma_last_pos_unique(s: Seq<char>, c: char, k: int)
    requires
        0 <= k < s.len(),
        s[k] == c,
        forall|j: int| k < j < s.len() ==> s[j] != c,
    ensures
        last_pos(s, c) == k,
{
    lemma_last_pos_props(s, c);
}

/// The extension of a filename: the part of its final path component after
/// the component's last dot, absent when the component holds no dot or only
/// a leading one.
pub open spec fn ext_of_spec(name: Seq<char>) -> Option<Seq<char>> {
    let p = last_pos(name, '.');
    if p > last_pos(name, '/') + 1 {
        Some(name.subrange(p + 1, name.len() as int))
    } else {
        None
    }
}

/// The extension used for storage: the filename's extension folded to lower
/// case, or "pdf" when the filename has none.
pub open spec fn effective_ext_spec(name: Seq<char>) -> Seq<char> {
    match ext_of_spec(name) {
        Some(e) => ascii_lower(e),
        None => "pdf"@,
    }
}

/// The fixed allow-list, applied to the already-folded extension.
pub open spec fn ext_allowed(e: Seq<char>) -> bool {
    ||| e == "pdf"@
    ||| e == "xlsx"@
    ||| e == "xls"@
    ||| e == "docx"@
    ||| e == "doc"@
}

/// The content type served for a stored filename, from the fixed extension
/// table; anything unknown is served as an opaque octet stream.
pub open spec fn content_type_spec(name: Seq<char>) -> Seq<char> {
    match ext_of_spec(name) {
        Some(e) => {
            let l = ascii_lower(e);
            if l == "pdf"@ {
                "application/pdf"@
            } else if l == "xlsx"@ {
                "application/vnd.openxmlformats-officedocument.spreadsheetml.sheet"@
            } else if l == "xls"@ {
                "application/vnd.ms-excel"@
            } else if l == "docx"@ {
                "application/vnd.openxmlformats-officedocument.wordprocessingml.document"@
            } else if l == "doc"@ {
                "application/msword"@
            } else {
                "application/octet-stream"@
            }
        },
        None => "application/octet-stream"@,
    }
}

/// The greatest position of `c` in `s`, if any, with nothing after it.
fn find_last(s: &str, c: char) -> (r: Option<usize>)
    ensures
        r matches Some(k) ==> k < s@.len() && s@[k as int] == c && forall|j: int|
            k < j < s@.len() ==> s@[j] != c,
        r is None ==> forall|j: int| 0 <= j < s@.len() ==> s@[j] != c,
{
    let n = s.unicode_len();
    let mut i: usize = n;
    while i > 0
        invariant
            n == s@.len(),
            i <= n,
            forall|j: int| i <= j < n ==> s@[j] != c,
        decreases i,
    {
        i = i - 1;
        if s.get_char(i) == c {
            return Some(i);
        }
    }
    None
}

/// The filename's extension, if it has one.
fn extension_of(name: &str) -> (r: Option<String>)
    ensures
        r matches Some(e) ==> ext_of_spec(name@) == Some(e@),
        r is None ==> ext_of_spec(name@) is None,
{
    let n = name.unicode_len();
    let dot = find_last(name, '.');
    let slash = find_last(name, '/');
    proof {
        lemma_last_pos_props(name@, '.');
        lemma_last_pos_props(name@, '/');
    }
    match dot {
        None => None,
        Some(p) => {
            proof {
                lemma_last_pos_unique(name@, '.', p as int);
            }
            let cs: usize = match slash {
                Some(k) => {
                    proof {
                        lemma_last_pos_unique(name@, '/', k as int);
                    }
                    k + 1
                },
                None => 0,
            };
            if p > cs {
                Some(String::from_str(name.substring_char(p + 1, n)))
            } else {
                None
            }
        },
    }
}

/// Validates the original filename's extension: folds it to lower case,
/// defaults an absent extension to "pdf", and accepts exactly the fixed
/// allow-list, failing before anything is stored otherwise.
fn validated_ext(name: &str) -> (r: Result<String, EmsError>)
    ensures
        r is Ok <==> ext_allowed(effective_ext_spec(name@)),
        r matches Ok(e) ==> e@ == effective_ext_spec(name@),
        r matches Err(err) ==> err == EmsError::BadRequest,
{
    match extension_of(name) {
        None => Ok(String::from_str("pdf")),
        Some(e) => {
            if eq_ascii_lower(e.as_str(), "pdf") {
                Ok(String::from_str("pdf"))
            } else if eq_ascii_lower(e.as_str(), "xlsx") {
                Ok(String::from_str("xlsx"))
            } else if eq_ascii_lower(e.as_str(), "xls") {
                Ok(String::from_str("xls"))
            } else if eq_ascii_lower(e.as_str(), "docx") {
                Ok(String::from_str("docx"))
            } else if eq_ascii_lower(e.as_str(), "doc") {
                Ok(String::from_str("doc"))
            } else {
                Err(EmsError::BadRequest)
            }
        },
    }
}

/// The content type for a stored filename, from the fixed extension table.
pub fn content_type_for(name: &str) -> (r: String)
    ensures
        r@ == content_type_spec(name@),
{
    match extension_of(name) {
        None => String::from_str("application/octet-stream"),
        Some(e) => {
            if eq_ascii_lower(e.as_str(), "pdf") {
                String::from_str("application/pdf")
            } else if eq_ascii_lower(e.as_str(), "xlsx") {
                String::from_str(
                    "application/vnd.openxmlformats-officedocument.spreadsheetml.sheet",
                )
            } else if eq_ascii_lower(e.as_str(), "xls") {
                String::from_str("application/vnd.ms-excel")
            } else if eq_ascii_lower(e.as_str(), "docx") {
                String::from_str(
                    "application/vnd.openxmlformats-officedocument.wordprocessingml.document",
                )
            } else if eq_ascii_lower(e.as_str(), "doc") {
                String::from_str("application/msword")
            } else {
                String::from_str("application/octet-stream")
            }
        },
    }
}

// ---------------------------------------------------------------------------
// Fresh names
// ---------------------------------------------------------------------------

/// Characters the random name stem is drawn from.
pub open spec fn is_stem_char(c: char) -> bool {
    c == '-' || '0' <= c <= '9' || 'a' <= c <= 'f'
}

/// Relies on `uuid::Uuid::new_v4` and its `Display` form: the hyphenated
/// rendering is always 36 characters of lower-case hexadecimal digits and
/// hyphens. The value is random, so nothing relates two calls. The call
/// aborts the process should the operating system's randomness source
/// fail — a condition independent of any input, like memory exhaustion.
#[verifier::external_body]
fn fresh_name_stem() -> (r: String)
    ensures
        r@.len() == 36,
        forall|i: int| 0 <= i < r@.len() ==> is_stem_char(r@[i]),
{
    uuid::Uuid::new_v4().to_string()
}

// ---------------------------------------------------------------------------
// The vault
// ---------------------------------------------------------------------------

/// One stored document: its generated name and its bytes.
pub struct StoredFile {
    pub name: String,
    pub data: Vec<u8>,
}

/// One employee's directory.
pub struct EmployeeDir {
    pub emp_id: i32,
    pub files: Vec<StoredFile>,
}

/// One part of an uploaded form: its field name, the client's original
/// filename if any, and its bytes.
pub struct FilePart {
    pub name: String,
    pub filename: Option<String>,
    pub data: Vec<u8>,
}

/// What a successful upload reports: the generated filename, the storage
/// path it was written under, and the byte count.
pub struct UploadReceipt {
    pub filename: String,
    pub stored_path: String,
    pub size: usize,
}

/// One row of a directory listing: name, size, and a relative access path.
pub struct PayslipInfo {
    pub filename: String,
    pub size: usize,
    pub path: String,
}

/// A part that an upload meaningfully consumes: named "file", with an
/// original filename attached.
pub open spec fn is_file_part(p: FilePart) -> bool {
    p.name@ == "file"@ && p.filename is Some
}

/// Some part is meaningfully consumable.
pub open spec fn has_file_part(parts: Seq<FilePart>) -> bool {
    exists|i: int| 0 <= i < parts.len() && is_file_part(parts[i])
}

/// Position `i` holds the first consumable part.
pub open spec fn is_first_file_part_at(parts: Seq<FilePart>, i: int) -> bool {
    &&& 0 <= i < parts.len()
    &&& is_file_part(parts[i])
    &&& forall|j: int| 0 <= j < i ==> !is_file_part(#[trigger] parts[j])
}

/// The first consumable part; meaningful only under `has_file_part`.
pub open spec fn first_file_part(parts: Seq<FilePart>) -> FilePart {
    parts[choose|i: int| is_first_file_part_at(parts, i)]
}

/// A directory holds a file of this name.
pub open spec fn dir_has_file(d: EmployeeDir, name: Seq<char>) -> bool {
    exists|j: int| 0 <= j < d.files@.len() && d.files@[j].name@ == name
}

/// Some directory holds a file of this name.
pub open spec fn vault_has_file(dirs: Seq<EmployeeDir>, name: Seq<char>) -> bool {
    exists|i: int| 0 <= i < dirs.len() && dir_has_file(#[trigger] dirs[i], name)
}

/// Directory `i` is the first holding the name.
pub open spec fn is_first_match_dir(dirs: Seq<EmployeeDir>, name: Seq<char>, i: int) -> bool {
    &&& 0 <= i < dirs.len()
    &&& dir_has_file(dirs[i], name)
    &&& forall|k: int| 0 <= k < i ==> !dir_has_file(#[trigger] dirs[k], name)
}

/// Position `j` holds the first file of this name in the file list.
pub open spec fn is_first_file_at(files: Seq<StoredFile>, name: Seq<char>, j: int) -> bool {
    &&& 0 <= j < files.len()
    &&& files[j].name@ == name
    &&& forall|l: int| 0 <= l < j ==> (#[trigger] files[l].name@) != name
}

/// The bytes retrieval serves for a name: the first matching file of the
/// first directory holding the name. Meaningful only under
/// `vault_has_file`.
pub open spec fn retrieved_data(dirs: Seq<EmployeeDir>, name: Seq<char>) -> Seq<u8> {
    let i = choose|i: int| is_first_match_dir(dirs, name, i);
    let j = choose|j: int| is_first_file_at(dirs[i].files@, name, j);
    dirs[i].files@[j].data@
}

/// Some directory belongs to this employee.
pub open spec fn has_dir(dirs: Seq<EmployeeDir>, emp_id: i32) -> bool {
    exists|i: int| 0 <= i < dirs.len() && (#[trigger] dirs[i]).emp_id == emp_id
}

/// The position of this employee's directory; meaningful only under
/// `has_dir` and a well-formed vault, where the id is unique.
pub open spec fn dir_index_of(dirs: Seq<EmployeeDir>, emp_id: i32) -> int {
    choose|i: int| 0 <= i < dirs.len() && (#[trigger] dirs[i]).emp_id == emp_id
}

/// The position of the first part an upload consumes, or nothing.
fn find_file_part(parts: &Vec<FilePart>) -> (r: Option<usize>)
    ensures
        r matches Some(i) ==> is_first_file_part_at(parts@, i as int),
        r is None ==> !has_file_part(parts@),
{
    let file_marker = String::from_str("file");
    let n = parts.len();
    let mut i: usize = 0;
    while i < n
        invariant
            n == parts@.len(),
            i <= n,
            forall|j: int| 0 <= j < i ==> !is_file_part(#[trigger] parts@[j]),
            file_marker@ == "file"@,
        decreases n - i,
    {
        if parts[i].name.eq(&file_marker) {
            if parts[i].filename.is_some() {
                return Some(i);
            }
        }
        i += 1;
    }
    None
}

/// The validated file-storage tree, one directory per employee.
pub struct PayslipVault {
    pub dirs: Vec<EmployeeDir>,
}

impl PayslipVault {
    /// Every employee owns at most one directory.
    pub open spec fn wf(self) -> bool {
        forall|i: int, j: int|
            #![trigger self.dirs@[i].emp_id, self.dirs@[j].emp_id]
            0 <= i < j < self.dirs@.len() ==> self.dirs@[i].emp_id != self.dirs@[j].emp_id
    }

    /// This employee's stored files, oldest first; empty when the directory
    /// is absent.
    pub open spec fn files_of(self, emp_id: i32) -> Seq<StoredFile> {
        if has_dir(self.dirs@, emp_id) {
            self.dirs@[dir_index_of(self.dirs@, emp_id)].files@
        } else {
            Seq::empty()
        }
    }

    /// An empty vault.
    pub fn new() -> (r: PayslipVault)
        ensures
            r.wf(),
            r.dirs@.len() == 0,
    {
        PayslipVault { dirs: Vec::new() }
    }

    /// The position of this employee's directory, or nothing.
    fn find_dir(&self, emp_id: i32) -> (r: Option<usize>)
        ensures
            r matches Some(i) ==> i < self.dirs@.len() && self.dirs@[i as int].emp_id == emp_id,
            r is None ==> !has_dir(self.dirs@, emp_id),
    {
        let n = self.dirs.len();
        let mut i: usize = 0;
        while i < n
            invariant
                n == self.dirs@.len(),
                i <= n,
                forall|j: int| 0 <= j < i ==> (#[trigger] self.dirs@[j]).emp_id != emp_id,
            decreases n - i,
        {
            if self.dirs[i].emp_id == emp_id {
                return Some(i);
            }
            i += 1;
        }
        None
    }

    /// In a well-formed vault, a directory's position determines
    /// `dir_index_of` and `files_of` for its id.
    proof fn lemma_dir_at(self, emp_id: i32, k: int)
        requires
            self.wf(),
            0 <= k < self.dirs@.len(),
            self.dirs@[k].emp_id == emp_id,
        ensures
            has_dir(self.dirs@, emp_id),
            dir_index_of(self.dirs@, emp_id) == k,
            self.files_of(emp_id) == self.dirs@[k].files@,
    {
        assert(has_dir(self.dirs@, emp_id));
        let c = dir_index_of(self.dirs@, emp_id);
        assert(0 <= c < self.dirs@.len() && self.dirs@[c].emp_id == emp_id);
        if c != k {
            assert(self.dirs@[c].emp_id != self.dirs@[k].emp_id);
        }
    }

    /// Stores the first "file" part under a fresh random name in this
    /// employee's directory and appends one UPLOAD audit entry. The
    /// directory is created first, idempotently, even when the upload is
    /// then rejected. A disallowed extension or an absent file part is
    /// rejected before any bytes are stored, leaving every file list
    /// unchanged. A stored name is the 36-character random stem, a dot, and
    /// the folded extension, so repeated uploads of one original name get
    /// distinct stored names whenever their stems differ.
    pub fn upload(
        &mut self,
        emp_id: i32,
        parts: &Vec<FilePart>,
        admin_id: i32,
        now: i64,
        audit: &mut AuditTrail,
    ) -> (r: Result<UploadReceipt, EmsError>)
        requires
            old(self).wf(),
            old(audit).wf(),
            old(audit).entries@.len() + 1 < i32::MAX,
        ensures
            final(self).wf(),
            final(audit).wf(),
            has_dir(final(self).dirs@, emp_id),
            forall|other: i32| other != emp_id ==> final(self).files_of(other) == old(
                self,
            ).files_of(other),
            !has_file_part(parts@) ==> r == Err::<UploadReceipt, EmsError>(EmsError::BadRequest)
                && final(self).files_of(emp_id) == old(self).files_of(emp_id) && *final(audit)
                == *old(audit),
            has_file_part(parts@) && !ext_allowed(
                effective_ext_spec(first_file_part(parts@).filename.unwrap()@),
            ) ==> r == Err::<UploadReceipt, EmsError>(EmsError::BadRequest)
                && final(self).files_of(emp_id) == old(self).files_of(emp_id) && *final(audit)
                == *old(audit),
            has_file_part(parts@) && ext_allowed(
                effective_ext_spec(first_file_part(parts@).filename.unwrap()@),
            ) ==> {
                let part = first_file_part(parts@);
                let ext = effective_ext_spec(part.filename.unwrap()@);
                &&& r is Ok
                &&& {
                    let receipt = r.unwrap();
                    &&& receipt.filename@.len() == 37 + ext.len()
                    &&& receipt.filename@.subrange(36, receipt.filename@.len() as int) == "."@
                        + ext
                    &&& forall|i: int| 0 <= i < 36 ==> is_stem_char(#[trigger] receipt.filename@[i])
                    &&& receipt.size == part.data@.len()
                    &&& receipt.stored_path@ == "./uploads/payslips/"@ + dec_str_of(emp_id as int)
                        + "/"@ + receipt.filename@
                    &&& final(self).files_of(emp_id).len() == old(self).files_of(emp_id).len() + 1
                    &&& final(self).files_of(emp_id).drop_last() == old(self).files_of(emp_id)
                    &&& final(self).files_of(emp_id).last().name == receipt.filename
                    &&& final(self).files_of(emp_id).last().data@ == part.data@
                    &&& appended_one(
                        *old(audit),
                        *final(audit),
                        admin_id,
                        Some(emp_id),
                        "UPLOAD_PAYSLIP"@,
                        now,
                    )
                    &&& final(audit).entries@.last().details matches Some(d) && d@
                        == "Uploaded payslip: "@ + receipt.filename@
                }
            },
    {
        // The employee's directory is ensured first, as the storage
        // discipline prescribes, before any validation can reject.
        let di: usize = match self.find_dir(emp_id) {
            Some(i) => i,
            None => {
                self.dirs.push(EmployeeDir { emp_id, files: Vec::new() });
                self.dirs.len() - 1
            },
        };
        proof {
            self.lemma_dir_at(emp_id, di as int);
            assert forall|other: i32| other != emp_id implies self.files_of(other) == old(
                self,
            ).files_of(other) by {
                lemma_files_frame(*old(self), *self, di as int, emp_id, other);
            }
            assert(self.files_of(emp_id) =~= old(self).files_of(emp_id));
        }
        let ghost mid = *self;

        let fi: usize = match find_file_part(parts) {
            Some(k) => k,
            None => {
                return Err(EmsError::BadRequest);
            },
        };
        proof {
            let c = choose|k: int| is_first_file_part_at(parts@, k);
            assert(is_first_file_part_at(parts@, c));
            if c != fi as int {
                if c < fi as int {
                    assert(is_file_part(parts@[c]));
                } else {
                    assert(is_file_part(parts@[fi as int]));
                }
            }
            assert(first_file_part(parts@) == parts@[fi as int]);
        }
        let original: &String = match &parts[fi].filename {
            Some(f) => f,
            None => unreached(),
        };
        let ext = match validated_ext(original.as_str()) {
            Ok(e) => e,
            Err(err) => {
                return Err(err);
            },
        };

        let stem = fresh_name_stem();
        let ghost stem_view = stem@;
        let filename = stem.concat(".").concat(ext.as_str());
        proof {
            reveal_strlit(".");
            assert(filename@.subrange(36, filename@.len() as int) =~= "."@
                + effective_ext_spec(first_file_part(parts@).filename.unwrap()@));
            assert forall|i: int| 0 <= i < 36 implies is_stem_char(filename@[i]) by {
                assert(filename@[i] == stem_view[i]);
            }
        }
        let stored_path = String::from_str("./uploads/payslips/").concat(
            i32_to_string(emp_id).as_str(),
        ).concat("/").concat(filename.as_str());
        let size = parts[fi].data.len();

        let stored_name = filename.clone();
        let data = parts[fi].data.clone();
        proof {
            assert(data@ =~= parts@[fi as int].data@);
        }
        let mut dir = self.dirs.remove(di);
        dir.files.push(StoredFile { name: stored_name, data });
        self.dirs.insert(di, dir);
        proof {
            assert(self.dirs@.len() == mid.dirs@.len());
            assert(forall|k: int|
                0 <= k < mid.dirs@.len() && k != di as int ==> self.dirs@[k] == #[trigger] mid.dirs@[k]);
            self.lemma_dir_at(emp_id, di as int);
            mid.lemma_dir_at(emp_id, di as int);
            assert(self.files_of(emp_id).drop_last() =~= mid.files_of(emp_id));
            assert forall|other: i32| other != emp_id implies self.files_of(other)
                == mid.files_of(other) by {
                lemma_files_frame(mid, *self, di as int, emp_id, other);
            }
        }

        let details = String::from_str("Uploaded payslip: ").concat(filename.as_str());
        audit.append(
            admin_id,
            Some(emp_id),
            String::from_str("UPLOAD_PAYSLIP"),
            Some(details),
            now,
        );
        proof {
            assert(audit.entries@.subrange(0, old(audit).entries@.len() as int)
                =~= old(audit).entries@);
        }
        Ok(UploadReceipt { filename, stored_path, size })
    }

    /// The bytes and content type of the first stored file carrying this
    /// name, scanning one level of directories in order, or `NotFound`.
    pub fn retrieve(&self, filename: &str) -> (r: Result<(Vec<u8>, String), EmsError>)
        ensures
            r is Ok <==> vault_has_file(self.dirs@, filename@),
            r matches Ok(pair) ==> pair.0@ == retrieved_data(self.dirs@, filename@) && pair.1@
                == content_type_spec(filename@),
            r matches Err(err) ==> err == EmsError::NotFound,
    {
        let n = self.dirs.len();
        let mut i: usize = 0;
        while i < n
            invariant
                n == self.dirs@.len(),
                i <= n,
                forall|k: int| 0 <= k < i ==> !dir_has_file(#[trigger] self.dirs@[k], filename@),
            decreases n - i,
        {
            let m = self.dirs[i].files.len();
            let mut j: usize = 0;
            while j < m
                invariant
                    i < n,
                    n == self.dirs@.len(),
                    m == self.dirs@[i as int].files@.len(),
                    j <= m,
                    forall|k: int| 0 <= k < i ==> !dir_has_file(#[trigger] self.dirs@[k], filename@),
                    forall|l: int|
                        0 <= l < j ==> (#[trigger] self.dirs@[i as int].files@[l].name@)
                            != filename@,
                decreases m - j,
            {
                if compare_name(&self.dirs[i].files[j].name, filename) {
                    let data = self.dirs[i].files[j].data.clone();
                    let ctype = content_type_for(filename);
                    proof {
                        let dirs = self.dirs@;
                        assert(data@ =~= dirs[i as int].files@[j as int].data@);
                        assert(dirs[i as int].files@[j as int].name@ == filename@);
                        assert(dir_has_file(dirs[i as int], filename@));
                        assert(is_first_match_dir(dirs, filename@, i as int));
                        assert(is_first_file_at(dirs[i as int].files@, filename@, j as int));
                        let ci = choose|k: int| is_first_match_dir(dirs, filename@, k);
                        assert(is_first_match_dir(dirs, filename@, ci));
                        if ci != i as int {
                            if ci < i as int {
                                assert(dir_has_file(dirs[ci], filename@));
                            } else {
                                assert(dir_has_file(dirs[i as int], filename@));
                            }
                        }
                        let cj = choose|l: int| is_first_file_at(dirs[i as int].files@, filename@, l);
                        assert(is_first_file_at(dirs[i as int].files@, filename@, cj));
                        if cj != j as int {
                            if cj < j as int {
                                assert(dirs[i as int].files@[cj].name@ == filename@);
                            } else {
                                assert(dirs[i as int].files@[j as int].name@ == filename@);
                            }
                        }
                        assert(data@ == retrieved_data(dirs, filename@));
                    }
                    return Ok((data, ctype));
                }
                j += 1;
            }
            i += 1;
        }
        Err(EmsError::NotFound)
    }

    /// This employee's stored files: name, size and a relative access path
    /// for each, in storage order. An absent directory yields an empty
    /// list, not an error.
    pub fn list(&self, emp_id: i32) -> (r: Vec<PayslipInfo>)
        requires
            self.wf(),
        ensures
            r@.len() == self.files_of(emp_id).len(),
            forall|i: int|
                0 <= i < r@.len() ==> (#[trigger] r@[i]).filename == self.files_of(emp_id)[i].name
                    && r@[i].size == self.files_of(emp_id)[i].data@.len() && r@[i].path@
                    == "/payslip/"@ + self.files_of(emp_id)[i].name@,
    {
        let mut out: Vec<PayslipInfo> = Vec::new();
        let di: usize = match self.find_dir(emp_id) {
            Some(i) => i,
            None => {
                return out;
            },
        };
        proof {
            self.lemma_dir_at(emp_id, di as int);
        }
        let m = self.dirs[di].files.len();
        let mut j: usize = 0;
        while j < m
            invariant
                di < self.dirs@.len(),
                m == self.dirs@[di as int].files@.len(),
                self.dirs@[di as int].files@ == self.files_of(emp_id),
                j <= m,
                out@.len() == j,
                forall|i: int|
                    0 <= i < j ==> (#[trigger] out@[i]).filename == self.files_of(emp_id)[i].name
                        && out@[i].size == self.files_of(emp_id)[i].data@.len() && out@[i].path@
                        == "/payslip/"@ + self.files_of(emp_id)[i].name@,
            decreases m - j,
        {
            let f = &self.dirs[di].files[j];
            let info = PayslipInfo {
                filename: f.name.clone(),
                size: f.data.len(),
                path: String::from_str("/payslip/").concat(f.name.as_str()),
            };
            out.push(info);
            j += 1;
        }
        out
    }
}

/// Replacing or appending one directory leaves every other employee's file
/// list as it was.
proof fn lemma_files_frame(
    pre: PayslipVault,
    post: PayslipVault,
    di: int,
    emp_id: i32,
    other: i32,
)
    requires
        pre.wf(),
        post.wf(),
        other != emp_id,
        0 <= di < post.dirs@.len(),
        post.dirs@[di].emp_id == emp_id,
        pre.dirs@.len() == post.dirs@.len() || (pre.dirs@.len() + 1 == post.dirs@.len() && di
            == pre.dirs@.len()),
        di < pre.dirs@.len() ==> pre.dirs@[di].emp_id == emp_id,
        forall|k: int|
            0 <= k < pre.dirs@.len() && k != di ==> post.dirs@[k] == #[trigger] pre.dirs@[k],
    ensures
        post.files_of(other) == pre.files_of(other),
{
    if has_dir(pre.dirs@, other) {
        let k = dir_index_of(pre.dirs@, other);
        assert(0 <= k < pre.dirs@.len() && pre.dirs@[k].emp_id == other);
        assert(k != di);
        assert(post.dirs@[k] == pre.dirs@[k]);
        post.lemma_dir_at(other, k);
        pre.lemma_dir_at(other, k);
    } else {
        if has_dir(post.dirs@, other) {
            let k = dir_index_of(post.dirs@, other);
            assert(0 <= k < post.dirs@.len() && post.dirs@[k].emp_id == other);
            assert(k != di);
            if k < pre.dirs@.len() {
                assert(pre.dirs@[k].emp_id == other);
                assert(has_dir(pre.dirs@, other));
            }
            assert(false);
        }
        assert(!has_dir(post.dirs@, other));
    }
}

/// Compares a stored name to a requested one.
fn compare_name(stored: &String, requested: &str) -> (r: bool)
    ensures
        r == (stored@ == requested@),
{
    let m = stored.as_str().unicode_len();
    let n = requested.unicode_len();
    if m != n {
        return false;
    }
    let mut i: usize = 0;
    while i < n
        invariant
            m == stored@.len(),
            n == requested@.len(),
            m == n,
            i <= n,
            forall|j: int| 0 <= j < i ==> stored@[j] == requested@[j],
        decreases n - i,
    {
        if stored.as_str().get_char(i) != requested.get_char(i) {
            return false;
        }
        i += 1;
    }
    proof {
        assert(stored@ =~= requested@);
    }
    true
}

/// A stored file whose name occurs nowhere else in the vault is exactly
/// what retrieval serves for that name. So after two uploads whose
/// generated names differ, each file is independently retrievable under
/// its own name.
pub proof fn lemma_unique_name_retrieves(
    dirs: Seq<EmployeeDir>,
    name: Seq<char>,
    i: int,
    j: int,
)
    requires
        0 <= i < dirs.len(),
        0 <= j < dirs[i].files@.len(),
        dirs[i].files@[j].name@ == name,
        forall|a: int, b: int|
            #![trigger dirs[a].files@[b]]
            0 <= a < dirs.len() && 0 <= b < dirs[a].files@.len() && (a != i || b != j)
                ==> dirs[a].files@[b].name@ != name,
    ensures
        vault_has_file(dirs, name),
        retrieved_data(dirs, name) == dirs[i].files@[j].data@,
{
    assert(dir_has_file(dirs[i], name));
    assert forall|k: int| 0 <= k < dirs.len() && k != i implies !dir_has_file(
        dirs[k],
        name,
    ) by {
        if dir_has_file(dirs[k], name) {
            let b = choose|b: int|
                0 <= b < dirs[k].files@.len() && dirs[k].files@[b].name@ == name;
            assert(dirs[k].files@[b].name@ != name);
        }
    }
    assert(is_first_match_dir(dirs, name, i));
    let ci = choose|k: int| is_first_match_dir(dirs, name, k);
    assert(is_first_match_dir(dirs, name, ci));
    if ci != i {
        assert(dir_has_file(dirs[ci], name));
    }
    assert forall|l: int| 0 <= l < dirs[i].files@.len() && l != j implies dirs[i].files@[l].name@
        != name by {
        assert(dirs[i].files@[l].name@ != name);
    }
    assert(is_first_file_at(dirs[i].files@, name, j));
    let cj = choose|l: int| is_first_file_at(dirs[i].files@, name, l);
    assert(is_first_file_at(dirs[i].files@, name, cj));
    if cj != j {
        assert(dirs[i].files@[cj].name@ != name);
    }
}

/// When two stored names differ, storing both leaves both present: the
/// second upload can never shadow or overwrite the first.
pub proof fn lemma_distinct_names_both_stored(
    files: Seq<StoredFile>,
    f1: StoredFile,
    f2: StoredFile,
)
    requires
        f1.name@ != f2.name@,
    ensures
        files.push(f1).push(f2).len() == files.len() + 2,
        exists|j: int|
            0 <= j < files.push(f1).push(f2).len() && (#[trigger] files.push(f1).push(f2)[j]).name@
                == f1.name@,
        exists|j: int|
            0 <= j < files.push(f1).push(f2).len() && (#[trigger] files.push(f1).push(f2)[j]).name@
                == f2.name@,
{
    let after = files.push(f1).push(f2);
    assert(after[files.len() as int].name@ == f1.name@);
    assert(after[files.len() as int + 1].name@ == f2.name@);
}

} // verus!
