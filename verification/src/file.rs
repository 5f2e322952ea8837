//! Rows: one filesystem entry each, with the metadata snapshot taken at
//! enumeration time and the typed column values derived from it.

use vstd::prelude::*;

use crate::column::{col_rank, opt_str_eq, opt_str_eqv, FileColumn};
use crate::error::CoreError;

verus! {

/// The kind of a filesystem entry.
#[derive(Debug, Clone, Copy, PartialEq, Eq, Hash, Structural)]
pub enum FileType {
    File,
    Dir,
}

impl FileType {
    /// The rendered name of the kind.
    pub fn as_text(&self) -> (r: String)
        ensures
            r@ == match *self {
                FileType::File => "file"@,
                FileType::Dir => "directory"@,
            },
    {
        match self {
            FileType::File => String::from_str("file"),
            FileType::Dir => String::from_str("directory"),
        }
    }
}

/// The index of the last `.` in a name, or `-1` when there is none.
pub open spec fn last_dot(s: Seq<char>) -> int
    decreases s.len(),
{
    if s.len() == 0 {
        -1
    } else if s.last() == '.' {
        s.len() - 1
    } else {
        last_dot(s.drop_last())
    }
}

/// The extension of a name: the characters after the last `.`, or
/// nothing when the name holds no `.` at all.
pub open spec fn ext_spec(s: Seq<char>) -> Option<Seq<char>> {
    if last_dot(s) < 0 {
        None
    } else {
        Some(s.skip(last_dot(s) + 1))
    }
}

/// When no character at or after position `i` is a dot, the last dot of
/// the whole name is the last dot of the prefix before `i`.
proof fn lemma_last_dot_prefix(s: Seq<char>, i: int)
    requires
        0 <= i <= s.len(),
        forall|j: int| i <= j < s.len() ==> s[j] != '.',
    ensures
        last_dot(s) == last_dot(s.take(i)),
    decreases s.len() - i,
{
    if i == s.len() {
        assert(s.take(i) =~= s);
    } else {
        lemma_last_dot_prefix(s, i + 1);
        assert(s.take(i + 1).last() == s[i]);
        assert(s.take(i + 1).drop_last() =~= s.take(i));
    }
}

/// Derives the extension from an entry name: the text after the last
/// dot, or nothing when the name has no dot.
pub fn extension_of(name: &str) -> (r: Option<String>)
    ensures
        match r {
            Some(e) => ext_spec(name@) matches Some(x) && e@ == x,
            None => ext_spec(name@) is None,
        },
{
    let n: usize = name.unicode_len();
    let mut i: usize = n;
    while i > 0
        invariant
            n == name@.len(),
            0 <= i <= n,
            forall|j: int| i <= j < n ==> name@[j] != '.',
        decreases i,
    {
        let c: char = name.get_char(i - 1);
        if c == '.' {
            proof {
                lemma_last_dot_prefix(name@, i as int);
                assert(name@.take(i as int).last() == name@[i - 1]);
                assert(last_dot(name@) == i - 1);
            }
            let sub = name.substring_char(i, n);
            return Some(String::from_str(sub));
        }
        i = i - 1;
    }
    proof {
        lemma_last_dot_prefix(name@, 0);
        assert(name@.take(0).len() == 0);
        assert(last_dot(name@) == -1);
    }
    None
}

/// One row: a filesystem entry with its snapshot of name, path, kind,
/// extension, and metadata (size, creation time) captured at
/// enumeration time. An absent field means the information could not
/// be read; every column access then yields the absent payload.
///
/// The snapshot is the row's whole view of the filesystem: a change on
/// disk after enumeration is not observed, and a metadata read that
/// failed at enumeration time stays absent. This keeps every column
/// access a pure, total function of the row.
#[derive(Debug, Clone)]
pub struct CoreFile {
    pub name: Option<String>,
    pub path: Option<String>,
    pub file_type: Option<FileType>,
    pub file_extension: Option<String>,
    pub size: Option<u64>,
    pub created: Option<u64>,
}

impl CoreFile {
    /// The typed value of one column for this row. Absent metadata
    /// yields the kind's absent payload, never a failure.
    pub open spec fn column_spec(self, kind: FileColumn) -> FileColumn {
        match kind {
            FileColumn::Null => FileColumn::Null,
            FileColumn::Name(_) => FileColumn::Name(self.name),
            FileColumn::Path(_) => FileColumn::Path(self.path),
            FileColumn::Type(_) => FileColumn::Type(self.file_type),
            FileColumn::FileExtension(_) => FileColumn::FileExtension(self.file_extension),
            FileColumn::Size(_) => FileColumn::Size(self.size),
            FileColumn::AbsolutePath(_) => FileColumn::AbsolutePath(None),
            FileColumn::Created(_) => FileColumn::Created(self.created),
        }
    }

    /// Extracts the typed value of the column kind carried by `column`.
    /// Total on every row and kind: a row whose metadata is gone still
    /// yields a value, with the payload absent. Absolute path
    /// resolution is unimplemented and always yields the absent payload.
    pub fn column(&self, column: &FileColumn) -> (r: FileColumn)
        ensures
            r == self.column_spec(*column),
    {
        match column {
            FileColumn::Null => FileColumn::Null,
            FileColumn::Name(_) => FileColumn::Name(crate::column::dup_opt_str(&self.name)),
            FileColumn::Path(_) => FileColumn::Path(crate::column::dup_opt_str(&self.path)),
            FileColumn::Type(_) => FileColumn::Type(match &self.file_type {
                Option::None => None,
                Option::Some(t) => Some(*t),
            }),
            FileColumn::FileExtension(_) => FileColumn::FileExtension(
                crate::column::dup_opt_str(&self.file_extension),
            ),
            FileColumn::Size(_) => FileColumn::Size(match &self.size {
                Option::None => None,
                Option::Some(n) => Some(*n),
            }),
            FileColumn::AbsolutePath(_) => FileColumn::AbsolutePath(None),
            FileColumn::Created(_) => FileColumn::Created(match &self.created {
                Option::None => None,
                Option::Some(n) => Some(*n),
            }),
        }
    }

    /// The full row of column values, in canonical column order.
    pub open spec fn columns_spec(self) -> Seq<FileColumn> {
        FileColumn::canonical_spec().map_values(|k: FileColumn| self.column_spec(k))
    }

    /// Materializes the full row of column values, in canonical order.
    pub fn columns(&self) -> (r: Vec<FileColumn>)
        ensures
            r@ == self.columns_spec(),
    {
        let mut v: Vec<FileColumn> = Vec::new();
        v.push(self.column(&FileColumn::Name(None)));
        v.push(self.column(&FileColumn::Path(None)));
        v.push(self.column(&FileColumn::Type(None)));
        v.push(self.column(&FileColumn::FileExtension(None)));
        v.push(self.column(&FileColumn::Size(None)));
        v.push(self.column(&FileColumn::AbsolutePath(None)));
        v.push(self.column(&FileColumn::Created(None)));
        proof {
            assert(v@ =~= self.columns_spec());
        }
        v
    }

    /// The entry's size, an error when the metadata was unavailable.
    pub fn size(&self) -> (r: Result<u64, CoreError>)
        ensures
            match r {
                Ok(n) => self.size == Some(n),
                Err(e) => {
                    &&& self.size is None
                    &&& e matches CoreError::IOError(m) && m@ == "File not found"@
                },
            },
    {
        match &self.size {
            Option::Some(n) => Ok(*n),
            Option::None => Err(CoreError::IOError(String::from_str("File not found"))),
        }
    }

    /// Absolute path resolution is unimplemented: always an error.
    pub fn absolute_path(&self) -> (r: Result<String, CoreError>)
        ensures
            r matches Err(e) && e matches CoreError::IOError(m) && m@ == "Unimplemented"@,
    {
        Err(CoreError::IOError(String::from_str("Unimplemented")))
    }

    /// An equal copy of this row.
    pub fn duplicate(&self) -> (r: CoreFile)
        ensures
            r == *self,
    {
        CoreFile {
            name: crate::column::dup_opt_str(&self.name),
            path: crate::column::dup_opt_str(&self.path),
            file_type: match &self.file_type {
                Option::None => None,
                Option::Some(t) => Some(*t),
            },
            file_extension: crate::column::dup_opt_str(&self.file_extension),
            size: match &self.size {
                Option::None => None,
                Option::Some(n) => Some(*n),
            },
            created: match &self.created {
                Option::None => None,
                Option::Some(n) => Some(*n),
            },
        }
    }
}

/// A column access is total and the tag of the value always matches the
/// kind that was asked for, whatever metadata the row is missing; and a
/// row whose metadata could not be read yields the absent payload for
/// every metadata column.
pub proof fn lemma_value_total(f: CoreFile, kind: FileColumn)
    ensures
        col_rank(f.column_spec(kind)) == col_rank(kind),
        f.size is None ==> f.column_spec(FileColumn::Size(None)) == FileColumn::Size(
            None::<u64>,
        ),
        f.created is None ==> f.column_spec(FileColumn::Created(None)) == FileColumn::Created(
            None::<u64>,
        ),
        f.file_type is None ==> f.column_spec(FileColumn::Type(None)) == FileColumn::Type(
            None::<FileType>,
        ),
{
}

impl PartialEq for CoreFile {
    /// Rows are identity-compared: two rows are equal exactly when
    /// their paths are equal.
    fn eq(&self, other: &CoreFile) -> (r: bool) {
        opt_str_eq(&self.path, &other.path)
    }
}

impl vstd::std_specs::cmp::PartialEqSpecImpl for CoreFile {
    open spec fn obeys_eq_spec() -> bool {
        true
    }

    open spec fn eq_spec(&self, other: &CoreFile) -> bool {
        opt_str_eqv(self.path, other.path)
    }
}

/// One directory entry as the loader hands it over: plain values only.
/// An absent field means the filesystem would not answer for it.
#[derive(Debug, Clone)]
pub struct EntryInfo {
    pub name: String,
    pub path: String,
    pub is_file: Option<bool>,
    pub size: Option<u64>,
    pub created: Option<u64>,
}

/// How one row corresponds to the directory entry it was made from.
pub open spec fn entry_row_match(f: CoreFile, e: EntryInfo) -> bool {
    &&& f.name matches Some(n) && n@ == e.name@
    &&& f.path matches Some(p) && p@ == e.path@
    &&& f.file_type == match e.is_file {
        Option::None => None::<FileType>,
        Option::Some(true) => Some(FileType::File),
        Option::Some(false) => Some(FileType::Dir),
    }
    &&& match ext_spec(e.name@) {
        Option::None => f.file_extension is None,
        Option::Some(x) => f.file_extension matches Some(s) && s@ == x,
    }
    &&& f.size == e.size
    &&& f.created == e.created
}

/// Builds the row set of one table from a directory listing: exactly
/// one row per entry, in enumeration order, each row snapshotting the
/// entry's name, path, kind, extension and metadata.
pub fn table_from_entries(entries: Vec<EntryInfo>) -> (r: Vec<CoreFile>)
    ensures
        r@.len() == entries@.len(),
        forall|i: int| 0 <= i < entries@.len() ==> entry_row_match(r@[i], entries@[i]),
{
    let ghost all = entries@;
    let mut rest = entries;
    let mut out: Vec<CoreFile> = Vec::new();
    while rest.len() > 0
        invariant
            out@.len() + rest@.len() == all.len(),
            rest@ =~= all.skip(out@.len() as int),
            forall|i: int| 0 <= i < out@.len() ==> entry_row_match(out@[i], all[i]),
        decreases rest@.len(),
    {
        let e = rest.remove(0);
        proof {
            assert(e == all[out@.len() as int]);
        }
        let ext = extension_of(e.name.as_str());
        let row = CoreFile {
            file_type: match e.is_file {
                Option::None => None,
                Option::Some(true) => Some(FileType::File),
                Option::Some(false) => Some(FileType::Dir),
            },
            file_extension: ext,
            name: Some(e.name),
            path: Some(e.path),
            size: e.size,
            created: e.created,
        };
        proof {
            assert(entry_row_match(row, all[out@.len() as int]));
        }
        out.push(row);
        proof {
            assert(rest@ =~= all.skip(out@.len() as int));
        }
    }
    out
}

} // verus!
