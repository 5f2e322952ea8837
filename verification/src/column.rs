//! The column model: the closed set of typed, named columns a row can
//! expose, together with a tagged value per column kind, name resolution,
//! rendering, and a total order used by DISTINCT.

use vstd::prelude::*;

use crate::error::{CoreError, CoreErrorV};
use crate::file::FileType;
use crate::text::{
    dec_seq, eq_ignore_case, hash_chars, hash_str, lex_le, str_eq_ci, str_lex_le,
    lemma_lex_le_antisym, lemma_lex_le_total, lemma_lex_le_trans, u64_to_string,
};

verus! {

/// The plain column kinds, in their canonical order.
#[derive(Debug, Clone, Copy, PartialEq, Eq, Structural)]
pub enum Column {
    Name,
    Path,
    FileType,
    FileExtension,
    Size,
    AbsolutePath,
}

impl Column {
    /// The canonical enumeration of the plain column kinds.
    pub fn iterator() -> (r: Vec<Column>)
        ensures
            r@ == seq![
                Column::Name,
                Column::Path,
                Column::FileType,
                Column::FileExtension,
                Column::Size,
                Column::AbsolutePath,
            ],
    {
        let mut v: Vec<Column> = Vec::new();
        v.push(Column::Name);
        v.push(Column::Path);
        v.push(Column::FileType);
        v.push(Column::FileExtension);
        v.push(Column::Size);
        v.push(Column::AbsolutePath);
        proof {
            assert(v@ =~= seq![
                Column::Name,
                Column::Path,
                Column::FileType,
                Column::FileExtension,
                Column::Size,
                Column::AbsolutePath,
            ]);
        }
        v
    }

    /// The kind a plain column name resolves to, case-insensitively.
    pub open spec fn from_str_spec(s: Seq<char>) -> Option<Column> {
        if str_eq_ci(s, "name"@) {
            Some(Column::Name)
        } else if str_eq_ci(s, "path"@) {
            Some(Column::Path)
        } else if str_eq_ci(s, "filetype"@) || str_eq_ci(s, "file_type"@) {
            Some(Column::FileType)
        } else if str_eq_ci(s, "file_extension"@) || str_eq_ci(s, "fileextension"@) {
            Some(Column::FileExtension)
        } else if str_eq_ci(s, "size"@) {
            Some(Column::Size)
        } else if str_eq_ci(s, "absolutepath"@) || str_eq_ci(s, "absolute_path"@) {
            Some(Column::AbsolutePath)
        } else {
            None
        }
    }

    /// Resolves a plain column name, case-insensitively.
    pub fn from_str(input: &str) -> (r: Result<Column, ()>)
        ensures
            match r {
                Ok(c) => Column::from_str_spec(input@) == Some(c),
                Err(_) => Column::from_str_spec(input@) is None,
            },
    {
        if eq_ignore_case(input, "name") {
            Ok(Column::Name)
        } else if eq_ignore_case(input, "path") {
            Ok(Column::Path)
        } else if eq_ignore_case(input, "filetype") || eq_ignore_case(input, "file_type") {
            Ok(Column::FileType)
        } else if eq_ignore_case(input, "file_extension") || eq_ignore_case(input, "fileextension") {
            Ok(Column::FileExtension)
        } else if eq_ignore_case(input, "size") {
            Ok(Column::Size)
        } else if eq_ignore_case(input, "absolutepath") || eq_ignore_case(input, "absolute_path") {
            Ok(Column::AbsolutePath)
        } else {
            Err(())
        }
    }
}

/// A typed column value: one tag per column kind, each carrying an
/// optional payload. An absent payload stands for metadata that could
/// not be read, which is a normal outcome, never an error.
#[derive(Debug, Clone)]
pub enum FileColumn {
    Null,
    Name(Option<String>),
    Path(Option<String>),
    Type(Option<FileType>),
    FileExtension(Option<String>),
    Size(Option<u64>),
    AbsolutePath(Option<String>),
    Created(Option<u64>),
}

/// View-level equality of optional strings.
pub open spec fn opt_str_eqv(a: Option<String>, b: Option<String>) -> bool {
    match (a, b) {
        (Option::None, Option::None) => true,
        (Option::Some(x), Option::Some(y)) => x@ == y@,
        _ => false,
    }
}

/// `None` sorts before any value; strings sort lexicographically.
pub open spec fn opt_str_le(a: Option<String>, b: Option<String>) -> bool {
    match (a, b) {
        (Option::None, _) => true,
        (Option::Some(_), Option::None) => false,
        (Option::Some(x), Option::Some(y)) => lex_le(x@, y@),
    }
}

/// `None` sorts before any value; numbers sort by value.
pub open spec fn opt_u64_le(a: Option<u64>, b: Option<u64>) -> bool {
    match (a, b) {
        (Option::None, _) => true,
        (Option::Some(_), Option::None) => false,
        (Option::Some(x), Option::Some(y)) => x <= y,
    }
}

/// The rank of a file type: files before directories.
pub open spec fn file_type_rank(t: FileType) -> int {
    match t {
        FileType::File => 0,
        FileType::Dir => 1,
    }
}

/// `None` sorts before any value; kinds sort files before directories.
pub open spec fn opt_type_le(a: Option<FileType>, b: Option<FileType>) -> bool {
    match (a, b) {
        (Option::None, _) => true,
        (Option::Some(_), Option::None) => false,
        (Option::Some(x), Option::Some(y)) => file_type_rank(x) <= file_type_rank(y),
    }
}

/// The canonical rank of a column tag.
pub open spec fn col_rank(c: FileColumn) -> int {
    match c {
        FileColumn::Null => 0,
        FileColumn::Name(_) => 1,
        FileColumn::Path(_) => 2,
        FileColumn::Type(_) => 3,
        FileColumn::FileExtension(_) => 4,
        FileColumn::Size(_) => 5,
        FileColumn::AbsolutePath(_) => 6,
        FileColumn::Created(_) => 7,
    }
}

/// Structural equality of two column values: the same tag and the same
/// payload, strings compared by their characters.
pub open spec fn col_eqv(a: FileColumn, b: FileColumn) -> bool {
    match (a, b) {
        (FileColumn::Null, FileColumn::Null) => true,
        (FileColumn::Name(x), FileColumn::Name(y)) => opt_str_eqv(x, y),
        (FileColumn::Path(x), FileColumn::Path(y)) => opt_str_eqv(x, y),
        (FileColumn::Type(x), FileColumn::Type(y)) => x == y,
        (FileColumn::FileExtension(x), FileColumn::FileExtension(y)) => opt_str_eqv(x, y),
        (FileColumn::Size(x), FileColumn::Size(y)) => x == y,
        (FileColumn::AbsolutePath(x), FileColumn::AbsolutePath(y)) => opt_str_eqv(x, y),
        (FileColumn::Created(x), FileColumn::Created(y)) => x == y,
        _ => false,
    }
}

/// The payload order between two column values of the same tag.
pub open spec fn col_payload_le(a: FileColumn, b: FileColumn) -> bool {
    match (a, b) {
        (FileColumn::Name(x), FileColumn::Name(y)) => opt_str_le(x, y),
        (FileColumn::Path(x), FileColumn::Path(y)) => opt_str_le(x, y),
        (FileColumn::Type(x), FileColumn::Type(y)) => opt_type_le(x, y),
        (FileColumn::FileExtension(x), FileColumn::FileExtension(y)) => opt_str_le(x, y),
        (FileColumn::Size(x), FileColumn::Size(y)) => opt_u64_le(x, y),
        (FileColumn::AbsolutePath(x), FileColumn::AbsolutePath(y)) => opt_str_le(x, y),
        (FileColumn::Created(x), FileColumn::Created(y)) => opt_u64_le(x, y),
        _ => true,
    }
}

/// A total order on column values: by tag rank first, then by payload.
pub open spec fn col_le(a: FileColumn, b: FileColumn) -> bool {
    if col_rank(a) < col_rank(b) {
        true
    } else if col_rank(b) < col_rank(a) {
        false
    } else {
        col_payload_le(a, b)
    }
}

/// `col_le` is total.
pub proof fn lemma_col_le_total(a: FileColumn, b: FileColumn)
    ensures
        col_le(a, b) || col_le(b, a),
{
    if col_rank(a) == col_rank(b) {
        match (a, b) {
            (FileColumn::Name(Option::Some(x)), FileColumn::Name(Option::Some(y))) => {
                lemma_lex_le_total(x@, y@);
            }
            (FileColumn::Path(Option::Some(x)), FileColumn::Path(Option::Some(y))) => {
                lemma_lex_le_total(x@, y@);
            }
            (FileColumn::FileExtension(Option::Some(x)), FileColumn::FileExtension(Option::Some(y))) => {
                lemma_lex_le_total(x@, y@);
            }
            (FileColumn::AbsolutePath(Option::Some(x)), FileColumn::AbsolutePath(Option::Some(y))) => {
                lemma_lex_le_total(x@, y@);
            }
            _ => {}
        }
    }
}

/// `col_le` is transitive.
pub proof fn lemma_col_le_trans(a: FileColumn, b: FileColumn, c: FileColumn)
    requires
        col_le(a, b),
        col_le(b, c),
    ensures
        col_le(a, c),
{
    if col_rank(a) == col_rank(b) && col_rank(b) == col_rank(c) {
        match (a, b) {
            (FileColumn::Name(Option::Some(x)), FileColumn::Name(Option::Some(y))) => {
                if let FileColumn::Name(Option::Some(z)) = c {
                    lemma_lex_le_trans(x@, y@, z@);
                }
            }
            (FileColumn::Path(Option::Some(x)), FileColumn::Path(Option::Some(y))) => {
                if let FileColumn::Path(Option::Some(z)) = c {
                    lemma_lex_le_trans(x@, y@, z@);
                }
            }
            (FileColumn::FileExtension(Option::Some(x)), FileColumn::FileExtension(Option::Some(y))) => {
                if let FileColumn::FileExtension(Option::Some(z)) = c {
                    lemma_lex_le_trans(x@, y@, z@);
                }
            }
            (FileColumn::AbsolutePath(Option::Some(x)), FileColumn::AbsolutePath(Option::Some(y))) => {
                if let FileColumn::AbsolutePath(Option::Some(z)) = c {
                    lemma_lex_le_trans(x@, y@, z@);
                }
            }
            _ => {}
        }
    }
}

/// `col_le` in both directions means the two values are structurally equal.
pub proof fn lemma_col_le_antisym(a: FileColumn, b: FileColumn)
    requires
        col_le(a, b),
        col_le(b, a),
    ensures
        col_eqv(a, b),
{
    if col_rank(a) == col_rank(b) {
        match (a, b) {
            (FileColumn::Name(Option::Some(x)), FileColumn::Name(Option::Some(y))) => {
                lemma_lex_le_antisym(x@, y@);
            }
            (FileColumn::Path(Option::Some(x)), FileColumn::Path(Option::Some(y))) => {
                lemma_lex_le_antisym(x@, y@);
            }
            (FileColumn::FileExtension(Option::Some(x)), FileColumn::FileExtension(Option::Some(y))) => {
                lemma_lex_le_antisym(x@, y@);
            }
            (FileColumn::AbsolutePath(Option::Some(x)), FileColumn::AbsolutePath(Option::Some(y))) => {
                lemma_lex_le_antisym(x@, y@);
            }
            _ => {}
        }
    }
}

/// Equality of two optional strings, by characters.
pub fn opt_str_eq(a: &Option<String>, b: &Option<String>) -> (r: bool)
    ensures
        r == opt_str_eqv(*a, *b),
{
    match (a, b) {
        (Option::None, Option::None) => true,
        (Option::Some(x), Option::Some(y)) => *x == *y,
        _ => false,
    }
}

/// Order on two optional strings: absent first, then lexicographic.
fn opt_str_le_exec(a: &Option<String>, b: &Option<String>) -> (r: bool)
    ensures
        r == opt_str_le(*a, *b),
{
    match (a, b) {
        (Option::None, _) => true,
        (Option::Some(_), Option::None) => false,
        (Option::Some(x), Option::Some(y)) => str_lex_le(x.as_str(), y.as_str()),
    }
}

impl FileColumn {
    /// The canonical seven-entry column list, every payload absent.
    pub open spec fn canonical_spec() -> Seq<FileColumn> {
        seq![
            FileColumn::Name(Option::None),
            FileColumn::Path(Option::None),
            FileColumn::Type(Option::None),
            FileColumn::FileExtension(Option::None),
            FileColumn::Size(Option::None),
            FileColumn::AbsolutePath(Option::None),
            FileColumn::Created(Option::None),
        ]
    }

    /// The canonical enumeration of the column kinds, payloads absent.
    pub fn iterator() -> (r: Vec<FileColumn>)
        ensures
            r@ == FileColumn::canonical_spec(),
    {
        let mut v: Vec<FileColumn> = Vec::new();
        v.push(FileColumn::Name(None));
        v.push(FileColumn::Path(None));
        v.push(FileColumn::Type(None));
        v.push(FileColumn::FileExtension(None));
        v.push(FileColumn::Size(None));
        v.push(FileColumn::AbsolutePath(None));
        v.push(FileColumn::Created(None));
        proof {
            assert(v@ =~= FileColumn::canonical_spec());
        }
        v
    }

    /// The kind a column identifier resolves to, case-insensitively.
    /// The accepted spellings are `name`, `path`, `type` or `filetype`,
    /// `file_extension` or `fileextension`, `size`, `absolutepath` or
    /// `absolute_path`, and `created`.
    pub open spec fn from_str_spec(s: Seq<char>) -> Option<FileColumn> {
        if str_eq_ci(s, "name"@) {
            Some(FileColumn::Name(Option::None))
        } else if str_eq_ci(s, "path"@) {
            Some(FileColumn::Path(Option::None))
        } else if str_eq_ci(s, "type"@) || str_eq_ci(s, "filetype"@) {
            Some(FileColumn::Type(Option::None))
        } else if str_eq_ci(s, "file_extension"@) || str_eq_ci(s, "fileextension"@) {
            Some(FileColumn::FileExtension(Option::None))
        } else if str_eq_ci(s, "size"@) {
            Some(FileColumn::Size(Option::None))
        } else if str_eq_ci(s, "absolutepath"@) || str_eq_ci(s, "absolute_path"@) {
            Some(FileColumn::AbsolutePath(Option::None))
        } else if str_eq_ci(s, "created"@) {
            Some(FileColumn::Created(Option::None))
        } else {
            None
        }
    }

    /// Resolves a column identifier to its kind, case-insensitively, and
    /// is total on the documented name set: every accepted spelling
    /// succeeds, and any other text fails with a `GeneralError` that
    /// names the offending identifier.
    pub fn from_str(input: &str) -> (r: Result<FileColumn, CoreError>)
        ensures
            match r {
                Ok(c) => FileColumn::from_str_spec(input@) == Some(c),
                Err(e) => {
                    &&& FileColumn::from_str_spec(input@) is None
                    &&& e matches CoreError::GeneralError(m)
                        && m@ == "No type matching "@ + input@ + " was found"@
                },
            },
    {
        if eq_ignore_case(input, "name") {
            Ok(FileColumn::Name(None))
        } else if eq_ignore_case(input, "path") {
            Ok(FileColumn::Path(None))
        } else if eq_ignore_case(input, "type") || eq_ignore_case(input, "filetype") {
            Ok(FileColumn::Type(None))
        } else if eq_ignore_case(input, "file_extension") || eq_ignore_case(input, "fileextension") {
            Ok(FileColumn::FileExtension(None))
        } else if eq_ignore_case(input, "size") {
            Ok(FileColumn::Size(None))
        } else if eq_ignore_case(input, "absolutepath") || eq_ignore_case(input, "absolute_path") {
            Ok(FileColumn::AbsolutePath(None))
        } else if eq_ignore_case(input, "created") {
            Ok(FileColumn::Created(None))
        } else {
            let msg = String::from_str("No type matching ").concat(input).concat(" was found");
            Err(CoreError::GeneralError(msg))
        }
    }

    /// The canonical name of this column's kind.
    pub open spec fn kind_name_spec(self) -> Seq<char> {
        match self {
            FileColumn::Null => "Null"@,
            FileColumn::Name(_) => "Name"@,
            FileColumn::Path(_) => "Path"@,
            FileColumn::Type(_) => "Type"@,
            FileColumn::FileExtension(_) => "FileExtension"@,
            FileColumn::Size(_) => "Size"@,
            FileColumn::AbsolutePath(_) => "AbsolutePath"@,
            FileColumn::Created(_) => "Created"@,
        }
    }

    /// The canonical name of this column's kind.
    pub fn kind_name(&self) -> (r: String)
        ensures
            r@ == self.kind_name_spec(),
    {
        match self {
            FileColumn::Null => String::from_str("Null"),
            FileColumn::Name(_) => String::from_str("Name"),
            FileColumn::Path(_) => String::from_str("Path"),
            FileColumn::Type(_) => String::from_str("Type"),
            FileColumn::FileExtension(_) => String::from_str("FileExtension"),
            FileColumn::Size(_) => String::from_str("Size"),
            FileColumn::AbsolutePath(_) => String::from_str("AbsolutePath"),
            FileColumn::Created(_) => String::from_str("Created"),
        }
    }

    /// What `display_string` renders: the payload as text, the empty
    /// string when the payload is absent.
    pub open spec fn display_spec(self) -> Seq<char> {
        match self {
            FileColumn::Null => Seq::<char>::empty(),
            FileColumn::Name(o) => opt_str_display(o),
            FileColumn::Path(o) => opt_str_display(o),
            FileColumn::Type(o) => match o {
                Option::None => Seq::<char>::empty(),
                Option::Some(FileType::File) => "file"@,
                Option::Some(FileType::Dir) => "directory"@,
            },
            FileColumn::FileExtension(o) => opt_str_display(o),
            FileColumn::Size(o) => opt_u64_display(o),
            FileColumn::AbsolutePath(o) => opt_str_display(o),
            FileColumn::Created(o) => opt_u64_display(o),
        }
    }

    /// Renders the value as text: the payload itself for text payloads,
    /// decimal for numbers, `file` or `directory` for kinds, and the
    /// empty string for an absent payload.
    pub fn display_string(&self) -> (r: String)
        ensures
            r@ == self.display_spec(),
    {
        match self {
            FileColumn::Null => String::new(),
            FileColumn::Name(o) => opt_str_display_exec(o),
            FileColumn::Path(o) => opt_str_display_exec(o),
            FileColumn::Type(o) => match o {
                Option::None => String::new(),
                Option::Some(FileType::File) => String::from_str("file"),
                Option::Some(FileType::Dir) => String::from_str("directory"),
            },
            FileColumn::FileExtension(o) => opt_str_display_exec(o),
            FileColumn::Size(o) => opt_u64_display_exec(o),
            FileColumn::AbsolutePath(o) => opt_str_display_exec(o),
            FileColumn::Created(o) => opt_u64_display_exec(o),
        }
    }

    /// A stable identifier for the value: a hash of its kind name and
    /// its rendered payload.
    pub open spec fn ident_hash_spec(self) -> u64 {
        hash_chars(self.kind_name_spec() + ":"@ + self.display_spec())
    }

    /// A stable, process-independent identifier for the value.
    pub fn ident_hash(&self) -> (r: u64)
        ensures
            r == self.ident_hash_spec(),
    {
        let s = self.kind_name().concat(":").concat(self.display_string().as_str());
        proof {
            assert(s@ =~= self.kind_name_spec() + ":"@ + self.display_spec());
        }
        hash_str(s.as_str())
    }

    /// Structural equality with another column value.
    pub fn eq_col(&self, other: &FileColumn) -> (r: bool)
        ensures
            r == col_eqv(*self, *other),
    {
        match (self, other) {
            (FileColumn::Null, FileColumn::Null) => true,
            (FileColumn::Name(x), FileColumn::Name(y)) => opt_str_eq(x, y),
            (FileColumn::Path(x), FileColumn::Path(y)) => opt_str_eq(x, y),
            (FileColumn::Type(x), FileColumn::Type(y)) => match (x, y) {
                (Option::None, Option::None) => true,
                (Option::Some(s), Option::Some(t)) => s == t,
                _ => false,
            },
            (FileColumn::FileExtension(x), FileColumn::FileExtension(y)) => opt_str_eq(x, y),
            (FileColumn::Size(x), FileColumn::Size(y)) => match (x, y) {
                (Option::None, Option::None) => true,
                (Option::Some(s), Option::Some(t)) => s == t,
                _ => false,
            },
            (FileColumn::AbsolutePath(x), FileColumn::AbsolutePath(y)) => opt_str_eq(x, y),
            (FileColumn::Created(x), FileColumn::Created(y)) => match (x, y) {
                (Option::None, Option::None) => true,
                (Option::Some(s), Option::Some(t)) => s == t,
                _ => false,
            },
            _ => false,
        }
    }

    /// The canonical rank of this value's tag.
    fn rank(&self) -> (r: u8)
        ensures
            r as int == col_rank(*self),
    {
        match self {
            FileColumn::Null => 0,
            FileColumn::Name(_) => 1,
            FileColumn::Path(_) => 2,
            FileColumn::Type(_) => 3,
            FileColumn::FileExtension(_) => 4,
            FileColumn::Size(_) => 5,
            FileColumn::AbsolutePath(_) => 6,
            FileColumn::Created(_) => 7,
        }
    }

    /// Whether two column values carry the same tag.
    pub fn same_kind(&self, other: &FileColumn) -> (r: bool)
        ensures
            r == (col_rank(*self) == col_rank(*other)),
    {
        let ra = self.rank();
        let rb = other.rank();
        ra == rb
    }

    /// The total order on column values: by tag rank, then by payload.
    pub fn le_col(&self, other: &FileColumn) -> (r: bool)
        ensures
            r == col_le(*self, *other),
    {
        let ra = self.rank();
        let rb = other.rank();
        if ra < rb {
            return true;
        }
        if rb < ra {
            return false;
        }
        match (self, other) {
            (FileColumn::Name(x), FileColumn::Name(y)) => opt_str_le_exec(x, y),
            (FileColumn::Path(x), FileColumn::Path(y)) => opt_str_le_exec(x, y),
            (FileColumn::Type(x), FileColumn::Type(y)) => match (x, y) {
                (Option::None, _) => true,
                (Option::Some(_), Option::None) => false,
                (Option::Some(s), Option::Some(t)) => match (s, t) {
                    (FileType::File, _) => true,
                    (FileType::Dir, FileType::Dir) => true,
                    (FileType::Dir, FileType::File) => false,
                },
            },
            (FileColumn::FileExtension(x), FileColumn::FileExtension(y)) => opt_str_le_exec(x, y),
            (FileColumn::Size(x), FileColumn::Size(y)) => match (x, y) {
                (Option::None, _) => true,
                (Option::Some(_), Option::None) => false,
                (Option::Some(s), Option::Some(t)) => s <= t,
            },
            (FileColumn::AbsolutePath(x), FileColumn::AbsolutePath(y)) => opt_str_le_exec(x, y),
            (FileColumn::Created(x), FileColumn::Created(y)) => match (x, y) {
                (Option::None, _) => true,
                (Option::Some(_), Option::None) => false,
                (Option::Some(s), Option::Some(t)) => s <= t,
            },
            _ => true,
        }
    }

    /// An equal copy of this value.
    pub fn duplicate(&self) -> (r: FileColumn)
        ensures
            r == *self,
    {
        match self {
            FileColumn::Null => FileColumn::Null,
            FileColumn::Name(o) => FileColumn::Name(dup_opt_str(o)),
            FileColumn::Path(o) => FileColumn::Path(dup_opt_str(o)),
            FileColumn::Type(o) => FileColumn::Type(match o {
                Option::None => None,
                Option::Some(t) => Some(*t),
            }),
            FileColumn::FileExtension(o) => FileColumn::FileExtension(dup_opt_str(o)),
            FileColumn::Size(o) => FileColumn::Size(match o {
                Option::None => None,
                Option::Some(n) => Some(*n),
            }),
            FileColumn::AbsolutePath(o) => FileColumn::AbsolutePath(dup_opt_str(o)),
            FileColumn::Created(o) => FileColumn::Created(match o {
                Option::None => None,
                Option::Some(n) => Some(*n),
            }),
        }
    }
}

/// What the one arithmetic operator on column values yields: the sum
/// of two present sizes; every other operand pairing, an absent size
/// included, fails closed rather than silently coercing.
pub open spec fn add_col_spec(a: FileColumn, b: FileColumn) -> Result<FileColumn, CoreErrorV> {
    match (a, b) {
        (FileColumn::Size(Option::Some(x)), FileColumn::Size(Option::Some(y))) => Ok(
            FileColumn::Size(Some((x + y) as u64)),
        ),
        _ => Err(CoreErrorV::GeneralError(crate::query::invalid_op_msg())),
    }
}

impl FileColumn {
    /// Adds two column values: defined only between two present sizes,
    /// whose numeric sum it yields; every other pairing fails closed
    /// with a `GeneralError`.
    pub fn add_col(&self, rhs: &FileColumn) -> (r: Result<FileColumn, CoreError>)
        requires
            *self matches FileColumn::Size(Some(x)) && *rhs matches FileColumn::Size(Some(y))
                ==> x + y <= u64::MAX,
        ensures
            match r {
                Ok(v) => add_col_spec(*self, *rhs) == Ok::<FileColumn, CoreErrorV>(v),
                Err(e) => add_col_spec(*self, *rhs) == Err::<FileColumn, CoreErrorV>(
                    e.view_err(),
                ),
            },
    {
        match (self, rhs) {
            (FileColumn::Size(Option::Some(x)), FileColumn::Size(Option::Some(y))) => Ok(
                FileColumn::Size(Some(*x + *y)),
            ),
            _ => Err(
                CoreError::GeneralError(
                    String::from_str("The data types are invalid for the specified operator"),
                ),
            ),
        }
    }
}

/// An equal copy of an optional string.
pub fn dup_opt_str(o: &Option<String>) -> (r: Option<String>)
    ensures
        r == *o,
{
    match o {
        Option::None => None,
        Option::Some(s) => Some(s.clone()),
    }
}

/// The rendering of an optional string payload.
pub open spec fn opt_str_display(o: Option<String>) -> Seq<char> {
    match o {
        Option::None => Seq::<char>::empty(),
        Option::Some(s) => s@,
    }
}

/// The rendering of an optional number payload.
pub open spec fn opt_u64_display(o: Option<u64>) -> Seq<char> {
    match o {
        Option::None => Seq::<char>::empty(),
        Option::Some(n) => dec_seq(n as nat),
    }
}

fn opt_str_display_exec(o: &Option<String>) -> (r: String)
    ensures
        r@ == opt_str_display(*o),
{
    match o {
        Option::None => String::new(),
        Option::Some(s) => s.clone(),
    }
}

fn opt_u64_display_exec(o: &Option<u64>) -> (r: String)
    ensures
        r@ == opt_u64_display(*o),
{
    match o {
        Option::None => String::new(),
        Option::Some(n) => u64_to_string(*n),
    }
}

// ---------------------------------------------------------------------
// Rows of column values: equality and a total order
// ---------------------------------------------------------------------

/// Structural equality of two rows: same width and equal cells.
pub open spec fn row_eqv(a: Seq<FileColumn>, b: Seq<FileColumn>) -> bool {
    a.len() == b.len() && (forall|i: int| 0 <= i < a.len() ==> col_eqv(a[i], b[i]))
}

/// A total lexicographic order on rows, cell by cell.
pub open spec fn row_le(a: Seq<FileColumn>, b: Seq<FileColumn>) -> bool
    decreases a.len(),
{
    if a.len() == 0 {
        true
    } else if b.len() == 0 {
        false
    } else if !col_le(a[0], b[0]) {
        false
    } else if !col_le(b[0], a[0]) {
        true
    } else {
        row_le(a.drop_first(), b.drop_first())
    }
}

/// `row_le` is total.
pub proof fn lemma_row_le_total(a: Seq<FileColumn>, b: Seq<FileColumn>)
    ensures
        row_le(a, b) || row_le(b, a),
    decreases a.len(),
{
    if a.len() != 0 && b.len() != 0 {
        lemma_col_le_total(a[0], b[0]);
        if col_le(a[0], b[0]) && col_le(b[0], a[0]) {
            lemma_row_le_total(a.drop_first(), b.drop_first());
        }
    }
}

/// `row_le` is transitive.
pub proof fn lemma_row_le_trans(a: Seq<FileColumn>, b: Seq<FileColumn>, c: Seq<FileColumn>)
    requires
        row_le(a, b),
        row_le(b, c),
    ensures
        row_le(a, c),
    decreases a.len(),
{
    if a.len() != 0 && b.len() != 0 && c.len() != 0 {
        lemma_col_le_total(a[0], b[0]);
        lemma_col_le_total(b[0], c[0]);
        lemma_col_le_trans(a[0], b[0], c[0]);
        if col_le(a[0], b[0]) && col_le(b[0], a[0]) && col_le(b[0], c[0]) && col_le(c[0], b[0]) {
            lemma_row_le_trans(a.drop_first(), b.drop_first(), c.drop_first());
        } else {
            if col_le(c[0], a[0]) {
                lemma_col_le_trans(c[0], a[0], b[0]);
                lemma_col_le_trans(b[0], c[0], a[0]);
            }
        }
    }
}

/// `row_le` in both directions means the rows are structurally equal.
pub proof fn lemma_row_le_antisym(a: Seq<FileColumn>, b: Seq<FileColumn>)
    requires
        row_le(a, b),
        row_le(b, a),
    ensures
        row_eqv(a, b),
    decreases a.len(),
{
    if a.len() == 0 {
        assert(b.len() == 0);
    } else {
        assert(b.len() != 0);
        lemma_col_le_antisym(a[0], b[0]);
        lemma_row_le_antisym(a.drop_first(), b.drop_first());
        assert forall|i: int| 0 <= i < a.len() implies col_eqv(a[i], b[i]) by {
            if i > 0 {
                assert(a[i] == a.drop_first()[i - 1]);
                assert(b[i] == b.drop_first()[i - 1]);
            }
        }
    }
}

/// Structural equality of two rows.
pub fn row_eq(a: &Vec<FileColumn>, b: &Vec<FileColumn>) -> (r: bool)
    ensures
        r == row_eqv(a@, b@),
{
    if a.len() != b.len() {
        return false;
    }
    let n: usize = a.len();
    let mut i: usize = 0;
    while i < n
        invariant
            n == a@.len(),
            n == b@.len(),
            0 <= i <= n,
            forall|j: int| 0 <= j < i ==> col_eqv(a@[j], b@[j]),
        decreases n - i,
    {
        if !a[i].eq_col(&b[i]) {
            return false;
        }
        i = i + 1;
    }
    true
}

/// The total lexicographic order on rows.
pub fn row_le_exec(a: &Vec<FileColumn>, b: &Vec<FileColumn>) -> (r: bool)
    ensures
        r == row_le(a@, b@),
{
    let la: usize = a.len();
    let lb: usize = b.len();
    let mut i: usize = 0;
    proof {
        assert(a@.skip(0) =~= a@);
        assert(b@.skip(0) =~= b@);
    }
    loop
        invariant
            la == a@.len(),
            lb == b@.len(),
            0 <= i <= la,
            0 <= i <= lb,
            row_le(a@, b@) == row_le(a@.skip(i as int), b@.skip(i as int)),
        decreases la - i,
    {
        if i >= la {
            assert(a@.skip(i as int).len() == 0);
            return true;
        }
        if i >= lb {
            assert(b@.skip(i as int).len() == 0);
            assert(a@.skip(i as int).len() != 0);
            return false;
        }
        proof {
            assert(a@.skip(i as int)[0] == a@[i as int]);
            assert(b@.skip(i as int)[0] == b@[i as int]);
        }
        let ab: bool = a[i].le_col(&b[i]);
        let ba: bool = b[i].le_col(&a[i]);
        if !ab {
            return false;
        }
        if !ba {
            return true;
        }
        proof {
            assert(a@.skip(i as int).drop_first() =~= a@.skip(i + 1));
            assert(b@.skip(i as int).drop_first() =~= b@.skip(i + 1));
        }
        i = i + 1;
    }
}

/// An equal copy of a row.
pub fn dup_row(a: &Vec<FileColumn>) -> (r: Vec<FileColumn>)
    ensures
        r@ == a@,
{
    let n: usize = a.len();
    let mut out: Vec<FileColumn> = Vec::new();
    let mut i: usize = 0;
    while i < n
        invariant
            n == a@.len(),
            0 <= i <= n,
            out@ =~= a@.take(i as int),
        decreases n - i,
    {
        out.push(a[i].duplicate());
        proof {
            assert(out@ =~= a@.take(i + 1));
        }
        i = i + 1;
    }
    proof {
        assert(a@.take(n as int) =~= a@);
    }
    out
}

} // verus!
