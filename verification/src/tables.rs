//! Preloaded tables: the driver enumerates each directory a statement
//! names before evaluation and hands the rows (or the read failure) in
//! under the table's binding name. Evaluation itself then runs without
//! touching the filesystem.

use vstd::prelude::*;

use crate::file::CoreFile;

verus! {

/// The row sets a statement evaluation may draw from, keyed by binding
/// name. A table whose directory could not be read is present with the
/// failure's message, so evaluation reports it as an `IOError`.
#[derive(Debug)]
pub struct Tables {
    pub entries: Vec<(String, Result<Vec<CoreFile>, String>)>,
}

/// The first entry bound to `name`, if any.
pub open spec fn lookup_spec(
    entries: Seq<(String, Result<Vec<CoreFile>, String>)>,
    name: Seq<char>,
) -> Option<Result<Vec<CoreFile>, String>>
    decreases entries.len(),
{
    if entries.len() == 0 {
        None
    } else if entries[0].0@ == name {
        Some(entries[0].1)
    } else {
        lookup_spec(entries.drop_first(), name)
    }
}

impl Tables {
    /// An empty table set.
    pub fn new() -> (r: Tables)
        ensures
            r.entries@.len() == 0,
    {
        Tables { entries: Vec::new() }
    }

    /// Binds a loaded row set under `name`.
    pub fn add(&mut self, name: String, rows: Vec<CoreFile>)
        ensures
            final(self).entries@ == old(self).entries@.push((name, Result::Ok(rows))),
    {
        self.entries.push((name, Ok(rows)));
    }

    /// Records that the directory bound to `name` could not be read.
    pub fn add_error(&mut self, name: String, message: String)
        ensures
            final(self).entries@ == old(self).entries@.push((name, Result::Err(message))),
    {
        self.entries.push((name, Err(message)));
    }
}

/// An equal copy of a row set.
pub fn dup_files(rows: &Vec<CoreFile>) -> (r: Vec<CoreFile>)
    ensures
        r@ == rows@,
{
    let n: usize = rows.len();
    let mut out: Vec<CoreFile> = Vec::new();
    let mut i: usize = 0;
    while i < n
        invariant
            n == rows@.len(),
            0 <= i <= n,
            out@ =~= rows@.take(i as int),
        decreases n - i,
    {
        out.push(rows[i].duplicate());
        proof {
            assert(out@ =~= rows@.take(i + 1));
        }
        i = i + 1;
    }
    proof {
        assert(rows@.take(n as int) =~= rows@);
    }
    out
}

} // verus!
