//! The evaluator's intermediate result: a column selector, a
//! table-qualified selector, a literal, or a deferred binary operation
//! over two qualified selectors. A selector is carried as a column kind
//! token; applying it to a row goes through the row's single `column`
//! dispatch, which makes the selectable column set closed.

use vstd::prelude::*;

use crate::ast::{SqlOperator, SqlValue, SqlValueV};
use crate::column::FileColumn;

verus! {

/// The evaluator's intermediate representation of one expression.
///
/// Invariants the dispatcher relies on: a `BinaryOp` whose sides came
/// from two table-qualified selectors is join-key material; a binary
/// operation over two literals has already been folded into `Value`.
#[derive(Debug)]
pub enum ExprResult {
    Nothing,
    /// A selector scoped to one named table.
    CompoundSelect(String, FileColumn),
    /// An unqualified per-row selector.
    Select(FileColumn),
    /// A literal value.
    Value(SqlValue),
    /// A deferred binary operation over two qualified selectors.
    BinaryOp((String, FileColumn), SqlOperator, (String, FileColumn)),
}

/// The mathematical value of an `ExprResult`.
pub enum ExprResultV {
    Nothing,
    CompoundSelect(Seq<char>, FileColumn),
    Select(FileColumn),
    Value(SqlValueV),
    BinaryOp((Seq<char>, FileColumn), SqlOperator, (Seq<char>, FileColumn)),
}

impl ExprResult {
    /// The mathematical value of this result.
    pub open spec fn view_er(self) -> ExprResultV {
        match self {
            ExprResult::Nothing => ExprResultV::Nothing,
            ExprResult::CompoundSelect(t, k) => ExprResultV::CompoundSelect(t@, k),
            ExprResult::Select(k) => ExprResultV::Select(k),
            ExprResult::Value(v) => ExprResultV::Value(v.view_value()),
            ExprResult::BinaryOp((lt, lk), op, (rt, rk)) => ExprResultV::BinaryOp(
                (lt@, lk),
                op,
                (rt@, rk),
            ),
        }
    }
}

} // verus!
