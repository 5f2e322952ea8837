//! The expression evaluator and the statement-level helpers: operator
//! folding, identifier resolution, expression evaluation, relation
//! resolution against the preloaded tables, and predicate evaluation.

use vstd::prelude::*;

use crate::ast::{
    view_idents, SqlExpr, SqlExprV, SqlOperator, SqlQuery, SqlQueryV, SqlSetExpr, SqlSetExprV,
    SqlStatement, SqlStatementV, SqlValue, SqlValueV,
};
use crate::column::{col_eqv, col_rank, FileColumn};
use crate::error::{CoreError, CoreErrorV};
use crate::expr_result::{ExprResult, ExprResultV};
use crate::file::{ext_spec, extension_of, CoreFile};
use crate::select::{cells_view, consume_select, consume_select_spec, select_rows_spec};
use crate::tables::{dup_files, lookup_spec, Tables};
use crate::text::{i64_to_string, int_dec_seq, parse_i32, parse_i32_spec};

verus! {

// ---------------------------------------------------------------------
// Error messages
// ---------------------------------------------------------------------

/// The message for an operator applied to operand types it is not
/// defined on.
pub open spec fn invalid_op_msg() -> Seq<char> {
    "The data types are invalid for the specified operator"@
}

/// The message for an expression shape the evaluator does not support.
pub open spec fn unsupported_expr_msg() -> Seq<char> {
    "Unsupported expression"@
}

/// The message for a compound identifier whose column part did not
/// resolve to a plain selector.
pub open spec fn no_arm_msg() -> Seq<char> {
    "No match arm provided in column_select"@
}

/// The message for an unknown column identifier.
pub open spec fn no_type_msg(s: Seq<char>) -> Seq<char> {
    "No type matching "@ + s + " was found"@
}

/// The message for a table that was not among the loaded tables.
pub open spec fn no_table_msg(s: Seq<char>) -> Seq<char> {
    "No such table was loaded: "@ + s
}

/// The message for a relation shape the engine does not read.
pub open spec fn unsupported_relation_msg() -> Seq<char> {
    "Unsupported relation"@
}

pub(crate) fn invalid_op_err() -> (r: CoreError)
    ensures
        r.view_err() == CoreErrorV::GeneralError(invalid_op_msg()),
{
    CoreError::GeneralError(String::from_str("The data types are invalid for the specified operator"))
}

pub(crate) fn unsupported_expr_err() -> (r: CoreError)
    ensures
        r.view_err() == CoreErrorV::GeneralError(unsupported_expr_msg()),
{
    CoreError::GeneralError(String::from_str("Unsupported expression"))
}

// ---------------------------------------------------------------------
// Operator folding
// ---------------------------------------------------------------------

/// Structural equality of two literal values: the same variant with the
/// same payload.
pub open spec fn sql_value_eqv(a: SqlValueV, b: SqlValueV) -> bool {
    match (a, b) {
        (SqlValueV::Number(x), SqlValueV::Number(y)) => x == y,
        (SqlValueV::SingleQuotedString(x), SqlValueV::SingleQuotedString(y)) => x == y,
        (SqlValueV::NationalStringLiteral(x), SqlValueV::NationalStringLiteral(y)) => x == y,
        (SqlValueV::HexStringLiteral(x), SqlValueV::HexStringLiteral(y)) => x == y,
        (SqlValueV::Boolean(x), SqlValueV::Boolean(y)) => x == y,
        (SqlValueV::Interval, SqlValueV::Interval) => true,
        (SqlValueV::Null, SqlValueV::Null) => true,
        _ => false,
    }
}

/// Structural equality of two literal values.
pub fn sql_value_eq(a: &SqlValue, b: &SqlValue) -> (r: bool)
    ensures
        r == sql_value_eqv(a.view_value(), b.view_value()),
{
    match (a, b) {
        (SqlValue::Number(x), SqlValue::Number(y)) => *x == *y,
        (SqlValue::SingleQuotedString(x), SqlValue::SingleQuotedString(y)) => *x == *y,
        (SqlValue::NationalStringLiteral(x), SqlValue::NationalStringLiteral(y)) => *x == *y,
        (SqlValue::HexStringLiteral(x), SqlValue::HexStringLiteral(y)) => *x == *y,
        (SqlValue::Boolean(x), SqlValue::Boolean(y)) => x == y,
        (SqlValue::Interval, SqlValue::Interval) => true,
        (SqlValue::Null, SqlValue::Null) => true,
        _ => false,
    }
}

/// What folding one operator over two literal values yields.
///
/// Addition: the numeric sum of two numbers (each must parse as a
/// 32-bit integer), concatenation of two quoted strings, the other
/// operand unchanged beside a NULL; every other pairing is an invalid
/// operand pairing. Subtraction: the numeric difference, or the other
/// operand beside a NULL; subtraction of strings is invalid. Equality:
/// a boolean holding structural equality. Every other operator is
/// unsupported and fails.
pub open spec fn consume_op_spec(left: SqlValueV, op: SqlOperator, right: SqlValueV) -> Result<
    SqlValueV,
    CoreErrorV,
> {
    match op {
        SqlOperator::Plus => match (left, right) {
            (SqlValueV::Number(a), SqlValueV::Number(b)) => match (
                parse_i32_spec(a),
                parse_i32_spec(b),
            ) {
                (Some(x), Some(y)) => Ok(SqlValueV::Number(int_dec_seq(x + y))),
                _ => Err(CoreErrorV::GeneralError(invalid_op_msg())),
            },
            (SqlValueV::Number(a), SqlValueV::Null) => Ok(SqlValueV::Number(a)),
            (SqlValueV::SingleQuotedString(a), SqlValueV::SingleQuotedString(b)) => Ok(
                SqlValueV::SingleQuotedString(a + b),
            ),
            (SqlValueV::SingleQuotedString(a), SqlValueV::Null) => Ok(
                SqlValueV::SingleQuotedString(a),
            ),
            (SqlValueV::Boolean(a), SqlValueV::Null) => Ok(SqlValueV::Boolean(a)),
            (SqlValueV::Null, SqlValueV::Number(b)) => Ok(SqlValueV::Number(b)),
            (SqlValueV::Null, SqlValueV::SingleQuotedString(b)) => Ok(
                SqlValueV::SingleQuotedString(b),
            ),
            (SqlValueV::Null, SqlValueV::Boolean(b)) => Ok(SqlValueV::Boolean(b)),
            (SqlValueV::Null, SqlValueV::Null) => Ok(SqlValueV::Null),
            _ => Err(CoreErrorV::GeneralError(invalid_op_msg())),
        },
        SqlOperator::Minus => match (left, right) {
            (SqlValueV::Number(a), SqlValueV::Number(b)) => match (
                parse_i32_spec(a),
                parse_i32_spec(b),
            ) {
                (Some(x), Some(y)) => Ok(SqlValueV::Number(int_dec_seq(x - y))),
                _ => Err(CoreErrorV::GeneralError(invalid_op_msg())),
            },
            (SqlValueV::Number(a), SqlValueV::Null) => Ok(SqlValueV::Number(a)),
            (SqlValueV::SingleQuotedString(a), SqlValueV::Null) => Ok(
                SqlValueV::SingleQuotedString(a),
            ),
            (SqlValueV::Boolean(a), SqlValueV::Null) => Ok(SqlValueV::Boolean(a)),
            (SqlValueV::Null, SqlValueV::Number(b)) => Ok(SqlValueV::Number(b)),
            (SqlValueV::Null, SqlValueV::SingleQuotedString(b)) => Ok(
                SqlValueV::SingleQuotedString(b),
            ),
            (SqlValueV::Null, SqlValueV::Boolean(b)) => Ok(SqlValueV::Boolean(b)),
            (SqlValueV::Null, SqlValueV::Null) => Ok(SqlValueV::Null),
            _ => Err(CoreErrorV::GeneralError(invalid_op_msg())),
        },
        SqlOperator::Eq => Ok(SqlValueV::Boolean(sql_value_eqv(left, right))),
        SqlOperator::Unsupported => Err(CoreErrorV::GeneralError(invalid_op_msg())),
    }
}

/// Folds one operator over two literal values, exactly as
/// `consume_op_spec` states.
pub fn consume_op(left: SqlValue, op: &SqlOperator, right: SqlValue) -> (r: Result<
    SqlValue,
    CoreError,
>)
    ensures
        match r {
            Ok(v) => consume_op_spec(left.view_value(), *op, right.view_value()) == Ok::<
                SqlValueV,
                CoreErrorV,
            >(v.view_value()),
            Err(e) => consume_op_spec(left.view_value(), *op, right.view_value()) == Err::<
                SqlValueV,
                CoreErrorV,
            >(e.view_err()),
        },
{
    match op {
        SqlOperator::Plus => match (left, right) {
            (SqlValue::Number(a), SqlValue::Number(b)) => {
                match (parse_i32(a.as_str()), parse_i32(b.as_str())) {
                    (Some(x), Some(y)) => Ok(SqlValue::Number(i64_to_string(x + y))),
                    _ => Err(invalid_op_err()),
                }
            }
            (SqlValue::Number(a), SqlValue::Null) => Ok(SqlValue::Number(a)),
            (SqlValue::SingleQuotedString(a), SqlValue::SingleQuotedString(b)) => Ok(
                SqlValue::SingleQuotedString(a.concat(b.as_str())),
            ),
            (SqlValue::SingleQuotedString(a), SqlValue::Null) => Ok(
                SqlValue::SingleQuotedString(a),
            ),
            (SqlValue::Boolean(a), SqlValue::Null) => Ok(SqlValue::Boolean(a)),
            (SqlValue::Null, SqlValue::Number(b)) => Ok(SqlValue::Number(b)),
            (SqlValue::Null, SqlValue::SingleQuotedString(b)) => Ok(
                SqlValue::SingleQuotedString(b),
            ),
            (SqlValue::Null, SqlValue::Boolean(b)) => Ok(SqlValue::Boolean(b)),
            (SqlValue::Null, SqlValue::Null) => Ok(SqlValue::Null),
            _ => Err(invalid_op_err()),
        },
        SqlOperator::Minus => match (left, right) {
            (SqlValue::Number(a), SqlValue::Number(b)) => {
                match (parse_i32(a.as_str()), parse_i32(b.as_str())) {
                    (Some(x), Some(y)) => Ok(SqlValue::Number(i64_to_string(x - y))),
                    _ => Err(invalid_op_err()),
                }
            }
            (SqlValue::Number(a), SqlValue::Null) => Ok(SqlValue::Number(a)),
            (SqlValue::SingleQuotedString(a), SqlValue::Null) => Ok(
                SqlValue::SingleQuotedString(a),
            ),
            (SqlValue::Boolean(a), SqlValue::Null) => Ok(SqlValue::Boolean(a)),
            (SqlValue::Null, SqlValue::Number(b)) => Ok(SqlValue::Number(b)),
            (SqlValue::Null, SqlValue::SingleQuotedString(b)) => Ok(
                SqlValue::SingleQuotedString(b),
            ),
            (SqlValue::Null, SqlValue::Boolean(b)) => Ok(SqlValue::Boolean(b)),
            (SqlValue::Null, SqlValue::Null) => Ok(SqlValue::Null),
            _ => Err(invalid_op_err()),
        },
        SqlOperator::Eq => {
            let b = sql_value_eq(&left, &right);
            Ok(SqlValue::Boolean(b))
        }
        SqlOperator::Unsupported => Err(invalid_op_err()),
    }
}

// ---------------------------------------------------------------------
// Identifier and expression evaluation
// ---------------------------------------------------------------------

/// What resolving one identifier yields: an unqualified selector for
/// the named column, or an unknown-column failure.
pub open spec fn consume_expr_ident_spec(s: Seq<char>) -> Result<ExprResultV, CoreErrorV> {
    match FileColumn::from_str_spec(s) {
        Some(k) => Ok(ExprResultV::Select(k)),
        None => Err(CoreErrorV::GeneralError(no_type_msg(s))),
    }
}

/// Resolves one identifier to an unqualified column selector.
pub fn consume_expr_ident(ident: &String) -> (r: Result<ExprResult, CoreError>)
    ensures
        match r {
            Ok(v) => consume_expr_ident_spec(ident@) == Ok::<ExprResultV, CoreErrorV>(
                v.view_er(),
            ),
            Err(e) => consume_expr_ident_spec(ident@) == Err::<ExprResultV, CoreErrorV>(
                e.view_err(),
            ),
        },
{
    match FileColumn::from_str(ident.as_str()) {
        Ok(k) => Ok(ExprResult::Select(k)),
        Err(e) => Err(e),
    }
}

/// What evaluating one expression yields, without row context.
///
/// An identifier resolves to a selector; a compound identifier of at
/// least two parts resolves its last part as the column and the part
/// before it as the table; a literal stays a literal; a binary
/// operation evaluates both sides without row context and combines
/// them: two plain selectors or two qualified selectors become a
/// deferred operation, two literals fold immediately through the
/// operator semantics, and any other pairing is unsupported. Binary
/// operations are only evaluated where tables are in scope. Wildcards
/// and any shape beyond these are unsupported.
pub open spec fn consume_expr_spec(e: SqlExprV, has_tables: bool) -> Result<
    ExprResultV,
    CoreErrorV,
>
    decreases e,
{
    match e {
        SqlExprV::Identifier(s) => consume_expr_ident_spec(s),
        SqlExprV::CompoundIdentifier(ids) => {
            if ids.len() < 2 {
                Err(CoreErrorV::GeneralError(unsupported_expr_msg()))
            } else {
                match consume_expr_ident_spec(ids[ids.len() - 1]) {
                    Ok(ExprResultV::Select(k)) => Ok(
                        ExprResultV::CompoundSelect(ids[ids.len() - 2], k),
                    ),
                    _ => Err(CoreErrorV::GeneralError(no_arm_msg())),
                }
            }
        }
        SqlExprV::BinaryOp { left, op, right } => {
            match consume_expr_spec(*left, false) {
                Err(e1) => Err(e1),
                Ok(lr) => match consume_expr_spec(*right, false) {
                    Err(e2) => Err(e2),
                    Ok(rr) => {
                        if !has_tables {
                            Err(CoreErrorV::GeneralError(unsupported_expr_msg()))
                        } else {
                            match (lr, rr) {
                                (ExprResultV::Select(lk), ExprResultV::Select(rk)) => Ok(
                                    ExprResultV::BinaryOp(
                                        (Seq::empty(), lk),
                                        op,
                                        (Seq::empty(), rk),
                                    ),
                                ),
                                (
                                    ExprResultV::CompoundSelect(lt, lk),
                                    ExprResultV::CompoundSelect(rt, rk),
                                ) => Ok(ExprResultV::BinaryOp((lt, lk), op, (rt, rk))),
                                (ExprResultV::Value(lv), ExprResultV::Value(rv)) => match
                                    consume_op_spec(lv, op, rv) {
                                    Ok(v) => Ok(ExprResultV::Value(v)),
                                    Err(e3) => Err(e3),
                                },
                                _ => Err(CoreErrorV::GeneralError(unsupported_expr_msg())),
                            }
                        }
                    }
                },
            }
        }
        SqlExprV::Value(v) => Ok(ExprResultV::Value(v)),
        _ => Err(CoreErrorV::GeneralError(unsupported_expr_msg())),
    }
}

/// Evaluates one expression without row context, exactly as
/// `consume_expr_spec` states.
pub fn consume_expr(expr: &SqlExpr, has_tables: bool) -> (r: Result<ExprResult, CoreError>)
    ensures
        match r {
            Ok(v) => consume_expr_spec(expr.view_expr(), has_tables) == Ok::<
                ExprResultV,
                CoreErrorV,
            >(v.view_er()),
            Err(e) => consume_expr_spec(expr.view_expr(), has_tables) == Err::<
                ExprResultV,
                CoreErrorV,
            >(e.view_err()),
        },
    decreases *expr,
{
    match expr {
        SqlExpr::Identifier(ident) => consume_expr_ident(ident),
        SqlExpr::CompoundIdentifier(idents) => {
            let n: usize = idents.len();
            if n < 2 {
                proof {
                    assert(crate::ast::view_idents(idents@).len() == idents@.len());
                }
                return Err(unsupported_expr_err());
            }
            proof {
                assert(crate::ast::view_idents(idents@).len() == idents@.len());
                assert(crate::ast::view_idents(idents@)[n - 1] == idents@[n - 1]@);
                assert(crate::ast::view_idents(idents@)[n - 2] == idents@[n - 2]@);
            }
            let column_select = consume_expr_ident(&idents[n - 1]);
            match column_select {
                Ok(ExprResult::Select(k)) => {
                    let table = idents[n - 2].clone();
                    Ok(ExprResult::CompoundSelect(table, k))
                }
                _ => Err(CoreError::GeneralError(
                    String::from_str("No match arm provided in column_select"),
                )),
            }
        }
        SqlExpr::BinaryOp { left, op, right } => {
            let left_result = match consume_expr(left, false) {
                Ok(v) => v,
                Err(e) => {
                    return Err(e);
                }
            };
            let right_result = match consume_expr(right, false) {
                Ok(v) => v,
                Err(e) => {
                    return Err(e);
                }
            };
            if !has_tables {
                return Err(unsupported_expr_err());
            }
            match (left_result, right_result) {
                (ExprResult::Select(lk), ExprResult::Select(rk)) => Ok(ExprResult::BinaryOp(
                    (String::new(), lk),
                    *op,
                    (String::new(), rk),
                )),
                (ExprResult::CompoundSelect(lt, lk), ExprResult::CompoundSelect(rt, rk)) => Ok(
                    ExprResult::BinaryOp((lt, lk), *op, (rt, rk)),
                ),
                (ExprResult::Value(lv), ExprResult::Value(rv)) => {
                    match consume_op(lv, op, rv) {
                        Ok(v) => Ok(ExprResult::Value(v)),
                        Err(e) => Err(e),
                    }
                }
                _ => Err(unsupported_expr_err()),
            }
        }
        SqlExpr::Value(v) => Ok(ExprResult::Value(v.duplicate())),
        SqlExpr::Wildcard => Err(unsupported_expr_err()),
        SqlExpr::QualifiedWildcard(_) => Err(unsupported_expr_err()),
        SqlExpr::Unsupported => Err(unsupported_expr_err()),
    }
}

// ---------------------------------------------------------------------
// Predicate evaluation over one row
// ---------------------------------------------------------------------

/// What a predicate yields on one row: a deferred equality over two
/// selectors compares the two column values of that row; a boolean
/// literal is itself; a deferred operation under any other operator is
/// an invalid operand pairing; every other shape is unsupported.
pub open spec fn eval_predicate_spec(er: ExprResultV, f: CoreFile) -> Result<bool, CoreErrorV> {
    match er {
        ExprResultV::BinaryOp((lt, lk), op, (rt, rk)) => {
            if op == SqlOperator::Eq {
                Ok(col_eqv(f.column_spec(lk), f.column_spec(rk)))
            } else {
                Err(CoreErrorV::GeneralError(invalid_op_msg()))
            }
        }
        ExprResultV::Value(SqlValueV::Boolean(b)) => Ok(b),
        _ => Err(CoreErrorV::GeneralError(unsupported_expr_msg())),
    }
}

/// Evaluates a predicate on one row, exactly as `eval_predicate_spec`
/// states.
pub fn eval_predicate(er: &ExprResult, f: &CoreFile) -> (r: Result<bool, CoreError>)
    ensures
        match r {
            Ok(b) => eval_predicate_spec(er.view_er(), *f) == Ok::<bool, CoreErrorV>(b),
            Err(e) => eval_predicate_spec(er.view_er(), *f) == Err::<bool, CoreErrorV>(
                e.view_err(),
            ),
        },
{
    match er {
        ExprResult::BinaryOp((_, lk), op, (_, rk)) => {
            if *op == SqlOperator::Eq {
                let lv = f.column(lk);
                let rv = f.column(rk);
                Ok(lv.eq_col(&rv))
            } else {
                Err(invalid_op_err())
            }
        }
        ExprResult::Value(SqlValue::Boolean(b)) => Ok(*b),
        ExprResult::Value(_) => Err(unsupported_expr_err()),
        _ => Err(unsupported_expr_err()),
    }
}

// ---------------------------------------------------------------------
// Relation resolution against the preloaded tables
// ---------------------------------------------------------------------

/// What binding a table name yields: the loaded rows, the recorded read
/// failure as an `IOError`, or an `IOError` when the name was never
/// loaded at all.
pub open spec fn consume_table_name_spec(
    name: Seq<char>,
    entries: Seq<(String, Result<Vec<CoreFile>, String>)>,
) -> Result<Seq<CoreFile>, CoreErrorV> {
    match lookup_spec(entries, name) {
        Option::None => Err(CoreErrorV::IOError(no_table_msg(name))),
        Option::Some(Result::Err(m)) => Err(CoreErrorV::IOError(m@)),
        Option::Some(Result::Ok(rows)) => Ok(rows@),
    }
}

/// Resolves a table name against the preloaded tables, exactly as
/// `consume_table_name_spec` states.
pub fn consume_table_name(table_name: &String, tables: &Tables) -> (r: Result<
    Vec<CoreFile>,
    CoreError,
>)
    ensures
        match r {
            Ok(v) => consume_table_name_spec(table_name@, tables.entries@) == Ok::<
                Seq<CoreFile>,
                CoreErrorV,
            >(v@),
            Err(e) => consume_table_name_spec(table_name@, tables.entries@) == Err::<
                Seq<CoreFile>,
                CoreErrorV,
            >(e.view_err()),
        },
{
    let n: usize = tables.entries.len();
    let mut i: usize = 0;
    proof {
        assert(tables.entries@.skip(0) =~= tables.entries@);
    }
    while i < n
        invariant
            n == tables.entries@.len(),
            0 <= i <= n,
            lookup_spec(tables.entries@, table_name@) == lookup_spec(
                tables.entries@.skip(i as int),
                table_name@,
            ),
        decreases n - i,
    {
        proof {
            assert(tables.entries@.skip(i as int)[0] == tables.entries@[i as int]);
            assert(tables.entries@.skip(i as int).drop_first() =~= tables.entries@.skip(i + 1));
        }
        let entry = &tables.entries[i];
        if entry.0 == *table_name {
            match &entry.1 {
                Ok(rows) => {
                    return Ok(dup_files(rows));
                }
                Err(m) => {
                    return Err(CoreError::IOError(m.clone()));
                }
            }
        }
        i = i + 1;
    }
    proof {
        assert(tables.entries@.skip(n as int).len() == 0);
    }
    let msg = String::from_str("No such table was loaded: ").concat(table_name.as_str());
    Err(CoreError::IOError(msg))
}

/// What resolving a relation reference yields: the loaded rows of the
/// named table, bound under the alias when one is given, under the
/// table name itself otherwise; any other relation shape is
/// unsupported.
pub open spec fn consume_relation_spec(
    rel: crate::ast::SqlTableFactorV,
    entries: Seq<(String, Result<Vec<CoreFile>, String>)>,
) -> Result<(Seq<char>, Seq<CoreFile>), CoreErrorV> {
    match rel {
        crate::ast::SqlTableFactorV::Table { name, alias } => {
            match consume_table_name_spec(name, entries) {
                Ok(rows) => Ok(
                    (
                        match alias {
                            Option::Some(a) => a,
                            Option::None => name,
                        },
                        rows,
                    ),
                ),
                Err(e) => Err(e),
            }
        }
        crate::ast::SqlTableFactorV::Unsupported => Err(
            CoreErrorV::GeneralError(unsupported_relation_msg()),
        ),
    }
}

/// Resolves a relation reference against the preloaded tables, exactly
/// as `consume_relation_spec` states.
pub fn consume_relation(relation: &crate::ast::SqlTableFactor, tables: &Tables) -> (r: Result<
    (String, Vec<CoreFile>),
    CoreError,
>)
    ensures
        match r {
            Ok(p) => consume_relation_spec(relation.view_factor(), tables.entries@) == Ok::<
                (Seq<char>, Seq<CoreFile>),
                CoreErrorV,
            >((p.0@, p.1@)),
            Err(e) => consume_relation_spec(relation.view_factor(), tables.entries@) == Err::<
                (Seq<char>, Seq<CoreFile>),
                CoreErrorV,
            >(e.view_err()),
        },
{
    match relation {
        crate::ast::SqlTableFactor::Table { name, alias } => {
            let rows = match consume_table_name(name, tables) {
                Ok(v) => v,
                Err(e) => {
                    return Err(e);
                }
            };
            let binding = match alias {
                Option::Some(a) => a.clone(),
                Option::None => name.clone(),
            };
            Ok((binding, rows))
        }
        crate::ast::SqlTableFactor::Unsupported => Err(
            CoreError::GeneralError(String::from_str("Unsupported relation")),
        ),
    }
}

// ---------------------------------------------------------------------
// Queries and statements
// ---------------------------------------------------------------------

/// The message for a query body shape the engine does not evaluate.
pub open spec fn unsupported_query_msg() -> Seq<char> {
    "Unsupported query"@
}

/// The message for a statement kind the engine does not evaluate.
pub open spec fn unsupported_statement_msg() -> Seq<char> {
    "Unsupported statement"@
}

/// What a query yields: the cells of its SELECT body; any other body
/// shape is unsupported.
pub open spec fn consume_query_spec(
    q: SqlQueryV,
    entries: Seq<(String, Result<Vec<CoreFile>, String>)>,
) -> Result<Seq<(Seq<char>, Seq<char>, Seq<char>)>, CoreErrorV> {
    match q.body {
        SqlSetExprV::Select(s) => consume_select_spec(*s, entries),
        SqlSetExprV::Unsupported => Err(CoreErrorV::GeneralError(unsupported_query_msg())),
    }
}

/// Evaluates a query against the preloaded tables, exactly as
/// `consume_query_spec` states.
pub fn consume_query(query: &SqlQuery, tables: &Tables) -> (r: Result<
    Vec<(String, String, String)>,
    CoreError,
>)
    ensures
        match r {
            Ok(v) => consume_query_spec(query.view_query(), tables.entries@) == Ok::<
                Seq<(Seq<char>, Seq<char>, Seq<char>)>,
                CoreErrorV,
            >(cells_view(v@)),
            Err(e) => consume_query_spec(query.view_query(), tables.entries@) == Err::<
                Seq<(Seq<char>, Seq<char>, Seq<char>)>,
                CoreErrorV,
            >(e.view_err()),
        },
{
    match &query.body {
        SqlSetExpr::Select(s) => consume_select(s, tables),
        SqlSetExpr::Unsupported => Err(
            CoreError::GeneralError(String::from_str("Unsupported query")),
        ),
    }
}

/// Which sink an INSERT target goes to.
#[derive(Debug, Clone, Copy, PartialEq, Eq, Structural)]
pub enum SinkKind {
    Csv,
    Json,
    Console,
}

/// What one statement evaluation asks the driver to do: print result
/// rows, hand an export to a sink, print the column list, or nothing
/// beyond the UPDATE candidate selection.
#[derive(Debug)]
pub enum StatementEffect {
    Rows(Vec<(String, String, String)>),
    Export { sink: SinkKind, path: String, header: Vec<String>, rows: Vec<Vec<String>> },
    ColumnList(String),
    Selected(Vec<CoreFile>),
}

/// The mathematical value of a statement effect.
pub enum StatementEffectV {
    Rows(Seq<(Seq<char>, Seq<char>, Seq<char>)>),
    Export {
        sink: SinkKind,
        path: Seq<char>,
        header: Seq<Seq<char>>,
        rows: Seq<Seq<Seq<char>>>,
    },
    ColumnList(Seq<char>),
    Selected(Seq<CoreFile>),
}

impl StatementEffect {
    /// The mathematical value of this effect.
    pub open spec fn view_effect(self) -> StatementEffectV {
        match self {
            StatementEffect::Rows(v) => StatementEffectV::Rows(cells_view(v@)),
            StatementEffect::Export { sink, path, header, rows } => StatementEffectV::Export {
                sink: sink,
                path: path@,
                header: view_idents(header@),
                rows: table_view(rows@),
            },
            StatementEffect::ColumnList(s) => StatementEffectV::ColumnList(s@),
            StatementEffect::Selected(v) => StatementEffectV::Selected(v@),
        }
    }
}

/// The canonical column list, comma-joined, as SHOW COLUMNS reports it.
pub open spec fn column_list_msg() -> Seq<char> {
    "Name"@ + ", "@ + "Path"@ + ", "@ + "Type"@ + ", "@ + "FileExtension"@ + ", "@ + "Size"@
        + ", "@ + "AbsolutePath"@ + ", "@ + "Created"@
}

/// Names joined by a separator.
pub open spec fn join_names(s: Seq<Seq<char>>, sep: Seq<char>) -> Seq<char>
    decreases s.len(),
{
    if s.len() == 0 {
        Seq::empty()
    } else if s.len() == 1 {
        s[0]
    } else {
        s[0] + sep + join_names(s.drop_first(), sep)
    }
}

/// The SHOW COLUMNS output is exactly the canonical column list: the
/// names of the seven canonical column kinds, in canonical order,
/// joined by commas, whatever table the statement names.
pub proof fn lemma_column_list_canonical()
    ensures
        column_list_msg() == join_names(
            FileColumn::canonical_spec().map_values(|c: FileColumn| c.kind_name_spec()),
            ", "@,
        ),
{
    let names = FileColumn::canonical_spec().map_values(|c: FileColumn| c.kind_name_spec());
    reveal_with_fuel(join_names, 8);
    assert(names.len() == 7);
    assert(names[0] == "Name"@);
    assert(names[1] == "Path"@);
    assert(names[2] == "Type"@);
    assert(names[3] == "FileExtension"@);
    assert(names[4] == "Size"@);
    assert(names[5] == "AbsolutePath"@);
    assert(names[6] == "Created"@);
    assert(names.drop_first().drop_first().drop_first().drop_first().drop_first().drop_first()
        =~= seq![names[6]]);
    assert(join_names(names, ", "@) =~= column_list_msg());
}

/// The fixed, canonical column list: independent of any table and any
/// filesystem state.
pub fn show_columns() -> (r: String)
    ensures
        r@ == column_list_msg(),
{
    String::from_str("Name").concat(", ").concat("Path").concat(", ").concat("Type").concat(
        ", ",
    ).concat("FileExtension").concat(", ").concat("Size").concat(", ").concat(
        "AbsolutePath",
    ).concat(", ").concat("Created")
}

/// What resolving the named INSERT columns yields: the column kind of
/// each name, or an unknown-column failure on the first bad name.
pub open spec fn resolve_columns_spec(cols: Seq<Seq<char>>) -> Result<
    Seq<FileColumn>,
    CoreErrorV,
>
    decreases cols.len(),
{
    if cols.len() == 0 {
        Ok(Seq::empty())
    } else {
        match FileColumn::from_str_spec(cols[0]) {
            Option::Some(k) => match resolve_columns_spec(cols.drop_first()) {
                Ok(rest) => Ok(seq![k] + rest),
                Err(e) => Err(e),
            },
            Option::None => Err(CoreErrorV::GeneralError(no_type_msg(cols[0]))),
        }
    }
}

/// Resolves the named INSERT columns, exactly as `resolve_columns_spec`
/// states.
fn resolve_columns(cols: &Vec<String>) -> (r: Result<Vec<FileColumn>, CoreError>)
    ensures
        match r {
            Ok(v) => resolve_columns_spec(view_idents(cols@)) == Ok::<
                Seq<FileColumn>,
                CoreErrorV,
            >(v@),
            Err(e) => resolve_columns_spec(view_idents(cols@)) == Err::<
                Seq<FileColumn>,
                CoreErrorV,
            >(e.view_err()),
        },
{
    let ghost cv = view_idents(cols@);
    let n: usize = cols.len();
    let mut out: Vec<FileColumn> = Vec::new();
    let mut i: usize = 0;
    proof {
        assert(cv.skip(0) =~= cv);
    }
    while i < n
        invariant
            n == cols@.len(),
            cv == view_idents(cols@),
            0 <= i <= n,
            resolve_columns_spec(cv) == match resolve_columns_spec(cv.skip(i as int)) {
                Ok(rest) => Ok::<_, CoreErrorV>(out@ + rest),
                Err(e) => Err::<Seq<FileColumn>, _>(e),
            },
        decreases n - i,
    {
        proof {
            assert(cv.skip(i as int)[0] == cv[i as int]);
            assert(cv[i as int] == cols@[i as int]@);
            assert(cv.skip(i as int).drop_first() =~= cv.skip(i + 1));
        }
        let k = match FileColumn::from_str(cols[i].as_str()) {
            Ok(k) => k,
            Err(e) => {
                return Err(e);
            }
        };
        let ghost prev = out@;
        out.push(k);
        proof {
            assert(out@ =~= prev + seq![k]);
            if resolve_columns_spec(cv.skip(i + 1)) is Ok {
                let rest = resolve_columns_spec(cv.skip(i + 1))->Ok_0;
                assert((prev + seq![k]) + rest =~= prev + (seq![k] + rest));
            }
        }
        i = i + 1;
    }
    proof {
        assert(cv.skip(n as int).len() == 0);
        assert(out@ + Seq::<FileColumn>::empty() =~= out@);
    }
    Ok(out)
}

/// Whether a column value's kind is among the chosen kinds.
pub open spec fn kind_in(kinds: Seq<FileColumn>, c: FileColumn) -> bool
    decreases kinds.len(),
{
    if kinds.len() == 0 {
        false
    } else {
        col_rank(kinds[0]) == col_rank(c) || kind_in(kinds.drop_first(), c)
    }
}

fn kind_in_exec(kinds: &Vec<FileColumn>, c: &FileColumn) -> (r: bool)
    ensures
        r == kind_in(kinds@, *c),
{
    let n: usize = kinds.len();
    let mut i: usize = 0;
    proof {
        assert(kinds@.skip(0) =~= kinds@);
    }
    while i < n
        invariant
            n == kinds@.len(),
            0 <= i <= n,
            kind_in(kinds@, *c) == kind_in(kinds@.skip(i as int), *c),
        decreases n - i,
    {
        proof {
            assert(kinds@.skip(i as int)[0] == kinds@[i as int]);
            assert(kinds@.skip(i as int).drop_first() =~= kinds@.skip(i + 1));
        }
        if kinds[i].same_kind(c) {
            return true;
        }
        i = i + 1;
    }
    proof {
        assert(kinds@.skip(n as int).len() == 0);
    }
    false
}

/// The cells of a row whose kinds are among the chosen kinds, in row
/// order.
pub open spec fn filter_cells(row: Seq<FileColumn>, kinds: Seq<FileColumn>) -> Seq<FileColumn>
    decreases row.len(),
{
    if row.len() == 0 {
        Seq::empty()
    } else {
        filter_cells(row.drop_last(), kinds) + if kind_in(kinds, row.last()) {
            seq![row.last()]
        } else {
            Seq::empty()
        }
    }
}

/// The rendered text of each cell.
pub open spec fn display_cells(row: Seq<FileColumn>) -> Seq<Seq<char>> {
    row.map_values(|c: FileColumn| c.display_spec())
}

/// Pads a short row with empty text up to the header width.
pub open spec fn pad_cells(cells: Seq<Seq<char>>, n: nat) -> Seq<Seq<char>> {
    if cells.len() >= n {
        cells
    } else {
        cells + Seq::new((n - cells.len()) as nat, |i: int| Seq::<char>::empty())
    }
}

/// One exported row: the chosen columns of the row rendered as text,
/// padded with empty text up to the header width.
pub open spec fn export_row_spec(row: Seq<FileColumn>, kinds: Seq<FileColumn>) -> Seq<
    Seq<char>,
> {
    pad_cells(display_cells(filter_cells(row, kinds)), kinds.len())
}

/// All exported rows.
pub open spec fn export_rows_spec(rows: Seq<Seq<FileColumn>>, kinds: Seq<FileColumn>) -> Seq<
    Seq<Seq<char>>,
> {
    rows.map_values(|row: Seq<FileColumn>| export_row_spec(row, kinds))
}

/// The pointwise facts of the identifier-sequence view.
proof fn lemma_view_idents_facts(v: Seq<String>)
    ensures
        view_idents(v).len() == v.len(),
        forall|j: int| 0 <= j < v.len() ==> #[trigger] view_idents(v)[j] == v[j]@,
{
}

/// The pointwise facts of the rendered-cells view.
proof fn lemma_display_cells_facts(row: Seq<FileColumn>)
    ensures
        display_cells(row).len() == row.len(),
        forall|j: int| 0 <= j < row.len() ==> #[trigger] display_cells(row)[j] == row[
            j
        ].display_spec(),
{
}

/// The pointwise facts of the header view.
proof fn lemma_header_facts(kinds: Seq<FileColumn>)
    ensures
        header_spec(kinds).len() == kinds.len(),
        forall|j: int| 0 <= j < kinds.len() ==> #[trigger] header_spec(kinds)[j] == kinds[
            j
        ].kind_name_spec(),
{
}

/// Renders one exported row.
fn export_row(row: &Vec<FileColumn>, kinds: &Vec<FileColumn>) -> (r: Vec<String>)
    ensures
        view_idents(r@) == export_row_spec(row@, kinds@),
{
    let n: usize = row.len();
    let mut cells: Vec<String> = Vec::new();
    let mut i: usize = 0;
    proof {
        assert(view_idents(cells@) =~= display_cells(filter_cells(row@.take(0), kinds@)));
    }
    while i < n
        invariant
            n == row@.len(),
            0 <= i <= n,
            view_idents(cells@) == display_cells(filter_cells(row@.take(i as int), kinds@)),
        decreases n - i,
    {
        let ghost prev = cells@;
        if kind_in_exec(kinds, &row[i]) {
            cells.push(row[i].display_string());
        }
        proof {
            assert(row@.take(i + 1).drop_last() =~= row@.take(i as int));
            assert(row@.take(i + 1).last() == row@[i as int]);
            let f1 = filter_cells(row@.take(i as int), kinds@);
            let f2 = filter_cells(row@.take(i + 1), kinds@);
            lemma_view_idents_facts(prev);
            lemma_view_idents_facts(cells@);
            lemma_display_cells_facts(f1);
            lemma_display_cells_facts(f2);
            if kind_in(kinds@, row@[i as int]) {
                assert(f2 =~= f1 + seq![row@[i as int]]);
            } else {
                assert(f2 =~= f1);
            }
            assert(f1.len() == prev.len());
            assert forall|j: int| 0 <= j < cells@.len() implies #[trigger] view_idents(cells@)[j]
                == display_cells(f2)[j] by {
                assert(view_idents(cells@)[j] == cells@[j]@);
                assert(display_cells(f2)[j] == f2[j].display_spec());
                if j < prev.len() {
                    assert(cells@[j] == prev[j]);
                    assert(view_idents(prev)[j] == prev[j]@);
                    assert(view_idents(prev)[j] == display_cells(f1)[j]);
                    assert(display_cells(f1)[j] == f1[j].display_spec());
                    assert(f2[j] == f1[j]);
                } else {
                    assert(f2[j] == row@[i as int]);
                }
            }
            assert(view_idents(cells@).len() == cells@.len());
            assert(display_cells(f2).len() == f2.len());
            assert(view_idents(cells@) =~= display_cells(
                filter_cells(row@.take(i + 1), kinds@),
            ));
        }
        i = i + 1;
    }
    proof {
        assert(row@.take(n as int) =~= row@);
    }
    let ghost filtered = display_cells(filter_cells(row@, kinds@));
    let width: usize = kinds.len();
    proof {
        lemma_view_idents_facts(cells@);
        lemma_display_cells_facts(filter_cells(row@, kinds@));
    }
    while cells.len() < width
        invariant
            filtered == display_cells(filter_cells(row@, kinds@)),
            width == kinds@.len(),
            cells@.len() >= filtered.len(),
            filtered.len() < width ==> cells@.len() <= width,
            filtered.len() >= width ==> cells@.len() == filtered.len(),
            forall|j: int| 0 <= j < filtered.len() ==> #[trigger] cells@[j]@ == filtered[j],
            forall|j: int| filtered.len() <= j < cells@.len() ==> #[trigger] cells@[j]@
                == Seq::<char>::empty(),
        decreases width - cells@.len(),
    {
        let ghost prev = cells@;
        cells.push(String::new());
    }
    proof {
        lemma_view_idents_facts(cells@);
        let target = export_row_spec(row@, kinds@);
        if filtered.len() >= kinds@.len() {
            assert(target == filtered);
            assert forall|j: int| 0 <= j < cells@.len() implies #[trigger] view_idents(
                cells@,
            )[j] == target[j] by {
                assert(view_idents(cells@)[j] == cells@[j]@);
            }
            assert(view_idents(cells@) =~= target);
        } else {
            assert(cells@.len() == kinds@.len());
            assert(target == filtered + Seq::new(
                (kinds@.len() - filtered.len()) as nat,
                |k: int| Seq::<char>::empty(),
            ));
            assert(target.len() == kinds@.len());
            assert forall|j: int| 0 <= j < cells@.len() implies #[trigger] view_idents(
                cells@,
            )[j] == target[j] by {
                assert(view_idents(cells@)[j] == cells@[j]@);
                if j < filtered.len() {
                    assert(target[j] == filtered[j]);
                } else {
                    assert(target[j] == Seq::<char>::empty());
                }
            }
            assert(view_idents(cells@) =~= target);
        }
    }
    cells
}

/// The mathematical value of a rendered row table.
pub open spec fn table_view(v: Seq<Vec<String>>) -> Seq<Seq<Seq<char>>> {
    v.map_values(|x: Vec<String>| view_idents(x@))
}

/// Renders all exported rows.
fn export_rows(rows: &Vec<Vec<FileColumn>>, kinds: &Vec<FileColumn>) -> (r: Vec<Vec<String>>)
    ensures
        table_view(r@) == export_rows_spec(crate::select::rows_view(rows@), kinds@),
{
    let ghost rv = crate::select::rows_view(rows@);
    let n: usize = rows.len();
    let mut out: Vec<Vec<String>> = Vec::new();
    let mut i: usize = 0;
    proof {
        assert(table_view(out@) =~= export_rows_spec(rv.take(0), kinds@));
    }
    while i < n
        invariant
            n == rows@.len(),
            rv == crate::select::rows_view(rows@),
            0 <= i <= n,
            table_view(out@) == export_rows_spec(rv.take(i as int), kinds@),
        decreases n - i,
    {
        let ghost prev = out@;
        out.push(export_row(&rows[i], kinds));
        proof {
            assert(rv[i as int] == rows@[i as int]@);
            assert(prev.len() == table_view(prev).len());
            assert(table_view(prev).len() == export_rows_spec(rv.take(i as int), kinds@).len());
            assert(export_rows_spec(rv.take(i as int), kinds@).len() == i as int);
            assert forall|j: int| 0 <= j < i + 1 implies #[trigger] table_view(out@)[j]
                == export_rows_spec(rv.take(i + 1), kinds@)[j] by {
                assert(table_view(out@)[j] == view_idents(out@[j]@));
                assert(export_rows_spec(rv.take(i + 1), kinds@)[j] == export_row_spec(
                    rv.take(i + 1)[j],
                    kinds@,
                ));
                assert(rv.take(i + 1)[j] == rv[j]);
                if j < i {
                    assert(out@[j] == prev[j]);
                    assert(table_view(prev)[j] == view_idents(prev[j]@));
                    assert(table_view(prev)[j] == export_rows_spec(rv.take(i as int), kinds@)[j]);
                    assert(export_rows_spec(rv.take(i as int), kinds@)[j] == export_row_spec(
                        rv.take(i as int)[j],
                        kinds@,
                    ));
                    assert(rv.take(i as int)[j] == rv[j]);
                }
            }
            assert(table_view(out@) =~= export_rows_spec(rv.take(i + 1), kinds@));
        }
        i = i + 1;
    }
    proof {
        assert(rv.take(n as int) =~= rv);
    }
    out
}

/// Which sink an INSERT target's extension picks: `.csv` goes to the
/// CSV sink, `.json` to the JSON sink, anything else to the console.
pub open spec fn sink_of_spec(path: Seq<char>) -> SinkKind {
    match ext_spec(path) {
        Option::Some(e) => if e == "csv"@ {
            SinkKind::Csv
        } else if e == "json"@ {
            SinkKind::Json
        } else {
            SinkKind::Console
        },
        Option::None => SinkKind::Console,
    }
}

/// Picks the sink for an INSERT target.
fn sink_of(path: &String) -> (r: SinkKind)
    ensures
        r == sink_of_spec(path@),
{
    match extension_of(path.as_str()) {
        Option::Some(e) => {
            let csv_name = String::from_str("csv");
            let json_name = String::from_str("json");
            if e == csv_name {
                SinkKind::Csv
            } else if e == json_name {
                SinkKind::Json
            } else {
                SinkKind::Console
            }
        }
        Option::None => SinkKind::Console,
    }
}

/// The header names of the chosen kinds.
pub open spec fn header_spec(kinds: Seq<FileColumn>) -> Seq<Seq<char>> {
    kinds.map_values(|k: FileColumn| k.kind_name_spec())
}

/// Renders the header names of the chosen kinds.
fn header_names(kinds: &Vec<FileColumn>) -> (r: Vec<String>)
    ensures
        view_idents(r@) == header_spec(kinds@),
{
    let n: usize = kinds.len();
    let mut out: Vec<String> = Vec::new();
    let mut i: usize = 0;
    proof {
        assert(view_idents(out@) =~= header_spec(kinds@.take(0)));
    }
    while i < n
        invariant
            n == kinds@.len(),
            0 <= i <= n,
            view_idents(out@) == header_spec(kinds@.take(i as int)),
        decreases n - i,
    {
        let ghost prev = out@;
        out.push(kinds[i].kind_name());
        proof {
            lemma_view_idents_facts(prev);
            lemma_view_idents_facts(out@);
            lemma_header_facts(kinds@.take(i as int));
            lemma_header_facts(kinds@.take(i + 1));
            assert forall|j: int| 0 <= j < i + 1 implies #[trigger] view_idents(out@)[j]
                == header_spec(kinds@.take(i + 1))[j] by {
                assert(view_idents(out@)[j] == out@[j]@);
                assert(header_spec(kinds@.take(i + 1))[j] == kinds@.take(i + 1)[
                    j
                ].kind_name_spec());
                assert(kinds@.take(i + 1)[j] == kinds@[j]);
                if j < i {
                    assert(out@[j] == prev[j]);
                    assert(view_idents(prev)[j] == prev[j]@);
                    assert(view_idents(prev)[j] == header_spec(kinds@.take(i as int))[j]);
                    assert(header_spec(kinds@.take(i as int))[j] == kinds@.take(i as int)[
                        j
                    ].kind_name_spec());
                    assert(kinds@.take(i as int)[j] == kinds@[j]);
                }
            }
            assert(view_idents(out@).len() == i + 1);
            assert(header_spec(kinds@.take(i + 1)).len() == i + 1);
            assert(view_idents(out@) =~= header_spec(kinds@.take(i + 1)));
        }
        i = i + 1;
    }
    proof {
        assert(kinds@.take(n as int) =~= kinds@);
    }
    out
}

/// What an INSERT yields: the source SELECT's working rows, filtered to
/// the named columns (or all canonical columns when none are named),
/// rendered as text and handed to the sink the target's extension
/// picks. Nothing is written to any table: the export is the only
/// effect.
pub open spec fn insert_spec(
    table_name: Seq<char>,
    columns: Seq<Seq<char>>,
    source: SqlQueryV,
    entries: Seq<(String, Result<Vec<CoreFile>, String>)>,
) -> Result<StatementEffectV, CoreErrorV> {
    match source.body {
        SqlSetExprV::Select(sel) => match select_rows_spec(*sel, entries) {
            Err(e) => Err(e),
            Ok(rows) => {
                let kr = if columns.len() == 0 {
                    Ok(FileColumn::canonical_spec())
                } else {
                    resolve_columns_spec(columns)
                };
                match kr {
                    Err(e) => Err(e),
                    Ok(kinds) => Ok(
                        StatementEffectV::Export {
                            sink: sink_of_spec(table_name),
                            path: table_name,
                            header: header_spec(kinds),
                            rows: export_rows_spec(rows, kinds),
                        },
                    ),
                }
            }
        },
        SqlSetExprV::Unsupported => Err(CoreErrorV::GeneralError(unsupported_query_msg())),
    }
}

/// The rows an UPDATE's predicate keeps, in table order; the first
/// failing row evaluation aborts.
pub open spec fn candidates_spec(files: Seq<CoreFile>, er: ExprResultV) -> Result<
    Seq<CoreFile>,
    CoreErrorV,
>
    decreases files.len(),
{
    if files.len() == 0 {
        Ok(Seq::empty())
    } else {
        match candidates_spec(files.drop_last(), er) {
            Err(e) => Err(e),
            Ok(pre) => match eval_predicate_spec(er, files.last()) {
                Err(e) => Err(e),
                Ok(b) => Ok(
                    pre + if b {
                        seq![files.last()]
                    } else {
                        Seq::empty()
                    },
                ),
            },
        }
    }
}

/// Selects the UPDATE candidates, exactly as `candidates_spec` states.
fn candidates(files: &Vec<CoreFile>, er: &ExprResult) -> (r: Result<Vec<CoreFile>, CoreError>)
    ensures
        match r {
            Ok(v) => candidates_spec(files@, er.view_er()) == Ok::<Seq<CoreFile>, CoreErrorV>(
                v@,
            ),
            Err(e) => candidates_spec(files@, er.view_er()) == Err::<Seq<CoreFile>, CoreErrorV>(
                e.view_err(),
            ),
        },
{
    let n: usize = files.len();
    let mut out: Vec<CoreFile> = Vec::new();
    let mut i: usize = 0;
    proof {
        assert(candidates_spec(files@.take(0), er.view_er()) == Ok::<
            Seq<CoreFile>,
            CoreErrorV,
        >(out@)) by {
            assert(out@ =~= Seq::<CoreFile>::empty());
        };
    }
    while i < n
        invariant
            n == files@.len(),
            0 <= i <= n,
            candidates_spec(files@.take(i as int), er.view_er()) == Ok::<
                Seq<CoreFile>,
                CoreErrorV,
            >(out@),
        decreases n - i,
    {
        proof {
            assert(files@.take(i + 1).drop_last() =~= files@.take(i as int));
            assert(files@.take(i + 1).last() == files@[i as int]);
        }
        let keep = match eval_predicate(er, &files[i]) {
            Ok(b) => b,
            Err(e) => {
                proof {
                    crate::query::lemma_candidates_prefix_err(
                        files@,
                        i as int,
                        er.view_er(),
                        e.view_err(),
                    );
                }
                return Err(e);
            }
        };
        let ghost prev = out@;
        if keep {
            out.push(files[i].duplicate());
            proof {
                assert(out@ =~= prev + seq![files@[i as int]]);
            }
        } else {
            proof {
                assert(out@ =~= prev + Seq::<CoreFile>::empty());
            }
        }
        i = i + 1;
    }
    proof {
        assert(files@.take(n as int) =~= files@);
    }
    Ok(out)
}

/// An error on one row makes the whole candidate selection fail with
/// that error, whatever the earlier rows yielded.
pub proof fn lemma_candidates_prefix_err(
    files: Seq<CoreFile>,
    i: int,
    er: ExprResultV,
    e: CoreErrorV,
)
    requires
        0 <= i < files.len(),
        candidates_spec(files.take(i), er) is Ok,
        eval_predicate_spec(er, files[i]) == Err::<bool, CoreErrorV>(e),
    ensures
        candidates_spec(files, er) == Err::<Seq<CoreFile>, CoreErrorV>(e),
    decreases files.len(),
{
    if files.len() - 1 == i {
        assert(files.drop_last() =~= files.take(i));
        assert(files.last() == files[i]);
    } else {
        assert(files.drop_last().take(i) =~= files.take(i));
        assert(files.drop_last()[i] == files[i]);
        lemma_candidates_prefix_err(files.drop_last(), i, er, e);
    }
}

/// What an UPDATE yields: the named table's rows filtered down to the
/// candidate set its predicate keeps (all rows when there is no
/// predicate). Assignment application is intentionally out of scope:
/// no filesystem state changes.
pub open spec fn update_spec(
    table_name: Seq<char>,
    selection: Option<SqlExprV>,
    entries: Seq<(String, Result<Vec<CoreFile>, String>)>,
) -> Result<StatementEffectV, CoreErrorV> {
    match consume_table_name_spec(table_name, entries) {
        Err(e) => Err(e),
        Ok(files) => match selection {
            Option::None => Ok(StatementEffectV::Selected(files)),
            Option::Some(expr) => match consume_expr_spec(expr, true) {
                Err(e) => Err(e),
                Ok(er) => match candidates_spec(files, er) {
                    Err(e) => Err(e),
                    Ok(c) => Ok(StatementEffectV::Selected(c)),
                },
            },
        },
    }
}

/// What one statement yields.
///
/// A query yields its result rows; an INSERT yields an export to the
/// sink its target picks; an UPDATE yields its candidate row set; SHOW
/// COLUMNS yields the fixed canonical column list, whatever its table
/// argument names and whether or not it exists; every other statement
/// kind is unsupported.
pub open spec fn consume_statement_spec(
    stmt: SqlStatementV,
    entries: Seq<(String, Result<Vec<CoreFile>, String>)>,
) -> Result<StatementEffectV, CoreErrorV> {
    match stmt {
        SqlStatementV::Query(q) => match consume_query_spec(*q, entries) {
            Err(e) => Err(e),
            Ok(cells) => Ok(StatementEffectV::Rows(cells)),
        },
        SqlStatementV::Insert { table_name, columns, source } => insert_spec(
            table_name,
            columns,
            *source,
            entries,
        ),
        SqlStatementV::Update { table_name, assignments, selection } => update_spec(
            table_name,
            selection,
            entries,
        ),
        SqlStatementV::ShowColumns { table_name } => Ok(
            StatementEffectV::ColumnList(column_list_msg()),
        ),
        SqlStatementV::Unsupported => Err(
            CoreErrorV::GeneralError(unsupported_statement_msg()),
        ),
    }
}

/// Evaluates one statement against the preloaded tables, exactly as
/// `consume_statement_spec` states.
pub fn consume_statement(stmt: &SqlStatement, tables: &Tables) -> (r: Result<
    StatementEffect,
    CoreError,
>)
    ensures
        match r {
            Ok(eff) => consume_statement_spec(stmt.view_statement(), tables.entries@) == Ok::<
                StatementEffectV,
                CoreErrorV,
            >(eff.view_effect()),
            Err(e) => consume_statement_spec(stmt.view_statement(), tables.entries@) == Err::<
                StatementEffectV,
                CoreErrorV,
            >(e.view_err()),
        },
{
    match stmt {
        SqlStatement::Query(q) => match consume_query(q, tables) {
            Ok(cells) => Ok(StatementEffect::Rows(cells)),
            Err(e) => Err(e),
        },
        SqlStatement::Insert { table_name, columns, source } => {
            let sel = match &source.body {
                SqlSetExpr::Select(s) => s,
                SqlSetExpr::Unsupported => {
                    return Err(CoreError::GeneralError(String::from_str("Unsupported query")));
                }
            };
            let rows = match crate::select::consume_select_rows(sel, tables) {
                Ok(v) => v,
                Err(e) => {
                    return Err(e);
                }
            };
            let kinds = if columns.len() == 0 {
                proof {
                    assert(view_idents(columns@).len() == columns@.len());
                }
                FileColumn::iterator()
            } else {
                proof {
                    assert(view_idents(columns@).len() == columns@.len());
                }
                match resolve_columns(columns) {
                    Ok(v) => v,
                    Err(e) => {
                        return Err(e);
                    }
                }
            };
            let header = header_names(&kinds);
            let out_rows = export_rows(&rows, &kinds);
            let sink = sink_of(table_name);
            Ok(StatementEffect::Export {
                sink: sink,
                path: table_name.clone(),
                header: header,
                rows: out_rows,
            })
        }
        SqlStatement::Update { table_name, assignments, selection } => {
            let files = match consume_table_name(table_name, tables) {
                Ok(v) => v,
                Err(e) => {
                    return Err(e);
                }
            };
            match selection {
                Option::None => Ok(StatementEffect::Selected(files)),
                Option::Some(expr) => {
                    let er = match consume_expr(expr, true) {
                        Ok(v) => v,
                        Err(e) => {
                            return Err(e);
                        }
                    };
                    match candidates(&files, &er) {
                        Ok(c) => Ok(StatementEffect::Selected(c)),
                        Err(e) => Err(e),
                    }
                }
            }
        }
        SqlStatement::ShowColumns { table_name } => Ok(
            StatementEffect::ColumnList(show_columns()),
        ),
        SqlStatement::Unsupported => Err(
            CoreError::GeneralError(String::from_str("Unsupported statement")),
        ),
    }
}

// ---------------------------------------------------------------------
// The tables a statement needs
// ---------------------------------------------------------------------

/// The table name a relation reference asks for.
pub open spec fn factor_tables_spec(f: crate::ast::SqlTableFactorV) -> Seq<Seq<char>> {
    match f {
        crate::ast::SqlTableFactorV::Table { name, alias } => seq![name],
        crate::ast::SqlTableFactorV::Unsupported => Seq::empty(),
    }
}

/// The table names a join list asks for, in order.
pub open spec fn joins_tables_spec(joins: Seq<crate::ast::SqlJoinV>) -> Seq<Seq<char>>
    decreases joins.len(),
{
    if joins.len() == 0 {
        Seq::empty()
    } else {
        joins_tables_spec(joins.drop_last()) + factor_tables_spec(joins.last().relation)
    }
}

/// The table names a FROM list asks for, in order.
pub open spec fn from_tables_spec(from: Seq<crate::ast::SqlTableWithJoinsV>) -> Seq<Seq<char>>
    decreases from.len(),
{
    if from.len() == 0 {
        Seq::empty()
    } else {
        from_tables_spec(from.drop_last()) + factor_tables_spec(from.last().relation)
            + joins_tables_spec(from.last().joins)
    }
}

/// The table names a query asks for.
pub open spec fn query_tables_spec(q: SqlQueryV) -> Seq<Seq<char>> {
    match q.body {
        SqlSetExprV::Select(s) => from_tables_spec(s.from),
        SqlSetExprV::Unsupported => Seq::empty(),
    }
}

/// The table names one statement asks for: every relation its FROM
/// items and joins reference, the INSERT source's relations, or the
/// updated table. SHOW COLUMNS needs none.
pub open spec fn statement_tables_spec(stmt: SqlStatementV) -> Seq<Seq<char>> {
    match stmt {
        SqlStatementV::Query(q) => query_tables_spec(*q),
        SqlStatementV::Insert { table_name, columns, source } => query_tables_spec(*source),
        SqlStatementV::Update { table_name, assignments, selection } => seq![table_name],
        SqlStatementV::ShowColumns { table_name } => Seq::empty(),
        SqlStatementV::Unsupported => Seq::empty(),
    }
}

/// Appends the table name of one relation reference.
fn push_factor(out: &mut Vec<String>, f: &crate::ast::SqlTableFactor)
    ensures
        view_idents(final(out)@) == view_idents(old(out)@) + factor_tables_spec(
            f.view_factor(),
        ),
{
    match f {
        crate::ast::SqlTableFactor::Table { name, alias } => {
            let ghost prev = out@;
            out.push(name.clone());
            proof {
                crate::ast::lemma_view_idents_push(prev, *name);
                assert(view_idents(prev).push(name@) =~= view_idents(prev) + seq![name@]);
            }
        }
        crate::ast::SqlTableFactor::Unsupported => {
            proof {
                assert(view_idents(out@) + Seq::<Seq<char>>::empty() =~= view_idents(out@));
            }
        }
    }
}

/// Appends the table names of a FROM list, with every join's relation.
#[verifier::loop_isolation(false)]
fn push_from(out: &mut Vec<String>, from: &Vec<crate::ast::SqlTableWithJoins>)
    ensures
        view_idents(final(out)@) == view_idents(old(out)@) + from_tables_spec(
            from@.map_values(|t: crate::ast::SqlTableWithJoins| t.view_twj()),
        ),
{
    let ghost fv = from@.map_values(|t: crate::ast::SqlTableWithJoins| t.view_twj());
    let n: usize = from.len();
    let mut i: usize = 0;
    proof {
        assert(view_idents(out@) + from_tables_spec(fv.take(0)) =~= view_idents(out@));
    }
    while i < n
        invariant
            0 <= i <= n,
            view_idents(out@) == view_idents(old(out)@) + from_tables_spec(fv.take(i as int)),
        decreases n - i,
    {
        proof {
            assert(fv[i as int] == from@[i as int].view_twj());
            assert(fv.take(i + 1).drop_last() =~= fv.take(i as int));
            assert(fv.take(i + 1).last() == fv[i as int]);
        }
        push_factor(out, &from[i].relation);
        let twj = &from[i];
        let ghost jv = fv[i as int].joins;
        let nj: usize = twj.joins.len();
        let mut j: usize = 0;
        proof {
            assert(view_idents(out@) + joins_tables_spec(jv.take(0)) =~= view_idents(out@));
        }
        while j < nj
            invariant
                0 <= j <= nj,
                view_idents(out@) == view_idents(old(out)@) + from_tables_spec(
                    fv.take(i as int),
                ) + factor_tables_spec(fv[i as int].relation) + joins_tables_spec(
                    jv.take(j as int),
                ),
            decreases nj - j,
        {
            proof {
                assert(jv[j as int] == twj.joins@[j as int].view_join());
                assert(jv.take(j + 1).drop_last() =~= jv.take(j as int));
                assert(jv.take(j + 1).last() == jv[j as int]);
            }
            push_factor(out, &twj.joins[j].relation);
            proof {
                assert(view_idents(out@) =~= view_idents(old(out)@) + from_tables_spec(
                    fv.take(i as int),
                ) + factor_tables_spec(fv[i as int].relation) + joins_tables_spec(
                    jv.take(j + 1),
                ));
            }
            j = j + 1;
        }
        proof {
            assert(jv.take(nj as int) =~= jv);
            assert(fv.take(i + 1).drop_last() =~= fv.take(i as int));
            assert(fv.take(i + 1).last() == fv[i as int]);
            assert(view_idents(out@) =~= view_idents(old(out)@) + from_tables_spec(
                fv.take(i + 1),
            ));
        }
        i = i + 1;
    }
    proof {
        assert(fv.take(n as int) =~= fv);
    }
}

/// The tables one statement needs loaded before evaluation, in the
/// order the statement references them.
pub fn tables_needed(stmt: &SqlStatement) -> (r: Vec<String>)
    ensures
        view_idents(r@) == statement_tables_spec(stmt.view_statement()),
{
    let mut out: Vec<String> = Vec::new();
    proof {
        assert(view_idents(out@) =~= Seq::<Seq<char>>::empty());
    }
    match stmt {
        SqlStatement::Query(q) => match &q.body {
            SqlSetExpr::Select(s) => {
                push_from(&mut out, &s.from);
                proof {
                    assert(Seq::<Seq<char>>::empty() + from_tables_spec(
                        s.from@.map_values(|t: crate::ast::SqlTableWithJoins| t.view_twj()),
                    ) =~= from_tables_spec(
                        s.from@.map_values(|t: crate::ast::SqlTableWithJoins| t.view_twj()),
                    ));
                }
            }
            SqlSetExpr::Unsupported => {}
        },
        SqlStatement::Insert { table_name, columns, source } => match &source.body {
            SqlSetExpr::Select(s) => {
                push_from(&mut out, &s.from);
                proof {
                    assert(Seq::<Seq<char>>::empty() + from_tables_spec(
                        s.from@.map_values(|t: crate::ast::SqlTableWithJoins| t.view_twj()),
                    ) =~= from_tables_spec(
                        s.from@.map_values(|t: crate::ast::SqlTableWithJoins| t.view_twj()),
                    ));
                }
            }
            SqlSetExpr::Unsupported => {}
        },
        SqlStatement::Update { table_name, assignments, selection } => {
            let ghost prev = out@;
            out.push(table_name.clone());
            proof {
                crate::ast::lemma_view_idents_push(prev, *table_name);
                assert(view_idents(prev) =~= Seq::<Seq<char>>::empty());
                assert(view_idents(out@) =~= seq![table_name@]);
            }
        }
        SqlStatement::ShowColumns { table_name } => {}
        SqlStatement::Unsupported => {}
    }
    out
}


} // verus!
