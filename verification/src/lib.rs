//! A relational query engine over directory listings: directories are
//! tables, directory entries are rows, and entry metadata (name, path,
//! kind, extension, size, creation time) are the columns.
//!
//! The engine consumes an already-parsed statement tree and evaluates it
//! against row sets that the caller has loaded; every piece of query
//! logic in this crate is verified.

mod ast;
mod column;
mod enumerable;
mod error;
mod expr_result;
mod file;
mod query;
mod select;
mod tables;
mod text;
mod value;

pub use ast::{
    SqlAssignment, SqlExpr, SqlJoin, SqlJoinConstraint, SqlJoinOperator, SqlOperator, SqlQuery,
    SqlSelect, SqlSelectItem, SqlSetExpr, SqlStatement, SqlTableFactor, SqlTableWithJoins, SqlTop,
    SqlValue,
};
pub use column::{Column, FileColumn};
pub use error::CoreError;
pub use enumerable::{inner_join, left_join};
pub use expr_result::ExprResult;
pub use file::{extension_of, table_from_entries, CoreFile, EntryInfo, FileType};
pub use query::{
    consume_expr, consume_expr_ident, consume_op, consume_query, consume_relation,
    consume_statement, consume_table_name, eval_predicate, show_columns, tables_needed, SinkKind,
    StatementEffect,
};
pub use select::{consume_select, consume_select_rows, distinct, match_select_item, project, top_rows};
pub use tables::Tables;
pub use text::{eq_ignore_case, hash_str, i64_to_string, parse_i32, parse_u64, str_lex_le, u64_to_string};
pub use value::CoreValue;
