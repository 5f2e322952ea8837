//! Operator folding, expression evaluation, and statement dispatch.

use systemsql::{
    consume_expr, consume_op, consume_statement, CoreError, ExprResult, SinkKind, SqlExpr,
    SqlOperator, SqlQuery, SqlSelect, SqlSelectItem, SqlSetExpr, SqlStatement, SqlTableFactor,
    SqlTableWithJoins, SqlValue, StatementEffect, Tables,
};

fn entry(name: &str, size: u64) -> systemsql::EntryInfo {
    systemsql::EntryInfo {
        name: name.to_string(),
        path: format!("./test/{}", name),
        is_file: Some(true),
        size: Some(size),
        created: Some(7),
    }
}

#[test]
fn consume_op_add_number_number() {
    let left_val = SqlValue::Number("2".to_owned());
    let right_val = SqlValue::Number("2".to_owned());
    let result = consume_op(left_val, &SqlOperator::Plus, right_val);

    assert_eq!(
        match result {
            Ok(SqlValue::Number(string)) => string,
            _ => panic!("Incorrect enum variant expected"),
        },
        "4".to_owned()
    );
}

#[test]
fn consume_op_add_string_string() {
    let left_val = SqlValue::SingleQuotedString("2".to_owned());
    let right_val = SqlValue::SingleQuotedString("2".to_owned());
    let result = consume_op(left_val, &SqlOperator::Plus, right_val);

    assert_eq!(
        match result {
            Ok(SqlValue::SingleQuotedString(string)) => string,
            _ => panic!("Incorrect enum variant expected"),
        },
        "22".to_owned()
    );
}

#[test]
fn consume_op_subtract_string_string() {
    let left_val = SqlValue::SingleQuotedString("2".to_owned());
    let right_val = SqlValue::SingleQuotedString("2".to_owned());
    let result = consume_op(left_val, &SqlOperator::Minus, right_val);

    assert!(match result {
        Err(CoreError::GeneralError(_)) => true,
        _ => panic!("Incorrect enum variant expected"),
    });
}

#[test]
fn consume_op_subtract_number_number() {
    let left_val = SqlValue::Number("-2".to_owned());
    let right_val = SqlValue::Number("-2".to_owned());
    let result = consume_op(left_val, &SqlOperator::Minus, right_val);

    assert_eq!(
        match result {
            Ok(SqlValue::Number(string)) => string,
            _ => panic!("Incorrect enum variant expected"),
        },
        "0".to_owned()
    );
}

#[test]
fn consume_op_null_identities() {
    let r = consume_op(SqlValue::Null, &SqlOperator::Plus, SqlValue::Number("5".to_owned()));
    assert!(matches!(r, Ok(SqlValue::Number(s)) if s == "5"));
    let r = consume_op(SqlValue::Boolean(true), &SqlOperator::Plus, SqlValue::Null);
    assert!(matches!(r, Ok(SqlValue::Boolean(true))));
    let r = consume_op(SqlValue::Null, &SqlOperator::Plus, SqlValue::Null);
    assert!(matches!(r, Ok(SqlValue::Null)));
}

#[test]
fn consume_op_eq_structural() {
    let r = consume_op(
        SqlValue::Number("3".to_owned()),
        &SqlOperator::Eq,
        SqlValue::Number("3".to_owned()),
    );
    assert!(matches!(r, Ok(SqlValue::Boolean(true))));
    let r = consume_op(
        SqlValue::Number("3".to_owned()),
        &SqlOperator::Eq,
        SqlValue::SingleQuotedString("3".to_owned()),
    );
    assert!(matches!(r, Ok(SqlValue::Boolean(false))));
}

#[test]
fn consume_op_mixed_types_fail() {
    let r = consume_op(
        SqlValue::Number("3".to_owned()),
        &SqlOperator::Plus,
        SqlValue::SingleQuotedString("3".to_owned()),
    );
    assert!(matches!(r, Err(CoreError::GeneralError(_))));
}

#[test]
fn consume_expr_identifier_resolves() {
    let r = consume_expr(&SqlExpr::Identifier("Name".to_string()), false);
    assert!(matches!(r, Ok(ExprResult::Select(_))));
}

#[test]
fn consume_expr_unknown_identifier_fails() {
    let r = consume_expr(&SqlExpr::Identifier("nonsense".to_string()), false);
    match r {
        Err(CoreError::GeneralError(m)) => {
            assert_eq!(m, "No type matching nonsense was found");
        }
        _ => panic!("expected a GeneralError"),
    }
}

#[test]
fn consume_expr_compound_identifier() {
    let r = consume_expr(
        &SqlExpr::CompoundIdentifier(vec!["files".to_string(), "size".to_string()]),
        false,
    );
    match r {
        Ok(ExprResult::CompoundSelect(table, _)) => assert_eq!(table, "files"),
        _ => panic!("expected a qualified selector"),
    }
}

#[test]
fn consume_expr_folds_literal_sum() {
    let e = SqlExpr::BinaryOp {
        left: Box::new(SqlExpr::Value(SqlValue::Number("2".to_string()))),
        op: SqlOperator::Plus,
        right: Box::new(SqlExpr::Value(SqlValue::Number("2".to_string()))),
    };
    let r = consume_expr(&e, true);
    assert!(matches!(r, Ok(ExprResult::Value(SqlValue::Number(s))) if s == "4"));
}

#[test]
fn consume_expr_binary_without_tables_fails() {
    let e = SqlExpr::BinaryOp {
        left: Box::new(SqlExpr::Value(SqlValue::Number("2".to_string()))),
        op: SqlOperator::Plus,
        right: Box::new(SqlExpr::Value(SqlValue::Number("2".to_string()))),
    };
    assert!(matches!(consume_expr(&e, false), Err(CoreError::GeneralError(_))));
}

#[test]
fn show_columns_is_fixed() {
    let stmt = SqlStatement::ShowColumns { table_name: "anything".to_string() };
    let tables = Tables::new();
    match consume_statement(&stmt, &tables) {
        Ok(StatementEffect::ColumnList(s)) => {
            assert_eq!(s, "Name, Path, Type, FileExtension, Size, AbsolutePath, Created");
        }
        _ => panic!("expected the column list"),
    }
}

#[test]
fn show_columns_ignores_missing_table() {
    let stmt = SqlStatement::ShowColumns { table_name: "no/such/dir".to_string() };
    let stmt2 = SqlStatement::ShowColumns { table_name: "another".to_string() };
    let tables = Tables::new();
    let a = match consume_statement(&stmt, &tables) {
        Ok(StatementEffect::ColumnList(s)) => s,
        _ => panic!("expected the column list"),
    };
    let b = match consume_statement(&stmt2, &tables) {
        Ok(StatementEffect::ColumnList(s)) => s,
        _ => panic!("expected the column list"),
    };
    assert_eq!(a, b);
}

#[test]
fn unsupported_statement_fails() {
    let tables = Tables::new();
    assert!(matches!(
        consume_statement(&SqlStatement::Unsupported, &tables),
        Err(CoreError::GeneralError(_))
    ));
}

fn select_all_from(table: &str) -> SqlSelect {
    SqlSelect {
        distinct: false,
        top: None,
        projection: vec![SqlSelectItem::Wildcard],
        from: vec![SqlTableWithJoins {
            relation: SqlTableFactor::Table { name: table.to_string(), alias: None },
            joins: vec![],
        }],
        group_by: vec![],
        selection: None,
        having: None,
    }
}

#[test]
fn missing_table_is_io_error() {
    let stmt = SqlStatement::Query(Box::new(SqlQuery {
        body: SqlSetExpr::Select(Box::new(select_all_from("nowhere"))),
    }));
    let tables = Tables::new();
    assert!(matches!(consume_statement(&stmt, &tables), Err(CoreError::IOError(_))));
}

#[test]
fn unreadable_table_reports_recorded_message() {
    let stmt = SqlStatement::Query(Box::new(SqlQuery {
        body: SqlSetExpr::Select(Box::new(select_all_from("locked"))),
    }));
    let mut tables = Tables::new();
    tables.add_error("locked".to_string(), "permission denied".to_string());
    match consume_statement(&stmt, &tables) {
        Err(CoreError::IOError(m)) => assert_eq!(m, "permission denied"),
        _ => panic!("expected an IOError"),
    }
}

#[test]
fn insert_exports_to_csv_sink() {
    let stmt = SqlStatement::Insert {
        table_name: "out.csv".to_string(),
        columns: vec!["name".to_string(), "size".to_string()],
        source: Box::new(SqlQuery {
            body: SqlSetExpr::Select(Box::new(select_all_from("dir"))),
        }),
    };
    let mut tables = Tables::new();
    tables.add(
        "dir".to_string(),
        systemsql::table_from_entries(vec![entry("a.txt", 10), entry("b.txt", 20)]),
    );
    match consume_statement(&stmt, &tables) {
        Ok(StatementEffect::Export { sink, path, header, rows }) => {
            assert_eq!(sink, SinkKind::Csv);
            assert_eq!(path, "out.csv");
            assert_eq!(header, vec!["Name".to_string(), "Size".to_string()]);
            assert_eq!(rows.len(), 2);
            assert_eq!(rows[0], vec!["a.txt".to_string(), "10".to_string()]);
            assert_eq!(rows[1], vec!["b.txt".to_string(), "20".to_string()]);
        }
        _ => panic!("expected an export"),
    }
}

#[test]
fn insert_sink_by_extension() {
    let mk = |target: &str| SqlStatement::Insert {
        table_name: target.to_string(),
        columns: vec![],
        source: Box::new(SqlQuery {
            body: SqlSetExpr::Select(Box::new(select_all_from("dir"))),
        }),
    };
    let mut tables = Tables::new();
    tables.add("dir".to_string(), vec![]);
    let sinks: Vec<SinkKind> = ["x.csv", "x.json", "x.txt", "plain"]
        .iter()
        .map(|t| match consume_statement(&mk(t), &tables) {
            Ok(StatementEffect::Export { sink, .. }) => sink,
            _ => panic!("expected an export"),
        })
        .collect();
    assert_eq!(sinks, vec![SinkKind::Csv, SinkKind::Json, SinkKind::Console, SinkKind::Console]);
}

#[test]
fn insert_unknown_column_fails() {
    let stmt = SqlStatement::Insert {
        table_name: "out.csv".to_string(),
        columns: vec!["bogus".to_string()],
        source: Box::new(SqlQuery {
            body: SqlSetExpr::Select(Box::new(select_all_from("dir"))),
        }),
    };
    let mut tables = Tables::new();
    tables.add("dir".to_string(), vec![]);
    assert!(matches!(consume_statement(&stmt, &tables), Err(CoreError::GeneralError(_))));
}

#[test]
fn update_without_predicate_selects_all() {
    let stmt = SqlStatement::Update {
        table_name: "dir".to_string(),
        assignments: vec![],
        selection: None,
    };
    let mut tables = Tables::new();
    tables.add(
        "dir".to_string(),
        systemsql::table_from_entries(vec![entry("a", 1), entry("b", 2)]),
    );
    match consume_statement(&stmt, &tables) {
        Ok(StatementEffect::Selected(files)) => assert_eq!(files.len(), 2),
        _ => panic!("expected a candidate set"),
    }
}

#[test]
fn update_predicate_filters_candidates() {
    // WHERE size = created compares two different column kinds, so the
    // equality is false on every row and no candidate survives.
    let stmt = SqlStatement::Update {
        table_name: "dir".to_string(),
        assignments: vec![],
        selection: Some(SqlExpr::BinaryOp {
            left: Box::new(SqlExpr::Identifier("size".to_string())),
            op: SqlOperator::Eq,
            right: Box::new(SqlExpr::Identifier("created".to_string())),
        }),
    };
    let mut tables = Tables::new();
    let mut e1 = entry("same", 7);
    e1.created = Some(7);
    e1.size = Some(7);
    let mut e2 = entry("differs", 3);
    e2.created = Some(9);
    e2.size = Some(3);
    tables.add("dir".to_string(), systemsql::table_from_entries(vec![e1, e2]));
    match consume_statement(&stmt, &tables) {
        Ok(StatementEffect::Selected(files)) => {
            assert_eq!(files.len(), 0);
        }
        _ => panic!("expected a candidate set"),
    }
}

#[test]
fn update_predicate_same_column_keeps_all() {
    let stmt = SqlStatement::Update {
        table_name: "dir".to_string(),
        assignments: vec![],
        selection: Some(SqlExpr::BinaryOp {
            left: Box::new(SqlExpr::Identifier("name".to_string())),
            op: SqlOperator::Eq,
            right: Box::new(SqlExpr::Identifier("name".to_string())),
        }),
    };
    let mut tables = Tables::new();
    tables.add(
        "dir".to_string(),
        systemsql::table_from_entries(vec![entry("a", 1), entry("b", 2)]),
    );
    match consume_statement(&stmt, &tables) {
        Ok(StatementEffect::Selected(files)) => assert_eq!(files.len(), 2),
        _ => panic!("expected a candidate set"),
    }
}

#[test]
fn consume_query() {
    // An unsupported query body is rejected rather than guessed at.
    let q = SqlQuery { body: SqlSetExpr::Unsupported };
    let tables = Tables::new();
    assert!(matches!(
        systemsql::consume_query(&q, &tables),
        Err(CoreError::GeneralError(_))
    ));
}

#[test]
fn consume_table_name() {
    let mut tables = Tables::new();
    tables.add(
        "./test/".to_string(),
        systemsql::table_from_entries(vec![entry("one", 1), entry("two", 2), entry("3.md", 3)]),
    );
    let files = systemsql::consume_table_name(&"./test/".to_string(), &tables);
    assert_eq!(files.expect("Directory is readable").len(), 3);
}

#[test]
fn compound_identifier_needs_two_parts() {
    let r = consume_expr(&SqlExpr::CompoundIdentifier(vec!["size".to_string()]), false);
    assert!(matches!(r, Err(CoreError::GeneralError(_))));
}

#[test]
fn predicate_literal_boolean() {
    let row = systemsql::CoreFile {
        name: None,
        path: None,
        file_type: None,
        file_extension: None,
        size: None,
        created: None,
    };
    let t = ExprResult::Value(SqlValue::Boolean(true));
    assert_eq!(systemsql::eval_predicate(&t, &row).unwrap(), true);
    let f = ExprResult::Value(SqlValue::Boolean(false));
    assert_eq!(systemsql::eval_predicate(&f, &row).unwrap(), false);
    let other = ExprResult::Value(SqlValue::Null);
    assert!(matches!(
        systemsql::eval_predicate(&other, &row),
        Err(CoreError::GeneralError(_))
    ));
}

#[test]
fn tables_needed_lists_relations() {
    let stmt = SqlStatement::Query(Box::new(SqlQuery {
        body: SqlSetExpr::Select(Box::new(select_all_from("a"))),
    }));
    assert_eq!(systemsql::tables_needed(&stmt), vec!["a".to_string()]);
    let upd = SqlStatement::Update {
        table_name: "dir".to_string(),
        assignments: vec![],
        selection: None,
    };
    assert_eq!(systemsql::tables_needed(&upd), vec!["dir".to_string()]);
    let show = SqlStatement::ShowColumns { table_name: "x".to_string() };
    assert_eq!(systemsql::tables_needed(&show), Vec::<String>::new());
}
