//! The join algorithms and the full SELECT pipeline: scenarios over
//! synthetic directory listings.

use systemsql::{
    consume_select, inner_join, left_join, CoreFile, EntryInfo, FileColumn, FileType, SqlExpr,
    SqlJoin, SqlJoinConstraint, SqlJoinOperator, SqlOperator, SqlSelect, SqlSelectItem,
    SqlTableFactor, SqlTableWithJoins, SqlTop, SqlValue, Tables,
};

fn named_file(name: &str, file_type: Option<FileType>) -> CoreFile {
    CoreFile {
        name: Some(name.to_string()),
        path: None,
        file_type,
        file_extension: None,
        size: None,
        created: None,
    }
}

fn entry(name: &str) -> EntryInfo {
    EntryInfo {
        name: name.to_string(),
        path: format!("./test/{}", name),
        is_file: Some(true),
        size: Some(1),
        created: None,
    }
}

fn table(entries: Vec<EntryInfo>) -> Vec<CoreFile> {
    systemsql::table_from_entries(entries)
}

#[test]
fn test_inner_join() {
    let left_one = CoreFile {
        name: Some("left_one".to_string()),
        file_extension: None,
        file_type: Some(FileType::File),
        path: None,
        size: None,
        created: None,
    };
    let left_two = CoreFile {
        name: Some("left_two".to_string()),
        file_extension: None,
        file_type: Some(FileType::File),
        path: None,
        size: None,
        created: None,
    };
    let left = vec![left_one.clone(), left_two.clone()];

    let right_one = CoreFile {
        name: Some("right_one".to_string()),
        file_extension: None,
        file_type: Some(FileType::Dir),
        path: None,
        size: None,
        created: None,
    };
    let right_two = CoreFile {
        name: Some("right_two".to_string()),
        file_extension: None,
        file_type: Some(FileType::File),
        path: None,
        size: None,
        created: None,
    };
    let right = vec![right_one.clone(), right_two.clone()];

    let result = inner_join(left, right, &FileColumn::Type(None), &FileColumn::Type(None));

    assert_eq!(result, vec![(left_one, right_two.clone()), (left_two, right_two)]);
}

#[test]
fn test_left_outer_join() {
    let left_one = CoreFile {
        name: Some("left_one".to_string()),
        file_extension: None,
        file_type: Some(FileType::File),
        path: None,
        size: None,
        created: None,
    };
    let left_two = CoreFile {
        name: Some("left_two".to_string()),
        file_extension: None,
        file_type: Some(FileType::File),
        path: None,
        size: None,
        created: None,
    };
    let left = vec![left_one.clone(), left_two.clone()];

    let right_one = CoreFile {
        name: Some("right_one".to_string()),
        file_extension: None,
        file_type: Some(FileType::Dir),
        path: None,
        size: None,
        created: None,
    };
    let right_two = CoreFile {
        name: Some("right_two".to_string()),
        file_extension: None,
        file_type: Some(FileType::Dir),
        path: None,
        size: None,
        created: None,
    };
    let right = vec![right_one.clone(), right_two.clone()];

    let result = left_join(left, right, &FileColumn::Type(None), &FileColumn::Type(None));

    assert_eq!(result, vec![(left_one, None), (left_two, None)]);
}

// The inner join yields the same row pairs whichever side comes first;
// only the pairing order differs. Compared here on rows whose names
// carry the identity, since these rows have no paths.
#[test]
fn inner_join_commutes_as_a_set() {
    let a = vec![
        named_file("a1", Some(FileType::File)),
        named_file("a2", Some(FileType::Dir)),
    ];
    let b = vec![
        named_file("b1", Some(FileType::File)),
        named_file("b2", Some(FileType::File)),
    ];
    let k = FileColumn::Type(None);
    let ab = inner_join(a.clone(), b.clone(), &k, &k);
    let ba = inner_join(b, a, &k, &k);
    let names = |p: &(CoreFile, CoreFile)| {
        (p.0.name.clone().unwrap(), p.1.name.clone().unwrap())
    };
    let mut ab_pairs: Vec<(String, String)> = ab.iter().map(names).collect();
    let mut ba_pairs: Vec<(String, String)> =
        ba.iter().map(|p| { let (x, y) = names(p); (y, x) }).collect();
    ab_pairs.sort();
    ba_pairs.sort();
    assert_eq!(ab_pairs, ba_pairs);
    assert_eq!(ab_pairs.len(), 2);
}

// The left-outer join keeps every left row at least once.
#[test]
fn left_join_keeps_left_cardinality() {
    let a = vec![
        named_file("a1", Some(FileType::File)),
        named_file("a2", Some(FileType::Dir)),
        named_file("a3", None),
    ];
    let b = vec![named_file("b1", Some(FileType::File))];
    let k = FileColumn::Type(None);
    let r = left_join(a.clone(), b, &k, &k);
    assert!(r.len() >= a.len());
    for f in &a {
        assert!(r.iter().any(|p| p.0.name == f.name));
    }
}

fn select_name_from(table_name: &str, top: Option<SqlTop>, distinct: bool) -> SqlSelect {
    SqlSelect {
        distinct,
        top,
        projection: vec![SqlSelectItem::UnnamedExpr(SqlExpr::Identifier("Name".to_string()))],
        from: vec![SqlTableWithJoins {
            relation: SqlTableFactor::Table { name: table_name.to_string(), alias: None },
            joins: vec![],
        }],
        group_by: vec![],
        selection: None,
        having: None,
    }
}

// Scenario: a directory with `one`, `two`, `3.md`; SELECT Name yields
// exactly three rows with those names, in any order.
#[test]
fn select_name() {
    let mut tables = Tables::new();
    tables.add(
        "./test/".to_string(),
        table(vec![entry("one"), entry("two"), entry("3.md")]),
    );
    let select = select_name_from("./test/", None, false);
    let rows = consume_select(&select, &tables).expect("SELECT Name succeeds");
    assert_eq!(rows.len(), 3);
    let mut names: Vec<String> = rows.iter().map(|c| c.2.clone()).collect();
    names.sort();
    assert_eq!(names, vec!["3.md".to_string(), "one".to_string(), "two".to_string()]);
}

// Scenario: SELECT TOP 1 Name yields exactly one row.
#[test]
fn top_1() {
    let mut tables = Tables::new();
    tables.add(
        "ls".to_string(),
        table(vec![entry("one"), entry("two"), entry("3.md")]),
    );
    let select = select_name_from(
        "ls",
        Some(SqlTop { quantity: Some(SqlExpr::Value(SqlValue::Number("1".to_string()))) }),
        false,
    );
    let result = consume_select(&select, &tables).expect("SELECT TOP 1 Name succeeds");
    assert_eq!(result.iter().count(), 1);
}

#[test]
fn top_zero_is_empty() {
    let mut tables = Tables::new();
    tables.add("ls".to_string(), table(vec![entry("one"), entry("two")]));
    let select = select_name_from(
        "ls",
        Some(SqlTop { quantity: Some(SqlExpr::Value(SqlValue::Number("0".to_string()))) }),
        false,
    );
    let result = consume_select(&select, &tables).unwrap();
    assert_eq!(result.len(), 0);
}

#[test]
fn top_reapplication_is_idempotent() {
    let mut tables = Tables::new();
    tables.add(
        "ls".to_string(),
        table(vec![entry("one"), entry("two"), entry("3.md")]),
    );
    let top2 = |q: &str| select_name_from(
        "ls",
        Some(SqlTop { quantity: Some(SqlExpr::Value(SqlValue::Number(q.to_string()))) }),
        false,
    );
    let once = consume_select(&top2("2"), &tables).unwrap();
    assert_eq!(once.len(), 2);
    // Selecting again with the same or a larger quantity from the same
    // table keeps the same two rows.
    let again = consume_select(&top2("2"), &tables).unwrap();
    assert_eq!(once, again);
}

#[test]
fn non_numeric_top_disables_truncation() {
    let mut tables = Tables::new();
    tables.add("ls".to_string(), table(vec![entry("one"), entry("two")]));
    let select = select_name_from(
        "ls",
        Some(SqlTop {
            quantity: Some(SqlExpr::Value(SqlValue::Number("many".to_string()))),
        }),
        false,
    );
    let result = consume_select(&select, &tables).unwrap();
    assert_eq!(result.len(), 2);
}

#[test]
fn absent_top_quantity_disables_truncation() {
    let mut tables = Tables::new();
    tables.add("ls".to_string(), table(vec![entry("one"), entry("two")]));
    let select = select_name_from("ls", Some(SqlTop { quantity: None }), false);
    let result = consume_select(&select, &tables).unwrap();
    assert_eq!(result.len(), 2);
}

#[test]
fn distinct_removes_duplicates_and_is_idempotent() {
    let mut tables = Tables::new();
    // Two identical entries and one different one.
    tables.add(
        "ls".to_string(),
        table(vec![entry("same"), entry("same"), entry("other")]),
    );
    let select = select_name_from("ls", None, true);
    let once = consume_select(&select, &tables).unwrap();
    assert_eq!(once.len(), 2);
    let again = consume_select(&select, &tables).unwrap();
    assert_eq!(once, again);
    let mut names: Vec<String> = once.iter().map(|c| c.2.clone()).collect();
    names.sort();
    assert_eq!(names, vec!["other".to_string(), "same".to_string()]);
}

#[test]
fn select_with_join_on_type() {
    let mut tables = Tables::new();
    tables.add("a".to_string(), table(vec![entry("x"), entry("y")]));
    tables.add("b".to_string(), table(vec![entry("z")]));
    let select = SqlSelect {
        distinct: false,
        top: None,
        projection: vec![SqlSelectItem::Wildcard],
        from: vec![SqlTableWithJoins {
            relation: SqlTableFactor::Table { name: "a".to_string(), alias: None },
            joins: vec![SqlJoin {
                relation: SqlTableFactor::Table { name: "b".to_string(), alias: None },
                join_operator: SqlJoinOperator::Inner(SqlJoinConstraint::On(SqlExpr::BinaryOp {
                    left: Box::new(SqlExpr::CompoundIdentifier(vec![
                        "a".to_string(),
                        "type".to_string(),
                    ])),
                    op: SqlOperator::Eq,
                    right: Box::new(SqlExpr::CompoundIdentifier(vec![
                        "b".to_string(),
                        "type".to_string(),
                    ])),
                })),
            }],
        }],
        group_by: vec![],
        selection: None,
        having: None,
    };
    // All three entries are plain files, so both left rows match the one
    // right row; a joined row exposes both sides' seven columns.
    let rows = consume_select(&select, &tables).unwrap();
    assert_eq!(rows.len(), 2 * 14);
}

#[test]
fn join_with_non_equality_condition_fails() {
    let mut tables = Tables::new();
    tables.add("a".to_string(), table(vec![entry("x")]));
    tables.add("b".to_string(), table(vec![entry("z")]));
    let select = SqlSelect {
        distinct: false,
        top: None,
        projection: vec![SqlSelectItem::Wildcard],
        from: vec![SqlTableWithJoins {
            relation: SqlTableFactor::Table { name: "a".to_string(), alias: None },
            joins: vec![SqlJoin {
                relation: SqlTableFactor::Table { name: "b".to_string(), alias: None },
                join_operator: SqlJoinOperator::Inner(SqlJoinConstraint::On(SqlExpr::BinaryOp {
                    left: Box::new(SqlExpr::CompoundIdentifier(vec![
                        "a".to_string(),
                        "type".to_string(),
                    ])),
                    op: SqlOperator::Plus,
                    right: Box::new(SqlExpr::CompoundIdentifier(vec![
                        "b".to_string(),
                        "type".to_string(),
                    ])),
                })),
            }],
        }],
        group_by: vec![],
        selection: None,
        having: None,
    };
    assert!(matches!(
        consume_select(&select, &tables),
        Err(systemsql::CoreError::GeneralError(_))
    ));
}

#[test]
fn join_with_mismatched_key_kinds_fails() {
    let mut tables = Tables::new();
    tables.add("a".to_string(), table(vec![entry("x")]));
    tables.add("b".to_string(), table(vec![entry("z")]));
    let select = SqlSelect {
        distinct: false,
        top: None,
        projection: vec![SqlSelectItem::Wildcard],
        from: vec![SqlTableWithJoins {
            relation: SqlTableFactor::Table { name: "a".to_string(), alias: None },
            joins: vec![SqlJoin {
                relation: SqlTableFactor::Table { name: "b".to_string(), alias: None },
                join_operator: SqlJoinOperator::Inner(SqlJoinConstraint::On(SqlExpr::BinaryOp {
                    left: Box::new(SqlExpr::CompoundIdentifier(vec![
                        "a".to_string(),
                        "name".to_string(),
                    ])),
                    op: SqlOperator::Eq,
                    right: Box::new(SqlExpr::CompoundIdentifier(vec![
                        "b".to_string(),
                        "size".to_string(),
                    ])),
                })),
            }],
        }],
        group_by: vec![],
        selection: None,
        having: None,
    };
    assert!(matches!(
        consume_select(&select, &tables),
        Err(systemsql::CoreError::GeneralError(_))
    ));
}

#[test]
fn where_clause_in_select_is_rejected() {
    let mut tables = Tables::new();
    tables.add("ls".to_string(), table(vec![entry("one")]));
    let mut select = select_name_from("ls", None, false);
    select.selection = Some(SqlExpr::Value(SqlValue::Boolean(true)));
    assert!(matches!(
        consume_select(&select, &tables),
        Err(systemsql::CoreError::GeneralError(_))
    ));
}

#[test]
fn left_outer_join_pads_with_null() {
    let mut tables = Tables::new();
    // The left side has a row of unknown kind; the right side rows are
    // all files, so that row finds no match and is padded.
    let mut odd = entry("odd");
    odd.is_file = None;
    tables.add("a".to_string(), table(vec![odd]));
    tables.add("b".to_string(), table(vec![entry("z")]));
    let select = SqlSelect {
        distinct: false,
        top: None,
        projection: vec![SqlSelectItem::Wildcard],
        from: vec![SqlTableWithJoins {
            relation: SqlTableFactor::Table { name: "a".to_string(), alias: None },
            joins: vec![SqlJoin {
                relation: SqlTableFactor::Table { name: "b".to_string(), alias: None },
                join_operator: SqlJoinOperator::LeftOuter(SqlJoinConstraint::On(
                    SqlExpr::BinaryOp {
                        left: Box::new(SqlExpr::CompoundIdentifier(vec![
                            "a".to_string(),
                            "type".to_string(),
                        ])),
                        op: SqlOperator::Eq,
                        right: Box::new(SqlExpr::CompoundIdentifier(vec![
                            "b".to_string(),
                            "type".to_string(),
                        ])),
                    },
                )),
            }],
        }],
        group_by: vec![],
        selection: None,
        having: None,
    };
    // One left row, no match: seven left columns plus a full row of
    // seven null cells, so the joined row keeps the uniform width of
    // fourteen columns.
    let rows = consume_select(&select, &tables).unwrap();
    assert_eq!(rows.len(), 14);
}

// A relation alias binds the rows for later qualified lookups; the
// loaded rows come from the table's own name.
#[test]
fn alias_binds_relation() {
    let mut tables = Tables::new();
    tables.add("./dir/".to_string(), table(vec![entry("one")]));
    let select = SqlSelect {
        distinct: false,
        top: None,
        projection: vec![SqlSelectItem::UnnamedExpr(SqlExpr::Identifier("Name".to_string()))],
        from: vec![SqlTableWithJoins {
            relation: SqlTableFactor::Table {
                name: "./dir/".to_string(),
                alias: Some("d".to_string()),
            },
            joins: vec![],
        }],
        group_by: vec![],
        selection: None,
        having: None,
    };
    let rows = consume_select(&select, &tables).unwrap();
    assert_eq!(rows.len(), 1);
    assert_eq!(rows[0].2, "one");
}

// Projection is item-major: all rows' cells for the first item come
// before any cell of the second item.
#[test]
fn projection_is_item_major() {
    let mut tables = Tables::new();
    let mut a = entry("a");
    a.size = Some(1);
    let mut b = entry("b");
    b.size = Some(2);
    tables.add("ls".to_string(), table(vec![a, b]));
    let select = SqlSelect {
        distinct: false,
        top: None,
        projection: vec![
            SqlSelectItem::UnnamedExpr(SqlExpr::Identifier("Name".to_string())),
            SqlSelectItem::UnnamedExpr(SqlExpr::Identifier("Size".to_string())),
        ],
        from: vec![SqlTableWithJoins {
            relation: SqlTableFactor::Table { name: "ls".to_string(), alias: None },
            joins: vec![],
        }],
        group_by: vec![],
        selection: None,
        having: None,
    };
    let rows = consume_select(&select, &tables).unwrap();
    let values: Vec<String> = rows.iter().map(|c| c.2.clone()).collect();
    assert_eq!(values, vec!["a", "b", "1", "2"]);
}

// Wildcard projection yields one cell per column of every row, with
// the row's values rendered in canonical column order.
#[test]
fn wildcard_projects_all_columns() {
    let mut tables = Tables::new();
    let mut e = entry("a.md");
    e.size = Some(9);
    e.created = Some(3);
    tables.add("ls".to_string(), table(vec![e]));
    let select = SqlSelect {
        distinct: false,
        top: None,
        projection: vec![SqlSelectItem::Wildcard],
        from: vec![SqlTableWithJoins {
            relation: SqlTableFactor::Table { name: "ls".to_string(), alias: None },
            joins: vec![],
        }],
        group_by: vec![],
        selection: None,
        having: None,
    };
    let rows = consume_select(&select, &tables).unwrap();
    let values: Vec<String> = rows.iter().map(|c| c.2.clone()).collect();
    assert_eq!(
        values,
        vec!["a.md", "./test/a.md", "file", "md", "9", "", "3"]
    );
}

// An aliased projection item is an unsupported shape.
#[test]
fn aliased_projection_is_rejected() {
    let mut tables = Tables::new();
    tables.add("ls".to_string(), table(vec![entry("one")]));
    let select = SqlSelect {
        distinct: false,
        top: None,
        projection: vec![SqlSelectItem::ExprWithAlias {
            expr: SqlExpr::Identifier("Name".to_string()),
            alias: "n".to_string(),
        }],
        from: vec![SqlTableWithJoins {
            relation: SqlTableFactor::Table { name: "ls".to_string(), alias: None },
            joins: vec![],
        }],
        group_by: vec![],
        selection: None,
        having: None,
    };
    assert!(matches!(
        consume_select(&select, &tables),
        Err(systemsql::CoreError::GeneralError(_))
    ));
}

// A result mixing matched and unmatched left rows keeps a uniform row
// width: both rows expose fourteen columns, the unmatched one with its
// right half rendered through the Null tag rather than omitted.
#[test]
fn left_outer_join_rows_have_uniform_width() {
    let mut tables = Tables::new();
    let matched = entry("m");
    let mut unmatched = entry("u");
    unmatched.is_file = None;
    tables.add("a".to_string(), table(vec![matched, unmatched]));
    tables.add("b".to_string(), table(vec![entry("z")]));
    let select = SqlSelect {
        distinct: false,
        top: None,
        projection: vec![SqlSelectItem::Wildcard],
        from: vec![SqlTableWithJoins {
            relation: SqlTableFactor::Table { name: "a".to_string(), alias: None },
            joins: vec![SqlJoin {
                relation: SqlTableFactor::Table { name: "b".to_string(), alias: None },
                join_operator: SqlJoinOperator::LeftOuter(SqlJoinConstraint::On(
                    SqlExpr::BinaryOp {
                        left: Box::new(SqlExpr::CompoundIdentifier(vec![
                            "a".to_string(),
                            "type".to_string(),
                        ])),
                        op: SqlOperator::Eq,
                        right: Box::new(SqlExpr::CompoundIdentifier(vec![
                            "b".to_string(),
                            "type".to_string(),
                        ])),
                    },
                )),
            }],
        }],
        group_by: vec![],
        selection: None,
        having: None,
    };
    // Two result rows of fourteen columns each: the matched one pairs
    // "m" with "z", the unmatched one pads with Null-tagged cells.
    let cells = consume_select(&select, &tables).unwrap();
    assert_eq!(cells.len(), 2 * 14);
    let values: Vec<String> = cells.iter().map(|c| c.2.clone()).collect();
    assert_eq!(values[0], "m");
    assert_eq!(values[1 * 14], "u");
    // The unmatched row's right half renders as absent values.
    for k in 7..14 {
        assert_eq!(values[1 * 14 + k], "");
    }
    // The matched row's right half carries the right row's columns.
    assert_eq!(values[7], "z");
}
