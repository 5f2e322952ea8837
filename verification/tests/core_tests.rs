//! The column model, rows, values, and the text helpers.

use systemsql::{
    consume_table_name, eq_ignore_case, extension_of, i64_to_string, parse_i32, parse_u64,
    table_from_entries, u64_to_string, Column, CoreError, CoreFile, CoreValue, EntryInfo,
    FileColumn, FileType, Tables,
};

fn entry(name: &str, size: Option<u64>, is_file: Option<bool>) -> EntryInfo {
    EntryInfo {
        name: name.to_string(),
        path: format!("./d/{}", name),
        is_file,
        size,
        created: Some(132534735),
    }
}

// Column resolution is case-insensitive and total on the documented
// name set; every other text fails with a GeneralError naming it.
#[test]
fn kind_of_accepts_every_documented_spelling() {
    let cases: Vec<(&str, FileColumn)> = vec![
        ("name", FileColumn::Name(None)),
        ("NAME", FileColumn::Name(None)),
        ("Name", FileColumn::Name(None)),
        ("path", FileColumn::Path(None)),
        ("type", FileColumn::Type(None)),
        ("filetype", FileColumn::Type(None)),
        ("FileType", FileColumn::Type(None)),
        ("file_extension", FileColumn::FileExtension(None)),
        ("fileextension", FileColumn::FileExtension(None)),
        ("size", FileColumn::Size(None)),
        ("SIZE", FileColumn::Size(None)),
        ("absolutepath", FileColumn::AbsolutePath(None)),
        ("absolute_path", FileColumn::AbsolutePath(None)),
        ("created", FileColumn::Created(None)),
        ("Created", FileColumn::Created(None)),
    ];
    for (text, want) in cases {
        match FileColumn::from_str(text) {
            Ok(k) => assert!(k.eq_col(&want), "spelling {} resolved to the wrong kind", text),
            Err(_) => panic!("spelling {} should resolve", text),
        }
    }
}

#[test]
fn kind_of_rejects_unknown_names() {
    for text in ["", "nam", "names", "pathx", "extension", "mtime"] {
        match FileColumn::from_str(text) {
            Err(CoreError::GeneralError(m)) => {
                assert_eq!(m, format!("No type matching {} was found", text));
            }
            _ => panic!("{} should be rejected", text),
        }
    }
}

#[test]
fn plain_column_resolution() {
    assert!(matches!(Column::from_str("FILETYPE"), Ok(Column::FileType)));
    assert!(matches!(Column::from_str("file_type"), Ok(Column::FileType)));
    assert!(matches!(Column::from_str("created"), Err(())));
}

#[test]
fn column_iterators_are_canonical() {
    assert_eq!(Column::iterator().len(), 6);
    let cols = FileColumn::iterator();
    assert_eq!(cols.len(), 7);
    let names: Vec<String> = cols.iter().map(|c| c.kind_name()).collect();
    assert_eq!(
        names,
        vec!["Name", "Path", "Type", "FileExtension", "Size", "AbsolutePath", "Created"]
    );
}

// A row whose metadata cannot be read yields the absent payload for
// every column; no access ever fails.
#[test]
fn value_of_never_fails_on_missing_metadata() {
    let gone = CoreFile {
        name: Some("gone".to_string()),
        path: Some("./d/gone".to_string()),
        file_type: None,
        file_extension: None,
        size: None,
        created: None,
    };
    for kind in FileColumn::iterator() {
        let v = gone.column(&kind);
        assert!(v.same_kind(&kind));
        match v {
            FileColumn::Name(p) => assert_eq!(p, Some("gone".to_string())),
            FileColumn::Path(p) => assert_eq!(p, Some("./d/gone".to_string())),
            FileColumn::Type(p) => assert!(p.is_none()),
            FileColumn::FileExtension(p) => assert!(p.is_none()),
            FileColumn::Size(p) => assert!(p.is_none()),
            FileColumn::AbsolutePath(p) => assert!(p.is_none()),
            FileColumn::Created(p) => assert!(p.is_none()),
            FileColumn::Null => panic!("no null column was asked for"),
        }
    }
    assert!(matches!(gone.size(), Err(CoreError::IOError(_))));
}

// One row per directory entry, snapshotting the entry's fields.
#[test]
fn load_table_one_row_per_entry() {
    let entries = vec![
        entry("one", Some(10), Some(true)),
        entry("two", Some(20), Some(false)),
        entry("3.md", None, None),
    ];
    let rows = table_from_entries(entries);
    assert_eq!(rows.len(), 3);
    assert_eq!(rows[0].name, Some("one".to_string()));
    assert_eq!(rows[0].path, Some("./d/one".to_string()));
    assert_eq!(rows[0].file_type, Some(FileType::File));
    assert_eq!(rows[0].size, Some(10));
    assert_eq!(rows[1].file_type, Some(FileType::Dir));
    assert_eq!(rows[2].file_type, None);
    assert_eq!(rows[2].file_extension, Some("md".to_string()));
    assert_eq!(rows[0].file_extension, None);
}

#[test]
fn extension_is_text_after_last_dot() {
    assert_eq!(extension_of("3.md"), Some("md".to_string()));
    assert_eq!(extension_of("archive.tar.gz"), Some("gz".to_string()));
    assert_eq!(extension_of("plain"), None);
    assert_eq!(extension_of(""), None);
    assert_eq!(extension_of("dot."), Some("".to_string()));
}

#[test]
fn display_renders_payloads() {
    assert_eq!(FileColumn::Name(Some("a.txt".to_string())).display_string(), "a.txt");
    assert_eq!(FileColumn::Size(Some(5500)).display_string(), "5500");
    assert_eq!(FileColumn::Size(None).display_string(), "");
    assert_eq!(FileColumn::Type(Some(FileType::File)).display_string(), "file");
    assert_eq!(FileColumn::Type(Some(FileType::Dir)).display_string(), "directory");
    assert_eq!(FileColumn::Null.display_string(), "");
    assert_eq!(FileColumn::Created(Some(132534735)).display_string(), "132534735");
}

#[test]
fn cell_identifiers_are_stable() {
    let a = FileColumn::Name(Some("x".to_string()));
    let b = FileColumn::Name(Some("x".to_string()));
    let c = FileColumn::Path(Some("x".to_string()));
    assert_eq!(a.ident_hash(), b.ident_hash());
    // The same payload under another kind keeps its own identity.
    assert_ne!(a.ident_hash(), c.ident_hash());
}

#[test]
fn numbers_round_trip_through_text() {
    assert_eq!(u64_to_string(0), "0");
    assert_eq!(u64_to_string(12345), "12345");
    assert_eq!(i64_to_string(-42), "-42");
    assert_eq!(parse_u64("12345"), Some(12345));
    assert_eq!(parse_u64(""), None);
    assert_eq!(parse_u64("12a"), None);
    assert_eq!(parse_u64("99999999999999999999999"), None);
    assert_eq!(parse_i32("-42"), Some(-42));
    assert_eq!(parse_i32("2147483647"), Some(2147483647));
    assert_eq!(parse_i32("2147483648"), None);
}

#[test]
fn case_insensitive_comparison() {
    assert!(eq_ignore_case("FileExtension", "fileextension"));
    assert!(eq_ignore_case("", ""));
    assert!(!eq_ignore_case("name", "nam"));
    assert!(!eq_ignore_case("name", "nape"));
}

#[test]
fn core_value_arithmetic() {
    let s = CoreValue::String("ab".to_string()).add(CoreValue::String("cd".to_string()));
    assert!(matches!(s, CoreValue::String(x) if x == "abcd"));
    let n = CoreValue::Number(2).add(CoreValue::Number(3));
    assert!(matches!(n, CoreValue::Number(5)));
    let mixed = CoreValue::Number(2).add(CoreValue::Bool(true));
    assert!(matches!(mixed, CoreValue::Nothing));
    assert!(matches!(
        CoreValue::Number(5).sub(CoreValue::Number(2)),
        Some(CoreValue::Number(3))
    ));
    assert!(matches!(
        CoreValue::String("a".to_string()).sub(CoreValue::String("b".to_string())),
        None
    ));
    assert!(matches!(
        CoreValue::Number(6).mul(CoreValue::Number(7)),
        Some(CoreValue::Number(42))
    ));
    assert!(matches!(
        CoreValue::Number(7).div(CoreValue::Number(2)),
        Some(CoreValue::Number(3))
    ));
    assert!(CoreValue::Number(3) == CoreValue::Number(3));
    assert!(CoreValue::Bool(true) != CoreValue::Bool(true));
    assert!(CoreValue::from("x".to_string()) == CoreValue::String("x".to_string()));
    assert!(matches!(CoreValue::from(true), CoreValue::Bool(true)));
    assert!(matches!(CoreValue::from(9usize), CoreValue::Number(9)));
}

#[test]
fn rows_compare_by_path() {
    let a = CoreFile {
        name: Some("a".to_string()),
        path: Some("./same".to_string()),
        file_type: Some(FileType::File),
        file_extension: None,
        size: Some(1),
        created: None,
    };
    let b = CoreFile {
        name: Some("b".to_string()),
        path: Some("./same".to_string()),
        file_type: Some(FileType::Dir),
        file_extension: None,
        size: Some(2),
        created: None,
    };
    assert!(a == b);
    let c = CoreFile { path: Some("./other".to_string()), ..a.clone() };
    assert!(a != c);
}

#[test]
fn error_messages_carry_through() {
    let tables = Tables::new();
    match consume_table_name(&"missing".to_string(), &tables) {
        Err(e) => assert_eq!(e.message(), "No such table was loaded: missing"),
        Ok(_) => panic!("lookup of a missing table must fail"),
    }
    let e = CoreError::UnknownError("f".to_string(), 1, 2);
    assert_eq!(e.message(), "f");
    assert_eq!(CoreError::ParserError("syntax".to_string()).message(), "syntax");
    assert_eq!(CoreError::CsvError("bad csv".to_string()).message(), "bad csv");
}

#[test]
fn absolute_path_is_unimplemented() {
    let f = CoreFile {
        name: None,
        path: None,
        file_type: None,
        file_extension: None,
        size: None,
        created: None,
    };
    assert!(matches!(f.absolute_path(), Err(CoreError::IOError(_))));
}

// Addition is the one column operator: defined between two present
// sizes only; every other pairing fails closed.
#[test]
fn column_addition_is_size_only() {
    let r = FileColumn::Size(Some(5)).add_col(&FileColumn::Size(Some(7)));
    assert!(matches!(r, Ok(FileColumn::Size(Some(12)))));
    assert!(matches!(
        FileColumn::Size(Some(1)).add_col(&FileColumn::Name(Some("x".to_string()))),
        Err(CoreError::GeneralError(_))
    ));
    assert!(matches!(
        FileColumn::Size(None).add_col(&FileColumn::Size(Some(1))),
        Err(CoreError::GeneralError(_))
    ));
    assert!(matches!(
        FileColumn::Null.add_col(&FileColumn::Null),
        Err(CoreError::GeneralError(_))
    ));
    assert!(matches!(
        FileColumn::Created(Some(1)).add_col(&FileColumn::Created(Some(2))),
        Err(CoreError::GeneralError(_))
    ));
}
