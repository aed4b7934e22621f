use free_socks::query::{Cell, Count, Member, QueryError, Table};

#[test]
fn row_count_0_and_no_rows_returns_an_empty_table() {
    let table = Table::from_json(br#"{"row_count":0}"#).unwrap();
    assert!(table.rows.is_empty())
}

#[test]
fn a_table_is_read() {
    let json = r#"{"row_count":2,"rows":[{"b":"1","a":"x y"},{"b":"2","a":"ä"}]}"#;
    let table = Table::from_json(json.as_bytes()).unwrap();
    assert_eq!(table.columns, ["a", "b"]);
    assert_eq!(table.rows, [["x y", "1"], ["\u{e4}", "2"]]);
}

#[test]
fn rows_are_ignored_if_the_row_count_is_0() {
    let table = Table::from_json(br#"{"row_count":0,"rows":17}"#).unwrap();
    assert!(table.columns.is_empty());
    assert!(table.rows.is_empty());
}

#[test]
fn only_the_integer_0_counts_as_no_rows() {
    for count in ["0.0", "\"0\"", "null", "false", "1", "-1"] {
        let json = format!("{{\"row_count\":{}}}", count);
        assert!(matches!(
            Table::from_json(json.as_bytes()),
            Err(QueryError::MissingRows)
        ));
    }
}

#[test]
fn a_table_that_is_none_is_refused() {
    let read = |json: &str| Table::from_json(json.as_bytes());
    assert!(matches!(read("{"), Err(QueryError::Json(_))));
    assert!(matches!(read(""), Err(QueryError::Json(_))));
    assert!(matches!(read("{} x"), Err(QueryError::Json(_))));
    assert!(matches!(Table::from_json(b"\"\xff\""), Err(QueryError::Json(_))));
    assert!(matches!(read("[]"), Err(QueryError::ExpectedObject)));
    assert!(matches!(read("{}"), Err(QueryError::MissingRowCount)));
    assert!(matches!(read(r#"{"row_count":1,"rows":{}}"#), Err(QueryError::ExpectedArray)));
    assert!(matches!(read(r#"{"row_count":1,"rows":[1]}"#), Err(QueryError::ExpectedRowObject)));
    assert!(matches!(
        read(r#"{"row_count":1,"rows":[{"a":1}]}"#),
        Err(QueryError::ExpectedString)
    ));
    assert!(matches!(
        read(r#"{"row_count":2,"rows":[{"a":"1","b":"2"},{"a":"1"}]}"#),
        Err(QueryError::Inconsistent { columns: 2, row: 1 })
    ));
}

#[test]
fn rows_without_cells_may_come_first() {
    let table = Table::from_json(br#"{"row_count":2,"rows":[{},{"a":"1"}]}"#).unwrap();
    assert_eq!(table.columns, ["a"]);
    assert_eq!(table.rows, [vec![], vec!["1".to_string()]]);
    let table = Table::from_json(br#"{"row_count":2,"rows":[{"a":"1"},{}]}"#);
    assert!(matches!(table, Err(QueryError::Inconsistent { columns: 1, row: 0 })));
}

#[test]
fn the_last_of_two_members_with_a_name_counts() {
    let table = Table::from_json(br#"{"row_count":1,"row_count":0}"#).unwrap();
    assert!(table.rows.is_empty());
    let table = Table::from_json(br#"{"row_count":1,"rows":[{"a":"1","a":"2"}]}"#).unwrap();
    assert_eq!(table.columns, ["a"]);
    assert_eq!(table.rows, [["2"]]);
}

#[test]
fn columns_have_distinct_names() {
    let json = br#"{"row_count":1,"rows":[{"c":"1","a":"2","b":"3","a":"4"}]}"#;
    let table = Table::from_json(json).unwrap();
    assert_eq!(table.columns, ["a", "b", "c"]);
    assert_eq!(table.rows, [["4", "3", "1"]]);
}

#[test]
fn a_table_is_read_from_members() {
    let cell = |name: &str, text: &str| Cell {
        name: name.to_string(),
        text: Some(text.to_string()),
    };
    let members = vec![
        Member {
            name: "rows".to_string(),
            signed: None,
            unsigned: None,
            elements: Some(vec![
                Some(vec![cell("z", "1"), cell("y", "2")]),
                Some(vec![cell("q", "3"), cell("r", "4")]),
            ]),
        },
        Member {
            name: "row_count".to_string(),
            signed: Some(2),
            unsigned: Some(2),
            elements: None,
        },
    ];
    let table = Table::from_members(Some(members)).unwrap();
    assert_eq!(table.columns, ["z", "y"]);
    assert_eq!(table.rows, [["1", "2"], ["3", "4"]]);
    assert!(matches!(Table::from_members(None), Err(QueryError::ExpectedObject)));
}

#[test]
fn a_count_is_read() {
    let count = Count::from_json(br#"{"row_count":7}"#).unwrap();
    assert_eq!(usize::from(count), 7);
    assert_eq!(count, Count::from(7));
}

#[test]
fn a_count_that_is_none_is_refused() {
    let read = |json: &str| Count::from_json(json.as_bytes());
    assert!(matches!(read("x"), Err(QueryError::Json(_))));
    assert!(matches!(read("1"), Err(QueryError::ExpectedObject)));
    assert!(matches!(read("{}"), Err(QueryError::MissingRowCount)));
    for count in ["-1", "1.0", "\"1\"", "18446744073709551616"] {
        let json = format!("{{\"row_count\":{}}}", count);
        assert!(matches!(read(&json), Err(QueryError::ExpectedUnsigned)));
    }
}
