use vastrum_node::query::{
    DatabaseCreateTable, DatabaseInsertEntry, DatabaseQuery, DatabaseUpdateEntry, Query,
    SQLFieldTypes, SortingOperation, WhereOperation,
};

#[test]
fn test_build_create_table() {
    let database_create_table = DatabaseCreateTable {
        table_id: 0,
        fields: vec![SQLFieldTypes::Integer, SQLFieldTypes::Text, SQLFieldTypes::Blob],
    };
    let (template, params) = Query::create_table(database_create_table, "contract1_");
    let template_shouldbe = "CREATE TABLE sitecontract1_0 (__PRIMKEY INTEGER PRIMARY KEY NOT NULL, field0 INTEGER NOT NULL, field1 TEXT NOT NULL, field2 BLOB NOT NULL)";
    println!("{:?}", template);
    println!("{:?}", template_shouldbe);
    assert!(params.len() == 0);
    assert!(template == template_shouldbe);
}

#[test]
fn test_build_query() {
    let query = DatabaseQuery {
        number_of_fields: 3,
        table_id: 0,
        sorting_operations: vec![SortingOperation { field_id: 2, descending: true }],
        where_operations: vec![WhereOperation { field_id: 0, value: String::from("33") }],
        limit: 123,
        offset: 5,
    };

    let (template, params) = Query::select(query.table_id, "contract1_")
        .sql_where(query.where_operations)
        .sql_sort_determistic(query.sorting_operations)
        .sql_limit(query.limit, query.offset)
        .calculate();

    let template_shouldbe = "SELECT * FROM sitecontract1_0
WHERE
field0 = ?1
ORDER BY
  field2 DESC
, __PRIMKEY DESC
LIMIT ?2 OFFSET ?3";
    assert!(template == template_shouldbe);
    assert!(params == vec!["33", "123", "5"]);
}

#[test]
fn test_insert_entry() {
    let insert_entry = DatabaseInsertEntry {
        table_id: 0,
        data: vec![
            "\"STRING_EXAMPLE\"".to_string(),
            "123123123".to_string(),
            "\"asjd1j223\"".to_string(),
        ],
    };
    let (template, params) = Query::sql_insert(insert_entry, "contract1_");
    assert!(template == "INSERT INTO sitecontract1_0 (field0, field1, field2) VALUES (?1, ?2, ?3)");
    assert!(params == vec!["\"STRING_EXAMPLE\"", "123123123", "\"asjd1j223\""]);
}

#[test]
fn test_update_entry() {
    let update_entry = DatabaseUpdateEntry {
        table_id: 0,
        select_on_primary_key_value: "KEYEXAMPLE".to_string(),
        data: vec![
            "\"STRING_EXAMPLE\"".to_string(),
            "123123123".to_string(),
            "\"asjd1j223\"".to_string(),
        ],
    };
    let (template, params) = Query::sql_update(update_entry, "contract1_");
    assert!(
        template
            == "UPDATE sitecontract1_0 
 SET field1 = ?1, field2 = ?2, field3 = ?3 
 WHERE field0 = ?4"
    );
    assert!(params == vec!["\"STRING_EXAMPLE\"", "123123123", "\"asjd1j223\"", "KEYEXAMPLE"]);
}

#[test]
fn query_without_filters_or_limit() {
    let (template, params) = Query::select(42, "ns").sql_where(vec![]).sql_sort_determistic(vec![]).sql_limit(0, 9).calculate();
    assert_eq!(template, "SELECT * FROM sitens42\nORDER BY\n  __PRIMKEY DESC");
    assert!(params.is_empty());
}

#[test]
fn two_filters_and_two_sorts() {
    let (template, params) = Query::select(7, "c_")
        .sql_where(vec![
            WhereOperation { field_id: 1, value: "a".to_string() },
            WhereOperation { field_id: 10, value: "b".to_string() },
        ])
        .sql_sort_determistic(vec![
            SortingOperation { field_id: 3, descending: false },
            SortingOperation { field_id: 4, descending: true },
        ])
        .sql_limit(10, 20)
        .calculate();
    assert_eq!(
        template,
        "SELECT * FROM sitec_7\nWHERE\nfield1 = ?1\nAND field10 = ?2\nORDER BY\n  field3 ASC\n, field4 DESC\n, __PRIMKEY DESC\nLIMIT ?3 OFFSET ?4"
    );
    assert_eq!(params, vec!["a", "b", "10", "20"]);
}
