use hexgate_router::ident::Identifier;
use hexgate_router::sql::{SQLOperation, SelectSQL};

fn op_none() -> SQLOperation {
    SQLOperation {
        limit: None,
        filter: None,
        sort: None,
        distinct: None,
        columns: None,
        distinct_on: None,
    }
}

fn ident(s: &str) -> Identifier {
    Identifier::new(s).unwrap()
}

#[test]
fn test_limit_query() {
    let schema_name = ident("sample");
    let table_name = ident("table");
    let query = SQLOperation { limit: Some(10), ..op_none() };
    let sql_query = SelectSQL::new(schema_name, table_name, query).build().unwrap();
    assert_eq!(sql_query, r#"SELECT * FROM "sample"."table" LIMIT 10"#);
}

#[test]
fn test_empty_columns_query() {
    let schema_name = ident("sample");
    let table_name = ident("table");
    let query = op_none();
    let sql_query = SelectSQL::new(schema_name, table_name, query).build().unwrap();
    assert_eq!(sql_query, r#"SELECT * FROM "sample"."table""#)
}

#[test]
fn test_with_columns_query() {
    let schema_name = ident("sample");
    let table_name = ident("table");
    let query = SQLOperation { columns: Some("id,name,password".to_string()), ..op_none() };
    let sql_query = SelectSQL::new(schema_name, table_name, query).build().unwrap();
    assert_eq!(
        sql_query,
        r#"SELECT "id", "name", "password" FROM "sample"."table""#
    )
}

#[test]
fn test_distinct_query() {
    let schema_name = ident("sample");
    let table_name = ident("table");
    let query = SQLOperation { distinct: Some(true), ..op_none() };
    let sql_query = SelectSQL::new(schema_name, table_name, query).build().unwrap();
    assert_eq!(sql_query, r#"SELECT DISTINCT * FROM "sample"."table""#)
}

#[test]
fn test_distinct_on_query() {
    let schema_name = ident("sample");
    let table_name = ident("table");
    // distinct=true can be optional
    let query = SQLOperation {
        distinct: Some(true),
        distinct_on: Some("id,name,password".to_string()),
        columns: Some("id,name,password".to_string()),
        ..op_none()
    };
    let sql_query = SelectSQL::new(schema_name, table_name, query).build().unwrap();
    assert_eq!(
        sql_query,
        r#"SELECT DISTINCT ON ("id", "name", "password") "id", "name", "password" FROM "sample"."table""#
    )
}

#[test]
fn distinct_on_without_flag_still_distinct() {
    let query = SQLOperation { distinct_on: Some("id".to_string()), ..op_none() };
    let sql_query = SelectSQL::new(ident("sample"), ident("table"), query).build().unwrap();
    assert_eq!(sql_query, r#"SELECT DISTINCT ON ("id") * FROM "sample"."table""#);
    assert!(sql_query.contains("DISTINCT"));
}

#[test]
fn sort_list_renders_order_by() {
    // the query GET /public/users?columns=id,name&limit=2&sort=-id
    let query = SQLOperation {
        columns: Some("id,name".to_string()),
        limit: Some(2),
        sort: Some("-id".to_string()),
        ..op_none()
    };
    let sql_query = SelectSQL::new(ident("public"), ident("users"), query).build().unwrap();
    assert_eq!(
        sql_query,
        r#"SELECT "id", "name" FROM "public"."users" ORDER BY "id" DESC LIMIT 2"#
    );
    let query = SQLOperation { sort: Some("a,-b".to_string()), ..op_none() };
    let sql_query = SelectSQL::new(ident("sample"), ident("table"), query).build().unwrap();
    assert_eq!(
        sql_query,
        r#"SELECT * FROM "sample"."table" ORDER BY "a", "b" DESC"#
    );
}

#[test]
fn bad_sort_item_is_rejected() {
    let query = SQLOperation { sort: Some("-bad name".to_string()), ..op_none() };
    let r = SelectSQL::new(ident("sample"), ident("table"), query).build();
    assert!(matches!(
        r,
        Err(hexgate_router::GatewayError::InvalidIdentifier)
    ));
}

#[test]
fn uninterpreted_filter_field_is_rejected() {
    // the flat filter field has no defined grammar; dropping it silently
    // would widen the result set, so it must fail loudly
    let query = SQLOperation { filter: Some("age=gt.18".to_string()), ..op_none() };
    let r = SelectSQL::new(ident("sample"), ident("table"), query).build();
    assert!(matches!(
        r,
        Err(hexgate_router::GatewayError::MalformedQuery(_))
    ));
}

#[test]
fn bad_column_name_is_rejected_before_text_is_built() {
    let query = SQLOperation { columns: Some("id,na me".to_string()), ..op_none() };
    let r = SelectSQL::new(ident("sample"), ident("table"), query).build();
    assert!(matches!(
        r,
        Err(hexgate_router::GatewayError::InvalidIdentifier)
    ));
}
