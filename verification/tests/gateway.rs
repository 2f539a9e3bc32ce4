use hexgate_router::GatewayError;
use hexgate_router::digits::u64_to_dec;
use hexgate_router::compile::{
    compile_call, compile_delete, compile_insert, compile_select, compile_update,
};
use hexgate_router::ident::{Identifier, ResourceKind, resolve};
use hexgate_router::operation::OperationSpec;
use hexgate_router::parse::parse;
use hexgate_router::rows::map_rows;
use hexgate_router::txn::{
    TxAction, TxState, begin_mutation, connection_may_release, on_cancel, on_statement_result,
    run_statements,
};
use hexgate_router::value::{PayloadEntry, SqlValue};

fn addr(schema: &str, name: &str) -> hexgate_router::ident::ResourceAddress {
    resolve(schema, name, ResourceKind::Table).unwrap()
}

fn entry(k: &str, v: SqlValue) -> PayloadEntry {
    PayloadEntry { key: k.to_string(), value: v }
}

// identifier grammar

#[test]
fn resolve_accepts_grammar_conforming_segments() {
    let a = resolve("public", "users", ResourceKind::Table).unwrap();
    assert_eq!(a.schema.as_str(), "public");
    assert_eq!(a.name.as_str(), "users");
    assert!(resolve("_private", "t0_x", ResourceKind::Function).is_ok());
}

#[test]
fn resolve_rejects_unsafe_segments() {
    for bad in [
        "",
        "users; DROP TABLE users",
        "o'hara",
        "has space",
        "tab\tname",
        "1starts_with_digit",
        "semi;colon",
        "quo\"te",
        "paren(s)",
    ] {
        let r = resolve("public", bad, ResourceKind::Table);
        assert!(matches!(r, Err(GatewayError::InvalidIdentifier)), "{bad}");
    }
    // 63 characters is accepted, 64 is over the bound
    let just_fits = "a".repeat(63);
    let too_long = "a".repeat(64);
    assert!(resolve(&just_fits, "t", ResourceKind::Table).is_ok());
    assert!(matches!(
        resolve(&too_long, "t", ResourceKind::Table),
        Err(GatewayError::InvalidIdentifier)
    ));
}

// operator parser

#[test]
fn parse_empty_query_is_empty_spec() {
    let op = parse("").unwrap();
    assert!(op.limit.is_none());
    assert!(op.offset.is_none());
    assert!(op.columns.is_none());
    assert!(!op.distinct);
    assert_eq!(op.distinct_on.len(), 0);
    assert_eq!(op.filters.len(), 0);
    assert_eq!(op.sort.len(), 0);
}

#[test]
fn parse_recognized_keys() {
    let op = parse("limit=7&offset=3&columns=id,name&distinct=true&sort=a,-b").unwrap();
    assert_eq!(op.limit, Some(7));
    assert_eq!(op.offset, Some(3));
    let cols = op.columns.as_ref().unwrap();
    assert_eq!(cols.len(), 2);
    assert_eq!(cols[0].as_str(), "id");
    assert_eq!(cols[1].as_str(), "name");
    assert!(op.distinct);
    assert_eq!(op.sort.len(), 2);
    assert_eq!(op.sort[0].column.as_str(), "a");
    assert!(!op.sort[0].descending);
    assert_eq!(op.sort[1].column.as_str(), "b");
    assert!(op.sort[1].descending);
}

#[test]
fn parse_rejects_malformed_input() {
    assert!(matches!(parse("limit=abc"), Err(GatewayError::MalformedQuery(_))));
    assert!(matches!(parse("limit="), Err(GatewayError::MalformedQuery(_))));
    assert!(matches!(parse("age=foo.1"), Err(GatewayError::MalformedQuery(_))));
    assert!(matches!(parse("age=18"), Err(GatewayError::MalformedQuery(_))));
    assert!(matches!(parse("age=in.(1,2"), Err(GatewayError::MalformedQuery(_))));
    assert!(matches!(parse("age=gt."), Err(GatewayError::MalformedQuery(_))));
    assert!(matches!(parse("age=in.(1,,2)"), Err(GatewayError::MalformedQuery(_))));
    assert!(matches!(parse("distinct=maybe"), Err(GatewayError::MalformedQuery(_))));
    assert!(matches!(parse("no_equals_sign"), Err(GatewayError::MalformedQuery(_))));
    assert!(matches!(parse("columns=id,bad name"), Err(GatewayError::InvalidIdentifier)));
    assert!(matches!(parse("bad col=eq.1"), Err(GatewayError::InvalidIdentifier)));
}

#[test]
fn parse_limit_bounds() {
    // the largest value that fits is accepted; one past it is rejected
    let op = parse("limit=18446744073709551615").unwrap();
    assert_eq!(op.limit, Some(u64::MAX));
    assert!(matches!(
        parse("limit=18446744073709551616"),
        Err(GatewayError::MalformedQuery(_))
    ));
}

// scenario: GET /public/users?columns=id,name&limit=2&sort=-id

#[test]
fn select_scenario_projection_sort_limit() {
    let a = addr("public", "users");
    let op = parse("columns=id,name&limit=2&sort=-id").unwrap();
    let st = compile_select(&a, &op);
    assert_eq!(
        st.sql,
        r#"SELECT "id", "name" FROM "public"."users" ORDER BY "id" DESC LIMIT 2"#
    );
    assert_eq!(st.params.len(), 0);
}

// scenario: GET /public/users?age=gt.18&age=lt.65

#[test]
fn select_scenario_repeated_filters_and_params() {
    let a = addr("public", "users");
    let op = parse("age=gt.18&age=lt.65").unwrap();
    let st = compile_select(&a, &op);
    assert_eq!(
        st.sql,
        r#"SELECT * FROM "public"."users" WHERE "age" > $1 AND "age" < $2"#
    );
    assert_eq!(st.params.len(), 2);
    assert!(matches!(st.params[0], SqlValue::Int(18)));
    assert!(matches!(st.params[1], SqlValue::Int(65)));
}

#[test]
fn select_filter_shapes() {
    let a = addr("public", "users");
    let op = parse("name=eq.ann&age=is_null&id=in.(1,2,3)&city=like.ber%25").unwrap();
    let st = compile_select(&a, &op);
    assert_eq!(
        st.sql,
        r#"SELECT * FROM "public"."users" WHERE "name" = $1 AND "age" IS NULL AND "id" IN ($2, $3, $4) AND "city" LIKE $5"#
    );
    assert_eq!(st.params.len(), 5);
    match &st.params[0] {
        SqlValue::Text(s) => assert_eq!(s, "ann"),
        _ => panic!("expected text"),
    }
    assert!(matches!(st.params[1], SqlValue::Int(1)));
    assert!(matches!(st.params[2], SqlValue::Int(2)));
    assert!(matches!(st.params[3], SqlValue::Int(3)));
    match &st.params[4] {
        SqlValue::Text(s) => assert_eq!(s, "ber%25"),
        _ => panic!("expected text"),
    }
}

#[test]
fn select_offset_and_distinct_on() {
    let a = addr("public", "users");
    let op = parse("distinct_on=city&offset=5").unwrap();
    let st = compile_select(&a, &op);
    assert_eq!(
        st.sql,
        r#"SELECT DISTINCT ON ("city") * FROM "public"."users" OFFSET 5"#
    );
    // absent limit: no LIMIT clause anywhere in the text
    assert!(!st.sql.contains(" LIMIT "));
}

// insert

#[test]
fn insert_single_row_returns_inserted_rows() {
    let a = addr("public", "users");
    let rows = vec![vec![
        entry("name", SqlValue::Text("ann".to_string())),
        entry("age", SqlValue::Int(41)),
    ]];
    let st = compile_insert(&a, &rows).unwrap();
    assert_eq!(
        st.sql,
        r#"INSERT INTO "public"."users" ("name", "age") VALUES ($1, $2) RETURNING *"#
    );
    assert_eq!(st.params.len(), 2);
    match &st.params[0] {
        SqlValue::Text(s) => assert_eq!(s, "ann"),
        _ => panic!("expected text"),
    }
    assert!(matches!(st.params[1], SqlValue::Int(41)));
}

#[test]
fn insert_bulk_rows_number_placeholders_consecutively() {
    let a = addr("public", "users");
    let rows = vec![
        vec![entry("a", SqlValue::Int(1)), entry("b", SqlValue::Int(2))],
        vec![entry("a", SqlValue::Int(3)), entry("b", SqlValue::Int(4))],
    ];
    let st = compile_insert(&a, &rows).unwrap();
    assert_eq!(
        st.sql,
        r#"INSERT INTO "public"."users" ("a", "b") VALUES ($1, $2), ($3, $4) RETURNING *"#
    );
    assert_eq!(st.params.len(), 4);
}

#[test]
fn insert_schema_mismatch_cases() {
    let a = addr("public", "users");
    let empty: Vec<Vec<PayloadEntry>> = vec![];
    assert!(matches!(compile_insert(&a, &empty), Err(GatewayError::SchemaMismatch)));
    let empty_row: Vec<Vec<PayloadEntry>> = vec![vec![]];
    assert!(matches!(compile_insert(&a, &empty_row), Err(GatewayError::SchemaMismatch)));
    let bad_key = vec![vec![entry("na me", SqlValue::Int(1))]];
    assert!(matches!(compile_insert(&a, &bad_key), Err(GatewayError::SchemaMismatch)));
    let inconsistent = vec![
        vec![entry("a", SqlValue::Int(1))],
        vec![entry("b", SqlValue::Int(2))],
    ];
    assert!(matches!(
        compile_insert(&a, &inconsistent),
        Err(GatewayError::SchemaMismatch)
    ));
}

// update / delete and the missing-filter rule

#[test]
fn update_binds_set_then_filters() {
    let a = addr("public", "users");
    let op = parse("id=eq.7").unwrap();
    let row = vec![entry("name", SqlValue::Text("bob".to_string()))];
    let st = compile_update(&a, &row, &op, false).unwrap();
    assert_eq!(
        st.sql,
        r#"UPDATE "public"."users" SET "name" = $1 WHERE "id" = $2 RETURNING *"#
    );
    assert_eq!(st.params.len(), 2);
    match &st.params[0] {
        SqlValue::Text(s) => assert_eq!(s, "bob"),
        _ => panic!("expected text"),
    }
    assert!(matches!(st.params[1], SqlValue::Int(7)));
}

#[test]
fn unfiltered_update_and_delete_fail_with_missing_filter() {
    let a = addr("public", "users");
    let op = OperationSpec::empty();
    let row = vec![entry("name", SqlValue::Null)];
    let up = compile_update(&a, &row, &op, false);
    assert!(matches!(up, Err(GatewayError::MissingFilter)));
    let del = compile_delete(&a, &op, false);
    assert!(matches!(del, Err(GatewayError::MissingFilter)));
    // and the coordinator opens no transaction for it: no backend call
    assert!(matches!(begin_mutation(&up), TxState::Idle));
    assert!(matches!(begin_mutation(&del), TxState::Idle));
}

#[test]
fn explicit_opt_in_allows_unfiltered_mutation() {
    let a = addr("public", "users");
    let op = OperationSpec::empty();
    let row = vec![entry("name", SqlValue::Null)];
    let st = compile_update(&a, &row, &op, true).unwrap();
    assert_eq!(st.sql, r#"UPDATE "public"."users" SET "name" = $1 RETURNING *"#);
    let st = compile_delete(&a, &op, true).unwrap();
    assert_eq!(st.sql, r#"DELETE FROM "public"."users" RETURNING *"#);
}

#[test]
fn delete_compiles_filters() {
    let a = addr("public", "users");
    let op = parse("age=lt.18").unwrap();
    let st = compile_delete(&a, &op, false).unwrap();
    assert_eq!(
        st.sql,
        r#"DELETE FROM "public"."users" WHERE "age" < $1 RETURNING *"#
    );
    assert!(matches!(st.params[0], SqlValue::Int(18)));
}

// function execution

#[test]
fn function_call_uses_named_argument_binding() {
    let a = resolve("api", "add_user", ResourceKind::Function).unwrap();
    let args = vec![
        entry("name", SqlValue::Text("ann".to_string())),
        entry("age", SqlValue::Int(41)),
    ];
    let st = compile_call(&a, &args).unwrap();
    assert_eq!(
        st.sql,
        r#"SELECT * FROM "api"."add_user"("name" := $1, "age" := $2)"#
    );
    assert_eq!(st.params.len(), 2);
    let st = compile_call(&a, &vec![]).unwrap();
    assert_eq!(st.sql, r#"SELECT * FROM "api"."add_user"()"#);
    let bad = vec![entry("na me", SqlValue::Int(1))];
    assert!(matches!(compile_call(&a, &bad), Err(GatewayError::SchemaMismatch)));
}

// transaction coordinator

#[test]
fn all_statements_succeeding_commits() {
    assert!(matches!(run_statements(&vec![true, true, true]), TxState::Committed));
    assert!(matches!(run_statements(&vec![]), TxState::Committed));
}

#[test]
fn any_failure_rolls_the_whole_scope_back() {
    assert!(matches!(run_statements(&vec![true, false, true]), TxState::RolledBack));
    assert!(matches!(run_statements(&vec![false]), TxState::RolledBack));
    let (s, a) = on_statement_result(TxState::TransactionOpen, false, true);
    assert!(matches!(s, TxState::RolledBack));
    assert!(matches!(a, TxAction::Rollback));
}

#[test]
fn cancellation_rolls_back_before_release() {
    let (s, a) = on_cancel(TxState::TransactionOpen);
    assert!(matches!(a, TxAction::Rollback));
    assert!(matches!(s, TxState::RolledBack));
    // the connection may never be released while the transaction is open
    assert!(!connection_may_release(TxState::TransactionOpen));
    assert!(connection_may_release(s));
}

// result mapper

#[test]
fn map_rows_preserves_column_order_and_row_order() {
    let columns = vec!["id".to_string(), "name".to_string()];
    let rows = vec![
        vec![SqlValue::Int(1), SqlValue::Text("ann".to_string())],
        vec![SqlValue::Int(2), SqlValue::Null],
    ];
    let recs = map_rows(&columns, &rows).unwrap();
    assert_eq!(recs.len(), 2);
    assert_eq!(recs[0].columns, vec!["id".to_string(), "name".to_string()]);
    assert!(matches!(recs[0].values[0], SqlValue::Int(1)));
    match &recs[0].values[1] {
        SqlValue::Text(s) => assert_eq!(s, "ann"),
        _ => panic!("expected text"),
    }
    assert!(matches!(recs[1].values[1], SqlValue::Null));
}

#[test]
fn map_rows_rejects_width_mismatch() {
    let columns = vec!["id".to_string()];
    let rows = vec![vec![SqlValue::Int(1), SqlValue::Int(2)]];
    assert!(matches!(
        map_rows(&columns, &rows),
        Err(GatewayError::BackendError(_))
    ));
}

// round-trip at the builder level: the inserted payload's values are
// exactly the bound parameters, and the statement returns the rows

#[test]
fn insert_round_trip_binds_payload_exactly() {
    let a = addr("public", "users");
    let rows = vec![vec![
        entry("id", SqlValue::Int(9)),
        entry("name", SqlValue::Text("zoe".to_string())),
        entry("active", SqlValue::Bool(true)),
    ]];
    let st = compile_insert(&a, &rows).unwrap();
    assert!(st.sql.ends_with("RETURNING *"));
    assert_eq!(st.params.len(), 3);
    assert!(matches!(st.params[0], SqlValue::Int(9)));
    match &st.params[1] {
        SqlValue::Text(s) => assert_eq!(s, "zoe"),
        _ => panic!("expected text"),
    }
    assert!(matches!(st.params[2], SqlValue::Bool(true)));
    // selecting by the returned key compiles to a parameterized lookup
    let op = parse("id=eq.9").unwrap();
    let sel = compile_select(&a, &op);
    assert_eq!(sel.sql, r#"SELECT * FROM "public"."users" WHERE "id" = $1"#);
    assert!(matches!(sel.params[0], SqlValue::Int(9)));
}

// number rendering

#[test]
fn decimal_rendering_is_exact() {
    assert_eq!(u64_to_dec(0), "0");
    assert_eq!(u64_to_dec(10), "10");
    assert_eq!(u64_to_dec(907), "907");
    assert_eq!(u64_to_dec(u64::MAX), "18446744073709551615");
}
