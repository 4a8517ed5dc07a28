use hana_backend::envelope::{
    build_result_envelope, catalog_envelope_schema, classify_error, hana_downstream_error,
    list_columns_columns, list_tables_columns, result_envelope_schema,
};
use hana_backend::json::{Json, JsonNumber};

fn at<'a>(value: &'a Json, path: &[&str]) -> &'a Json {
    let mut found = value;
    for key in path {
        found = found.get(key).unwrap_or(&Json::Null);
    }
    found
}

fn is_object(value: &Json) -> bool {
    matches!(value, Json::Object(_))
}

fn one_row() -> Vec<Json> {
    vec![Json::Object(vec![("id".to_owned(), Json::integer(1))])]
}

#[test]
fn timeout_is_retryable_transport_error() {
    let e = classify_error("HANA call timed out");
    assert_eq!(at(&e, &["kind"]), &Json::text("transport_error"));
    assert_eq!(at(&e, &["retryable"]), &Json::Bool(true));
}

#[test]
fn network_failure_is_retryable() {
    let e = classify_error("connection broken: connect refused");
    assert_eq!(at(&e, &["kind"]), &Json::text("transport_error"));
    assert_eq!(at(&e, &["retryable"]), &Json::Bool(true));
}

#[test]
fn syntax_error_is_not_retryable() {
    let e = classify_error("SAP DBTech JDBC: [257]: sql syntax error: incorrect syntax near");
    assert_eq!(at(&e, &["kind"]), &Json::text("hana_error"));
    assert_eq!(at(&e, &["retryable"]), &Json::Bool(false));
}

#[test]
fn privilege_denial_is_not_retryable() {
    let e = classify_error("[258]: insufficient privilege: Not authorized");
    assert_eq!(at(&e, &["kind"]), &Json::text("hana_error"));
    assert_eq!(at(&e, &["retryable"]), &Json::Bool(false));
}

#[test]
fn rejection_wins_over_transport() {
    let e = classify_error("SYNTAX ERROR on the connection");
    assert_eq!(at(&e, &["kind"]), &Json::text("hana_error"));
    assert_eq!(at(&classify_error("Out of pool"), &["kind"]), &Json::text("transport_error"));
    assert_eq!(at(&classify_error("who knows"), &["kind"]), &Json::text("hana_error"));
}

#[test]
fn downstream_error_has_every_member() {
    assert_eq!(
        hana_downstream_error("transport_error", "boom", true),
        Json::Object(vec![
            ("kind".to_owned(), Json::text("transport_error")),
            ("code".to_owned(), Json::text("mcpg.downstream_hana.transport_error")),
            ("message".to_owned(), Json::text("boom")),
            ("retryable".to_owned(), Json::Bool(true)),
            ("retryClass".to_owned(), Json::text("with_backoff")),
            ("suggestedAction".to_owned(), Json::text("check_server_and_retry")),
        ])
    );
    let fatal = hana_downstream_error("hana_error", "boom", false);
    assert_eq!(at(&fatal, &["retryClass"]), &Json::text("do_not_retry"));
    assert_eq!(at(&fatal, &["suggestedAction"]), &Json::text("inspect_sql_error"));
}

#[test]
fn query_envelope_has_rows_and_count() {
    let rows = one_row();
    let env = build_result_envelope(
        "u.get",
        "u.get",
        "HXE",
        Some(&rows),
        Some(1),
        false,
        7,
        None,
        None,
    );
    assert_eq!(at(&env, &["response", "count"]), &Json::integer(1));
    match at(&env, &["response", "rows"]) {
        Json::Array(items) => assert_eq!(at(&items[0], &["id"]), &Json::integer(1)),
        other => panic!("expected rows, got {other:?}"),
    }
    assert_eq!(at(&env, &["response", "truncated"]), &Json::Bool(false));
    assert_eq!(at(&env, &["response", "durationMs"]), &Json::integer(7));
    assert_eq!(at(&env, &["request", "database"]), &Json::text("HXE"));
    assert_eq!(env.get("downstreamError"), Some(&Json::Null));
}

#[test]
fn count_falls_back_on_the_rows() {
    let rows = one_row();
    let env = build_result_envelope("t", "p", "d", Some(&rows), None, false, 0, None, None);
    assert_eq!(at(&env, &["response", "count"]), &Json::integer(1));
    let bare = build_result_envelope("t", "p", "d", None, None, false, 0, None, None);
    assert_eq!(at(&bare, &["response"]).get("count"), Some(&Json::Null));
    assert_eq!(at(&bare, &["response"]).get("rows"), Some(&Json::Null));
}

#[test]
fn truncated_flag_is_carried() {
    let rows = one_row();
    let env = build_result_envelope(
        "u.get",
        "u.get",
        "HXE",
        Some(&rows),
        Some(1),
        true,
        3,
        None,
        None,
    );
    assert_eq!(at(&env, &["response", "truncated"]), &Json::Bool(true));
}

#[test]
fn error_envelope_nulls_response() {
    let d = classify_error("[259]: invalid table name: BOGUS");
    let env = build_result_envelope(
        "u.get",
        "u.get",
        "HXE",
        None,
        None,
        false,
        2,
        Some(&d),
        Some("table missing"),
    );
    assert_eq!(env.get("response"), Some(&Json::Null));
    assert_eq!(at(&env, &["downstreamError", "kind"]), &Json::text("hana_error"));
    assert_eq!(env.get("downstreamErrors"), Some(&Json::Array(vec![d.copy()])));
    assert_eq!(env.get("error"), Some(&Json::text("table missing")));
}

#[test]
fn catalog_envelope_schema_types_rows_to_columns() {
    let schema = catalog_envelope_schema(&list_tables_columns());
    let row = ["properties", "response", "properties", "rows", "items"];
    let items = at(&schema, &row);
    let row_props = at(items, &["properties"]);
    assert!(is_object(at(row_props, &["SCHEMA_NAME"])));
    assert!(is_object(at(row_props, &["TABLE_NAME"])));
    assert!(is_object(at(row_props, &["TABLE_TYPE"])));
    assert_eq!(at(items, &["additionalProperties"]), &Json::Bool(true));

    let cols = catalog_envelope_schema(&list_columns_columns());
    let col_props = at(at(&cols, &row), &["properties"]);
    assert!(is_object(at(col_props, &["COLUMN_NAME"])));
    assert!(is_object(at(col_props, &["DATA_TYPE_NAME"])));
    assert!(is_object(at(col_props, &["POSITION"])));
}

#[test]
fn output_schema_matches_envelope_shape() {
    let schema = result_envelope_schema();
    assert_eq!(at(&schema, &["type"]), &Json::text("object"));
    let rows = one_row();
    let env = build_result_envelope(
        "u.get",
        "u.get",
        "HXE",
        Some(&rows),
        Some(1),
        false,
        7,
        None,
        None,
    );
    let props = at(&schema, &["properties"]);
    match &env {
        Json::Object(members) => {
            for (key, _) in members {
                assert!(props.get(key).is_some(), "schema missing key `{key}`");
            }
        }
        other => panic!("expected an object, got {other:?}"),
    }
    assert_eq!(
        at(&schema, &["properties", "response", "properties", "rows"]).get("items"),
        Some(&Json::Object(vec![]))
    );
}

#[test]
fn numbers_of_both_signs_are_integers() {
    assert_eq!(Json::integer(-1), Json::Number(JsonNumber::NegInt(-1)));
    assert_eq!(Json::integer(1), Json::Number(JsonNumber::PosInt(1)));
    assert_eq!(Json::count(u64::MAX), Json::Number(JsonNumber::PosInt(u64::MAX)));
}
