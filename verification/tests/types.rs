use hana_backend::types::{
    count_bind_placeholders, is_safe_sql_identifier, validate_completion, validate_list_query,
    CompletionConfig, HanaBackendSpec, HanaOperation, ListQueryConfig, ListQueryMode,
};

fn plain_spec() -> HanaBackendSpec {
    let mut spec = HanaBackendSpec::new("hana.example".into(), 39015, "MCPG".into());
    spec.query = "SELECT 1 AS ONE FROM DUMMY".into();
    spec
}

#[test]
fn spec_applies_defaults_when_omitted() {
    let spec = plain_spec();
    assert!(spec.read_only);
    assert!(spec.tls_verify_peer);
    assert!(spec.use_tls);
    assert_eq!(spec.pool_max_size, 6);
    assert_eq!(spec.timeout_ms, 5_000);
    assert_eq!(spec.max_rows, 10_000);
    assert_eq!(spec.max_result_bytes, 8 * 1024 * 1024);
    assert!(spec.password.is_none());
    assert!(spec.database.is_none());
    assert!(spec.params.is_empty());
}

#[test]
fn operation_defaults_to_query() {
    let spec = plain_spec();
    assert_eq!(spec.operation, HanaOperation::Query);
    assert!(!spec.operation.is_catalog());
    assert_eq!(spec.operation.as_str(), "query");
}

#[test]
fn catalog_operations_have_their_tokens() {
    assert!(HanaOperation::ListTables.is_catalog());
    assert_eq!(HanaOperation::ListTables.as_str(), "list_tables");
    assert!(HanaOperation::ListColumns.is_catalog());
    assert_eq!(HanaOperation::ListColumns.as_str(), "list_columns");
    assert_eq!(HanaOperation::default(), HanaOperation::Query);
    assert_eq!(ListQueryMode::default(), ListQueryMode::Keyset);
}

#[test]
fn read_query_defaults_to_none() {
    assert!(plain_spec().read_query.is_none());
}

#[test]
fn validate_list_query_enforces_bounds_and_cursor() {
    let mut cfg = ListQueryConfig {
        sql: "SELECT ID AS URI FROM T".into(),
        mode: ListQueryMode::Keyset,
        cursor_column: None,
        page_size: 100,
    };
    assert!(
        validate_list_query(&cfg).is_err(),
        "keyset needs cursor_column"
    );
    cfg.cursor_column = Some("ID".into());
    assert!(validate_list_query(&cfg).is_ok());
    cfg.cursor_column = Some("ID; DROP TABLE T".into());
    assert!(
        validate_list_query(&cfg).is_err(),
        "unsafe cursor identifier"
    );
    cfg.cursor_column = Some("ID".into());
    cfg.page_size = 0;
    assert!(validate_list_query(&cfg).is_err(), "page_size out of range");
    cfg.page_size = 100;
    cfg.sql = "  ".into();
    assert!(validate_list_query(&cfg).is_err(), "empty sql");
}

#[test]
fn list_query_faults_have_their_words() {
    let mut cfg = ListQueryConfig {
        sql: "SELECT ID AS URI FROM T".into(),
        mode: ListQueryMode::Keyset,
        cursor_column: Some(" 1D ".into()),
        page_size: 1_001,
    };
    assert_eq!(
        validate_list_query(&cfg),
        Err("list_query.page_size (1001) must be in 1..=1000".to_owned())
    );
    cfg.page_size = 1_000;
    assert_eq!(
        validate_list_query(&cfg),
        Err("list_query.cursor_column '1D' is not a safe SQL identifier".to_owned())
    );
    cfg.cursor_column = Some(" _D1 ".into());
    assert_eq!(validate_list_query(&cfg), Ok(()));
}

#[test]
fn validate_list_query_offset_mode_skips_cursor() {
    let cfg = ListQueryConfig {
        sql: "SELECT ID AS URI FROM T LIMIT ? OFFSET ?".into(),
        mode: ListQueryMode::Offset,
        cursor_column: None,
        page_size: 100,
    };
    assert!(validate_list_query(&cfg).is_ok());
}

#[test]
fn validate_completion_requires_single_placeholder() {
    let mut cc = CompletionConfig {
        sql: "SELECT NAME FROM T WHERE NAME LIKE ? || '%'".into(),
        max_results: None,
    };
    assert!(validate_completion("name", &cc).is_ok());
    cc.sql = "SELECT NAME FROM T".into();
    assert!(validate_completion("name", &cc).is_err(), "needs one ?");
    cc.sql = "SELECT NAME FROM T WHERE A = ? AND B = ?".into();
    assert!(validate_completion("name", &cc).is_err(), "exactly one ?");
    cc.sql = "  ".into();
    assert!(validate_completion("name", &cc).is_err(), "empty sql");
}

#[test]
fn count_bind_placeholders_counts_each_question_mark() {
    assert_eq!(count_bind_placeholders("SELECT ? FROM DUMMY"), 1);
    assert_eq!(count_bind_placeholders("A = ? AND B = ?"), 2);
    assert_eq!(count_bind_placeholders("SELECT 1 FROM DUMMY"), 0);
}

#[test]
fn safe_identifiers_are_plain_words() {
    assert!(is_safe_sql_identifier("ID"));
    assert!(is_safe_sql_identifier("_x9"));
    assert!(!is_safe_sql_identifier(""));
    assert!(!is_safe_sql_identifier("9x"));
    assert!(!is_safe_sql_identifier("a b"));
    assert!(!is_safe_sql_identifier("Größe"));
}
