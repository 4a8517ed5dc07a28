use hana_backend::audit::{
    audit_action_for_outcome, audit_record, synthetic_system_identity, FinishedCall,
};
use hana_backend::calls::{
    arguments_from, decide_call, guarded_statement, plan_call, plan_catalog, response_from,
    timed_out, BackendError, CallContext, CallStep, StatementPlan,
};
use hana_backend::engine::CatalogFilters;
use hana_backend::json::{Json, JsonNumber};
use hana_backend::listing::{finish_completion, finish_listing, plan_completion, plan_listing};
use hana_backend::marshal::{
    empty_outcome, hdb_value_to_json, row_object, HanaValue, QueryOutcome, RowSink,
};
use hana_backend::params::{
    arguments_referenced_by_params, json_to_hana_bind, lower_params, HanaBind,
};
use hana_backend::profile::{CatalogFilterConfig, HanaProfile};
use hana_backend::surface::{
    first_column_of, plain_text_of, resolve_resource_uri, rows_to_completion_values,
    rows_to_resource_page, ListedResource, Surface,
};
use hana_backend::types::{CompletionConfig, HanaOperation, ListQueryConfig, ListQueryMode};

fn object(members: Vec<(&str, Json)>) -> Json {
    Json::Object(members.into_iter().map(|(k, v)| (k.to_owned(), v)).collect())
}

fn float(text: &str) -> Json {
    Json::Number(JsonNumber::Float(text.to_owned()))
}

fn profile(operation: HanaOperation) -> HanaProfile {
    HanaProfile {
        database: "HXE".into(),
        operation,
        read_only: true,
        statement: "SELECT * FROM T WHERE A = ? AND B = ?".into(),
        params: vec!["arguments.a".into(), "arguments.b".into()],
        catalog_filters: CatalogFilterConfig {
            schema: Some("SALES".into()),
            table_arg: Some("table".into()),
            ..Default::default()
        },
        max_rows: 50,
        max_result_bytes: 1_000,
        timeout_ms: 2_000,
        surface: Surface::Tool,
        surface_uri: None,
        list_query: None,
        read_query: None,
        variable_completions: vec![],
    }
}

fn listing(mode: ListQueryMode) -> ListQueryConfig {
    ListQueryConfig {
        sql: "SELECT ID AS URI FROM T".into(),
        mode,
        cursor_column: Some(" ID ".into()),
        page_size: 2,
    }
}

fn rows(n: i64) -> Vec<Json> {
    (1..=n)
        .map(|i| object(vec![("URI", Json::Str(format!("hana://{i}"))), ("ID", Json::integer(i))]))
        .collect()
}

fn answer(rows: Vec<Json>) -> Result<QueryOutcome, String> {
    let row_count = rows.len();
    Ok(QueryOutcome { rows, truncated: false, row_count })
}

#[test]
fn query_binds_its_params_in_order() {
    let plan = plan_call(
        &profile(HanaOperation::Query),
        &Json::Null,
        Ok(vec![Json::integer(1), Json::Null]),
    );
    assert_eq!(
        plan,
        Ok(StatementPlan {
            sql: "SELECT * FROM T WHERE A = ? AND B = ?".into(),
            binds: vec![HanaBind::Int(1), HanaBind::Null],
            max_rows: 50,
            max_result_bytes: 1_000,
            timeout_ms: 2_000,
            guarded: true,
        })
    );
}

#[test]
fn guard_is_heeded_once_more() {
    let plan = plan_call(&profile(HanaOperation::Query), &Json::Null, Ok(vec![])).unwrap();
    assert_eq!(plan.cleared(&None), Ok(()));
    assert_eq!(plan.cleared(&Some("refused".into())), Err("refused".to_owned()));
    let free = plan_call(&profile(HanaOperation::ListTables), &Json::Null, Ok(vec![])).unwrap();
    assert_eq!(free.cleared(&Some("refused".into())), Ok(()));
}

#[test]
fn calls_are_asked_or_answered() {
    let context = CallContext { tool_name: "t", backend_name: "b", database: "d", duration_ms: 1 };
    let p = profile(HanaOperation::Query);
    assert_eq!(guarded_statement(&p), Some("SELECT * FROM T WHERE A = ? AND B = ?"));
    assert_eq!(guarded_statement(&profile(HanaOperation::ListTables)), None);
    match decide_call(&context, &p, &Json::Null, Ok(vec![]), &None) {
        CallStep::Ask(plan) => assert_eq!(Some(plan.sql.as_str()), guarded_statement(&p)),
        CallStep::Answer(report) => panic!("{report:?}"),
    }
    match decide_call(&context, &p, &Json::Null, Ok(vec![]), &Some("not read-only".into())) {
        CallStep::Ask(plan) => panic!("{plan:?}"),
        CallStep::Answer(report) => {
            assert_eq!(report.label, "hana_error");
            assert_eq!(report.reason.as_deref(), Some("not read-only"));
        }
    }
    match decide_call(&context, &p, &Json::Null, Err("no key".into()), &None) {
        CallStep::Ask(plan) => panic!("{plan:?}"),
        CallStep::Answer(report) => {
            assert_eq!(report.label, "invalid_spec");
            assert_eq!(report.reason.as_deref(), Some("evaluating params: no key"));
        }
    }
}

#[test]
fn catalog_call_takes_its_filters_from_the_arguments() {
    let args = object(vec![("table", Json::text("ORDERS"))]);
    let plan = plan_call(&profile(HanaOperation::ListColumns), &args, Err("unused".into()));
    let plan = plan.unwrap();
    assert!(plan.sql.contains(" WHERE SCHEMA_NAME = ? AND TABLE_NAME = ? ORDER BY "));
    assert_eq!(
        plan.binds,
        vec![
            HanaBind::Str("SALES".into()),
            HanaBind::Str("ORDERS".into()),
            HanaBind::Int(50),
        ]
    );
    assert!(!plan.guarded);
}

#[test]
fn filters_that_do_not_apply_leave_the_text_alone() {
    let texts = |table_type: &str, column: &str| {
        let filters = CatalogFilters {
            schema: "S".into(),
            table: "T".into(),
            table_type: table_type.into(),
            column: column.into(),
        };
        let p = profile(HanaOperation::Query);
        let tables = plan_catalog(&p, HanaOperation::ListTables, &filters).unwrap().sql;
        let columns = plan_catalog(&p, HanaOperation::ListColumns, &filters).unwrap().sql;
        (tables, columns)
    };
    assert_eq!(texts("VIEW", "").0, texts("TABLE", "ID").0);
    assert_eq!(texts("", "ID").1, texts("VIEW", "NAME").1);
    assert_ne!(texts("", "").0, texts("VIEW", "").0);
}

#[test]
fn list_columns_never_lists_every_column() {
    let words = "operation: list_columns requires a table (the table whose columns to list)";
    let context = CallContext { tool_name: "t", backend_name: "b", database: "d", duration_ms: 1 };
    let mut p = profile(HanaOperation::ListColumns);
    for args in [
        object(vec![]),
        object(vec![("table", Json::text(""))]),
        object(vec![("table", Json::integer(7))]),
    ] {
        assert_eq!(plan_call(&p, &args, Ok(vec![])), Err(words.to_owned()));
        match decide_call(&context, &p, &args, Ok(vec![]), &None) {
            CallStep::Ask(plan) => panic!("{plan:?}"),
            CallStep::Answer(report) => {
                assert_eq!(report.label, "invalid_spec");
                assert_eq!(report.reason.as_deref(), Some(words));
                assert!(matches!(report.body.get("downstreamError"), Some(Json::Object(_))));
            }
        }
    }
    p.catalog_filters.table = Some("ORDERS".into());
    let plan = plan_call(&p, &object(vec![]), Ok(vec![])).unwrap();
    assert!(plan.sql.contains("TABLE_NAME = ?"));
    assert!(plan.binds.contains(&HanaBind::Str("ORDERS".into())));
    assert_eq!(
        plan_catalog(&p, HanaOperation::ListColumns, &CatalogFilters::default()),
        Err(words.to_owned())
    );
    assert!(plan_call(&profile(HanaOperation::ListTables), &Json::Null, Ok(vec![])).is_ok());
}

#[test]
fn query_is_no_catalog_operation() {
    let refused = plan_catalog(
        &profile(HanaOperation::Query),
        HanaOperation::Query,
        &CatalogFilters::default(),
    );
    assert_eq!(refused, Err("not a catalog operation".to_owned()));
}

#[test]
fn read_query_runs_on_the_resource_surface_only() {
    let mut p = profile(HanaOperation::Query);
    p.read_query = Some("SELECT ONE".into());
    assert!(plan_call(&p, &Json::Null, Ok(vec![])).unwrap().sql.starts_with("SELECT * FROM T"));
    p.surface = Surface::Resource;
    assert_eq!(plan_call(&p, &Json::Null, Ok(vec![])).unwrap().sql, "SELECT ONE");
    p.read_query = None;
    assert!(plan_call(&p, &Json::Null, Ok(vec![])).unwrap().sql.starts_with("SELECT * FROM T"));
}

#[test]
fn only_scalars_are_bound() {
    assert_eq!(json_to_hana_bind(Json::Bool(true)), Ok(HanaBind::Bool(true)));
    assert_eq!(json_to_hana_bind(Json::integer(-9)), Ok(HanaBind::Int(-9)));
    assert_eq!(json_to_hana_bind(Json::count(i64::MAX as u64)), Ok(HanaBind::Int(i64::MAX)));
    assert_eq!(
        json_to_hana_bind(Json::count(u64::MAX)),
        Ok(HanaBind::Float("18446744073709551615".into()))
    );
    assert_eq!(json_to_hana_bind(float("1.5")), Ok(HanaBind::Float("1.5".into())));
    assert!(json_to_hana_bind(Json::Array(vec![])).is_err());
    assert!(json_to_hana_bind(Json::Object(vec![])).is_err());
    let refused = lower_params(vec![Json::Null, Json::Array(vec![]), Json::Object(vec![])]);
    assert_eq!(
        refused,
        Err("binding params: a JSON array cannot be bound to a single `?`".to_owned())
    );
}

#[test]
fn referenced_arguments_are_distinct() {
    let sources = vec!["arguments.b + arguments.a".to_owned(), "arguments.b".to_owned()];
    assert_eq!(arguments_referenced_by_params(&sources), vec!["b".to_owned(), "a".to_owned()]);
}

#[test]
fn keyset_pages_bind_the_cursor() {
    let mut p = profile(HanaOperation::Query);
    p.list_query = Some(listing(ListQueryMode::Keyset));
    let first = plan_listing(&p, None).ok().flatten().map(|l| l.plan).unwrap();
    assert_eq!(first.binds, vec![HanaBind::Null, HanaBind::Int(2)]);
    assert_eq!(first.max_rows, 2);
    let next = plan_listing(&p, Some("x' OR 1=1")).ok().flatten().map(|l| l.plan).unwrap();
    assert_eq!(next.binds, vec![HanaBind::Str("x' OR 1=1".into()), HanaBind::Int(2)]);
    assert_eq!(next.sql, first.sql);
}

#[test]
fn offset_pages_follow_on() {
    let mut p = profile(HanaOperation::Query);
    p.list_query = Some(listing(ListQueryMode::Offset));
    let first = plan_listing(&p, Some("10")).ok().flatten().unwrap();
    assert_eq!(first.plan.binds, vec![HanaBind::Int(2), HanaBind::Int(10)]);
    let page = finish_listing(&first.config, first.prior_offset, answer(rows(2))).unwrap();
    assert_eq!(page.next_cursor.as_deref(), Some("12"));
    let next = plan_listing(&p, page.next_cursor.as_deref()).ok().flatten().unwrap();
    assert_eq!(next.plan.binds, vec![HanaBind::Int(2), HanaBind::Int(12)]);
    let last = finish_listing(&next.config, next.prior_offset, answer(rows(1))).unwrap();
    assert_eq!(last.next_cursor, None);
    assert_eq!(
        plan_listing(&p, Some("-1")).err(),
        Some(BackendError::InvalidSpec {
            message: "offset-mode cursor '-1' is not a non-negative integer".into()
        })
    );
    assert_eq!(
        finish_listing(&next.config, 0, Err("down".into())),
        Err(BackendError::Transport { message: "down".into() })
    );
}

#[test]
fn page_lists_rows_that_have_a_uri() {
    let mut all = rows(1);
    all.push(object(vec![("NAME", Json::text("no uri"))]));
    all.push(object(vec![
        ("uri", Json::integer(7)),
        ("Name", Json::text("seven")),
        ("MIME_TYPE", Json::text("text/plain")),
        ("ID", Json::text("k7")),
    ]));
    let page = rows_to_resource_page(&all, &listing(ListQueryMode::Keyset), 0);
    assert_eq!(
        page.resources,
        vec![
            ListedResource {
                uri: "hana://1".into(),
                name: None,
                description: None,
                mime_type: None,
            },
            ListedResource {
                uri: "7".into(),
                name: Some("seven".into()),
                description: None,
                mime_type: Some("text/plain".into()),
            },
        ]
    );
    assert_eq!(page.next_cursor.as_deref(), Some("k7"));
    assert_eq!(
        rows_to_resource_page(&vec![], &listing(ListQueryMode::Keyset), 0).next_cursor,
        None
    );
}

#[test]
fn completion_binds_the_prefix_and_caps_the_values() {
    let mut p = profile(HanaOperation::Query);
    p.variable_completions = vec![
        (
            "a".into(),
            CompletionConfig { sql: "A ?".into(), max_results: Some(2) },
        ),
        ("b".into(), CompletionConfig { sql: "B ?".into(), max_results: None }),
    ];
    let plan = plan_completion(&p, "a", "pre%").unwrap();
    assert_eq!(plan.sql, "A ?");
    assert_eq!(plan.binds, vec![HanaBind::Str("pre%".into())]);
    assert_eq!(plan.max_rows, 2);
    assert_eq!(plan_completion(&p, "b", "").unwrap().max_rows, 100);
    let found = vec![
        object(vec![("N", Json::text("x")), ("M", Json::text("other"))]),
        object(vec![("N", Json::Null)]),
        object(vec![("N", Json::integer(5))]),
        object(vec![("N", Json::text("z"))]),
    ];
    assert_eq!(finish_completion(2, answer(found)), Ok(vec!["x".to_owned(), "5".to_owned()]));
    assert_eq!(finish_completion(2, answer(vec![])), Ok(vec![]));
    assert_eq!(
        finish_completion(2, Err("down".into())),
        Err(BackendError::Transport { message: "down".into() })
    );
    assert_eq!(first_column_of(&vec![Json::Null]), None);
    assert!(rows_to_completion_values(&rows(3), None, 5).is_empty());
}

#[test]
fn uri_argument_must_be_a_string() {
    let args = object(vec![("uri", Json::integer(1))]);
    assert_eq!(resolve_resource_uri(None, &args), None);
    assert_eq!(resolve_resource_uri(Some("s"), &args), Some("s"));
}

#[test]
fn rows_are_capped_by_number_and_size() {
    let columns = vec!["A".to_owned()];
    let mut sink = RowSink::new(columns.clone(), 2, 1_000);
    for i in 0..4 {
        sink.offer(&vec![HanaValue::Int(i)]);
    }
    let outcome = sink.finish();
    assert_eq!(
        outcome.rows,
        vec![object(vec![("A", Json::integer(0))]), object(vec![("A", Json::integer(1))])]
    );
    assert!(outcome.truncated);
    assert_eq!(outcome.row_count, 4);

    // {"A":0} is seven bytes: two rows fit into fifteen and the third does not,
    // nor does any row after it.
    let mut sink = RowSink::new(columns, 10, 15);
    for i in 0..4 {
        sink.offer(&vec![HanaValue::Int(i)]);
    }
    let outcome = sink.finish();
    assert_eq!(outcome.rows.len(), 2);
    assert!(outcome.truncated);
    assert_eq!(outcome.row_count, 4);
}

#[test]
fn a_dropped_row_drops_all_that_follow() {
    let mut sink = RowSink::new(vec![], 10, 5);
    sink.offer_sized(Json::Null, 4);
    sink.offer_sized(Json::Bool(true), 2);
    sink.offer_sized(Json::Bool(false), 1);
    let outcome = sink.finish();
    assert_eq!(outcome.rows, vec![Json::Null]);
    assert!(outcome.truncated);
    assert_eq!(outcome.row_count, 3);
    let mut exact = RowSink::new(vec![], 2, 5);
    exact.offer_sized(Json::Null, 5);
    exact.offer_sized(Json::Null, 0);
    assert!(!exact.finish().truncated);
}

#[test]
fn no_result_set_is_no_rows() {
    assert_eq!(
        empty_outcome(),
        QueryOutcome { rows: vec![], truncated: false, row_count: 0 }
    );
}

#[test]
fn row_names_missing_columns_and_merges_repeated_ones() {
    let cells = vec![HanaValue::Int(1), HanaValue::Int(2), HanaValue::Int(3)];
    assert_eq!(
        row_object(&vec!["A".to_owned(), "A".to_owned()], &cells),
        object(vec![("A", Json::integer(2)), ("col2", Json::integer(3))])
    );
}

#[test]
fn every_kind_of_value_has_its_json() {
    assert_eq!(hdb_value_to_json(HanaValue::Real(None)), Json::Null);
    assert_eq!(hdb_value_to_json(HanaValue::Real(Some("1.5".into()))), float("1.5"));
    assert_eq!(hdb_value_to_json(HanaValue::Decimal("1.10".into())), Json::text("1.10"));
    assert_eq!(hdb_value_to_json(HanaValue::DbString(b"abc".to_vec())), Json::text("abc"));
    assert_eq!(hdb_value_to_json(HanaValue::DbString(vec![0xff])), Json::text("/w=="));
    assert_eq!(hdb_value_to_json(HanaValue::Binary(vec![])), Json::text(""));
    assert_eq!(hdb_value_to_json(HanaValue::Binary(vec![251, 239])), Json::text("++8="));
    assert_eq!(hdb_value_to_json(HanaValue::DayDate("2026-01-02".into())), Json::text("2026-01-02"));
    assert_eq!(
        hdb_value_to_json(HanaValue::Array(vec![HanaValue::Int(1), HanaValue::Null])),
        Json::Array(vec![Json::integer(1), Json::Null])
    );
    assert_eq!(hdb_value_to_json(HanaValue::Other("<BLOB>".into())), Json::text("<BLOB>"));
}

#[test]
fn rendered_results_are_taken_as_they_come() {
    assert_eq!(
        plain_text_of(&Json::text("s"), Ok("\"s\"".into())),
        Some("s".to_owned())
    );
    assert_eq!(plain_text_of(&Json::Null, Ok("null".into())), None);
    assert_eq!(plain_text_of(&Json::integer(1), Ok("1".into())), Some("1".to_owned()));
    assert_eq!(plain_text_of(&Json::integer(1), Err("no".into())), None);
    assert_eq!(
        arguments_from(b"x", Err("bad".into())),
        Err(BackendError::InvalidSpec {
            message: "HANA plugin payload is not valid JSON: bad".into()
        })
    );
    assert_eq!(arguments_from(b"", Err("bad".into())), Ok(Json::Object(vec![])));
    assert_eq!(
        response_from(Ok("{}".into())).map(|r| r.payload),
        Ok(b"{}".to_vec())
    );
    assert_eq!(
        response_from(Err("bad".into())),
        Err(BackendError::Transport {
            message: "HANA plugin envelope serialization failed: bad".into()
        })
    );
    assert_eq!(timed_out(), "HANA call timed out");
}

#[test]
fn audit_actions_follow_the_label() {
    assert_eq!(
        audit_action_for_outcome("timeout"),
        Some("dev.mcpg.backend.hana.request_timeout")
    );
    assert_eq!(
        audit_action_for_outcome("transport_error"),
        Some("dev.mcpg.backend.hana.request_failed")
    );
    assert_eq!(
        audit_action_for_outcome("hana_error"),
        Some("dev.mcpg.backend.hana.query_rejected")
    );
    assert_eq!(
        audit_action_for_outcome("invalid_spec"),
        Some("dev.mcpg.backend.hana.request_failed")
    );
    assert_eq!(audit_action_for_outcome("ok"), None);
    assert_eq!(audit_action_for_outcome("profile_not_found"), None);
}

#[test]
fn audit_record_tells_of_the_failure() {
    let mut call = FinishedCall {
        backend_name: "orders",
        label: "hana_error",
        reason: Some("invalid column"),
        request_id: "rq-1",
        alias: "main",
        duration_ms: 12,
        duration_ns: 12_345_678,
    };
    let record = audit_record(&call, None).unwrap();
    assert_eq!(record.event_id, "hana-rq-1-12345678");
    assert_eq!(record.actor, synthetic_system_identity());
    assert_eq!(record.actor.subject_id.as_deref(), Some("dev.mcpg.backend.hana"));
    assert_eq!(record.action, "dev.mcpg.backend.hana.query_rejected");
    assert_eq!(record.resource, "hana-binding://orders");
    assert_eq!(record.request_id, "rq-1");
    assert_eq!(
        record.details,
        object(vec![
            ("backend", Json::text("orders")),
            ("duration_ms", Json::integer(12)),
            ("outcome", Json::text("hana_error")),
            ("alias", Json::text("main")),
            ("reason", Json::text("invalid column")),
        ])
    );
    let mut caller = synthetic_system_identity();
    caller.kind = "user".into();
    assert_eq!(audit_record(&call, Some(caller)).map(|r| r.actor.kind), Some("user".to_owned()));
    call.label = "ok";
    assert_eq!(audit_record(&call, None), None);
}
