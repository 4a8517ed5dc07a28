use hana_backend::calls::{
    finalize_payload, plan_call, report_call, report_unplanned, tool_name, BackendError,
    CallContext,
};
use hana_backend::json::{from_bytes, Json, JsonNumber};
use hana_backend::listing::{plan_completion, plan_listing};
use hana_backend::marshal::QueryOutcome;
use hana_backend::params::{extract_argument_idents, json_to_hana_bind, HanaBind};
use hana_backend::plugin::{refusal_label, unreadable_spec, HanaBackendPlugin};
use hana_backend::profile::{
    reject_bare_cred, resolve_one, CatalogFilterConfig, GuardVerdicts,
};
use hana_backend::surface::{resource_contents_body, Surface};
use hana_backend::types::{
    CompletionConfig, HanaBackendSpec, HanaOperation, ListQueryConfig, ListQueryMode,
};

const REFUSED: &str = "statement is not read-only";

fn bare_spec() -> HanaBackendSpec {
    let mut spec = HanaBackendSpec::new("hana.example".into(), 39015, "MCPG".into());
    spec.password = Some("pw".into());
    spec
}

fn minimal_spec() -> HanaBackendSpec {
    let mut spec = bare_spec();
    spec.query = "SELECT 1 AS ONE FROM DUMMY WHERE 1 = ?".into();
    spec.params = vec!["arguments.id".into()];
    spec
}

fn passed(spec: &HanaBackendSpec) -> GuardVerdicts {
    GuardVerdicts {
        query: None,
        read_query: None,
        list_query: None,
        completions: spec.variable_completions.iter().map(|_| None).collect(),
    }
}

fn register(plugin: &mut HanaBackendPlugin, name: &str, spec: HanaBackendSpec) {
    let verdicts = passed(&spec);
    if let Err(error) = plugin.register_profile(name, spec, &verdicts, &None) {
        panic!("expected {name} to register, got {error:?}");
    }
}

fn refused_with(spec: HanaBackendSpec, verdicts: GuardVerdicts, compile: Option<String>) -> String {
    let mut plugin = HanaBackendPlugin::new();
    match plugin.register_profile("x", spec, &verdicts, &compile) {
        Ok(_) => panic!("expected a refusal"),
        Err(BackendError::InvalidSpec { message }) => {
            assert!(plugin.profile("x").is_err());
            message
        }
        Err(other) => panic!("expected InvalidSpec, got {other:?}"),
    }
}

fn refused(spec: HanaBackendSpec) -> String {
    let verdicts = passed(&spec);
    refused_with(spec, verdicts, None)
}

fn at<'a>(value: &'a Json, path: &[&str]) -> &'a Json {
    let mut found = value;
    for key in path {
        found = found.get(key).unwrap_or(&Json::Null);
    }
    found
}

fn is_object(value: &Json) -> bool {
    matches!(value, Json::Object(_))
}

fn object(members: Vec<(&str, Json)>) -> Json {
    Json::Object(members.into_iter().map(|(k, v)| (k.to_owned(), v)).collect())
}

#[test]
fn kind_is_hana() {
    assert_eq!(HanaBackendPlugin::new().kind(), "hana");
}

#[test]
fn manifest_id() {
    assert_eq!(HanaBackendPlugin::new().manifest().id, "dev.mcpg.backend.hana");
    assert_eq!(HanaBackendPlugin::default().manifest().name, "SAP HANA Binding");
    assert_eq!(HanaBackendPlugin::default().manifest().id, "dev.mcpg.backend.hana");
}

#[test]
fn extract_argument_idents_finds_names() {
    let got = extract_argument_idents("arguments.user_id + size(arguments.tags)");
    assert_eq!(got, vec!["user_id".to_owned(), "tags".to_owned()]);
    assert!(extract_argument_idents("1 + 2").is_empty());
}

#[test]
fn extract_argument_idents_skips_empty_names() {
    assert_eq!(
        extract_argument_idents("arguments. arguments.arguments.x arguments.é arguments.a"),
        vec!["arguments".to_owned(), "a".to_owned()]
    );
}

#[test]
fn output_schema_is_object() {
    let plugin = HanaBackendPlugin::new();
    let schema = plugin.output_schema("an").unwrap();
    assert_eq!(at(&schema, &["type"]), &Json::text("object"));
}

#[test]
fn input_schema_lists_referenced_params() {
    let mut plugin = HanaBackendPlugin::new();
    register(&mut plugin, "an", minimal_spec());
    let schema = plugin.input_schema("an").unwrap();
    assert_eq!(at(&schema, &["type"]), &Json::text("object"));
    assert_eq!(at(&schema, &["additionalProperties"]), &Json::Bool(true));
    assert!(is_object(at(&schema, &["properties", "id"])));
    let unknown = plugin.input_schema("other").unwrap();
    assert_eq!(unknown.get("properties"), Some(&Json::Object(vec![])));
}

#[test]
fn register_builds_pool_lazily() {
    let mut plugin = HanaBackendPlugin::new();
    let spec = minimal_spec();
    let verdicts = passed(&spec);
    let plan = match plugin.register_profile("an", spec, &verdicts, &None) {
        Ok(plan) => plan,
        Err(error) => panic!("register stays offline: {error:?}"),
    };
    assert_eq!(plan.max_size, 6);
    assert_eq!(plan.connection_timeout_ms, 5_000);
    let p = plugin.profile("an").unwrap_or_else(|e| panic!("{e:?}"));
    assert!(p.read_only);
    assert_eq!(p.params.len(), 1);
    let rt = tokio::runtime::Builder::new_current_thread()
        .enable_all()
        .build()
        .unwrap();
    rt.block_on(async {
        let pool = bb8::Pool::builder()
            .max_size(plan.max_size)
            .build_unchecked(plan.manager);
        assert_eq!(pool.state().connections, 0);
    });
}

#[test]
fn register_default_database_label_is_host_port() {
    let mut plugin = HanaBackendPlugin::new();
    register(&mut plugin, "an", minimal_spec());
    assert_eq!(plugin.profile("an").ok().map(|p| p.database.as_str()), Some("hana.example:39015"));
}

#[test]
fn register_carries_explicit_database_label() {
    let mut plugin = HanaBackendPlugin::new();
    let mut spec = minimal_spec();
    spec.database = Some("HXE".into());
    register(&mut plugin, "an", spec);
    assert_eq!(plugin.profile("an").ok().map(|p| p.database.as_str()), Some("HXE"));
}

#[test]
fn register_rejects_non_read_only_when_guarded() {
    let mut spec = minimal_spec();
    spec.query = "INSERT INTO T VALUES (1)".into();
    spec.params = vec![];
    let mut verdicts = passed(&spec);
    verdicts.query = Some(REFUSED.into());
    assert_eq!(refused_with(spec, verdicts, None), REFUSED);
}

#[test]
fn register_allows_write_when_read_only_off() {
    let mut plugin = HanaBackendPlugin::new();
    let mut spec = minimal_spec();
    spec.query = "INSERT INTO T VALUES (?)".into();
    spec.read_only = false;
    let mut verdicts = passed(&spec);
    verdicts.query = Some(REFUSED.into());
    assert!(plugin.register_profile("w", spec, &verdicts, &None).is_ok());
    assert_eq!(plugin.profile("w").ok().map(|p| p.read_only), Some(false));
}

#[test]
fn register_accepts_verify_peer_false() {
    let mut plugin = HanaBackendPlugin::new();
    let mut spec = minimal_spec();
    spec.tls_verify_peer = false;
    register(&mut plugin, "x", spec);
}

#[test]
fn register_rejects_bare_cred() {
    let mut spec = minimal_spec();
    spec.query = "SELECT 1 FROM DUMMY WHERE SECRET = 'cred://aws/x#id'".into();
    spec.params = vec![];
    assert_eq!(
        refused(spec),
        "query must not contain a bare cred:// URI — use ${cred://…} (resolved at config load)"
    );
}

#[test]
fn bare_cred_is_found_anywhere() {
    assert_eq!(reject_bare_cred("host", "a cred:/ /b"), Ok(()));
    assert!(reject_bare_cred("host", "cred://").is_err());
    let mut spec = minimal_spec();
    spec.host = "cred://x".into();
    assert!(refused(spec).starts_with("host must not contain"));
}

#[test]
fn register_rejects_missing_password() {
    let mut spec = minimal_spec();
    spec.password = None;
    let message = refused(spec);
    assert!(message.contains("password"), "{message}");
    let mut spec = minimal_spec();
    spec.password = Some(String::new());
    assert!(refused(spec).contains("password"));
}

#[test]
fn register_rejects_bare_cred_password() {
    let mut spec = minimal_spec();
    spec.password = Some("cred://hana/mcpg#password".into());
    assert_eq!(
        refused(spec),
        "password must not contain a bare cred:// URI — use ${cred://…} (resolved at config load)"
    );
}

#[test]
fn register_rejects_empty_query() {
    let mut spec = minimal_spec();
    spec.query = "   ".into();
    assert_eq!(
        refused(spec),
        "query must not be empty (or set `read_query` for a resource_template read binding)"
    );
}

#[test]
fn register_rejects_uri_on_tool_surface() {
    let mut spec = minimal_spec();
    spec.uri = Some("hana://x".into());
    assert_eq!(
        refused(spec),
        "`uri` is only valid with `surface: resource` (this binding is `surface: tool`)"
    );
    let mut spec = minimal_spec();
    spec.uri = Some(" ".into());
    spec.surface = Surface::Resource;
    assert_eq!(refused(spec), "`uri` must not be empty");
}

#[test]
fn register_rejects_keyset_list_query_without_cursor() {
    let mut spec = minimal_spec();
    spec.surface = Surface::Resource;
    spec.list_query = Some(ListQueryConfig {
        sql: "SELECT ID AS URI FROM T".into(),
        mode: ListQueryMode::Keyset,
        cursor_column: None,
        page_size: 100,
    });
    assert_eq!(
        refused(spec),
        "list_query.cursor_column is required for mode: keyset"
    );
}

#[test]
fn register_rejects_every_zero_bound() {
    let zero = |change: fn(&mut HanaBackendSpec)| {
        let mut spec = minimal_spec();
        change(&mut spec);
        refused(spec)
    };
    assert_eq!(zero(|s| s.timeout_ms = 0), "timeout_ms must be greater than 0");
    assert_eq!(zero(|s| s.max_rows = 0), "max_rows must be greater than 0");
    assert_eq!(zero(|s| s.max_result_bytes = 0), "max_result_bytes must be greater than 0");
    assert_eq!(zero(|s| s.pool_max_size = 0), "pool_max_size must be greater than 0");
    assert_eq!(zero(|s| s.port = 0), "port must be greater than 0");
    assert_eq!(zero(|s| s.host = "\t".into()), "host must not be empty");
    assert_eq!(zero(|s| s.user = "".into()), "user must not be empty");
}

#[test]
fn register_checks_every_completion() {
    let mut spec = minimal_spec();
    let good = CompletionConfig { sql: "SELECT N FROM T WHERE N LIKE ?".into(), max_results: None };
    let leaky = CompletionConfig { sql: "SELECT 'cred://x' WHERE N = ?".into(), max_results: None };
    spec.variable_completions = vec![("a".into(), good), ("b".into(), leaky)];
    assert!(refused(spec).starts_with("variable_completions.b.sql must not contain"));

    let mut spec = minimal_spec();
    let good = CompletionConfig { sql: "SELECT N FROM T WHERE N LIKE ?".into(), max_results: None };
    spec.variable_completions = vec![("a".into(), good)];
    let mut verdicts = passed(&spec);
    verdicts.completions = vec![Some(REFUSED.into())];
    assert_eq!(refused_with(spec, verdicts, None), REFUSED);
}

#[test]
fn register_checks_the_listing_and_the_params() {
    let mut spec = minimal_spec();
    spec.list_query = Some(ListQueryConfig {
        sql: "SELECT ID AS URI FROM T LIMIT ? OFFSET ?".into(),
        mode: ListQueryMode::Offset,
        cursor_column: None,
        page_size: 100,
    });
    let mut verdicts = passed(&spec);
    verdicts.list_query = Some(REFUSED.into());
    assert_eq!(refused_with(spec, verdicts, None), REFUSED);

    let spec = minimal_spec();
    let verdicts = passed(&spec);
    assert_eq!(refused_with(spec, verdicts, Some("bad CEL".into())), "bad CEL");
}

#[test]
fn execute_unknown_profile_is_profile_not_found() {
    let plugin = HanaBackendPlugin::new();
    match plugin.open_call("missing", b"", &vec![]) {
        Ok(_) => panic!("expected a refusal"),
        Err(error) => {
            assert_eq!(refusal_label(&error), "profile_not_found");
            assert_eq!(error, BackendError::ProfileNotFound { backend_name: "missing".into() });
        }
    }
}

#[test]
fn unknown_profile_is_refused_before_the_payload_is_read() {
    let plugin = HanaBackendPlugin::new();
    assert_eq!(
        plugin.open_call("missing", b"not json", &vec![]).err(),
        Some(BackendError::ProfileNotFound { backend_name: "missing".into() })
    );
}

#[test]
fn execute_param_failure_yields_error_envelope() {
    let mut plugin = HanaBackendPlugin::new();
    let mut spec = bare_spec();
    spec.query = "SELECT ? AS X FROM DUMMY".into();
    spec.params = vec!["arguments.missing.deeply".into()];
    register(&mut plugin, "q", spec);
    let headers = vec![("mcpg-tool-name".to_owned(), "q".to_owned())];
    let call = match plugin.open_call("q", b"{}", &headers) {
        Ok(call) => call,
        Err(error) => panic!("{error:?}"),
    };
    let message = match plan_call(call.profile, &call.arguments, Err("No such key".into())) {
        Ok(_) => panic!("expected no plan"),
        Err(message) => message,
    };
    assert_eq!(message, "evaluating params: No such key");
    let context = CallContext {
        tool_name: &call.tool_name,
        backend_name: "q",
        database: &call.profile.database,
        duration_ms: 1,
    };
    let report = report_unplanned(&context, &message);
    assert_eq!(report.label, "invalid_spec");
    let response = finalize_payload(&report.body).unwrap_or_else(|e| panic!("{e:?}"));
    assert!(!response.truncated);
    let env = from_bytes(&response.payload).expect("envelope json");
    assert!(is_object(at(&env, &["downstreamError"])));
    assert_eq!(env.get("response"), Some(&Json::Null));
    assert_eq!(at(&env, &["toolName"]), &Json::text("q"));
}

#[test]
fn resolve_one_prefers_present_string_argument() {
    let args = object(vec![("schema", Json::text("SALES"))]);
    assert_eq!(resolve_one(Some("STATIC"), Some("schema"), &args), "SALES");
    assert_eq!(resolve_one(Some("STATIC"), None, &args), "STATIC");
    assert_eq!(resolve_one(Some("STATIC"), Some("missing"), &args), "STATIC");
    assert_eq!(resolve_one(None, Some("missing"), &args), "");
    let n = object(vec![("schema", Json::integer(7))]);
    assert_eq!(resolve_one(Some("STATIC"), Some("schema"), &n), "STATIC");
}

#[test]
fn catalog_filter_config_argument_names_distinct_in_order() {
    let cfg = CatalogFilterConfig {
        schema_arg: Some("schema".into()),
        table_arg: Some("table".into()),
        column_arg: Some("table".into()),
        ..Default::default()
    };
    assert_eq!(cfg.argument_names(), vec!["schema".to_owned(), "table".to_owned()]);
}

#[test]
fn register_list_columns_requires_table_or_arg() {
    let mut spec = bare_spec();
    spec.operation = HanaOperation::ListColumns;
    let message = refused(spec);
    assert!(message.contains("list_columns"), "{message}");
}

#[test]
fn register_list_tables_allows_omitted_query() {
    let mut plugin = HanaBackendPlugin::new();
    let mut spec = bare_spec();
    spec.operation = HanaOperation::ListTables;
    spec.schema = Some("SALES".into());
    spec.schema_arg = Some("schema".into());
    register(&mut plugin, "t", spec);
    let p = plugin.profile("t").unwrap_or_else(|e| panic!("{e:?}"));
    assert_eq!(p.operation, HanaOperation::ListTables);
    assert_eq!(p.catalog_filters.schema.as_deref(), Some("SALES"));
}

#[test]
fn catalog_operations_ignore_the_statement() {
    let mut plugin = HanaBackendPlugin::new();
    let mut spec = bare_spec();
    spec.operation = HanaOperation::ListTables;
    spec.query = "DROP TABLE T -- cred://x".into();
    spec.params = vec!["arguments.id".into()];
    let mut verdicts = passed(&spec);
    verdicts.query = Some(REFUSED.into());
    let unread = Some("bad CEL".to_owned());
    assert!(plugin.register_profile("t", spec, &verdicts, &unread).is_ok());
    let profile = plugin.profile("t").unwrap_or_else(|e| panic!("{e:?}"));
    match plan_call(profile, &Json::Null, Err("unused".into())) {
        Ok(plan) => {
            assert!(plan.sql.starts_with("SELECT SCHEMA_NAME"));
            assert_eq!(plan.binds, vec![HanaBind::Int(10_000)]);
        }
        Err(words) => panic!("{words}"),
    }
}

#[test]
fn catalog_output_schema_types_rows() {
    let mut plugin = HanaBackendPlugin::new();
    let mut spec = bare_spec();
    spec.operation = HanaOperation::ListColumns;
    spec.table = Some("ORDERS".into());
    register(&mut plugin, "c", spec);
    let schema = plugin.output_schema("c").unwrap();
    let row_props = at(
        &schema,
        &["properties", "response", "properties", "rows", "items", "properties"],
    );
    assert!(is_object(at(row_props, &["COLUMN_NAME"])));
    assert!(is_object(at(row_props, &["DATA_TYPE_NAME"])));
}

#[test]
fn catalog_input_schema_surfaces_filter_args() {
    let mut plugin = HanaBackendPlugin::new();
    let mut spec = bare_spec();
    spec.operation = HanaOperation::ListTables;
    spec.schema_arg = Some("schema".into());
    spec.table_type_arg = Some("kind".into());
    register(&mut plugin, "t", spec);
    let schema = plugin.input_schema("t").unwrap();
    assert!(is_object(at(&schema, &["properties", "schema"])));
    assert!(is_object(at(&schema, &["properties", "kind"])));
    assert_eq!(at(&schema, &["additionalProperties"]), &Json::Bool(true));
}

#[test]
fn list_resources_empty_when_unconfigured() {
    let mut plugin = HanaBackendPlugin::new();
    register(&mut plugin, "q", minimal_spec());
    let profile = plugin.profile("q").unwrap_or_else(|e| panic!("{e:?}"));
    assert!(matches!(plan_listing(profile, None), Ok(None)));
    let page = hana_backend::surface::ResourcePage::empty();
    assert!(page.resources.is_empty());
    assert!(page.next_cursor.is_none());
}

#[test]
fn register_resource_template_read_query() {
    let mut plugin = HanaBackendPlugin::new();
    let mut spec = bare_spec();
    spec.surface = Surface::Resource;
    spec.read_query = Some("SELECT * FROM ORDERS WHERE ID = ?".into());
    spec.params = vec!["arguments.id".into()];
    register(&mut plugin, "rt", spec);
    let p = plugin.profile("rt").unwrap_or_else(|e| panic!("{e:?}"));
    assert_eq!(p.read_query.as_deref(), Some("SELECT * FROM ORDERS WHERE ID = ?"));
    assert!(p.statement.is_empty());
    assert_eq!(p.surface, Surface::Resource);
    assert_eq!(p.params.len(), 1);
}

#[test]
fn register_rejects_read_query_on_tool_surface() {
    let mut spec = minimal_spec();
    spec.read_query = Some("SELECT * FROM T WHERE ID = ?".into());
    let message = refused(spec);
    assert!(message.contains("read_query"), "{message}");
    assert!(message.contains("surface: resource"), "{message}");
}

#[test]
fn register_rejects_non_read_only_read_query() {
    let mut spec = bare_spec();
    spec.surface = Surface::Resource;
    spec.read_query = Some("DELETE FROM ORDERS WHERE ID = ?".into());
    spec.params = vec!["arguments.id".into()];
    let mut verdicts = passed(&spec);
    verdicts.read_query = Some(REFUSED.into());
    assert_eq!(refused_with(spec, verdicts, None), REFUSED);
}

#[test]
fn register_rejects_bare_cred_read_query() {
    let mut spec = bare_spec();
    spec.surface = Surface::Resource;
    spec.read_query = Some("SELECT * FROM T WHERE K = 'cred://aws/x#id'".into());
    assert!(refused(spec).starts_with("read_query must not contain"));
}

#[test]
fn template_var_binds_as_param_not_interpolated() {
    let mut plugin = HanaBackendPlugin::new();
    let mut spec = bare_spec();
    spec.surface = Surface::Resource;
    spec.read_query = Some("SELECT * FROM ORDERS WHERE ID = ?".into());
    spec.params = vec!["arguments.id".into()];
    register(&mut plugin, "rt", spec);
    let injection = "1 OR 1=1; DROP TABLE x";
    let bind = json_to_hana_bind(Json::text(injection));
    assert_eq!(bind, Ok(HanaBind::Str(injection.to_owned())));
    let args = object(vec![
        ("uri", Json::Str(format!("hana://orders/{injection}"))),
        ("id", Json::text(injection)),
        ("template_vars", object(vec![("id", Json::text(injection))])),
    ]);
    let profile = plugin.profile("rt").unwrap_or_else(|e| panic!("{e:?}"));
    match plan_call(profile, &args, Ok(vec![Json::text(injection)])) {
        Ok(plan) => {
            assert_eq!(plan.sql, "SELECT * FROM ORDERS WHERE ID = ?");
            assert_eq!(plan.binds, vec![HanaBind::Str(injection.to_owned())]);
        }
        Err(words) => panic!("{words}"),
    }
}

#[test]
fn resource_template_read_shapes_single_row_contents() {
    let uri = "hana://orders/42";
    let row = object(vec![
        ("ID", Json::integer(42)),
        ("TOTAL", Json::Number(JsonNumber::Float("19.99".into()))),
    ]);
    let rows = vec![row];
    let body = resource_contents_body(uri, &rows);
    let contents = match at(&body, &["contents"]) {
        Json::Array(items) => items,
        other => panic!("expected contents, got {other:?}"),
    };
    assert_eq!(contents.len(), 1);
    assert_eq!(at(&contents[0], &["uri"]), &Json::text(uri));
    assert_eq!(at(&contents[0], &["mimeType"]), &Json::text("application/json"));
    let text = at(&contents[0], &["text"]).as_str().unwrap();
    let decoded = from_bytes(text.as_bytes()).unwrap();
    assert_eq!(decoded, Json::Array(rows));
}

#[test]
fn complete_template_variable_empty_when_unconfigured() {
    let mut plugin = HanaBackendPlugin::new();
    register(&mut plugin, "q", minimal_spec());
    let profile = plugin.profile("q").unwrap_or_else(|e| panic!("{e:?}"));
    assert_eq!(plan_completion(profile, "v", "x"), None);
}

#[test]
fn registering_again_replaces_and_a_refusal_does_not() {
    let mut plugin = HanaBackendPlugin::new();
    register(&mut plugin, "a", minimal_spec());
    register(&mut plugin, "b", minimal_spec());
    let mut spec = minimal_spec();
    spec.database = Some("NEW".into());
    register(&mut plugin, "a", spec);
    let label = |plugin: &HanaBackendPlugin, name: &str| {
        plugin.profile(name).ok().map(|p| p.database.clone())
    };
    assert_eq!(label(&plugin, "a").as_deref(), Some("NEW"));
    assert_eq!(label(&plugin, "b").as_deref(), Some("hana.example:39015"));
    let mut bad = minimal_spec();
    bad.database = Some("WORSE".into());
    bad.port = 0;
    let verdicts = passed(&bad);
    assert!(plugin.register_profile("a", bad, &verdicts, &None).is_err());
    for name in ["a", "b"] {
        let p = plugin.profile(name).unwrap_or_else(|e| panic!("{e:?}"));
        assert!(p.timeout_ms > 0 && p.max_rows > 0 && p.max_result_bytes > 0);
        assert!(!p.statement.contains("cred://"));
        assert!(p.read_query.is_none() && p.surface_uri.is_none());
    }
    assert_eq!(label(&plugin, "a").as_deref(), Some("NEW"));
}

#[test]
fn tool_name_comes_from_the_first_matching_header() {
    let headers = vec![
        ("x".to_owned(), "0".to_owned()),
        ("MCPG-Tool-Name".to_owned(), "first".to_owned()),
        ("mcpg-tool-name".to_owned(), "second".to_owned()),
    ];
    assert_eq!(tool_name(&headers, "b"), "first");
    assert_eq!(tool_name(&vec![], "b"), "b");
}

#[test]
fn payload_becomes_arguments() {
    let mut plugin = HanaBackendPlugin::new();
    register(&mut plugin, "q", minimal_spec());
    let opened = plugin.open_call("q", b"", &vec![]);
    assert_eq!(opened.ok().map(|c| c.arguments), Some(Json::Object(vec![])));
    let opened = plugin.open_call("q", b"{\"id\":7}", &vec![]);
    assert_eq!(
        opened.ok().map(|c| c.arguments),
        Some(object(vec![("id", Json::integer(7))]))
    );
    match plugin.open_call("q", b"{", &vec![]) {
        Err(error) => {
            assert_eq!(refusal_label(&error), "invalid_spec");
            match error {
                BackendError::InvalidSpec { message } => {
                    assert!(message.starts_with("HANA plugin payload is not valid JSON: EOF"))
                }
                other => panic!("{other:?}"),
            }
        }
        Ok(_) => panic!("expected a refusal"),
    }
}

#[test]
fn unreadable_spec_has_its_words() {
    assert_eq!(
        unreadable_spec("missing field `host`"),
        BackendError::InvalidSpec { message: "HANA binding spec: missing field `host`".into() }
    );
}

#[test]
fn audit_metadata_names_the_transport() {
    assert_eq!(
        HanaBackendPlugin::new().audit_metadata("any"),
        object(vec![("hana.transport", Json::text("plugin"))])
    );
}

#[test]
fn reports_take_the_shape_of_the_surface() {
    let context = CallContext { tool_name: "t", backend_name: "b", database: "d", duration_ms: 3 };
    let outcome = || {
        Ok(QueryOutcome {
            rows: vec![object(vec![("ID", Json::integer(1))])],
            truncated: true,
            row_count: 2,
        })
    };
    let args = object(vec![("uri", Json::text("hana://asked"))]);
    let tool = report_call(&context, Surface::Tool, None, &args, outcome());
    assert_eq!((tool.label, tool.reason), ("ok", None));
    assert_eq!(at(&tool.body, &["response", "count"]), &Json::integer(2));
    assert_eq!(at(&tool.body, &["response", "truncated"]), &Json::Bool(true));

    let asked = report_call(&context, Surface::Resource, None, &args, outcome());
    let fixed = report_call(&context, Surface::Resource, Some("hana://s"), &args, outcome());
    let uri = |body: &Json| match at(body, &["contents"]) {
        Json::Array(items) => at(&items[0], &["uri"]).as_str().map(str::to_owned),
        _ => None,
    };
    assert_eq!(uri(&asked.body).as_deref(), Some("hana://asked"));
    assert_eq!(uri(&fixed.body).as_deref(), Some("hana://s"));

    let lost = report_call(&context, Surface::Resource, None, &object(vec![]), outcome());
    assert_eq!(lost.label, "hana_error");
    assert!(is_object(at(&lost.body, &["downstreamError"])));

    let prompt = report_call(&context, Surface::Prompt, None, &args, outcome());
    match at(&prompt.body, &["messages"]) {
        Json::Array(items) => {
            assert_eq!(at(&items[0], &["role"]), &Json::text("user"));
            assert_eq!(at(&items[0], &["content", "type"]), &Json::text("text"));
            assert_eq!(at(&items[0], &["content", "text"]), &Json::text("[{\"ID\":1}]"));
        }
        other => panic!("{other:?}"),
    }
}

#[test]
fn failures_are_reported_however_long_they_took() {
    let context = CallContext {
        tool_name: "t",
        backend_name: "b",
        database: "d",
        duration_ms: u128::MAX,
    };
    let report = report_unplanned(&context, "binding params: no");
    assert_eq!(report.body.get("response"), Some(&Json::Null));
    let failed = report_call(&context, Surface::Tool, None, &Json::Null, Err("down".into()));
    assert_eq!(failed.label, "hana_error");
    let answer = QueryOutcome { rows: vec![], truncated: false, row_count: 0 };
    let prompt = report_call(&context, Surface::Prompt, None, &Json::Null, Ok(answer));
    assert_eq!(prompt.label, "ok");
}

#[test]
fn failed_calls_get_their_label() {
    let context = CallContext { tool_name: "t", backend_name: "b", database: "d", duration_ms: 3 };
    let label = |words: &str| {
        let report = report_call(
            &context,
            Surface::Tool,
            None,
            &Json::Null,
            Err(words.to_owned()),
        );
        assert_eq!(report.reason.as_deref(), Some(words));
        assert_eq!(at(&report.body, &["error"]), &Json::text(words));
        report.label
    };
    assert_eq!(label("HANA call timed out"), "timeout");
    assert_eq!(label("syntax error after Timeout"), "timeout");
    assert_eq!(label("HANA pool connection failed: x"), "transport_error");
    assert_eq!(label("invalid column name"), "hana_error");
}
