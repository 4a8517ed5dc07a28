use hana_backend::json::Json;
use hana_backend::marshal::QueryOutcome;
use hana_backend::plugin::PluginClass;
use hana_backend::watch::{
    cursor_from_outcome, no_runtime, plan_watch, poll_timed_out, unreadable_watch,
    HanaWatchCdylib, WatchError, WatchSpec, PLUGIN_ID, WATCH_KIND,
};

fn spec(query: &str) -> WatchSpec {
    WatchSpec::new("hana.example".into(), 39015, "MCPG".into(), query.into())
}

fn refusal(spec: WatchSpec, verdict: Option<String>) -> WatchError {
    match plan_watch(spec, &verdict) {
        Ok(_) => panic!("expected a refusal"),
        Err(error) => error,
    }
}

#[test]
fn manifest_and_kind_are_correct() {
    let p = HanaWatchCdylib::from_host_config("");
    assert_eq!(p.manifest().id, PLUGIN_ID);
    assert_eq!(p.manifest().plugin_class, PluginClass::WatchStrategy);
    assert_eq!(p.kind(), WATCH_KIND);
    assert_eq!(WATCH_KIND, "hana_poll");
    assert_eq!(PLUGIN_ID, "dev.mcpg.backend.hana");
}

#[test]
fn spec_parses_with_defaults() {
    let parsed = spec("SELECT max(UPDATED_AT) FROM EVENTS");
    assert_eq!(parsed.interval_ms, 60_000);
    assert_eq!(parsed.timeout_ms, 10_000);
    assert_eq!(parsed.pool_max_size, 1);
    assert!(parsed.tls_verify_peer);
    assert!(parsed.use_tls);
    assert!(parsed.password.is_none());
    assert!(parsed.database.is_none());
}

#[test]
fn empty_tracking_query_is_invalid_spec() {
    let error = refusal(spec("   "), None);
    assert_eq!(
        error,
        WatchError::InvalidSpec { message: "tracking_query must not be empty".into() }
    );
}

#[test]
fn non_read_only_tracking_query_is_invalid_spec() {
    let error = refusal(
        spec("INSERT INTO EVENTS VALUES (now())"),
        Some("statement is not read-only".into()),
    );
    assert_eq!(
        error,
        WatchError::InvalidSpec { message: "statement is not read-only".into() }
    );
}

#[test]
fn watch_refuses_an_incomplete_connection() {
    let mut s = spec("SELECT 1 FROM DUMMY");
    s.host = " ".into();
    assert_eq!(
        refusal(s, None),
        WatchError::InvalidSpec { message: "host must not be empty".into() }
    );
    let mut s = spec("SELECT 1 FROM DUMMY");
    s.port = 0;
    assert_eq!(
        refusal(s, None),
        WatchError::InvalidSpec { message: "port must be greater than 0".into() }
    );
    let mut s = spec("SELECT 1 FROM DUMMY");
    s.user = String::new();
    assert_eq!(
        refusal(s, None),
        WatchError::InvalidSpec { message: "user must not be empty".into() }
    );
    assert_eq!(
        refusal(spec("SELECT 1 FROM DUMMY"), None),
        WatchError::Subscribe {
            message: "HANA connect-params build failed: Wrong usage: password is missing".into()
        }
    );
}

#[test]
fn watch_polls_one_row_of_the_query() {
    let mut s = spec("SELECT max(UPDATED_AT) FROM EVENTS");
    s.password = Some("pw".into());
    s.pool_max_size = 0;
    s.interval_ms = 30_000;
    match plan_watch(s, &None) {
        Ok(plan) => {
            assert_eq!(plan.poll.sql, "SELECT max(UPDATED_AT) FROM EVENTS");
            assert!(plan.poll.binds.is_empty());
            assert_eq!(plan.poll.max_rows, 1);
            assert_eq!(plan.poll.max_result_bytes, usize::MAX);
            assert_eq!(plan.poll.timeout_ms, 10_000);
            assert_eq!(plan.pool.max_size, 1);
            assert_eq!(plan.interval_ms, 30_000);
        }
        Err(error) => panic!("expected a plan, got {error:?}"),
    }
}

#[test]
fn cursor_from_outcome_extracts_first_scalar() {
    let outcome = QueryOutcome {
        rows: vec![Json::Object(vec![(
            "MAX(UPDATED_AT)".to_owned(),
            Json::text("2026-06-23 10:00:00"),
        )])],
        truncated: false,
        row_count: 1,
    };
    assert_eq!(
        cursor_from_outcome(&outcome).as_deref(),
        Some("2026-06-23 10:00:00")
    );

    let outcome = QueryOutcome {
        rows: vec![Json::Object(vec![("COUNT(*)".to_owned(), Json::integer(42))])],
        truncated: false,
        row_count: 1,
    };
    assert_eq!(cursor_from_outcome(&outcome).as_deref(), Some("42"));
}

#[test]
fn cursor_from_outcome_none_on_zero_rows_or_null() {
    let empty = QueryOutcome {
        rows: vec![],
        truncated: false,
        row_count: 0,
    };
    assert_eq!(cursor_from_outcome(&empty), None);

    let null = QueryOutcome {
        rows: vec![Json::Object(vec![("MAX(T)".to_owned(), Json::Null)])],
        truncated: false,
        row_count: 1,
    };
    assert_eq!(cursor_from_outcome(&null), None);
}

#[test]
fn cursor_is_the_first_column_whatever_its_name() {
    let outcome = QueryOutcome {
        rows: vec![Json::Object(vec![
            ("Z".to_owned(), Json::Bool(true)),
            ("A".to_owned(), Json::integer(1)),
        ])],
        truncated: false,
        row_count: 1,
    };
    assert_eq!(cursor_from_outcome(&outcome).as_deref(), Some("true"));
    let bare = QueryOutcome {
        rows: vec![Json::Object(vec![])],
        truncated: false,
        row_count: 1,
    };
    assert_eq!(cursor_from_outcome(&bare), None);
}

#[test]
fn watch_failures_have_their_words() {
    assert_eq!(poll_timed_out(), "hana_poll: tracking query timed out");
    assert_eq!(
        unreadable_watch("unknown field `bogus`"),
        WatchError::InvalidSpec {
            message: "invalid hana_poll watch spec: unknown field `bogus`".into()
        }
    );
    assert_eq!(
        no_runtime("no threads"),
        WatchError::Subscribe {
            message: "hana_poll: tokio runtime init failed: no threads".into()
        }
    );
}
