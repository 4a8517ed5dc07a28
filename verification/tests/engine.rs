use hana_backend::connection::{build_pool, TlsChoice};
use hana_backend::engine::{build_list_columns_query, build_list_tables_query, CatalogFilters};
use hana_backend::json::{Json, JsonNumber};
use hana_backend::marshal::{hdb_value_to_json, to_hdb_value, HanaValue};
use hana_backend::params::{json_to_hana_bind, HanaBind};
use hana_backend::types::count_bind_placeholders;

#[test]
fn scalar_binds_lower_to_hdb_values() {
    assert!(matches!(to_hdb_value(&HanaBind::Null), HanaValue::Null));
    assert!(matches!(to_hdb_value(&HanaBind::Int(7)), HanaValue::BigInt(7)));
    assert!(matches!(to_hdb_value(&HanaBind::Bool(true)), HanaValue::Boolean(true)));
    match to_hdb_value(&HanaBind::Str("x".into())) {
        HanaValue::Text(s) => assert_eq!(s, "x"),
        other => panic!("expected Text, got {other:?}"),
    }
    match to_hdb_value(&HanaBind::Float("1.5".into())) {
        HanaValue::Double(Some(t)) => {
            let f: f64 = t.parse().unwrap();
            assert!((f - 1.5).abs() < f64::EPSILON)
        }
        other => panic!("expected Double, got {other:?}"),
    }
}

#[test]
fn binds_come_back_as_they_are() {
    for value in [
        Json::Null,
        Json::Bool(false),
        Json::integer(i64::MIN),
        Json::Number(JsonNumber::Float("2.5".into())),
        Json::text("1 OR 1=1"),
    ] {
        let bind = json_to_hana_bind(value.copy()).unwrap();
        assert_eq!(hdb_value_to_json(to_hdb_value(&bind)), value);
    }
}

#[test]
fn hdb_value_marshals_scalars() {
    assert_eq!(hdb_value_to_json(HanaValue::Null), Json::Null);
    assert_eq!(hdb_value_to_json(HanaValue::Int(42)), Json::integer(42));
    assert_eq!(hdb_value_to_json(HanaValue::BigInt(99)), Json::integer(99));
    assert_eq!(hdb_value_to_json(HanaValue::TinyInt(7)), Json::integer(7));
    assert_eq!(hdb_value_to_json(HanaValue::SmallInt(-3)), Json::integer(-3));
    assert_eq!(hdb_value_to_json(HanaValue::Boolean(true)), Json::Bool(true));
    assert_eq!(hdb_value_to_json(HanaValue::Text("hello".into())), Json::text("hello"));
    assert_eq!(hdb_value_to_json(HanaValue::Text("hi".into())), Json::text("hi"));
    assert_eq!(
        hdb_value_to_json(HanaValue::Double(Some("2.5".into()))),
        Json::Number(JsonNumber::Float("2.5".into()))
    );
}

#[test]
fn hdb_value_binary_is_base64() {
    let v = hdb_value_to_json(HanaValue::Binary(vec![1, 2, 3]));
    assert_eq!(v, Json::text("AQID"));
}

#[test]
fn list_tables_query_no_filters_selects_all_with_limit() {
    let (sql, binds) = build_list_tables_query(&CatalogFilters::default(), 500);
    assert_eq!(
        sql,
        "SELECT SCHEMA_NAME, TABLE_NAME, TABLE_TYPE FROM SYS.TABLES \
         ORDER BY SCHEMA_NAME, TABLE_NAME LIMIT ?"
    );
    assert!(!sql.contains("WHERE"));
    assert_eq!(binds, vec![HanaBind::Int(500)]);
}

#[test]
fn list_tables_query_binds_filters_never_interpolates() {
    let filters = CatalogFilters {
        schema: "SALES".into(),
        table: "ORDERS".into(),
        table_type: "VIEW".into(),
        column: String::new(),
    };
    let (sql, binds) = build_list_tables_query(&filters, 100);
    assert!(sql.contains("SCHEMA_NAME = ? AND TABLE_NAME = ? AND TABLE_TYPE = ?"));
    assert!(!sql.contains("SALES"));
    assert!(!sql.contains("ORDERS"));
    assert!(!sql.contains("VIEW"));
    assert_eq!(
        binds,
        vec![
            HanaBind::Str("SALES".into()),
            HanaBind::Str("ORDERS".into()),
            HanaBind::Str("VIEW".into()),
            HanaBind::Int(100),
        ]
    );
}

#[test]
fn list_tables_query_rejects_sql_metacharacters_as_data() {
    let filters = CatalogFilters {
        schema: "X'; DROP TABLE SYS.TABLES;--".into(),
        ..Default::default()
    };
    let (sql, binds) = build_list_tables_query(&filters, 10);
    assert!(!sql.contains("DROP"));
    assert!(sql.contains("SCHEMA_NAME = ?"));
    assert_eq!(binds[0], HanaBind::Str("X'; DROP TABLE SYS.TABLES;--".into()));
}

#[test]
fn list_columns_query_binds_filters_and_orders_by_position() {
    let filters = CatalogFilters {
        schema: "SALES".into(),
        table: "ORDERS".into(),
        table_type: "ignored".into(),
        column: "ID".into(),
    };
    let (sql, binds) = build_list_columns_query(&filters, 200);
    assert!(sql.starts_with(
        "SELECT SCHEMA_NAME, TABLE_NAME, COLUMN_NAME, DATA_TYPE_NAME, LENGTH, \
         IS_NULLABLE, POSITION FROM SYS.TABLE_COLUMNS"
    ));
    assert!(!sql.contains("TABLE_TYPE"));
    assert!(sql.contains("SCHEMA_NAME = ? AND TABLE_NAME = ? AND COLUMN_NAME = ?"));
    assert!(sql.ends_with("ORDER BY SCHEMA_NAME, TABLE_NAME, POSITION LIMIT ?"));
    assert_eq!(
        binds,
        vec![
            HanaBind::Str("SALES".into()),
            HanaBind::Str("ORDERS".into()),
            HanaBind::Str("ID".into()),
            HanaBind::Int(200),
        ]
    );
}

#[test]
fn catalog_queries_have_one_bind_for_each_placeholder() {
    for mask in 0..16 {
        let set = |bit: u32| if mask & (1 << bit) != 0 { "?".to_owned() } else { String::new() };
        let filters = CatalogFilters {
            schema: set(0),
            table: set(1),
            table_type: set(2),
            column: set(3),
        };
        let (sql, binds) = build_list_tables_query(&filters, 1);
        assert_eq!(count_bind_placeholders(&sql), binds.len());
        let (sql, binds) = build_list_columns_query(&filters, 1);
        assert_eq!(count_bind_placeholders(&sql), binds.len());
    }
}

#[test]
fn catalog_cells_marshal_via_row_to_json() {
    assert_eq!(hdb_value_to_json(HanaValue::Text("SALES".into())), Json::text("SALES"));
    assert_eq!(hdb_value_to_json(HanaValue::Int(1)), Json::integer(1));
    assert_eq!(hdb_value_to_json(HanaValue::Text("TRUE".into())), Json::text("TRUE"));
    assert_eq!(hdb_value_to_json(HanaValue::Null), Json::Null);
}

#[test]
fn build_pool_is_offline_and_lazy() {
    let rt = tokio::runtime::Builder::new_current_thread()
        .enable_all()
        .build()
        .unwrap();
    rt.block_on(async {
        let plan = match build_pool(
            "hana.invalid",
            39015,
            "MCPG",
            Some("pw"),
            Some("HXE"),
            TlsChoice::SystemRoots,
            6,
            50,
        ) {
            Ok(plan) => plan,
            Err(words) => panic!("pool builds offline: {words}"),
        };
        assert_eq!(plan.max_size, 6);
        assert_eq!(plan.connection_timeout_ms, 50);
        let pool = bb8::Pool::builder()
            .max_size(plan.max_size)
            .connection_timeout(std::time::Duration::from_millis(plan.connection_timeout_ms))
            .build_unchecked(plan.manager);
        assert_eq!(pool.state().connections, 0);
    });
}

#[test]
fn pool_needs_a_password_and_at_least_one_connection() {
    let refused = build_pool("h", 1, "u", None, None, TlsChoice::Plaintext, 6, 50);
    assert_eq!(
        refused.err(),
        Some("HANA connect-params build failed: Wrong usage: password is missing".to_owned())
    );
    let plan = build_pool("h", 1, "u", Some(""), None, TlsChoice::NoVerify, 0, 50);
    assert_eq!(plan.ok().map(|p| p.max_size), Some(1));
}

#[test]
fn connect_parameters_reach_the_driver() {
    let shown = |tls: TlsChoice| {
        let plan = build_pool("some.host", 39015, "READER", Some("pw"), Some("HXE"), tls, 2, 9);
        format!("{:?}", plan.ok().map(|p| p.manager))
    };
    let plain = shown(TlsChoice::Plaintext);
    assert!(plain.contains("some.host:39015"), "{plain}");
    assert!(plain.contains("READER"), "{plain}");
    assert!(plain.contains("HXE"), "{plain}");
    assert!(plain.contains("Off"), "{plain}");
    assert!(shown(TlsChoice::NoVerify).contains("Insecure"));
    assert!(shown(TlsChoice::SystemRoots).contains("RootCertificates"));
    assert!(shown(TlsChoice::Ca("PEM TEXT".into())).contains("Direct(\"PEM TEXT\")"));
}
