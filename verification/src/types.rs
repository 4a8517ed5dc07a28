//! The operator-facing configuration of a binding and the checks on its
//! operator-fixed statements.
//!
//! One binding is one operator-fixed SQL statement and becomes one MCP tool,
//! resource or prompt.
use vstd::prelude::*;
use vstd::string::StringExecFns;

use crate::surface::Surface;
use crate::text::{
    blank, chars_of, copy_option, decimal, decimal_text, is_blank, is_word, is_word_char, trim, trimmed,
};

verus! {

/// What an operator configures for one binding.
#[derive(Debug, Clone)]
pub struct HanaBackendSpec {
    /// HANA host, never taken from a caller.
    pub host: String,
    /// HDB SQL port.
    pub port: u16,
    /// HANA database user.
    pub user: String,
    /// Password of that user; a missing or empty one is rejected, and so is one
    /// that holds a bare `cred://` URI.
    pub password: Option<String>,
    /// Tenant database, which is also the label on the response envelope.
    pub database: Option<String>,
    /// Whether the server's certificate chain is verified.
    pub tls_verify_peer: bool,
    /// Trust anchor in PEM form; without one the webpki roots are used.
    pub tls_ca_cert: Option<String>,
    /// Whether to connect over TLS at all.
    pub use_tls: bool,
    /// What the binding does.
    pub operation: HanaOperation,
    /// The operator-fixed statement of `operation: query`.
    pub query: String,
    /// Pinned schema filter of the catalog operations.
    pub schema: Option<String>,
    /// Pinned table filter of the catalog operations.
    pub table: Option<String>,
    /// Pinned table-type filter of `list_tables`.
    pub table_type: Option<String>,
    /// Pinned column filter of `list_columns`.
    pub column: Option<String>,
    /// Tool argument that supplies the schema filter.
    pub schema_arg: Option<String>,
    /// Tool argument that supplies the table filter.
    pub table_arg: Option<String>,
    /// Tool argument that supplies the table-type filter.
    pub table_type_arg: Option<String>,
    /// Tool argument that supplies the column filter.
    pub column_arg: Option<String>,
    /// Ordered CEL expressions; the i-th is bound to the i-th `?`.
    pub params: Vec<String>,
    /// Whether every statement must pass the read-only guard.
    pub read_only: bool,
    /// Largest number of pooled connections.
    pub pool_max_size: u32,
    /// Ceiling on one call, in milliseconds.
    pub timeout_ms: u64,
    /// Largest number of rows that a call returns.
    pub max_rows: usize,
    /// Largest number of serialized row bytes that a call returns.
    pub max_result_bytes: usize,
    /// The MCP surface that the binding serves.
    pub surface: Surface,
    /// Static resource URI of the resource surface.
    pub uri: Option<String>,
    /// Single-row read of a resource template.
    pub read_query: Option<String>,
    /// Listing statement of `resources/list`.
    pub list_query: Option<ListQueryConfig>,
    /// Completion query of each template variable, in the order in which they
    /// are checked. Of two for one variable the first counts.
    pub variable_completions: Vec<(String, CompletionConfig)>,
}

impl HanaBackendSpec {
    /// The configuration that names a host, a port and a user and leaves out
    /// everything else.
    pub fn new(host: String, port: u16, user: String) -> (spec: HanaBackendSpec)
        ensures
            spec.host == host,
            spec.port == port,
            spec.user == user,
            spec.password is None,
            spec.database is None,
            spec.tls_verify_peer,
            spec.tls_ca_cert is None,
            spec.use_tls,
            spec.operation == HanaOperation::Query,
            spec.query@.len() == 0,
            spec.schema is None,
            spec.table is None,
            spec.table_type is None,
            spec.column is None,
            spec.schema_arg is None,
            spec.table_arg is None,
            spec.table_type_arg is None,
            spec.column_arg is None,
            spec.params@.len() == 0,
            spec.read_only,
            spec.pool_max_size == 6,
            spec.timeout_ms == 5_000,
            spec.max_rows == 10_000,
            spec.max_result_bytes == 8 * 1024 * 1024,
            spec.surface == Surface::Tool,
            spec.uri is None,
            spec.read_query is None,
            spec.list_query is None,
            spec.variable_completions@.len() == 0,
    {
        HanaBackendSpec {
            host,
            port,
            user,
            password: None,
            database: None,
            tls_verify_peer: default_tls_verify_peer(),
            tls_ca_cert: None,
            use_tls: default_use_tls(),
            operation: HanaOperation::default(),
            query: String::new(),
            schema: None,
            table: None,
            table_type: None,
            column: None,
            schema_arg: None,
            table_arg: None,
            table_type_arg: None,
            column_arg: None,
            params: Vec::new(),
            read_only: default_read_only(),
            pool_max_size: default_pool_max_size(),
            timeout_ms: default_timeout_ms(),
            max_rows: default_max_rows(),
            max_result_bytes: default_max_result_bytes(),
            surface: Surface::default(),
            uri: None,
            read_query: None,
            list_query: None,
            variable_completions: Vec::new(),
        }
    }
}

/// The operation that a binding performs.
#[derive(Debug, Clone, Copy, PartialEq, Eq, Structural)]
pub enum HanaOperation {
    /// Run the operator-fixed statement.
    Query,
    /// Discover tables and views through `SYS.TABLES`.
    ListTables,
    /// Discover columns through `SYS.TABLE_COLUMNS`.
    ListColumns,
}

/// The wire token of an operation.
pub open spec fn operation_token(operation: HanaOperation) -> Seq<char> {
    match operation {
        HanaOperation::Query => "query"@,
        HanaOperation::ListTables => "list_tables"@,
        HanaOperation::ListColumns => "list_columns"@,
    }
}

impl Default for HanaOperation {
    fn default() -> (operation: Self)
        ensures
            operation == HanaOperation::Query,
    {
        HanaOperation::Query
    }
}

impl HanaOperation {
    /// The wire token of the operation.
    pub fn as_str(self) -> (token: &'static str)
        ensures
            token@ == operation_token(self),
    {
        match self {
            HanaOperation::Query => "query",
            HanaOperation::ListTables => "list_tables",
            HanaOperation::ListColumns => "list_columns",
        }
    }

    /// Whether the operation reads the catalog and runs no operator statement.
    pub fn is_catalog(self) -> (catalog: bool)
        ensures
            catalog == (self != HanaOperation::Query),
    {
        match self {
            HanaOperation::Query => false,
            HanaOperation::ListTables => true,
            HanaOperation::ListColumns => true,
        }
    }
}

/// `tls_verify_peer` where it is left out.
pub fn default_tls_verify_peer() -> (verify: bool)
    ensures
        verify,
{
    true
}

/// `use_tls` where it is left out.
pub fn default_use_tls() -> (tls: bool)
    ensures
        tls,
{
    true
}

/// `read_only` where it is left out.
pub fn default_read_only() -> (read_only: bool)
    ensures
        read_only,
{
    true
}

/// `pool_max_size` where it is left out.
pub fn default_pool_max_size() -> (size: u32)
    ensures
        size == 6,
{
    6
}

/// `timeout_ms` where it is left out.
pub fn default_timeout_ms() -> (millis: u64)
    ensures
        millis == 5_000,
{
    5_000
}

/// `max_rows` where it is left out.
pub fn default_max_rows() -> (rows: usize)
    ensures
        rows == 10_000,
{
    10_000
}

/// `max_result_bytes` where it is left out: 8 MiB.
pub fn default_max_result_bytes() -> (bytes: usize)
    ensures
        bytes == 8 * 1024 * 1024,
{
    8 * 1024 * 1024
}

/// `page_size` of a listing where it is left out.
pub fn default_list_page_size() -> (rows: u64)
    ensures
        rows == 100,
{
    100
}

/// How a listing is paged.
#[derive(Debug, Clone, Copy, PartialEq, Eq, Structural)]
pub enum ListQueryMode {
    /// The first `?` is the keyset cursor (NULL on the first page), the second
    /// the page size.
    Keyset,
    /// The first `?` is the page size, the second the offset.
    Offset,
}

impl Default for ListQueryMode {
    fn default() -> (mode: Self)
        ensures
            mode == ListQueryMode::Keyset,
    {
        ListQueryMode::Keyset
    }
}

/// Listing statement of `resources/list` and how it is paged.
#[derive(Debug, Clone, PartialEq)]
pub struct ListQueryConfig {
    /// One row for each resource. Column `uri` is required; `name`,
    /// `description` and `mime_type` are optional.
    pub sql: String,
    /// How the listing is paged.
    pub mode: ListQueryMode,
    /// The column that the keyset cursor follows.
    pub cursor_column: Option<String>,
    /// Rows on one page.
    pub page_size: u64,
}

impl ListQueryConfig {
    /// A copy of the configuration.
    pub fn copy(&self) -> (copied: ListQueryConfig)
        ensures
            copied == *self,
    {
        ListQueryConfig {
            sql: self.sql.clone(),
            mode: self.mode,
            cursor_column: copy_option(&self.cursor_column),
            page_size: self.page_size,
        }
    }
}

/// Completion query of one template variable.
#[derive(Debug, Clone, PartialEq)]
pub struct CompletionConfig {
    /// Candidates in the first column; its one `?` is bound to the prefix that
    /// the caller has typed.
    pub sql: String,
    /// Largest number of candidates.
    pub max_results: Option<u32>,
}

/// The text of an optional field, empty where the field is left out.
pub open spec fn text_or_empty(field: Option<String>) -> Seq<char> {
    match field {
        Some(text) => text@,
        None => Seq::empty(),
    }
}

/// A field that is left out or holds nothing but white space.
pub open spec fn unset(field: Option<String>) -> bool {
    blank(text_or_empty(field))
}

/// A plain SQL identifier: a letter or underscore, then letters, digits and
/// underscores, all of them ASCII.
pub open spec fn safe_identifier(s: Seq<char>) -> bool {
    &&& s.len() > 0
    &&& !('0' <= s[0] <= '9')
    &&& forall|i: int| 0 <= i < s.len() ==> is_word_char(#[trigger] s[i])
}

/// The number of `?` among the first `n` characters of `s`.
pub open spec fn placeholders_before(s: Seq<char>, n: int) -> nat
    decreases n,
{
    if n <= 0 {
        0
    } else {
        placeholders_before(s, n - 1) + if s[n - 1] == '?' {
            1nat
        } else {
            0nat
        }
    }
}

/// The number of `?` in `s`.
pub open spec fn placeholders(s: Seq<char>) -> nat {
    placeholders_before(s, s.len() as int)
}

/// What is wrong with a listing configuration, if anything.
pub open spec fn list_query_fault(cfg: ListQueryConfig) -> Option<Seq<char>> {
    let column = trimmed(text_or_empty(cfg.cursor_column));
    if blank(cfg.sql@) {
        Some("list_query.sql must not be empty"@)
    } else if !(1 <= cfg.page_size <= 1_000) {
        Some(
            "list_query.page_size ("@ + decimal_text(cfg.page_size as nat)
                + ") must be in 1..=1000"@,
        )
    } else if cfg.mode == ListQueryMode::Offset {
        None
    } else if column.len() == 0 {
        Some("list_query.cursor_column is required for mode: keyset"@)
    } else if !safe_identifier(column) {
        Some("list_query.cursor_column '"@ + column + "' is not a safe SQL identifier"@)
    } else {
        None
    }
}

/// What is wrong with the completion query of variable `name`, if anything.
pub open spec fn completion_fault(name: Seq<char>, cfg: CompletionConfig) -> Option<Seq<char>> {
    if blank(cfg.sql@) {
        Some("variable_completions."@ + name + ".sql must not be empty"@)
    } else if placeholders(cfg.sql@) != 1 {
        Some(
            "variable_completions."@ + name
                + ".sql must reference exactly one `?` placeholder (bound to the typed prefix)"@,
        )
    } else {
        None
    }
}

/// Whether an optional field is left out or holds nothing but white space.
pub fn is_unset(field: &Option<String>) -> (empty: bool)
    ensures
        empty == unset(*field),
{
    match field {
        Some(text) => is_blank(text),
        None => true,
    }
}

/// Checks a listing configuration.
pub fn validate_list_query(cfg: &ListQueryConfig) -> (checked: Result<(), String>)
    ensures
        match checked {
            Ok(()) => list_query_fault(*cfg) is None,
            Err(words) => list_query_fault(*cfg) == Some(words@),
        },
{
    if is_blank(&cfg.sql) {
        return Err("list_query.sql must not be empty".to_owned());
    }
    if cfg.page_size == 0 || cfg.page_size > 1_000 {
        let mut words = "list_query.page_size (".to_owned();
        words.append(&decimal(cfg.page_size as u128));
        words.append(") must be in 1..=1000");
        return Err(words);
    }
    if cfg.mode == ListQueryMode::Keyset {
        let column = match &cfg.cursor_column {
            Some(text) => trim(text),
            None => String::new(),
        };
        assert(column@ == trimmed(text_or_empty(cfg.cursor_column)));
        if column.as_str().is_empty() {
            return Err("list_query.cursor_column is required for mode: keyset".to_owned());
        }
        if !is_safe_sql_identifier(&column) {
            let mut words = "list_query.cursor_column '".to_owned();
            words.append(&column);
            words.append("' is not a safe SQL identifier");
            return Err(words);
        }
    }
    Ok(())
}

/// Checks the completion query of variable `name`: a statement with exactly one
/// `?`.
pub fn validate_completion(name: &str, cfg: &CompletionConfig) -> (checked: Result<(), String>)
    ensures
        match checked {
            Ok(()) => completion_fault(name@, *cfg) is None,
            Err(words) => completion_fault(name@, *cfg) == Some(words@),
        },
{
    if is_blank(&cfg.sql) {
        let mut words = "variable_completions.".to_owned();
        words.append(name);
        words.append(".sql must not be empty");
        return Err(words);
    }
    if count_bind_placeholders(&cfg.sql) != 1 {
        let mut words = "variable_completions.".to_owned();
        words.append(name);
        words.append(
            ".sql must reference exactly one `?` placeholder (bound to the typed prefix)",
        );
        return Err(words);
    }
    Ok(())
}

/// The number of `?` in a statement. HANA has no escape for it, so each is one
/// bind.
pub fn count_bind_placeholders(sql: &str) -> (count: usize)
    ensures
        count == placeholders(sql@),
{
    let chars = chars_of(sql);
    let mut count: usize = 0;
    let mut i: usize = 0;
    while i < chars.len()
        invariant
            i <= chars@.len(),
            chars@ == sql@,
            count <= i,
            count == placeholders_before(sql@, i as int),
        decreases chars@.len() - i,
    {
        if chars[i] == '?' {
            count += 1;
        }
        i += 1;
    }
    count
}

/// Whether `s` is a plain SQL identifier.
pub fn is_safe_sql_identifier(s: &str) -> (safe: bool)
    ensures
        safe == safe_identifier(s@),
{
    let chars = chars_of(s);
    if chars.len() == 0 || ('0' <= chars[0] && chars[0] <= '9') {
        return false;
    }
    let mut i: usize = 0;
    while i < chars.len()
        invariant
            i <= chars@.len(),
            chars@ == s@,
            forall|j: int| 0 <= j < i ==> is_word_char(#[trigger] s@[j]),
        decreases chars@.len() - i,
    {
        if !is_word(chars[i]) {
            assert(!is_word_char(s@[i as int]));
            return false;
        }
        i += 1;
    }
    true
}

/// The `?` of a prefix are counted from the prefix alone.
pub proof fn lemma_placeholders_prefix(s: Seq<char>, t: Seq<char>, n: int)
    requires
        n <= s.len(),
        n <= t.len(),
        forall|i: int| 0 <= i < n ==> s[i] == t[i],
    ensures
        placeholders_before(s, n) == placeholders_before(t, n),
    decreases n,
{
    if n > 0 {
        lemma_placeholders_prefix(s, t, n - 1);
    }
}

/// The `?` of two texts add up.
pub proof fn lemma_placeholders_add(a: Seq<char>, b: Seq<char>)
    ensures
        placeholders(a + b) == placeholders(a) + placeholders(b),
    decreases b.len(),
{
    if b.len() == 0 {
        assert(a + b =~= a);
    } else {
        let init = b.drop_last();
        lemma_placeholders_add(a, init);
        lemma_placeholders_prefix(a + b, a + init, (a + init).len() as int);
        lemma_placeholders_prefix(b, init, init.len() as int);
    }
}

/// Each `?` of a text is counted once, and nothing else is.
pub proof fn law_placeholders_are_question_marks(s: Seq<char>, c: char)
    ensures
        placeholders(Seq::<char>::empty()) == 0,
        placeholders(s.push(c)) == placeholders(s) + if c == '?' {
            1nat
        } else {
            0nat
        },
{
    lemma_placeholders_prefix(s.push(c), s, s.len() as int);
}

/// An identifier is safe exactly where all its characters are ASCII letters,
/// digits and underscores and the first is no digit.
pub proof fn law_safe_identifiers(s: Seq<char>)
    ensures
        safe_identifier(s) <==> {
            &&& s.len() > 0
            &&& !(48 <= s[0] as int <= 57)
            &&& forall|i: int|
                0 <= i < s.len() ==> {
                    ||| 48 <= (#[trigger] s[i]) as int <= 57
                    ||| 65 <= s[i] as int <= 90
                    ||| 97 <= s[i] as int <= 122
                    ||| s[i] as int == 95
                }
        },
{
}

/// A listing passes exactly where it has a statement, a page of 1 to 1000 rows,
/// and in keyset mode a cursor column with a safe name.
pub proof fn law_listings_pass_exactly(cfg: ListQueryConfig)
    ensures
        list_query_fault(cfg) is None <==> {
            &&& !blank(cfg.sql@)
            &&& 1 <= cfg.page_size
            &&& cfg.page_size <= 1000
            &&& cfg.mode == ListQueryMode::Keyset ==> (cfg.cursor_column matches Some(column)
                && safe_identifier(trimmed(column@)))
        },
        blank(cfg.sql@) ==> list_query_fault(cfg) == Some("list_query.sql must not be empty"@),
        !blank(cfg.sql@) && !(1 <= cfg.page_size && cfg.page_size <= 1000) ==> list_query_fault(cfg)
            == Some(
            "list_query.page_size ("@ + decimal_text(cfg.page_size as nat)
                + ") must be in 1..=1000"@,
        ),
{
    assert(trimmed(Seq::<char>::empty()).len() == 0);
}

/// A completion query passes exactly where it has a statement with one `?`.
pub proof fn law_completions_pass_exactly(name: Seq<char>, cfg: CompletionConfig)
    ensures
        completion_fault(name, cfg) is None <==> !blank(cfg.sql@) && placeholders(cfg.sql@) == 1,
        blank(cfg.sql@) ==> completion_fault(name, cfg) == Some(
            "variable_completions."@ + name + ".sql must not be empty"@,
        ),
        !blank(cfg.sql@) && placeholders(cfg.sql@) != 1 ==> completion_fault(name, cfg) == Some(
            "variable_completions."@ + name
                + ".sql must reference exactly one `?` placeholder (bound to the typed prefix)"@,
        ),
{
}

/// No two operations share a token.
pub proof fn law_operation_tokens_differ(a: HanaOperation, b: HanaOperation)
    ensures
        operation_token(a) == operation_token(b) ==> a == b,
        operation_token(HanaOperation::Query) == "query"@,
        operation_token(HanaOperation::ListTables) == "list_tables"@,
        operation_token(HanaOperation::ListColumns) == "list_columns"@,
{
    reveal_strlit("query");
    reveal_strlit("list_tables");
    reveal_strlit("list_columns");
    assert("query"@.len() == 5 && "list_tables"@.len() == 11 && "list_columns"@.len() == 12);
}

/// A field is unset exactly where it is left out or blank, and its text is the one
/// that it holds.
pub proof fn law_fields_are_set_by_their_text(text: String)
    ensures
        unset(None),
        unset(Some(text)) <==> blank(text@),
        text_or_empty(None).len() == 0,
        text_or_empty(Some(text)) == text@,
{
}

/// A keyset listing without a cursor column, or with one whose name is not safe,
/// is refused in words that say so.
pub proof fn law_keyset_listings_need_a_cursor_column(cfg: ListQueryConfig, column: String)
    requires
        cfg.mode == ListQueryMode::Keyset,
        !blank(cfg.sql@),
        1 <= cfg.page_size <= 1000,
    ensures
        cfg.cursor_column is None ==> list_query_fault(cfg) == Some(
            "list_query.cursor_column is required for mode: keyset"@,
        ),
        cfg.cursor_column == Some(column) && trimmed(column@).len() == 0 ==> list_query_fault(cfg)
            == Some("list_query.cursor_column is required for mode: keyset"@),
        cfg.cursor_column == Some(column) && trimmed(column@).len() > 0 && !safe_identifier(
            trimmed(column@),
        ) ==> list_query_fault(cfg) == Some(
            "list_query.cursor_column '"@ + trimmed(column@) + "' is not a safe SQL identifier"@,
        ),
{
    assert(trimmed(Seq::<char>::empty()).len() == 0);
}

/// A configuration that names only whom to connect to leaves TLS, verification and
/// the read-only guard on, and is bounded.
pub proof fn law_new_configurations_are_guarded(
    host: String,
    port: u16,
    user: String,
    spec: HanaBackendSpec,
)
    requires
        call_ensures(HanaBackendSpec::new, (host, port, user), spec),
    ensures
        spec.host@ == host@,
        spec.port == port,
        spec.user@ == user@,
        spec.use_tls && spec.tls_verify_peer && spec.read_only,
        spec.pool_max_size == 6,
        spec.timeout_ms == 5_000,
        spec.max_rows == 10_000,
        spec.max_result_bytes == 8_388_608,
        spec.operation == HanaOperation::Query && spec.surface == Surface::Tool,
{
}

} // verus!
