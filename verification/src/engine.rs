//! The catalog queries: selects over `SYS.TABLES` and `SYS.TABLE_COLUMNS` whose
//! filters are bound and never part of the text.
use vstd::prelude::*;
use vstd::string::StringExecFns;

use crate::params::{bind_models, BindModel, HanaBind};
use crate::text::occurs_at;
use crate::types::{
    lemma_placeholders_add, lemma_placeholders_prefix, placeholders, placeholders_before,
};

verus! {

/// The filters of one catalog call. A filter that is not empty becomes a
/// predicate over a fixed `SYS` column, and its value is bound to the `?` of
/// that predicate; an empty filter matches everything.
#[derive(Debug, Clone, PartialEq)]
pub struct CatalogFilters {
    pub schema: String,
    pub table: String,
    pub table_type: String,
    pub column: String,
}

/// What [`CatalogFilters`] stand for.
pub struct FiltersModel {
    pub schema: Seq<char>,
    pub table: Seq<char>,
    pub table_type: Seq<char>,
    pub column: Seq<char>,
}

impl View for CatalogFilters {
    type V = FiltersModel;

    open spec fn view(&self) -> FiltersModel {
        FiltersModel {
            schema: self.schema@,
            table: self.table@,
            table_type: self.table_type@,
            column: self.column@,
        }
    }
}

impl Default for CatalogFilters {
    fn default() -> (filters: Self)
        ensures
            filters.schema@.len() == 0,
            filters.table@.len() == 0,
            filters.table_type@.len() == 0,
            filters.column@.len() == 0,
    {
        CatalogFilters {
            schema: String::new(),
            table: String::new(),
            table_type: String::new(),
            column: String::new(),
        }
    }
}

/// The predicates that one filter adds.
pub open spec fn predicate_of(predicate: Seq<char>, filter: Seq<char>) -> Seq<Seq<char>> {
    if filter.len() == 0 {
        Seq::empty()
    } else {
        seq![predicate]
    }
}

/// The binds that one filter adds.
pub open spec fn bind_of(filter: Seq<char>) -> Seq<BindModel> {
    if filter.len() == 0 {
        Seq::empty()
    } else {
        seq![BindModel::Str(filter)]
    }
}

/// `parts` with `separator` between neighbours.
pub open spec fn joined(parts: Seq<Seq<char>>, separator: Seq<char>) -> Seq<char>
    decreases parts.len(),
{
    if parts.len() == 0 {
        Seq::empty()
    } else if parts.len() == 1 {
        parts[0]
    } else {
        joined(parts.drop_last(), separator) + separator + parts.last()
    }
}

/// A catalog select with its predicates.
pub open spec fn select_text(
    select: Seq<char>,
    predicates: Seq<Seq<char>>,
    order: Seq<char>,
) -> Seq<char> {
    if predicates.len() == 0 {
        select + order
    } else {
        select + " WHERE "@ + joined(predicates, " AND "@) + order
    }
}

/// The predicates of a `list_tables` query.
pub open spec fn tables_predicates(f: FiltersModel) -> Seq<Seq<char>> {
    predicate_of("SCHEMA_NAME = ?"@, f.schema) + predicate_of("TABLE_NAME = ?"@, f.table)
        + predicate_of("TABLE_TYPE = ?"@, f.table_type)
}

/// The text of a `list_tables` query.
pub open spec fn tables_sql(f: FiltersModel) -> Seq<char> {
    select_text(
        "SELECT SCHEMA_NAME, TABLE_NAME, TABLE_TYPE FROM SYS.TABLES"@,
        tables_predicates(f),
        " ORDER BY SCHEMA_NAME, TABLE_NAME LIMIT ?"@,
    )
}

/// The binds of a `list_tables` query.
pub open spec fn tables_binds(f: FiltersModel, max_rows: usize) -> Seq<BindModel> {
    (bind_of(f.schema) + bind_of(f.table) + bind_of(f.table_type)).push(
        BindModel::Int(max_rows as i64),
    )
}

/// The predicates of a `list_columns` query.
pub open spec fn columns_predicates(f: FiltersModel) -> Seq<Seq<char>> {
    predicate_of("SCHEMA_NAME = ?"@, f.schema) + predicate_of("TABLE_NAME = ?"@, f.table)
        + predicate_of("COLUMN_NAME = ?"@, f.column)
}

/// The text of a `list_columns` query.
pub open spec fn columns_sql(f: FiltersModel) -> Seq<char> {
    select_text(
        "SELECT SCHEMA_NAME, TABLE_NAME, COLUMN_NAME, DATA_TYPE_NAME, LENGTH, IS_NULLABLE, POSITION FROM SYS.TABLE_COLUMNS"@,
        columns_predicates(f),
        " ORDER BY SCHEMA_NAME, TABLE_NAME, POSITION LIMIT ?"@,
    )
}

/// The binds of a `list_columns` query.
pub open spec fn columns_binds(f: FiltersModel, max_rows: usize) -> Seq<BindModel> {
    (bind_of(f.schema) + bind_of(f.table) + bind_of(f.column)).push(
        BindModel::Int(max_rows as i64),
    )
}

/// The texts of a list of string slices.
pub open spec fn texts(parts: Seq<&'static str>) -> Seq<Seq<char>> {
    parts.map_values(|p: &'static str| p@)
}

/// Adds the predicate and the bind of one filter.
fn add_filter(
    predicates: &mut Vec<&'static str>,
    binds: &mut Vec<HanaBind>,
    predicate: &'static str,
    filter: &String,
)
    ensures
        texts(final(predicates)@) == texts(old(predicates)@) + predicate_of(predicate@, filter@),
        bind_models(final(binds)@) == bind_models(old(binds)@) + bind_of(filter@),
{
    if !filter.as_str().is_empty() {
        let bind = HanaBind::Str(filter.clone());
        assert(texts(predicates@.push(predicate)) =~= texts(predicates@) + seq![predicate@]);
        assert(bind_models(binds@.push(bind)) =~= bind_models(binds@) + seq![bind@]);
        predicates.push(predicate);
        binds.push(bind);
    } else {
        assert(texts(predicates@) + predicate_of(predicate@, filter@) =~= texts(predicates@));
        assert(bind_models(binds@) + bind_of(filter@) =~= bind_models(binds@));
    }
}

/// `parts` with `separator` between neighbours.
fn join(parts: &Vec<&'static str>, separator: &str) -> (text: String)
    ensures
        text@ == joined(texts(parts@), separator@),
{
    let ghost all = texts(parts@);
    let mut text = String::new();
    let mut i: usize = 0;
    while i < parts.len()
        invariant
            i <= parts@.len(),
            all == texts(parts@),
            text@ == joined(all.take(i as int), separator@),
        decreases parts@.len() - i,
    {
        assert(all.take(i + 1).drop_last() =~= all.take(i as int));
        if i == 0 {
            assert(text@ =~= Seq::<char>::empty());
            assert(Seq::<char>::empty() + parts@[0]@ =~= parts@[0]@);
            text.append(parts[i]);
        } else {
            text.append(separator);
            text.append(parts[i]);
        }
        i += 1;
    }
    assert(all.take(i as int) =~= all);
    text
}

/// A catalog select with its predicates.
fn assemble(select: &str, predicates: &Vec<&'static str>, order: &str) -> (sql: String)
    ensures
        sql@ == select_text(select@, texts(predicates@), order@),
{
    let mut sql = select.to_owned();
    if predicates.len() > 0 {
        sql.append(" WHERE ");
        sql.append(&join(predicates, " AND "));
    }
    sql.append(order);
    sql
}

/// The `SYS.TABLES` query of `operation: list_tables` and the binds of its `?`,
/// in order.
pub fn build_list_tables_query(filters: &CatalogFilters, max_rows: usize) -> (query: (
    String,
    Vec<HanaBind>,
))
    ensures
        query.0@ == tables_sql(filters@),
        bind_models(query.1@) == tables_binds(filters@, max_rows),
{
    let mut binds: Vec<HanaBind> = Vec::new();
    let mut predicates: Vec<&'static str> = Vec::new();
    assert(texts(predicates@) =~= Seq::<Seq<char>>::empty());
    assert(bind_models(binds@) =~= Seq::<BindModel>::empty());
    add_filter(&mut predicates, &mut binds, "SCHEMA_NAME = ?", &filters.schema);
    add_filter(&mut predicates, &mut binds, "TABLE_NAME = ?", &filters.table);
    add_filter(&mut predicates, &mut binds, "TABLE_TYPE = ?", &filters.table_type);
    assert(texts(predicates@) =~= tables_predicates(filters@));
    assert(bind_models(binds@) =~= bind_of(filters.schema@) + bind_of(filters.table@) + bind_of(
        filters.table_type@,
    ));
    let sql = assemble(
        "SELECT SCHEMA_NAME, TABLE_NAME, TABLE_TYPE FROM SYS.TABLES",
        &predicates,
        " ORDER BY SCHEMA_NAME, TABLE_NAME LIMIT ?",
    );
    let limit = HanaBind::Int(max_rows as i64);
    assert(bind_models(binds@.push(limit)) =~= bind_models(binds@).push(limit@));
    binds.push(limit);
    (sql, binds)
}

/// The `SYS.TABLE_COLUMNS` query of `operation: list_columns` and the binds of
/// its `?`, in order. The table-type filter does not apply to columns.
pub fn build_list_columns_query(filters: &CatalogFilters, max_rows: usize) -> (query: (
    String,
    Vec<HanaBind>,
))
    ensures
        query.0@ == columns_sql(filters@),
        bind_models(query.1@) == columns_binds(filters@, max_rows),
{
    let mut binds: Vec<HanaBind> = Vec::new();
    let mut predicates: Vec<&'static str> = Vec::new();
    assert(texts(predicates@) =~= Seq::<Seq<char>>::empty());
    assert(bind_models(binds@) =~= Seq::<BindModel>::empty());
    add_filter(&mut predicates, &mut binds, "SCHEMA_NAME = ?", &filters.schema);
    add_filter(&mut predicates, &mut binds, "TABLE_NAME = ?", &filters.table);
    add_filter(&mut predicates, &mut binds, "COLUMN_NAME = ?", &filters.column);
    assert(texts(predicates@) =~= columns_predicates(filters@));
    assert(bind_models(binds@) =~= bind_of(filters.schema@) + bind_of(filters.table@) + bind_of(
        filters.column@,
    ));
    let sql = assemble(
        "SELECT SCHEMA_NAME, TABLE_NAME, COLUMN_NAME, DATA_TYPE_NAME, LENGTH, IS_NULLABLE, POSITION FROM SYS.TABLE_COLUMNS",
        &predicates,
        " ORDER BY SCHEMA_NAME, TABLE_NAME, POSITION LIMIT ?",
    );
    let limit = HanaBind::Int(max_rows as i64);
    assert(bind_models(binds@.push(limit)) =~= bind_models(binds@).push(limit@));
    binds.push(limit);
    (sql, binds)
}

/// Two sets of filters that set the same filters of `list_tables`, whatever
/// values they give.
pub open spec fn same_tables_filters_set(f: FiltersModel, g: FiltersModel) -> bool {
    &&& (f.schema.len() == 0) == (g.schema.len() == 0)
    &&& (f.table.len() == 0) == (g.table.len() == 0)
    &&& (f.table_type.len() == 0) == (g.table_type.len() == 0)
}

/// Two sets of filters that set the same filters of `list_columns`, whatever
/// values they give.
pub open spec fn same_columns_filters_set(f: FiltersModel, g: FiltersModel) -> bool {
    &&& (f.schema.len() == 0) == (g.schema.len() == 0)
    &&& (f.table.len() == 0) == (g.table.len() == 0)
    &&& (f.column.len() == 0) == (g.column.len() == 0)
}

/// The value of a filter never reaches the text of a catalog query: the text
/// depends only on which of the filters that apply to it are set.
pub proof fn law_filter_values_stay_out_of_sql(f: FiltersModel, g: FiltersModel)
    ensures
        same_tables_filters_set(f, g) ==> tables_sql(f) == tables_sql(g),
        same_columns_filters_set(f, g) ==> columns_sql(f) == columns_sql(g),
{
}

/// A catalog query has exactly one bind for each `?` of its text.
pub proof fn law_catalog_binds_match_placeholders(f: FiltersModel, max_rows: usize)
    ensures
        placeholders(tables_sql(f)) == tables_binds(f, max_rows).len(),
        placeholders(columns_sql(f)) == columns_binds(f, max_rows).len(),
{
    lemma_fixed_parts();
    lemma_select_placeholders(
        "SELECT SCHEMA_NAME, TABLE_NAME, TABLE_TYPE FROM SYS.TABLES"@,
        tables_predicates(f),
        " ORDER BY SCHEMA_NAME, TABLE_NAME LIMIT ?"@,
    );
    lemma_select_placeholders(
        "SELECT SCHEMA_NAME, TABLE_NAME, COLUMN_NAME, DATA_TYPE_NAME, LENGTH, IS_NULLABLE, POSITION FROM SYS.TABLE_COLUMNS"@,
        columns_predicates(f),
        " ORDER BY SCHEMA_NAME, TABLE_NAME, POSITION LIMIT ?"@,
    );
}

/// The `?` of the fixed parts of the catalog queries.
#[verifier::rlimit(50)]
proof fn lemma_fixed_parts()
    ensures
        placeholders("SELECT SCHEMA_NAME, TABLE_NAME, TABLE_TYPE FROM SYS.TABLES"@) == 0,
        placeholders(
            "SELECT SCHEMA_NAME, TABLE_NAME, COLUMN_NAME, DATA_TYPE_NAME, LENGTH, IS_NULLABLE, POSITION FROM SYS.TABLE_COLUMNS"@,
        ) == 0,
        placeholders(" ORDER BY SCHEMA_NAME, TABLE_NAME LIMIT ?"@) == 1,
        placeholders(" ORDER BY SCHEMA_NAME, TABLE_NAME, POSITION LIMIT ?"@) == 1,
        placeholders(" WHERE "@) == 0,
        placeholders(" AND "@) == 0,
        placeholders("SCHEMA_NAME = ?"@) == 1,
        placeholders("TABLE_NAME = ?"@) == 1,
        placeholders("TABLE_TYPE = ?"@) == 1,
        placeholders("COLUMN_NAME = ?"@) == 1,
{
    reveal_strlit("SELECT SCHEMA_NAME, TABLE_NAME, TABLE_TYPE FROM SYS.TABLES");
    reveal_strlit(
        "SELECT SCHEMA_NAME, TABLE_NAME, COLUMN_NAME, DATA_TYPE_NAME, LENGTH, IS_NULLABLE, POSITION FROM SYS.TABLE_COLUMNS",
    );
    reveal_strlit(" ORDER BY SCHEMA_NAME, TABLE_NAME LIMIT ?");
    reveal_strlit(" ORDER BY SCHEMA_NAME, TABLE_NAME, POSITION LIMIT ?");
    reveal_strlit(" WHERE ");
    reveal_strlit(" AND ");
    reveal_strlit("SCHEMA_NAME = ?");
    reveal_strlit("TABLE_NAME = ?");
    reveal_strlit("TABLE_TYPE = ?");
    reveal_strlit("COLUMN_NAME = ?");
    reveal_with_fuel(placeholders_before, 60);
    let columns =
        "SELECT SCHEMA_NAME, TABLE_NAME, COLUMN_NAME, DATA_TYPE_NAME, LENGTH, IS_NULLABLE, POSITION FROM SYS.TABLE_COLUMNS"@;
    assert(placeholders_before(columns, 40) == 0);
    assert(placeholders_before(columns, 80) == 0);
}

/// A select with one `?` in its order part and one in each predicate.
proof fn lemma_select_placeholders(select: Seq<char>, predicates: Seq<Seq<char>>, order: Seq<char>)
    requires
        placeholders(select) == 0,
        placeholders(order) == 1,
        placeholders(" WHERE "@) == 0,
        placeholders(" AND "@) == 0,
        forall|i: int| 0 <= i < predicates.len() ==> placeholders(#[trigger] predicates[i]) == 1,
    ensures
        placeholders(select_text(select, predicates, order)) == predicates.len() + 1,
{
    if predicates.len() == 0 {
        lemma_placeholders_add(select, order);
    } else {
        let list = joined(predicates, " AND "@);
        lemma_joined_placeholders(predicates);
        lemma_placeholders_add(select, " WHERE "@);
        lemma_placeholders_add(select + " WHERE "@, list);
        lemma_placeholders_add(select + " WHERE "@ + list, order);
    }
}

/// Predicates with one `?` each, joined.
proof fn lemma_joined_placeholders(predicates: Seq<Seq<char>>)
    requires
        predicates.len() > 0,
        placeholders(" AND "@) == 0,
        forall|i: int| 0 <= i < predicates.len() ==> placeholders(#[trigger] predicates[i]) == 1,
    ensures
        placeholders(joined(predicates, " AND "@)) == predicates.len(),
    decreases predicates.len(),
{
    if predicates.len() > 1 {
        let init = predicates.drop_last();
        assert forall|i: int| 0 <= i < init.len() implies placeholders(#[trigger] init[i]) == 1 by {
            assert(init[i] == predicates[i]);
        }
        lemma_joined_placeholders(init);
        lemma_placeholders_add(joined(init, " AND "@), " AND "@);
        lemma_placeholders_add(joined(init, " AND "@) + " AND "@, predicates.last());
    } else {
        assert(placeholders(predicates[0]) == 1);
    }
}

/// `sql` holds `predicate`, and what is bound to the first `?` in it or behind it
/// is `value`.
pub open spec fn binds_predicate(
    sql: Seq<char>,
    binds: Seq<BindModel>,
    predicate: Seq<char>,
    value: Seq<char>,
) -> bool {
    exists|i: int| #[trigger]
        occurs_at(sql, predicate, i) && placeholders_before(sql, i) < binds.len()
            && binds[placeholders_before(sql, i) as int] == BindModel::Str(value)
}

/// Every filter that is set narrows the catalog query it applies to: the query
/// holds the predicate on its `SYS` column, and the value of the filter is bound
/// to the `?` of that predicate.
pub proof fn law_set_filters_are_bound_to_their_predicate(f: FiltersModel, max_rows: usize)
    ensures
        f.schema.len() > 0 ==> binds_predicate(
            tables_sql(f),
            tables_binds(f, max_rows),
            "SCHEMA_NAME = ?"@,
            f.schema,
        ) && binds_predicate(
            columns_sql(f),
            columns_binds(f, max_rows),
            "SCHEMA_NAME = ?"@,
            f.schema,
        ),
        f.table.len() > 0 ==> binds_predicate(
            tables_sql(f),
            tables_binds(f, max_rows),
            "TABLE_NAME = ?"@,
            f.table,
        ) && binds_predicate(
            columns_sql(f),
            columns_binds(f, max_rows),
            "TABLE_NAME = ?"@,
            f.table,
        ),
        f.table_type.len() > 0 ==> binds_predicate(
            tables_sql(f),
            tables_binds(f, max_rows),
            "TABLE_TYPE = ?"@,
            f.table_type,
        ),
        f.column.len() > 0 ==> binds_predicate(
            columns_sql(f),
            columns_binds(f, max_rows),
            "COLUMN_NAME = ?"@,
            f.column,
        ),
{
    lemma_fixed_parts();
    let select_tables = "SELECT SCHEMA_NAME, TABLE_NAME, TABLE_TYPE FROM SYS.TABLES"@;
    let order_tables = " ORDER BY SCHEMA_NAME, TABLE_NAME LIMIT ?"@;
    let select_columns =
        "SELECT SCHEMA_NAME, TABLE_NAME, COLUMN_NAME, DATA_TYPE_NAME, LENGTH, IS_NULLABLE, POSITION FROM SYS.TABLE_COLUMNS"@;
    let order_columns = " ORDER BY SCHEMA_NAME, TABLE_NAME, POSITION LIMIT ?"@;
    let tables = tables_predicates(f);
    let columns = columns_predicates(f);
    let first = predicate_of("SCHEMA_NAME = ?"@, f.schema).len() as int;
    let second = first + predicate_of("TABLE_NAME = ?"@, f.table).len();
    if f.schema.len() > 0 {
        lemma_predicate_position(select_tables, tables, order_tables, 0);
        lemma_predicate_position(select_columns, columns, order_columns, 0);
        assert(tables[0] == "SCHEMA_NAME = ?"@ && columns[0] == "SCHEMA_NAME = ?"@);
        assert(tables_binds(f, max_rows)[0] == BindModel::Str(f.schema));
        assert(columns_binds(f, max_rows)[0] == BindModel::Str(f.schema));
    }
    if f.table.len() > 0 {
        lemma_predicate_position(select_tables, tables, order_tables, first);
        lemma_predicate_position(select_columns, columns, order_columns, first);
        assert(tables[first] == "TABLE_NAME = ?"@ && columns[first] == "TABLE_NAME = ?"@);
        assert(tables_binds(f, max_rows)[first] == BindModel::Str(f.table));
        assert(columns_binds(f, max_rows)[first] == BindModel::Str(f.table));
    }
    if f.table_type.len() > 0 {
        lemma_predicate_position(select_tables, tables, order_tables, second);
        assert(tables[second] == "TABLE_TYPE = ?"@);
        assert(tables_binds(f, max_rows)[second] == BindModel::Str(f.table_type));
    }
    if f.column.len() > 0 {
        lemma_predicate_position(select_columns, columns, order_columns, second);
        assert(columns[second] == "COLUMN_NAME = ?"@);
        assert(columns_binds(f, max_rows)[second] == BindModel::Str(f.column));
    }
}

/// The `k`-th predicate of a select stands where `k` of its `?` are over.
proof fn lemma_predicate_position(
    select: Seq<char>,
    predicates: Seq<Seq<char>>,
    order: Seq<char>,
    k: int,
)
    requires
        placeholders(select) == 0,
        placeholders(" WHERE "@) == 0,
        placeholders(" AND "@) == 0,
        0 <= k < predicates.len(),
        forall|i: int| 0 <= i < predicates.len() ==> placeholders(#[trigger] predicates[i]) == 1,
    ensures
        exists|i: int| #[trigger]
            occurs_at(select_text(select, predicates, order), predicates[k], i)
                && placeholders_before(select_text(select, predicates, order), i) == k,
{
    let sql = select_text(select, predicates, order);
    let (before, behind) = lemma_joined_split(predicates, k);
    let head = select + " WHERE "@ + before;
    lemma_placeholders_add(select, " WHERE "@);
    lemma_placeholders_add(select + " WHERE "@, before);
    assert(sql =~= head + predicates[k] + (behind + order));
    assert(sql.subrange(head.len() as int, (head.len() + predicates[k].len()) as int)
        =~= predicates[k]);
    lemma_placeholders_prefix(sql, head, head.len() as int);
    assert(occurs_at(sql, predicates[k], head.len() as int));
}

/// What stands before and behind the `k`-th of some joined predicates.
proof fn lemma_joined_split(predicates: Seq<Seq<char>>, k: int) -> (parts: (Seq<char>, Seq<char>))
    requires
        placeholders(" AND "@) == 0,
        0 <= k < predicates.len(),
        forall|i: int| 0 <= i < predicates.len() ==> placeholders(#[trigger] predicates[i]) == 1,
    ensures
        joined(predicates, " AND "@) == parts.0 + predicates[k] + parts.1,
        placeholders(parts.0) == k,
    decreases predicates.len(),
{
    if predicates.len() == 1 {
        let none = Seq::<char>::empty();
        assert(joined(predicates, " AND "@) =~= none + predicates[k] + none);
        (none, none)
    } else {
        let init = predicates.drop_last();
        assert forall|i: int| 0 <= i < init.len() implies placeholders(#[trigger] init[i]) == 1 by {
            assert(init[i] == predicates[i]);
        }
        if k < init.len() {
            let (before, behind) = lemma_joined_split(init, k);
            let longer = behind + " AND "@ + predicates.last();
            assert(joined(predicates, " AND "@) =~= before + predicates[k] + longer);
            (before, longer)
        } else {
            let head = joined(init, " AND "@) + " AND "@;
            lemma_joined_placeholders(init);
            lemma_placeholders_add(joined(init, " AND "@), " AND "@);
            let none = Seq::<char>::empty();
            assert(joined(predicates, " AND "@) =~= head + predicates[k] + none);
            (head, none)
        }
    }
}

/// Nothing is bound but the filters that are set and, last, the row cap.
pub proof fn law_catalog_binds_are_the_set_filters(f: FiltersModel, max_rows: usize)
    ensures
        ({
            let schema: int = if f.schema.len() > 0 {
                1
            } else {
                0
            };
            let table: int = if f.table.len() > 0 {
                1
            } else {
                0
            };
            let table_type: int = if f.table_type.len() > 0 {
                1
            } else {
                0
            };
            let column: int = if f.column.len() > 0 {
                1
            } else {
                0
            };
            let tables = tables_binds(f, max_rows);
            let columns = columns_binds(f, max_rows);
            &&& tables.len() == schema + table + table_type + 1
            &&& columns.len() == schema + table + column + 1
            &&& max_rows <= i64::MAX ==> tables.last() == BindModel::Int(max_rows as i64)
            &&& max_rows <= i64::MAX ==> columns.last() == BindModel::Int(max_rows as i64)
            &&& max_rows <= i64::MAX ==> tables.last()->Int_0 == max_rows
            &&& max_rows <= i64::MAX ==> columns.last()->Int_0 == max_rows
        }),
{
}

/// Up to three predicates, joined.
proof fn lemma_joined_few(schema: Seq<char>, table: Seq<char>, third: Seq<char>, last: Seq<char>)
    ensures
        ({
            let predicates = predicate_of("SCHEMA_NAME = ?"@, schema) + predicate_of(
                "TABLE_NAME = ?"@,
                table,
            ) + predicate_of(third, last);
            let all = joined(predicates, " AND "@);
            match (schema.len() > 0, table.len() > 0, last.len() > 0) {
                (false, false, false) => predicates.len() == 0,
                (true, false, false) => predicates.len() == 1 && all == "SCHEMA_NAME = ?"@,
                (false, true, false) => predicates.len() == 1 && all == "TABLE_NAME = ?"@,
                (false, false, true) => predicates.len() == 1 && all == third,
                (true, true, false) => predicates.len() == 2 && all == "SCHEMA_NAME = ?"@ + " AND "@
                    + "TABLE_NAME = ?"@,
                (true, false, true) => predicates.len() == 2 && all == "SCHEMA_NAME = ?"@ + " AND "@
                    + third,
                (false, true, true) => predicates.len() == 2 && all == "TABLE_NAME = ?"@ + " AND "@
                    + third,
                (true, true, true) => predicates.len() == 3 && all == "SCHEMA_NAME = ?"@ + " AND "@
                    + "TABLE_NAME = ?"@ + " AND "@ + third,
            }
        }),
{
    let predicates = predicate_of("SCHEMA_NAME = ?"@, schema) + predicate_of(
        "TABLE_NAME = ?"@,
        table,
    ) + predicate_of(third, last);
    reveal_with_fuel(joined, 3);
    if predicates.len() > 1 {
        assert(predicates.drop_last()[0] == predicates[0]);
        if predicates.len() > 2 {
            assert(predicates.drop_last().drop_last()[0] == predicates[0]);
            assert(predicates.drop_last()[1] == predicates[1]);
        }
    }
}

/// The text of a `list_tables` query: one predicate for each filter that is set,
/// all of them required, over `SYS.TABLES` in order of schema and table.
pub proof fn law_list_tables_text(f: FiltersModel)
    ensures
        tables_sql(f) == "SELECT SCHEMA_NAME, TABLE_NAME, TABLE_TYPE FROM SYS.TABLES"@ + (match (
            f.schema.len() > 0,
            f.table.len() > 0,
            f.table_type.len() > 0,
        ) {
            (false, false, false) => Seq::empty(),
            (true, false, false) => " WHERE SCHEMA_NAME = ?"@,
            (false, true, false) => " WHERE TABLE_NAME = ?"@,
            (false, false, true) => " WHERE TABLE_TYPE = ?"@,
            (true, true, false) => " WHERE SCHEMA_NAME = ? AND TABLE_NAME = ?"@,
            (true, false, true) => " WHERE SCHEMA_NAME = ? AND TABLE_TYPE = ?"@,
            (false, true, true) => " WHERE TABLE_NAME = ? AND TABLE_TYPE = ?"@,
            (true, true, true) => " WHERE SCHEMA_NAME = ? AND TABLE_NAME = ? AND TABLE_TYPE = ?"@,
        }) + " ORDER BY SCHEMA_NAME, TABLE_NAME LIMIT ?"@,
{
    reveal_strlit("SCHEMA_NAME = ?");
    reveal_strlit("TABLE_NAME = ?");
    reveal_strlit("TABLE_TYPE = ?");
    reveal_strlit(" WHERE ");
    reveal_strlit(" AND ");
    lemma_joined_few(f.schema, f.table, "TABLE_TYPE = ?"@, f.table_type);
    let third = "TABLE_TYPE = ?"@;
    if f.schema.len() > 0 && f.table.len() > 0 && f.table_type.len() > 0 {
        reveal_strlit(" WHERE SCHEMA_NAME = ? AND TABLE_NAME = ? AND TABLE_TYPE = ?");
        assert(" WHERE SCHEMA_NAME = ? AND TABLE_NAME = ? AND TABLE_TYPE = ?"@ =~= " WHERE "@ + (
        "SCHEMA_NAME = ?"@ + " AND "@ + "TABLE_NAME = ?"@ + " AND "@ + third));
    } else if f.schema.len() > 0 && f.table.len() > 0 {
        reveal_strlit(" WHERE SCHEMA_NAME = ? AND TABLE_NAME = ?");
        assert(" WHERE SCHEMA_NAME = ? AND TABLE_NAME = ?"@ =~= " WHERE "@ + ("SCHEMA_NAME = ?"@
            + " AND "@ + "TABLE_NAME = ?"@));
    } else if f.schema.len() > 0 && f.table_type.len() > 0 {
        reveal_strlit(" WHERE SCHEMA_NAME = ? AND TABLE_TYPE = ?");
        assert(" WHERE SCHEMA_NAME = ? AND TABLE_TYPE = ?"@ =~= " WHERE "@ + ("SCHEMA_NAME = ?"@
            + " AND "@ + third));
    } else if f.table.len() > 0 && f.table_type.len() > 0 {
        reveal_strlit(" WHERE TABLE_NAME = ? AND TABLE_TYPE = ?");
        assert(" WHERE TABLE_NAME = ? AND TABLE_TYPE = ?"@ =~= " WHERE "@ + ("TABLE_NAME = ?"@
            + " AND "@ + third));
    } else if f.schema.len() > 0 {
        reveal_strlit(" WHERE SCHEMA_NAME = ?");
        assert(" WHERE SCHEMA_NAME = ?"@ =~= " WHERE "@ + "SCHEMA_NAME = ?"@);
    } else if f.table.len() > 0 {
        reveal_strlit(" WHERE TABLE_NAME = ?");
        assert(" WHERE TABLE_NAME = ?"@ =~= " WHERE "@ + "TABLE_NAME = ?"@);
    } else if f.table_type.len() > 0 {
        reveal_strlit(" WHERE TABLE_TYPE = ?");
        assert(" WHERE TABLE_TYPE = ?"@ =~= " WHERE "@ + third);
    }
}

/// The text of a `list_columns` query: one predicate for each filter that is set,
/// all of them required, over `SYS.TABLE_COLUMNS` in order of schema, table and
/// position.
pub proof fn law_list_columns_text(f: FiltersModel)
    ensures
        columns_sql(f)
            == "SELECT SCHEMA_NAME, TABLE_NAME, COLUMN_NAME, DATA_TYPE_NAME, LENGTH, IS_NULLABLE, POSITION FROM SYS.TABLE_COLUMNS"@
            + (match (f.schema.len() > 0, f.table.len() > 0, f.column.len() > 0) {
            (false, false, false) => Seq::empty(),
            (true, false, false) => " WHERE SCHEMA_NAME = ?"@,
            (false, true, false) => " WHERE TABLE_NAME = ?"@,
            (false, false, true) => " WHERE COLUMN_NAME = ?"@,
            (true, true, false) => " WHERE SCHEMA_NAME = ? AND TABLE_NAME = ?"@,
            (true, false, true) => " WHERE SCHEMA_NAME = ? AND COLUMN_NAME = ?"@,
            (false, true, true) => " WHERE TABLE_NAME = ? AND COLUMN_NAME = ?"@,
            (true, true, true) => " WHERE SCHEMA_NAME = ? AND TABLE_NAME = ? AND COLUMN_NAME = ?"@,
        }) + " ORDER BY SCHEMA_NAME, TABLE_NAME, POSITION LIMIT ?"@,
{
    reveal_strlit("SCHEMA_NAME = ?");
    reveal_strlit("TABLE_NAME = ?");
    reveal_strlit("COLUMN_NAME = ?");
    reveal_strlit(" WHERE ");
    reveal_strlit(" AND ");
    lemma_joined_few(f.schema, f.table, "COLUMN_NAME = ?"@, f.column);
    let third = "COLUMN_NAME = ?"@;
    if f.schema.len() > 0 && f.table.len() > 0 && f.column.len() > 0 {
        reveal_strlit(" WHERE SCHEMA_NAME = ? AND TABLE_NAME = ? AND COLUMN_NAME = ?");
        assert(" WHERE SCHEMA_NAME = ? AND TABLE_NAME = ? AND COLUMN_NAME = ?"@ =~= " WHERE "@ + (
        "SCHEMA_NAME = ?"@ + " AND "@ + "TABLE_NAME = ?"@ + " AND "@ + third));
    } else if f.schema.len() > 0 && f.table.len() > 0 {
        reveal_strlit(" WHERE SCHEMA_NAME = ? AND TABLE_NAME = ?");
        assert(" WHERE SCHEMA_NAME = ? AND TABLE_NAME = ?"@ =~= " WHERE "@ + ("SCHEMA_NAME = ?"@
            + " AND "@ + "TABLE_NAME = ?"@));
    } else if f.schema.len() > 0 && f.column.len() > 0 {
        reveal_strlit(" WHERE SCHEMA_NAME = ? AND COLUMN_NAME = ?");
        assert(" WHERE SCHEMA_NAME = ? AND COLUMN_NAME = ?"@ =~= " WHERE "@ + ("SCHEMA_NAME = ?"@
            + " AND "@ + third));
    } else if f.table.len() > 0 && f.column.len() > 0 {
        reveal_strlit(" WHERE TABLE_NAME = ? AND COLUMN_NAME = ?");
        assert(" WHERE TABLE_NAME = ? AND COLUMN_NAME = ?"@ =~= " WHERE "@ + ("TABLE_NAME = ?"@
            + " AND "@ + third));
    } else if f.schema.len() > 0 {
        reveal_strlit(" WHERE SCHEMA_NAME = ?");
        assert(" WHERE SCHEMA_NAME = ?"@ =~= " WHERE "@ + "SCHEMA_NAME = ?"@);
    } else if f.table.len() > 0 {
        reveal_strlit(" WHERE TABLE_NAME = ?");
        assert(" WHERE TABLE_NAME = ?"@ =~= " WHERE "@ + "TABLE_NAME = ?"@);
    } else if f.column.len() > 0 {
        reveal_strlit(" WHERE COLUMN_NAME = ?");
        assert(" WHERE COLUMN_NAME = ?"@ =~= " WHERE "@ + third);
    }
}

/// Both catalog queries carry each filter that applies to them and is set: the
/// text has the predicate on its column, and the value is bound to its `?`.
pub proof fn law_catalog_queries_carry_their_filters(
    filters: &CatalogFilters,
    max_rows: usize,
    tables: (String, Vec<HanaBind>),
    columns: (String, Vec<HanaBind>),
)
    requires
        call_ensures(build_list_tables_query, (filters, max_rows), tables),
        call_ensures(build_list_columns_query, (filters, max_rows), columns),
    ensures
        filters.schema@.len() > 0 ==> binds_predicate(
            tables.0@,
            bind_models(tables.1@),
            "SCHEMA_NAME = ?"@,
            filters.schema@,
        ) && binds_predicate(
            columns.0@,
            bind_models(columns.1@),
            "SCHEMA_NAME = ?"@,
            filters.schema@,
        ),
        filters.table@.len() > 0 ==> binds_predicate(
            tables.0@,
            bind_models(tables.1@),
            "TABLE_NAME = ?"@,
            filters.table@,
        ) && binds_predicate(
            columns.0@,
            bind_models(columns.1@),
            "TABLE_NAME = ?"@,
            filters.table@,
        ),
        filters.table_type@.len() > 0 ==> binds_predicate(
            tables.0@,
            bind_models(tables.1@),
            "TABLE_TYPE = ?"@,
            filters.table_type@,
        ),
        filters.column@.len() > 0 ==> binds_predicate(
            columns.0@,
            bind_models(columns.1@),
            "COLUMN_NAME = ?"@,
            filters.column@,
        ),
        placeholders(tables.0@) == tables.1@.len(),
        placeholders(columns.0@) == columns.1@.len(),
{
    law_set_filters_are_bound_to_their_predicate(filters@, max_rows);
    law_catalog_binds_match_placeholders(filters@, max_rows);
}

/// Filters stand for their texts.
pub proof fn law_filters_stand_for_their_texts(filters: CatalogFilters)
    ensures
        filters@.schema == filters.schema@,
        filters@.table == filters.table@,
        filters@.table_type == filters.table_type@,
        filters@.column == filters.column@,
{
}

} // verus!
