//! The text of the statements that the catalog is asked with. Values are
//! never written into the text: each stands as `?` and is bound when the
//! statement is run.

use crate::query::{
    bindings_of, build_where_clause, conditions, join_texts, join_with, where_text, Condition,
    OrderType, PageInfo, PageWindow, QueryParam, QueryType,
};
use crate::errors::{AppError, ErrorKind};
use crate::text::{decimal, decimal_i64, followed_by, texts};
use vstd::prelude::*;

verus! {

/// A statement and the values to bind to its `?`, in order.
#[derive(Debug)]
pub struct Statement {
    pub sql: String,
    pub values: Vec<String>,
}

/// Mathematical model of a [`Statement`].
pub struct StatementModel {
    pub sql: Seq<char>,
    pub values: Seq<Seq<char>>,
}

impl View for Statement {
    type V = StatementModel;

    open spec fn view(&self) -> StatementModel {
        StatementModel { sql: self.sql@, values: texts(self.values@) }
    }
}

/// All rows of a table that meet the conditions.
pub open spec fn select_model(table: Seq<char>, list: Seq<Condition>) -> StatementModel {
    StatementModel { sql: "SELECT * FROM "@ + table + where_text(list), values: bindings_of(list) }
}

/// The number of rows of a table that meet the conditions.
pub open spec fn count_model(table: Seq<char>, list: Seq<Condition>) -> StatementModel {
    StatementModel {
        sql: "SELECT COUNT(1) FROM "@ + table + where_text(list),
        values: bindings_of(list),
    }
}

/// The word for a sort direction.
pub open spec fn order_word(order: OrderType) -> Seq<char> {
    match order {
        OrderType::ASC => "ASC"@,
        OrderType::DESC => "DESC"@,
    }
}

/// The next rows of a table that meet the conditions, after the row with
/// id `after_id`: at most `limit` of them, sorted by id.
pub open spec fn keyset_model(
    table: Seq<char>,
    list: Seq<Condition>,
    after_id: i64,
    order: OrderType,
    limit: i64,
) -> StatementModel {
    let all = list.push(
        Condition {
            field: "id"@,
            query_type: QueryType::GreaterThan,
            values: seq![decimal(after_id as int)],
        },
    );
    StatementModel {
        sql: "SELECT * FROM "@ + table + where_text(all) + " ORDER BY id "@ + order_word(order)
            + " LIMIT "@ + decimal(limit as int),
        values: bindings_of(all),
    }
}

/// One window of the rows of a table that meet the conditions, sorted by
/// a column.
pub open spec fn page_model(
    table: Seq<char>,
    list: Seq<Condition>,
    column: Seq<char>,
    order: OrderType,
    window: PageWindow,
) -> StatementModel {
    StatementModel {
        sql: "SELECT * FROM "@ + table + where_text(list) + " ORDER BY "@ + column + " "@
            + order_word(order) + " LIMIT "@ + decimal(window.limit as int) + " OFFSET "@
            + decimal(window.offset as int),
        values: bindings_of(list),
    }
}

/// A `?` for each of `count` values.
pub open spec fn placeholders(count: nat) -> Seq<Seq<char>> {
    Seq::new(count, |i: int| "?"@)
}

/// The text that adds a row with the given columns.
pub open spec fn insert_text(table: Seq<char>, columns: Seq<Seq<char>>) -> Seq<char> {
    "INSERT INTO "@ + table + " ("@ + join_with(columns, ", "@) + ") VALUES ("@ + join_with(
        placeholders(columns.len()),
        ", "@,
    ) + ")"@
}

/// The assignments of an update: `column = ?` for each column.
pub open spec fn assignments(columns: Seq<Seq<char>>) -> Seq<Seq<char>> {
    Seq::new(columns.len(), |i: int| columns[i] + " = ?"@)
}

/// The text that changes the given columns of the row with an id; the id
/// is bound last.
pub open spec fn update_text(table: Seq<char>, columns: Seq<Seq<char>>) -> Seq<char> {
    "UPDATE "@ + table + " SET "@ + join_with(assignments(columns), ", "@) + " WHERE id = ?"@
}

/// The row of a table with an id.
pub open spec fn by_id_model(table: Seq<char>, id: i64) -> StatementModel {
    StatementModel {
        sql: "SELECT * FROM "@ + table + " WHERE id = ?"@,
        values: seq![decimal(id as int)],
    }
}

/// The removal of the row of a table with an id.
pub open spec fn delete_model(table: Seq<char>, id: i64) -> StatementModel {
    StatementModel {
        sql: "DELETE FROM "@ + table + " WHERE id = ?"@,
        values: seq![decimal(id as int)],
    }
}

/// Selects all rows of a table that meet the conditions.
pub fn select_where(table: &str, params: &Vec<QueryParam>) -> (out: Statement)
    ensures
        out@ == select_model(table@, conditions(params@)),
{
    let (where_sql, values) = build_where_clause(params);
    let mut sql = followed_by("SELECT * FROM ", table);
    sql.append(where_sql.as_str());
    Statement { sql, values }
}

/// Counts the rows of a table that meet the conditions.
pub fn count_where(table: &str, params: &Vec<QueryParam>) -> (out: Statement)
    ensures
        out@ == count_model(table@, conditions(params@)),
{
    let (where_sql, values) = build_where_clause(params);
    let mut sql = followed_by("SELECT COUNT(1) FROM ", table);
    sql.append(where_sql.as_str());
    Statement { sql, values }
}

fn duplicate_all(params: &Vec<QueryParam>) -> (out: Vec<QueryParam>)
    ensures
        conditions(out@) == conditions(params@),
{
    let mut out: Vec<QueryParam> = Vec::new();
    let mut i: usize = 0;
    while i < params.len()
        invariant
            i <= params.len(),
            out@.len() == i,
            forall|k: int| 0 <= k < i ==> (#[trigger] out@[k])@ == params@[k]@,
        decreases params.len() - i,
    {
        out.push(params[i].duplicate());
        i += 1;
    }
    proof {
        assert(conditions(out@) =~= conditions(params@));
    }
    out
}

/// Selects the next rows after a cursor, for keyset pagination.
pub fn select_after(
    table: &str,
    params: &Vec<QueryParam>,
    after_id: i64,
    order: OrderType,
    limit: i64,
) -> (out: Statement)
    ensures
        out@ == keyset_model(table@, conditions(params@), after_id, order, limit),
{
    let mut all = duplicate_all(params);
    let ghost before = all@;
    let cursor = decimal_i64(after_id);
    all.push(QueryParam::gt("id", cursor.as_str()));
    proof {
        assert(conditions(all@) =~= conditions(params@).push(
            Condition {
                field: "id"@,
                query_type: QueryType::GreaterThan,
                values: seq![decimal(after_id as int)],
            },
        ));
    }
    let (where_sql, values) = build_where_clause(&all);
    let mut sql = followed_by("SELECT * FROM ", table);
    sql.append(where_sql.as_str());
    sql.append(" ORDER BY id ");
    sql.append(order.as_str());
    sql.append(" LIMIT ");
    sql.append(decimal_i64(limit).as_str());
    Statement { sql, values }
}

/// Selects one window of a sorted listing.
pub fn select_page(
    table: &str,
    params: &Vec<QueryParam>,
    page_info: &PageInfo,
    window: PageWindow,
) -> (out: Statement)
    ensures
        out@ == page_model(
            table@,
            conditions(params@),
            page_info.order_column@,
            page_info.order_type,
            window,
        ),
{
    let (where_sql, values) = build_where_clause(params);
    let mut sql = followed_by("SELECT * FROM ", table);
    sql.append(where_sql.as_str());
    sql.append(" ORDER BY ");
    sql.append(page_info.order_column.as_str());
    sql.append(" ");
    sql.append(page_info.order_type.as_str());
    sql.append(" LIMIT ");
    sql.append(decimal_i64(window.limit).as_str());
    sql.append(" OFFSET ");
    sql.append(decimal_i64(window.offset).as_str());
    Statement { sql, values }
}

/// The text that adds a row with the given columns.
pub fn insert_into(table: &str, columns: &Vec<String>) -> (sql: String)
    ensures
        sql@ == insert_text(table@, texts(columns@)),
{
    let mut marks: Vec<String> = Vec::new();
    let mut i: usize = 0;
    while i < columns.len()
        invariant
            i <= columns.len(),
            marks@.len() == i,
            forall|k: int| 0 <= k < i ==> (#[trigger] marks@[k])@ == "?"@,
        decreases columns.len() - i,
    {
        marks.push(String::from_str("?"));
        i += 1;
    }
    proof {
        assert(texts(marks@) =~= placeholders(texts(columns@).len()));
    }
    let mut sql = followed_by("INSERT INTO ", table);
    sql.append(" (");
    sql.append(join_texts(columns, ", ").as_str());
    sql.append(") VALUES (");
    sql.append(join_texts(&marks, ", ").as_str());
    sql.append(")");
    sql
}

/// The text that changes the given columns of the row with an id.
pub fn update_by_id(table: &str, columns: &Vec<String>) -> (sql: String)
    ensures
        sql@ == update_text(table@, texts(columns@)),
{
    let mut sets: Vec<String> = Vec::new();
    let mut i: usize = 0;
    while i < columns.len()
        invariant
            i <= columns.len(),
            sets@.len() == i,
            forall|k: int| 0 <= k < i ==> (#[trigger] sets@[k])@ == columns@[k]@ + " = ?"@,
        decreases columns.len() - i,
    {
        sets.push(followed_by(columns[i].as_str(), " = ?"));
        i += 1;
    }
    proof {
        assert(texts(sets@) =~= assignments(texts(columns@)));
    }
    let mut sql = followed_by("UPDATE ", table);
    sql.append(" SET ");
    sql.append(join_texts(&sets, ", ").as_str());
    sql.append(" WHERE id = ?");
    sql
}

fn one_value(id: i64) -> (values: Vec<String>)
    ensures
        texts(values@) == seq![decimal(id as int)],
{
    let mut values: Vec<String> = Vec::new();
    values.push(decimal_i64(id));
    proof {
        assert(texts(values@) =~= seq![decimal(id as int)]);
    }
    values
}

/// Selects the row of a table with an id.
pub fn select_by_id(table: &str, id: i64) -> (out: Statement)
    ensures
        out@ == by_id_model(table@, id),
{
    let mut sql = followed_by("SELECT * FROM ", table);
    sql.append(" WHERE id = ?");
    Statement { sql, values: one_value(id) }
}

/// The sum of a column over the rows of a table that meet the
/// conditions; 0 where none does.
pub open spec fn sum_model(table: Seq<char>, column: Seq<char>, list: Seq<Condition>) -> StatementModel {
    StatementModel {
        sql: "SELECT COALESCE(SUM("@ + column + "), 0) FROM "@ + table + where_text(list),
        values: bindings_of(list),
    }
}

/// Sums a column over the rows of a table that meet the conditions.
pub fn sum_where(table: &str, column: &str, params: &Vec<QueryParam>) -> (out: Statement)
    ensures
        out@ == sum_model(table@, column@, conditions(params@)),
{
    let (where_sql, values) = build_where_clause(params);
    let mut sql = followed_by("SELECT COALESCE(SUM(", column);
    sql.append("), 0) FROM ");
    sql.append(table);
    sql.append(where_sql.as_str());
    Statement { sql, values }
}

/// Judges the number of rows found where exactly one is expected: none
/// is reported as not found, several as an internal error.
pub fn expect_one(found: usize) -> (r: Result<(), AppError>)
    ensures
        r is Ok <==> found == 1,
        r is Err ==> r->Err_0.kind() == if found == 0 {
            ErrorKind::NotFound
        } else {
            ErrorKind::InternalError
        },
{
    if found == 0 {
        Err(AppError::NotFound(String::from_str("NotFound")))
    } else if found > 1 {
        Err(AppError::InternalError(String::from_str("MoreThanOne")))
    } else {
        Ok(())
    }
}

/// Removes the row of a table with an id.
pub fn delete_by_id(table: &str, id: i64) -> (out: Statement)
    ensures
        out@ == delete_model(table@, id),
{
    let mut sql = followed_by("DELETE FROM ", table);
    sql.append(" WHERE id = ?");
    Statement { sql, values: one_value(id) }
}

} // verus!
