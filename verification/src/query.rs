//! Conditions on catalog rows and the SQL text that states them.

use crate::text::{followed_by, texts};
use vstd::prelude::*;

verus! {

/// How a field is compared.
#[derive(Clone, Copy, Debug, PartialEq, Eq, Structural)]
pub enum QueryType {
    Equal,
    GreaterThan,
    LessThan,
    Between,
    /// The field starts with the value.
    LikeEnd,
}

/// One condition: a field, a comparison and the values to compare with.
#[derive(Debug)]
pub struct QueryParam {
    pub field: String,
    pub query_type: QueryType,
    pub values: Vec<String>,
}

/// Mathematical model of a [`QueryParam`].
pub struct Condition {
    pub field: Seq<char>,
    pub query_type: QueryType,
    pub values: Seq<Seq<char>>,
}

impl View for QueryParam {
    type V = Condition;

    open spec fn view(&self) -> Condition {
        Condition {
            field: self.field@,
            query_type: self.query_type,
            values: texts(self.values@),
        }
    }
}

impl Condition {
    /// A condition says nothing when it names no field or no value, or
    /// when it asks for a range without giving exactly two values.
    pub open spec fn says_nothing(self) -> bool {
        ||| self.field.len() == 0
        ||| self.values.len() == 0
        ||| self.query_type == QueryType::Between && self.values.len() != 2
    }

    /// The SQL text of the condition, with `?` for each value.
    pub open spec fn clause(self) -> Seq<char> {
        match self.query_type {
            QueryType::Equal => self.field + " = ?"@,
            QueryType::GreaterThan => self.field + " > ?"@,
            QueryType::LessThan => self.field + " < ?"@,
            QueryType::Between => self.field + " BETWEEN ? AND ?"@,
            QueryType::LikeEnd => self.field + " LIKE ?"@,
        }
    }

    /// The values to bind to the `?` of the clause, in order. A prefix
    /// match binds the value followed by `%`.
    pub open spec fn bindings(self) -> Seq<Seq<char>> {
        match self.query_type {
            QueryType::Between => seq![self.values[0], self.values[1]],
            QueryType::LikeEnd => seq![self.values[0] + "%"@],
            _ => seq![self.values[0]],
        }
    }
}

/// The models of a list of conditions.
pub open spec fn conditions(params: Seq<QueryParam>) -> Seq<Condition> {
    Seq::new(params.len(), |i: int| params[i]@)
}

/// The clauses of the conditions that say something, in order.
pub open spec fn clauses_of(list: Seq<Condition>) -> Seq<Seq<char>>
    decreases list.len(),
{
    if list.len() == 0 {
        Seq::<Seq<char>>::empty()
    } else if list.last().says_nothing() {
        clauses_of(list.drop_last())
    } else {
        clauses_of(list.drop_last()).push(list.last().clause())
    }
}

/// The values to bind for the conditions that say something, in order.
pub open spec fn bindings_of(list: Seq<Condition>) -> Seq<Seq<char>>
    decreases list.len(),
{
    if list.len() == 0 {
        Seq::<Seq<char>>::empty()
    } else if list.last().says_nothing() {
        bindings_of(list.drop_last())
    } else {
        bindings_of(list.drop_last()) + list.last().bindings()
    }
}

/// The parts joined, with `sep` between neighbours.
pub open spec fn join_with(parts: Seq<Seq<char>>, sep: Seq<char>) -> Seq<char>
    decreases parts.len(),
{
    if parts.len() == 0 {
        Seq::<char>::empty()
    } else if parts.len() == 1 {
        parts[0]
    } else {
        join_with(parts.drop_last(), sep) + sep + parts.last()
    }
}

/// The `WHERE` part of a statement: empty without clauses, else
/// ` WHERE ` and the clauses joined by ` AND `.
pub open spec fn where_text(list: Seq<Condition>) -> Seq<char> {
    if clauses_of(list).len() == 0 {
        Seq::<char>::empty()
    } else {
        " WHERE "@ + join_with(clauses_of(list), " AND "@)
    }
}

impl QueryParam {
    fn single(field: &str, query_type: QueryType, value: &str) -> (out: Self)
        ensures
            out@ == (Condition { field: field@, query_type, values: seq![value@] }),
    {
        let mut values: Vec<String> = Vec::new();
        values.push(String::from_str(value));
        proof {
            assert(texts(values@) =~= seq![value@]);
        }
        QueryParam { field: String::from_str(field), query_type, values }
    }

    /// The field equals the value.
    pub fn eq(field: &str, value: &str) -> (out: Self)
        ensures
            out@ == (Condition {
                field: field@,
                query_type: QueryType::Equal,
                values: seq![value@],
            }),
    {
        Self::single(field, QueryType::Equal, value)
    }

    /// The field is greater than the value.
    pub fn gt(field: &str, value: &str) -> (out: Self)
        ensures
            out@ == (Condition {
                field: field@,
                query_type: QueryType::GreaterThan,
                values: seq![value@],
            }),
    {
        Self::single(field, QueryType::GreaterThan, value)
    }

    /// The field is less than the value.
    pub fn lt(field: &str, value: &str) -> (out: Self)
        ensures
            out@ == (Condition {
                field: field@,
                query_type: QueryType::LessThan,
                values: seq![value@],
            }),
    {
        Self::single(field, QueryType::LessThan, value)
    }

    /// The field lies between the two values.
    pub fn between(field: &str, from: &str, to: &str) -> (out: Self)
        ensures
            out@ == (Condition {
                field: field@,
                query_type: QueryType::Between,
                values: seq![from@, to@],
            }),
    {
        let mut values: Vec<String> = Vec::new();
        values.push(String::from_str(from));
        values.push(String::from_str(to));
        proof {
            assert(texts(values@) =~= seq![from@, to@]);
        }
        QueryParam { field: String::from_str(field), query_type: QueryType::Between, values }
    }

    /// The field starts with the value.
    pub fn like_end(field: &str, value: &str) -> (out: Self)
        ensures
            out@ == (Condition {
                field: field@,
                query_type: QueryType::LikeEnd,
                values: seq![value@],
            }),
    {
        Self::single(field, QueryType::LikeEnd, value)
    }

    /// Whether the condition says nothing, so that a statement leaves it
    /// out.
    pub fn is_empty(&self) -> (r: bool)
        ensures
            r == self@.says_nothing(),
    {
        if self.field.as_str().unicode_len() == 0 {
            return true;
        }
        if self.values.len() == 0 {
            return true;
        }
        match self.query_type {
            QueryType::Between => self.values.len() != 2,
            _ => false,
        }
    }

    /// A copy of the condition.
    pub fn duplicate(&self) -> (out: Self)
        ensures
            out@ == self@,
    {
        let mut values: Vec<String> = Vec::new();
        let mut i: usize = 0;
        while i < self.values.len()
            invariant
                i <= self.values.len(),
                values@.len() == i,
                forall|k: int| 0 <= k < i ==> (#[trigger] values@[k])@ == self.values@[k]@,
            decreases self.values.len() - i,
        {
            values.push(self.values[i].clone());
            i += 1;
        }
        proof {
            assert(texts(values@) =~= texts(self.values@));
        }
        QueryParam { field: self.field.clone(), query_type: self.query_type, values }
    }
}

/// Joins the parts with a separator.
pub fn join_texts(parts: &Vec<String>, sep: &str) -> (out: String)
    ensures
        out@ == join_with(texts(parts@), sep@),
{
    let mut out = String::new();
    let mut i: usize = 0;
    proof {
        assert(texts(parts@).take(0) =~= Seq::<Seq<char>>::empty());
    }
    while i < parts.len()
        invariant
            i <= parts.len(),
            out@ == join_with(texts(parts@).take(i as int), sep@),
        decreases parts.len() - i,
    {
        proof {
            let next = texts(parts@).take(i as int + 1);
            assert(next.drop_last() =~= texts(parts@).take(i as int));
            assert(next.last() == parts@[i as int]@);
            if i > 0 {
                assert(next.len() > 1);
            } else {
                assert(next[0] == parts@[0]@);
                assert(Seq::<char>::empty() + parts@[0]@ =~= parts@[0]@);
            }
        }
        if i > 0 {
            out.append(sep);
        }
        out.append(parts[i].as_str());
        i += 1;
    }
    proof {
        assert(texts(parts@).take(parts.len() as int) =~= texts(parts@));
    }
    out
}

/// Builds the `WHERE` part for a list of conditions and the values to
/// bind to it. Conditions that say nothing are left out.
pub fn build_where_clause(params: &Vec<QueryParam>) -> (out: (String, Vec<String>))
    ensures
        out.0@ == where_text(conditions(params@)),
        texts(out.1@) == bindings_of(conditions(params@)),
{
    let mut clauses: Vec<String> = Vec::new();
    let mut values: Vec<String> = Vec::new();
    let mut i: usize = 0;
    let ghost list = conditions(params@);
    proof {
        assert(list.take(0) =~= Seq::<Condition>::empty());
        assert(texts(clauses@) =~= Seq::<Seq<char>>::empty());
        assert(texts(values@) =~= Seq::<Seq<char>>::empty());
    }
    while i < params.len()
        invariant
            i <= params.len(),
            list == conditions(params@),
            texts(clauses@) == clauses_of(list.take(i as int)),
            texts(values@) == bindings_of(list.take(i as int)),
        decreases params.len() - i,
    {
        let param = &params[i];
        proof {
            assert(list.take(i as int + 1).drop_last() =~= list.take(i as int));
            assert(list.take(i as int + 1).last() == params@[i as int]@);
        }
        if !param.is_empty() {
            let ghost clauses_before = clauses@;
            let ghost values_before = values@;
            proof {
                assert(texts(param.values@)[0] == param.values@[0]@);
            }
            let field = param.field.as_str();
            match param.query_type {
                QueryType::Equal => {
                    clauses.push(followed_by(field, " = ?"));
                    values.push(param.values[0].clone());
                },
                QueryType::GreaterThan => {
                    clauses.push(followed_by(field, " > ?"));
                    values.push(param.values[0].clone());
                },
                QueryType::LessThan => {
                    clauses.push(followed_by(field, " < ?"));
                    values.push(param.values[0].clone());
                },
                QueryType::Between => {
                    proof {
                        assert(texts(param.values@)[1] == param.values@[1]@);
                    }
                    clauses.push(followed_by(field, " BETWEEN ? AND ?"));
                    values.push(param.values[0].clone());
                    values.push(param.values[1].clone());
                },
                QueryType::LikeEnd => {
                    clauses.push(followed_by(field, " LIKE ?"));
                    values.push(followed_by(param.values[0].as_str(), "%"));
                },
            }
            proof {
                assert(texts(clauses@) =~= texts(clauses_before).push(param@.clause()));
                assert(texts(values@) =~= texts(values_before) + param@.bindings());
            }
        }
        i += 1;
    }
    proof {
        assert(list.take(params.len() as int) =~= list);
    }
    let where_sql = if clauses.len() == 0 {
        String::new()
    } else {
        let joined = join_texts(&clauses, " AND ");
        followed_by(" WHERE ", joined.as_str())
    };
    (where_sql, values)
}

/// The direction of a sorted listing.
#[derive(Clone, Copy, Debug, PartialEq, Eq, Structural)]
pub enum OrderType {
    ASC,
    DESC,
}

impl OrderType {
    /// The SQL word for the direction.
    pub fn as_str(&self) -> (s: &'static str)
        ensures
            s@ == match *self {
                OrderType::ASC => "ASC"@,
                OrderType::DESC => "DESC"@,
            },
    {
        match self {
            OrderType::ASC => "ASC",
            OrderType::DESC => "DESC",
        }
    }
}

impl Default for OrderType {
    fn default() -> (out: Self)
        ensures
            out == OrderType::ASC,
    {
        OrderType::ASC
    }
}

/// Which page of a sorted listing is wanted.
#[derive(Debug)]
pub struct PageInfo {
    pub index: i64,
    pub page_size: i64,
    pub order_column: String,
    pub order_type: OrderType,
}

impl PageInfo {
    /// A copy of the page request.
    pub fn duplicate(&self) -> (out: Self)
        ensures
            out.index == self.index,
            out.page_size == self.page_size,
            out.order_column@ == self.order_column@,
            out.order_type == self.order_type,
    {
        PageInfo {
            index: self.index,
            page_size: self.page_size,
            order_column: self.order_column.clone(),
            order_type: self.order_type,
        }
    }
}

/// One page of a listing, with the number of rows in all.
#[derive(Debug)]
pub struct Page<T> {
    pub total: i64,
    pub data: Vec<T>,
    pub page_info: PageInfo,
}

impl<T> Page<T> {
    /// The page that answers a request: the rows fetched, the number of
    /// rows in all, and the request itself.
    pub fn answer(request: &PageInfo, total: i64, data: Vec<T>) -> (page: Self)
        ensures
            page.total == total,
            page.data == data,
            page.page_info.index == request.index,
            page.page_info.page_size == request.page_size,
            page.page_info.order_column@ == request.order_column@,
            page.page_info.order_type == request.order_type,
    {
        Page { total, data, page_info: request.duplicate() }
    }
}

/// The rows of a table to fetch for a page: how many, and how many to
/// skip.
#[derive(Clone, Copy, Debug, PartialEq, Eq, Structural)]
pub struct PageWindow {
    pub limit: i64,
    pub offset: i64,
}

/// The window of a page: as many rows as the page holds, after the rows
/// of the pages up to and including the one numbered `index`; from the
/// start where the table has fewer rows than a page holds.
pub open spec fn window_of(index: i64, page_size: i64, total: i64) -> PageWindow {
    PageWindow {
        limit: page_size,
        offset: if total < page_size {
            0
        } else {
            ((index + 1) * page_size) as i64
        },
    }
}

/// Computes the window of a page, unless the offset leaves 64 bits.
pub fn page_window(page_info: &PageInfo, total: i64) -> (r: Option<PageWindow>)
    ensures
        r is Some <==> total < page_info.page_size || i64::MIN <= (page_info.index + 1)
            * page_info.page_size <= i64::MAX,
        r is Some ==> r->0 == window_of(page_info.index, page_info.page_size, total),
{
    if total < page_info.page_size {
        return Some(PageWindow { limit: page_info.page_size, offset: 0 });
    }
    let pages: i128 = page_info.index as i128 + 1;
    let size: i128 = page_info.page_size as i128;
    proof {
        assert(-0x8000_0000_0000_0000_0000_0000_0000_0000 <= pages * size
            <= 0x7fff_ffff_ffff_ffff_ffff_ffff_ffff_ffff) by (nonlinear_arith)
            requires
                -0x8000_0000_0000_0000 <= pages <= 0x8000_0000_0000_0000,
                -0x8000_0000_0000_0000 <= size <= 0x7fff_ffff_ffff_ffff,
        ;
    }
    let offset: i128 = pages * size;
    if offset < i64::MIN as i128 || offset > i64::MAX as i128 {
        None
    } else {
        Some(PageWindow { limit: page_info.page_size, offset: offset as i64 })
    }
}

/// Makes a file name safe to use as one path component: every `/` and
/// every `\` becomes `_`.
pub open spec fn sanitized(name: Seq<char>) -> Seq<char> {
    Seq::new(
        name.len(),
        |i: int|
            if name[i] == '/' || name[i] == '\\' {
                '_'
            } else {
                name[i]
            },
    )
}

/// Executable form of [`sanitized`].
pub fn sanitize_filename(filename: &str) -> (out: String)
    ensures
        out@ == sanitized(filename@),
{
    let chars = crate::text::chars_of(filename);
    let mut out = String::new();
    let mut i: usize = 0;
    while i < chars.len()
        invariant
            i <= chars.len(),
            chars@ == filename@,
            out@ == sanitized(filename@).take(i as int),
        decreases chars.len() - i,
    {
        let c = chars[i];
        let safe = if c == '/' || c == '\\' {
            '_'
        } else {
            c
        };
        out.push(safe);
        proof {
            assert(sanitized(filename@).take(i as int + 1) =~= sanitized(filename@).take(
                i as int,
            ).push(safe));
        }
        i += 1;
    }
    proof {
        assert(sanitized(filename@).take(chars.len() as int) =~= sanitized(filename@));
    }
    out
}

} // verus!
