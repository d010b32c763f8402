//! The versioned query language: which fields may filter or sort, operator
//! and value compatibility, and the parameterized SQL fragments a query
//! compiles to. Running the SQL happens outside this crate.
use vstd::prelude::*;
use crate::error::Error;
use crate::text::{cat, cat3, i64_text, int_text, join, join_seq, owned, push_str, str_eq, sv, u64_text};

verus! {

broadcast use vstd::string::group_string_axioms;

/// The only query language version this implementation accepts.
pub const QUERY_LANGUAGE_VERSION: &'static str = "v1";

/// The public fields a query may name.
#[derive(Debug, Clone, Copy, PartialEq, Eq, Structural)]
pub enum QueryField {
    Id,
    Title,
    Priority,
    BaseStatus,
    ManualBlocked,
    Assignee,
    IssueType,
    CreatedAt,
    UpdatedAt,
    ClosedAt,
    CloseReason,
    Description,
    Notes,
}

/// The column a field reads.
pub open spec fn column_of(f: QueryField) -> Seq<char> {
    match f {
        QueryField::Id => "id"@,
        QueryField::Title => "title"@,
        QueryField::Priority => "priority"@,
        QueryField::BaseStatus => "base_status"@,
        QueryField::ManualBlocked => "manual_blocked"@,
        QueryField::Assignee => "assignee"@,
        QueryField::IssueType => "issue_type"@,
        QueryField::CreatedAt => "created_at"@,
        QueryField::UpdatedAt => "updated_at"@,
        QueryField::ClosedAt => "closed_at"@,
        QueryField::CloseReason => "close_reason"@,
        QueryField::Description => "description"@,
        QueryField::Notes => "notes"@,
    }
}

/// The variant name a field prints under (`{:?}`).
pub open spec fn field_name(f: QueryField) -> Seq<char> {
    match f {
        QueryField::Id => "Id"@,
        QueryField::Title => "Title"@,
        QueryField::Priority => "Priority"@,
        QueryField::BaseStatus => "BaseStatus"@,
        QueryField::ManualBlocked => "ManualBlocked"@,
        QueryField::Assignee => "Assignee"@,
        QueryField::IssueType => "IssueType"@,
        QueryField::CreatedAt => "CreatedAt"@,
        QueryField::UpdatedAt => "UpdatedAt"@,
        QueryField::ClosedAt => "ClosedAt"@,
        QueryField::CloseReason => "CloseReason"@,
        QueryField::Description => "Description"@,
        QueryField::Notes => "Notes"@,
    }
}

/// Fields usable in predicates: everything but the free-text close
/// reason, description, and notes.
pub open spec fn predicate_allowed(f: QueryField) -> bool {
    !(f == QueryField::CloseReason || f == QueryField::Description || f == QueryField::Notes)
}

/// Fields usable for sorting.
pub open spec fn sort_allowed(f: QueryField) -> bool {
    f == QueryField::Id || f == QueryField::Title || f == QueryField::Priority
        || f == QueryField::CreatedAt || f == QueryField::UpdatedAt
}

impl QueryField {
    /// The database column the field reads.
    pub fn to_column(&self) -> (r: &'static str)
        ensures
            r@ == column_of(*self),
    {
        match self {
            QueryField::Id => "id",
            QueryField::Title => "title",
            QueryField::Priority => "priority",
            QueryField::BaseStatus => "base_status",
            QueryField::ManualBlocked => "manual_blocked",
            QueryField::Assignee => "assignee",
            QueryField::IssueType => "issue_type",
            QueryField::CreatedAt => "created_at",
            QueryField::UpdatedAt => "updated_at",
            QueryField::ClosedAt => "closed_at",
            QueryField::CloseReason => "close_reason",
            QueryField::Description => "description",
            QueryField::Notes => "notes",
        }
    }

    /// The variant name the field prints under.
    pub fn name(&self) -> (r: &'static str)
        ensures
            r@ == field_name(*self),
    {
        match self {
            QueryField::Id => "Id",
            QueryField::Title => "Title",
            QueryField::Priority => "Priority",
            QueryField::BaseStatus => "BaseStatus",
            QueryField::ManualBlocked => "ManualBlocked",
            QueryField::Assignee => "Assignee",
            QueryField::IssueType => "IssueType",
            QueryField::CreatedAt => "CreatedAt",
            QueryField::UpdatedAt => "UpdatedAt",
            QueryField::ClosedAt => "ClosedAt",
            QueryField::CloseReason => "CloseReason",
            QueryField::Description => "Description",
            QueryField::Notes => "Notes",
        }
    }

    /// Whether the field can be used in predicates.
    pub fn is_predicate_valid(&self) -> (r: bool)
        ensures
            r == predicate_allowed(*self),
    {
        match self {
            QueryField::CloseReason | QueryField::Description | QueryField::Notes => false,
            _ => true,
        }
    }

    /// Whether the field can be used for sorting.
    pub fn is_sortable(&self) -> (r: bool)
        ensures
            r == sort_allowed(*self),
    {
        match self {
            QueryField::Id | QueryField::Title | QueryField::Priority | QueryField::CreatedAt
            | QueryField::UpdatedAt => true,
            _ => false,
        }
    }
}

/// Query operators.
#[derive(Debug, Clone, Copy, PartialEq, Eq, Structural)]
pub enum QueryOperator {
    Equals,
    NotEquals,
    GreaterThan,
    LessThan,
    GreaterThanOrEqual,
    LessThanOrEqual,
    Contains,
    StartsWith,
    EndsWith,
    IsNull,
    IsNotNull,
}

/// Sort direction.
#[derive(Debug, Clone, Copy, PartialEq, Eq, Structural)]
pub enum SortDirection {
    Asc,
    Desc,
}

/// A predicate value.
#[derive(Debug, Clone)]
pub enum QueryValue {
    String(String),
    Integer(i64),
    Boolean(bool),
}

/// One filter condition.
#[derive(Debug, Clone)]
pub struct QueryPredicate {
    pub field: QueryField,
    pub operator: QueryOperator,
    pub value: Option<QueryValue>,
}

/// One sort key.
#[derive(Debug, Clone)]
pub struct QuerySort {
    pub field: QueryField,
    pub direction: SortDirection,
}

/// Which fields a result carries.
#[derive(Debug, Clone)]
pub struct QueryProjection {
    pub fields: Vec<QueryField>,
}

/// A parsed query.
#[derive(Debug, Clone)]
pub struct Query {
    pub version: String,
    pub predicates: Vec<QueryPredicate>,
    pub sort: Vec<QuerySort>,
    pub projection: Option<QueryProjection>,
    pub limit: Option<usize>,
}

/// A query saved under a name.
#[derive(Debug, Clone)]
pub struct SavedView {
    pub id: String,
    pub name: String,
    pub description: String,
    pub query_json: String,
    pub created_at: String,
    pub updated_at: String,
}

/// `IS NULL` and `IS NOT NULL` take no value; every other operator needs one.
pub open spec fn is_null_operator(op: QueryOperator) -> bool {
    op == QueryOperator::IsNull || op == QueryOperator::IsNotNull
}

/// The pattern operators, compiled to `LIKE`.
pub open spec fn is_pattern_operator(op: QueryOperator) -> bool {
    op == QueryOperator::Contains || op == QueryOperator::StartsWith || op == QueryOperator::EndsWith
}

/// Whether an operator and a value fit together.
pub open spec fn operator_value_ok(op: QueryOperator, value: Option<QueryValue>) -> bool {
    is_null_operator(op) == (value is None)
}

/// Operator/value compatibility: NULL tests take no value, every other
/// operator requires one.
pub fn validate_operator_value(operator: &QueryOperator, value: &Option<QueryValue>) -> (r: Result<(), Error>)
    ensures
        r is Ok <==> operator_value_ok(*operator, *value),
        r matches Err(Error::Validation(m)) ==> m@ == (if is_null_operator(*operator) {
            "NULL operators must not have a value"@
        } else {
            "Operator requires a value"@
        }),
        r is Err ==> r->Err_0 is Validation,
{
    match operator {
        QueryOperator::IsNull | QueryOperator::IsNotNull => {
            if value.is_some() {
                return Err(Error::Validation(owned("NULL operators must not have a value")));
            }
        },
        _ => {
            if value.is_none() {
                return Err(Error::Validation(owned("Operator requires a value")));
            }
        },
    }
    Ok(())
}

/// The SQL operator an operator compiles to.
pub open spec fn operator_sql(op: QueryOperator) -> Seq<char> {
    match op {
        QueryOperator::Equals => "="@,
        QueryOperator::NotEquals => "!="@,
        QueryOperator::GreaterThan => ">"@,
        QueryOperator::LessThan => "<"@,
        QueryOperator::GreaterThanOrEqual => ">="@,
        QueryOperator::LessThanOrEqual => "<="@,
        QueryOperator::Contains => "LIKE"@,
        QueryOperator::StartsWith => "LIKE"@,
        QueryOperator::EndsWith => "LIKE"@,
        QueryOperator::IsNull => "IS NULL"@,
        QueryOperator::IsNotNull => "IS NOT NULL"@,
    }
}

fn sql_operator(op: &QueryOperator) -> (r: &'static str)
    ensures
        r@ == operator_sql(*op),
{
    match op {
        QueryOperator::Equals => "=",
        QueryOperator::NotEquals => "!=",
        QueryOperator::GreaterThan => ">",
        QueryOperator::LessThan => "<",
        QueryOperator::GreaterThanOrEqual => ">=",
        QueryOperator::LessThanOrEqual => "<=",
        QueryOperator::Contains => "LIKE",
        QueryOperator::StartsWith => "LIKE",
        QueryOperator::EndsWith => "LIKE",
        QueryOperator::IsNull => "IS NULL",
        QueryOperator::IsNotNull => "IS NOT NULL",
    }
}

/// The bound parameter text of a value: strings as-is, integers in
/// decimal, booleans as `1`/`0`.
pub open spec fn value_param(v: QueryValue) -> Seq<char> {
    match v {
        QueryValue::String(s) => s@,
        QueryValue::Integer(i) => int_text(i as int),
        QueryValue::Boolean(b) => if b { "1"@ } else { "0"@ },
    }
}

/// The `LIKE` pattern of a pattern operator.
pub open spec fn like_pattern(op: QueryOperator, s: Seq<char>) -> Seq<char> {
    if op == QueryOperator::Contains {
        "%"@ + s + "%"@
    } else if op == QueryOperator::StartsWith {
        s + "%"@
    } else {
        "%"@ + s
    }
}

/// Pattern operators anchor where they say: a starts-with pattern is the
/// text itself followed by one wildcard, an ends-with pattern one wildcard
/// followed by the text, and a contains pattern the text between two
/// wildcards; no two of them are the same pattern.
pub proof fn law_like_patterns_anchor(s: Seq<char>)
    ensures
        like_pattern(QueryOperator::StartsWith, s).len() == s.len() + 1,
        s.is_prefix_of(like_pattern(QueryOperator::StartsWith, s)),
        like_pattern(QueryOperator::StartsWith, s).last() == '%',
        like_pattern(QueryOperator::EndsWith, s).len() == s.len() + 1,
        like_pattern(QueryOperator::EndsWith, s)[0] == '%',
        like_pattern(QueryOperator::EndsWith, s).subrange(1, s.len() as int + 1) == s,
        like_pattern(QueryOperator::Contains, s).len() == s.len() + 2,
        like_pattern(QueryOperator::Contains, s)[0] == '%',
        like_pattern(QueryOperator::Contains, s).last() == '%',
        like_pattern(QueryOperator::Contains, s).subrange(1, s.len() as int + 1) == s,
{
    reveal_strlit("%");
    assert(like_pattern(QueryOperator::StartsWith, s).subrange(0, s.len() as int) =~= s);
    assert(like_pattern(QueryOperator::EndsWith, s).subrange(1, s.len() as int + 1) =~= s);
    assert(like_pattern(QueryOperator::Contains, s).subrange(1, s.len() as int + 1) =~= s);
}

/// A starts-with predicate on text compiles to one `LIKE` parameter: the
/// text followed by a single wildcard, with nothing before it.
pub proof fn law_starts_with_condition(p: QueryPredicate, column: Seq<char>, s: Seq<char>)
    requires
        p.operator == QueryOperator::StartsWith,
        p.value matches Some(QueryValue::String(t)) && t@ == s,
    ensures
        condition_of(p, column).1.len() == 1,
        condition_of(p, column).1[0].len() == s.len() + 1,
        s.is_prefix_of(condition_of(p, column).1[0]),
        condition_of(p, column).1[0].last() == '%',
{
    law_like_patterns_anchor(s);
}

/// The condition text and parameters one predicate compiles to.
pub open spec fn condition_of(p: QueryPredicate, column: Seq<char>) -> (Seq<char>, Seq<Seq<char>>) {
    if is_pattern_operator(p.operator) {
        match p.value {
            Some(QueryValue::String(s)) => (
                column + " "@ + operator_sql(p.operator) + " ?"@,
                seq![like_pattern(p.operator, s@)],
            ),
            _ => (column + " = 0"@, Seq::empty()),
        }
    } else if is_null_operator(p.operator) {
        (column + " "@ + operator_sql(p.operator), Seq::empty())
    } else {
        match p.value {
            Some(v) => (column + " "@ + operator_sql(p.operator) + " ?"@, seq![value_param(v)]),
            None => (column + " "@ + operator_sql(p.operator) + " ?"@, Seq::empty()),
        }
    }
}

fn param_text(v: &QueryValue) -> (r: String)
    ensures
        r@ == value_param(*v),
{
    match v {
        QueryValue::String(s) => s.clone(),
        QueryValue::Integer(i) => i64_text(*i),
        QueryValue::Boolean(b) => if *b {
            owned("1")
        } else {
            owned("0")
        },
    }
}

/// Compile one predicate against its column.
pub fn build_condition(predicate: &QueryPredicate, column: &str) -> (r: (String, Vec<String>))
    ensures
        (r.0@, sv(r.1@)) == condition_of(*predicate, column@),
{
    let op_sql = sql_operator(&predicate.operator);
    let mut params: Vec<String> = Vec::new();
    match predicate.operator {
        QueryOperator::Contains | QueryOperator::StartsWith | QueryOperator::EndsWith => {
            match &predicate.value {
                Some(QueryValue::String(s)) => {
                    let pattern = match predicate.operator {
                        QueryOperator::Contains => cat3("%", s.as_str(), "%"),
                        QueryOperator::StartsWith => cat(s.as_str(), "%"),
                        _ => cat("%", s.as_str()),
                    };
                    params.push(pattern);
                    assert(sv(params@) =~= seq![pattern@]);
                    let mut c = cat3(column, " ", op_sql);
                    push_str(&mut c, " ?");
                    (c, params)
                },
                _ => {
                    assert(sv(params@) =~= Seq::<Seq<char>>::empty());
                    (cat(column, " = 0"), params)
                },
            }
        },
        QueryOperator::IsNull | QueryOperator::IsNotNull => {
            assert(sv(params@) =~= Seq::<Seq<char>>::empty());
            (cat3(column, " ", op_sql), params)
        },
        _ => {
            match &predicate.value {
                Some(v) => {
                    let t = param_text(v);
                    params.push(t);
                    assert(sv(params@) =~= seq![t@]);
                },
                None => {
                    assert(sv(params@) =~= Seq::<Seq<char>>::empty());
                },
            }
            let mut c = cat3(column, " ", op_sql);
            push_str(&mut c, " ?");
            (c, params)
        },
    }
}

/// The conditions of a predicate list, in order.
pub open spec fn conditions_of(ps: Seq<QueryPredicate>) -> Seq<Seq<char>> {
    ps.map_values(|p: QueryPredicate| condition_of(p, column_of(p.field)).0)
}

/// The parameters of a predicate list, in order.
pub open spec fn params_of(ps: Seq<QueryPredicate>) -> Seq<Seq<char>>
    decreases ps.len(),
{
    if ps.len() == 0 {
        Seq::empty()
    } else {
        params_of(ps.drop_last()) + condition_of(ps.last(), column_of(ps.last().field)).1
    }
}

/// What a predicate list compiles to: `1=1` for none, otherwise the
/// conditions joined with ` AND `, with their parameters in order.
pub open spec fn where_of(ps: Seq<QueryPredicate>) -> (Seq<char>, Seq<Seq<char>>) {
    if ps.len() == 0 {
        ("1=1"@, Seq::empty())
    } else {
        (join_seq(conditions_of(ps), " AND "@), params_of(ps))
    }
}

/// Compile a predicate list to a WHERE clause and its bound parameters.
pub fn build_where_clause(predicates: &Vec<QueryPredicate>) -> (r: (String, Vec<String>))
    ensures
        (r.0@, sv(r.1@)) == where_of(predicates@),
{
    if predicates.len() == 0 {
        let none: Vec<String> = Vec::new();
        assert(sv(none@) =~= Seq::<Seq<char>>::empty());
        return (owned("1=1"), none);
    }
    let mut conditions: Vec<String> = Vec::new();
    let mut params: Vec<String> = Vec::new();
    let mut i: usize = 0;
    while i < predicates.len()
        invariant
            i <= predicates@.len(),
            sv(conditions@) == conditions_of(predicates@.take(i as int)),
            sv(params@) == params_of(predicates@.take(i as int)),
        decreases predicates@.len() - i,
    {
        let p = &predicates[i];
        let column = p.field.to_column();
        let (condition, param) = build_condition(p, column);
        let ghost before_c = sv(conditions@);
        let ghost before_p = sv(params@);
        conditions.push(condition);
        let mut k: usize = 0;
        while k < param.len()
            invariant
                k <= param@.len(),
                sv(params@) == before_p + sv(param@).take(k as int),
            decreases param@.len() - k,
        {
            let ghost b = sv(params@);
            params.push(param[k].clone());
            assert(sv(params@) =~= b.push(param@[k as int]@));
            assert(sv(param@).take(k + 1) =~= sv(param@).take(k as int).push(param@[k as int]@));
            k = k + 1;
        }
        assert(sv(param@).take(param@.len() as int) =~= sv(param@));
        assert(predicates@.take(i + 1).drop_last() =~= predicates@.take(i as int));
        assert(condition@ == condition_of(predicates@[i as int], column_of(predicates@[i as int].field)).0);
        assert(sv(conditions@) =~= before_c.push(condition@));
        assert(conditions_of(predicates@.take(i + 1)) =~= conditions_of(predicates@.take(i as int)).push(condition@));
        assert(params_of(predicates@.take(i + 1)) == params_of(predicates@.take(i as int)) + sv(param@));
        i = i + 1;
    }
    assert(predicates@.take(predicates@.len() as int) =~= predicates@);
    let clause = join(&conditions, " AND ");
    (clause, params)
}

/// The ORDER BY text of one sort key.
pub open spec fn order_item(s: QuerySort) -> Seq<char> {
    column_of(s.field) + " "@ + (if s.direction == SortDirection::Asc { "ASC"@ } else { "DESC"@ })
}

/// The ORDER BY clause: the FIFO default for no keys, otherwise each key's
/// column and direction joined with `, `.
pub open spec fn order_of(sort: Seq<QuerySort>) -> Seq<char> {
    if sort.len() == 0 {
        "priority ASC, created_at ASC, id ASC"@
    } else {
        join_seq(sort.map_values(|s: QuerySort| order_item(s)), ", "@)
    }
}

/// Compile sort keys to an ORDER BY clause.
pub fn build_order_clause(sort: &Vec<QuerySort>) -> (r: String)
    ensures
        r@ == order_of(sort@),
{
    if sort.len() == 0 {
        return owned("priority ASC, created_at ASC, id ASC");
    }
    let mut orders: Vec<String> = Vec::new();
    let mut i: usize = 0;
    while i < sort.len()
        invariant
            i <= sort@.len(),
            sv(orders@) == sort@.take(i as int).map_values(|s: QuerySort| order_item(s)),
        decreases sort@.len() - i,
    {
        let dir = match sort[i].direction {
            SortDirection::Asc => "ASC",
            SortDirection::Desc => "DESC",
        };
        let item = cat3(sort[i].field.to_column(), " ", dir);
        let ghost before = sv(orders@);
        orders.push(item);
        assert(item@ == order_item(sort@[i as int]));
        assert(sv(orders@) =~= before.push(item@));
        assert(sort@.take(i + 1).map_values(|s: QuerySort| order_item(s)) =~= sort@.take(i as int).map_values(|s: QuerySort| order_item(s)).push(item@));
        i = i + 1;
    }
    assert(sort@.take(sort@.len() as int) =~= sort@);
    join(&orders, ", ")
}


/// What is wrong with one predicate, if anything.
pub open spec fn predicate_problem(p: QueryPredicate) -> Option<Seq<char>> {
    if !predicate_allowed(p.field) {
        Some("Field '"@ + field_name(p.field) + "' cannot be used in predicates"@)
    } else if !operator_value_ok(p.operator, p.value) {
        Some(if is_null_operator(p.operator) {
            "NULL operators must not have a value"@
        } else {
            "Operator requires a value"@
        })
    } else {
        None
    }
}

/// The problem of the first faulty predicate.
pub open spec fn first_predicate_problem(ps: Seq<QueryPredicate>) -> Option<Seq<char>>
    decreases ps.len(),
{
    if ps.len() == 0 {
        None
    } else if predicate_problem(ps[0]) is Some {
        predicate_problem(ps[0])
    } else {
        first_predicate_problem(ps.drop_first())
    }
}

/// The problem of the first sort key on a field that cannot sort.
pub open spec fn first_sort_problem(ss: Seq<QuerySort>) -> Option<Seq<char>>
    decreases ss.len(),
{
    if ss.len() == 0 {
        None
    } else if !sort_allowed(ss[0].field) {
        Some("Field '"@ + field_name(ss[0].field) + "' cannot be used for sorting"@)
    } else {
        first_sort_problem(ss.drop_first())
    }
}

/// Why a query is refused, checking the version, then each predicate in
/// order, then each sort key in order; `None` when it is accepted.
pub open spec fn query_problem(q: Query) -> Option<Seq<char>> {
    if q.version@ != "v1"@ {
        Some("Unsupported query version '"@ + q.version@ + "'. Only 'v1' is supported."@)
    } else if first_predicate_problem(q.predicates@) is Some {
        first_predicate_problem(q.predicates@)
    } else {
        first_sort_problem(q.sort@)
    }
}

/// Validate a parsed query: supported version, predicate-capable fields,
/// operator/value compatibility, sortable sort fields.
pub fn validate_query(query: Query) -> (r: Result<Query, Error>)
    ensures
        r matches Ok(q) ==> query_problem(query) is None && q == query,
        r matches Err(e) ==> e is Validation && query_problem(query) == Some(e.text()),
        query_problem(query) is None ==> r is Ok,
{
    if !str_eq(query.version.as_str(), QUERY_LANGUAGE_VERSION) {
        proof {
            reveal_strlit("v1");
        }
        let mut m = cat3("Unsupported query version '", query.version.as_str(), "'. Only '");
        push_str(&mut m, QUERY_LANGUAGE_VERSION);
        push_str(&mut m, "' is supported.");
        proof {
            reveal_strlit("'. Only '");
            reveal_strlit("' is supported.");
            reveal_strlit("'. Only 'v1' is supported.");
            assert(m@ =~= "Unsupported query version '"@ + query.version@ + "'. Only 'v1' is supported."@);
        }
        return Err(Error::Validation(m));
    }
    proof {
        reveal_strlit("v1");
    }
    let mut i: usize = 0;
    assert(query.predicates@.skip(0) =~= query.predicates@);
    while i < query.predicates.len()
        invariant
            i <= query.predicates@.len(),
            query.version@ == "v1"@,
            first_predicate_problem(query.predicates@) == first_predicate_problem(query.predicates@.skip(i as int)),
        decreases query.predicates@.len() - i,
    {
        let p = &query.predicates[i];
        let ghost rest = query.predicates@.skip(i as int);
        assert(rest[0] == *p);
        assert(rest.drop_first() =~= query.predicates@.skip(i + 1));
        if !p.field.is_predicate_valid() {
            let m = cat3("Field '", p.field.name(), "' cannot be used in predicates");
            assert(first_predicate_problem(rest) == predicate_problem(*p));
            return Err(Error::Validation(m));
        }
        match validate_operator_value(&p.operator, &p.value) {
            Err(e) => {
                assert(first_predicate_problem(rest) == predicate_problem(*p));
                return Err(e);
            },
            Ok(()) => {},
        }
        i = i + 1;
    }
    assert(query.predicates@.skip(i as int) =~= Seq::<QueryPredicate>::empty());
    let mut j: usize = 0;
    assert(query.sort@.skip(0) =~= query.sort@);
    while j < query.sort.len()
        invariant
            j <= query.sort@.len(),
            query.version@ == "v1"@,
            first_predicate_problem(query.predicates@) is None,
            first_sort_problem(query.sort@) == first_sort_problem(query.sort@.skip(j as int)),
        decreases query.sort@.len() - j,
    {
        let srt = &query.sort[j];
        let ghost rest = query.sort@.skip(j as int);
        assert(rest[0] == *srt);
        assert(rest.drop_first() =~= query.sort@.skip(j + 1));
        if !srt.field.is_sortable() {
            let m = cat3("Field '", srt.field.name(), "' cannot be used for sorting");
            return Err(Error::Validation(m));
        }
        j = j + 1;
    }
    assert(query.sort@.skip(j as int) =~= Seq::<QuerySort>::empty());
    Ok(query)
}

/// The SELECT text before the WHERE condition.
pub open spec fn select_head() -> Seq<char> {
    "SELECT id, title, priority, base_status, created_at, updated_at,\n                description, notes, assignee, issue_type, manual_blocked,\n                closed_at, close_reason, source_repo, profile, schema_ref,\n                NULLIF(claim_epoch, 0)\n         FROM issues\n         WHERE "@
}

/// The LIMIT clause: empty without a limit.
pub open spec fn limit_clause(limit: Option<usize>) -> Seq<char> {
    match limit {
        Some(l) => "LIMIT "@ + int_text(l as int),
        None => Seq::empty(),
    }
}

/// The full SELECT a query runs, and its bound parameters.
pub open spec fn select_of(q: Query) -> (Seq<char>, Seq<Seq<char>>) {
    (
        select_head() + where_of(q.predicates@).0 + "\n         ORDER BY "@ + order_of(q.sort@)
            + "\n         "@ + limit_clause(q.limit),
        where_of(q.predicates@).1,
    )
}

/// Compile a query to the SELECT statement that runs it.
pub fn build_select(query: &Query) -> (r: (String, Vec<String>))
    ensures
        (r.0@, sv(r.1@)) == select_of(*query),
{
    let (where_clause, params) = build_where_clause(&query.predicates);
    let order_clause = build_order_clause(&query.sort);
    let mut sql = owned("SELECT id, title, priority, base_status, created_at, updated_at,\n                description, notes, assignee, issue_type, manual_blocked,\n                closed_at, close_reason, source_repo, profile, schema_ref,\n                NULLIF(claim_epoch, 0)\n         FROM issues\n         WHERE ");
    push_str(&mut sql, where_clause.as_str());
    push_str(&mut sql, "\n         ORDER BY ");
    push_str(&mut sql, order_clause.as_str());
    push_str(&mut sql, "\n         ");
    match query.limit {
        Some(l) => {
            push_str(&mut sql, "LIMIT ");
            let t = u64_text(l as u64);
            push_str(&mut sql, t.as_str());
        },
        None => {},
    }
    proof {
        match query.limit {
            Some(l) => {},
            None => {
                assert(sql@ =~= select_of(*query).0);
            },
        }
    }
    (sql, params)
}

/// The refusal of a view deletion that removed no row.
pub fn delete_view_outcome(name: &str, rows_affected: usize) -> (r: Result<(), Error>)
    ensures
        rows_affected > 0 <==> r is Ok,
        r matches Err(e) ==> e is Validation && e.text() == "View '"@ + name@ + "' not found"@,
{
    if rows_affected == 0 {
        return Err(Error::Validation(cat3("View '", name, "' not found")));
    }
    Ok(())
}

/// The id a view saved at `now` receives: `view-` and the timestamp
/// without its `:` and `-` separators.
pub fn view_id_for(now: &str) -> (r: String)
    ensures
        r@ == "view-"@ + now@.filter(|c: char| c != ':' && c != '-'),
{
    let cs = crate::text::chars_of(now);
    let ghost keep = |c: char| c != ':' && c != '-';
    let mut kept: Vec<char> = Vec::new();
    let mut i: usize = 0;
    while i < cs.len()
        invariant
            i <= cs@.len(),
            cs@ == now@,
            keep == (|c: char| c != ':' && c != '-'),
            kept@ == cs@.take(i as int).filter(keep),
        decreases cs@.len() - i,
    {
        assert(cs@.take(i + 1).drop_last() =~= cs@.take(i as int));
        proof {
            reveal_with_fuel(Seq::filter, 1);
        }
        if cs[i] != ':' && cs[i] != '-' {
            kept.push(cs[i]);
        }
        i = i + 1;
    }
    assert(cs@.take(cs@.len() as int) =~= cs@);
    let tail = crate::text::string_of(kept.as_slice());
    cat("view-", tail.as_str())
}

} // verus!
