//! What is asked of the index.

use crate::index::document;
use crate::index::document::EntryModel;
use crate::index::layout;
use crate::index::layout::IndexFields;
use crate::text;
use crate::types;
use crate::types::{RecordModel, SourceFilter, SourceLabels};
use vstd::prelude::*;

verus! {

broadcast use vstd::string::group_string_axioms;

/// `tantivy::query::TermQuery`, carried through without being looked into.
#[verifier::external_type_specification]
#[verifier::external_body]
pub struct ExTermQuery(tantivy::query::TermQuery);

/// `tantivy::query::BooleanQuery`, carried through without being looked into.
#[verifier::external_type_specification]
#[verifier::external_body]
pub struct ExBooleanQuery(tantivy::query::BooleanQuery);

/// `tantivy::query::RangeQuery`, carried through without being looked into.
#[verifier::external_type_specification]
#[verifier::external_body]
pub struct ExRangeQuery(tantivy::query::RangeQuery);

/// `tantivy::query::AllQuery`, which has a single value: [`everything`].
#[verifier::external_type_specification]
#[verifier::external_body]
pub struct ExAllQuery(tantivy::query::AllQuery);

/// `tantivy::query::QueryParserError`, carried through without being looked into.
#[verifier::external_type_specification]
#[verifier::external_body]
pub struct ExQueryParserError(tantivy::query::QueryParserError);

/// A query of any kind, as tantivy's query parser hands it out and as its boolean query takes it.
#[verifier::external_body]
#[derive(Debug)]
pub struct BoxedQuery {
    inner: Box<dyn tantivy::query::Query>,
}

/// What to search for.
#[derive(Debug)]
pub struct QueryOptions {
    /// The words to find, in the query language of the index. Blank for everything.
    pub query: String,
    pub project: Option<String>,
    pub role: Option<String>,
    pub tool: Option<String>,
    pub session_id: Option<String>,
    pub source: Option<SourceFilter>,
    /// The earliest time, in milliseconds since the Unix epoch.
    pub since: Option<u64>,
    /// The latest time, in milliseconds since the Unix epoch.
    pub until: Option<u64>,
    pub limit: usize,
}

impl Clone for QueryOptions {
    fn clone(&self) -> (r: Self)
        ensures
            r == *self,
    {
        QueryOptions {
            query: self.query.clone(),
            project: text::copy_opt(&self.project),
            role: text::copy_opt(&self.role),
            tool: text::copy_opt(&self.tool),
            session_id: text::copy_opt(&self.session_id),
            source: self.source,
            since: self.since,
            until: self.until,
            limit: self.limit,
        }
    }
}

/// A condition on documents, apart from the words that they have.
#[derive(Debug)]
pub enum QueryClause {
    /// Exactly `value` in a field that is searched as a whole.
    Exactly { field: u32, value: String },
    /// One of `values` in a field that is searched as a whole.
    AnyOf { field: u32, values: Vec<String> },
    /// A time from `start` to `end`, both included.
    Between { start: u64, end: u64 },
}

/// The model of [`QueryClause`].
#[verifier::ext_equal]
pub enum ClauseModel {
    Exactly { field: u32, value: Seq<char> },
    AnyOf { field: u32, values: Seq<Seq<char>> },
    Between { start: u64, end: u64 },
}

impl View for QueryClause {
    type V = ClauseModel;

    open spec fn view(&self) -> ClauseModel {
        match self {
            QueryClause::Exactly { field, value } => ClauseModel::Exactly {
                field: *field,
                value: value@,
            },
            QueryClause::AnyOf { field, values } => ClauseModel::AnyOf {
                field: *field,
                values: text::texts(values@),
            },
            QueryClause::Between { start, end } => ClauseModel::Between {
                start: *start,
                end: *end,
            },
        }
    }
}

/// The models of a list of conditions.
pub open spec fn clauses_model(clauses: Seq<QueryClause>) -> Seq<ClauseModel> {
    clauses.map_values(|clause: QueryClause| clause@)
}

/// The condition that a field that is searched as a whole has a value, where one is asked for.
pub open spec fn exact_clause(field: u32, value: Option<Seq<char>>) -> Seq<ClauseModel> {
    match value {
        Some(value) => seq![ClauseModel::Exactly { field, value }],
        None => seq![],
    }
}

/// The condition on the source, where one is asked for and the index keeps the source.
pub open spec fn source_clause(
    labels: SourceLabels,
    fields: IndexFields,
    source: Option<SourceFilter>,
) -> Seq<ClauseModel> {
    match (source, fields.source) {
        (Some(filter), Some(field)) => seq![
            ClauseModel::AnyOf { field, values: labels.chosen(filter) },
        ],
        _ => seq![],
    }
}

/// The condition on the time, where one is asked for. A bound that is not given does not bind.
pub open spec fn time_clause(since: Option<u64>, until: Option<u64>) -> Seq<ClauseModel> {
    if since is None && until is None {
        seq![]
    } else {
        seq![
            ClauseModel::Between {
                start: match since {
                    Some(start) => start,
                    None => 0,
                },
                end: match until {
                    Some(end) => end,
                    None => u64::MAX,
                },
            },
        ]
    }
}

/// The conditions that a search puts beside the words, all of which a document has to meet.
pub open spec fn search_clauses(
    labels: SourceLabels,
    fields: IndexFields,
    options: QueryOptions,
) -> Seq<ClauseModel> {
    exact_clause(fields.project, text::opt_text(options.project)) + exact_clause(
        fields.role,
        text::opt_text(options.role),
    ) + exact_clause(fields.tool_name, text::opt_text(options.tool)) + source_clause(
        labels,
        fields,
        options.source,
    ) + exact_clause(fields.session_id, text::opt_text(options.session_id)) + time_clause(
        options.since,
        options.until,
    )
}

/// Appends a condition.
fn push_clause(clauses: &mut Vec<QueryClause>, clause: QueryClause)
    ensures
        clauses_model(final(clauses)@) == clauses_model(old(clauses)@).push(clause@),
{
    clauses.push(clause);
    assert(clauses_model(clauses@) =~= clauses_model(old(clauses)@).push(clause@));
}

/// Appends the condition that a field has a value, where one is asked for.
fn push_exact(clauses: &mut Vec<QueryClause>, field: u32, value: Option<&str>)
    ensures
        clauses_model(final(clauses)@) == clauses_model(old(clauses)@) + exact_clause(
            field,
            text::opt_str(value),
        ),
{
    if let Some(value) = value {
        push_clause(clauses, QueryClause::Exactly { field, value: text::owned(value) });
    }
    assert(clauses_model(clauses@) =~= clauses_model(old(clauses)@) + exact_clause(
        field,
        text::opt_str(value),
    ));
}

/// Appends the condition on the source, where one is asked for and the index keeps the source.
fn push_source(
    clauses: &mut Vec<QueryClause>,
    labels: &SourceLabels,
    fields: &IndexFields,
    source: Option<SourceFilter>,
)
    ensures
        clauses_model(final(clauses)@) == clauses_model(old(clauses)@) + source_clause(
            *labels,
            *fields,
            source,
        ),
{
    if let Some(filter) = source {
        if let Some(field) = fields.source {
            let values = labels.storage_labels(filter);
            push_clause(clauses, QueryClause::AnyOf { field, values });
        }
    }
    assert(clauses_model(clauses@) =~= clauses_model(old(clauses)@) + source_clause(
        *labels,
        *fields,
        source,
    ));
}

/// An optional string as an optional string slice.
fn as_slice(value: &Option<String>) -> (r: Option<&str>)
    ensures
        text::opt_str(r) == text::opt_text(*value),
{
    match value {
        Some(value) => Some(value.as_str()),
        None => None,
    }
}

/// The conditions that a search puts beside the words, all of which a document has to meet.
pub fn search_conditions(
    labels: &SourceLabels,
    fields: &IndexFields,
    options: &QueryOptions,
) -> (r: Vec<QueryClause>)
    ensures
        clauses_model(r@) == search_clauses(*labels, *fields, *options),
{
    let mut clauses: Vec<QueryClause> = Vec::new();
    assert(clauses_model(clauses@) =~= seq![]);
    push_exact(&mut clauses, fields.project, as_slice(&options.project));
    push_exact(&mut clauses, fields.role, as_slice(&options.role));
    push_exact(&mut clauses, fields.tool_name, as_slice(&options.tool));
    push_source(&mut clauses, labels, fields, options.source);
    push_exact(&mut clauses, fields.session_id, as_slice(&options.session_id));
    let ghost before = clauses_model(clauses@);
    if options.since.is_some() || options.until.is_some() {
        let start: u64 = match options.since {
            Some(start) => start,
            None => 0,
        };
        let end: u64 = match options.until {
            Some(end) => end,
            None => u64::MAX,
        };
        push_clause(&mut clauses, QueryClause::Between { start, end });
    }
    assert(clauses_model(clauses@) =~= before + time_clause(options.since, options.until));
    assert(clauses_model(clauses@) =~= search_clauses(*labels, *fields, *options));
    clauses
}

/// The conditions that a look at the most recent records puts.
pub open spec fn recent_clauses(
    labels: SourceLabels,
    fields: IndexFields,
    source: Option<SourceFilter>,
    project: Option<Seq<char>>,
) -> Seq<ClauseModel> {
    source_clause(labels, fields, source) + exact_clause(fields.project, project)
}

/// The conditions that a look at the most recent records puts.
pub fn recent_conditions(
    labels: &SourceLabels,
    fields: &IndexFields,
    source: Option<SourceFilter>,
    project: Option<&str>,
) -> (r: Vec<QueryClause>)
    ensures
        clauses_model(r@) == recent_clauses(*labels, *fields, source, text::opt_str(project)),
{
    let mut clauses: Vec<QueryClause> = Vec::new();
    assert(clauses_model(clauses@) =~= seq![]);
    push_source(&mut clauses, labels, fields, source);
    push_exact(&mut clauses, fields.project, project);
    assert(clauses_model(clauses@) =~= recent_clauses(
        *labels,
        *fields,
        source,
        text::opt_str(project),
    ));
    clauses
}

/// How many records a look at the most recent ones asks for: at least one.
pub fn recent_limit(limit: usize) -> (r: usize)
    ensures
        r == if limit < 1 {
            1
        } else {
            limit
        },
        r >= 1 && r >= limit,
        limit >= 1 ==> r == limit,
        limit == 0 ==> r == 1,
{
    if limit < 1 {
        1
    } else {
        limit
    }
}

/// The `TermQuery` for a text in a field.
pub uninterp spec fn text_query_of(field: u32, value: Seq<char>) -> tantivy::query::TermQuery;

/// The `TermQuery` for a number in a field.
pub uninterp spec fn number_query_of(field: u32, value: u64) -> tantivy::query::TermQuery;

/// The `BooleanQuery` that is met where any of `queries` is.
pub uninterp spec fn union_query_of(queries: Seq<tantivy::query::TermQuery>) ->
    tantivy::query::BooleanQuery;

/// The one value of `AllQuery`.
pub open spec fn everything() -> tantivy::query::AllQuery {
    arbitrary()
}

/// What tantivy's query parser makes of `query` in an index with this schema and the tokenizers
/// that tantivy registers by default, where words without a field are searched for in `field`.
pub uninterp spec fn parsed_query_of(
    schema: tantivy::schema::Schema,
    field: u32,
    query: Seq<char>,
) -> Result<BoxedQuery, tantivy::query::QueryParserError>;

/// An `AllQuery` as a query of any kind.
pub uninterp spec fn boxed_all_of(query: tantivy::query::AllQuery) -> BoxedQuery;

/// A `TermQuery` as a query of any kind.
pub uninterp spec fn boxed_term_of(query: tantivy::query::TermQuery) -> BoxedQuery;

/// A `BooleanQuery` as a query of any kind.
pub uninterp spec fn boxed_union_of(query: tantivy::query::BooleanQuery) -> BoxedQuery;

/// A `RangeQuery` as a query of any kind.
pub uninterp spec fn boxed_range_of(query: tantivy::query::RangeQuery) -> BoxedQuery;

/// The `BooleanQuery` that is met where every one of `queries` is.
pub uninterp spec fn conjunction_of(queries: Seq<BoxedQuery>) -> tantivy::query::BooleanQuery;

/// The `RangeQuery` for the numbers from `start` to `end` in a field.
pub uninterp spec fn range_query_of(field: Seq<char>, start: u64, end: u64) ->
    tantivy::query::RangeQuery;

/// Calls `TermQuery::new` with the term that `Term::from_field_text` makes. The query holds the
/// field and the text, and nothing else that could vary.
#[verifier::external_body]
fn text_query(field: u32, value: &str) -> (r: tantivy::query::TermQuery)
    ensures
        r == text_query_of(field, value@),
{
    let field = tantivy::schema::Field::from_field_id(field);
    let term = tantivy::Term::from_field_text(field, value);
    tantivy::query::TermQuery::new(term, tantivy::schema::IndexRecordOption::Basic)
}

/// Calls `TermQuery::new` with the term that `Term::from_field_u64` makes. The query holds the
/// field and the number, and nothing else that could vary.
#[verifier::external_body]
fn number_query(field: u32, value: u64) -> (r: tantivy::query::TermQuery)
    ensures
        r == number_query_of(field, value),
{
    let field = tantivy::schema::Field::from_field_id(field);
    let term = tantivy::Term::from_field_u64(field, value);
    tantivy::query::TermQuery::new(term, tantivy::schema::IndexRecordOption::Basic)
}

/// Calls `BooleanQuery::new` with each of `queries` as one that should be met. The query holds
/// them, in order, and nothing else that could vary.
#[verifier::external_body]
fn union_query(queries: Vec<tantivy::query::TermQuery>) -> (r: tantivy::query::BooleanQuery)
    ensures
        r == union_query_of(queries@),
{
    let boxed = |query: tantivy::query::TermQuery| -> Box<dyn tantivy::query::Query> {
        Box::new(query)
    };
    tantivy::query::BooleanQuery::new(
        queries.into_iter().map(|query| (tantivy::query::Occur::Should, boxed(query))).collect(),
    )
}

/// Calls `RangeQuery::new_u64_bounds` with both bounds included. The query holds the name of the
/// field and the bounds, and nothing else that could vary.
#[verifier::external_body]
fn range_query(field: &str, start: u64, end: u64) -> (r: tantivy::query::RangeQuery)
    ensures
        r == range_query_of(field@, start, end),
{
    let (start, end) = (std::ops::Bound::Included(start), std::ops::Bound::Included(end));
    tantivy::query::RangeQuery::new_u64_bounds(field.to_string(), start, end)
}

/// Makes an `AllQuery`, a unit struct.
#[verifier::external_body]
fn all_query() -> (r: tantivy::query::AllQuery)
    ensures
        r == everything(),
{
    tantivy::query::AllQuery
}

/// White space that the parser of queries skips.
pub open spec fn skipped(c: char) -> bool {
    c == ' ' || c == '\t' || c == '\r' || c == '\n'
}

/// Whether the parser of queries skips `c` as white space.
fn is_skipped(c: char) -> (r: bool)
    ensures
        r == skipped(c),
{
    c == ' ' || c == '\t' || c == '\r' || c == '\n'
}

/// How often `c` occurs in `s`.
pub open spec fn occurrences(s: Seq<char>, c: char) -> nat
    decreases s.len(),
{
    if s.len() == 0 {
        0
    } else if s.last() == c {
        occurrences(s.drop_last(), c) + 1
    } else {
        occurrences(s.drop_last(), c)
    }
}

/// Whether digits and points at the end of `s`, if any, follow a `^`, a `~` or a `-`.
pub open spec fn marked(s: Seq<char>) -> bool
    decreases s.len(),
{
    if s.len() == 0 {
        false
    } else if s.last() == '^' || s.last() == '~' || s.last() == '-' {
        true
    } else {
        (s.last() == '.' || ('0' <= s.last() && s.last() <= '9')) && marked(s.drop_last())
    }
}

/// Whether a sign behind `before` can stand on its own: at the start, or behind white space, a
/// parenthesis, or the end of a quoted phrase, a range, a list, a star, or a number that is
/// negative or follows a mark. Behind anything else it belongs to a word.
pub open spec fn sign_stands_behind(before: Seq<char>) -> bool {
    before.len() == 0 || {
        let c = before.last();
        ||| skipped(c)
        ||| c == '(' || c == ')' || c == '"' || c == '\'' || c == ']' || c == '}' || c == '*'
        ||| '0' <= c && c <= '9' && marked(before)
    }
}

/// Whether what follows `before` is sure to stand in a phrase that a double quotation mark opened:
/// their number is odd, and neither a backslash nor a phrase in single quotation marks hides one.
pub open spec fn within_phrase(before: Seq<char>) -> bool {
    &&& occurrences(before, '"') % 2 == 1
    &&& occurrences(before, '\\') == 0
    &&& occurrences(before, '\'') < 2
}

/// A sign at `i` that can stand on its own and a star at `j`, with white space and nothing else
/// between them.
pub open spec fn signed_star_at(query: Seq<char>, i: int, j: int) -> bool {
    &&& 0 <= i && i + 1 < j < query.len()
    &&& query[i] == '+' || query[i] == '-'
    &&& sign_stands_behind(query.take(i)) && !within_phrase(query.take(i))
    &&& forall|k: int| i < k < j ==> skipped(#[trigger] query[k])
    &&& query[j] == '*'
}

/// A query in which white space separates a sign from a star, such as `+ *`. A sign that belongs to
/// a word, as in `c+ *`, or to a phrase, as in `"a + *b"`, is none of these, nor is one with the
/// star right behind it, as in `+*`.
pub open spec fn signed_star(query: Seq<char>) -> bool {
    exists|i: int, j: int| signed_star_at(query, i, j)
}

/// Whether white space separates a sign from a star in a query. tantivy's parser panics on such a
/// query.
pub fn has_signed_star(query: &str) -> (r: bool)
    ensures
        r == signed_star(query@),
{
    let chars = text::chars_of(query);
    let n = chars.len();
    let mut i: usize = 0;
    let mut stands = true;
    let mut mark = false;
    let mut odd_double = false;
    let mut backslash = false;
    let mut single: usize = 0;
    assert(query@.take(0) =~= Seq::<char>::empty());
    while i < n
        invariant
            chars@ == query@,
            n == chars@.len(),
            i <= n,
            stands == sign_stands_behind(query@.take(i as int)),
            mark == marked(query@.take(i as int)),
            odd_double == (occurrences(query@.take(i as int), '"') % 2 == 1),
            backslash == (occurrences(query@.take(i as int), '\\') != 0),
            single == occurrences(query@.take(i as int), '\''),
            single <= i,
            forall|a: int, b: int| a < i ==> !#[trigger] signed_star_at(query@, a, b),
        decreases n - i,
    {
        let c = chars[i];
        let quoted = odd_double && !backslash && single < 2;
        if (c == '+' || c == '-') && stands && !quoted {
            let mut j: usize = i + 1;
            while j < n && is_skipped(chars[j])
                invariant
                    chars@ == query@,
                    n == chars@.len(),
                    i < j <= n,
                    forall|k: int| i < k < j ==> skipped(#[trigger] query@[k]),
                decreases n - j,
            {
                j += 1;
            }
            if i + 1 < j && j < n && chars[j] == '*' {
                assert(signed_star_at(query@, i as int, j as int));
                return true;
            }
            assert forall|b: int| !#[trigger] signed_star_at(query@, i as int, b) by {
                if signed_star_at(query@, i as int, b) {
                    assert(b <= j ==> b == j || skipped(query@[b]));
                    assert(j < b ==> skipped(query@[j as int]));
                }
            }
        }
        assert(query@.take(i + 1).drop_last() =~= query@.take(i as int));
        assert(query@.take(i + 1).last() == c);
        let digit = '0' <= c && c <= '9';
        mark = c == '^' || c == '~' || c == '-' || ((c == '.' || digit) && mark);
        stands = is_skipped(c) || c == '(' || c == ')' || c == '"' || c == '\'' || c == ']' || c
            == '}' || c == '*' || (digit && mark);
        if c == '"' {
            odd_double = !odd_double;
        }
        if c == '\\' {
            backslash = true;
        }
        if c == '\'' {
            single += 1;
        }
        i += 1;
    }
    false
}

/// Calls `QueryParser::parse_query` on a parser that `QueryParser::new` makes with the one default
/// field and `TokenizerManager::default`, which is what an index that was created or opened has.
/// The parser reads the schema, the field and the text, and nothing else. It panics where the
/// schema has no field of this number, and where a sign that stands on its own is followed by
/// white space and a star. The condition on the text also leaves out some queries on which it does
/// not panic: those in which the sign and the star stand inside a list, a range, or a phrase that
/// is in single quotation marks or comes behind a backslash; in which the sign follows the word
/// `NOT` or ends a word such as `utf-8+` or `it*+`; and those that are refused before the parser
/// comes to the sign.
///
/// Nothing is said of the time and the stack that the parser takes: each level of nested
/// parentheses doubles the time and adds to the stack, which very deep nesting overflows.
#[verifier::external_body]
fn parse_words(schema: &tantivy::schema::Schema, field: u32, query: &str) -> (r: Result<
    BoxedQuery,
    tantivy::query::QueryParserError,
>)
    requires
        field < layout::schema_fields(*schema).len(),
        !signed_star(query@),
    ensures
        r == parsed_query_of(*schema, field, query@),
{
    let fields = vec![tantivy::schema::Field::from_field_id(field)];
    let tokenizers = tantivy::tokenizer::TokenizerManager::default();
    let parser = tantivy::query::QueryParser::new(schema.clone(), fields, tokenizers);
    parser.parse_query(query).map(|inner| BoxedQuery { inner })
}

/// Puts an `AllQuery` into a box, as a query of any kind.
#[verifier::external_body]
fn box_all(query: tantivy::query::AllQuery) -> (r: BoxedQuery)
    ensures
        r == boxed_all_of(query),
{
    BoxedQuery { inner: Box::new(query) }
}

/// Puts a `TermQuery` into a box, as a query of any kind.
#[verifier::external_body]
fn box_term(query: tantivy::query::TermQuery) -> (r: BoxedQuery)
    ensures
        r == boxed_term_of(query),
{
    BoxedQuery { inner: Box::new(query) }
}

/// Puts a `BooleanQuery` into a box, as a query of any kind.
#[verifier::external_body]
fn box_union(query: tantivy::query::BooleanQuery) -> (r: BoxedQuery)
    ensures
        r == boxed_union_of(query),
{
    BoxedQuery { inner: Box::new(query) }
}

/// Puts a `RangeQuery` into a box, as a query of any kind.
#[verifier::external_body]
fn box_range(query: tantivy::query::RangeQuery) -> (r: BoxedQuery)
    ensures
        r == boxed_range_of(query),
{
    BoxedQuery { inner: Box::new(query) }
}

/// Calls `BooleanQuery::intersection`, which makes each of `queries` one that must be met. The
/// query holds them, in order, and nothing else that could vary.
#[verifier::external_body]
fn conjunction(queries: Vec<BoxedQuery>) -> (r: tantivy::query::BooleanQuery)
    ensures
        r == conjunction_of(queries@),
{
    tantivy::query::BooleanQuery::intersection(
        queries.into_iter().map(|query| query.inner).collect(),
    )
}

/// A condition as the index takes it.
pub open spec fn compiled(clause: ClauseModel) -> BoxedQuery {
    match clause {
        ClauseModel::Exactly { field, value } => boxed_term_of(text_query_of(field, value)),
        ClauseModel::AnyOf { field, values } => boxed_union_of(
            union_query_of(values.map_values(|value: Seq<char>| text_query_of(field, value))),
        ),
        ClauseModel::Between { start, end } => boxed_range_of(range_query_of("ts"@, start, end)),
    }
}

/// Conditions as the index takes them, in order.
pub open spec fn compiled_all(clauses: Seq<ClauseModel>) -> Seq<BoxedQuery> {
    clauses.map_values(|clause: ClauseModel| compiled(clause))
}

/// A condition as the index takes it.
pub fn compile(clause: QueryClause) -> (r: BoxedQuery)
    ensures
        r == compiled(clause@),
{
    match clause {
        QueryClause::Exactly { field, value } => box_term(text_query(field, value.as_str())),
        QueryClause::AnyOf { field, values } => {
            let mut queries: Vec<tantivy::query::TermQuery> = Vec::new();
            let ghost wanted = text::texts(values@).map_values(
                |value: Seq<char>| text_query_of(field, value),
            );
            let mut i: usize = 0;
            while i < values.len()
                invariant
                    i <= values@.len(),
                    wanted == text::texts(values@).map_values(
                        |value: Seq<char>| text_query_of(field, value),
                    ),
                    queries@ == wanted.take(i as int),
                decreases values@.len() - i,
            {
                queries.push(text_query(field, values[i].as_str()));
                assert(wanted.take(i + 1) =~= wanted.take(i as int).push(
                    text_query_of(field, values@[i as int]@),
                ));
                i += 1;
            }
            assert(wanted.take(i as int) =~= wanted);
            box_union(union_query(queries))
        },
        QueryClause::Between { start, end } => box_range(range_query("ts", start, end)),
    }
}

/// Appends conditions as the index takes them.
fn push_compiled(queries: &mut Vec<BoxedQuery>, clauses: Vec<QueryClause>)
    ensures
        final(queries)@ == old(queries)@ + compiled_all(clauses_model(clauses@)),
{
    let ghost start = queries@;
    let ghost all = compiled_all(clauses_model(clauses@));
    assert(start + all.take(0) =~= start);
    for clause in it: clauses
        invariant
            it.seq() == clauses@,
            all == compiled_all(clauses_model(clauses@)),
            queries@ == start + all.take(it.index() as int),
    {
        let ghost index = it.index() as int;
        assert(all[index] == compiled(clause@));
        queries.push(compile(clause));
        assert(queries@ =~= start + all.take(index + 1));
    }
    assert(all.take(all.len() as int) =~= all);
}

/// The one query that asks for words and for conditions. `words` is what the words of a search
/// became, an error where they could not be parsed.
pub open spec fn joined_query(
    words: Result<BoxedQuery, tantivy::query::QueryParserError>,
    clauses: Seq<ClauseModel>,
) -> Result<tantivy::query::BooleanQuery, tantivy::query::QueryParserError> {
    match words {
        Ok(query) => Ok(conjunction_of(seq![query] + compiled_all(clauses))),
        Err(error) => Err(error),
    }
}

/// The one query that asks for words and for conditions. `words` is what the words of a search
/// became: where they could not be parsed, that is the error.
pub fn join_query(
    words: Result<BoxedQuery, tantivy::query::QueryParserError>,
    clauses: Vec<QueryClause>,
) -> (r: Result<tantivy::query::BooleanQuery, tantivy::query::QueryParserError>)
    ensures
        r == joined_query(words, clauses_model(clauses@)),
{
    match words {
        Ok(query) => {
            let mut queries: Vec<BoxedQuery> = Vec::new();
            queries.push(query);
            push_compiled(&mut queries, clauses);
            assert(queries@ =~= seq![query] + compiled_all(clauses_model(clauses@)));
            Ok(conjunction(queries))
        },
        Err(error) => Err(error),
    }
}

/// What the words of a search become: every document for a blank query, and what tantivy's parser
/// makes of any other.
pub open spec fn words_query(
    schema: tantivy::schema::Schema,
    fields: IndexFields,
    query: Seq<char>,
) -> Result<BoxedQuery, tantivy::query::QueryParserError> {
    if text::blank(query) {
        Ok(boxed_all_of(everything()))
    } else {
        parsed_query_of(schema, fields.text, query)
    }
}

/// The query that a search puts to an index with this schema: the words and every condition have
/// to be met. Words that cannot be parsed are an error. [`has_signed_star`] tells the words that
/// are not to be parsed.
pub fn build_query(
    labels: &SourceLabels,
    fields: &IndexFields,
    options: &QueryOptions,
    schema: &tantivy::schema::Schema,
) -> (r: Result<tantivy::query::BooleanQuery, tantivy::query::QueryParserError>)
    requires
        !text::blank(options.query@) ==> fields.searchable_in(layout::schema_fields(*schema))
            && !signed_star(options.query@),
    ensures
        r == joined_query(
            words_query(*schema, *fields, options.query@),
            search_clauses(*labels, *fields, *options),
        ),
        r is Err <==> !text::blank(options.query@) && parsed_query_of(
            *schema,
            fields.text,
            options.query@,
        ) is Err,
        r matches Ok(query) ==> forall|reading: Reading, record: RecordModel|
            #![trigger reading.finds(*fields, document::document_of(*labels, *fields, record))]
            labels.distinct() && fields.distinct() && fields.source is Some && reading.finds(
                *fields,
                document::document_of(*labels, *fields, record),
            ) ==> ((reading.of_boolean)(query) <==> wanted(*options, record) && (text::blank(
                options.query@,
            ) || (reading.of_boxed)(
                parsed_query_of(*schema, fields.text, options.query@)->Ok_0,
            ))),
{
    proof {
        assert forall|reading: Reading, record: RecordModel|
            #![trigger reading.finds(*fields, document::document_of(*labels, *fields, record))]
            labels.distinct() && fields.distinct() && fields.source is Some && reading.finds(
                *fields,
                document::document_of(*labels, *fields, record),
            ) implies {
            let built = joined_query(
                words_query(*schema, *fields, options.query@),
                search_clauses(*labels, *fields, *options),
            );
            built matches Ok(query) ==> ((reading.of_boolean)(query) <==> wanted(*options, record)
                && (text::blank(options.query@) || (reading.of_boxed)(
                parsed_query_of(*schema, fields.text, options.query@)->Ok_0,
            )))
        } by {
            law_search_finds_words_and_wanted_records(
                reading,
                *labels,
                *fields,
                *options,
                *schema,
                record,
            );
        }
    }
    let words = if text::is_blank(options.query.as_str()) {
        Ok(box_all(all_query()))
    } else {
        parse_words(schema, fields.text, options.query.as_str())
    };
    join_query(words, search_conditions(labels, fields, options))
}

/// What a look at the most recent records asks of the index.
#[derive(Debug)]
pub enum RecentQuery {
    /// Every document.
    Everything(tantivy::query::AllQuery),
    /// The documents that meet every condition.
    Meeting(tantivy::query::BooleanQuery),
}

/// What a look at the most recent records asks of the index.
pub open spec fn recent_query_of(
    labels: SourceLabels,
    fields: IndexFields,
    source: Option<SourceFilter>,
    project: Option<Seq<char>>,
) -> RecentQuery {
    let clauses = recent_clauses(labels, fields, source, project);
    if clauses.len() == 0 {
        RecentQuery::Everything(everything())
    } else {
        RecentQuery::Meeting(conjunction_of(compiled_all(clauses)))
    }
}

/// What a look at the most recent records asks of the index: where it puts no condition, every
/// document, and otherwise those that meet all of them.
pub fn recent_query(
    labels: &SourceLabels,
    fields: &IndexFields,
    source: Option<SourceFilter>,
    project: Option<&str>,
) -> (r: RecentQuery)
    ensures
        ({
            let clauses = recent_clauses(*labels, *fields, source, text::opt_str(project));
            r == if clauses.len() == 0 {
                RecentQuery::Everything(everything())
            } else {
                RecentQuery::Meeting(conjunction_of(compiled_all(clauses)))
            }
        }),
        r == recent_query_of(*labels, *fields, source, text::opt_str(project)),
        forall|reading: Reading, record: RecordModel|
            #![trigger reading.finds(*fields, document::document_of(*labels, *fields, record))]
            labels.distinct() && fields.distinct() && fields.source is Some && reading.finds(
                *fields,
                document::document_of(*labels, *fields, record),
            ) ==> {
                let found = match r {
                    RecentQuery::Everything(query) => (reading.of_all)(query),
                    RecentQuery::Meeting(query) => (reading.of_boolean)(query),
                };
                found <==> (project is Some ==> record.project == project->0@) && (source is Some
                    ==> types::admits(source->0, record.source))
            },
{
    proof {
        assert forall|reading: Reading, record: RecordModel|
            #![trigger reading.finds(*fields, document::document_of(*labels, *fields, record))]
            labels.distinct() && fields.distinct() && fields.source is Some && reading.finds(
                *fields,
                document::document_of(*labels, *fields, record),
            ) implies {
            let found = match recent_query_of(*labels, *fields, source, text::opt_str(project)) {
                RecentQuery::Everything(query) => (reading.of_all)(query),
                RecentQuery::Meeting(query) => (reading.of_boolean)(query),
            };
            found <==> (project is Some ==> record.project == project->0@) && (source is Some
                ==> types::admits(source->0, record.source))
        } by {
            law_recent_query_finds_wanted_records(
                reading,
                *labels,
                *fields,
                source,
                text::opt_str(project),
                record,
            );
        }
    }
    let clauses = recent_conditions(labels, fields, source, project);
    assert(clauses_model(clauses@).len() == clauses@.len());
    if clauses.is_empty() {
        return RecentQuery::Everything(all_query());
    }
    let mut queries: Vec<BoxedQuery> = Vec::new();
    push_compiled(&mut queries, clauses);
    assert(queries@ =~= compiled_all(clauses_model(clauses@)));
    RecentQuery::Meeting(conjunction(queries))
}

/// The query for the record with a document id.
pub fn doc_id_query(fields: &IndexFields, doc_id: u64) -> (r: tantivy::query::TermQuery)
    ensures
        r == number_query_of(fields.doc_id, doc_id),
        forall|reading: Reading, labels: SourceLabels, record: RecordModel|
            #![trigger reading.finds(*fields, document::document_of(labels, *fields, record))]
            fields.distinct() && reading.finds(
                *fields,
                document::document_of(labels, *fields, record),
            ) ==> ((reading.of_term)(r) <==> record.doc_id == doc_id),
{
    proof {
        assert forall|reading: Reading, labels: SourceLabels, record: RecordModel|
            #![trigger reading.finds(*fields, document::document_of(labels, *fields, record))]
            fields.distinct() && reading.finds(
                *fields,
                document::document_of(labels, *fields, record),
            ) implies ((reading.of_term)(number_query_of(fields.doc_id, doc_id))
            <==> record.doc_id == doc_id) by {
            document::lemma_document_values(labels, *fields, record);
        }
    }
    number_query(fields.doc_id, doc_id)
}

/// The query for the records of a session.
pub fn session_query(fields: &IndexFields, session_id: &str) -> (r: tantivy::query::TermQuery)
    ensures
        r == text_query_of(fields.session_id, session_id@),
        forall|reading: Reading, labels: SourceLabels, record: RecordModel|
            #![trigger reading.finds(*fields, document::document_of(labels, *fields, record))]
            fields.distinct() && reading.finds(
                *fields,
                document::document_of(labels, *fields, record),
            ) ==> ((reading.of_term)(r) <==> record.session_id == session_id@),
{
    proof {
        assert forall|reading: Reading, labels: SourceLabels, record: RecordModel|
            #![trigger reading.finds(*fields, document::document_of(labels, *fields, record))]
            fields.distinct() && reading.finds(
                *fields,
                document::document_of(labels, *fields, record),
            ) implies ((reading.of_term)(text_query_of(fields.session_id, session_id@))
            <==> record.session_id == session_id@) by {
            document::lemma_document_values(labels, *fields, record);
        }
    }
    text_query(fields.session_id, session_id)
}

/// The query for the records of a transcript.
pub fn source_path_query(fields: &IndexFields, path: &str) -> (r: tantivy::query::TermQuery)
    ensures
        r == text_query_of(fields.source_path, path@),
        forall|reading: Reading, labels: SourceLabels, record: RecordModel|
            #![trigger reading.finds(*fields, document::document_of(labels, *fields, record))]
            fields.distinct() && reading.finds(
                *fields,
                document::document_of(labels, *fields, record),
            ) ==> ((reading.of_term)(r) <==> record.source_path == path@),
{
    proof {
        assert forall|reading: Reading, labels: SourceLabels, record: RecordModel|
            #![trigger reading.finds(*fields, document::document_of(labels, *fields, record))]
            fields.distinct() && reading.finds(
                *fields,
                document::document_of(labels, *fields, record),
            ) implies ((reading.of_term)(text_query_of(fields.source_path, path@))
            <==> record.source_path == path@) by {
            document::lemma_document_values(labels, *fields, record);
        }
    }
    text_query(fields.source_path, path)
}

/// A document meets a condition.
pub open spec fn meets(
    fields: IndexFields,
    entries: Seq<EntryModel>,
    clause: ClauseModel,
) -> bool {
    match clause {
        ClauseModel::Exactly { field, value } => document::text_of(entries, field) == Some(value),
        ClauseModel::AnyOf { field, values } => {
            &&& document::text_of(entries, field) matches Some(value)
            &&& values.contains(value)
        },
        ClauseModel::Between { start, end } => {
            &&& document::number_of(entries, fields.ts) matches Some(ts)
            &&& start <= ts <= end
        },
    }
}

/// A document meets every condition.
pub open spec fn meets_all(
    fields: IndexFields,
    entries: Seq<EntryModel>,
    clauses: Seq<ClauseModel>,
) -> bool {
    forall|i: int| 0 <= i < clauses.len() ==> meets(fields, entries, #[trigger] clauses[i])
}

/// Which queries of each kind find one document.
pub struct Reading {
    pub of_all: spec_fn(tantivy::query::AllQuery) -> bool,
    pub of_term: spec_fn(tantivy::query::TermQuery) -> bool,
    pub of_range: spec_fn(tantivy::query::RangeQuery) -> bool,
    pub of_boolean: spec_fn(tantivy::query::BooleanQuery) -> bool,
    pub of_boxed: spec_fn(BoxedQuery) -> bool,
}

impl Reading {
    /// Queries find a document as they should: a query for everything does; a query for a text or a
    /// number does where the document has it in that field, and one for times where its time is one
    /// of them; a union where any part of it does, and a conjunction where every part of it does;
    /// and a query in a box where it does outside.
    pub open spec fn finds(self, fields: IndexFields, entries: Seq<EntryModel>) -> bool {
        &&& (self.of_all)(everything())
        &&& forall|field: u32, value: Seq<char>|
            field == fields.project || field == fields.role || field == fields.tool_name || field
                == fields.session_id || field == fields.source_path || Some(field) == fields.source
                ==> ((self.of_term)(#[trigger] text_query_of(field, value)) <==> document::text_of(
                entries,
                field,
            ) == Some(value))
        &&& forall|value: u64|
            (self.of_term)(#[trigger] number_query_of(fields.doc_id, value))
                <==> document::number_of(entries, fields.doc_id) == Some(value)
        &&& forall|start: u64, end: u64|
            (self.of_range)(#[trigger] range_query_of("ts"@, start, end)) <==> {
                &&& document::number_of(entries, fields.ts) matches Some(ts)
                &&& start <= ts <= end
            }
        &&& forall|queries: Seq<tantivy::query::TermQuery>|
            (self.of_boolean)(#[trigger] union_query_of(queries)) <==> exists|i: int|
                0 <= i < queries.len() && (self.of_term)(#[trigger] queries[i])
        &&& forall|queries: Seq<BoxedQuery>|
            queries.len() > 0 ==> ((self.of_boolean)(#[trigger] conjunction_of(queries))
                <==> forall|i: int|
                0 <= i < queries.len() ==> (self.of_boxed)(#[trigger] queries[i]))
        &&& forall|query: tantivy::query::AllQuery|
            (self.of_boxed)(#[trigger] boxed_all_of(query)) == (self.of_all)(query)
        &&& forall|query: tantivy::query::TermQuery|
            (self.of_boxed)(#[trigger] boxed_term_of(query)) == (self.of_term)(query)
        &&& forall|query: tantivy::query::RangeQuery|
            (self.of_boxed)(#[trigger] boxed_range_of(query)) == (self.of_range)(query)
        &&& forall|query: tantivy::query::BooleanQuery|
            (self.of_boxed)(#[trigger] boxed_union_of(query)) == (self.of_boolean)(query)
    }
}

/// A value is the one that is asked for, where one is asked for.
pub open spec fn asked(wanted: Option<Seq<char>>, value: Option<Seq<char>>) -> bool {
    wanted is Some ==> value == wanted
}

/// A record is one that a search is for, if it has the words that are searched for.
pub open spec fn wanted(options: QueryOptions, record: RecordModel) -> bool {
    &&& asked(text::opt_text(options.project), Some(record.project))
    &&& asked(text::opt_text(options.role), Some(record.role))
    &&& asked(text::opt_text(options.tool), record.tool_name)
    &&& asked(text::opt_text(options.session_id), Some(record.session_id))
    &&& options.source matches Some(filter) ==> types::admits(filter, record.source)
    &&& options.since matches Some(since) ==> since <= record.ts
    &&& options.until matches Some(until) ==> record.ts <= until
}

/// Meeting the conditions of two lists is meeting those of both.
proof fn lemma_meets_both(
    fields: IndexFields,
    entries: Seq<EntryModel>,
    a: Seq<ClauseModel>,
    b: Seq<ClauseModel>,
)
    ensures
        meets_all(fields, entries, a + b) <==> meets_all(fields, entries, a)
            && meets_all(fields, entries, b),
{
    if meets_all(fields, entries, a + b) {
        assert forall|i: int| 0 <= i < a.len() implies meets(
            fields,
            entries,
            #[trigger] a[i],
        ) by {
            assert((a + b)[i] == a[i]);
        }
        assert forall|i: int| 0 <= i < b.len() implies meets(
            fields,
            entries,
            #[trigger] b[i],
        ) by {
            assert((a + b)[a.len() + i] == b[i]);
        }
    }
}

/// Meeting the condition on a value is having the value that is asked for.
proof fn lemma_meets_exact(
    fields: IndexFields,
    entries: Seq<EntryModel>,
    field: u32,
    value: Option<Seq<char>>,
)
    ensures
        meets_all(fields, entries, exact_clause(field, value)) <==> asked(
            value,
            document::text_of(entries, field),
        ),
{
    if let Some(sought) = value {
        let clauses = exact_clause(field, value);
        assert(clauses[0] == (ClauseModel::Exactly { field, value: sought }));
    }
}

/// The documents that meet the conditions of a search are those of the records that it is for.
pub proof fn law_search_finds_wanted_records(
    labels: SourceLabels,
    fields: IndexFields,
    options: QueryOptions,
    record: RecordModel,
)
    requires
        labels.distinct(),
        fields.distinct(),
        fields.source is Some,
    ensures
        meets_all(
            fields,
            document::document_of(labels, fields, record),
            search_clauses(labels, fields, options),
        ) <==> wanted(options, record),
{
    let entries = document::document_of(labels, fields, record);
    document::lemma_document_values(labels, fields, record);
    let c1 = exact_clause(fields.project, text::opt_text(options.project));
    let c2 = exact_clause(fields.role, text::opt_text(options.role));
    let c3 = exact_clause(fields.tool_name, text::opt_text(options.tool));
    let c4 = source_clause(labels, fields, options.source);
    let c5 = exact_clause(fields.session_id, text::opt_text(options.session_id));
    let c6 = time_clause(options.since, options.until);
    lemma_meets_both(fields, entries, c1, c2);
    lemma_meets_both(fields, entries, c1 + c2, c3);
    lemma_meets_both(fields, entries, c1 + c2 + c3, c4);
    lemma_meets_both(fields, entries, c1 + c2 + c3 + c4, c5);
    lemma_meets_both(fields, entries, c1 + c2 + c3 + c4 + c5, c6);
    lemma_meets_exact(fields, entries, fields.project, text::opt_text(options.project));
    lemma_meets_exact(fields, entries, fields.role, text::opt_text(options.role));
    lemma_meets_exact(fields, entries, fields.tool_name, text::opt_text(options.tool));
    let session_id = text::opt_text(options.session_id);
    lemma_meets_exact(fields, entries, fields.session_id, session_id);
    lemma_meets_source(labels, fields, options.source, record);
    if options.since is Some || options.until is Some {
        assert(meets(fields, entries, c6[0]) <==> meets_all(fields, entries, c6));
    }
}

/// Meeting the condition on the source is being of a source that the filter chooses.
proof fn lemma_meets_source(
    labels: SourceLabels,
    fields: IndexFields,
    source: Option<SourceFilter>,
    record: RecordModel,
)
    requires
        labels.distinct(),
        fields.distinct(),
        fields.source is Some,
    ensures
        meets_all(
            fields,
            document::document_of(labels, fields, record),
            source_clause(labels, fields, source),
        ) <==> (source matches Some(filter) ==> types::admits(filter, record.source)),
{
    document::lemma_document_values(labels, fields, record);
    if let Some(filter) = source {
        types::law_filter_chooses_by_label(labels, filter, record.source);
        let clauses = source_clause(labels, fields, source);
        let entries = document::document_of(labels, fields, record);
        assert(clauses[0] == (ClauseModel::AnyOf {
            field: fields.source->0,
            values: labels.chosen(filter),
        }));
        assert(meets(fields, entries, clauses[0]) <==> meets_all(
            fields,
            entries,
            clauses,
        ));
    }
}

/// The documents that meet the conditions of a look at the most recent records are those of the
/// source and the project that are asked for.
pub proof fn law_recent_finds_wanted_records(
    labels: SourceLabels,
    fields: IndexFields,
    source: Option<SourceFilter>,
    project: Option<Seq<char>>,
    record: RecordModel,
)
    requires
        labels.distinct(),
        fields.distinct(),
        fields.source is Some,
    ensures
        meets_all(
            fields,
            document::document_of(labels, fields, record),
            recent_clauses(labels, fields, source, project),
        ) <==> {
            &&& asked(project, Some(record.project))
            &&& source matches Some(filter) ==> types::admits(filter, record.source)
        },
{
    let entries = document::document_of(labels, fields, record);
    document::lemma_document_values(labels, fields, record);
    lemma_meets_both(
        fields,
        entries,
        source_clause(labels, fields, source),
        exact_clause(fields.project, project),
    );
    lemma_meets_exact(fields, entries, fields.project, project);
    lemma_meets_source(labels, fields, source, record);
}

/// A condition is on a field that is searched as a whole, or on the time.
spec fn on_whole_field(fields: IndexFields, clause: ClauseModel) -> bool {
    match clause {
        ClauseModel::Exactly { field, .. } | ClauseModel::AnyOf { field, .. } => {
            ||| field == fields.project
            ||| field == fields.role
            ||| field == fields.tool_name
            ||| field == fields.session_id
            ||| Some(field) == fields.source
        },
        ClauseModel::Between { .. } => true,
    }
}

/// The query that a condition becomes finds a document just where the document meets it.
proof fn lemma_condition_finds(
    reading: Reading,
    fields: IndexFields,
    entries: Seq<EntryModel>,
    clause: ClauseModel,
)
    requires
        reading.finds(fields, entries),
        on_whole_field(fields, clause),
    ensures
        (reading.of_boxed)(compiled(clause)) <==> meets(fields, entries, clause),
{
    if let ClauseModel::AnyOf { field, values } = clause {
        let terms = values.map_values(|value: Seq<char>| text_query_of(field, value));
        if meets(fields, entries, clause) {
            let value = document::text_of(entries, field)->0;
            let i = choose|i: int| 0 <= i < values.len() && values[i] == value;
            assert(terms[i] == text_query_of(field, values[i]));
            assert((reading.of_term)(terms[i]));
        }
        if exists|i: int| 0 <= i < terms.len() && (reading.of_term)(#[trigger] terms[i]) {
            let i = choose|i: int| 0 <= i < terms.len() && (reading.of_term)(#[trigger] terms[i]);
            assert(terms[i] == text_query_of(field, values[i]));
            assert(values.contains(values[i]));
        }
    }
}

/// The queries that conditions become all find a document just where it meets all of them.
proof fn lemma_conditions_find(
    reading: Reading,
    fields: IndexFields,
    entries: Seq<EntryModel>,
    clauses: Seq<ClauseModel>,
)
    requires
        reading.finds(fields, entries),
        forall|i: int| 0 <= i < clauses.len() ==> on_whole_field(fields, #[trigger] clauses[i]),
    ensures
        (forall|i: int|
            0 <= i < clauses.len() ==> (reading.of_boxed)(#[trigger] compiled_all(clauses)[i]))
            <==> meets_all(fields, entries, clauses),
{
    let all = compiled_all(clauses);
    assert forall|i: int| 0 <= i < clauses.len() implies ((reading.of_boxed)(#[trigger] all[i])
        <==> meets(fields, entries, clauses[i])) by {
        lemma_condition_finds(reading, fields, entries, clauses[i]);
    }
    if meets_all(fields, entries, clauses) {
        assert forall|i: int| 0 <= i < clauses.len() implies (reading.of_boxed)(
            #[trigger] all[i],
        ) by {
            assert(meets(fields, entries, clauses[i]));
        }
    }
    if forall|i: int| 0 <= i < clauses.len() ==> (reading.of_boxed)(#[trigger] all[i]) {
        assert forall|i: int| 0 <= i < clauses.len() implies meets(
            fields,
            entries,
            #[trigger] clauses[i],
        ) by {
            assert((reading.of_boxed)(all[i]));
        }
    }
}

/// The conditions of a search are on fields that are searched as a whole, and on the time.
proof fn lemma_search_is_on_whole_fields(
    labels: SourceLabels,
    fields: IndexFields,
    options: QueryOptions,
)
    ensures
        ({
            let clauses = search_clauses(labels, fields, options);
            forall|i: int| 0 <= i < clauses.len() ==> on_whole_field(fields, #[trigger] clauses[i])
        }),
{
    let c1 = exact_clause(fields.project, text::opt_text(options.project));
    let c2 = exact_clause(fields.role, text::opt_text(options.role));
    let c3 = exact_clause(fields.tool_name, text::opt_text(options.tool));
    let c4 = source_clause(labels, fields, options.source);
    let c5 = exact_clause(fields.session_id, text::opt_text(options.session_id));
    let c6 = time_clause(options.since, options.until);
    let whole = |clauses: Seq<ClauseModel>|
        forall|i: int| 0 <= i < clauses.len() ==> on_whole_field(fields, #[trigger] clauses[i]);
    assert(whole(c1) && whole(c2) && whole(c3) && whole(c4) && whole(c5) && whole(c6));
    assert(whole(c1 + c2 + c3 + c4 + c5 + c6));
}

/// A search finds a record just where the record has the words, if there are any, and is of the
/// project, the role, the tool, the session, the source and the time that are asked for. Words that
/// cannot be parsed are the error that the parser gives, and nothing else is an error.
pub proof fn law_search_finds_words_and_wanted_records(
    reading: Reading,
    labels: SourceLabels,
    fields: IndexFields,
    options: QueryOptions,
    schema: tantivy::schema::Schema,
    record: RecordModel,
)
    requires
        labels.distinct(),
        fields.distinct(),
        fields.source is Some,
        reading.finds(fields, document::document_of(labels, fields, record)),
    ensures
        ({
            let parsed = parsed_query_of(schema, fields.text, options.query@);
            let built = joined_query(
                words_query(schema, fields, options.query@),
                search_clauses(labels, fields, options),
            );
            if text::blank(options.query@) {
                built matches Ok(query) && ((reading.of_boolean)(query) <==> wanted(
                    options,
                    record,
                ))
            } else {
                match parsed {
                    Ok(words) => built matches Ok(query) && ((reading.of_boolean)(query) <==> (
                    reading.of_boxed)(words) && wanted(options, record)),
                    Err(error) => built == Err::<tantivy::query::BooleanQuery, _>(error),
                }
            }
        }),
{
    let entries = document::document_of(labels, fields, record);
    let clauses = search_clauses(labels, fields, options);
    law_search_finds_wanted_records(labels, fields, options, record);
    lemma_search_is_on_whole_fields(labels, fields, options);
    lemma_conditions_find(reading, fields, entries, clauses);
    if let Ok(words) = words_query(schema, fields, options.query@) {
        lemma_conjunction_finds(reading, fields, entries, words, clauses);
    }
}

/// A conjunction of words and conditions finds a document just where it has the words and meets the
/// conditions.
proof fn lemma_conjunction_finds(
    reading: Reading,
    fields: IndexFields,
    entries: Seq<EntryModel>,
    words: BoxedQuery,
    clauses: Seq<ClauseModel>,
)
    requires
        reading.finds(fields, entries),
        forall|i: int| 0 <= i < clauses.len() ==> on_whole_field(fields, #[trigger] clauses[i]),
    ensures
        (reading.of_boolean)(conjunction_of(seq![words] + compiled_all(clauses))) <==> (
        reading.of_boxed)(words) && meets_all(fields, entries, clauses),
{
    let all = compiled_all(clauses);
    let queries = seq![words] + all;
    lemma_conditions_find(reading, fields, entries, clauses);
    if (reading.of_boolean)(conjunction_of(queries)) {
        assert((reading.of_boxed)(queries[0]));
        assert forall|i: int| 0 <= i < clauses.len() implies (reading.of_boxed)(
            #[trigger] all[i],
        ) by {
            assert((reading.of_boxed)(queries[i + 1]));
        }
    }
    if (reading.of_boxed)(words) && meets_all(fields, entries, clauses) {
        assert forall|i: int| 0 <= i < queries.len() implies (reading.of_boxed)(
            #[trigger] queries[i],
        ) by {
            if i > 0 {
                assert(queries[i] == all[i - 1]);
            }
        }
    }
}

/// A look at the most recent records finds those of the source and the project that are asked for,
/// and every record where neither is.
pub proof fn law_recent_query_finds_wanted_records(
    reading: Reading,
    labels: SourceLabels,
    fields: IndexFields,
    source: Option<SourceFilter>,
    project: Option<Seq<char>>,
    record: RecordModel,
)
    requires
        labels.distinct(),
        fields.distinct(),
        fields.source is Some,
        reading.finds(fields, document::document_of(labels, fields, record)),
    ensures
        ({
            let found = match recent_query_of(labels, fields, source, project) {
                RecentQuery::Everything(query) => (reading.of_all)(query),
                RecentQuery::Meeting(query) => (reading.of_boolean)(query),
            };
            found <==> {
                &&& asked(project, Some(record.project))
                &&& source matches Some(filter) ==> types::admits(filter, record.source)
            }
        }),
{
    let entries = document::document_of(labels, fields, record);
    let clauses = recent_clauses(labels, fields, source, project);
    law_recent_finds_wanted_records(labels, fields, source, project, record);
    assert forall|i: int| 0 <= i < clauses.len() implies on_whole_field(
        fields,
        #[trigger] clauses[i],
    ) by {}
    lemma_conditions_find(reading, fields, entries, clauses);
    assert(compiled_all(clauses).len() == clauses.len());
}

/// The records of a session, of a transcript, and with a document id are found by the queries for
/// them, and no others are.
pub proof fn law_lookups_find_their_records(
    reading: Reading,
    labels: SourceLabels,
    fields: IndexFields,
    record: RecordModel,
    sought: Seq<char>,
    doc_id: u64,
)
    requires
        labels.distinct(),
        fields.distinct(),
        fields.source is Some,
        reading.finds(fields, document::document_of(labels, fields, record)),
    ensures
        (reading.of_term)(text_query_of(fields.session_id, sought)) <==> record.session_id
            == sought,
        (reading.of_term)(text_query_of(fields.source_path, sought)) <==> record.source_path
            == sought,
        (reading.of_term)(number_query_of(fields.doc_id, doc_id)) <==> record.doc_id == doc_id,
{
    document::lemma_document_values(labels, fields, record);
}

/// A sign and a star with white space between them at the start of a query are found, whatever
/// follows, and none are found where there is no star or no sign.
pub proof fn law_signed_stars_are_found(
    sign: char,
    gap: Seq<char>,
    rest: Seq<char>,
    query: Seq<char>,
)
    requires
        sign == '+' || sign == '-',
        gap.len() > 0,
        forall|i: int|
            0 <= i < gap.len() ==> #[trigger] gap[i] == ' ' || gap[i] == '\t' || gap[i] == '\n'
                || gap[i] == '\r',
    ensures
        signed_star(seq![sign] + gap + seq!['*'] + rest),
        !query.contains('*') ==> !signed_star(query),
        !query.contains('+') && !query.contains('-') ==> !signed_star(query),
{
    let starred = seq![sign] + gap + seq!['*'] + rest;
    assert(starred.take(0) =~= Seq::<char>::empty());
    assert(occurrences(starred.take(0), '"') == 0);
    assert forall|k: int| 0 < k < 1 + gap.len() implies skipped(#[trigger] starred[k]) by {
        assert(starred[k] == gap[k - 1]);
    }
    assert(starred[1 + gap.len() as int] == '*');
    assert(signed_star_at(starred, 0, 1 + gap.len() as int));
    if signed_star(query) {
        let (i, j) = choose|i: int, j: int| signed_star_at(query, i, j);
        assert(query.contains(query[i]) && query.contains(query[j]));
    }
}

/// A sign right behind a letter belongs to a word: white space and a star behind it are no signed
/// star.
pub proof fn law_signs_in_words_are_not_signed_stars(query: Seq<char>, i: int, j: int)
    requires
        0 < i < query.len(),
        ({
            ||| 'a' <= query[i - 1] && query[i - 1] <= 'z'
            ||| 'A' <= query[i - 1] && query[i - 1] <= 'Z'
        }),
    ensures
        !signed_star_at(query, i, j),
{
    assert(query.take(i).last() == query[i - 1]);
}

/// A record that a search is for has everything that is asked for, and a search that asks for
/// nothing is for every record. Times that are given are included.
pub proof fn law_wanted_records_have_what_is_asked_for(options: QueryOptions, record: RecordModel)
    ensures
        wanted(options, record) && options.project is Some ==> record.project
            == options.project->0@,
        wanted(options, record) && options.role is Some ==> record.role == options.role->0@,
        wanted(options, record) && options.tool is Some ==> record.tool_name == Some(
            options.tool->0@,
        ),
        wanted(options, record) && options.session_id is Some ==> record.session_id
            == options.session_id->0@,
        wanted(options, record) && options.source is Some ==> types::admits(
            options.source->0,
            record.source,
        ),
        wanted(options, record) && options.since is Some ==> options.since->0 <= record.ts,
        wanted(options, record) && options.until is Some ==> record.ts <= options.until->0,
        !wanted(options, record) ==> {
            ||| options.project is Some && record.project != options.project->0@
            ||| options.role is Some && record.role != options.role->0@
            ||| options.tool is Some && record.tool_name != Some(options.tool->0@)
            ||| options.session_id is Some && record.session_id != options.session_id->0@
            ||| options.source is Some && !types::admits(options.source->0, record.source)
            ||| options.since is Some && record.ts < options.since->0
            ||| options.until is Some && record.ts > options.until->0
        },
{
}

/// In an index that does not keep the source, a search finds the records that it would find if it
/// did not ask for a source.
pub proof fn law_search_without_a_source_field(
    labels: SourceLabels,
    fields: IndexFields,
    options: QueryOptions,
    record: RecordModel,
)
    requires
        fields.distinct(),
        fields.source is None,
    ensures
        meets_all(
            fields,
            document::document_of(labels, fields, record),
            search_clauses(labels, fields, options),
        ) <==> wanted(QueryOptions { source: None, ..options }, record),
{
    let entries = document::document_of(labels, fields, record);
    document::lemma_document_values(labels, fields, record);
    let c1 = exact_clause(fields.project, text::opt_text(options.project));
    let c2 = exact_clause(fields.role, text::opt_text(options.role));
    let c3 = exact_clause(fields.tool_name, text::opt_text(options.tool));
    let c4 = source_clause(labels, fields, options.source);
    let c5 = exact_clause(fields.session_id, text::opt_text(options.session_id));
    let c6 = time_clause(options.since, options.until);
    lemma_meets_both(fields, entries, c1, c2);
    lemma_meets_both(fields, entries, c1 + c2, c3);
    lemma_meets_both(fields, entries, c1 + c2 + c3, c4);
    lemma_meets_both(fields, entries, c1 + c2 + c3 + c4, c5);
    lemma_meets_both(fields, entries, c1 + c2 + c3 + c4 + c5, c6);
    lemma_meets_exact(fields, entries, fields.project, text::opt_text(options.project));
    lemma_meets_exact(fields, entries, fields.role, text::opt_text(options.role));
    lemma_meets_exact(fields, entries, fields.tool_name, text::opt_text(options.tool));
    let session_id = text::opt_text(options.session_id);
    lemma_meets_exact(fields, entries, fields.session_id, session_id);
    if options.since is Some || options.until is Some {
        assert(meets(fields, entries, c6[0]) <==> meets_all(fields, entries, c6));
    }
}

} // verus!
