//! The usage projection: session rows become usage events.

use crate::sources::hermes::store;
use crate::text;
use crate::usage;
use crate::usage::{TokenBuckets, UsageEvent, UsageModel};
use vstd::prelude::*;

verus! {

broadcast use vstd::string::group_string_axioms;

/// A row of the session table. `C` is the type of a cost.
#[derive(Debug)]
pub struct UsageRow<C> {
    pub session_id: String,
    /// The end of the session, or else its start, in milliseconds since the Unix epoch.
    pub timestamp_ms: u64,
    pub cwd: Option<String>,
    pub billing_provider: Option<String>,
    pub model: Option<String>,
    pub input_tokens: i64,
    pub cache_read_tokens: i64,
    pub cache_write_tokens: i64,
    pub output_tokens: i64,
    pub reasoning_tokens: i64,
    pub actual_cost_usd: Option<C>,
    pub estimated_cost_usd: Option<C>,
    pub parent_session_id: Option<String>,
}

/// The place of the session id in the answer to [`usage_query`].
pub const USAGE_SESSION_ID: usize = 0;

/// The place of the timestamp in the answer to [`usage_query`].
pub const USAGE_TIMESTAMP: usize = 1;

/// The place of the cwd in the answer to [`usage_query`].
pub const USAGE_CWD: usize = 2;

/// The place of the billing provider in the answer to [`usage_query`].
pub const USAGE_BILLING_PROVIDER: usize = 3;

/// The place of the model in the answer to [`usage_query`].
pub const USAGE_MODEL: usize = 4;

/// The place of the input tokens in the answer to [`usage_query`].
pub const USAGE_INPUT_TOKENS: usize = 5;

/// The place of the cache read tokens in the answer to [`usage_query`].
pub const USAGE_CACHE_READ_TOKENS: usize = 6;

/// The place of the cache write tokens in the answer to [`usage_query`].
pub const USAGE_CACHE_WRITE_TOKENS: usize = 7;

/// The place of the output tokens in the answer to [`usage_query`].
pub const USAGE_OUTPUT_TOKENS: usize = 8;

/// The place of the reasoning tokens in the answer to [`usage_query`].
pub const USAGE_REASONING_TOKENS: usize = 9;

/// The place of the actual cost in the answer to [`usage_query`].
pub const USAGE_ACTUAL_COST: usize = 10;

/// The place of the estimated cost in the answer to [`usage_query`].
pub const USAGE_ESTIMATED_COST: usize = 11;

/// The place of the parent session id in the answer to [`usage_query`].
pub const USAGE_PARENT_SESSION_ID: usize = 12;

/// When a session ended, or else started.
pub open spec fn ending(columns: Seq<Seq<char>>) -> Seq<char> {
    if columns.contains("ended_at"@) {
        "COALESCE(ended_at, started_at)"@
    } else {
        "started_at"@
    }
}

/// What is asked for of each session, in the order in which it is answered.
pub open spec fn usage_expressions(columns: Seq<Seq<char>>) -> Seq<Seq<char>> {
    seq![
        "id"@,
        ending(columns),
        store::column_or(columns, "cwd"@, "NULL"@),
        store::column_or(columns, "billing_provider"@, "NULL"@),
        store::column_or(columns, "model"@, "NULL"@),
        store::column_or(columns, "input_tokens"@, "0"@),
        store::column_or(columns, "cache_read_tokens"@, "0"@),
        store::column_or(columns, "cache_write_tokens"@, "0"@),
        store::column_or(columns, "output_tokens"@, "0"@),
        store::column_or(columns, "reasoning_tokens"@, "0"@),
        store::column_or(columns, "actual_cost_usd"@, "NULL"@),
        store::column_or(columns, "estimated_cost_usd"@, "NULL"@),
        store::column_or(columns, "parent_session_id"@, "NULL"@),
    ]
}

/// The query for all sessions, from the earliest to the latest.
pub open spec fn usage_sql(columns: Seq<Seq<char>>) -> Seq<char> {
    "SELECT "@ + text::joined(usage_expressions(columns), ", "@)
        + " FROM sessions ORDER BY started_at, id"@
}

/// The query for all sessions, from the earliest to the latest.
pub fn usage_query(columns: &Vec<String>) -> (r: String)
    ensures
        r@ == usage_sql(text::texts(columns@)),
{
    let ended = if store::has_column(columns, "ended_at") {
        text::owned("COALESCE(ended_at, started_at)")
    } else {
        text::owned("started_at")
    };
    let expressions: Vec<String> = vec![
        text::owned("id"),
        ended,
        store::optional_column(columns, "cwd", "NULL"),
        store::optional_column(columns, "billing_provider", "NULL"),
        store::optional_column(columns, "model", "NULL"),
        store::optional_column(columns, "input_tokens", "0"),
        store::optional_column(columns, "cache_read_tokens", "0"),
        store::optional_column(columns, "cache_write_tokens", "0"),
        store::optional_column(columns, "output_tokens", "0"),
        store::optional_column(columns, "reasoning_tokens", "0"),
        store::optional_column(columns, "actual_cost_usd", "NULL"),
        store::optional_column(columns, "estimated_cost_usd", "NULL"),
        store::optional_column(columns, "parent_session_id", "NULL"),
    ];
    assert(text::texts(expressions@) =~= usage_expressions(text::texts(columns@)));
    let mut sql = text::owned("SELECT ");
    sql.append(text::join(&expressions, ", ").as_str());
    sql.append(" FROM sessions ORDER BY started_at, id");
    sql
}

/// Each part of a session is answered in the place that is named after it.
pub proof fn law_usage_places(columns: Seq<Seq<char>>)
    ensures
        ({
            let asked = usage_expressions(columns);
            &&& asked.len() == 13
            &&& asked[USAGE_SESSION_ID as int] == "id"@
            &&& asked[USAGE_TIMESTAMP as int] == ending(columns)
            &&& asked[USAGE_CWD as int] == store::column_or(columns, "cwd"@, "NULL"@)
            &&& asked[USAGE_BILLING_PROVIDER as int] == store::column_or(
                columns,
                "billing_provider"@,
                "NULL"@,
            )
            &&& asked[USAGE_MODEL as int] == store::column_or(columns, "model"@, "NULL"@)
            &&& asked[USAGE_INPUT_TOKENS as int] == store::column_or(columns, "input_tokens"@, "0"@)
            &&& asked[USAGE_CACHE_READ_TOKENS as int] == store::column_or(
                columns,
                "cache_read_tokens"@,
                "0"@,
            )
            &&& asked[USAGE_CACHE_WRITE_TOKENS as int] == store::column_or(
                columns,
                "cache_write_tokens"@,
                "0"@,
            )
            &&& asked[USAGE_OUTPUT_TOKENS as int] == store::column_or(
                columns,
                "output_tokens"@,
                "0"@,
            )
            &&& asked[USAGE_REASONING_TOKENS as int] == store::column_or(
                columns,
                "reasoning_tokens"@,
                "0"@,
            )
            &&& asked[USAGE_ACTUAL_COST as int] == store::column_or(
                columns,
                "actual_cost_usd"@,
                "NULL"@,
            )
            &&& asked[USAGE_ESTIMATED_COST as int] == store::column_or(
                columns,
                "estimated_cost_usd"@,
                "NULL"@,
            )
            &&& asked[USAGE_PARENT_SESSION_ID as int] == store::column_or(
                columns,
                "parent_session_id"@,
                "NULL"@,
            )
        }),
{
}

/// The token counts of a session: no more reasoning than output.
pub open spec fn tokens_of<C>(row: UsageRow<C>) -> TokenBuckets {
    let output = store::count_of(row.output_tokens);
    let reasoning = store::count_of(row.reasoning_tokens);
    TokenBuckets {
        input: store::count_of(row.input_tokens),
        cache_read: store::count_of(row.cache_read_tokens),
        cache_write: store::count_of(row.cache_write_tokens),
        output,
        reasoning: if reasoning > output {
            output
        } else {
            reasoning
        },
    }
}

/// The usage event of a session.
pub open spec fn event_of<C>(source_path: Seq<char>, row: UsageRow<C>) -> UsageModel<C> {
    UsageModel {
        source: "hermes"@,
        source_path,
        source_record_id: Some("session:"@ + row.session_id@),
        session_id: Some(row.session_id@),
        request_id: None,
        message_id: None,
        timestamp_ms: row.timestamp_ms,
        project: text::opt_text(row.cwd),
        provider: text::opt_text(row.billing_provider),
        model: text::opt_text(row.model),
        tokens: tokens_of(row),
        source_cost_usd: if row.actual_cost_usd is Some {
            row.actual_cost_usd
        } else {
            row.estimated_cost_usd
        },
        dedupe_confidence: "exact"@,
        conservative_undercount: false,
        sidechain: row.parent_session_id is Some,
        source_order: 0,
    }
}

/// The usage event of a session.
pub fn usage_event<C>(source_path: &str, row: UsageRow<C>) -> (r: UsageEvent<C>)
    ensures
        r@ == event_of(source_path@, row),
        0 <= row.reasoning_tokens <= row.output_tokens ==> r.tokens.reasoning
            == row.reasoning_tokens,
        row.reasoning_tokens > row.output_tokens ==> r.tokens.reasoning == r.tokens.output,
        row.output_tokens >= 0 ==> r.tokens.output == row.output_tokens,
        row.input_tokens >= 0 ==> r.tokens.input == row.input_tokens,
        row.cache_read_tokens >= 0 ==> r.tokens.cache_read == row.cache_read_tokens,
        row.cache_write_tokens >= 0 ==> r.tokens.cache_write == row.cache_write_tokens,
{
    let output: u64 = store::stored_count(row.output_tokens);
    let reasoning: u64 = store::stored_count(row.reasoning_tokens);
    let mut tokens = TokenBuckets::disjoint(
        store::stored_count(row.input_tokens),
        store::stored_count(row.cache_read_tokens),
        store::stored_count(row.cache_write_tokens),
        output,
    );
    tokens.reasoning = if reasoning > output {
        output
    } else {
        reasoning
    };
    let mut record_id = text::owned("session:");
    record_id.append(row.session_id.as_str());
    let sidechain = row.parent_session_id.is_some();
    let source_cost_usd = if row.actual_cost_usd.is_some() {
        row.actual_cost_usd
    } else {
        row.estimated_cost_usd
    };
    let r = UsageEvent {
        source: "hermes",
        source_path: text::owned(source_path),
        source_record_id: Some(record_id),
        session_id: Some(row.session_id),
        request_id: None,
        message_id: None,
        timestamp_ms: row.timestamp_ms,
        project: row.cwd,
        provider: row.billing_provider,
        model: row.model,
        tokens,
        source_cost_usd,
        dedupe_confidence: "exact",
        conservative_undercount: false,
        sidechain,
        source_order: 0,
    };
    assert(r@ =~= event_of(source_path@, row));
    r
}

/// The events of the sessions that used any tokens, in the order of the rows.
pub open spec fn events_of<C>(source_path: Seq<char>, rows: Seq<UsageRow<C>>) -> Seq<
    UsageModel<C>,
>
    decreases rows.len(),
{
    if rows.len() == 0 {
        seq![]
    } else {
        let before = events_of(source_path, rows.drop_last());
        let event = event_of(source_path, rows.last());
        if event.tokens.sum() > 0 {
            before.push(event)
        } else {
            before
        }
    }
}

/// The events of the sessions that used any tokens, in the order of the rows.
pub fn parse_usage_file<C>(source_path: &str, rows: Vec<UsageRow<C>>) -> (r: Vec<UsageEvent<C>>)
    ensures
        usage::usage_model(r@) == events_of(source_path@, rows@),
{
    let mut events: Vec<UsageEvent<C>> = Vec::new();
    assert(rows@.take(0) =~= seq![]);
    assert(usage::usage_model(events@) =~= seq![]);
    for row in it: rows
        invariant
            it.seq() == rows@,
            usage::usage_model(events@) == events_of(source_path@, rows@.take(it.index() as int)),
    {
        let ghost index = it.index() as int;
        assert(rows@.take(index + 1).drop_last() =~= rows@.take(index));
        assert(rows@.take(index + 1).last() == row);
        let event = usage_event(source_path, row);
        if event.tokens.additive_total() > 0 {
            let ghost before = events@;
            events.push(event);
            assert(usage::usage_model(events@) =~= usage::usage_model(before).push(event@));
        }
    }
    assert(rows@.take(rows@.len() as int) =~= rows@);
    events
}

/// A session is reported, and as its row says, just when it used any tokens.
pub proof fn law_usage_is_of_sessions<C>(
    source_path: Seq<char>,
    rows: Seq<UsageRow<C>>,
    event: UsageModel<C>,
)
    ensures
        events_of(source_path, rows).contains(event) <==> (event.tokens.sum() > 0 && exists|i: int|
            0 <= i < rows.len() && event == event_of(source_path, #[trigger] rows[i])),
    decreases rows.len(),
{
    let events = events_of(source_path, rows);
    if rows.len() > 0 {
        let rest = rows.drop_last();
        let before = events_of(source_path, rest);
        let last = event_of(source_path, rows.last());
        law_usage_is_of_sessions(source_path, rest, event);
        if events.contains(event) {
            let i = choose|i: int| 0 <= i < events.len() && events[i] == event;
            if i < before.len() {
                assert(before[i] == event);
                let k = choose|k: int|
                    0 <= k < rest.len() && event == event_of(source_path, #[trigger] rest[k]);
                assert(event == event_of(source_path, rows[k]));
            } else {
                assert(event == event_of(source_path, rows[rows.len() - 1]));
            }
        }
        if event.tokens.sum() > 0 && exists|i: int|
            0 <= i < rows.len() && event == event_of(source_path, #[trigger] rows[i]) {
            let i = choose|i: int|
                0 <= i < rows.len() && event == event_of(source_path, #[trigger] rows[i]);
            if i < rest.len() {
                assert(event == event_of(source_path, rest[i]));
                let k = choose|k: int| 0 <= k < before.len() && before[k] == event;
                assert(events[k] == event);
            } else {
                assert(events[before.len() as int] == event);
            }
        }
    }
}

/// Reasoning is never more than the output that it is a part of.
pub proof fn law_reasoning_is_part_of_output<C>(row: UsageRow<C>)
    ensures
        tokens_of(row).reasoning <= tokens_of(row).output,
{
}

/// Tokens are counted as the row counts them, and a count below zero as none. Reasoning is counted
/// as the row counts it up to the output, and as the output beyond that.
pub proof fn law_tokens_are_those_of_the_row<C>(row: UsageRow<C>)
    ensures
        ({
            let tokens = tokens_of(row);
            &&& row.input_tokens >= 0 ==> tokens.input == row.input_tokens
            &&& row.input_tokens < 0 ==> tokens.input == 0
            &&& row.cache_read_tokens >= 0 ==> tokens.cache_read == row.cache_read_tokens
            &&& row.cache_read_tokens < 0 ==> tokens.cache_read == 0
            &&& row.cache_write_tokens >= 0 ==> tokens.cache_write == row.cache_write_tokens
            &&& row.cache_write_tokens < 0 ==> tokens.cache_write == 0
            &&& row.output_tokens >= 0 ==> tokens.output == row.output_tokens
            &&& row.output_tokens < 0 ==> tokens.output == 0
            &&& 0 <= row.reasoning_tokens <= row.output_tokens ==> tokens.reasoning
                == row.reasoning_tokens
            &&& row.reasoning_tokens > row.output_tokens ==> tokens.reasoning == tokens.output
            &&& row.reasoning_tokens < 0 ==> tokens.reasoning == 0
        }),
{
}

/// An event says of a session what its row says, reports the cost that was billed rather than the
/// one that was estimated, and counts a session with a parent as a side chain.
pub proof fn law_event_says_what_the_row_says<C>(source_path: Seq<char>, row: UsageRow<C>)
    ensures
        ({
            let event = event_of(source_path, row);
            &&& event.source == "hermes"@
            &&& event.source_path == source_path
            &&& event.session_id == Some(row.session_id@)
            &&& event.timestamp_ms == row.timestamp_ms
            &&& event.project == text::opt_text(row.cwd)
            &&& event.provider == text::opt_text(row.billing_provider)
            &&& event.model == text::opt_text(row.model)
            &&& event.tokens == tokens_of(row)
            &&& row.actual_cost_usd is Some ==> event.source_cost_usd == row.actual_cost_usd
            &&& row.actual_cost_usd is None ==> event.source_cost_usd == row.estimated_cost_usd
            &&& event.sidechain <==> row.parent_session_id is Some
            &&& event.source_record_id is Some
            &&& event.dedupe_confidence == "exact"@ && !event.conservative_undercount
            &&& event.request_id is None && event.message_id is None && event.source_order == 0
        }),
{
}

/// A session is reported just when its row counts any input, cache or output tokens, and then by
/// one event.
pub proof fn law_sessions_with_tokens_are_reported<C>(source_path: Seq<char>, row: UsageRow<C>)
    ensures
        ({
            let used = row.input_tokens > 0 || row.cache_read_tokens > 0 || row.cache_write_tokens
                > 0 || row.output_tokens > 0;
            events_of(source_path, seq![row]) == if used {
                seq![event_of(source_path, row)]
            } else {
                seq![]
            }
        }),
{
    assert(seq![row].drop_last() =~= seq![]);
    let events = events_of(source_path, seq![row]);
    assert(events_of(source_path, Seq::<UsageRow<C>>::empty()) =~= seq![]);
    if event_of(source_path, row).tokens.sum() > 0 {
        assert(events =~= seq![event_of(source_path, row)]);
    }
}

/// What is reported of a session does not depend on the sessions around it, and sessions are
/// reported in the order of their rows.
pub proof fn law_usage_of_rows_adds_up<C>(
    source_path: Seq<char>,
    rows: Seq<UsageRow<C>>,
    more: Seq<UsageRow<C>>,
)
    ensures
        events_of(source_path, rows + more) == events_of(source_path, rows) + events_of(
            source_path,
            more,
        ),
    decreases more.len(),
{
    if more.len() == 0 {
        assert(rows + more =~= rows);
    } else {
        law_usage_of_rows_adds_up(source_path, rows, more.drop_last());
        assert((rows + more).drop_last() =~= rows + more.drop_last());
        assert((rows + more).last() == more.last());
    }
    assert(events_of(source_path, rows + more) =~= events_of(source_path, rows) + events_of(
        source_path,
        more,
    ));
}

/// Different sessions have different record ids.
pub proof fn law_record_ids_tell_sessions_apart<C>(
    source_path: Seq<char>,
    a: UsageRow<C>,
    b: UsageRow<C>,
)
    requires
        event_of(source_path, a).source_record_id == event_of(source_path, b).source_record_id,
    ensures
        a.session_id@ == b.session_id@,
{
    let prefix = "session:"@;
    assert((prefix + a.session_id@).skip(prefix.len() as int) =~= a.session_id@);
    assert((prefix + b.session_id@).skip(prefix.len() as int) =~= b.session_id@);
}

/// Sessions are reported from the earliest to the latest, at the time at which they ended, where
/// the store knows it, and otherwise started.
pub proof fn law_sessions_are_read_in_order(columns: Seq<Seq<char>>)
    ensures
        ({
            let sql = usage_sql(columns);
            &&& "SELECT "@.is_prefix_of(sql)
            &&& " FROM sessions ORDER BY started_at, id"@.is_suffix_of(sql)
            &&& text::occurs(sql, text::joined(usage_expressions(columns), ", "@))
            &&& sql.len() == "SELECT "@.len() + text::joined(
                usage_expressions(columns),
                ", "@,
            ).len() + " FROM sessions ORDER BY started_at, id"@.len()
            &&& columns.contains("ended_at"@) ==> ending(columns)
                == "COALESCE(ended_at, started_at)"@
            &&& !columns.contains("ended_at"@) ==> ending(columns) == "started_at"@
        }),
{
    let head = "SELECT "@;
    let asked = text::joined(usage_expressions(columns), ", "@);
    let tail = " FROM sessions ORDER BY started_at, id"@;
    let sql = usage_sql(columns);
    assert(sql.subrange(0, head.len() as int) =~= head);
    assert(sql.subrange(sql.len() - tail.len(), sql.len() as int) =~= tail);
    assert(sql.subrange(head.len() as int, (head.len() + asked.len()) as int) =~= asked);
    assert(text::occurs_at(sql, asked, head.len() as int));
}

} // verus!
