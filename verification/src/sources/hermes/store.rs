//! The queries that are put to the message store, and the checkpoint that is taken of it.

use crate::text;
use vstd::prelude::*;

verus! {

broadcast use vstd::string::group_string_axioms;

/// The query for the version of the store's schema.
pub const SCHEMA_VERSION_QUERY: &'static str = "SELECT MAX(version) FROM schema_version";

/// A point in the history of a store.
#[derive(Clone, Copy, Debug, PartialEq, Eq, Structural)]
pub struct Checkpoint {
    /// The last message: appended messages have larger ids.
    pub max_message_id: u64,
    /// Changes whenever messages that were already read may have changed.
    pub generation: u64,
}

impl Default for Checkpoint {
    fn default() -> (r: Self)
        ensures
            r == (Checkpoint { max_message_id: 0, generation: 0 }),
    {
        Checkpoint { max_message_id: 0, generation: 0 }
    }
}

/// Whether a table has a column. `columns` are the names of all of them.
pub fn has_column(columns: &Vec<String>, column: &str) -> (r: bool)
    ensures
        r == text::texts(columns@).contains(column@),
{
    let mut i: usize = 0;
    while i < columns.len()
        invariant
            i <= columns@.len(),
            forall|j: int| 0 <= j < i ==> columns@[j]@ != column@,
        decreases columns@.len() - i,
    {
        if text::same(columns[i].as_str(), column) {
            assert(text::texts(columns@)[i as int] == column@);
            return true;
        }
        i += 1;
    }
    assert(forall|j: int|
        0 <= j < columns@.len() ==> #[trigger] text::texts(columns@)[j] == columns@[j]@);
    false
}

/// The name of a column where there is such a column, otherwise `fallback`.
pub open spec fn column_or(
    columns: Seq<Seq<char>>,
    column: Seq<char>,
    fallback: Seq<char>,
) -> Seq<char> {
    if columns.contains(column) {
        column
    } else {
        fallback
    }
}

/// The name of a column where there is such a column, otherwise `fallback`.
pub fn optional_column(columns: &Vec<String>, column: &str, fallback: &str) -> (r: String)
    ensures
        r@ == column_or(text::texts(columns@), column@, fallback@),
{
    if has_column(columns, column) {
        text::owned(column)
    } else {
        text::owned(fallback)
    }
}

/// The query for the id of the last message that was not taken back.
pub open spec fn last_message_sql(message_columns: Seq<Seq<char>>) -> Seq<char> {
    "SELECT COALESCE(MAX(id), 0) FROM messages"@ + if message_columns.contains("active"@) {
        " WHERE COALESCE(active, 1) != 0"@
    } else {
        seq![]
    }
}

/// The query for the id of the last message that was not taken back.
pub fn last_message_query(message_columns: &Vec<String>) -> (r: String)
    ensures
        r@ == last_message_sql(text::texts(message_columns@)),
{
    let mut sql = text::owned("SELECT COALESCE(MAX(id), 0) FROM messages");
    if has_column(message_columns, "active") {
        sql.append(" WHERE COALESCE(active, 1) != 0");
    }
    assert(sql@ =~= last_message_sql(text::texts(message_columns@)));
    sql
}

/// The query for how often sessions were rewound, where the store counts that.
pub fn rewind_query(session_columns: &Vec<String>) -> (r: Option<&'static str>)
    ensures
        text::opt_str(r) == if text::texts(session_columns@).contains("rewind_count"@) {
            Some("SELECT COALESCE(SUM(rewind_count), 0) FROM sessions"@)
        } else {
            None
        },
{
    if has_column(session_columns, "rewind_count") {
        Some("SELECT COALESCE(SUM(rewind_count), 0) FROM sessions")
    } else {
        None
    }
}

/// The query for the working directory of the session `?1`, where the store has it.
pub fn cwd_query(session_columns: &Vec<String>) -> (r: Option<&'static str>)
    ensures
        text::opt_str(r) == if text::texts(session_columns@).contains("cwd"@) {
            Some("SELECT cwd FROM sessions WHERE id = ?1"@)
        } else {
            None
        },
{
    if has_column(session_columns, "cwd") {
        Some("SELECT cwd FROM sessions WHERE id = ?1")
    } else {
        None
    }
}

/// The working directory of a session. `found` is what the store has of it, `None` where the query
/// failed, gave no row or gave no value: an empty text is no directory.
pub fn session_cwd(found: Option<String>) -> (r: Option<String>)
    ensures
        r == if found is Some && found->0@.len() > 0 {
            found
        } else {
            None
        },
        r is Some ==> r == found && r->0@.len() > 0,
        found is Some && found->0@.len() > 0 ==> r is Some,
{
    match found {
        Some(cwd) => {
            if cwd.as_str().is_empty() {
                None
            } else {
                Some(cwd)
            }
        },
        None => None,
    }
}

/// The place of the id in the answer to [`message_query`].
pub const MESSAGE_ID: usize = 0;

/// The place of the session id in the answer to [`message_query`].
pub const MESSAGE_SESSION_ID: usize = 1;

/// The place of the role in the answer to [`message_query`].
pub const MESSAGE_ROLE: usize = 2;

/// The place of the content in the answer to [`message_query`].
pub const MESSAGE_CONTENT: usize = 3;

/// The place of the tool call id in the answer to [`message_query`].
pub const MESSAGE_TOOL_CALL_ID: usize = 4;

/// The place of the tool calls in the answer to [`message_query`].
pub const MESSAGE_TOOL_CALLS: usize = 5;

/// The place of the tool name in the answer to [`message_query`].
pub const MESSAGE_TOOL_NAME: usize = 6;

/// The place of the timestamp in the answer to [`message_query`].
pub const MESSAGE_TIMESTAMP: usize = 7;

/// The place of the reasoning in the answer to [`message_query`].
pub const MESSAGE_REASONING: usize = 8;

/// The place of the reasoning content in the answer to [`message_query`].
pub const MESSAGE_REASONING_CONTENT: usize = 9;

/// The place of the cwd in the answer to [`message_query`].
pub const MESSAGE_CWD: usize = 10;

/// The place of the parent session id in the answer to [`message_query`].
pub const MESSAGE_PARENT_SESSION_ID: usize = 11;

/// What is asked for of each message, in the order in which it is answered.
pub open spec fn message_expressions(
    message_columns: Seq<Seq<char>>,
    session_columns: Seq<Seq<char>>,
) -> Seq<Seq<char>> {
    seq![
        "m.id"@,
        "m.session_id"@,
        "m.role"@,
        "m.content"@,
        "m.tool_call_id"@,
        "m.tool_calls"@,
        "m.tool_name"@,
        "m.timestamp"@,
        column_or(message_columns, "reasoning"@, "NULL"@),
        column_or(message_columns, "reasoning_content"@, "NULL"@),
        column_or(session_columns, "cwd"@, "NULL"@),
        column_or(session_columns, "parent_session_id"@, "NULL"@),
    ]
}

/// The query for the messages after the id `?1` that were not taken back, in the order of their
/// ids, each with what is known of its session.
pub open spec fn message_sql(
    message_columns: Seq<Seq<char>>,
    session_columns: Seq<Seq<char>>,
) -> Seq<char> {
    "SELECT "@ + text::joined(message_expressions(message_columns, session_columns), ", "@)
        + " FROM messages m LEFT JOIN sessions s ON s.id = m.session_id WHERE m.id > ?1 AND "@
        + if message_columns.contains("active"@) {
        "COALESCE(m.active, 1) != 0"@
    } else {
        "1"@
    } + " ORDER BY m.id"@
}

/// The query for the messages after the id `?1` that were not taken back, in the order of their
/// ids, each with what is known of its session.
pub fn message_query(message_columns: &Vec<String>, session_columns: &Vec<String>) -> (r: String)
    ensures
        r@ == message_sql(text::texts(message_columns@), text::texts(session_columns@)),
{
    let expressions: Vec<String> = vec![
        text::owned("m.id"),
        text::owned("m.session_id"),
        text::owned("m.role"),
        text::owned("m.content"),
        text::owned("m.tool_call_id"),
        text::owned("m.tool_calls"),
        text::owned("m.tool_name"),
        text::owned("m.timestamp"),
        optional_column(message_columns, "reasoning", "NULL"),
        optional_column(message_columns, "reasoning_content", "NULL"),
        optional_column(session_columns, "cwd", "NULL"),
        optional_column(session_columns, "parent_session_id", "NULL"),
    ];
    assert(text::texts(expressions@) =~= message_expressions(
        text::texts(message_columns@),
        text::texts(session_columns@),
    ));
    let mut sql = text::owned("SELECT ");
    sql.append(text::join(&expressions, ", ").as_str());
    sql.append(" FROM messages m LEFT JOIN sessions s ON s.id = m.session_id WHERE m.id > ?1 AND ");
    if has_column(message_columns, "active") {
        sql.append("COALESCE(m.active, 1) != 0");
    } else {
        sql.append("1");
    }
    sql.append(" ORDER BY m.id");
    sql
}

/// Each part of a message is answered in the place that is named after it.
pub proof fn law_message_places(message_columns: Seq<Seq<char>>, session_columns: Seq<Seq<char>>)
    ensures
        ({
            let asked = message_expressions(message_columns, session_columns);
            &&& asked.len() == 12
            &&& asked[MESSAGE_ID as int] == "m.id"@
            &&& asked[MESSAGE_SESSION_ID as int] == "m.session_id"@
            &&& asked[MESSAGE_ROLE as int] == "m.role"@
            &&& asked[MESSAGE_CONTENT as int] == "m.content"@
            &&& asked[MESSAGE_TOOL_CALL_ID as int] == "m.tool_call_id"@
            &&& asked[MESSAGE_TOOL_CALLS as int] == "m.tool_calls"@
            &&& asked[MESSAGE_TOOL_NAME as int] == "m.tool_name"@
            &&& asked[MESSAGE_TIMESTAMP as int] == "m.timestamp"@
            &&& asked[MESSAGE_REASONING as int] == column_or(message_columns, "reasoning"@, "NULL"@)
            &&& asked[MESSAGE_REASONING_CONTENT as int] == column_or(
                message_columns,
                "reasoning_content"@,
                "NULL"@,
            )
            &&& asked[MESSAGE_CWD as int] == column_or(session_columns, "cwd"@, "NULL"@)
            &&& asked[MESSAGE_PARENT_SESSION_ID as int] == column_or(
                session_columns,
                "parent_session_id"@,
                "NULL"@,
            )
        }),
{
}

/// A message id as a query takes it: ids that do not fit count as the largest that does.
pub fn query_id(id: u64) -> (r: i64)
    ensures
        r == if id > i64::MAX {
            i64::MAX as int
        } else {
            id as int
        },
        id <= i64::MAX ==> r == id,
        id > i64::MAX ==> r == i64::MAX,
        r >= 0,
{
    if id > i64::MAX as u64 {
        i64::MAX
    } else {
        id as i64
    }
}

/// A number out of the store as a count: one below zero counts as zero.
pub open spec fn count_of(stored: i64) -> u64 {
    if stored < 0 {
        0
    } else {
        stored as u64
    }
}

/// A number out of the store as a count: one below zero counts as zero.
pub fn stored_count(stored: i64) -> (r: u64)
    ensures
        r == count_of(stored),
{
    if stored < 0 {
        0
    } else {
        stored as u64
    }
}

/// What a query found as a count, where one that found nothing counts as zero.
pub open spec fn found_count(found: Option<i64>) -> u64 {
    match found {
        Some(stored) => count_of(stored),
        None => 0,
    }
}

/// The generation of a store: the schema version with its halves exchanged, combined bit by bit
/// with how often sessions were rewound.
pub open spec fn generation_of(schema_version: u64, rewinds: u64) -> u64 {
    ((schema_version << 32u64) | (schema_version >> 32u64)) ^ rewinds
}

/// The checkpoint that the answers of a store make.
pub open spec fn checkpoint_of(
    max_message_id: Option<i64>,
    schema_version: Option<i64>,
    rewinds: Option<i64>,
) -> Checkpoint {
    Checkpoint {
        max_message_id: found_count(max_message_id),
        generation: generation_of(found_count(schema_version), found_count(rewinds)),
    }
}

/// The checkpoint of a store, out of its answers to [`last_message_query`],
/// [`SCHEMA_VERSION_QUERY`] and [`rewind_query`]. An answer is `None` where the query failed, gave
/// no value or is not put.
pub fn checkpoint(
    max_message_id: Option<i64>,
    schema_version: Option<i64>,
    rewinds: Option<i64>,
) -> (r: Checkpoint)
    ensures
        r == checkpoint_of(max_message_id, schema_version, rewinds),
{
    let max_message_id: u64 = match max_message_id {
        Some(stored) => stored_count(stored),
        None => 0,
    };
    let version: u64 = match schema_version {
        Some(stored) => stored_count(stored),
        None => 0,
    };
    let rewinds: u64 = match rewinds {
        Some(stored) => stored_count(stored),
        None => 0,
    };
    Checkpoint { max_message_id, generation: ((version << 32u64) | (version >> 32u64)) ^ rewinds }
}

/// Appending messages moves a checkpoint forward without a change of generation.
pub proof fn law_appends_keep_generation(
    before: i64,
    after: i64,
    schema_version: Option<i64>,
    rewinds: Option<i64>,
)
    requires
        0 <= before <= after,
    ensures
        ({
            let old_point = checkpoint_of(Some(before), schema_version, rewinds);
            let new_point = checkpoint_of(Some(after), schema_version, rewinds);
            &&& old_point.max_message_id == before
            &&& new_point.max_message_id == after
            &&& old_point.generation == new_point.generation
        }),
{
}

/// A rewind changes the generation, whatever happens to the messages.
pub proof fn law_rewinds_change_generation(
    last: Option<i64>,
    other_last: Option<i64>,
    schema_version: Option<i64>,
    rewinds: i64,
    more_rewinds: i64,
)
    requires
        0 <= rewinds < more_rewinds,
    ensures
        checkpoint_of(last, schema_version, Some(rewinds)).generation != checkpoint_of(
            other_last,
            schema_version,
            Some(more_rewinds),
        ).generation,
{
    let v = found_count(schema_version);
    let a = rewinds as u64;
    let b = more_rewinds as u64;
    assert(a != b ==> ((v << 32u64) | (v >> 32u64)) ^ a != ((v << 32u64) | (v >> 32u64)) ^ b)
        by (bit_vector);
}

/// A new schema version changes the generation.
pub proof fn law_schema_versions_change_generation(
    last: Option<i64>,
    other_last: Option<i64>,
    schema_version: i64,
    later_version: i64,
    rewinds: Option<i64>,
)
    requires
        0 <= schema_version < later_version,
    ensures
        checkpoint_of(last, Some(schema_version), rewinds).generation != checkpoint_of(
            other_last,
            Some(later_version),
            rewinds,
        ).generation,
{
    let a = schema_version as u64;
    let b = later_version as u64;
    let r = found_count(rewinds);
    assert(a != b ==> ((a << 32u64) | (a >> 32u64)) ^ r != ((b << 32u64) | (b >> 32u64)) ^ r)
        by (bit_vector);
}

/// A count that is stored is the count, and what is below zero or was not found counts as none.
pub proof fn law_counts_are_kept(stored: i64)
    ensures
        stored >= 0 ==> count_of(stored) == stored,
        stored < 0 ==> count_of(stored) == 0,
        found_count(Some(stored)) == count_of(stored),
        found_count(None) == 0,
{
}

/// The generation of a store holds how often sessions were rewound in its lower half and the
/// version of its schema in its upper half, where both fit.
pub proof fn law_generation_holds_version_and_rewinds(schema_version: u64, rewinds: u64)
    requires
        schema_version < 0x1_0000_0000,
        rewinds < 0x1_0000_0000,
    ensures
        generation_of(schema_version, rewinds) / 0x1_0000_0000 == schema_version,
        generation_of(schema_version, rewinds) % 0x1_0000_0000 == rewinds,
{
    let v = schema_version;
    let r = rewinds;
    let g = generation_of(v, r);
    assert((((v << 32u64) | (v >> 32u64)) ^ r) / 0x1_0000_0000 == v && (((v << 32u64) | (v
        >> 32u64)) ^ r) % 0x1_0000_0000 == r) by (bit_vector)
        requires
            v < 0x1_0000_0000,
            r < 0x1_0000_0000,
    ;
}

/// A column is asked for by its name where the table has it.
pub proof fn law_columns_are_asked_for_where_they_are(
    columns: Seq<Seq<char>>,
    column: Seq<char>,
    fallback: Seq<char>,
)
    ensures
        columns.contains(column) ==> column_or(columns, column, fallback) == column,
        !columns.contains(column) ==> column_or(columns, column, fallback) == fallback,
{
}

/// A part of a text that was put together occurs in it.
proof fn lemma_part_occurs(before: Seq<char>, part: Seq<char>, after: Seq<char>)
    ensures
        text::occurs(before + part + after, part),
{
    let at = before.len() as int;
    assert((before + part + after).subrange(at, at + part.len()) =~= part);
    assert(text::occurs_at(before + part + after, part, at));
}

/// Messages are read in the order of their ids, only those after the id that is given, and, where
/// the store marks messages that were taken back, only those that were not.
pub proof fn law_messages_are_read_in_order(
    message_columns: Seq<Seq<char>>,
    session_columns: Seq<Seq<char>>,
)
    ensures
        ({
            let sql = message_sql(message_columns, session_columns);
            &&& "SELECT "@.is_prefix_of(sql)
            &&& " ORDER BY m.id"@.is_suffix_of(sql)
            &&& text::occurs(
                sql,
                " FROM messages m LEFT JOIN sessions s ON s.id = m.session_id WHERE m.id > ?1 AND "@,
            )
            &&& text::occurs(
                sql,
                text::joined(message_expressions(message_columns, session_columns), ", "@),
            )
            &&& message_columns.contains("active"@) ==> text::occurs(
                sql,
                "COALESCE(m.active, 1) != 0"@,
            )
        }),
{
    let head = "SELECT "@;
    let asked = text::joined(message_expressions(message_columns, session_columns), ", "@);
    let from =
        " FROM messages m LEFT JOIN sessions s ON s.id = m.session_id WHERE m.id > ?1 AND "@;
    let kept = if message_columns.contains("active"@) {
        "COALESCE(m.active, 1) != 0"@
    } else {
        "1"@
    };
    let order = " ORDER BY m.id"@;
    let sql = message_sql(message_columns, session_columns);
    assert(sql.subrange(0, head.len() as int) =~= head);
    assert(sql.subrange(sql.len() - order.len(), sql.len() as int) =~= order);
    assert(sql =~= (head + asked) + from + (kept + order));
    lemma_part_occurs(head + asked, from, kept + order);
    assert(sql =~= head + asked + (from + kept + order));
    lemma_part_occurs(head, asked, from + kept + order);
    assert(sql =~= (head + asked + from) + kept + order);
    lemma_part_occurs(head + asked + from, kept, order);
}

/// The last message is looked for among those that were not taken back, where the store marks
/// these.
pub proof fn law_last_message_was_not_taken_back(message_columns: Seq<Seq<char>>)
    ensures
        ({
            let all = "SELECT COALESCE(MAX(id), 0) FROM messages"@;
            let sql = last_message_sql(message_columns);
            &&& all.is_prefix_of(sql)
            &&& message_columns.contains("active"@)
                ==> " WHERE COALESCE(active, 1) != 0"@.is_suffix_of(sql)
            &&& !message_columns.contains("active"@) ==> sql == all
        }),
{
    let all = "SELECT COALESCE(MAX(id), 0) FROM messages"@;
    let kept = " WHERE COALESCE(active, 1) != 0"@;
    let sql = last_message_sql(message_columns);
    assert(sql.subrange(0, all.len() as int) =~= all);
    if message_columns.contains("active"@) {
        assert(sql.subrange(sql.len() - kept.len(), sql.len() as int) =~= kept);
    } else {
        assert(sql =~= all);
    }
}

} // verus!
