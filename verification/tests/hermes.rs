use memex::json;
use memex::sources::hermes::calls::{
    json_text, parse_tool_call, plan_tool_calls, settle, ToolCall,
};
use memex::sources::hermes::content::{content_text, is_encrypted_reasoning};
use memex::sources::hermes::parse::parse_index_records;
use memex::sources::hermes::projection::find_pending_call;
use memex::sources::hermes::store::{
    checkpoint, cwd_query, last_message_query, message_query, optional_column, query_id,
    rewind_query, session_cwd, stored_count, Checkpoint, MESSAGE_CONTENT, MESSAGE_CWD,
    MESSAGE_ID, MESSAGE_PARENT_SESSION_ID, MESSAGE_REASONING, MESSAGE_REASONING_CONTENT,
    MESSAGE_ROLE, MESSAGE_SESSION_ID, MESSAGE_TIMESTAMP, MESSAGE_TOOL_CALLS,
    MESSAGE_TOOL_CALL_ID, MESSAGE_TOOL_NAME, SCHEMA_VERSION_QUERY,
};
use memex::sources::hermes::usage::{
    parse_usage_file, usage_query, UsageRow, USAGE_ACTUAL_COST, USAGE_BILLING_PROVIDER,
    USAGE_CACHE_READ_TOKENS, USAGE_CACHE_WRITE_TOKENS, USAGE_CWD, USAGE_ESTIMATED_COST,
    USAGE_INPUT_TOKENS, USAGE_MODEL, USAGE_OUTPUT_TOKENS, USAGE_PARENT_SESSION_ID,
    USAGE_REASONING_TOKENS, USAGE_SESSION_ID, USAGE_TIMESTAMP,
};
use memex::sources::hermes::{
    database_path, discover, home, matches_path, matches_store, MessageRow,
};
use memex::sources::{IndexParseOutput, IndexParseState, ParseDiagnostics};
use memex::state::PendingToolCall;
use memex::text_map::TextMap;
use memex::types::{Record, SourceKind};
use memex::usage::UsageEvent;
use rusqlite::Connection;
use std::path::PathBuf;

const SCHEMA: &str = "
    CREATE TABLE schema_version(version INTEGER);
    INSERT INTO schema_version VALUES (3);
    CREATE TABLE sessions(
        id TEXT PRIMARY KEY, started_at REAL, ended_at REAL, cwd TEXT, billing_provider TEXT,
        model TEXT, input_tokens INTEGER, cache_read_tokens INTEGER, cache_write_tokens INTEGER,
        output_tokens INTEGER, reasoning_tokens INTEGER, actual_cost_usd REAL,
        estimated_cost_usd REAL, parent_session_id TEXT, rewind_count INTEGER DEFAULT 0);
    CREATE TABLE messages(
        id INTEGER PRIMARY KEY, session_id TEXT, role TEXT, content TEXT, tool_call_id TEXT,
        tool_calls TEXT, tool_name TEXT, timestamp REAL, reasoning TEXT, reasoning_content TEXT,
        active INTEGER DEFAULT 1);
    INSERT INTO sessions(id, started_at, cwd, billing_provider, model, input_tokens,
        cache_read_tokens, cache_write_tokens, output_tokens, reasoning_tokens, actual_cost_usd,
        estimated_cost_usd)
    VALUES ('hermes-session', 1783000000.0, '/work/project', 'provider', 'model', 100, 20, 5, 50,
        500, 0.03, 0.05);
    INSERT INTO sessions(id, started_at, cwd, input_tokens, cache_read_tokens,
        cache_write_tokens, output_tokens, reasoning_tokens, parent_session_id)
    VALUES ('hermes-idle', 1783000100.0, '', 0, 0, 0, -3, 0, 'hermes-session');
";

fn fixture_store() -> Connection {
    let connection = Connection::open_in_memory().unwrap();
    connection.execute_batch(SCHEMA).unwrap();
    let say = |id: i64, role: &str, content: &str, active: i64| {
        connection
            .execute(
                "INSERT INTO messages(id, session_id, role, content, timestamp, active)
                 VALUES (?1, 'hermes-session', ?2, ?3, 1783000000.0 + ?1 - 100, ?4)",
                (id, role, content, active),
            )
            .unwrap();
    };
    say(101, "user", "Where am I?", 1);
    say(102, "assistant", "Let me look.", 1);
    say(103, "tool", "/work/project", 1);
    say(104, "user", "a rewound question", 0);
    say(105, "user", "\u{0}json:[{\"type\":\"image\"},{\"type\":\"text\",\"text\":\"Visible multimodal text\"}]", 1);
    say(106, "assistant", "a rewound answer", 0);
    say(107, "assistant", "Visible encrypted-reasoning answer", 1);
    connection
        .execute(
            "UPDATE messages SET reasoning = ?1, tool_calls = ?2 WHERE id = 102",
            (
                "  Check the working directory. ",
                r#"[{"id":"call-hermes-1","function":{"name":"terminal","arguments":"{\"command\":\"pwd\"}"}}]"#,
            ),
        )
        .unwrap();
    connection
        .execute("UPDATE messages SET tool_call_id = 'call-hermes-1' WHERE id = 103", ())
        .unwrap();
    connection
        .execute(
            "UPDATE messages SET reasoning_content = ?1 WHERE id = 107",
            (r#"{"type":"encrypted_reasoning","data":"ciphertext-must-never-be-indexed"}"#,),
        )
        .unwrap();
    connection
}

fn columns(connection: &Connection, table: &str) -> Vec<String> {
    let mut statement = connection.prepare(&format!("PRAGMA table_info({table})")).unwrap();
    let rows = statement.query_map([], |row| row.get::<_, String>(1)).unwrap();
    rows.map(|name| name.unwrap()).collect()
}

fn millis(seconds: f64) -> u64 {
    (seconds * 1_000.0).round() as u64
}

fn load_rows(connection: &Connection, after_id: u64) -> Vec<MessageRow> {
    let sql = message_query(&columns(connection, "messages"), &columns(connection, "sessions"));
    let mut statement = connection.prepare(&sql).unwrap();
    let rows = statement
        .query_map([query_id(after_id)], |row| {
            Ok(MessageRow {
                id: stored_count(row.get(MESSAGE_ID)?),
                session_id: row.get(MESSAGE_SESSION_ID)?,
                role: row.get(MESSAGE_ROLE)?,
                content: row.get(MESSAGE_CONTENT)?,
                tool_call_id: row.get(MESSAGE_TOOL_CALL_ID)?,
                tool_calls: row.get(MESSAGE_TOOL_CALLS)?,
                tool_name: row.get(MESSAGE_TOOL_NAME)?,
                timestamp_ms: millis(row.get(MESSAGE_TIMESTAMP)?),
                reasoning: row.get(MESSAGE_REASONING)?,
                reasoning_content: row.get(MESSAGE_REASONING_CONTENT)?,
                project: row.get(MESSAGE_CWD)?,
                parent_session_id: row.get(MESSAGE_PARENT_SESSION_ID)?,
            })
        })
        .unwrap();
    rows.map(|row| row.unwrap()).collect()
}

fn parse(
    rows: &Vec<MessageRow>,
    state: IndexParseState,
    reasoning: bool,
    first: u64,
) -> (Vec<Record>, IndexParseOutput) {
    parse_index_records("state.db", rows, state, reasoning, first, |_: &str| None)
}

fn take_checkpoint(connection: &Connection) -> Checkpoint {
    let last = last_message_query(&columns(connection, "messages"));
    let rewinds = rewind_query(&columns(connection, "sessions"));
    checkpoint(
        connection.query_row(&last, [], |row| row.get(0)).ok(),
        connection.query_row(SCHEMA_VERSION_QUERY, [], |row| row.get(0)).ok(),
        rewinds.and_then(|sql| connection.query_row(sql, [], |row| row.get(0)).ok()),
    )
}

fn load_usage(connection: &Connection) -> Vec<UsageRow<f64>> {
    let sql = usage_query(&columns(connection, "sessions"));
    let mut statement = connection.prepare(&sql).unwrap();
    let rows = statement
        .query_map([], |row| {
            Ok(UsageRow {
                session_id: row.get(USAGE_SESSION_ID)?,
                timestamp_ms: millis(row.get(USAGE_TIMESTAMP)?),
                cwd: row.get(USAGE_CWD)?,
                billing_provider: row.get(USAGE_BILLING_PROVIDER)?,
                model: row.get(USAGE_MODEL)?,
                input_tokens: row.get(USAGE_INPUT_TOKENS)?,
                cache_read_tokens: row.get(USAGE_CACHE_READ_TOKENS)?,
                cache_write_tokens: row.get(USAGE_CACHE_WRITE_TOKENS)?,
                output_tokens: row.get(USAGE_OUTPUT_TOKENS)?,
                reasoning_tokens: row.get(USAGE_REASONING_TOKENS)?,
                actual_cost_usd: row.get(USAGE_ACTUAL_COST)?,
                estimated_cost_usd: row.get(USAGE_ESTIMATED_COST)?,
                parent_session_id: row.get(USAGE_PARENT_SESSION_ID)?,
            })
        })
        .unwrap();
    rows.map(|row| row.unwrap()).collect()
}

#[test]
fn fixture_projects_active_rows_tools_usage_and_opt_in_reasoning() {
    let connection = fixture_store();
    let rows = load_rows(&connection, 0);
    let (records, parsed) = parse(&rows, IndexParseState::default(), false, 1);
    assert_eq!(parsed.offset, 107);
    assert!(!records.iter().any(|record| record.role == "reasoning"));
    assert!(!records.iter().any(|record| record.text.contains("rewound")));
    assert!(
        !records
            .iter()
            .any(|record| record.text.contains("ciphertext-must-never-be-indexed"))
    );
    assert!(records.iter().any(|record| {
        record.role == "tool_use"
            && record.tool_name.as_deref() == Some("terminal")
            && record.links.event_id.as_deref() == Some("call-hermes-1")
    }));
    assert!(records.iter().any(|record| {
        record.role == "tool_result"
            && record.links.parent_tool_use_id.as_deref() == Some("call-hermes-1")
    }));

    let (reasoning, reasoning_parse) = parse(&rows, IndexParseState::default(), true, 1);
    assert!(reasoning.iter().any(|record| {
        record.role == "reasoning" && record.text == "Check the working directory."
    }));
    assert_eq!(reasoning_parse.diagnostics.encrypted_reasoning_dropped, 1);

    let usage: Vec<UsageEvent<f64>> = parse_usage_file("state.db", load_usage(&connection));
    assert_eq!(usage.len(), 1);
    assert_eq!(usage[0].tokens.additive_total(), 175);
    assert_eq!(usage[0].source_cost_usd, Some(0.03));
    assert_eq!(usage[0].timestamp_ms, 1_783_000_000_000);
}

#[test]
fn checkpoint_tracks_appends_and_rewinds_separately() {
    let connection = fixture_store();
    let before = take_checkpoint(&connection);
    assert_eq!(before.max_message_id, 107);

    connection
        .execute(
            "INSERT INTO messages(id, session_id, role, content, timestamp, active)
                 VALUES (108, 'hermes-session', 'user', 'next', 1783000011.0, 1)",
            [],
        )
        .unwrap();
    let appended = take_checkpoint(&connection);
    assert_eq!(appended.max_message_id, 108);
    assert_eq!(appended.generation, before.generation);

    connection
        .execute(
            "UPDATE sessions SET rewind_count = rewind_count + 1
                 WHERE id = 'hermes-session'",
            [],
        )
        .unwrap();
    let rewound = take_checkpoint(&connection);
    assert_ne!(rewound.generation, appended.generation);
}

#[test]
fn incremental_parse_reads_only_new_active_messages() {
    let connection = fixture_store();
    let rows = load_rows(&connection, 104);
    let state = IndexParseState { offset: 104, ..IndexParseState::default() };
    let (records, parsed) = parse(&rows, state, false, 1);

    assert_eq!(parsed.offset, 107);
    assert_eq!(records.len(), 2);
    assert_eq!(records[0].text, "Visible multimodal text");
    assert_eq!(records[1].text, "Visible encrypted-reasoning answer");
}

#[test]
fn records_carry_their_row() {
    let connection = fixture_store();
    let rows = load_rows(&connection, 0);
    let (records, parsed) = parse(&rows, IndexParseState::default(), true, 40);
    let roles: Vec<&str> = records.iter().map(|record| record.role.as_str()).collect();
    assert_eq!(
        roles,
        vec!["user", "reasoning", "assistant", "tool_use", "tool_result", "user", "assistant"]
    );
    for (position, record) in records.iter().enumerate() {
        assert_eq!(record.doc_id, 40 + position as u64);
        assert_eq!(record.source, SourceKind::Hermes);
        assert_eq!(record.source_path, "state.db");
        assert_eq!(record.project, "/work/project");
        assert_eq!(record.session_id, "hermes-session");
        assert_eq!(record.links.conversation_kind.as_deref(), Some("main"));
    }
    let turns: Vec<u32> = records.iter().map(|record| record.turn_id).collect();
    assert_eq!(turns, vec![808, 816, 817, 818, 824, 840, 856]);
    assert_eq!(records[0].links.event_id.as_deref(), Some("101"));
    assert_eq!(records[1].links.event_id.as_deref(), Some("102:reasoning"));
    assert_eq!(records[3].links.parent_event_id.as_deref(), Some("102"));
    assert_eq!(records[3].tool_input.as_deref(), Some("{\"command\":\"pwd\"}"));
    assert_eq!(records[4].tool_name.as_deref(), Some("terminal"));
    assert_eq!(records[4].tool_output.as_deref(), Some("/work/project"));
    assert_eq!(parsed.pending_tool_calls.len(), 0);
    assert_eq!(parsed.diagnostics.orphan_tool_results, 0);
    assert_eq!(parsed.turn_id, 0);
    assert!(parsed.session_id.is_none());
}

fn row(id: u64, role: &str) -> MessageRow {
    MessageRow {
        id,
        session_id: "s".to_string(),
        role: role.to_string(),
        content: None,
        tool_call_id: None,
        tool_calls: None,
        tool_name: None,
        timestamp_ms: id * 10,
        reasoning: None,
        reasoning_content: None,
        project: None,
        parent_session_id: None,
    }
}

fn calling(id: u64, tool_calls: &str) -> MessageRow {
    MessageRow { tool_calls: Some(tool_calls.to_string()), ..row(id, "assistant") }
}

fn answering(id: u64, call: Option<&str>, tool: Option<&str>) -> MessageRow {
    MessageRow {
        tool_call_id: call.map(str::to_string),
        tool_name: tool.map(str::to_string),
        content: Some("done".to_string()),
        ..row(id, "tool")
    }
}

#[test]
fn two_goes_give_what_one_gives() {
    let rows = |from: usize, to: usize| {
        let mut all = vec![
            calling(1, r#"[{"id":"a","name":"x"}]"#),
            row(2, "system"),
            calling(3, r#"[{"name":"y"}]"#),
            answering(4, Some("b"), None),
            answering(5, Some("a"), None),
        ];
        all.drain(from..to).collect::<Vec<_>>()
    };
    let (whole, end) = parse(&rows(0, 5), IndexParseState::default(), false, 1);
    let (first, halfway) = parse(&rows(0, 2), IndexParseState::default(), false, 1);
    assert_eq!(halfway.offset, 2);
    assert_eq!(halfway.pending_tool_calls.len(), 1);
    let state = IndexParseState {
        offset: halfway.offset,
        turn_id: halfway.turn_id,
        pending_tool_calls: halfway.pending_tool_calls,
    };
    let (second, rest) = parse(&rows(2, 5), state, false, 1 + first.len() as u64);
    let mut both = first;
    both.extend(second);
    assert_eq!(both, whole);
    assert_eq!(rest.offset, end.offset);
    assert_eq!(rest.pending_tool_calls.len(), end.pending_tool_calls.len());
}

#[test]
fn result_is_guessed_only_where_one_call_fits() {
    let calls = r#"[{"id":"a","name":"x"},{"id":"b","name":"y"}]"#;
    let named = vec![calling(1, calls), answering(2, None, Some("y"))];
    let (records, output) = parse(&named, IndexParseState::default(), false, 1);
    assert_eq!(records[2].links.parent_tool_use_id.as_deref(), Some("b"));
    assert_eq!(output.pending_tool_calls.len(), 1);

    let unnamed = vec![calling(1, calls), answering(2, None, None)];
    let (records, output) = parse(&unnamed, IndexParseState::default(), false, 1);
    assert!(records[2].links.parent_tool_use_id.is_none());
    assert_eq!(output.pending_tool_calls.len(), 2);
    assert_eq!(output.diagnostics.orphan_tool_results, 0);

    let stray = vec![calling(1, calls), answering(2, Some("c"), None)];
    let (records, output) = parse(&stray, IndexParseState::default(), false, 1);
    assert_eq!(records[2].links.parent_tool_use_id.as_deref(), Some("c"));
    assert_eq!(output.diagnostics.orphan_tool_results, 1);
}

#[test]
fn calls_without_ids_adopt_those_of_the_results() {
    let mut diagnostics = ParseDiagnostics::default();
    let rows = vec![
        calling(1, r#"[{"name":"x"},{"id":"own"},{"name":"z"}]"#),
        answering(2, Some("p"), None),
        answering(3, Some("q"), None),
        row(4, "user"),
        calling(5, r#"[{"name":"x"}, 7]"#),
    ];
    let planned = plan_tool_calls(&rows, &mut diagnostics);
    let ids = |id: u64| {
        planned[&id].iter().map(|call: &ToolCall| call.id.clone()).collect::<Vec<String>>()
    };
    assert_eq!(ids(1), vec!["p", "own", "q"]);
    assert_eq!(ids(5), vec!["hermes:5:0"]);
}

#[test]
fn ids_are_adopted_only_where_the_numbers_agree() {
    let call = |id: &str| ToolCall {
        id: id.to_string(),
        name: None,
        arguments: String::new(),
        argument_sha256: None,
    };
    let mut calls = vec![call("hermes:1:0"), call("hermes:1:1")];
    settle(&mut calls, vec!["p".to_string()]);
    assert_eq!(calls[0].id, "hermes:1:0");
    settle(&mut calls, vec!["p".to_string(), "q".to_string()]);
    assert_eq!(calls[1].id, "q");
}

#[test]
fn lists_that_are_no_lists_are_counted() {
    let rows = vec![
        calling(1, "{"),
        calling(2, "{}"),
        calling(3, "  "),
        calling(4, "[]"),
        row(5, "narrator"),
        MessageRow { tool_calls: Some("{".to_string()), ..row(6, "user") },
    ];
    let (records, output) = parse(&rows, IndexParseState::default(), false, 1);
    assert!(records.is_empty());
    assert_eq!(output.offset, 6);
    assert_eq!(output.diagnostics.malformed_json_lines, 1);
    assert_eq!(output.diagnostics.unknown_semantics.get("tool_calls_not_array"), Some(&1));
    assert_eq!(output.diagnostics.unknown_semantics.get("narrator"), Some(&1));
    assert_eq!(output.diagnostics.unknown_semantics.len(), 2);
}

#[test]
fn repeated_call_ids_are_counted() {
    let rows = vec![
        calling(1, r#"[{"id":"a","name":"x"}]"#),
        calling(2, r#"[{"id":"a","name":"y","arguments":{"k":1}}]"#),
    ];
    let (_, output) = parse_index_records(
        "state.db",
        &rows,
        IndexParseState::default(),
        false,
        7,
        |arguments: &str| Some(format!("digest of {arguments}")),
    );
    assert_eq!(output.diagnostics.duplicate_tool_calls, 1);
    let pending = output.pending_tool_calls.get("a").unwrap();
    assert_eq!(pending.tool_name.as_deref(), Some("y"));
    assert_eq!(pending.tool_use_event_id.as_deref(), Some("a"));
    assert_eq!(pending.tool_use_doc_id, Some(8));
    assert_eq!(pending.timestamp, 20);
    assert_eq!(pending.argument_bytes, Some(7));
    assert_eq!(pending.argument_sha256.as_deref(), Some("digest of {\"k\":1}"));
    assert_eq!(pending.parent_event_id.as_deref(), Some("2"));
    assert_eq!(pending.session_id.as_deref(), Some("s"));
}

#[test]
fn forks_and_sessions_without_directory_are_marked() {
    let rows = vec![MessageRow {
        content: Some("hi".to_string()),
        parent_session_id: Some("parent".to_string()),
        ..row(1, "user")
    }];
    let (records, _) = parse(&rows, IndexParseState::default(), false, 1);
    assert_eq!(records[0].project, "hermes");
    assert_eq!(records[0].links.thread_source.as_deref(), Some("fork"));
    assert_eq!(records[0].links.conversation_kind.as_deref(), Some("fork"));
    assert_eq!(records[0].links.parent_session_id.as_deref(), Some("parent"));
}

#[test]
fn turns_of_large_ids_stay_in_range() {
    let rows = vec![
        MessageRow { content: Some("hi".to_string()), ..row(u64::MAX / 10, "user") },
    ];
    let (records, _) = parse(&rows, IndexParseState::default(), false, u64::MAX);
    assert_eq!(records[0].turn_id, 0xFFFF_FFF8);
    assert_eq!(records[0].doc_id, u64::MAX);
}

#[test]
fn content_shows_its_text() {
    assert_eq!(content_text(None), "");
    assert_eq!(content_text(Some("plain")), "plain");
    assert_eq!(content_text(Some("\u{0}json:\"quoted\"")), "quoted");
    assert_eq!(content_text(Some("\u{0}json:null")), "");
    assert_eq!(content_text(Some("\u{0}json:{\"a\": 1}")), "{\"a\":1}");
    assert_eq!(content_text(Some("\u{0}json:[broken")), "[broken");
    let blocks = r#"[{"type":"input_text","text":"a"},{"text":"b"},{"type":"output_text","text":"c"},5]"#;
    assert_eq!(content_text(Some(&format!("\u{0}json:{blocks}"))), "a\nc");
}

#[test]
fn encrypted_reasoning_is_recognised() {
    assert!(is_encrypted_reasoning(r#"{"type":"redacted_thinking"}"#));
    assert!(is_encrypted_reasoning(r#"{"encrypted_content":null}"#));
    assert!(!is_encrypted_reasoning(r#"{"type":"thinking"}"#));
    assert!(!is_encrypted_reasoning(r#"["encrypted_content"]"#));
    assert!(!is_encrypted_reasoning("encrypted_content"));
}

#[test]
fn entries_describe_calls() {
    let entry = json::parse(
        r#"{"id":"","call_id":"later","function":{"arguments":{"b":1,"a":2}},"name":"outer"}"#,
    )
    .unwrap();
    let call = parse_tool_call(9, 2, &entry).unwrap();
    assert_eq!(call.id, "hermes:9:2");
    assert_eq!(call.name.as_deref(), Some("outer"));
    assert_eq!(call.arguments, r#"{"a":2,"b":1}"#);
    let second = json::parse(r#"{"call_id":"later"}"#).unwrap();
    let call = parse_tool_call(9, 2, &second).unwrap();
    assert_eq!(call.id, "later");
    assert_eq!(call.name, None);
    assert_eq!(call.arguments, "");
    assert!(parse_tool_call(9, 2, &json::parse("[]").unwrap()).is_none());
    assert_eq!(json_text(&json::parse("\"x\"").unwrap()), "x");
    assert_eq!(json_text(&json::parse("[1, 2]").unwrap()), "[1,2]");
}

#[test]
fn pending_calls_are_found_by_session_and_tool() {
    let mut pending: TextMap<PendingToolCall> = TextMap::new();
    let call = |session: &str, tool: Option<&str>| PendingToolCall {
        session_id: Some(session.to_string()),
        tool_name: tool.map(str::to_string),
        ..PendingToolCall::default()
    };
    pending.insert("a".to_string(), call("s", Some("x")));
    pending.insert("b".to_string(), call("t", Some("x")));
    assert_eq!(find_pending_call(&pending, "s", None).as_deref(), Some("a"));
    assert_eq!(find_pending_call(&pending, "s", Some("y")), None);
    pending.insert("c".to_string(), call("s", None));
    assert_eq!(find_pending_call(&pending, "s", Some("y")).as_deref(), Some("c"));
    assert_eq!(find_pending_call(&pending, "s", Some("x")), None);
}

#[test]
fn checkpoint_combines_schema_and_rewinds() {
    let point = checkpoint(Some(12), Some(0x1_0000_0002), Some(5));
    assert_eq!(point.max_message_id, 12);
    assert_eq!(point.generation, 0x0000_0002_0000_0004);
    assert_eq!(checkpoint(Some(-1), None, Some(-7)), Checkpoint::default());
    let other = checkpoint(Some(12), Some(0x1_0000_0003), Some(5));
    assert_ne!(point.generation, other.generation);
}

#[test]
fn old_stores_are_read_without_their_missing_columns() {
    let connection = Connection::open_in_memory().unwrap();
    connection
        .execute_batch(
            "CREATE TABLE sessions(id TEXT, started_at REAL);
             CREATE TABLE messages(
                id INTEGER PRIMARY KEY, session_id TEXT, role TEXT, content TEXT,
                tool_call_id TEXT, tool_calls TEXT, tool_name TEXT, timestamp REAL);
             INSERT INTO sessions VALUES ('s', 1.5);
             INSERT INTO messages(id, session_id, role, content, timestamp)
                VALUES (4, 's', 'user', 'hello', 2.0);",
        )
        .unwrap();
    let rows = load_rows(&connection, 3);
    let (records, parsed) = parse(&rows, IndexParseState::default(), true, 1);
    assert_eq!(records.len(), 1);
    assert_eq!(records[0].ts, 2_000);
    assert_eq!(parsed.offset, 4);
    assert!(load_rows(&connection, u64::MAX).is_empty());
    assert_eq!(take_checkpoint(&connection), Checkpoint { max_message_id: 4, generation: 0 });
    assert!(parse_usage_file("state.db", load_usage(&connection)).is_empty());
    assert!(cwd_query(&columns(&connection, "sessions")).is_none());
}

#[test]
fn queries_name_the_columns_there_are() {
    let columns = vec!["id".to_string(), "cwd".to_string()];
    assert_eq!(optional_column(&columns, "cwd", "NULL"), "cwd");
    assert_eq!(optional_column(&columns, "model", "NULL"), "NULL");
    assert_eq!(last_message_query(&columns), "SELECT COALESCE(MAX(id), 0) FROM messages");
    let active = vec!["active".to_string()];
    assert_eq!(
        last_message_query(&active),
        "SELECT COALESCE(MAX(id), 0) FROM messages WHERE COALESCE(active, 1) != 0"
    );
    assert_eq!(query_id(u64::MAX), i64::MAX);
    assert_eq!(query_id(7), 7);
    assert_eq!(stored_count(-5), 0);
}

#[test]
fn session_directories_are_looked_up() {
    let connection = fixture_store();
    let sql = cwd_query(&columns(&connection, "sessions")).unwrap();
    let look_up = |id: &str| {
        session_cwd(connection.query_row(sql, [id], |row| row.get(0)).ok())
    };
    assert_eq!(look_up("hermes-session").as_deref(), Some("/work/project"));
    assert_eq!(look_up("hermes-idle"), None);
    assert_eq!(look_up("nowhere"), None);
}

#[test]
fn usage_events_describe_their_session() {
    let connection = fixture_store();
    let rows = load_usage(&connection);
    assert_eq!(rows.len(), 2);
    let events = parse_usage_file("state.db", rows);
    let event = &events[0];
    assert_eq!(event.source, "hermes");
    assert_eq!(event.source_path, "state.db");
    assert_eq!(event.source_record_id.as_deref(), Some("session:hermes-session"));
    assert_eq!(event.session_id.as_deref(), Some("hermes-session"));
    assert_eq!(event.project.as_deref(), Some("/work/project"));
    assert_eq!(event.provider.as_deref(), Some("provider"));
    assert_eq!(event.model.as_deref(), Some("model"));
    assert_eq!(event.tokens.input, 100);
    assert_eq!(event.tokens.cache_read, 20);
    assert_eq!(event.tokens.cache_write, 5);
    assert_eq!(event.tokens.output, 50);
    // Reasoning is a part of the output.
    assert_eq!(event.tokens.reasoning, 50);
    assert_eq!(event.dedupe_confidence, "exact");
    assert!(!event.sidechain);
    assert!(!event.conservative_undercount);
    assert_eq!(event.source_order, 0);
}

#[test]
fn estimated_cost_stands_in_for_the_actual_one() {
    let usage = |actual: Option<u64>, parent: Option<&str>| UsageRow {
        session_id: "s".to_string(),
        timestamp_ms: 1,
        cwd: None,
        billing_provider: None,
        model: None,
        input_tokens: 1,
        cache_read_tokens: -1,
        cache_write_tokens: 0,
        output_tokens: 2,
        reasoning_tokens: 1,
        actual_cost_usd: actual,
        estimated_cost_usd: Some(9),
        parent_session_id: parent.map(str::to_string),
    };
    let events = parse_usage_file("f", vec![usage(None, Some("p")), usage(Some(3), None)]);
    assert_eq!(events[0].source_cost_usd, Some(9));
    assert!(events[0].sidechain);
    assert_eq!(events[0].tokens.additive_total(), 3);
    assert_eq!(events[0].tokens.reasoning, 1);
    assert_eq!(events[1].source_cost_usd, Some(3));
}

#[test]
fn store_is_known_by_its_path() {
    assert!(matches_path("/home/me/.hermes/state.db", None));
    assert!(matches_path("C:\\me\\.hermes\\state.db-wal", None));
    assert!(!matches_path("/home/me/.hermes/other.db", None));
    assert!(!matches_path("/home/me/hermes/state.db", None));
    assert!(matches_path("/srv/store/state.db", Some("/srv/store/state.db")));
    // Paths are compared as paths, not as texts.
    assert!(matches_path("/srv//store/state.db", Some("/srv/store/state.db")));
    assert!(!matches_path("/srv/store/state.db", Some("/srv/other/state.db")));
    assert!(!matches_path("/home/me/log.jsonl", Some("/srv/store/state.db")));
    let database = Some("/u/.hermes/state.db");
    assert!(matches_path("/u/.hermes/state.db", database));
    assert!(matches_path("/u/.hermes/state.db-wal", database));
    assert!(matches_path("C:\\u\\.hermes\\state.db", database));
    assert!(!matches_path("/u/.hermes/state.db-shm", database));
    assert!(!matches_path("/u/hermes/state.db", database));
    assert!(!matches_path("/u/.hermes/sessions.json", database));
    assert!(!matches_path("", database));
    let store = Some("/srv/store/data");
    assert!(matches_path("/srv/./store/data", store));
    assert!(matches_path("/./srv/store//data/", store));
    assert!(matches_path("/srv/store/data/.", store));
    assert!(!matches_path("srv/store/data", store));
    assert!(!matches_path("/srv/store/../store/data", store));
    assert!(!matches_path("/srv/store/DATA", store));
    assert!(!matches_path("./data", Some("data")));
    assert!(matches_path("./data/", Some("./data")));
    assert!(!matches_path(".", Some("")));
    assert!(matches_store("anything", true));
    assert!(!matches_store("anything", false));
}

#[test]
fn store_is_discovered_where_it_is_a_file() {
    let found = discover(PathBuf::from("/h/state.db"), true);
    assert_eq!(found.len(), 1);
    assert_eq!(found[0].source, SourceKind::Hermes);
    assert_eq!(found[0].path, PathBuf::from("/h/state.db"));
    assert!(discover(PathBuf::from("/h/state.db"), false).is_empty());
}

#[test]
fn store_lies_in_the_hermes_home() {
    let user = || PathBuf::from("/home/me");
    let own = || Some(PathBuf::from("/h"));
    assert_eq!(home(own(), user()), PathBuf::from("/h"));
    assert_eq!(home(None, user()), PathBuf::from("/home/me/.hermes"));
    assert_eq!(database_path(own(), user()), PathBuf::from("/h/state.db"));
    assert_eq!(database_path(None, user()), PathBuf::from("/home/me/.hermes/state.db"));
}
