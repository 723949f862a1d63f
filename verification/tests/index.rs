use memex::index::document::{record_document, record_from_doc};
use memex::index::generation::{
    check_writable, clone_step, current_file_contents, index_exists, new_generation_name,
    open_for_ingest, open_step, open_target, publish_generation,
    publish_generation_if_uninitialized, removes_staging, resolve_current_generation,
    should_copy_generation_file, staging_name, CloneStep, IndexError, IngestSeed, OpenStep,
    OpenTarget, PendingGeneration, PublishStep, StaleSchemaPolicy,
};
use memex::index::layout::{
    build_schema, load_fields, new_layout, schema_is_current, IndexFields,
};
use memex::index::page::{page_limit, sort_page};
use memex::index::search::{
    build_query, compile, doc_id_query, has_signed_star, join_query, recent_conditions, recent_limit, recent_query,
    search_conditions, session_query, source_path_query, QueryClause, QueryOptions, RecentQuery,
};
use memex::types::{Record, RecordLinks, SourceFilter, SourceKind, SourceLabels};
use tantivy::collector::{Count, TopDocs};
use tantivy::query::{Occur, Query, QueryParserError};
use tantivy::schema::{Field, FieldType, IndexRecordOption, Schema, SchemaBuilder, STORED, STRING};
use tantivy::{Index, IndexWriter, TantivyDocument};

fn labels() -> SourceLabels {
    SourceLabels {
        claude: "assistant".to_string(),
        codex_session: "codex_session".to_string(),
        codex_history: "codex_history".to_string(),
        cursor: "cursor".to_string(),
        opencode: "opencode".to_string(),
        pi: "pi".to_string(),
        copilot: "copilot".to_string(),
        hermes: "hermes".to_string(),
    }
}

fn test_record(doc_id: u64, text: &str) -> Record {
    Record {
        source: SourceKind::CodexSession,
        doc_id,
        ts: doc_id,
        project: "memex".to_string(),
        session_id: "session".to_string(),
        turn_id: doc_id as u32,
        role: "user".to_string(),
        text: text.to_string(),
        tool_name: None,
        tool_input: None,
        tool_output: None,
        links: RecordLinks::default(),
        source_path: "session.jsonl".to_string(),
    }
}

fn full_record() -> Record {
    Record {
        source: SourceKind::Pi,
        doc_id: 7,
        ts: 1_783_000_000_000,
        project: "project".to_string(),
        session_id: "session".to_string(),
        turn_id: u32::MAX,
        role: "tool_use".to_string(),
        text: "text".to_string(),
        tool_name: Some("terminal".to_string()),
        tool_input: Some("input".to_string()),
        tool_output: Some("".to_string()),
        links: RecordLinks {
            event_id: Some("1".to_string()),
            parent_event_id: Some("2".to_string()),
            logical_parent_event_id: Some("3".to_string()),
            parent_session_id: Some("4".to_string()),
            thread_source: Some("5".to_string()),
            conversation_kind: Some("6".to_string()),
            parent_tool_use_id: Some("7".to_string()),
            source_tool_use_id: Some("8".to_string()),
            source_tool_assistant_uuid: Some("9".to_string()),
        },
        source_path: "path".to_string(),
    }
}

fn by_path(_: &str) -> SourceKind {
    SourceKind::Claude
}

fn stale_schema() -> Schema {
    let mut builder = SchemaBuilder::default();
    builder.add_text_field("doc_id", STRING | STORED);
    builder.add_text_field("source", STRING | STORED);
    builder.build()
}

fn filled_index(records: &[Record]) -> (Index, IndexFields) {
    let schema = build_schema();
    let fields = load_fields(&schema).unwrap();
    let index = Index::create_in_ram(schema);
    let mut writer: IndexWriter = index.writer_with_num_threads(1, 20_000_000).unwrap();
    for record in records {
        writer.add_document(record_document(&labels(), &fields, record)).unwrap();
    }
    writer.commit().unwrap();
    (index, fields)
}

fn found(index: &Index, fields: &IndexFields, query: &dyn Query) -> Vec<u64> {
    let searcher = index.reader().unwrap().searcher();
    let top = searcher.search(query, &TopDocs::with_limit(100)).unwrap();
    let mut ids: Vec<u64> = top
        .into_iter()
        .map(|(_, address)| {
            let document = searcher.doc::<TantivyDocument>(address).unwrap();
            record_from_doc(&labels(), fields, &document, by_path).doc_id
        })
        .collect();
    ids.sort();
    ids
}

fn everything() -> QueryOptions {
    QueryOptions {
        query: "  ".to_string(),
        project: None,
        role: None,
        tool: None,
        session_id: None,
        source: None,
        since: None,
        until: None,
        limit: 10,
    }
}

#[test]
fn schema_keeps_fields_as_they_are_needed() {
    let schema = build_schema();
    assert_eq!(schema.num_fields(), 21);
    assert!(schema_is_current(&schema));
    let entry = |name: &str| schema.get_field_entry(schema.get_field(name).unwrap());
    for name in ["doc_id", "ts", "turn_id"] {
        assert!(entry(name).is_indexed() && entry(name).is_stored() && entry(name).is_fast());
        assert!(matches!(entry(name).field_type(), FieldType::U64(_)));
    }
    let shape = |name: &str| match entry(name).field_type() {
        FieldType::Str(options) => {
            let indexing = options.get_indexing_options().unwrap();
            (options.is_stored(), indexing.tokenizer().to_string(), indexing.index_option())
        }
        other => panic!("unexpected: {:?}", other),
    };
    for name in ["text", "tool_input", "tool_output"] {
        let words = (true, "default".to_string(), IndexRecordOption::WithFreqsAndPositions);
        assert_eq!(shape(name), words);
    }
    for name in ["project", "session_id", "role", "source", "tool_name", "event_id", "source_path"]
    {
        assert_eq!(shape(name), (true, "raw".to_string(), IndexRecordOption::Basic));
    }
}

#[test]
fn fields_are_known_by_their_numbers() {
    let schema = build_schema();
    let fields = load_fields(&schema).unwrap();
    assert_eq!(fields.doc_id, 0);
    assert_eq!(fields.source, Some(6));
    assert_eq!(fields.text, 7);
    assert_eq!(fields.source_path, 20);
    assert_eq!(schema.get_field("thread_source").unwrap().field_id(), fields.thread_source);
    let (built, loaded) = new_layout();
    assert_eq!(built, schema);
    assert_eq!(loaded, fields);
}

#[test]
fn missing_field_is_named() {
    let error = load_fields(&stale_schema()).unwrap_err();
    assert_eq!(error.name, "ts");
    assert_eq!(error.message(), "missing field ts");
    assert!(!schema_is_current(&stale_schema()));
}

#[test]
fn record_is_read_back_from_its_document() {
    let fields = load_fields(&build_schema()).unwrap();
    let record = full_record();
    let document = record_document(&labels(), &fields, &record);
    assert_eq!(document.len(), 21);
    assert_eq!(record_from_doc(&labels(), &fields, &document, by_path), record);
    let sparse = test_record(3, "words");
    let document = record_document(&labels(), &fields, &sparse);
    assert_eq!(document.len(), 9);
    assert_eq!(record_from_doc(&labels(), &fields, &document, by_path), sparse);
}

#[test]
fn source_without_label_is_found_by_the_path() {
    let mut fields = load_fields(&build_schema()).unwrap();
    let document = record_document(&labels(), &fields, &full_record());
    fields.source = None;
    let asked = |path: &str| {
        assert_eq!(path, "path");
        SourceKind::Cursor
    };
    let read = record_from_doc(&labels(), &fields, &document, asked);
    assert_eq!(read.source, SourceKind::Cursor);
    fields.source = Some(fields.role);
    let read = record_from_doc(&labels(), &fields, &document, asked);
    assert_eq!(read.source, SourceKind::Cursor);
}

#[test]
fn empty_document_gives_an_empty_record() {
    let fields = load_fields(&build_schema()).unwrap();
    let read = record_from_doc(&labels(), &fields, &TantivyDocument::default(), by_path);
    assert_eq!(read.doc_id, 0);
    assert_eq!(read.text, "");
    assert_eq!(read.tool_name, None);
    assert_eq!(read.links, RecordLinks::default());
    let mut document = TantivyDocument::default();
    document.add_u64(Field::from_field_id(fields.turn_id), 0x1_0000_0005);
    document.add_u64(Field::from_field_id(fields.turn_id), 9);
    document.add_text(Field::from_field_id(fields.doc_id), "no number");
    document.add_u64(Field::from_field_id(fields.text), 1);
    let read = record_from_doc(&labels(), &fields, &document, by_path);
    assert_eq!(read.turn_id, 5);
    assert_eq!(read.doc_id, 0);
    assert_eq!(read.text, "");
}

#[test]
fn search_finds_what_is_asked_for() {
    let mut second = test_record(2, "second needle");
    second.project = "other".to_string();
    second.role = "tool_use".to_string();
    second.tool_name = Some("terminal".to_string());
    second.session_id = "two".to_string();
    second.source = SourceKind::CodexHistory;
    let mut third = test_record(3, "third");
    third.source = SourceKind::Hermes;
    let (index, fields) = filled_index(&[test_record(1, "first needle"), second, third]);
    let ask = |options: &QueryOptions| {
        let query = build_query(&labels(), &fields, options, &index.schema()).unwrap();
        found(&index, &fields, &query)
    };
    assert_eq!(ask(&everything()), vec![1, 2, 3]);
    assert_eq!(ask(&QueryOptions { query: "needle".to_string(), ..everything() }), vec![1, 2]);
    assert_eq!(ask(&QueryOptions { query: "absent".to_string(), ..everything() }), Vec::<u64>::new());
    let project = Some("other".to_string());
    assert_eq!(ask(&QueryOptions { project, ..everything() }), vec![2]);
    let role = Some("user".to_string());
    assert_eq!(ask(&QueryOptions { role, ..everything() }), vec![1, 3]);
    let tool = Some("terminal".to_string());
    assert_eq!(ask(&QueryOptions { tool, ..everything() }), vec![2]);
    let session_id = Some("two".to_string());
    assert_eq!(ask(&QueryOptions { session_id, ..everything() }), vec![2]);
    let source = Some(SourceFilter::Codex);
    assert_eq!(ask(&QueryOptions { source, ..everything() }), vec![1, 2]);
    let source = Some(SourceFilter::Hermes);
    assert_eq!(ask(&QueryOptions { source, ..everything() }), vec![3]);
    assert_eq!(ask(&QueryOptions { since: Some(2), ..everything() }), vec![2, 3]);
    assert_eq!(ask(&QueryOptions { until: Some(2), ..everything() }), vec![1, 2]);
    let both = QueryOptions { since: Some(2), until: Some(2), ..everything() };
    assert_eq!(ask(&both), vec![2]);
    let query = "needle".to_string();
    let all = QueryOptions { query, source: Some(SourceFilter::Codex), until: Some(1), ..everything() };
    assert_eq!(ask(&all), vec![1]);
}

#[test]
fn words_that_cannot_be_parsed_are_an_error() {
    let (index, fields) = filled_index(&[test_record(1, "needle")]);
    let ask = |query: &str| {
        let options = QueryOptions { query: query.to_string(), ..everything() };
        build_query(&labels(), &fields, &options, &index.schema())
    };
    assert!(matches!(ask("role:").unwrap_err(), QueryParserError::SyntaxError(_)));
    assert_eq!(
        ask("nosuchfield:x").unwrap_err(),
        QueryParserError::FieldDoesNotExist("nosuchfield".to_string())
    );
    assert!(matches!(ask("ts:word").unwrap_err(), QueryParserError::ExpectedInt(_)));
    assert_eq!(found(&index, &fields, &ask("role:user").unwrap()), vec![1]);
    assert_eq!(found(&index, &fields, &ask("NEEDLE").unwrap()), vec![1]);
}

#[test]
fn signs_apart_from_their_star_are_found() {
    for query in [
        "+ *",
        "- *",
        "+\t\r\n *",
        "foo - *",
        "x = a + *p",
        "(a + *)",
        "(+ *)",
        "a (b)+ *",
        "a \"b\"+ *",
        "a 'b'- *",
        "a \"b\"~2+ *",
        "a b^2+ *",
        "a b^2.5+ *",
        "a +-5+ *",
        "a *+ *",
        "\"a\\\"b\" \"c\" + *",
        "'\"' + *",
        "+ * c+ *",
    ] {
        assert!(has_signed_star(query), "{}", query);
    }
}

#[test]
fn other_signs_and_stars_can_be_parsed() {
    let (index, fields) = filled_index(&[test_record(1, "needle")]);
    for query in [
        "",
        "*",
        "+*",
        "-*",
        "a *",
        "+",
        "+ ",
        "+ a *",
        "c+ *",
        "c- *",
        "x86+ *",
        "h264+ *",
        "v1.2+ *",
        "++ *",
        "+- *",
        "--- *",
        "role:+ *",
        "\"a + *b\"",
        "don't \"a + *b\"",
        "needle \"+ *\" -*",
        "+\u{A0}*",
    ] {
        assert!(!has_signed_star(query), "{}", query);
        let options = QueryOptions { query: query.to_string(), ..everything() };
        let _ = build_query(&labels(), &fields, &options, &index.schema());
    }
    let options = QueryOptions { query: "+* \"needle\"".to_string(), ..everything() };
    let query = build_query(&labels(), &fields, &options, &index.schema()).unwrap();
    assert_eq!(found(&index, &fields, &query), vec![1]);
}

#[test]
fn every_condition_must_be_met() {
    let (index, fields) = filled_index(&[test_record(1, "needle")]);
    let options = QueryOptions {
        project: Some("memex".to_string()),
        source: Some(SourceFilter::Codex),
        since: Some(1),
        ..everything()
    };
    let query = build_query(&labels(), &fields, &options, &index.schema()).unwrap();
    assert_eq!(query.clauses().len(), 4);
    assert!(query.clauses().iter().all(|(occur, _)| *occur == Occur::Must));
    let words = compile(QueryClause::Exactly { field: fields.role, value: "user".to_string() });
    let joined = join_query(Ok(words), Vec::new()).unwrap();
    assert_eq!(joined.clauses().len(), 1);
    assert_eq!(found(&index, &fields, &joined), vec![1]);
    let error = QueryParserError::NoDefaultFieldDeclared;
    let failed = join_query(Err(error), search_conditions(&labels(), &fields, &options));
    assert_eq!(failed.unwrap_err(), QueryParserError::NoDefaultFieldDeclared);
}

#[test]
fn search_conditions_come_in_order() {
    let fields = load_fields(&build_schema()).unwrap();
    let options = QueryOptions {
        query: "words".to_string(),
        project: Some("p".to_string()),
        role: Some("r".to_string()),
        tool: Some("t".to_string()),
        session_id: Some("s".to_string()),
        source: Some(SourceFilter::Codex),
        since: Some(5),
        until: None,
        limit: 10,
    };
    let clauses = search_conditions(&labels(), &fields, &options);
    assert_eq!(clauses.len(), 6);
    assert!(matches!(&clauses[0], QueryClause::Exactly { field: 2, value } if value == "p"));
    assert!(matches!(&clauses[1], QueryClause::Exactly { field: 5, value } if value == "r"));
    assert!(matches!(&clauses[2], QueryClause::Exactly { field: 8, value } if value == "t"));
    assert!(matches!(&clauses[3], QueryClause::AnyOf { field: 6, values } if values.len() == 2));
    assert!(matches!(&clauses[4], QueryClause::Exactly { field: 3, value } if value == "s"));
    assert!(matches!(&clauses[5], QueryClause::Between { start: 5, end: u64::MAX }));
}

#[test]
fn recent_records_are_chosen_by_source_and_project() {
    let mut second = test_record(2, "b");
    second.source = SourceKind::Hermes;
    let (index, fields) = filled_index(&[test_record(1, "a"), second]);
    let ask = |fields: &IndexFields, source: Option<SourceFilter>, project: Option<&str>| {
        match recent_query(&labels(), fields, source, project) {
            RecentQuery::Everything(query) => (true, found(&index, fields, &query)),
            RecentQuery::Meeting(query) => (false, found(&index, fields, &query)),
        }
    };
    assert_eq!(ask(&fields, Some(SourceFilter::Hermes), None), (false, vec![2]));
    assert_eq!(ask(&fields, None, Some("memex")), (false, vec![1, 2]));
    assert_eq!(ask(&fields, Some(SourceFilter::Hermes), Some("nowhere")), (false, vec![]));
    assert_eq!(ask(&fields, None, None), (true, vec![1, 2]));
    let mut unlabelled = fields;
    unlabelled.source = None;
    assert_eq!(ask(&unlabelled, Some(SourceFilter::Pi), None), (true, vec![1, 2]));
    assert_eq!(recent_conditions(&labels(), &fields, Some(SourceFilter::Pi), Some("p")).len(), 2);
    assert_eq!(recent_limit(0), 1);
    assert_eq!(recent_limit(20), 20);
}

#[test]
fn documents_are_found_by_id_session_and_path() {
    let mut second = test_record(2, "b");
    second.session_id = "two".to_string();
    second.source_path = "two.jsonl".to_string();
    let (index, fields) = filled_index(&[test_record(1, "a"), second]);
    let searcher = index.reader().unwrap().searcher();
    assert_eq!(searcher.search(&doc_id_query(&fields, 2), &Count).unwrap(), 1);
    assert_eq!(searcher.search(&doc_id_query(&fields, 3), &Count).unwrap(), 0);
    assert_eq!(searcher.search(&session_query(&fields, "two"), &Count).unwrap(), 1);
    assert_eq!(searcher.search(&session_query(&fields, "three"), &Count).unwrap(), 0);
    assert_eq!(searcher.search(&source_path_query(&fields, "session.jsonl"), &Count).unwrap(), 1);
    let mut writer: IndexWriter = index.writer_with_num_threads(1, 20_000_000).unwrap();
    writer.delete_term(source_path_query(&fields, "two.jsonl").term().clone());
    writer.commit().unwrap();
    let reader = index.reader().unwrap();
    assert_eq!(reader.searcher().num_docs(), 1);
}

#[test]
fn pages_cover_a_session_once() {
    assert_eq!(page_limit(10, 0, 4), Some(4));
    assert_eq!(page_limit(10, 8, 4), Some(2));
    assert_eq!(page_limit(10, 9, 0), Some(1));
    assert_eq!(page_limit(10, 10, 4), None);
    assert_eq!(page_limit(0, 0, 4), None);
    let mut offset = 0;
    let mut sizes = Vec::new();
    while let Some(size) = page_limit(7, offset, 3) {
        sizes.push(size);
        offset += size;
    }
    assert_eq!(sizes, vec![3, 3, 1]);
}

#[test]
fn page_is_sorted_by_turn_time_and_id() {
    let record = |turn_id: u32, ts: u64, doc_id: u64, text: &str| {
        let mut record = test_record(doc_id, text);
        record.turn_id = turn_id;
        record.ts = ts;
        record
    };
    let sorted = sort_page(vec![
        record(2, 1, 1, "e"),
        record(1, 9, 5, "c"),
        record(1, 9, 5, "d"),
        record(1, 9, 4, "b"),
        record(1, 3, 8, "a"),
    ]);
    let texts: Vec<&str> = sorted.iter().map(|record| record.text.as_str()).collect();
    assert_eq!(texts, vec!["a", "b", "c", "d", "e"]);
    assert!(sort_page(Vec::new()).is_empty());
}

#[test]
fn published_generation_is_the_one_that_is_read() {
    let (_, pending) = open_for_ingest(None, false, Some(0x1234), 0xAB);
    assert_eq!(
        pending.generation_name,
        "00000000000000000000000000001234-000000ab"
    );
    assert_eq!(
        pending.staging_name,
        ".00000000000000000000000000001234-000000ab.tmp"
    );
    let contents = current_file_contents(&pending.generation_name);
    assert_eq!(contents, "00000000000000000000000000001234-000000ab\n");
    assert_eq!(resolve_current_generation(Some(&contents)), Some(pending.generation_name));
}

#[test]
fn names_that_lead_elsewhere_are_refused() {
    assert_eq!(resolve_current_generation(None), None);
    for contents in ["", " \n", ".", "..\n", "../other", "a/b", "a\\b"] {
        assert_eq!(resolve_current_generation(Some(contents)), None, "{contents:?}");
    }
    assert_eq!(resolve_current_generation(Some("\t...\n")).as_deref(), Some("..."));
}

#[test]
fn generation_names_tell_time_and_process_apart() {
    let name = new_generation_name(Some(1), 2);
    assert_ne!(name, new_generation_name(Some(2), 2));
    assert_ne!(name, new_generation_name(Some(1), 3));
    assert_eq!(new_generation_name(None, 2), new_generation_name(Some(0), 2));
    assert_ne!(staging_name(&name), name);
}

#[test]
fn index_is_opened_where_it_is() {
    assert!(index_exists(Some(true), false));
    assert!(index_exists(Some(false), true));
    assert!(index_exists(None, true));
    assert!(!index_exists(Some(false), false));
    assert!(!index_exists(None, false));
    match open_target(Some("g".to_string())) {
        OpenTarget::Generation { name } => assert_eq!(name, "g"),
        other => panic!("unexpected: {:?}", other),
    }
    assert!(matches!(open_target(None), OpenTarget::Root));
}

#[test]
fn ingest_starts_from_what_there_is() {
    let (seed, pending) = open_for_ingest(Some("g".to_string()), true, Some(1), 1);
    assert!(matches!(seed, IngestSeed::Generation { name } if name == "g"));
    assert!(pending.replaces_published_generation);
    let (seed, pending) = open_for_ingest(None, true, Some(1), 1);
    assert!(matches!(seed, IngestSeed::Root));
    assert!(!pending.replaces_published_generation);
    let (seed, _) = open_for_ingest(None, false, Some(1), 1);
    assert!(matches!(seed, IngestSeed::Empty));
}

#[test]
fn stale_schema_is_refused_or_recreated() {
    let stale = stale_schema();
    assert!(matches!(open_step(Some(&stale), StaleSchemaPolicy::Error), OpenStep::Refuse));
    assert!(matches!(open_step(Some(&stale), StaleSchemaPolicy::Recreate), OpenStep::Recreate));
    assert!(matches!(open_step(None, StaleSchemaPolicy::Error), OpenStep::Create));
    let current = build_schema();
    match open_step(Some(&current), StaleSchemaPolicy::Error) {
        OpenStep::Use { fields } => assert_eq!(fields, load_fields(&current).unwrap()),
        other => panic!("unexpected: {:?}", other),
    }
}

#[test]
fn generation_is_published_once() {
    let (_, mut pending) = open_for_ingest(None, false, Some(1), 1);
    assert_eq!(publish_generation(None, true, true).unwrap(), PublishStep::Nothing);
    let step = |pending: &PendingGeneration, staging: bool, done: bool| {
        publish_generation(Some(pending), staging, done)
    };
    assert_eq!(step(&pending, true, false).unwrap(), PublishStep::MoveAndAdvance);
    assert_eq!(step(&pending, false, true).unwrap(), PublishStep::Advance);
    let error = step(&pending, false, false).unwrap_err();
    assert_eq!(
        error.message(),
        "index generation 00000000000000000000000000000001-00000001 has neither staging nor \
         published data"
    );
    assert!(removes_staging(&pending));
    assert!(publish_generation_if_uninitialized(Some(&pending)));
    pending.published = true;
    assert!(!removes_staging(&pending));
    assert_eq!(step(&pending, true, false).unwrap(), PublishStep::Nothing);
    pending.replaces_published_generation = true;
    assert!(!publish_generation_if_uninitialized(Some(&pending)));
    assert!(!publish_generation_if_uninitialized(None));
}

#[test]
fn index_errors_say_what_failed() {
    assert!(check_writable(true).is_ok());
    assert_eq!(
        check_writable(false).unwrap_err().message(),
        "cannot create a writer for a sealed index generation"
    );
    let stale = IndexError::StaleSchema { path: "/idx".to_string() };
    assert_eq!(
        stale.message(),
        "index schema at /idx is stale; run `memex index` or `memex reindex` to rebuild it"
    );
}

#[test]
fn files_of_a_generation_are_shared_unless_replaced() {
    assert_eq!(clone_step(true, "abc.store"), CloneStep::Share);
    assert_eq!(clone_step(true, "meta.json"), CloneStep::Copy);
    assert_eq!(clone_step(true, ".managed.json"), CloneStep::Copy);
    assert_eq!(clone_step(true, ".tantivy-meta.lock"), CloneStep::Skip);
    assert_eq!(clone_step(true, ".tantivy-writer.lock"), CloneStep::Skip);
    assert_eq!(clone_step(false, "abc.store"), CloneStep::Skip);
    assert!(should_copy_generation_file("meta.json"));
    assert!(!should_copy_generation_file("other.json"));
}
