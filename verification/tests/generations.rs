//! Whole life cycles of an index, kept in memory.

use memex::index::document::{record_document, record_from_doc};
use memex::index::generation::{
    check_writable, current_file_contents, index_exists, mark_published, open_for_ingest,
    open_step, open_target, publish_generation, resolve_current_generation, IndexError, IngestSeed,
    OpenStep, OpenTarget, PendingGeneration, PublishStep, StaleSchemaPolicy,
};
use memex::index::layout::{new_layout, IndexFields};
use memex::index::search::{build_query, QueryOptions};
use memex::types::{Record, RecordLinks, SourceKind, SourceLabels};
use std::cell::{Cell, RefCell};
use std::collections::HashMap;
use std::path::Path;
use tantivy::collector::TopDocs;
use tantivy::directory::{Directory, RamDirectory};
use tantivy::schema::{SchemaBuilder, FAST, INDEXED, STORED, STRING, TEXT};
use tantivy::{Index, IndexSettings, IndexWriter, TantivyDocument};

fn labels() -> SourceLabels {
    SourceLabels {
        claude: "assistant".to_string(),
        codex_session: "codex_session".to_string(),
        codex_history: "codex_history".to_string(),
        cursor: "cursor".to_string(),
        opencode: "opencode".to_string(),
        pi: "pi".to_string(),
        copilot: "copilot".to_string(),
        hermes: "hermes".to_string(),
    }
}

fn test_record(doc_id: u64, text: &str) -> Record {
    Record {
        source: SourceKind::CodexSession,
        doc_id,
        ts: doc_id,
        project: "memex".to_string(),
        session_id: "session".to_string(),
        turn_id: doc_id as u32,
        role: "user".to_string(),
        text: text.to_string(),
        tool_name: None,
        tool_input: None,
        tool_output: None,
        links: RecordLinks::default(),
        source_path: "session.jsonl".to_string(),
    }
}

fn has_meta(directory: &RamDirectory) -> bool {
    directory.exists(Path::new("meta.json")).unwrap()
}

/// An index root: directories by name, the root's own under the empty name.
struct Root {
    current: RefCell<Option<String>>,
    directories: RefCell<HashMap<String, RamDirectory>>,
    clock: Cell<u128>,
}

struct Opened {
    index: Index,
    fields: IndexFields,
    writable: bool,
    pending: Option<RefCell<PendingGeneration>>,
}

impl Root {
    fn new() -> Root {
        let directories = HashMap::from([(String::new(), RamDirectory::create())]);
        Root {
            current: RefCell::new(None),
            directories: RefCell::new(directories),
            clock: Cell::new(1),
        }
    }

    fn directory(&self, name: &str) -> RamDirectory {
        self.directories.borrow()[name].clone()
    }

    fn current(&self) -> Option<String> {
        resolve_current_generation(self.current.borrow().as_deref())
    }

    fn is_there(&self) -> bool {
        let generation = self.current().map(|name| has_meta(&self.directory(&name)));
        index_exists(generation, has_meta(&self.directory("")))
    }

    fn open(&self, name: &str, policy: StaleSchemaPolicy, writable: bool) -> Result<Opened, String> {
        let directory = self.directory(name);
        let found = if has_meta(&directory) {
            Some(Index::open(directory.clone()).unwrap())
        } else {
            None
        };
        let schema = found.as_ref().map(|index| index.schema());
        let fresh = |directory: RamDirectory| {
            let (schema, fields) = new_layout();
            let index = Index::create(directory, schema, IndexSettings::default()).unwrap();
            Opened { index, fields, writable, pending: None }
        };
        match open_step(schema.as_ref(), policy) {
            OpenStep::Create => Ok(fresh(directory)),
            OpenStep::Use { fields } => {
                Ok(Opened { index: found.unwrap(), fields, writable, pending: None })
            }
            OpenStep::Recreate => {
                let empty = RamDirectory::create();
                self.directories.borrow_mut().insert(name.to_string(), empty.clone());
                Ok(fresh(empty))
            }
            OpenStep::Refuse => {
                Err(IndexError::StaleSchema { path: "memory".to_string() }.message())
            }
        }
    }

    fn open_or_create(&self) -> Result<Opened, String> {
        match open_target(self.current()) {
            OpenTarget::Generation { name } => self.open(&name, StaleSchemaPolicy::Error, false),
            OpenTarget::Root => self.open("", StaleSchemaPolicy::Error, true),
        }
    }

    fn open_or_create_for_ingest(&self) -> Result<Opened, String> {
        let now = self.clock.get();
        self.clock.set(now + 1);
        let legacy = has_meta(&self.directory(""));
        let (seed, pending) = open_for_ingest(self.current(), legacy, Some(now), 7);
        let start = match seed {
            IngestSeed::Generation { name } => self.directory(&name).deep_clone(),
            IngestSeed::Root => self.directory("").deep_clone(),
            IngestSeed::Empty => RamDirectory::create(),
        };
        let staging = pending.staging_name.clone();
        self.directories.borrow_mut().insert(staging.clone(), start);
        let mut opened = self.open(&staging, StaleSchemaPolicy::Recreate, true)?;
        opened.pending = Some(RefCell::new(pending));
        Ok(opened)
    }

    fn publish(&self, opened: &Opened) -> Result<(), String> {
        let Some(pending) = &opened.pending else {
            return Ok(());
        };
        let mut pending = pending.borrow_mut();
        let mut directories = self.directories.borrow_mut();
        let step = publish_generation(
            Some(&pending),
            directories.contains_key(&pending.staging_name),
            directories.contains_key(&pending.generation_name),
        );
        match step.map_err(|error| error.message())? {
            PublishStep::Nothing => return Ok(()),
            PublishStep::MoveAndAdvance => {
                let built = directories.remove(&pending.staging_name).unwrap();
                directories.insert(pending.generation_name.clone(), built);
            }
            PublishStep::Advance => {}
        }
        *self.current.borrow_mut() = Some(current_file_contents(&pending.generation_name));
        mark_published(&mut pending);
        Ok(())
    }
}

impl Opened {
    fn writer(&self) -> Result<IndexWriter, String> {
        check_writable(self.writable).map_err(|error| error.message())?;
        Ok(self.index.writer_with_num_threads(1, 20_000_000).unwrap())
    }

    fn add_record(&self, writer: &mut IndexWriter, record: &Record) {
        writer.add_document(record_document(&labels(), &self.fields, record)).unwrap();
    }

    fn doc_count(&self) -> usize {
        self.index.reader().unwrap().searcher().num_docs() as usize
    }

    fn search(&self, query: &str) -> Vec<Record> {
        let options = QueryOptions {
            query: query.to_string(),
            project: None,
            role: None,
            tool: None,
            session_id: None,
            source: None,
            since: None,
            until: None,
            limit: 10,
        };
        let query =
            build_query(&labels(), &self.fields, &options, &self.index.schema()).unwrap();
        let searcher = self.index.reader().unwrap().searcher();
        let collector = TopDocs::with_limit(options.limit);
        let top = searcher.search(&query, &collector).unwrap();
        top.into_iter()
            .map(|(_, address)| {
                let document = searcher.doc::<TantivyDocument>(address).unwrap();
                record_from_doc(&labels(), &self.fields, &document, |_: &str| SourceKind::Pi)
            })
            .collect()
    }
}

fn create_stale_schema_index(root: &Root) {
    let mut builder = SchemaBuilder::default();
    builder.add_u64_field("doc_id", INDEXED | STORED);
    builder.add_u64_field("ts", FAST | STORED | INDEXED);
    builder.add_text_field("project", STRING | STORED);
    builder.add_text_field("session_id", STRING | STORED);
    builder.add_u64_field("turn_id", FAST | STORED);
    builder.add_text_field("role", STRING | STORED);
    builder.add_text_field("source", STRING | STORED);
    builder.add_text_field("text", TEXT | STORED);
    builder.add_text_field("tool_name", STRING | STORED);
    builder.add_text_field("tool_input", TEXT | STORED);
    builder.add_text_field("tool_output", TEXT | STORED);
    builder.add_text_field("source_path", STRING | STORED);
    let directory = root.directory("");
    Index::create(directory.clone(), builder.build(), IndexSettings::default()).unwrap();
    directory.atomic_write(Path::new("sentinel"), b"keep").unwrap();
}

#[test]
fn read_only_open_preserves_stale_schema_index() {
    let root = Root::new();
    create_stale_schema_index(&root);

    let err = match root.open_or_create() {
        Ok(_) => panic!("stale index unexpectedly opened"),
        Err(err) => err,
    };

    assert!(err.contains("index schema"));
    assert!(has_meta(&root.directory("")));
    assert!(root.directory("").exists(Path::new("sentinel")).unwrap());
}

#[test]
fn ingest_open_recreates_stale_schema_index() {
    let root = Root::new();
    create_stale_schema_index(&root);

    let index = root.open_or_create_for_ingest().expect("recreate stale index");

    assert_eq!(index.doc_count(), 0);
    root.publish(&index).expect("publish generation");
    assert!(root.is_there());
    assert_eq!(root.open_or_create().expect("open published generation").doc_count(), 0);
}

#[test]
fn publishing_generation_atomically_advances_new_readers() {
    let root = Root::new();
    let first = root.open_or_create_for_ingest().expect("first generation");
    let mut writer = first.writer().expect("first writer");
    first.add_record(&mut writer, &test_record(1, "first"));
    writer.commit().expect("commit first");
    writer.wait_merging_threads().expect("finish first writer");
    root.publish(&first).expect("publish first");

    let old_reader = root.open_or_create().expect("old reader");
    assert_eq!(old_reader.doc_count(), 1);

    let second = root.open_or_create_for_ingest().expect("second generation");
    let mut writer = second.writer().expect("second writer");
    second.add_record(&mut writer, &test_record(2, "second"));
    writer.commit().expect("commit second");
    writer.wait_merging_threads().expect("finish second writer");

    assert_eq!(root.open_or_create().expect("reader before publish").doc_count(), 1);
    root.publish(&second).expect("publish second");
    assert_eq!(root.open_or_create().expect("reader after publish").doc_count(), 2);
    assert_eq!(old_reader.doc_count(), 1);
}

#[test]
fn publishing_waits_for_merges_without_losing_segments() {
    let root = Root::new();
    let index = root.open_or_create_for_ingest().expect("generation");
    let mut writer = index.writer().expect("writer");

    for doc_id in 1..=4 {
        index.add_record(&mut writer, &test_record(doc_id, &format!("unique{doc_id}")));
        writer.commit().expect("commit segment");
    }

    let segment_ids = index.index.searchable_segment_ids().expect("segments before merge");
    assert!(segment_ids.len() > 1);
    writer.merge(&segment_ids).wait().expect("merge segments");
    writer.wait_merging_threads().expect("finish writer");
    root.publish(&index).expect("publish generation");

    let published = root.open_or_create().expect("published generation");
    assert_eq!(published.doc_count(), 4);
    assert_eq!(
        published.index.searchable_segment_ids().expect("published segments").len(),
        1
    );
    for doc_id in 1..=4 {
        assert_eq!(published.search(&format!("unique{doc_id}")).len(), 1);
    }
}

#[test]
fn legacy_index_is_adopted_without_rebuilding() {
    let root = Root::new();
    let legacy = root.open_or_create().expect("legacy index");
    let mut writer = legacy.writer().expect("legacy writer");
    legacy.add_record(&mut writer, &test_record(1, "preserved"));
    writer.commit().expect("commit legacy index");
    writer.wait_merging_threads().expect("finish legacy writer");

    let adopted = root.open_or_create_for_ingest().expect("adopt legacy index");
    assert_eq!(adopted.doc_count(), 1);
    root.publish(&adopted).expect("publish adoption");

    let published = root.open_or_create().expect("published generation");
    assert_eq!(published.doc_count(), 1);
    assert_eq!(published.search("preserved"), vec![test_record(1, "preserved")]);
}

#[test]
fn sealed_generation_can_be_read_but_not_written() {
    let root = Root::new();
    assert!(!root.is_there());
    let writable = root.open_or_create_for_ingest().expect("generation");
    let mut writer = writable.writer().expect("writer");
    writable.add_record(&mut writer, &test_record(1, "needle"));
    writer.commit().expect("commit");
    writer.wait_merging_threads().expect("finish writer");
    root.publish(&writable).expect("publish");
    root.publish(&writable).expect("publish again");

    let sealed = root.open_or_create().expect("open sealed generation");
    assert_eq!(sealed.search("needle").len(), 1);
    assert_eq!(
        sealed.writer().err().as_deref(),
        Some("cannot create a writer for a sealed index generation")
    );
}
