use memex::sources::hermes;
use memex::sources::{
    classify_path, index_state_version, versions, ConversationKind, ParseDiagnostics,
    ParserVersions, UsageDependency, UsageParseOutput, VersionTable,
};
use memex::state::{unix_timestamp, IngestState, ScanCache};
use memex::types::{SourceFilter, SourceKind, SourceLabels};
use memex::usage::TokenBuckets;

fn table() -> VersionTable {
    let of = |identity: u32| ParserVersions { identity, index: 7, usage: 1 };
    VersionTable {
        claude: of(1),
        codex: of(2),
        cursor: of(3),
        opencode: of(4),
        pi: of(5),
        copilot: of(6),
    }
}

fn labels() -> SourceLabels {
    SourceLabels {
        claude: "assistant".to_string(),
        codex_session: "codex_session".to_string(),
        codex_history: "codex_history".to_string(),
        cursor: "cursor".to_string(),
        opencode: "opencode".to_string(),
        pi: "pi".to_string(),
        copilot: "copilot".to_string(),
        hermes: "hermes".to_string(),
    }
}

#[test]
fn scan_cache_is_fresh_for_its_ttl() {
    let mut cache = ScanCache::default();
    cache.update_at(3, 1024, 1000);
    assert_eq!(cache.file_count, 3);
    assert_eq!(cache.total_bytes, 1024);
    assert!(cache.is_fresh_at(60, 1000));
    assert!(cache.is_fresh_at(60, 1059));
    assert!(!cache.is_fresh_at(60, 1060));
    assert!(!cache.is_fresh_at(0, 1000));
    // A clock that went back does not make a scan stale.
    assert!(cache.is_fresh_at(60, 10));
}

#[test]
fn clock_before_the_epoch_counts_as_the_epoch() {
    assert_eq!(unix_timestamp(Some(1_783_000_000)), 1_783_000_000);
    assert_eq!(unix_timestamp(None), 0);
}

#[test]
fn scan_cache_goes_by_the_clock() {
    let mut cache = ScanCache::default();
    assert!(!cache.is_fresh(3600));
    cache.update(1, 2);
    // Some time after 2020, so the clock was read.
    assert!(cache.last_scan_ts > 1_577_836_800);
    assert!(cache.is_fresh(3600));
    assert!(!cache.is_fresh(0));
}

#[test]
fn document_ids_start_at_one() {
    let state = IngestState::default();
    assert_eq!(state.next_doc_id, 1);
    assert_eq!(state.files.len(), 0);
}

#[test]
fn conversation_kinds_have_names() {
    let names = vec![
        ConversationKind::Main.as_str(),
        ConversationKind::Subagent.as_str(),
        ConversationKind::Sidechain.as_str(),
        ConversationKind::Fork.as_str(),
        ConversationKind::Branch.as_str(),
        ConversationKind::Compaction.as_str(),
    ];
    assert_eq!(names, vec!["main", "subagent", "sidechain", "fork", "branch", "compaction"]);
}

#[test]
fn each_source_has_its_versions() {
    let table = table();
    assert_eq!(versions(&table, SourceKind::CodexSession), table.codex);
    assert_eq!(versions(&table, SourceKind::CodexHistory), table.codex);
    assert_eq!(versions(&table, SourceKind::Copilot), table.copilot);
    assert_eq!(versions(&table, SourceKind::Hermes), hermes::versions());
    assert_eq!(hermes::versions(), ParserVersions { identity: 1, index: 2, usage: 1 });
}

#[test]
fn state_version_combines_identity_and_index() {
    let mut table = table();
    assert_eq!(index_state_version(&table, SourceKind::Pi), 50_007);
    assert_eq!(index_state_version(&table, SourceKind::Hermes), 10_002);
    table.pi = ParserVersions { identity: u32::MAX, index: 0, usage: 1 };
    assert_eq!(index_state_version(&table, SourceKind::Pi), u32::MAX);
}

#[test]
fn usage_dependencies_notice_changes() {
    let before = UsageDependency::from_path("/log", 10, Some(5));
    assert_eq!(before.path, "/log");
    assert_eq!(before.mtime_ns, 5);
    assert!(before.is_current(Some(&UsageDependency::from_path("/log", 10, Some(5)))));
    assert!(!before.is_current(Some(&UsageDependency::from_path("/log", 11, Some(5)))));
    assert!(!before.is_current(Some(&UsageDependency::from_path("/log", 10, Some(6)))));
    assert!(!before.is_current(None));
    assert_eq!(UsageDependency::from_path("/log", 1, None).mtime_ns, 0);
    assert_eq!(UsageDependency::from_path("/log", 1, Some(u128::MAX)).mtime_ns, i64::MAX);
}

#[test]
fn cacheable_output_depends_on_nothing() {
    let output: UsageParseOutput<u64> = UsageParseOutput::cacheable(Vec::new());
    assert!(output.cacheable);
    assert!(output.events.is_empty());
    assert!(output.deps.is_empty());
}

#[test]
fn first_rule_that_claims_a_path_decides() {
    let ask = |path: &str| {
        classify_path(
            path,
            |path: &str| {
                if path.contains("codex") {
                    Some(SourceKind::CodexHistory)
                } else {
                    None
                }
            },
            |path: &str| path.contains("opencode"),
            |path: &str| path.contains("cursor"),
            |path: &str| path.ends_with("pi"),
            |path: &str| path.contains("copilot"),
        )
    };
    assert_eq!(ask("codex/opencode"), SourceKind::CodexHistory);
    assert_eq!(ask("opencode/cursor"), SourceKind::Opencode);
    assert_eq!(ask("cursor/pi"), SourceKind::Cursor);
    assert_eq!(ask("pi"), SourceKind::Pi);
    assert_eq!(ask("the copilot"), SourceKind::Copilot);
    assert_eq!(ask("elsewhere"), SourceKind::Claude);
}

#[test]
fn unknown_shapes_are_counted_by_name() {
    let mut diagnostics = ParseDiagnostics::default();
    diagnostics.increment_unknown_semantic("x");
    diagnostics.increment_unknown_semantic("y");
    diagnostics.increment_unknown_semantic("x");
    assert_eq!(diagnostics.unknown_semantics.get("x"), Some(&2));
    assert_eq!(diagnostics.unknown_semantics.get("y"), Some(&1));
    assert_eq!(diagnostics.malformed_json_lines, 0);
}

#[test]
fn sources_are_read_back_from_their_labels() {
    let labels = labels();
    let kinds = [
        SourceKind::Claude,
        SourceKind::CodexSession,
        SourceKind::CodexHistory,
        SourceKind::Cursor,
        SourceKind::Opencode,
        SourceKind::Pi,
        SourceKind::Copilot,
        SourceKind::Hermes,
    ];
    for kind in kinds {
        assert_eq!(labels.from_label(labels.storage_label(kind)), Some(kind));
    }
    assert_eq!(labels.from_label("unknown"), None);
    assert_eq!(
        labels.storage_labels(SourceFilter::Codex),
        vec!["codex_session", "codex_history"]
    );
    assert_eq!(labels.storage_labels(SourceFilter::Hermes), vec!["hermes"]);
}

#[test]
fn token_totals_do_not_overflow() {
    let tokens = TokenBuckets::disjoint(1, 2, 3, 4);
    assert_eq!(tokens.additive_total(), 10);
    assert_eq!(tokens.reasoning, 0);
    assert_eq!(TokenBuckets::disjoint(u64::MAX, 1, 0, 0).additive_total(), u64::MAX);
}
