//! Source-owned transcript identity and projection adapters.
//!
//! Indexing and usage reconstruction deliberately remain independent projections. What stands here
//! makes them share source identity, hierarchy, and parser-version rules without a persisted
//! normalized transcript store.

use crate::state::PendingToolCall;
use crate::text;
use crate::text_map::TextMap;
use crate::types::SourceKind;
use crate::usage::UsageEvent;
use std::path::PathBuf;
use vstd::prelude::*;

pub mod hermes;

verus! {

broadcast use vstd::string::group_string_axioms;

/// What a session is to the session that it came from.
#[derive(Clone, Copy, Debug, Eq, PartialEq, Structural)]
pub enum ConversationKind {
    Main,
    Subagent,
    Sidechain,
    Fork,
    Branch,
    Compaction,
}

/// The name of a conversation kind.
pub open spec fn kind_name(kind: ConversationKind) -> Seq<char> {
    match kind {
        ConversationKind::Main => "main"@,
        ConversationKind::Subagent => "subagent"@,
        ConversationKind::Sidechain => "sidechain"@,
        ConversationKind::Fork => "fork"@,
        ConversationKind::Branch => "branch"@,
        ConversationKind::Compaction => "compaction"@,
    }
}

impl ConversationKind {
    /// The name of this kind.
    pub fn as_str(self) -> (r: &'static str)
        ensures
            r@ == kind_name(self),
    {
        match self {
            Self::Main => "main",
            Self::Subagent => "subagent",
            Self::Sidechain => "sidechain",
            Self::Fork => "fork",
            Self::Branch => "branch",
            Self::Compaction => "compaction",
        }
    }
}

/// No two conversation kinds have the same name.
pub proof fn law_kind_names_differ(a: ConversationKind, b: ConversationKind)
    requires
        kind_name(a) == kind_name(b),
    ensures
        a == b,
{
    reveal_strlit("main");
    reveal_strlit("subagent");
    reveal_strlit("sidechain");
    reveal_strlit("fork");
    reveal_strlit("branch");
    reveal_strlit("compaction");
    assert("main"@.len() == 4 && "main"@[0] == 'm');
    assert("fork"@.len() == 4 && "fork"@[0] == 'f');
    assert("subagent"@.len() == 8 && "sidechain"@.len() == 9);
    assert("branch"@.len() == 6 && "compaction"@.len() == 10);
}

/// A transcript file.
#[derive(Debug, Eq, PartialEq)]
pub struct SourceFile {
    pub source: SourceKind,
    pub path: PathBuf,
}

/// Which session a transcript belongs to.
#[derive(Debug, Eq, PartialEq)]
pub struct SessionIdentity {
    pub source: SourceKind,
    pub session_id: String,
    pub parent_session_id: Option<String>,
    pub conversation_kind: ConversationKind,
    pub source_path: PathBuf,
}

/// What is known of a session apart from its messages.
#[derive(Debug, Eq, PartialEq)]
pub struct SourceMetadata {
    pub session: SessionIdentity,
    pub cwd: Option<PathBuf>,
    pub project: Option<String>,
    pub git_branch: Option<String>,
}

/// The versions of the rules by which a source is read.
#[derive(Clone, Copy, Debug, Eq, PartialEq, Structural)]
pub struct ParserVersions {
    /// Rules shared by both projections: discovery, logical session, hierarchy, and project.
    pub identity: u32,
    /// Record projection.
    pub index: u32,
    /// Request/token projection.
    pub usage: i64,
}

/// The parser versions that the other source modules declare.
#[derive(Clone, Copy, Debug, Eq, PartialEq, Structural)]
pub struct VersionTable {
    pub claude: ParserVersions,
    pub codex: ParserVersions,
    pub cursor: ParserVersions,
    pub opencode: ParserVersions,
    pub pi: ParserVersions,
    pub copilot: ParserVersions,
}

/// Counts of what a parser could not make use of.
#[derive(Debug)]
pub struct ParseDiagnostics {
    pub malformed_json_lines: u64,
    pub duplicate_tool_calls: u64,
    pub orphan_tool_results: u64,
    pub encrypted_reasoning_dropped: u64,
    /// How often each unknown role or shape was met.
    pub unknown_semantics: TextMap<u64>,
}

/// The model of [`ParseDiagnostics`].
#[verifier::ext_equal]
pub struct DiagnosticsModel {
    pub malformed_json_lines: int,
    pub duplicate_tool_calls: int,
    pub orphan_tool_results: int,
    pub encrypted_reasoning_dropped: int,
    pub unknown_semantics: Map<Seq<char>, int>,
}

impl View for ParseDiagnostics {
    type V = DiagnosticsModel;

    open spec fn view(&self) -> DiagnosticsModel {
        DiagnosticsModel {
            malformed_json_lines: self.malformed_json_lines as int,
            duplicate_tool_calls: self.duplicate_tool_calls as int,
            orphan_tool_results: self.orphan_tool_results as int,
            encrypted_reasoning_dropped: self.encrypted_reasoning_dropped as int,
            unknown_semantics: self.unknown_semantics@.map_values(|count: u64| count as int),
        }
    }
}

impl DiagnosticsModel {
    /// Nothing was counted.
    pub open spec fn nothing() -> Self {
        DiagnosticsModel {
            malformed_json_lines: 0,
            duplicate_tool_calls: 0,
            orphan_tool_results: 0,
            encrypted_reasoning_dropped: 0,
            unknown_semantics: Map::empty(),
        }
    }

    /// How often `name` was met.
    pub open spec fn met(self, name: Seq<char>) -> int {
        if self.unknown_semantics.dom().contains(name) {
            self.unknown_semantics[name]
        } else {
            0
        }
    }

    /// The counts after `name` was met once more.
    pub open spec fn meet(self, name: Seq<char>) -> Self {
        DiagnosticsModel {
            unknown_semantics: self.unknown_semantics.insert(name, self.met(name) + 1),
            ..self
        }
    }

    /// No count is above `bound`.
    pub open spec fn within(self, bound: int) -> bool {
        &&& self.malformed_json_lines <= bound
        &&& self.duplicate_tool_calls <= bound
        &&& self.orphan_tool_results <= bound
        &&& self.encrypted_reasoning_dropped <= bound
        &&& forall|name: Seq<char>| #[trigger] self.met(name) <= bound
    }
}

impl Default for ParseDiagnostics {
    fn default() -> (r: Self)
        ensures
            r@ == DiagnosticsModel::nothing(),
    {
        let r = ParseDiagnostics {
            malformed_json_lines: 0,
            duplicate_tool_calls: 0,
            orphan_tool_results: 0,
            encrypted_reasoning_dropped: 0,
            unknown_semantics: TextMap::new(),
        };
        assert(r@ =~= DiagnosticsModel::nothing());
        r
    }
}

impl ParseDiagnostics {
    /// Counts that `name` was met once more.
    pub fn increment_unknown_semantic(&mut self, name: &str)
        requires
            old(self)@.met(name@) < u64::MAX,
        ensures
            final(self)@ == old(self)@.meet(name@),
    {
        let count: u64 = match self.unknown_semantics.get(name) {
            Some(count) => *count,
            None => 0,
        };
        self.unknown_semantics.insert(text::owned(name), count + 1);
        assert(self@ =~= old(self)@.meet(name@));
    }
}

/// Where the record projection of a source file stands.
#[derive(Debug)]
pub struct IndexParseState {
    pub offset: u64,
    pub turn_id: u32,
    pub pending_tool_calls: TextMap<PendingToolCall>,
}

impl Default for IndexParseState {
    fn default() -> (r: Self)
        ensures
            r.offset == 0,
            r.turn_id == 0,
            r.pending_tool_calls@ == Map::<Seq<char>, PendingToolCall>::empty(),
    {
        IndexParseState { offset: 0, turn_id: 0, pending_tool_calls: TextMap::new() }
    }
}

impl Clone for IndexParseState {
    fn clone(&self) -> (r: Self)
        ensures
            r.offset == self.offset,
            r.turn_id == self.turn_id,
            r.pending_tool_calls@ == self.pending_tool_calls@,
    {
        let r = IndexParseState {
            offset: self.offset,
            turn_id: self.turn_id,
            pending_tool_calls: self.pending_tool_calls.clone(),
        };
        assert(r.pending_tool_calls@ =~= self.pending_tool_calls@);
        r
    }
}

/// What the record projection of a source file came to.
#[derive(Debug)]
pub struct IndexParseOutput {
    pub offset: u64,
    pub turn_id: u32,
    pub pending_tool_calls: TextMap<PendingToolCall>,
    pub session_id: Option<String>,
    pub diagnostics: ParseDiagnostics,
}

/// A file whose content a cached usage projection depends on. Sources that reconstruct cross-file
/// state attach these fingerprints to their parse result.
#[derive(Debug, Eq, PartialEq)]
pub struct UsageDependency {
    pub path: String,
    pub size: u64,
    pub mtime_ns: i64,
}

impl Clone for UsageDependency {
    fn clone(&self) -> (r: Self)
        ensures
            r == *self,
    {
        UsageDependency { path: self.path.clone(), size: self.size, mtime_ns: self.mtime_ns }
    }
}

/// A modification time in nanoseconds as it is stored: times before the epoch count as the epoch,
/// times that do not fit as the largest that does.
pub open spec fn stored_mtime(nanos_since_epoch: Option<u128>) -> i64 {
    match nanos_since_epoch {
        None => 0,
        Some(nanos) => if nanos > i64::MAX {
            i64::MAX
        } else {
            nanos as i64
        },
    }
}

impl UsageDependency {
    /// The fingerprint of the file at `path`, from its size and from the nanoseconds between the
    /// epoch and its last modification (`None` for a modification before the epoch).
    pub fn from_path(path: &str, size: u64, modified: Option<u128>) -> (r: Self)
        ensures
            r.path@ == path@,
            r.size == size,
            r.mtime_ns == stored_mtime(modified),
    {
        let mtime_ns: i64 = match modified {
            None => 0,
            Some(nanos) => {
                if nanos > i64::MAX as u128 {
                    i64::MAX
                } else {
                    nanos as i64
                }
            },
        };
        UsageDependency { path: text::owned(path), size, mtime_ns }
    }

    /// The file has the size and the modification time that it had.
    pub open spec fn unchanged(self, current: UsageDependency) -> bool {
        current.size == self.size && current.mtime_ns == self.mtime_ns
    }

    /// Whether the file is still as it was. `current` is its fingerprint now, `None` when it
    /// cannot be taken.
    pub fn is_current(&self, current: Option<&UsageDependency>) -> (r: bool)
        ensures
            r == (current is Some && self.unchanged(*current->0)),
            r <==> current is Some && current->0.size == self.size && current->0.mtime_ns
                == self.mtime_ns,
    {
        match current {
            Some(current) => current.size == self.size && current.mtime_ns == self.mtime_ns,
            None => false,
        }
    }
}

/// Source-owned usage parsing output. The shared usage pipeline only caches and assembles it.
#[derive(Debug)]
pub struct UsageParseOutput<C> {
    pub events: Vec<UsageEvent<C>>,
    pub cacheable: bool,
    pub deps: Vec<UsageDependency>,
}

impl<C> UsageParseOutput<C> {
    /// Events that depend on no other file and may be cached.
    pub fn cacheable(events: Vec<UsageEvent<C>>) -> (r: Self)
        ensures
            r.events == events,
            r.cacheable,
            r.deps@ == Seq::<UsageDependency>::empty(),
    {
        UsageParseOutput { events, cacheable: true, deps: Vec::new() }
    }
}

/// The parser versions of a source.
pub open spec fn source_versions(table: VersionTable, source: SourceKind) -> ParserVersions {
    match source {
        SourceKind::Claude => table.claude,
        SourceKind::CodexSession => table.codex,
        SourceKind::CodexHistory => table.codex,
        SourceKind::Cursor => table.cursor,
        SourceKind::Opencode => table.opencode,
        SourceKind::Pi => table.pi,
        SourceKind::Copilot => table.copilot,
        SourceKind::Hermes => hermes::own_versions(),
    }
}

/// The parser versions of a source, out of those that the source modules declare.
pub fn versions(table: &VersionTable, source: SourceKind) -> (r: ParserVersions)
    ensures
        r == source_versions(*table, source),
{
    match source {
        SourceKind::Claude => table.claude,
        SourceKind::CodexSession => table.codex,
        SourceKind::CodexHistory => table.codex,
        SourceKind::Cursor => table.cursor,
        SourceKind::Opencode => table.opencode,
        SourceKind::Pi => table.pi,
        SourceKind::Copilot => table.copilot,
        SourceKind::Hermes => hermes::versions(),
    }
}

/// Identity and index version as one number, before it is cut to 32 bits.
pub open spec fn combined_version(versions: ParserVersions) -> int {
    let scaled = versions.identity * 10_000;
    (if scaled > u32::MAX {
        u32::MAX as int
    } else {
        scaled
    }) + versions.index
}

/// The version that ingest state is tied to: a change of the identity or of the index rules
/// changes it.
pub fn index_state_version(table: &VersionTable, source: SourceKind) -> (r: u32)
    requires
        combined_version(source_versions(*table, source)) <= u32::MAX,
    ensures
        r == combined_version(source_versions(*table, source)),
{
    let versions = versions(table, source);
    let scaled: u32 = match versions.identity.checked_mul(10_000) {
        Some(scaled) => scaled,
        None => u32::MAX,
    };
    scaled + versions.index
}

/// Ingest state made under one pair of identity and index version is not taken for state made
/// under another, as long as index versions stay below 10000 and identity versions are not cut
/// off.
pub proof fn law_state_versions_differ(a: ParserVersions, b: ParserVersions)
    requires
        a.index < 10_000,
        b.index < 10_000,
        a.identity * 10_000 <= u32::MAX,
        b.identity * 10_000 <= u32::MAX,
        combined_version(a) == combined_version(b),
    ensures
        a.identity == b.identity,
        a.index == b.index,
{
}

/// Compatibility classification for persisted records that only carry a source path.
///
/// Individual path rules stay beside the source discovery code that defines them: the caller
/// passes them in. They are asked in this order, and the first that claims the path decides. What
/// none of them claims falls to the one source that has no rule here.
pub fn classify_path<X, O, U, P, G>(
    path: &str,
    codex: X,
    opencode: O,
    cursor: U,
    pi: P,
    copilot: G,
) -> (r: SourceKind) where
    X: Fn(&str) -> Option<SourceKind>,
    O: Fn(&str) -> bool,
    U: Fn(&str) -> bool,
    P: Fn(&str) -> bool,
    G: Fn(&str) -> bool,

    requires
        call_requires(codex, (path,)),
        call_requires(opencode, (path,)),
        call_requires(cursor, (path,)),
        call_requires(pi, (path,)),
        call_requires(copilot, (path,)),
    ensures
        ({
            let unclaimed = call_ensures(codex, (path,), None);
            let not_opencode = unclaimed && call_ensures(opencode, (path,), false);
            let not_cursor = not_opencode && call_ensures(cursor, (path,), false);
            let not_pi = not_cursor && call_ensures(pi, (path,), false);
            let not_copilot = not_pi && call_ensures(copilot, (path,), false);
            ||| call_ensures(codex, (path,), Some(r))
            ||| unclaimed && call_ensures(opencode, (path,), true) && r is Opencode
            ||| not_opencode && call_ensures(cursor, (path,), true) && r is Cursor
            ||| not_cursor && call_ensures(pi, (path,), true) && r is Pi
            ||| not_pi && call_ensures(copilot, (path,), true) && r is Copilot
            ||| not_copilot && r is Claude
        }),
{
    if let Some(source) = codex(path) {
        source
    } else if opencode(path) {
        SourceKind::Opencode
    } else if cursor(path) {
        SourceKind::Cursor
    } else if pi(path) {
        SourceKind::Pi
    } else if copilot(path) {
        SourceKind::Copilot
    } else {
        SourceKind::Claude
    }
}

/// Meeting something counts it once more, and counts nothing else.
pub proof fn law_meeting_counts_once(counted: DiagnosticsModel, name: Seq<char>, other: Seq<char>)
    ensures
        ({
            let after = counted.meet(name);
            &&& after.met(name) == counted.met(name) + 1
            &&& other != name ==> after.met(other) == counted.met(other)
            &&& after.malformed_json_lines == counted.malformed_json_lines
            &&& after.duplicate_tool_calls == counted.duplicate_tool_calls
            &&& after.orphan_tool_results == counted.orphan_tool_results
            &&& after.encrypted_reasoning_dropped == counted.encrypted_reasoning_dropped
            &&& DiagnosticsModel::nothing().met(name) == 0
        }),
{
}

/// A modification time is stored as it is, where it fits: a later one is never stored as an earlier
/// one, and none is stored below zero.
pub proof fn law_modification_times_are_kept(nanos: u128, later: u128)
    requires
        nanos <= later,
    ensures
        nanos <= i64::MAX ==> stored_mtime(Some(nanos)) == nanos,
        stored_mtime(Some(nanos)) <= stored_mtime(Some(later)),
        nanos > i64::MAX ==> stored_mtime(Some(nanos)) == i64::MAX,
        stored_mtime(None) == 0,
{
}

/// A file counts as unchanged just where both its size and its modification time are what they
/// were.
pub proof fn law_unchanged_files(before: UsageDependency, now: UsageDependency)
    ensures
        before.unchanged(now) <==> before.size == now.size && before.mtime_ns == now.mtime_ns,
{
}

/// Each source is read by the rules that its module declares; both kinds of Codex transcripts by
/// those of one module.
pub proof fn law_versions_are_those_of_the_source(table: VersionTable)
    ensures
        source_versions(table, SourceKind::Claude) == table.claude,
        source_versions(table, SourceKind::CodexSession) == table.codex,
        source_versions(table, SourceKind::CodexHistory) == table.codex,
        source_versions(table, SourceKind::Cursor) == table.cursor,
        source_versions(table, SourceKind::Opencode) == table.opencode,
        source_versions(table, SourceKind::Pi) == table.pi,
        source_versions(table, SourceKind::Copilot) == table.copilot,
        source_versions(table, SourceKind::Hermes) == hermes::own_versions(),
{
}

/// A new version of the index rules makes the combined version larger by one, and one of the
/// identity rules by ten thousand, as long as nothing is cut off. The usage rules have no say.
pub proof fn law_new_rules_make_a_new_version(versions: ParserVersions, usage: i64)
    requires
        (versions.identity + 1) * 10_000 <= u32::MAX,
        versions.index < u32::MAX,
    ensures
        combined_version(ParserVersions { identity: 0, index: 0, usage }) == 0,
        combined_version(ParserVersions { index: (versions.index + 1) as u32, ..versions })
            == combined_version(versions) + 1,
        combined_version(ParserVersions { identity: (versions.identity + 1) as u32, ..versions })
            == combined_version(versions) + 10_000,
        combined_version(ParserVersions { usage, ..versions }) == combined_version(versions),
{
}

} // verus!
