//! The types that the parts of the library share.

use crate::text;
use crate::text::{copy_opt, same};
use vstd::prelude::*;

verus! {

broadcast use vstd::string::group_string_axioms;

/// `std::path::PathBuf`, carried through without being looked into.
#[verifier::external_type_specification]
#[verifier::external_body]
pub struct ExPathBuf(std::path::PathBuf);

/// The tool that wrote a transcript.
#[derive(Clone, Copy, Debug, PartialEq, Eq, Structural)]
pub enum SourceKind {
    Claude,
    CodexSession,
    CodexHistory,
    Cursor,
    Opencode,
    Pi,
    Copilot,
    Hermes,
}

/// A choice of transcripts by the tool that wrote them.
#[derive(Clone, Copy, Debug, PartialEq, Eq, Structural)]
pub enum SourceFilter {
    Claude,
    Codex,
    Cursor,
    Opencode,
    Pi,
    Copilot,
    Hermes,
}

/// The labels under which the sources are stored in the index.
#[derive(Debug)]
pub struct SourceLabels {
    pub claude: String,
    pub codex_session: String,
    pub codex_history: String,
    pub cursor: String,
    pub opencode: String,
    pub pi: String,
    pub copilot: String,
    pub hermes: String,
}

impl SourceLabels {
    /// The label under which a source is stored.
    pub open spec fn stored(self, kind: SourceKind) -> Seq<char> {
        match kind {
            SourceKind::Claude => self.claude@,
            SourceKind::CodexSession => self.codex_session@,
            SourceKind::CodexHistory => self.codex_history@,
            SourceKind::Cursor => self.cursor@,
            SourceKind::Opencode => self.opencode@,
            SourceKind::Pi => self.pi@,
            SourceKind::Copilot => self.copilot@,
            SourceKind::Hermes => self.hermes@,
        }
    }

    /// No two sources are stored under the same label.
    pub open spec fn distinct(self) -> bool {
        forall|a: SourceKind, b: SourceKind|
            #![trigger self.stored(a), self.stored(b)]
            self.stored(a) == self.stored(b) ==> a == b
    }

    /// The source that is stored under `label`: the first one, in the order of [`SourceKind`].
    pub open spec fn labelled(self, label: Seq<char>) -> Option<SourceKind> {
        if label == self.claude@ {
            Some(SourceKind::Claude)
        } else if label == self.codex_session@ {
            Some(SourceKind::CodexSession)
        } else if label == self.codex_history@ {
            Some(SourceKind::CodexHistory)
        } else if label == self.cursor@ {
            Some(SourceKind::Cursor)
        } else if label == self.opencode@ {
            Some(SourceKind::Opencode)
        } else if label == self.pi@ {
            Some(SourceKind::Pi)
        } else if label == self.copilot@ {
            Some(SourceKind::Copilot)
        } else if label == self.hermes@ {
            Some(SourceKind::Hermes)
        } else {
            None
        }
    }

    /// The labels of the sources that a filter chooses.
    pub open spec fn chosen(self, filter: SourceFilter) -> Seq<Seq<char>> {
        match filter {
            SourceFilter::Codex => seq![self.codex_session@, self.codex_history@],
            SourceFilter::Claude => seq![self.claude@],
            SourceFilter::Cursor => seq![self.cursor@],
            SourceFilter::Opencode => seq![self.opencode@],
            SourceFilter::Pi => seq![self.pi@],
            SourceFilter::Copilot => seq![self.copilot@],
            SourceFilter::Hermes => seq![self.hermes@],
        }
    }

    /// The label under which a source is stored.
    pub fn storage_label(&self, kind: SourceKind) -> (r: &str)
        ensures
            r@ == self.stored(kind),
    {
        match kind {
            SourceKind::Claude => self.claude.as_str(),
            SourceKind::CodexSession => self.codex_session.as_str(),
            SourceKind::CodexHistory => self.codex_history.as_str(),
            SourceKind::Cursor => self.cursor.as_str(),
            SourceKind::Opencode => self.opencode.as_str(),
            SourceKind::Pi => self.pi.as_str(),
            SourceKind::Copilot => self.copilot.as_str(),
            SourceKind::Hermes => self.hermes.as_str(),
        }
    }

    /// The source that is stored under `label`.
    pub fn from_label(&self, label: &str) -> (r: Option<SourceKind>)
        ensures
            r == self.labelled(label@),
    {
        if same(label, self.claude.as_str()) {
            Some(SourceKind::Claude)
        } else if same(label, self.codex_session.as_str()) {
            Some(SourceKind::CodexSession)
        } else if same(label, self.codex_history.as_str()) {
            Some(SourceKind::CodexHistory)
        } else if same(label, self.cursor.as_str()) {
            Some(SourceKind::Cursor)
        } else if same(label, self.opencode.as_str()) {
            Some(SourceKind::Opencode)
        } else if same(label, self.pi.as_str()) {
            Some(SourceKind::Pi)
        } else if same(label, self.copilot.as_str()) {
            Some(SourceKind::Copilot)
        } else if same(label, self.hermes.as_str()) {
            Some(SourceKind::Hermes)
        } else {
            None
        }
    }

    /// The labels of the sources that a filter chooses.
    pub fn storage_labels(&self, filter: SourceFilter) -> (r: Vec<String>)
        ensures
            text::texts(r@) == self.chosen(filter),
    {
        let mut labels: Vec<String> = Vec::new();
        match filter {
            SourceFilter::Codex => {
                labels.push(self.codex_session.clone());
                labels.push(self.codex_history.clone());
            },
            SourceFilter::Claude => labels.push(self.claude.clone()),
            SourceFilter::Cursor => labels.push(self.cursor.clone()),
            SourceFilter::Opencode => labels.push(self.opencode.clone()),
            SourceFilter::Pi => labels.push(self.pi.clone()),
            SourceFilter::Copilot => labels.push(self.copilot.clone()),
            SourceFilter::Hermes => labels.push(self.hermes.clone()),
        }
        assert(text::texts(labels@) =~= self.chosen(filter));
        labels
    }
}

/// Whether a filter chooses the transcripts of a source.
pub open spec fn admits(filter: SourceFilter, kind: SourceKind) -> bool {
    match kind {
        SourceKind::Claude => filter is Claude,
        SourceKind::CodexSession => filter is Codex,
        SourceKind::CodexHistory => filter is Codex,
        SourceKind::Cursor => filter is Cursor,
        SourceKind::Opencode => filter is Opencode,
        SourceKind::Pi => filter is Pi,
        SourceKind::Copilot => filter is Copilot,
        SourceKind::Hermes => filter is Hermes,
    }
}

/// Reading a source back from its storage label gives the source that was stored.
pub proof fn law_label_round_trip(labels: SourceLabels, kind: SourceKind)
    requires
        labels.distinct(),
    ensures
        labels.labelled(labels.stored(kind)) == Some(kind),
{
    assert(labels.stored(SourceKind::Claude) == labels.claude@);
    assert(labels.stored(SourceKind::CodexSession) == labels.codex_session@);
    assert(labels.stored(SourceKind::CodexHistory) == labels.codex_history@);
    assert(labels.stored(SourceKind::Cursor) == labels.cursor@);
    assert(labels.stored(SourceKind::Opencode) == labels.opencode@);
    assert(labels.stored(SourceKind::Pi) == labels.pi@);
    assert(labels.stored(SourceKind::Copilot) == labels.copilot@);
    assert(labels.stored(SourceKind::Hermes) == labels.hermes@);
}

/// A filter's storage labels are those of the sources that it chooses.
pub proof fn law_filter_chooses_by_label(
    labels: SourceLabels,
    filter: SourceFilter,
    kind: SourceKind,
)
    requires
        labels.distinct(),
    ensures
        labels.chosen(filter).contains(labels.stored(kind)) <==> admits(filter, kind),
{
    let chosen = labels.chosen(filter);
    assert(labels.stored(SourceKind::Claude) == labels.claude@);
    assert(labels.stored(SourceKind::CodexSession) == labels.codex_session@);
    assert(labels.stored(SourceKind::CodexHistory) == labels.codex_history@);
    assert(labels.stored(SourceKind::Cursor) == labels.cursor@);
    assert(labels.stored(SourceKind::Opencode) == labels.opencode@);
    assert(labels.stored(SourceKind::Pi) == labels.pi@);
    assert(labels.stored(SourceKind::Copilot) == labels.copilot@);
    assert(labels.stored(SourceKind::Hermes) == labels.hermes@);
    if admits(filter, kind) {
        assert(chosen[0] == labels.stored(kind) || chosen[1] == labels.stored(kind));
    }
    if chosen.contains(labels.stored(kind)) {
        let i = choose|i: int| 0 <= i < chosen.len() && chosen[i] == labels.stored(kind);
        assert(i == 0 || i == 1);
    }
}

/// How a record hangs together with other events and sessions.
#[derive(Debug, PartialEq, Eq)]
pub struct RecordLinks {
    pub event_id: Option<String>,
    pub parent_event_id: Option<String>,
    pub logical_parent_event_id: Option<String>,
    pub parent_session_id: Option<String>,
    pub thread_source: Option<String>,
    pub conversation_kind: Option<String>,
    pub parent_tool_use_id: Option<String>,
    pub source_tool_use_id: Option<String>,
    pub source_tool_assistant_uuid: Option<String>,
}

/// The model of [`RecordLinks`].
#[verifier::ext_equal]
pub struct LinksModel {
    pub event_id: Option<Seq<char>>,
    pub parent_event_id: Option<Seq<char>>,
    pub logical_parent_event_id: Option<Seq<char>>,
    pub parent_session_id: Option<Seq<char>>,
    pub thread_source: Option<Seq<char>>,
    pub conversation_kind: Option<Seq<char>>,
    pub parent_tool_use_id: Option<Seq<char>>,
    pub source_tool_use_id: Option<Seq<char>>,
    pub source_tool_assistant_uuid: Option<Seq<char>>,
}

impl View for RecordLinks {
    type V = LinksModel;

    open spec fn view(&self) -> LinksModel {
        LinksModel {
            event_id: text::opt_text(self.event_id),
            parent_event_id: text::opt_text(self.parent_event_id),
            logical_parent_event_id: text::opt_text(self.logical_parent_event_id),
            parent_session_id: text::opt_text(self.parent_session_id),
            thread_source: text::opt_text(self.thread_source),
            conversation_kind: text::opt_text(self.conversation_kind),
            parent_tool_use_id: text::opt_text(self.parent_tool_use_id),
            source_tool_use_id: text::opt_text(self.source_tool_use_id),
            source_tool_assistant_uuid: text::opt_text(self.source_tool_assistant_uuid),
        }
    }
}

/// The links of a record that hangs together with nothing.
pub open spec fn no_links() -> LinksModel {
    LinksModel {
        event_id: None,
        parent_event_id: None,
        logical_parent_event_id: None,
        parent_session_id: None,
        thread_source: None,
        conversation_kind: None,
        parent_tool_use_id: None,
        source_tool_use_id: None,
        source_tool_assistant_uuid: None,
    }
}

impl Default for RecordLinks {
    fn default() -> (r: Self)
        ensures
            r@ == no_links(),
    {
        RecordLinks {
            event_id: None,
            parent_event_id: None,
            logical_parent_event_id: None,
            parent_session_id: None,
            thread_source: None,
            conversation_kind: None,
            parent_tool_use_id: None,
            source_tool_use_id: None,
            source_tool_assistant_uuid: None,
        }
    }
}

impl Clone for RecordLinks {
    fn clone(&self) -> (r: Self)
        ensures
            r == *self,
    {
        RecordLinks {
            event_id: copy_opt(&self.event_id),
            parent_event_id: copy_opt(&self.parent_event_id),
            logical_parent_event_id: copy_opt(&self.logical_parent_event_id),
            parent_session_id: copy_opt(&self.parent_session_id),
            thread_source: copy_opt(&self.thread_source),
            conversation_kind: copy_opt(&self.conversation_kind),
            parent_tool_use_id: copy_opt(&self.parent_tool_use_id),
            source_tool_use_id: copy_opt(&self.source_tool_use_id),
            source_tool_assistant_uuid: copy_opt(&self.source_tool_assistant_uuid),
        }
    }
}

/// One searchable piece of a transcript.
#[derive(Debug, PartialEq, Eq)]
pub struct Record {
    pub source: SourceKind,
    pub doc_id: u64,
    /// Milliseconds since the Unix epoch.
    pub ts: u64,
    pub project: String,
    pub session_id: String,
    pub turn_id: u32,
    pub role: String,
    pub text: String,
    pub tool_name: Option<String>,
    pub tool_input: Option<String>,
    pub tool_output: Option<String>,
    pub links: RecordLinks,
    pub source_path: String,
}

/// The model of [`Record`].
#[verifier::ext_equal]
pub struct RecordModel {
    pub source: SourceKind,
    pub doc_id: u64,
    pub ts: u64,
    pub project: Seq<char>,
    pub session_id: Seq<char>,
    pub turn_id: u32,
    pub role: Seq<char>,
    pub text: Seq<char>,
    pub tool_name: Option<Seq<char>>,
    pub tool_input: Option<Seq<char>>,
    pub tool_output: Option<Seq<char>>,
    pub links: LinksModel,
    pub source_path: Seq<char>,
}

impl View for Record {
    type V = RecordModel;

    open spec fn view(&self) -> RecordModel {
        RecordModel {
            source: self.source,
            doc_id: self.doc_id,
            ts: self.ts,
            project: self.project@,
            session_id: self.session_id@,
            turn_id: self.turn_id,
            role: self.role@,
            text: self.text@,
            tool_name: text::opt_text(self.tool_name),
            tool_input: text::opt_text(self.tool_input),
            tool_output: text::opt_text(self.tool_output),
            links: self.links@,
            source_path: self.source_path@,
        }
    }
}

impl Clone for Record {
    fn clone(&self) -> (r: Self)
        ensures
            r == *self,
    {
        Record {
            source: self.source,
            doc_id: self.doc_id,
            ts: self.ts,
            project: self.project.clone(),
            session_id: self.session_id.clone(),
            turn_id: self.turn_id,
            role: self.role.clone(),
            text: self.text.clone(),
            tool_name: copy_opt(&self.tool_name),
            tool_input: copy_opt(&self.tool_input),
            tool_output: copy_opt(&self.tool_output),
            links: self.links.clone(),
            source_path: self.source_path.clone(),
        }
    }
}

/// The models of a list of records.
pub open spec fn records_model(records: Seq<Record>) -> Seq<RecordModel> {
    records.map_values(|record: Record| record@)
}

/// Each source is stored under the label that is kept for it.
pub proof fn law_sources_are_stored_under_their_labels(labels: SourceLabels)
    ensures
        labels.stored(SourceKind::Claude) == labels.claude@,
        labels.stored(SourceKind::CodexSession) == labels.codex_session@,
        labels.stored(SourceKind::CodexHistory) == labels.codex_history@,
        labels.stored(SourceKind::Cursor) == labels.cursor@,
        labels.stored(SourceKind::Opencode) == labels.opencode@,
        labels.stored(SourceKind::Pi) == labels.pi@,
        labels.stored(SourceKind::Copilot) == labels.copilot@,
        labels.stored(SourceKind::Hermes) == labels.hermes@,
{
}

/// A source that is read from a label is stored under that label, and only a label under which
/// nothing is stored is read as none.
pub proof fn law_labels_are_read_as_stored(labels: SourceLabels, label: Seq<char>)
    ensures
        labels.labelled(label) matches Some(kind) ==> labels.stored(kind) == label,
        labels.labelled(label) is None ==> forall|kind: SourceKind|
            labels.stored(kind) != label,
{
    law_sources_are_stored_under_their_labels(labels);
}

/// Every source is chosen by exactly one filter: both kinds of Codex transcripts by the one for
/// Codex, and any other by the one that is named after it.
pub proof fn law_one_filter_for_each_source(filter: SourceFilter, kind: SourceKind)
    ensures
        admits(filter, kind) <==> match filter {
            SourceFilter::Claude => kind == SourceKind::Claude,
            SourceFilter::Codex => kind == SourceKind::CodexSession || kind
                == SourceKind::CodexHistory,
            SourceFilter::Cursor => kind == SourceKind::Cursor,
            SourceFilter::Opencode => kind == SourceKind::Opencode,
            SourceFilter::Pi => kind == SourceKind::Pi,
            SourceFilter::Copilot => kind == SourceKind::Copilot,
            SourceFilter::Hermes => kind == SourceKind::Hermes,
        },
{
}

} // verus!
