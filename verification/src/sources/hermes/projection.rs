//! The record projection: message rows become searchable records.

use crate::sources;
use crate::sources::hermes::calls;
use crate::sources::hermes::calls::{CallModel, ToolCall};
use crate::sources::hermes::content;
use crate::sources::hermes::MessageRow;
use crate::sources::{
    ConversationKind, DiagnosticsModel, IndexParseOutput, IndexParseState, ParseDiagnostics,
};
use crate::state;
use crate::state::{PendingModel, PendingToolCall};
use crate::text;
use crate::text_map::TextMap;
use crate::types;
use crate::types::{LinksModel, Record, RecordLinks, RecordModel, SourceKind};
use std::collections::HashMap;
use vstd::prelude::*;

verus! {

broadcast use {vstd::string::group_string_axioms, vstd::std_specs::hash::group_hash_axioms};

/// What the records of one projection have in common.
pub struct Frame {
    pub source_path: Seq<char>,
    pub include_reasoning: bool,
    pub first_doc_id: u64,
}

/// Where a projection stands.
#[verifier::ext_equal]
pub struct ProjectionModel {
    pub records: Seq<RecordModel>,
    pub pending: Map<Seq<char>, PendingModel>,
    pub diagnostics: DiagnosticsModel,
    /// The planned calls of rows that are still to come, by row id.
    pub planned: Map<u64, Seq<CallModel>>,
    pub offset: u64,
}

/// The links that every record of a row has.
pub open spec fn links_of(row: MessageRow) -> LinksModel {
    LinksModel {
        event_id: Some(text::decimal(row.id as nat)),
        parent_session_id: text::opt_text(row.parent_session_id),
        thread_source: if row.parent_session_id is Some {
            Some("fork"@)
        } else {
            None
        },
        conversation_kind: Some(
            sources::kind_name(
                if row.parent_session_id is Some {
                    ConversationKind::Fork
                } else {
                    ConversationKind::Main
                },
            ),
        ),
        ..types::no_links()
    }
}

/// The project of a row: that of the session's working directory, or else the name of the source.
pub open spec fn project_of(row: MessageRow) -> Seq<char> {
    match row.project {
        Some(project) => project@,
        None => "hermes"@,
    }
}

/// The turn of the record that stands at `component` among the records of the row `id`. Each row
/// has eight turns of its own, up to the last row that has room for them in 32 bits; turns beyond
/// 32 bits start over.
pub open spec fn turn_of(id: u64, component: nat) -> u32 {
    let row = if id > 0x1FFF_FFFF {
        0x1FFF_FFFF
    } else {
        id as int
    };
    ((row * 8 + component) % 0x1_0000_0000) as u32
}

/// The id of the document at `position`. Ids beyond 64 bits start over.
pub open spec fn doc_id_of(first: u64, position: nat) -> u64 {
    ((first + position) % 0x1_0000_0000_0000_0000) as u64
}

/// A record of a row that shows a text and has nothing to do with tools.
pub open spec fn plain_record(
    frame: Frame,
    row: MessageRow,
    position: nat,
    component: nat,
    role: Seq<char>,
    shown: Seq<char>,
) -> RecordModel {
    RecordModel {
        source: SourceKind::Hermes,
        doc_id: doc_id_of(frame.first_doc_id, position),
        ts: row.timestamp_ms,
        project: project_of(row),
        session_id: row.session_id@,
        turn_id: turn_of(row.id, component),
        role,
        text: shown,
        tool_name: None,
        tool_input: None,
        tool_output: None,
        links: links_of(row),
        source_path: frame.source_path,
    }
}

/// The reasoning record of a row.
pub open spec fn reasoning_record(
    frame: Frame,
    row: MessageRow,
    position: nat,
    shown: Seq<char>,
) -> RecordModel {
    let plain = plain_record(frame, row, position, 0, "reasoning"@, shown);
    RecordModel {
        links: LinksModel {
            event_id: Some(text::decimal(row.id as nat) + ":reasoning"@),
            ..plain.links
        },
        ..plain
    }
}

/// The links of a tool call.
pub open spec fn call_links(row: MessageRow, call: CallModel) -> LinksModel {
    LinksModel {
        event_id: Some(call.id),
        parent_event_id: Some(text::decimal(row.id as nat)),
        ..links_of(row)
    }
}

/// The record of a tool call.
pub open spec fn call_record(
    frame: Frame,
    row: MessageRow,
    position: nat,
    component: nat,
    call: CallModel,
) -> RecordModel {
    RecordModel {
        tool_name: call.name,
        tool_input: Some(call.arguments),
        links: call_links(row, call),
        ..plain_record(frame, row, position, component, "tool_use"@, call.arguments)
    }
}

/// What is remembered of a tool call until its result is seen.
pub open spec fn pending_of(row: MessageRow, call: CallModel, doc_id: u64) -> PendingModel {
    PendingModel {
        tool_name: call.name,
        tool_use_event_id: Some(call.id),
        tool_use_doc_id: Some(doc_id),
        timestamp: row.timestamp_ms,
        argument_sha256: call.argument_sha256,
        argument_bytes: Some(vstd::utf8::encode_utf8(call.arguments).len() as u64),
        parent_event_id: call_links(row, call).parent_event_id,
        session_id: Some(row.session_id@),
        source_tool_use_id: call_links(row, call).source_tool_use_id,
        source_tool_assistant_uuid: call_links(row, call).source_tool_assistant_uuid,
    }
}

/// A pending call of the session that the tool could have answered.
pub open spec fn candidate(
    call: PendingModel,
    session_id: Seq<char>,
    tool_name: Option<Seq<char>>,
) -> bool {
    &&& call.session_id == Some(session_id)
    &&& tool_name is None || call.tool_name is None || call.tool_name == tool_name
}

/// `id` is the only pending call of the session that the tool could have answered.
pub open spec fn only_candidate(
    pending: Map<Seq<char>, PendingModel>,
    session_id: Seq<char>,
    tool_name: Option<Seq<char>>,
    id: Seq<char>,
) -> bool {
    &&& pending.dom().contains(id)
    &&& candidate(pending[id], session_id, tool_name)
    &&& forall|other: Seq<char>| #[trigger]
        pending.dom().contains(other) && candidate(pending[other], session_id, tool_name) ==> other
            == id
}

/// The only pending call of the session that the tool could have answered, if there is just one.
pub open spec fn guessed_call(
    pending: Map<Seq<char>, PendingModel>,
    session_id: Seq<char>,
    tool_name: Option<Seq<char>>,
) -> Option<Seq<char>> {
    if exists|id: Seq<char>| only_candidate(pending, session_id, tool_name, id) {
        Some(choose|id: Seq<char>| only_candidate(pending, session_id, tool_name, id))
    } else {
        None
    }
}

/// The call id that a result names.
pub open spec fn named_call(row: MessageRow) -> Option<Seq<char>> {
    match row.tool_call_id {
        Some(id) => if id@.len() > 0 {
            Some(id@)
        } else {
            None
        },
        None => None,
    }
}

/// The pending call that a result belongs to: the one it names, if that is pending, or else the
/// only one that it could belong to.
pub open spec fn answered_call(pending: Map<Seq<char>, PendingModel>, row: MessageRow) -> Option<
    Seq<char>,
> {
    match named_call(row) {
        Some(id) => if pending.dom().contains(id) {
            Some(id)
        } else {
            guessed_call(pending, row.session_id@, text::opt_text(row.tool_name))
        },
        None => guessed_call(pending, row.session_id@, text::opt_text(row.tool_name)),
    }
}

/// The record of a tool result.
pub open spec fn result_record(
    frame: Frame,
    row: MessageRow,
    position: nat,
    pending: Map<Seq<char>, PendingModel>,
) -> RecordModel {
    let answered = answered_call(pending, row);
    let parent = match answered {
        Some(id) => Some(id),
        None => named_call(row),
    };
    let shown = content::content_shown(text::opt_text(row.content));
    RecordModel {
        tool_name: match row.tool_name {
            Some(name) => Some(name@),
            None => match answered {
                Some(id) => pending[id].tool_name,
                None => None,
            },
        },
        tool_output: Some(shown),
        links: match parent {
            Some(id) => LinksModel {
                parent_event_id: Some(id),
                parent_tool_use_id: Some(id),
                ..links_of(row)
            },
            None => links_of(row),
        },
        ..plain_record(frame, row, position, 0, "tool_result"@, shown)
    }
}

impl ProjectionModel {
    /// After one more record.
    pub open spec fn push(self, record: RecordModel) -> Self {
        ProjectionModel { records: self.records.push(record), ..self }
    }

    /// After a row's text was looked at: a text that is not blank becomes a record.
    pub open spec fn after_text(
        self,
        frame: Frame,
        row: MessageRow,
        component: nat,
        role: Seq<char>,
    ) -> Self {
        let shown = content::content_shown(text::opt_text(row.content));
        if text::blank(shown) {
            self
        } else {
            self.push(plain_record(frame, row, self.records.len(), component, role, shown))
        }
    }

    /// After a row's reasoning was looked at.
    pub open spec fn after_reasoning(self, frame: Frame, row: MessageRow) -> Self {
        if !frame.include_reasoning {
            self
        } else {
            match content::shown_reasoning(row) {
                Some(shown) => self.push(reasoning_record(frame, row, self.records.len(), shown)),
                None => if content::hides_reasoning(row) {
                    ProjectionModel {
                        diagnostics: DiagnosticsModel {
                            encrypted_reasoning_dropped:
                                self.diagnostics.encrypted_reasoning_dropped + 1,
                            ..self.diagnostics
                        },
                        ..self
                    }
                } else {
                    self
                },
            }
        }
    }

    /// After one call of a row.
    pub open spec fn after_call(
        self,
        frame: Frame,
        row: MessageRow,
        component: nat,
        call: CallModel,
    ) -> Self {
        let position = self.records.len();
        let doc_id = doc_id_of(frame.first_doc_id, position);
        ProjectionModel {
            pending: self.pending.insert(call.id, pending_of(row, call, doc_id)),
            diagnostics: if self.pending.dom().contains(call.id) {
                DiagnosticsModel {
                    duplicate_tool_calls: self.diagnostics.duplicate_tool_calls + 1,
                    ..self.diagnostics
                }
            } else {
                self.diagnostics
            },
            ..self.push(call_record(frame, row, position, component, call))
        }
    }

    /// After the first calls of a row.
    pub open spec fn after_calls(
        self,
        frame: Frame,
        row: MessageRow,
        component: nat,
        listed: Seq<CallModel>,
    ) -> Self
        decreases listed.len(),
    {
        if listed.len() == 0 {
            self
        } else {
            self.after_calls(frame, row, component, listed.drop_last()).after_call(
                frame,
                row,
                (component + listed.len() - 1) as nat,
                listed.last(),
            )
        }
    }

    /// After an assistant row: its reasoning, its text, then its calls.
    pub open spec fn after_assistant(self, frame: Frame, row: MessageRow) -> Self {
        let reasoned = self.after_reasoning(frame, row);
        let told = reasoned.after_text(
            frame,
            row,
            (reasoned.records.len() - self.records.len()) as nat,
            "assistant"@,
        );
        if self.planned.dom().contains(row.id) {
            let taken = ProjectionModel { planned: self.planned.remove(row.id), ..told };
            taken.after_calls(
                frame,
                row,
                (told.records.len() - self.records.len()) as nat,
                self.planned[row.id],
            )
        } else {
            told
        }
    }

    /// After a tool result.
    pub open spec fn after_result(self, frame: Frame, row: MessageRow) -> Self {
        let answered = answered_call(self.pending, row);
        ProjectionModel {
            pending: match answered {
                Some(id) => self.pending.remove(id),
                None => self.pending,
            },
            diagnostics: if named_call(row) is Some && answered is None {
                DiagnosticsModel {
                    orphan_tool_results: self.diagnostics.orphan_tool_results + 1,
                    ..self.diagnostics
                }
            } else {
                self.diagnostics
            },
            ..self.push(result_record(frame, row, self.records.len(), self.pending))
        }
    }

    /// After one row.
    pub open spec fn after_row(self, frame: Frame, row: MessageRow) -> Self {
        let reached = ProjectionModel {
            offset: if row.id > self.offset {
                row.id
            } else {
                self.offset
            },
            ..self
        };
        if row.role@ == "user"@ {
            reached.after_text(frame, row, 0, "user"@)
        } else if row.role@ == "assistant"@ {
            reached.after_assistant(frame, row)
        } else if row.role@ == "tool"@ {
            reached.after_result(frame, row)
        } else if row.role@ == "system"@ {
            reached
        } else {
            ProjectionModel { diagnostics: reached.diagnostics.meet(row.role@), ..reached }
        }
    }

    /// After rows, in order.
    pub open spec fn after_rows(self, frame: Frame, rows: Seq<MessageRow>) -> Self
        decreases rows.len(),
    {
        if rows.len() == 0 {
            self
        } else {
            self.after_rows(frame, rows.drop_last()).after_row(frame, rows.last())
        }
    }
}

/// The links that every record of a row has.
pub fn row_links(row: &MessageRow) -> (r: RecordLinks)
    ensures
        r@ == links_of(*row),
{
    let (thread_source, kind) = match &row.parent_session_id {
        Some(_) => (Some(text::owned("fork")), ConversationKind::Fork),
        None => (None, ConversationKind::Main),
    };
    let r = RecordLinks {
        event_id: Some(text::to_decimal(row.id)),
        parent_event_id: None,
        logical_parent_event_id: None,
        parent_session_id: text::copy_opt(&row.parent_session_id),
        thread_source,
        conversation_kind: Some(text::owned(kind.as_str())),
        parent_tool_use_id: None,
        source_tool_use_id: None,
        source_tool_assistant_uuid: None,
    };
    assert(r@ =~= links_of(*row));
    r
}

/// Whether a pending call is one of the session that the tool could have answered.
fn is_candidate(call: &PendingToolCall, session_id: &str, tool_name: Option<&str>) -> (r: bool)
    ensures
        r == candidate(call@, session_id@, text::opt_str(tool_name)),
{
    let in_session = match &call.session_id {
        Some(session) => text::same(session.as_str(), session_id),
        None => false,
    };
    if !in_session {
        return false;
    }
    match tool_name {
        None => true,
        Some(name) => match &call.tool_name {
            None => true,
            Some(called) => text::same(called.as_str(), name),
        },
    }
}

/// The only pending call of the session that the tool could have answered, if there is just one.
pub fn find_pending_call(
    pending: &TextMap<PendingToolCall>,
    session_id: &str,
    tool_name: Option<&str>,
) -> (r: Option<String>)
    ensures
        text::opt_text(r) == guessed_call(
            state::pending_model(*pending),
            session_id@,
            text::opt_str(tool_name),
        ),
{
    let ghost model = state::pending_model(*pending);
    let ghost name = text::opt_str(tool_name);
    let n = pending.len();
    let mut found: Option<usize> = None;
    let mut i: usize = 0;
    while i < n
        invariant
            i <= n,
            n == pending.keys().len(),
            pending.keys().no_duplicates(),
            pending@.dom() == pending.keys().to_set(),
            model == state::pending_model(*pending),
            name == text::opt_str(tool_name),
            match found {
                None => forall|j: int|
                    0 <= j < i ==> !candidate(
                        model[#[trigger] pending.keys()[j]],
                        session_id@,
                        name,
                    ),
                Some(at) => {
                    &&& at < i
                    &&& candidate(model[pending.keys()[at as int]], session_id@, name)
                    &&& forall|j: int|
                        0 <= j < i && j != at ==> !candidate(
                            model[#[trigger] pending.keys()[j]],
                            session_id@,
                            name,
                        )
                },
            },
        decreases n - i,
    {
        let (id, call) = pending.entry(i);
        assert(model[id@] == call@);
        if is_candidate(call, session_id, tool_name) {
            match found {
                None => {
                    found = Some(i);
                },
                Some(at) => {
                    proof {
                        let keys = pending.keys();
                        let a = keys[at as int];
                        let b = keys[i as int];
                        assert(keys.to_set().contains(a));
                        assert(keys.to_set().contains(b));
                        assert(model.dom().contains(a) && model.dom().contains(b));
                        assert(a != b);
                        assert(forall|k: Seq<char>|
                            !only_candidate(model, session_id@, name, k));
                    }
                    return None;
                },
            }
        }
        i += 1;
    }
    match found {
        None => {
            proof {
                assert forall|k: Seq<char>| !only_candidate(model, session_id@, name, k) by {
                    if model.dom().contains(k) {
                        assert(pending.keys().to_set().contains(k));
                        let j = choose|j: int|
                            0 <= j < pending.keys().len() && pending.keys()[j] == k;
                        assert(!candidate(model[pending.keys()[j]], session_id@, name));
                    }
                }
            }
            None
        },
        Some(at) => {
            let (id, call) = pending.entry(at);
            proof {
                assert forall|other: Seq<char>| #[trigger]
                    model.dom().contains(other) && candidate(
                        model[other],
                        session_id@,
                        name,
                    ) implies other == id@ by {
                    assert(pending.keys().to_set().contains(other));
                    let j = choose|j: int|
                        0 <= j < pending.keys().len() && pending.keys()[j] == other;
                    assert(pending.keys()[j] == other);
                }
                assert(only_candidate(model, session_id@, name, id@));
                let picked = choose|k: Seq<char>| only_candidate(model, session_id@, name, k);
                assert(only_candidate(model, session_id@, name, picked));
                assert(picked == id@);
            }
            Some(id.clone())
        },
    }
}

/// A projection under way.
struct Projection {
    source_path: String,
    include_reasoning: bool,
    first_doc_id: u64,
    records: Vec<Record>,
    pending: TextMap<PendingToolCall>,
    diagnostics: ParseDiagnostics,
    planned: HashMap<u64, Vec<ToolCall>>,
    offset: u64,
}

impl Projection {
    spec fn frame(self) -> Frame {
        Frame {
            source_path: self.source_path@,
            include_reasoning: self.include_reasoning,
            first_doc_id: self.first_doc_id,
        }
    }

    spec fn model(self) -> ProjectionModel {
        ProjectionModel {
            records: types::records_model(self.records@),
            pending: state::pending_model(self.pending),
            diagnostics: self.diagnostics@,
            planned: calls::plan_model(self.planned@),
            offset: self.offset,
        }
    }

    /// The id of the next document.
    fn next_doc_id(&self) -> (r: u64)
        ensures
            r == doc_id_of(self.frame().first_doc_id, self.model().records.len()),
    {
        self.first_doc_id.wrapping_add(self.records.len() as u64)
    }

    /// Adds a record of `row`.
    fn push(
        &mut self,
        row: &MessageRow,
        component: u32,
        role: &str,
        shown: String,
        tool_name: Option<String>,
        tool_input: Option<String>,
        tool_output: Option<String>,
        links: RecordLinks,
        Ghost(place): Ghost<nat>,
    )
        requires
            component == place % 0x1_0000_0000,
        ensures
            final(self).frame() == old(self).frame(),
            final(self).model() == old(self).model().push(
                RecordModel {
                    tool_name: text::opt_text(tool_name),
                    tool_input: text::opt_text(tool_input),
                    tool_output: text::opt_text(tool_output),
                    links: links@,
                    ..plain_record(
                        old(self).frame(),
                        *row,
                        old(self).model().records.len(),
                        place,
                        role@,
                        shown@,
                    )
                },
            ),
    {
        let project = match &row.project {
            Some(project) => project.clone(),
            None => text::owned("hermes"),
        };
        let row_turn: u32 = if row.id > 0x1FFF_FFFF {
            0xFFFF_FFF8
        } else {
            (row.id * 8) as u32
        };
        let record = Record {
            source: SourceKind::Hermes,
            doc_id: self.next_doc_id(),
            ts: row.timestamp_ms,
            project,
            session_id: row.session_id.clone(),
            turn_id: row_turn.wrapping_add(component),
            role: text::owned(role),
            text: shown,
            tool_name,
            tool_input,
            tool_output,
            links,
            source_path: self.source_path.clone(),
        };
        let ghost expected = RecordModel {
            tool_name: text::opt_text(tool_name),
            tool_input: text::opt_text(tool_input),
            tool_output: text::opt_text(tool_output),
            links: links@,
            ..plain_record(
                self.frame(),
                *row,
                self.model().records.len(),
                place,
                role@,
                shown@,
            )
        };
        assert(record.turn_id == turn_of(row.id, place));
        assert(record@ =~= expected);
        self.records.push(record);
        assert(self.model().records =~= old(self).model().records.push(expected));
        assert(self.model() =~= old(self).model().push(expected));
    }

    /// Looks at the text of `row`, and says whether it became a record.
    fn tell(&mut self, row: &MessageRow, component: u32, role: &str) -> (r: bool)
        ensures
            final(self).frame() == old(self).frame(),
            final(self).model() == old(self).model().after_text(
                old(self).frame(),
                *row,
                component as nat,
                role@,
            ),
            r == (final(self).model().records.len() == old(self).model().records.len() + 1),
            !r ==> final(self).model().records.len() == old(self).model().records.len(),
    {
        let column = match &row.content {
            Some(column) => Some(column.as_str()),
            None => None,
        };
        let shown = content::content_text(column);
        if text::is_blank(shown.as_str()) {
            return false;
        }
        let links = row_links(row);
        self.push(row, component, role, shown, None, None, None, links, Ghost(component as nat));
        true
    }

    /// Looks at the reasoning of `row`, and says whether it became a record.
    fn reason(&mut self, row: &MessageRow) -> (r: bool)
        requires
            old(self).diagnostics.encrypted_reasoning_dropped < u64::MAX,
        ensures
            final(self).frame() == old(self).frame(),
            final(self).model() == old(self).model().after_reasoning(old(self).frame(), *row),
            r == (final(self).model().records.len() == old(self).model().records.len() + 1),
            !r ==> final(self).model().records.len() == old(self).model().records.len(),
    {
        if !self.include_reasoning {
            return false;
        }
        match content::reasoning_text(row, &mut self.diagnostics) {
            Some(shown) => {
                assert(self.model() =~= old(self).model());
                let mut links = row_links(row);
                let mut event_id = text::to_decimal(row.id);
                event_id.append(":reasoning");
                links.event_id = Some(event_id);
                self.push(row, 0, "reasoning", shown, None, None, None, links, Ghost(0nat));
                true
            },
            None => {
                assert(self.model() =~= old(self).model().after_reasoning(old(self).frame(), *row));
                false
            },
        }
    }

    /// Adds the record of one call of `row` and remembers the call.
    fn call(&mut self, row: &MessageRow, component: u32, call: ToolCall, Ghost(place): Ghost<nat>)
        requires
            component == place % 0x1_0000_0000,
            old(self).diagnostics.duplicate_tool_calls <= old(self).records@.len(),
        ensures
            final(self).frame() == old(self).frame(),
            final(self).model() == old(self).model().after_call(
                old(self).frame(),
                *row,
                place,
                call@,
            ),
            final(self).diagnostics.duplicate_tool_calls <= final(self).records@.len(),
    {
        let ToolCall { id, name, arguments, argument_sha256 } = call;
        let doc_id = self.next_doc_id();
        let mut links = row_links(row);
        links.event_id = Some(id.clone());
        links.parent_event_id = Some(text::to_decimal(row.id));
        let remembered = PendingToolCall {
            tool_name: text::copy_opt(&name),
            tool_use_event_id: Some(id.clone()),
            tool_use_doc_id: Some(doc_id),
            timestamp: row.timestamp_ms,
            argument_sha256,
            argument_bytes: Some(arguments.as_str().as_bytes().len() as u64),
            parent_event_id: text::copy_opt(&links.parent_event_id),
            session_id: Some(row.session_id.clone()),
            source_tool_use_id: text::copy_opt(&links.source_tool_use_id),
            source_tool_assistant_uuid: text::copy_opt(&links.source_tool_assistant_uuid),
        };
        assert(remembered@ =~= pending_of(*row, call@, doc_id));
        let ghost before = self.pending;
        let replaced = self.pending.insert(id, remembered);
        assert(state::pending_model(self.pending) =~= state::pending_model(before).insert(
            id@,
            remembered@,
        ));
        let input = arguments.clone();
        let ghost inserted = self.model();
        self.push(
            row,
            component,
            "tool_use",
            arguments,
            name,
            Some(input),
            None,
            links,
            Ghost(place),
        );
        let total = self.records.len();
        assert(total == self.model().records.len());
        assert(total == old(self).records@.len() + 1);
        assert(self.diagnostics@ == inserted.diagnostics);
        assert(self.diagnostics.duplicate_tool_calls == self.diagnostics@.duplicate_tool_calls);
        if replaced.is_some() {
            self.diagnostics.duplicate_tool_calls = self.diagnostics.duplicate_tool_calls + 1;
        }
        assert(self.model() =~= old(self).model().after_call(
            old(self).frame(),
            *row,
            place,
            call@,
        ));
    }

    /// Adds the records of an assistant row.
    fn assistant(&mut self, row: &MessageRow)
        requires
            old(self).diagnostics.encrypted_reasoning_dropped < u64::MAX,
            old(self).diagnostics.duplicate_tool_calls <= old(self).records@.len(),
        ensures
            final(self).frame() == old(self).frame(),
            final(self).model() == old(self).model().after_assistant(old(self).frame(), *row),
            final(self).within_one_row_of(*old(self), *row),
    {
        let ghost start = self.model();
        let ghost frame = self.frame();
        let mut component: u32 = 0;
        if self.reason(row) {
            component = 1;
        }
        if self.tell(row, component, "assistant") {
            component = component + 1;
        }
        let ghost told = self.model();
        assert(told.diagnostics.duplicate_tool_calls == start.diagnostics.duplicate_tool_calls);
        assert(component == told.records.len() - start.records.len());
        let ghost planned = self.planned@;
        if let Some(listed) = self.planned.remove(&row.id) {
            let ghost taken = self.model();
            assert(taken.planned =~= start.planned.remove(row.id));
            let ghost place = component as nat;
            let ghost all = calls::calls_model(listed@);
            assert(start.planned[row.id] == all);
            assert(all.take(0) =~= seq![]);
            for call in it: listed
                invariant
                    it.seq() == listed@,
                    all == calls::calls_model(listed@),
                    self.frame() == frame,
                    self.model() == taken.after_calls(
                        frame,
                        *row,
                        place,
                        all.take(it.index() as int),
                    ),
                    component == (place + it.index()) % 0x1_0000_0000,
                    self.diagnostics.duplicate_tool_calls <= self.records@.len(),
                    self.diagnostics.encrypted_reasoning_dropped
                        == taken.diagnostics.encrypted_reasoning_dropped,
                    self.diagnostics.orphan_tool_results == taken.diagnostics.orphan_tool_results,
                    self.diagnostics@.unknown_semantics == taken.diagnostics.unknown_semantics,
            {
                let ghost index = it.index() as int;
                assert(all.take(index + 1).drop_last() =~= all.take(index));
                assert(all.take(index + 1).last() == call@);
                self.call(row, component, call, Ghost((place + index) as nat));
                component = component.wrapping_add(1);
            }
            assert(all.take(all.len() as int) =~= all);
        } else {
            assert(self.model() =~= told);
        }
    }

    /// Adds the record of a tool result and forgets the call that it answers.
    fn result(&mut self, row: &MessageRow)
        requires
            old(self).diagnostics.orphan_tool_results < u64::MAX,
            old(self).diagnostics.duplicate_tool_calls <= old(self).records@.len(),
        ensures
            final(self).frame() == old(self).frame(),
            final(self).model() == old(self).model().after_result(old(self).frame(), *row),
            final(self).within_one_row_of(*old(self), *row),
    {
        let ghost start = self.model();
        let named: Option<&str> = match &row.tool_call_id {
            Some(id) => {
                if id.as_str().is_empty() {
                    None
                } else {
                    Some(id.as_str())
                }
            },
            None => None,
        };
        assert(text::opt_str(named) == named_call(*row));
        let tool_name = match &row.tool_name {
            Some(name) => Some(name.as_str()),
            None => None,
        };
        let named_pending = match named {
            Some(id) => self.pending.contains_key(id),
            None => false,
        };
        let answered: Option<String> = if named_pending {
            match named {
                Some(id) => Some(text::owned(id)),
                None => None,
            }
        } else {
            find_pending_call(&self.pending, row.session_id.as_str(), tool_name)
        };
        assert(text::opt_text(answered) == answered_call(start.pending, *row));
        let mut called_name: Option<String> = None;
        if let Some(id) = &answered {
            let ghost before = self.pending;
            assert(start.pending.dom().contains(id@)) by {
                if !named_pending {
                    assert(only_candidate(
                        start.pending,
                        row.session_id@,
                        text::opt_text(row.tool_name),
                        id@,
                    ));
                }
            }
            if let Some(call) = self.pending.remove(id.as_str()) {
                called_name = call.tool_name;
            }
            assert(state::pending_model(self.pending) =~= start.pending.remove(id@));
            assert(text::opt_text(called_name) == start.pending[id@].tool_name);
        } else if named.is_some() {
            self.diagnostics.orphan_tool_results = self.diagnostics.orphan_tool_results + 1;
        }
        let name = match &row.tool_name {
            Some(name) => Some(name.clone()),
            None => called_name,
        };
        let mut links = row_links(row);
        let parent: Option<String> = match answered {
            Some(id) => Some(id),
            None => match named {
                Some(id) => Some(text::owned(id)),
                None => None,
            },
        };
        if let Some(id) = parent {
            links.parent_event_id = Some(id.clone());
            links.parent_tool_use_id = Some(id);
        }
        let column = match &row.content {
            Some(column) => Some(column.as_str()),
            None => None,
        };
        let shown = content::content_text(column);
        let output = shown.clone();
        let ghost expected = result_record(
            self.frame(),
            *row,
            start.records.len(),
            start.pending,
        );
        assert(links@ =~= expected.links);
        self.push(row, 0, "tool_result", shown, name, None, Some(output), links, Ghost(0nat));
        assert(self.model().records.last() =~= expected);
        assert(self.model() =~= start.after_result(old(self).frame(), *row));
        assert(self.records@.len() == self.model().records.len());
    }

    /// Adds the records of a row.
    fn row(&mut self, row: &MessageRow)
        requires
            old(self).diagnostics.encrypted_reasoning_dropped < u64::MAX,
            old(self).diagnostics.orphan_tool_results < u64::MAX,
            old(self).diagnostics.duplicate_tool_calls <= old(self).records@.len(),
            unknown(*row) ==> old(self).diagnostics@.met(row.role@) < u64::MAX,
        ensures
            final(self).frame() == old(self).frame(),
            final(self).model() == old(self).model().after_row(old(self).frame(), *row),
            final(self).within_one_row_of(*old(self), *row),
    {
        if row.id > self.offset {
            self.offset = row.id;
        }
        let role = row.role.as_str();
        if text::same(role, "user") {
            self.tell(row, 0, "user");
        } else if text::same(role, "assistant") {
            self.assistant(row);
        } else if text::same(role, "tool") {
            self.result(row);
        } else if text::same(role, "system") {
        } else {
            self.diagnostics.increment_unknown_semantic(role);
            assert(self.model() =~= old(self).model().after_row(old(self).frame(), *row));
        }
        assert(self.records@.len() == self.model().records.len());
    }
}

/// A row whose role the projection does not know.
pub open spec fn unknown(row: MessageRow) -> bool {
    row.role@ != "user"@ && row.role@ != "assistant"@ && row.role@ != "tool"@ && row.role@
        != "system"@
}

/// How many rows have a role that the projection does not know.
pub open spec fn unknown_rows(rows: Seq<MessageRow>) -> nat
    decreases rows.len(),
{
    if rows.len() == 0 {
        0
    } else {
        unknown_rows(rows.drop_last()) + if unknown(rows.last()) {
            1nat
        } else {
            0nat
        }
    }
}

/// No more rows than there are have a role that the projection does not know.
proof fn lemma_unknown_rows(rows: Seq<MessageRow>, n: int)
    requires
        0 <= n <= rows.len(),
    ensures
        unknown_rows(rows.take(n)) <= unknown_rows(rows),
    decreases rows.len() - n,
{
    if n == rows.len() {
        assert(rows.take(n) =~= rows);
    } else {
        assert(rows.take(n + 1).drop_last() =~= rows.take(n));
        lemma_unknown_rows(rows, n + 1);
    }
}

impl Projection {
    /// The counts are not further from those of `before` than `row` can bring them.
    spec fn within_one_row_of(self, before: Projection, row: MessageRow) -> bool {
        &&& self.diagnostics.duplicate_tool_calls <= self.records@.len()
        &&& self.diagnostics.encrypted_reasoning_dropped
            <= before.diagnostics.encrypted_reasoning_dropped + 1
        &&& self.diagnostics.orphan_tool_results <= before.diagnostics.orphan_tool_results + 1
        &&& forall|name: Seq<char>| #[trigger]
            self.diagnostics@.met(name) <= before.diagnostics@.met(name) + if unknown(row) {
                1int
            } else {
                0int
            }
    }
}

/// The state that a projection starts from.
pub open spec fn starting_model(
    state: IndexParseState,
    planned: Map<u64, Vec<ToolCall>>,
    diagnostics: ParseDiagnostics,
) -> ProjectionModel {
    ProjectionModel {
        records: seq![],
        pending: state::pending_model(state.pending_tool_calls),
        diagnostics: diagnostics@,
        planned: calls::plan_model(planned),
        offset: state.offset,
    }
}

/// What a projection hands out: the records, and where it stands.
pub open spec fn handed_out(
    records: Seq<Record>,
    output: IndexParseOutput,
    model: ProjectionModel,
) -> bool {
    &&& types::records_model(records) == model.records
    &&& output.offset == model.offset
    &&& output.turn_id == 0
    &&& state::pending_model(output.pending_tool_calls) == model.pending
    &&& output.session_id is None
    &&& output.diagnostics@ == model.diagnostics
}

/// What planning may have counted: nothing that only a projection counts, and no more than leaves
/// room for the rows that the projection counts.
pub open spec fn counted_by_planning(diagnostics: ParseDiagnostics, rows: Seq<MessageRow>) -> bool {
    &&& diagnostics.duplicate_tool_calls == 0
    &&& diagnostics.orphan_tool_results == 0
    &&& diagnostics.encrypted_reasoning_dropped == 0
    &&& forall|name: Seq<char>| #[trigger]
        diagnostics@.met(name) <= u64::MAX - unknown_rows(rows)
}

/// Projects rows, in order, into records with consecutive document ids from `first_doc_id` on.
///
/// `planned` are the calls that [`calls::plan_tool_calls`] found in the rows, and `diagnostics`
/// what it counted.
pub fn project_rows(
    source_path: &str,
    rows: &Vec<MessageRow>,
    planned: HashMap<u64, Vec<ToolCall>>,
    state: IndexParseState,
    include_reasoning: bool,
    first_doc_id: u64,
    diagnostics: ParseDiagnostics,
) -> (r: (Vec<Record>, IndexParseOutput))
    requires
        counted_by_planning(diagnostics, rows@),
    ensures
        handed_out(
            r.0@,
            r.1,
            starting_model(state, planned@, diagnostics).after_rows(
                Frame { source_path: source_path@, include_reasoning, first_doc_id },
                rows@,
            ),
        ),
{
    let mut projection = Projection {
        source_path: text::owned(source_path),
        include_reasoning,
        first_doc_id,
        records: Vec::new(),
        pending: state.pending_tool_calls,
        diagnostics,
        planned,
        offset: state.offset,
    };
    let ghost start = starting_model(state, planned@, diagnostics);
    let ghost frame = Frame { source_path: source_path@, include_reasoning, first_doc_id };
    assert(projection.model() =~= start);
    assert(rows@.take(0) =~= seq![]);
    let n = rows.len();
    let mut i: usize = 0;
    while i < n
        invariant
            i <= n,
            n == rows@.len(),
            projection.frame() == frame,
            projection.model() == start.after_rows(frame, rows@.take(i as int)),
            projection.diagnostics.duplicate_tool_calls <= projection.records@.len(),
            projection.diagnostics.encrypted_reasoning_dropped <= i,
            projection.diagnostics.orphan_tool_results <= i,
            forall|name: Seq<char>| #[trigger]
                projection.diagnostics@.met(name) <= u64::MAX - unknown_rows(rows@) + unknown_rows(
                    rows@.take(i as int),
                ),
        decreases n - i,
    {
        assert(rows@.take(i + 1).drop_last() =~= rows@.take(i as int));
        proof {
            lemma_unknown_rows(rows@, i + 1);
        }
        projection.row(&rows[i]);
        i += 1;
    }
    assert(rows@.take(i as int) =~= rows@);
    let Projection { records, pending, diagnostics, offset, .. } = projection;
    (
        records,
        IndexParseOutput {
            offset,
            turn_id: 0,
            pending_tool_calls: pending,
            session_id: None,
            diagnostics,
        },
    )
}

} // verus!
