//! What holds of the record projection as a whole.

use crate::json;
use crate::json::Json;
use crate::sources::hermes::calls;
use crate::sources::hermes::calls::{CallModel, RowPlan};
use crate::sources::hermes::content;
use crate::sources::hermes::parse;
use crate::sources::hermes::projection;
use crate::sources::hermes::projection::{Frame, ProjectionModel};
use crate::sources::hermes::MessageRow;
use crate::sources::{DiagnosticsModel, IndexParseState};
use crate::text;
use crate::types::{RecordModel, SourceKind};
use vstd::prelude::*;

verus! {

broadcast use vstd::string::group_string_axioms;

/// `record` stands at `position` and was made from `row`.
pub open spec fn made_from(
    frame: Frame,
    row: MessageRow,
    position: int,
    record: RecordModel,
) -> bool {
    &&& record.source == SourceKind::Hermes
    &&& record.source_path == frame.source_path
    &&& record.doc_id == projection::doc_id_of(frame.first_doc_id, position as nat)
    &&& record.session_id == row.session_id@
    &&& record.ts == row.timestamp_ms
    &&& record.project == projection::project_of(row)
    &&& record.role == "reasoning"@ ==> frame.include_reasoning && content::shown_reasoning(row)
        == Some(record.text)
    &&& row.project matches Some(project) ==> record.project == project@
    &&& row.project is None ==> record.project == "hermes"@
    &&& shows_what_its_role_says(row, record)
    &&& record.links.parent_session_id == text::opt_text(row.parent_session_id)
    &&& row.parent_session_id is Some ==> record.links.thread_source == Some("fork"@)
        && record.links.conversation_kind == Some("fork"@)
    &&& row.parent_session_id is None ==> record.links.thread_source is None
        && record.links.conversation_kind == Some("main"@)
    &&& record.links.event_id is Some
    &&& record.links.logical_parent_event_id is None
    &&& record.links.source_tool_use_id is None
    &&& record.links.source_tool_assistant_uuid is None
}

/// `record` shows of `row` what its role says: a message of the user or of the assistant what the
/// content column says, the result of a tool the same as its output too, and a call of a tool the
/// arguments that it was given. Nothing else has to do with tools.
pub open spec fn shows_what_its_role_says(row: MessageRow, record: RecordModel) -> bool {
    let shown = content::content_shown(text::opt_text(row.content));
    let apart_from_tools = record.tool_name is None && record.tool_input is None
        && record.tool_output is None && record.links.parent_event_id is None
        && record.links.parent_tool_use_id is None;
    let own_event = record.links.event_id == Some(text::decimal(row.id as nat));
    ||| record.role == "user"@ && row.role@ == "user"@ && record.text == shown && !text::blank(
        shown,
    ) && apart_from_tools && own_event
    ||| record.role == "assistant"@ && row.role@ == "assistant"@ && record.text == shown
        && !text::blank(shown) && apart_from_tools && own_event
    ||| record.role == "reasoning"@ && row.role@ == "assistant"@ && apart_from_tools
        && record.links.event_id == Some(text::decimal(row.id as nat) + ":reasoning"@)
    ||| record.role == "tool_use"@ && row.role@ == "assistant"@ && record.tool_input == Some(
        record.text,
    ) && record.tool_output is None && record.links.parent_event_id == Some(
        text::decimal(row.id as nat),
    ) && record.links.parent_tool_use_id is None
    ||| record.role == "tool_result"@ && row.role@ == "tool"@ && record.text == shown
        && record.tool_output == Some(shown) && record.tool_input is None && own_event
        && record.links.parent_event_id == record.links.parent_tool_use_id
}

/// The role names that the projection gives are told apart from that of reasoning.
proof fn lemma_role_names()
    ensures
        "user"@ != "reasoning"@,
        "assistant"@ != "reasoning"@,
        "tool_use"@ != "reasoning"@,
        "tool_result"@ != "reasoning"@,
{
    reveal_strlit("reasoning");
    reveal_strlit("user");
    reveal_strlit("assistant");
    reveal_strlit("tool_use");
    reveal_strlit("tool_result");
    assert("reasoning"@[0] == 'r');
    assert("assistant"@[0] == 'a');
    assert("reasoning"@.len() == 9);
}

/// What `after` has beyond `before` was made from `row`.
spec fn extends(
    before: ProjectionModel,
    after: ProjectionModel,
    frame: Frame,
    row: MessageRow,
) -> bool {
    &&& before.records.len() <= after.records.len()
    &&& forall|k: int|
        0 <= k < before.records.len() ==> #[trigger] after.records[k] == before.records[k]
    &&& forall|k: int|
        before.records.len() <= k < after.records.len() ==> made_from(
            frame,
            row,
            k,
            #[trigger] after.records[k],
        )
}

proof fn lemma_calls_extend(
    p: ProjectionModel,
    frame: Frame,
    row: MessageRow,
    component: nat,
    listed: Seq<CallModel>,
)
    requires
        row.role@ == "assistant"@,
    ensures
        extends(p, p.after_calls(frame, row, component, listed), frame, row),
        p.after_calls(frame, row, component, listed).records.len() == p.records.len()
            + listed.len(),
        p.after_calls(frame, row, component, listed).offset == p.offset,
        p.after_calls(frame, row, component, listed).planned == p.planned,
    decreases listed.len(),
{
    lemma_role_names();
    if listed.len() > 0 {
        lemma_calls_extend(p, frame, row, component, listed.drop_last());
        assert(shows_what_its_role_says(
            row,
            p.after_calls(frame, row, component, listed).records.last(),
        ));
    }
}

proof fn lemma_row_extends(p: ProjectionModel, frame: Frame, row: MessageRow)
    ensures
        extends(p, p.after_row(frame, row), frame, row),
        p.after_row(frame, row).offset == if row.id > p.offset {
            row.id
        } else {
            p.offset
        },
{
    lemma_role_names();
    let reached = ProjectionModel {
        offset: if row.id > p.offset {
            row.id
        } else {
            p.offset
        },
        ..p
    };
    if row.role@ != "user"@ && row.role@ == "assistant"@ {
        let reasoned = reached.after_reasoning(frame, row);
        let told = reasoned.after_text(
            frame,
            row,
            (reasoned.records.len() - reached.records.len()) as nat,
            "assistant"@,
        );
        assert(extends(reached, told, frame, row));
        if reached.planned.dom().contains(row.id) {
            let taken = ProjectionModel { planned: reached.planned.remove(row.id), ..told };
            lemma_calls_extend(
                taken,
                frame,
                row,
                (told.records.len() - reached.records.len()) as nat,
                reached.planned[row.id],
            );
        }
    }
}

/// Every record comes from one of the rows: it carries the source, the file, the session, the time
/// and the project of that row, and document ids are handed out one after another. A reasoning
/// record is only there when it was asked for, and shows reasoning that can be read.
pub proof fn law_records_come_from_rows(
    start: ProjectionModel,
    frame: Frame,
    rows: Seq<MessageRow>,
    position: int,
)
    requires
        start.records.len() == 0,
        0 <= position < start.after_rows(frame, rows).records.len(),
    ensures
        exists|i: int|
            0 <= i < rows.len() && made_from(
                frame,
                #[trigger] rows[i],
                position,
                start.after_rows(frame, rows).records[position],
            ),
    decreases rows.len(),
{
    if rows.len() > 0 {
        let before = start.after_rows(frame, rows.drop_last());
        let row = rows.last();
        lemma_row_extends(before, frame, row);
        if position < before.records.len() {
            law_records_come_from_rows(start, frame, rows.drop_last(), position);
            let i = choose|i: int|
                0 <= i < rows.len() - 1 && made_from(
                    frame,
                    #[trigger] rows.drop_last()[i],
                    position,
                    before.records[position],
                );
            assert(rows.drop_last()[i] == rows[i]);
        } else {
            assert(made_from(
                frame,
                rows[rows.len() - 1],
                position,
                start.after_rows(frame, rows).records[position],
            ));
        }
    }
}

/// Reasoning is opt-in: no record shows any unless it was asked for.
pub proof fn law_reasoning_is_opt_in(
    start: ProjectionModel,
    frame: Frame,
    rows: Seq<MessageRow>,
    position: int,
)
    requires
        start.records.len() == 0,
        !frame.include_reasoning,
        0 <= position < start.after_rows(frame, rows).records.len(),
    ensures
        start.after_rows(frame, rows).records[position].role != "reasoning"@,
{
    law_records_come_from_rows(start, frame, rows, position);
}

/// Encrypted reasoning is never shown.
pub proof fn law_encrypted_reasoning_is_never_shown(
    start: ProjectionModel,
    frame: Frame,
    rows: Seq<MessageRow>,
    position: int,
)
    requires
        start.records.len() == 0,
        0 <= position < start.after_rows(frame, rows).records.len(),
        start.after_rows(frame, rows).records[position].role == "reasoning"@,
    ensures
        !content::encrypted(start.after_rows(frame, rows).records[position].text),
{
    law_records_come_from_rows(start, frame, rows, position);
}

/// Document ids are handed out one after another.
pub proof fn law_doc_ids_are_consecutive(
    start: ProjectionModel,
    frame: Frame,
    rows: Seq<MessageRow>,
    position: int,
)
    requires
        start.records.len() == 0,
        0 <= position < start.after_rows(frame, rows).records.len(),
        frame.first_doc_id + position <= u64::MAX,
    ensures
        start.after_rows(frame, rows).records[position].doc_id == frame.first_doc_id + position,
{
    law_records_come_from_rows(start, frame, rows, position);
}

/// The offset never goes back, passes every row, and stops at the start or at a row.
pub proof fn law_offset_is_the_last_row(
    start: ProjectionModel,
    frame: Frame,
    rows: Seq<MessageRow>,
)
    ensures
        start.after_rows(frame, rows).offset >= start.offset,
        forall|i: int|
            0 <= i < rows.len() ==> #[trigger] rows[i].id <= start.after_rows(frame, rows).offset,
        start.after_rows(frame, rows).offset == start.offset || exists|i: int|
            0 <= i < rows.len() && #[trigger] rows[i].id == start.after_rows(frame, rows).offset,
    decreases rows.len(),
{
    if rows.len() > 0 {
        let before = start.after_rows(frame, rows.drop_last());
        law_offset_is_the_last_row(start, frame, rows.drop_last());
        lemma_row_extends(before, frame, rows.last());
        assert forall|i: int| 0 <= i < rows.len() implies #[trigger] rows[i].id
            <= start.after_rows(frame, rows).offset by {
            if i < rows.len() - 1 {
                assert(rows.drop_last()[i].id <= before.offset);
            }
        }
        if before.offset != start.offset && start.after_rows(frame, rows).offset == before.offset {
            let i = choose|i: int|
                0 <= i < rows.len() - 1 && #[trigger] rows.drop_last()[i].id == before.offset;
            assert(rows[i].id == before.offset);
        }
        if start.after_rows(frame, rows).offset != before.offset {
            assert(rows[rows.len() - 1].id == start.after_rows(frame, rows).offset);
        }
    }
}

/// Turns follow rows: with at most eight records to a row, every record of a row has an earlier
/// turn than every record of a later one, as long as turns fit into 32 bits.
pub proof fn law_turns_follow_rows(
    earlier: u64,
    later: u64,
    component_of_earlier: nat,
    component_of_later: nat,
)
    requires
        earlier < later <= 0x1FFF_FFFF,
        component_of_earlier < 8,
        component_of_later < 8,
    ensures
        projection::turn_of(earlier, component_of_earlier) < projection::turn_of(
            later,
            component_of_later,
        ),
{
}

/// Planning leaves every id that a call has of its own, and gives no call away.
pub proof fn law_own_ids_are_kept(listed: Seq<CallModel>, ids: Seq<Seq<char>>, i: int)
    requires
        0 <= i < listed.len(),
        !calls::placeholder(listed[i]),
    ensures
        calls::settled(listed, ids).len() == listed.len(),
        calls::settled(listed, ids)[i] == listed[i],
{
}

/// `p` with `earlier` records before its own.
pub open spec fn preceded(earlier: Seq<RecordModel>, p: ProjectionModel) -> ProjectionModel {
    ProjectionModel { records: earlier + p.records, ..p }
}

/// The frame of a projection that goes on after `count` records.
pub open spec fn continued(frame: Frame, count: nat) -> Frame {
    Frame { first_doc_id: projection::doc_id_of(frame.first_doc_id, count), ..frame }
}

proof fn lemma_doc_ids_continue(first: u64, count: nat, position: nat)
    ensures
        projection::doc_id_of(first, count + position) == projection::doc_id_of(
            projection::doc_id_of(first, count),
            position,
        ),
{
    let m: int = 0x1_0000_0000_0000_0000;
    let a = first + count;
    assert((a + position) % m == (a % m + position) % m) by {
        vstd::arithmetic::div_mod::lemma_add_mod_noop(a, position as int, m);
        vstd::arithmetic::div_mod::lemma_add_mod_noop(a % m, position as int, m);
        vstd::arithmetic::div_mod::lemma_mod_twice(a, m);
    }
}

proof fn lemma_calls_continue(
    earlier: Seq<RecordModel>,
    p: ProjectionModel,
    frame: Frame,
    row: MessageRow,
    component: nat,
    listed: Seq<CallModel>,
)
    ensures
        preceded(earlier, p).after_calls(frame, row, component, listed) == preceded(
            earlier,
            p.after_calls(continued(frame, earlier.len()), row, component, listed),
        ),
    decreases listed.len(),
{
    let next = continued(frame, earlier.len());
    if listed.len() > 0 {
        lemma_calls_continue(earlier, p, frame, row, component, listed.drop_last());
        let before = p.after_calls(next, row, component, listed.drop_last());
        lemma_doc_ids_continue(frame.first_doc_id, earlier.len(), before.records.len());
        let place = (component + listed.len() - 1) as nat;
        assert(preceded(earlier, before).after_call(frame, row, place, listed.last()) =~= preceded(
            earlier,
            before.after_call(next, row, place, listed.last()),
        ));
    }
}

proof fn lemma_row_continues(
    earlier: Seq<RecordModel>,
    p: ProjectionModel,
    frame: Frame,
    row: MessageRow,
)
    ensures
        preceded(earlier, p).after_row(frame, row) == preceded(
            earlier,
            p.after_row(continued(frame, earlier.len()), row),
        ),
{
    let next = continued(frame, earlier.len());
    let reached = ProjectionModel {
        offset: if row.id > p.offset {
            row.id
        } else {
            p.offset
        },
        ..p
    };
    lemma_doc_ids_continue(frame.first_doc_id, earlier.len(), reached.records.len());
    if row.role@ == "user"@ {
        assert(preceded(earlier, reached).after_text(frame, row, 0, "user"@) =~= preceded(
            earlier,
            reached.after_text(next, row, 0, "user"@),
        ));
    } else if row.role@ == "assistant"@ {
        let reasoned = reached.after_reasoning(next, row);
        assert(preceded(earlier, reached).after_reasoning(frame, row) =~= preceded(
            earlier,
            reasoned,
        ));
        let component = (reasoned.records.len() - reached.records.len()) as nat;
        lemma_doc_ids_continue(frame.first_doc_id, earlier.len(), reasoned.records.len());
        let told = reasoned.after_text(next, row, component, "assistant"@);
        assert(preceded(earlier, reasoned).after_text(frame, row, component, "assistant"@)
            =~= preceded(earlier, told));
        if reached.planned.dom().contains(row.id) {
            let taken = ProjectionModel { planned: reached.planned.remove(row.id), ..told };
            lemma_calls_continue(
                earlier,
                taken,
                frame,
                row,
                (told.records.len() - reached.records.len()) as nat,
                reached.planned[row.id],
            );
        }
    } else if row.role@ == "tool"@ {
        assert(preceded(earlier, reached).after_result(frame, row) =~= preceded(
            earlier,
            reached.after_result(next, row),
        ));
    }
}

proof fn lemma_rows_continue(
    earlier: Seq<RecordModel>,
    p: ProjectionModel,
    frame: Frame,
    rows: Seq<MessageRow>,
)
    ensures
        preceded(earlier, p).after_rows(frame, rows) == preceded(
            earlier,
            p.after_rows(continued(frame, earlier.len()), rows),
        ),
    decreases rows.len(),
{
    if rows.len() > 0 {
        lemma_rows_continue(earlier, p, frame, rows.drop_last());
        lemma_row_continues(
            earlier,
            p.after_rows(continued(frame, earlier.len()), rows.drop_last()),
            frame,
            rows.last(),
        );
    }
}

proof fn lemma_rows_compose(
    p: ProjectionModel,
    frame: Frame,
    first: Seq<MessageRow>,
    second: Seq<MessageRow>,
)
    ensures
        p.after_rows(frame, first + second) == p.after_rows(frame, first).after_rows(frame, second),
    decreases second.len(),
{
    if second.len() == 0 {
        assert(first + second =~= first);
    } else {
        lemma_rows_compose(p, frame, first, second.drop_last());
        assert((first + second).drop_last() =~= first + second.drop_last());
    }
}

/// Incremental parsing: projecting some rows, and later the rest from where that left off, gives
/// the records and the state that projecting all of them at once gives.
pub proof fn law_projection_is_incremental(
    start: ProjectionModel,
    frame: Frame,
    first: Seq<MessageRow>,
    second: Seq<MessageRow>,
)
    ensures
        ({
            let halfway = start.after_rows(frame, first);
            let resumed = ProjectionModel { records: seq![], ..halfway };
            start.after_rows(frame, first + second) == preceded(
                halfway.records,
                resumed.after_rows(continued(frame, halfway.records.len()), second),
            )
        }),
{
    let halfway = start.after_rows(frame, first);
    let resumed = ProjectionModel { records: seq![], ..halfway };
    lemma_rows_compose(start, frame, first, second);
    assert(preceded(halfway.records, resumed) =~= halfway);
    lemma_rows_continue(halfway.records, resumed, frame, second);
}

proof fn lemma_calls_are_remembered(
    p: ProjectionModel,
    frame: Frame,
    row: MessageRow,
    component: nat,
    listed: Seq<CallModel>,
    j: int,
)
    requires
        0 <= j < listed.len(),
        forall|k: int| j < k < listed.len() ==> #[trigger] listed[k].id != listed[j].id,
    ensures
        ({
            let after = p.after_calls(frame, row, component, listed);
            &&& after.pending.dom().contains(listed[j].id)
            &&& after.pending[listed[j].id].tool_name == listed[j].name
            &&& after.pending[listed[j].id].session_id == Some(row.session_id@)
            &&& after.diagnostics.orphan_tool_results == p.diagnostics.orphan_tool_results
        }),
    decreases listed.len(),
{
    if j < listed.len() - 1 {
        let before = listed.drop_last();
        assert forall|k: int| j < k < before.len() implies #[trigger] before[k].id
            != before[j].id by {
            assert(before[k] == listed[k]);
        }
        lemma_calls_are_remembered(p, frame, row, component, before, j);
        assert(listed[listed.len() - 1].id != listed[j].id);
    } else {
        lemma_calls_keep_orphans(p, frame, row, component, listed);
    }
}

proof fn lemma_calls_keep_orphans(
    p: ProjectionModel,
    frame: Frame,
    row: MessageRow,
    component: nat,
    listed: Seq<CallModel>,
)
    ensures
        p.after_calls(frame, row, component, listed).diagnostics.orphan_tool_results
            == p.diagnostics.orphan_tool_results,
    decreases listed.len(),
{
    if listed.len() > 0 {
        lemma_calls_keep_orphans(p, frame, row, component, listed.drop_last());
    }
}

/// A call is remembered until its result is seen: the result that names it is linked to it, takes
/// over its tool name where it has none of its own, and is no orphan; after that the call is no
/// longer pending.
pub proof fn law_result_answers_its_call(
    p: ProjectionModel,
    frame: Frame,
    asking: MessageRow,
    answering: MessageRow,
    j: int,
)
    requires
        asking.role@ == "assistant"@,
        answering.role@ == "tool"@,
        p.planned.dom().contains(asking.id),
        0 <= j < p.planned[asking.id].len(),
        forall|k: int|
            j < k < p.planned[asking.id].len() ==> #[trigger] p.planned[asking.id][k].id
                != p.planned[asking.id][j].id,
        projection::named_call(answering) == Some(p.planned[asking.id][j].id),
    ensures
        ({
            let call = p.planned[asking.id][j];
            let after = p.after_row(frame, asking).after_row(frame, answering);
            let result = after.records.last();
            &&& result.role == "tool_result"@
            &&& result.links.parent_tool_use_id == Some(call.id)
            &&& result.links.parent_event_id == Some(call.id)
            &&& answering.tool_name is None ==> result.tool_name == call.name
            &&& !after.pending.dom().contains(call.id)
            &&& after.diagnostics.orphan_tool_results == p.diagnostics.orphan_tool_results
        }),
{
    reveal_strlit("user");
    reveal_strlit("assistant");
    reveal_strlit("tool");
    assert("user"@[0] == 'u' && "assistant"@[0] == 'a' && "tool"@[0] == 't');
    let reached = ProjectionModel {
        offset: if asking.id > p.offset {
            asking.id
        } else {
            p.offset
        },
        ..p
    };
    let reasoned = reached.after_reasoning(frame, asking);
    let told = reasoned.after_text(
        frame,
        asking,
        (reasoned.records.len() - reached.records.len()) as nat,
        "assistant"@,
    );
    let taken = ProjectionModel { planned: reached.planned.remove(asking.id), ..told };
    lemma_calls_are_remembered(
        taken,
        frame,
        asking,
        (told.records.len() - reached.records.len()) as nat,
        p.planned[asking.id],
        j,
    );
}

/// Two projections that differ at most in what was counted and in the plans of rows whose ids are
/// not among `ids`.
spec fn alike(p: ProjectionModel, q: ProjectionModel, ids: Set<u64>) -> bool {
    &&& p.records == q.records
    &&& p.pending == q.pending
    &&& p.offset == q.offset
    &&& forall|id: u64| #[trigger]
        ids.contains(id) ==> p.planned.dom().contains(id) == q.planned.dom().contains(id) && (
        p.planned.dom().contains(id) ==> p.planned[id] == q.planned[id])
}

proof fn lemma_calls_alike(
    p: ProjectionModel,
    q: ProjectionModel,
    ids: Set<u64>,
    frame: Frame,
    row: MessageRow,
    component: nat,
    listed: Seq<CallModel>,
)
    requires
        alike(p, q, ids),
    ensures
        alike(
            p.after_calls(frame, row, component, listed),
            q.after_calls(frame, row, component, listed),
            ids,
        ),
    decreases listed.len(),
{
    if listed.len() > 0 {
        lemma_calls_alike(p, q, ids, frame, row, component, listed.drop_last());
    }
}

proof fn lemma_row_alike(
    p: ProjectionModel,
    q: ProjectionModel,
    ids: Set<u64>,
    frame: Frame,
    row: MessageRow,
)
    requires
        alike(p, q, ids),
        ids.contains(row.id),
    ensures
        alike(p.after_row(frame, row), q.after_row(frame, row), ids),
{
    let offset = if row.id > p.offset {
        row.id
    } else {
        p.offset
    };
    let rp = ProjectionModel { offset, ..p };
    let rq = ProjectionModel { offset, ..q };
    assert(alike(rp, rq, ids));
    if row.role@ != "user"@ && row.role@ == "assistant"@ {
        let np = rp.after_reasoning(frame, row);
        let nq = rq.after_reasoning(frame, row);
        assert(alike(np, nq, ids));
        let component = (np.records.len() - rp.records.len()) as nat;
        let tp = np.after_text(frame, row, component, "assistant"@);
        let tq = nq.after_text(frame, row, component, "assistant"@);
        assert(alike(tp, tq, ids));
        if rp.planned.dom().contains(row.id) {
            let kp = ProjectionModel { planned: rp.planned.remove(row.id), ..tp };
            let kq = ProjectionModel { planned: rq.planned.remove(row.id), ..tq };
            assert(alike(kp, kq, ids));
            lemma_calls_alike(
                kp,
                kq,
                ids,
                frame,
                row,
                (tp.records.len() - rp.records.len()) as nat,
                rp.planned[row.id],
            );
        }
    }
}

proof fn lemma_rows_alike(
    p: ProjectionModel,
    q: ProjectionModel,
    ids: Set<u64>,
    frame: Frame,
    rows: Seq<MessageRow>,
)
    requires
        alike(p, q, ids),
        forall|i: int| 0 <= i < rows.len() ==> ids.contains((#[trigger] rows[i]).id),
    ensures
        alike(p.after_rows(frame, rows), q.after_rows(frame, rows), ids),
    decreases rows.len(),
{
    if rows.len() > 0 {
        let rest = rows.drop_last();
        assert forall|i: int| 0 <= i < rest.len() implies ids.contains((#[trigger] rest[i]).id) by {
            assert(rest[i] == rows[i]);
        }
        lemma_rows_alike(p, q, ids, frame, rest);
        assert(rows[rows.len() - 1] == rows.last());
        lemma_row_alike(
            p.after_rows(frame, rest),
            q.after_rows(frame, rest),
            ids,
            frame,
            rows.last(),
        );
    }
}

/// A projection leaves the plans of other rows alone.
proof fn lemma_other_plans_stay(
    p: ProjectionModel,
    frame: Frame,
    rows: Seq<MessageRow>,
    id: u64,
)
    requires
        forall|i: int| 0 <= i < rows.len() ==> (#[trigger] rows[i]).id != id,
    ensures
        ({
            let after = p.after_rows(frame, rows);
            &&& after.planned.dom().contains(id) == p.planned.dom().contains(id)
            &&& p.planned.dom().contains(id) ==> after.planned[id] == p.planned[id]
        }),
    decreases rows.len(),
{
    if rows.len() > 0 {
        let rest = rows.drop_last();
        assert forall|i: int| 0 <= i < rest.len() implies (#[trigger] rest[i]).id != id by {
            assert(rest[i] == rows[i]);
        }
        lemma_other_plans_stay(p, frame, rest, id);
        assert(rows[rows.len() - 1] == rows.last());
        let before = p.after_rows(frame, rest);
        let row = rows.last();
        let reached = ProjectionModel {
            offset: if row.id > before.offset {
                row.id
            } else {
                before.offset
            },
            ..before
        };
        if row.role@ != "user"@ && row.role@ == "assistant"@ && reached.planned.dom().contains(
            row.id,
        ) {
            let reasoned = reached.after_reasoning(frame, row);
            let told = reasoned.after_text(
                frame,
                row,
                (reasoned.records.len() - reached.records.len()) as nat,
                "assistant"@,
            );
            let taken = ProjectionModel { planned: reached.planned.remove(row.id), ..told };
            lemma_calls_extend(
                taken,
                frame,
                row,
                (told.records.len() - reached.records.len()) as nat,
                reached.planned[row.id],
            );
        }
    }
}

/// Rows that do not start with a tool result can be parsed in a go of their own.
pub open spec fn starts_afresh(rows: Seq<MessageRow>) -> bool {
    rows.len() == 0 || rows[0].role@ != "tool"@
}

proof fn lemma_results_stop(first: Seq<MessageRow>, second: Seq<MessageRow>)
    requires
        starts_afresh(second),
    ensures
        calls::result_ids(first + second) == calls::result_ids(first),
    decreases first.len(),
{
    if first.len() == 0 {
        assert(first + second =~= second);
    } else {
        assert((first + second)[0] == first[0]);
        assert((first + second).drop_first() =~= first.drop_first() + second);
        lemma_results_stop(first.drop_first(), second);
    }
}

proof fn lemma_first_plan(
    first: Seq<MessageRow>,
    second: Seq<MessageRow>,
    n: nat,
    diagnostics: DiagnosticsModel,
)
    requires
        n <= first.len(),
        starts_afresh(second),
    ensures
        calls::plan_of(first + second, n, diagnostics) == calls::plan_of(first, n, diagnostics),
    decreases n,
{
    if n > 0 {
        lemma_first_plan(first, second, (n - 1) as nat, diagnostics);
        assert((first + second)[n - 1] == first[n - 1]);
        assert((first + second).skip(n as int) =~= first.skip(n as int) + second);
        lemma_results_stop(first.skip(n as int), second);
    }
}

proof fn lemma_second_plan(
    first: Seq<MessageRow>,
    second: Seq<MessageRow>,
    n: nat,
    diagnostics: DiagnosticsModel,
    afresh: DiagnosticsModel,
)
    requires
        n <= second.len(),
        starts_afresh(second),
    ensures
        calls::plan_of(first + second, first.len() + n, diagnostics).calls == calls::plan_of(
            first,
            first.len(),
            diagnostics,
        ).calls.union_prefer_right(calls::plan_of(second, n, afresh).calls),
    decreases n,
{
    let ours = calls::plan_of(first, first.len(), diagnostics).calls;
    if n == 0 {
        lemma_first_plan(first, second, first.len(), diagnostics);
        assert(ours.union_prefer_right(calls::plan_of(second, n, afresh).calls) =~= ours);
    } else {
        let m = (n - 1) as nat;
        lemma_second_plan(first, second, m, diagnostics, afresh);
        assert((first + second)[(first.len() + m) as int] == second[m as int]);
        assert((first + second).skip((first.len() + n) as int) =~= second.skip(n as int));
        assert(((first.len() + n) - 1) as nat == first.len() + m);
        let theirs = calls::plan_of(second, m, afresh).calls;
        if let RowPlan::Calls(listed) = calls::row_plan(second, m as int) {
            if listed.len() > 0 {
                assert(ours.union_prefer_right(theirs).insert(second[m as int].id, listed)
                    =~= ours.union_prefer_right(theirs.insert(second[m as int].id, listed)));
            }
        }
    }
}

/// The calls that are planned for rows.
pub open spec fn planned_calls(rows: Seq<MessageRow>) -> Map<u64, Seq<CallModel>> {
    calls::plan_of(rows, rows.len(), DiagnosticsModel::nothing()).calls
}

/// Parsing in two goes: the messages so far, and later those that were added since. As long as the
/// new ones do not start in the middle of the results of a call, planning and projecting them on
/// their own, from where the first go left off, gives the records, the pending calls and the offset
/// that parsing all of them at once gives.
pub proof fn law_parsing_is_incremental(
    start: ProjectionModel,
    frame: Frame,
    first: Seq<MessageRow>,
    second: Seq<MessageRow>,
    counted: DiagnosticsModel,
)
    requires
        start.records.len() == 0,
        starts_afresh(second),
        forall|i: int, j: int|
            0 <= i < first.len() && 0 <= j < second.len() ==> (#[trigger] first[i]).id != (
            #[trigger] second[j]).id,
    ensures
        ({
            let whole = (ProjectionModel {
                planned: planned_calls(first + second),
                ..start
            }).after_rows(frame, first + second);
            let halfway = (ProjectionModel { planned: planned_calls(first), ..start }).after_rows(
                frame,
                first,
            );
            let rest = (ProjectionModel {
                records: seq![],
                diagnostics: counted,
                planned: planned_calls(second),
                ..halfway
            }).after_rows(continued(frame, halfway.records.len()), second);
            &&& whole.records == halfway.records + rest.records
            &&& whole.pending == rest.pending
            &&& whole.offset == rest.offset
        }),
{
    let nothing = DiagnosticsModel::nothing();
    let both = planned_calls(first + second);
    let ours = planned_calls(first);
    let theirs = planned_calls(second);
    lemma_second_plan(first, second, second.len(), nothing, nothing);
    assert(both == ours.union_prefer_right(theirs));
    let all = ProjectionModel { planned: both, ..start };
    let alone = ProjectionModel { planned: ours, ..start };
    let whole = all.after_rows(frame, first + second);
    let halfway = alone.after_rows(frame, first);
    let middle = all.after_rows(frame, first);
    // The plans of the second rows make no difference to the first.
    let first_ids = Set::new(
        |id: u64| exists|i: int| 0 <= i < first.len() && (#[trigger] first[i]).id == id,
    );
    assert forall|id: u64| #[trigger] first_ids.contains(id) implies !theirs.dom().contains(id) by {
        if theirs.dom().contains(id) {
            parse::lemma_plan_is_of_rows(second, second.len(), nothing, id);
        }
    }
    assert(alike(all, alone, first_ids));
    lemma_rows_alike(all, alone, first_ids, frame, first);
    // The plans of the first rows make no difference to the second.
    let second_ids = Set::new(
        |id: u64| exists|i: int| 0 <= i < second.len() && (#[trigger] second[i]).id == id,
    );
    let resumed = ProjectionModel {
        records: seq![],
        diagnostics: counted,
        planned: theirs,
        ..halfway
    };
    let going_on = ProjectionModel { records: seq![], ..middle };
    let left = going_on.planned;
    assert forall|id: u64| #[trigger] second_ids.contains(id) implies left.dom().contains(id)
        == theirs.dom().contains(id) && (theirs.dom().contains(id) ==> left[id] == theirs[id]) by {
        lemma_other_plans_stay(all, frame, first, id);
        if ours.dom().contains(id) {
            parse::lemma_plan_is_of_rows(first, first.len(), nothing, id);
        }
    }
    let next = continued(frame, halfway.records.len());
    assert(alike(going_on, resumed, second_ids));
    lemma_rows_alike(going_on, resumed, second_ids, next, second);
    law_projection_is_incremental(all, frame, first, second);
}

/// The turns of a row count up from its first one, those of the next row come right behind its
/// eighth one, and the first row's first turn is the first of all. Rows beyond the last one that
/// has room for its turns share the turns of that one.
pub proof fn law_turns_count_up(id: u64, component: nat)
    requires
        component < 7,
    ensures
        projection::turn_of(0, 0) == 0,
        projection::turn_of(id, component + 1) == projection::turn_of(id, component) + 1,
        id < 0x1FFF_FFFF ==> projection::turn_of((id + 1) as u64, 0) == projection::turn_of(id, 7)
            + 1,
        id >= 0x1FFF_FFFF ==> projection::turn_of(id, component) == projection::turn_of(
            0x1FFF_FFFF,
            component,
        ),
{
}

/// A message of the user becomes one record that shows what it says, unless that is blank, and
/// leaves everything else as it is.
pub proof fn law_user_rows_are_shown(p: ProjectionModel, frame: Frame, row: MessageRow)
    requires
        row.role@ == "user"@,
    ensures
        ({
            let after = p.after_row(frame, row);
            let shown = content::content_shown(text::opt_text(row.content));
            &&& after.pending == p.pending
            &&& after.planned == p.planned
            &&& after.diagnostics == p.diagnostics
            &&& text::blank(shown) ==> after.records == p.records
            &&& !text::blank(shown) ==> {
                &&& after.records.len() == p.records.len() + 1
                &&& after.records.drop_last() == p.records
                &&& after.records.last().role == "user"@
                &&& after.records.last().text == shown
                &&& after.records.last().turn_id == projection::turn_of(row.id, 0)
                &&& made_from(frame, row, p.records.len() as int, after.records.last())
            }
        }),
{
    lemma_row_extends(p, frame, row);
    let after = p.after_row(frame, row);
    assert(after.records =~= p.records || after.records.drop_last() =~= p.records);
}

/// The result of a tool becomes one record that has what the content column says as its text and as
/// its output, whether or not it is blank. The tool is the one that the row names, or else that of
/// the call that it answers. The call that it names, if it is pending, is the one that it answers,
/// and is pending no longer; no other call is touched. A result that names a call and answers none
/// is counted as an orphan, and nothing else is counted.
pub proof fn law_tool_rows_are_shown(p: ProjectionModel, frame: Frame, row: MessageRow)
    requires
        row.role@ == "tool"@,
    ensures
        ({
            let after = p.after_row(frame, row);
            let record = after.records.last();
            let shown = content::content_shown(text::opt_text(row.content));
            let named = text::opt_text(row.tool_call_id);
            &&& after.planned == p.planned
            &&& after.records.len() == p.records.len() + 1
            &&& after.records.drop_last() == p.records
            &&& record.role == "tool_result"@
            &&& record.text == shown
            &&& record.tool_output == Some(shown)
            &&& record.turn_id == projection::turn_of(row.id, 0)
            &&& row.tool_name matches Some(name) ==> record.tool_name == Some(name@)
            &&& made_from(frame, row, p.records.len() as int, record)
            &&& after.pending.submap_of(p.pending)
            &&& named is Some && named->0.len() > 0 && p.pending.dom().contains(named->0) ==> {
                &&& after.pending == p.pending.remove(named->0)
                &&& record.links.parent_tool_use_id == named
                &&& row.tool_name is None ==> record.tool_name == p.pending[named->0].tool_name
            }
            &&& named is Some && named->0.len() > 0 ==> record.links.parent_tool_use_id is Some
            &&& after.pending != p.pending ==> {
                &&& record.links.parent_tool_use_id matches Some(id)
                &&& p.pending.dom().contains(id)
                &&& after.pending == p.pending.remove(id)
                &&& row.tool_name is None ==> record.tool_name == p.pending[id].tool_name
            }
            &&& after.diagnostics == (DiagnosticsModel {
                orphan_tool_results: p.diagnostics.orphan_tool_results + if named is Some
                    && named->0.len() > 0 && after.pending == p.pending {
                    1int
                } else {
                    0int
                },
                ..p.diagnostics
            })
        }),
{
    reveal_strlit("user");
    reveal_strlit("assistant");
    reveal_strlit("tool");
    assert("user"@[0] == 'u' && "assistant"@[0] == 'a' && "tool"@[0] == 't');
    lemma_row_extends(p, frame, row);
    let after = p.after_row(frame, row);
    assert(after.records.drop_last() =~= p.records);
    if let Some(id) = projection::answered_call(p.pending, row) {
        lemma_answered_is_pending(p.pending, row);
        assert(p.pending.dom().contains(id) && !after.pending.dom().contains(id));
        assert(after.pending != p.pending);
    }
}

/// The call that a result answers is pending.
proof fn lemma_answered_is_pending(
    pending: Map<Seq<char>, crate::state::PendingModel>,
    row: MessageRow,
)
    ensures
        projection::answered_call(pending, row) matches Some(id) ==> pending.dom().contains(id),
{
    if let Some(id) = projection::guessed_call(
        pending,
        row.session_id@,
        text::opt_text(row.tool_name),
    ) {
        assert(projection::only_candidate(
            pending,
            row.session_id@,
            text::opt_text(row.tool_name),
            id,
        ));
    }
}

/// A result that names no pending call answers a pending call of its session that the tool could
/// have answered, if there is exactly one, and otherwise none.
pub proof fn law_unnamed_results_answer_the_only_call(
    p: ProjectionModel,
    frame: Frame,
    row: MessageRow,
    id: Seq<char>,
)
    requires
        row.role@ == "tool"@,
        row.tool_call_id matches Some(named) ==> named@.len() == 0 || !p.pending.dom().contains(
            named@,
        ),
    ensures
        ({
            let could = |call: Seq<char>|
                p.pending.dom().contains(call) && p.pending[call].session_id == Some(
                    row.session_id@,
                ) && (row.tool_name is None || p.pending[call].tool_name is None
                    || p.pending[call].tool_name == Some(row.tool_name->0@));
            let after = p.after_row(frame, row);
            &&& could(id) && (forall|other: Seq<char>| #[trigger] could(other) ==> other == id)
                ==> after.pending == p.pending.remove(id)
                && after.records.last().links.parent_tool_use_id == Some(id)
            &&& after.pending != p.pending ==> exists|call: Seq<char>| {
                &&& #[trigger] could(call)
                &&& after.pending == p.pending.remove(call)
                &&& forall|other: Seq<char>| #[trigger] could(other) ==> other == call
            }
        }),
{
    reveal_strlit("user");
    reveal_strlit("assistant");
    reveal_strlit("tool");
    assert("user"@[0] == 'u' && "assistant"@[0] == 'a' && "tool"@[0] == 't');
    let name = text::opt_text(row.tool_name);
    let could = |call: Seq<char>| p.pending.dom().contains(call) && p.pending[call].session_id
        == Some(row.session_id@) && (row.tool_name is None || p.pending[call].tool_name is None
        || p.pending[call].tool_name == Some(row.tool_name->0@));
    assert forall|call: Seq<char>| #[trigger] could(call) == (p.pending.dom().contains(call)
        && projection::candidate(p.pending[call], row.session_id@, name)) by {}
    if could(id) && (forall|other: Seq<char>| #[trigger] could(other) ==> other == id) {
        assert forall|other: Seq<char>| #[trigger]
            p.pending.dom().contains(other) && projection::candidate(
                p.pending[other],
                row.session_id@,
                name,
            ) implies other == id by {
            assert(could(other));
        }
        assert(projection::only_candidate(p.pending, row.session_id@, name, id));
        let picked = choose|call: Seq<char>|
            projection::only_candidate(p.pending, row.session_id@, name, call);
        assert(projection::only_candidate(p.pending, row.session_id@, name, picked));
    }
    if let Some(call) = projection::guessed_call(p.pending, row.session_id@, name) {
        assert(projection::only_candidate(p.pending, row.session_id@, name, call));
        assert(could(call));
        assert forall|other: Seq<char>| #[trigger] could(other) implies other == call by {
            assert(p.pending.dom().contains(other));
        }
    }
}

/// Rows of the system leave everything as it is, and rows of an unknown role are counted by it.
pub proof fn law_other_rows_are_not_shown(p: ProjectionModel, frame: Frame, row: MessageRow)
    requires
        row.role@ != "user"@,
        row.role@ != "assistant"@,
        row.role@ != "tool"@,
    ensures
        ({
            let after = p.after_row(frame, row);
            &&& after.records == p.records
            &&& after.pending == p.pending
            &&& after.planned == p.planned
            &&& row.role@ == "system"@ ==> after.diagnostics == p.diagnostics
            &&& row.role@ != "system"@ ==> {
                &&& after.diagnostics.met(row.role@) == p.diagnostics.met(row.role@) + 1
                &&& forall|name: Seq<char>|
                    name != row.role@ ==> #[trigger] after.diagnostics.met(name)
                        == p.diagnostics.met(name)
                &&& after.diagnostics.malformed_json_lines == p.diagnostics.malformed_json_lines
                &&& after.diagnostics.duplicate_tool_calls == p.diagnostics.duplicate_tool_calls
                &&& after.diagnostics.orphan_tool_results == p.diagnostics.orphan_tool_results
                &&& after.diagnostics.encrypted_reasoning_dropped
                    == p.diagnostics.encrypted_reasoning_dropped
            }
        }),
{
}

/// What is remembered of a call: its tool, its id, the record that shows it, when and in which
/// session it was made, by which message, and how long its arguments are.
pub open spec fn remembers(
    after: ProjectionModel,
    row: MessageRow,
    call: CallModel,
    record: RecordModel,
) -> bool {
    let kept = after.pending[call.id];
    &&& after.pending.dom().contains(call.id)
    &&& kept.tool_name == call.name
    &&& kept.tool_use_event_id == Some(call.id)
    &&& kept.tool_use_doc_id == Some(record.doc_id)
    &&& kept.timestamp == row.timestamp_ms
    &&& kept.argument_sha256 == call.argument_sha256
    &&& kept.argument_bytes == Some(vstd::utf8::encode_utf8(call.arguments).len() as u64)
    &&& kept.parent_event_id == Some(text::decimal(row.id as nat))
    &&& kept.session_id == Some(row.session_id@)
    &&& kept.source_tool_use_id is None
    &&& kept.source_tool_assistant_uuid is None
}

/// `record` shows `call`: its arguments are the text and the input, and it has the call's tool and
/// the call's id.
pub open spec fn shows_call(call: CallModel, record: RecordModel) -> bool {
    &&& record.role == "tool_use"@
    &&& record.text == call.arguments
    &&& record.tool_input == Some(call.arguments)
    &&& record.tool_name == call.name
    &&& record.links.event_id == Some(call.id)
}

/// Calls become records one after another.
proof fn lemma_call_records(
    p: ProjectionModel,
    frame: Frame,
    row: MessageRow,
    component: nat,
    listed: Seq<CallModel>,
)
    ensures
        ({
            let after = p.after_calls(frame, row, component, listed);
            let first = p.records.len();
            &&& after.records.len() == first + listed.len()
            &&& after.records.take(first as int) == p.records
            &&& forall|j: int|
                0 <= j < listed.len() ==> shows_call(
                    #[trigger] listed[j],
                    after.records[first + j],
                ) && after.records[first + j].turn_id == projection::turn_of(
                    row.id,
                    (component + j) as nat,
                )
            &&& after.planned == p.planned
        }),
    decreases listed.len(),
{
    let first = p.records.len();
    let after = p.after_calls(frame, row, component, listed);
    if listed.len() > 0 {
        let less = listed.drop_last();
        let before = p.after_calls(frame, row, component, less);
        lemma_call_records(p, frame, row, component, less);
        assert forall|j: int| 0 <= j < listed.len() implies shows_call(
            #[trigger] listed[j],
            after.records[first + j],
        ) && after.records[first + j].turn_id == projection::turn_of(
            row.id,
            (component + j) as nat,
        ) by {
            if j < less.len() {
                assert(less[j] == listed[j]);
                assert(after.records[first + j] == before.records[first + j]);
            }
        }
        assert forall|k: int| 0 <= k < first implies after.records[k] == p.records[k] by {
            assert(before.records.take(first as int)[k] == before.records[k]);
        }
    }
    assert(after.records.take(first as int) =~= p.records);
}

/// Calls are remembered, and every one of them is either pending on top of what was, or counted as
/// a duplicate.
#[verifier::spinoff_prover]
#[verifier::rlimit(40)]
proof fn lemma_call_memory(
    p: ProjectionModel,
    frame: Frame,
    row: MessageRow,
    component: nat,
    listed: Seq<CallModel>,
)
    requires
        p.pending.dom().finite(),
    ensures
        ({
            let after = p.after_calls(frame, row, component, listed);
            let first = p.records.len();
            &&& after.pending.dom().finite()
            &&& forall|j: int|
                0 <= j < listed.len() && (forall|k: int|
                    j < k < listed.len() ==> #[trigger] listed[k].id != listed[j].id)
                    ==> remembers(after, row, #[trigger] listed[j], after.records[first + j])
            &&& forall|id: Seq<char>| #[trigger]
                after.pending.dom().contains(id) <==> p.pending.dom().contains(id) || exists|j: int|
                    0 <= j < listed.len() && #[trigger] listed[j].id == id
            &&& forall|id: Seq<char>| #[trigger]
                p.pending.dom().contains(id) && (forall|j: int|
                    0 <= j < listed.len() ==> #[trigger] listed[j].id != id) ==> after.pending[id]
                    == p.pending[id]
            &&& after.pending.dom().len() + after.diagnostics.duplicate_tool_calls
                == p.pending.dom().len() + p.diagnostics.duplicate_tool_calls + listed.len()
            &&& after.diagnostics == (DiagnosticsModel {
                duplicate_tool_calls: after.diagnostics.duplicate_tool_calls,
                ..p.diagnostics
            })
        }),
    decreases listed.len(),
{
    let first = p.records.len();
    let after = p.after_calls(frame, row, component, listed);
    lemma_call_records(p, frame, row, component, listed);
    if listed.len() > 0 {
        let less = listed.drop_last();
        let last = listed.last();
        let before = p.after_calls(frame, row, component, less);
        lemma_call_records(p, frame, row, component, less);
        lemma_call_memory(p, frame, row, component, less);
        assert forall|j: int|
            0 <= j < listed.len() && (forall|k: int|
                j < k < listed.len() ==> #[trigger] listed[k].id != listed[j].id) implies remembers(
            after,
            row,
            #[trigger] listed[j],
            after.records[first + j],
        ) by {
            if j < less.len() {
                assert(less[j] == listed[j]);
                assert forall|k: int| j < k < less.len() implies #[trigger] less[k].id
                    != less[j].id by {
                    assert(less[k] == listed[k]);
                }
                assert(remembers(before, row, less[j], before.records[first + j]));
                assert(listed[listed.len() - 1].id != listed[j].id);
                assert(after.records[first + j] == before.records[first + j]);
            }
        }
        assert forall|id: Seq<char>| #[trigger] after.pending.dom().contains(id) <==> (
        p.pending.dom().contains(id) || exists|j: int|
            0 <= j < listed.len() && #[trigger] listed[j].id == id) by {
            if before.pending.dom().contains(id) && !p.pending.dom().contains(id) {
                let j = choose|j: int| 0 <= j < less.len() && #[trigger] less[j].id == id;
                assert(listed[j].id == id);
            }
            if id == last.id {
                assert(listed[listed.len() - 1].id == id);
            }
            if exists|j: int| 0 <= j < listed.len() && #[trigger] listed[j].id == id {
                let j = choose|j: int| 0 <= j < listed.len() && #[trigger] listed[j].id == id;
                if j < less.len() {
                    assert(less[j].id == id);
                }
            }
        }
        assert forall|id: Seq<char>| #[trigger]
            p.pending.dom().contains(id) && (forall|j: int|
                0 <= j < listed.len() ==> #[trigger] listed[j].id
                    != id) implies after.pending[id] == p.pending[id] by {
            assert forall|j: int| 0 <= j < less.len() implies #[trigger] less[j].id != id by {
                assert(less[j] == listed[j]);
            }
            assert(listed[listed.len() - 1].id != id);
        }
        assert(after.pending.dom() =~= before.pending.dom().insert(last.id));
    }
}

/// The calls that are planned for a row.
pub open spec fn listed_for(p: ProjectionModel, row: MessageRow) -> Seq<CallModel> {
    if p.planned.dom().contains(row.id) {
        p.planned[row.id]
    } else {
        seq![]
    }
}

/// How many records the reasoning of a row of the assistant becomes.
pub open spec fn reasoning_count(frame: Frame, row: MessageRow) -> int {
    if frame.include_reasoning && content::shown_reasoning(row) is Some {
        1
    } else {
        0
    }
}

/// How many records the content of a row becomes, unless it is the result of a tool.
pub open spec fn text_count(row: MessageRow) -> int {
    if text::blank(content::content_shown(text::opt_text(row.content))) {
        0
    } else {
        1
    }
}

/// A projection after the reasoning and the content of a row of the assistant, and before its
/// calls.
spec fn told_of(p: ProjectionModel, frame: Frame, row: MessageRow) -> ProjectionModel {
    let reached = ProjectionModel {
        offset: if row.id > p.offset {
            row.id
        } else {
            p.offset
        },
        ..p
    };
    let reasoned = reached.after_reasoning(frame, row);
    reasoned.after_text(
        frame,
        row,
        (reasoned.records.len() - reached.records.len()) as nat,
        "assistant"@,
    )
}

proof fn lemma_told(p: ProjectionModel, frame: Frame, row: MessageRow)
    requires
        row.role@ == "assistant"@,
    ensures
        ({
            let told = told_of(p, frame, row);
            let first = p.records.len() as int;
            let shown = content::content_shown(text::opt_text(row.content));
            let at = first + reasoning_count(frame, row);
            &&& told.records.len() == at + text_count(row)
            &&& told.records.take(first) == p.records
            &&& reasoning_count(frame, row) > 0 ==> {
                &&& told.records[first].role == "reasoning"@
                &&& content::shown_reasoning(row) == Some(told.records[first].text)
            }
            &&& text_count(row) > 0 ==> {
                &&& told.records[at].role == "assistant"@
                &&& told.records[at].text == shown
            }
            &&& forall|k: int|
                first <= k < told.records.len() ==> #[trigger] told.records[k].turn_id
                    == projection::turn_of(row.id, (k - first) as nat)
            &&& told.pending == p.pending
            &&& told.planned == p.planned
            &&& told.diagnostics == (DiagnosticsModel {
                encrypted_reasoning_dropped: p.diagnostics.encrypted_reasoning_dropped
                    + if frame.include_reasoning && content::hides_reasoning(row) {
                    1int
                } else {
                    0int
                },
                ..p.diagnostics
            })
        }),
{
    let told = told_of(p, frame, row);
    assert(told.records.take(p.records.len() as int) =~= p.records);
}

proof fn lemma_assistant_steps(p: ProjectionModel, frame: Frame, row: MessageRow)
    requires
        row.role@ == "assistant"@,
    ensures
        ({
            let told = told_of(p, frame, row);
            let listed = listed_for(p, row);
            let taken = ProjectionModel { planned: p.planned.remove(row.id), ..told };
            p.after_row(frame, row) == taken.after_calls(
                frame,
                row,
                (told.records.len() - p.records.len()) as nat,
                listed,
            )
        }),
{
    reveal_strlit("user");
    reveal_strlit("assistant");
    assert("user"@[0] == 'u' && "assistant"@[0] == 'a');
    if !p.planned.dom().contains(row.id) {
        assert(p.planned.remove(row.id) =~= p.planned);
    }
}

/// An answer of the assistant becomes, in this order, a record of its reasoning, where that is
/// asked for and can be read, a record of what it says, unless that is blank, and a record of each
/// call that is planned for it, which is planned no longer. Their turns count up.
pub proof fn law_assistant_rows_are_shown(p: ProjectionModel, frame: Frame, row: MessageRow)
    requires
        row.role@ == "assistant"@,
    ensures
        ({
            let after = p.after_row(frame, row);
            let first = p.records.len() as int;
            let told = first + reasoning_count(frame, row);
            let called = told + text_count(row);
            let listed = listed_for(p, row);
            &&& after.records.len() == called + listed.len()
            &&& after.records.take(first) == p.records
            &&& reasoning_count(frame, row) > 0 ==> {
                &&& after.records[first].role == "reasoning"@
                &&& content::shown_reasoning(row) == Some(after.records[first].text)
            }
            &&& text_count(row) > 0 ==> {
                &&& after.records[told].role == "assistant"@
                &&& after.records[told].text == content::content_shown(text::opt_text(row.content))
            }
            &&& forall|j: int|
                0 <= j < listed.len() ==> shows_call(
                    #[trigger] listed[j],
                    after.records[called + j],
                )
            &&& forall|k: int|
                first <= k < after.records.len() ==> #[trigger] after.records[k].turn_id
                    == projection::turn_of(row.id, (k - first) as nat)
            &&& forall|k: int|
                first <= k < after.records.len() ==> made_from(
                    frame,
                    row,
                    k,
                    #[trigger] after.records[k],
                )
            &&& after.planned == p.planned.remove(row.id)
        }),
{
    lemma_row_extends(p, frame, row);
    lemma_told(p, frame, row);
    lemma_assistant_steps(p, frame, row);
    let told = told_of(p, frame, row);
    let after = p.after_row(frame, row);
    let first = p.records.len() as int;
    let called = told.records.len() as int;
    let listed = listed_for(p, row);
    let taken = ProjectionModel { planned: p.planned.remove(row.id), ..told };
    lemma_call_records(taken, frame, row, (called - first) as nat, listed);
    lemma_calls_extend(taken, frame, row, (called - first) as nat, listed);
    assert(forall|k: int| 0 <= k < called ==> #[trigger] after.records[k] == told.records[k]);
    assert forall|k: int|
        first <= k < after.records.len() implies #[trigger] after.records[k].turn_id
        == projection::turn_of(row.id, (k - first) as nat) by {
        if k >= called {
            assert(shows_call(listed[k - called], after.records[called + (k - called)]));
        }
    }
    assert forall|k: int| 0 <= k < first implies after.records.take(first)[k] == p.records[k] by {
        assert(told.records.take(first)[k] == told.records[k]);
    }
    assert(after.records.take(first) =~= p.records);
}

/// The calls of an answer of the assistant are remembered, each by its id, and nothing that was
/// remembered is forgotten. Every call is either pending on top of what was or counted as a
/// duplicate. Reasoning that is asked for and cannot be read is counted, and nothing else is.
pub proof fn law_calls_are_remembered(p: ProjectionModel, frame: Frame, row: MessageRow)
    requires
        row.role@ == "assistant"@,
        p.pending.dom().finite(),
    ensures
        ({
            let after = p.after_row(frame, row);
            let listed = listed_for(p, row);
            let called = after.records.len() - listed.len();
            &&& forall|j: int|
                0 <= j < listed.len() && (forall|k: int|
                    j < k < listed.len() ==> #[trigger] listed[k].id != listed[j].id)
                    ==> remembers(after, row, #[trigger] listed[j], after.records[called + j])
            &&& forall|id: Seq<char>| #[trigger]
                after.pending.dom().contains(id) <==> p.pending.dom().contains(id) || exists|j: int|
                    0 <= j < listed.len() && #[trigger] listed[j].id == id
            &&& forall|id: Seq<char>| #[trigger]
                p.pending.dom().contains(id) && (forall|j: int|
                    0 <= j < listed.len() ==> #[trigger] listed[j].id != id) ==> after.pending[id]
                    == p.pending[id]
            &&& after.pending.dom().finite()
            &&& after.pending.dom().len() + after.diagnostics.duplicate_tool_calls
                == p.pending.dom().len() + p.diagnostics.duplicate_tool_calls + listed.len()
            &&& after.diagnostics == (DiagnosticsModel {
                duplicate_tool_calls: after.diagnostics.duplicate_tool_calls,
                encrypted_reasoning_dropped: p.diagnostics.encrypted_reasoning_dropped
                    + if frame.include_reasoning && content::hides_reasoning(row) {
                    1int
                } else {
                    0int
                },
                ..p.diagnostics
            })
        }),
{
    lemma_told(p, frame, row);
    lemma_assistant_steps(p, frame, row);
    let told = told_of(p, frame, row);
    let component = (told.records.len() - p.records.len()) as nat;
    let listed = listed_for(p, row);
    let taken = ProjectionModel { planned: p.planned.remove(row.id), ..told };
    lemma_call_records(taken, frame, row, component, listed);
    lemma_call_memory(taken, frame, row, component, listed);
}

/// Later rows leave the records of earlier ones as they are.
proof fn lemma_records_stay(
    start: ProjectionModel,
    frame: Frame,
    rows: Seq<MessageRow>,
    n: int,
)
    requires
        0 <= n <= rows.len(),
    ensures
        ({
            let before = start.after_rows(frame, rows.take(n)).records;
            let after = start.after_rows(frame, rows).records;
            &&& before.len() <= after.len()
            &&& forall|k: int| 0 <= k < before.len() ==> #[trigger] after[k] == before[k]
        }),
    decreases rows.len() - n,
{
    if n == rows.len() {
        assert(rows.take(n) =~= rows);
    } else {
        lemma_records_stay(start, frame, rows, n + 1);
        assert(rows.take(n + 1).drop_last() =~= rows.take(n));
        assert(rows.take(n + 1).last() == rows[n]);
        lemma_row_extends(start.after_rows(frame, rows.take(n)), frame, rows[n]);
    }
}

/// Whatever a tool gave back can be searched for: for every row that is the result of a tool there
/// is a record that has what the row says as its text and as its output.
pub proof fn law_every_result_is_recorded(
    start: ProjectionModel,
    frame: Frame,
    rows: Seq<MessageRow>,
    i: int,
)
    requires
        0 <= i < rows.len(),
        rows[i].role@ == "tool"@,
    ensures
        ({
            let records = start.after_rows(frame, rows).records;
            let shown = content::content_shown(text::opt_text(rows[i].content));
            exists|k: int| {
                &&& 0 <= k < records.len()
                &&& (#[trigger] records[k]).role == "tool_result"@
                &&& records[k].text == shown
                &&& records[k].tool_output == Some(shown)
                &&& records[k].session_id == rows[i].session_id@
                &&& records[k].ts == rows[i].timestamp_ms
            }
        }),
{
    let before = start.after_rows(frame, rows.take(i));
    assert(rows.take(i + 1).drop_last() =~= rows.take(i));
    assert(rows.take(i + 1).last() == rows[i]);
    law_tool_rows_are_shown(before, frame, rows[i]);
    lemma_records_stay(start, frame, rows, i + 1);
    let after = before.after_row(frame, rows[i]);
    let k = before.records.len() as int;
    assert(start.after_rows(frame, rows).records[k] == after.records[k]);
}

/// Whatever the user or the assistant said can be searched for: for every such row that says
/// anything there is a record that has what it says as its text.
pub proof fn law_every_message_is_recorded(
    start: ProjectionModel,
    frame: Frame,
    rows: Seq<MessageRow>,
    i: int,
)
    requires
        0 <= i < rows.len(),
        rows[i].role@ == "user"@ || rows[i].role@ == "assistant"@,
        !text::blank(content::content_shown(text::opt_text(rows[i].content))),
    ensures
        ({
            let records = start.after_rows(frame, rows).records;
            exists|k: int| {
                &&& 0 <= k < records.len()
                &&& (#[trigger] records[k]).role == rows[i].role@
                &&& records[k].text == content::content_shown(text::opt_text(rows[i].content))
                &&& records[k].session_id == rows[i].session_id@
                &&& records[k].ts == rows[i].timestamp_ms
            }
        }),
{
    let before = start.after_rows(frame, rows.take(i));
    let row = rows[i];
    assert(rows.take(i + 1).drop_last() =~= rows.take(i));
    assert(rows.take(i + 1).last() == row);
    lemma_records_stay(start, frame, rows, i + 1);
    let after = before.after_row(frame, row);
    if row.role@ == "user"@ {
        law_user_rows_are_shown(before, frame, row);
        let k = before.records.len() as int;
        assert(start.after_rows(frame, rows).records[k] == after.records[k]);
    } else {
        law_assistant_rows_are_shown(before, frame, row);
        let k = before.records.len() + reasoning_count(frame, row);
        assert(start.after_rows(frame, rows).records[k] == after.records[k]);
        assert(made_from(frame, row, k, after.records[k]));
    }
}

/// Whatever a tool was asked can be searched for: every call that is planned for a row of the
/// assistant, where no other row has its id, becomes a record of its arguments.
pub proof fn law_every_call_is_recorded(
    start: ProjectionModel,
    frame: Frame,
    rows: Seq<MessageRow>,
    i: int,
    j: int,
)
    requires
        0 <= i < rows.len(),
        rows[i].role@ == "assistant"@,
        start.planned.dom().contains(rows[i].id),
        0 <= j < start.planned[rows[i].id].len(),
        forall|k: int| 0 <= k < i ==> (#[trigger] rows[k]).id != rows[i].id,
    ensures
        ({
            let records = start.after_rows(frame, rows).records;
            exists|k: int| {
                &&& 0 <= k < records.len()
                &&& shows_call(start.planned[rows[i].id][j], #[trigger] records[k])
                &&& records[k].session_id == rows[i].session_id@
                &&& records[k].ts == rows[i].timestamp_ms
            }
        }),
{
    let before = start.after_rows(frame, rows.take(i));
    let row = rows[i];
    assert(rows.take(i + 1).drop_last() =~= rows.take(i));
    assert(rows.take(i + 1).last() == row);
    lemma_records_stay(start, frame, rows, i + 1);
    assert forall|k: int| 0 <= k < rows.take(i).len() implies (#[trigger] rows.take(i)[k]).id
        != row.id by {
        assert(rows.take(i)[k] == rows[k]);
    }
    lemma_other_plans_stay(start, frame, rows.take(i), row.id);
    law_assistant_rows_are_shown(before, frame, row);
    let after = before.after_row(frame, row);
    let listed = before.planned[row.id];
    let k = before.records.len() + reasoning_count(frame, row) + text_count(row) + j;
    assert(listed == listed_for(before, row));
    assert(shows_call(listed[j], after.records[k]));
    assert(made_from(frame, row, k, after.records[k]));
    assert(start.after_rows(frame, rows).records[k] == after.records[k]);
}

/// Whatever an answer of the assistant asks of a tool can be searched for: every object in the list
/// of calls of a row becomes a record that has the arguments that the object gives as its text and
/// as its input, and the name that it gives as its tool. An id of its own is the record's.
pub proof fn law_every_listed_call_is_recorded<F: Fn(&str) -> Option<String>>(
    frame: Frame,
    rows: Seq<MessageRow>,
    state: IndexParseState,
    digest: F,
    model: ProjectionModel,
    i: int,
    entries: Vec<Json>,
    m: int,
)
    requires
        parse::parsed(frame, rows, state, digest, model),
        0 <= i < rows.len(),
        forall|k: int| 0 <= k < rows.len() && k != i ==> (#[trigger] rows[k]).id != rows[i].id,
        rows[i].role@ == "assistant"@,
        rows[i].tool_calls is Some,
        !text::blank(rows[i].tool_calls->0@),
        json::json_of(rows[i].tool_calls->0@) == Some(Json::List(entries)),
        0 <= m < entries@.len(),
        entries@[m] is Object,
    ensures
        ({
            let said = calls::entry_call(rows[i].id, m as nat, entries@[m])->0;
            exists|k: int| {
                &&& 0 <= k < model.records.len()
                &&& (#[trigger] model.records[k]).role == "tool_use"@
                &&& model.records[k].text == said.arguments
                &&& model.records[k].tool_input == Some(said.arguments)
                &&& model.records[k].tool_name == said.name
                &&& model.records[k].session_id == rows[i].session_id@
                &&& model.records[k].ts == rows[i].timestamp_ms
                &&& !"hermes:"@.is_prefix_of(said.id) ==> model.records[k].links.event_id == Some(
                    said.id,
                )
            }
        }),
{
    let nothing = DiagnosticsModel::nothing();
    let plan = calls::plan_of(rows, rows.len(), nothing);
    calls::law_listed_calls_are_planned(rows, nothing, i, entries, m);
    let planned = choose|planned: Map<u64, Seq<CallModel>>| #[trigger]
        parse::digested(digest, plan.calls, planned) && model == (ProjectionModel {
            records: seq![],
            pending: crate::state::pending_model(state.pending_tool_calls),
            diagnostics: plan.diagnostics,
            planned,
            offset: state.offset,
        }).after_rows(frame, rows);
    let start = ProjectionModel {
        records: seq![],
        pending: crate::state::pending_model(state.pending_tool_calls),
        diagnostics: plan.diagnostics,
        planned,
        offset: state.offset,
    };
    let id = rows[i].id;
    let j = calls::objects(entries@.take(m)) as int;
    assert(planned.dom().contains(id));
    assert(parse::digested_calls(digest, plan.calls[id], planned[id]));
    assert(parse::digested_call(digest, plan.calls[id][j], planned[id][j]));
    law_every_call_is_recorded(start, frame, rows, i, j);
    let k = choose|k: int| {
        &&& 0 <= k < model.records.len()
        &&& shows_call(planned[id][j], #[trigger] model.records[k])
        &&& model.records[k].session_id == rows[i].session_id@
        &&& model.records[k].ts == rows[i].timestamp_ms
    };
    assert(shows_call(planned[id][j], model.records[k]));
}

/// Rows are taken one after another, each once, and without rows nothing happens.
pub proof fn law_rows_are_taken_one_by_one(
    start: ProjectionModel,
    frame: Frame,
    rows: Seq<MessageRow>,
    row: MessageRow,
)
    ensures
        start.after_rows(frame, seq![]) == start,
        start.after_rows(frame, rows.push(row)) == start.after_rows(frame, rows).after_row(
            frame,
            row,
        ),
{
    assert(rows.push(row).drop_last() =~= rows);
}

} // verus!
