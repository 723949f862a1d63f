//! Parsing a store: its rows are planned, then projected.

use crate::sources::hermes::calls;
use crate::sources::hermes::calls::{plan_tool_calls, CallModel, ToolCall};
use crate::sources::hermes::content;
use crate::sources::hermes::laws;
use crate::sources::hermes::projection;
use crate::sources::hermes::projection::{project_rows, Frame, ProjectionModel};
use crate::sources::hermes::MessageRow;
use crate::sources::{DiagnosticsModel, IndexParseOutput, IndexParseState, ParseDiagnostics};
use crate::state;
use crate::text;
use crate::types::Record;
use std::collections::HashMap;
use vstd::prelude::*;

verus! {

broadcast use {vstd::string::group_string_axioms, vstd::std_specs::hash::group_hash_axioms};

/// `after` is `before` with a digest of its arguments that `digest` gives.
pub open spec fn digested_call<F: Fn(&str) -> Option<String>>(
    digest: F,
    before: CallModel,
    after: CallModel,
) -> bool {
    &&& after == (CallModel { argument_sha256: after.argument_sha256, ..before })
    &&& exists|arguments: &str, given: Option<String>| #[trigger]
        call_ensures(digest, (arguments,), given) && arguments@ == before.arguments
            && after.argument_sha256 == text::opt_text(given)
}

/// `after` are the calls `before`, each with a digest of its arguments.
pub open spec fn digested_calls<F: Fn(&str) -> Option<String>>(
    digest: F,
    before: Seq<CallModel>,
    after: Seq<CallModel>,
) -> bool {
    &&& before.len() == after.len()
    &&& forall|i: int|
        0 <= i < before.len() ==> digested_call(digest, before[i], #[trigger] after[i])
}

/// `after` are the planned calls `before`, each with a digest of its arguments.
pub open spec fn digested<F: Fn(&str) -> Option<String>>(
    digest: F,
    before: Map<u64, Seq<CallModel>>,
    after: Map<u64, Seq<CallModel>>,
) -> bool {
    &&& before.dom() == after.dom()
    &&& forall|id: u64| #[trigger]
        after.dom().contains(id) ==> digested_calls(digest, before[id], after[id])
}

/// Gives each call a digest of its arguments.
fn digest_calls<F: Fn(&str) -> Option<String>>(listed: &mut Vec<ToolCall>, digest: &F)
    requires
        forall|arguments: &str| call_requires(*digest, (arguments,)),
    ensures
        digested_calls(
            *digest,
            calls::calls_model(old(listed)@),
            calls::calls_model(final(listed)@),
        ),
{
    let ghost before = calls::calls_model(listed@);
    let n = listed.len();
    let mut i: usize = 0;
    while i < n
        invariant
            i <= n,
            n == listed@.len(),
            before.len() == n,
            forall|arguments: &str| call_requires(*digest, (arguments,)),
            forall|j: int| 0 <= j < i ==> digested_call(*digest, before[j], #[trigger] listed@[j]@),
            forall|j: int| i <= j < n ==> #[trigger] listed@[j]@ == before[j],
        decreases n - i,
    {
        assert(listed@[i as int]@ == before[i as int]);
        let given = digest(listed[i].arguments.as_str());
        listed[i].argument_sha256 = given;
        assert(listed@[i as int]@ =~= (CallModel {
            argument_sha256: text::opt_text(given),
            ..before[i as int]
        }));
        assert(digested_call(*digest, before[i as int], listed@[i as int]@));
        i += 1;
    }
    let ghost after = calls::calls_model(listed@);
    assert forall|j: int| 0 <= j < before.len() implies digested_call(
        *digest,
        before[j],
        #[trigger] after[j],
    ) by {
        assert(after[j] == listed@[j]@);
    }
}

/// Planned calls are those of rows.
pub proof fn lemma_plan_is_of_rows(
    rows: Seq<MessageRow>,
    n: nat,
    diagnostics: DiagnosticsModel,
    id: u64,
)
    requires
        n <= rows.len(),
        calls::plan_of(rows, n, diagnostics).calls.dom().contains(id),
    ensures
        exists|i: int| 0 <= i < n && (#[trigger] rows[i]).id == id,
    decreases n,
{
    if n > 0 {
        let before = calls::plan_of(rows, (n - 1) as nat, diagnostics);
        if before.calls.dom().contains(id) {
            lemma_plan_is_of_rows(rows, (n - 1) as nat, diagnostics, id);
        } else {
            assert(rows[n - 1].id == id);
        }
    }
}

/// Planning counts no row that the projection counts too, no row twice, and nothing that only a
/// projection counts.
proof fn lemma_plan_counts(rows: Seq<MessageRow>, n: nat)
    requires
        n <= rows.len(),
    ensures
        ({
            let counted = calls::plan_of(rows, n, DiagnosticsModel::nothing()).diagnostics;
            &&& counted.duplicate_tool_calls == 0
            &&& counted.orphan_tool_results == 0
            &&& counted.encrypted_reasoning_dropped == 0
            &&& forall|name: Seq<char>| #[trigger]
                counted.met(name) + projection::unknown_rows(rows.take(n as int)) <= n
        }),
    decreases n,
{
    let counted = calls::plan_of(rows, n, DiagnosticsModel::nothing()).diagnostics;
    if n > 0 {
        lemma_plan_counts(rows, (n - 1) as nat);
        let before = calls::plan_of(rows, (n - 1) as nat, DiagnosticsModel::nothing()).diagnostics;
        assert(rows.take(n as int).drop_last() =~= rows.take(n - 1));
        assert(rows.take(n as int).last() == rows[n - 1]);
        assert forall|name: Seq<char>| #[trigger]
            counted.met(name) + projection::unknown_rows(rows.take(n as int)) <= n by {
            assert(before.met(name) + projection::unknown_rows(rows.take(n - 1)) <= n - 1);
        }
    } else {
        assert forall|name: Seq<char>| #[trigger]
            counted.met(name) + projection::unknown_rows(rows.take(n as int)) <= n by {}
    }
}

/// Gives each planned call a digest of its arguments.
fn digest_plan<F: Fn(&str) -> Option<String>>(
    rows: &Vec<MessageRow>,
    planned: HashMap<u64, Vec<ToolCall>>,
    digest: &F,
) -> (r: HashMap<u64, Vec<ToolCall>>)
    requires
        forall|arguments: &str| call_requires(*digest, (arguments,)),
        forall|id: u64| #[trigger]
            planned@.dom().contains(id) ==> exists|i: int|
                0 <= i < rows@.len() && (#[trigger] rows@[i]).id == id,
    ensures
        digested(*digest, calls::plan_model(planned@), calls::plan_model(r@)),
{
    let ghost before = calls::plan_model(planned@);
    let mut left = planned;
    let mut done: HashMap<u64, Vec<ToolCall>> = HashMap::new();
    let mut i: usize = 0;
    while i < rows.len()
        invariant
            i <= rows@.len(),
            forall|arguments: &str| call_requires(*digest, (arguments,)),
            forall|id: u64| #[trigger]
                before.dom().contains(id) <==> (left@.dom().contains(id) || done@.dom().contains(
                    id,
                )),
            forall|id: u64| #[trigger]
                left@.dom().contains(id) ==> calls::calls_model(left@[id]@) == before[id],
            forall|id: u64| #[trigger]
                left@.dom().contains(id) ==> forall|k: int|
                    0 <= k < i ==> (#[trigger] rows@[k]).id != id,
            forall|id: u64| #[trigger]
                done@.dom().contains(id) ==> digested_calls(
                    *digest,
                    before[id],
                    calls::calls_model(done@[id]@),
                ),
        decreases rows@.len() - i,
    {
        let id: u64 = rows[i].id;
        if let Some(found) = left.remove(&id) {
            let mut listed = found;
            digest_calls(&mut listed, digest);
            done.insert(id, listed);
        }
        i += 1;
    }
    proof {
        let after = calls::plan_model(done@);
        assert forall|id: u64| #[trigger] before.dom().contains(id) implies done@.dom().contains(
            id,
        ) by {
            if left@.dom().contains(id) {
                assert(planned@.dom().contains(id));
                let k = choose|k: int| 0 <= k < rows@.len() && (#[trigger] rows@[k]).id == id;
                assert(rows@[k].id != id);
            }
        }
        assert(before.dom() =~= after.dom());
    }
    done
}

/// What parsing a store comes to: its calls are planned with nothing counted yet, digested, and
/// projected with the rows.
pub open spec fn parsed<F: Fn(&str) -> Option<String>>(
    frame: Frame,
    rows: Seq<MessageRow>,
    state: IndexParseState,
    digest: F,
    model: ProjectionModel,
) -> bool {
    let plan = calls::plan_of(rows, rows.len(), DiagnosticsModel::nothing());
    exists|planned: Map<u64, Seq<CallModel>>| #[trigger]
        digested(digest, plan.calls, planned) && model == (ProjectionModel {
            records: seq![],
            pending: state::pending_model(state.pending_tool_calls),
            diagnostics: plan.diagnostics,
            planned,
            offset: state.offset,
        }).after_rows(frame, rows)
}

/// A result of a tool is among the records, with what it says as the text and as the output.
pub open spec fn result_recorded(row: MessageRow, records: Seq<Record>) -> bool {
    exists|k: int| {
        &&& 0 <= k < records.len()
        &&& (#[trigger] records[k])@.role == "tool_result"@
        &&& records[k]@.text == content::content_shown(text::opt_text(row.content))
        &&& records[k]@.tool_output == Some(content::content_shown(text::opt_text(row.content)))
        &&& records[k]@.session_id == row.session_id@
        &&& records[k]@.ts == row.timestamp_ms
    }
}

/// A message of the user or the assistant is among the records, with what it says as the text.
pub open spec fn message_recorded(row: MessageRow, records: Seq<Record>) -> bool {
    exists|k: int| {
        &&& 0 <= k < records.len()
        &&& (#[trigger] records[k])@.role == row.role@
        &&& records[k]@.text == content::content_shown(text::opt_text(row.content))
        &&& records[k]@.session_id == row.session_id@
        &&& records[k]@.ts == row.timestamp_ms
    }
}

/// Parses the rows of a store into records with consecutive document ids from `first_doc_id` on.
///
/// `state` is where an earlier parse left off, and `digest` gives the SHA-256 that is remembered of
/// the arguments of a call.
pub fn parse_index_records<F: Fn(&str) -> Option<String>>(
    source_path: &str,
    rows: &Vec<MessageRow>,
    state: IndexParseState,
    include_reasoning: bool,
    first_doc_id: u64,
    digest: F,
) -> (r: (Vec<Record>, IndexParseOutput))
    requires
        forall|arguments: &str| call_requires(digest, (arguments,)),
    ensures
        exists|model: ProjectionModel| #[trigger]
            parsed(
                Frame { source_path: source_path@, include_reasoning, first_doc_id },
                rows@,
                state,
                digest,
                model,
            ) && projection::handed_out(r.0@, r.1, model),
        forall|i: int|
            0 <= i < rows@.len() && (#[trigger] rows@[i]).role@ == "tool"@ ==> result_recorded(
                rows@[i],
                r.0@,
            ),
        forall|i: int|
            0 <= i < rows@.len() && ((#[trigger] rows@[i]).role@ == "user"@ || rows@[i].role@
                == "assistant"@) && !text::blank(
                content::content_shown(text::opt_text(rows@[i].content)),
            ) ==> message_recorded(rows@[i], r.0@),
        forall|k: int|
            0 <= k < r.0@.len() ==> exists|i: int|
                0 <= i < rows@.len() && laws::made_from(
                    Frame { source_path: source_path@, include_reasoning, first_doc_id },
                    #[trigger] rows@[i],
                    k,
                    #[trigger] r.0@[k]@,
                ),
        r.1.offset >= state.offset,
        forall|i: int| 0 <= i < rows@.len() ==> (#[trigger] rows@[i]).id <= r.1.offset,
        r.1.offset == state.offset || exists|i: int|
            0 <= i < rows@.len() && (#[trigger] rows@[i]).id == r.1.offset,
        r.1.turn_id == 0,
        r.1.session_id is None,
{
    let mut diagnostics = ParseDiagnostics::default();
    let n: usize = rows.len();
    proof {
        assert(rows@.len() == n <= u64::MAX);
        assert forall|name: Seq<char>| #[trigger] diagnostics@.met(name) <= u64::MAX
            - rows@.len() by {}
    }
    let planned = plan_tool_calls(rows, &mut diagnostics);
    let ghost plan = calls::plan_of(rows@, rows@.len(), DiagnosticsModel::nothing());
    proof {
        lemma_plan_counts(rows@, rows@.len());
        assert(rows@.take(rows@.len() as int) =~= rows@);
        assert forall|id: u64| #[trigger] planned@.dom().contains(id) implies exists|i: int|
            0 <= i < rows@.len() && (#[trigger] rows@[i]).id == id by {
            assert(plan.calls.dom().contains(id));
            lemma_plan_is_of_rows(rows@, rows@.len(), DiagnosticsModel::nothing(), id);
        }
    }
    let planned = digest_plan(rows, planned, &digest);
    let ghost frame = Frame { source_path: source_path@, include_reasoning, first_doc_id };
    let ghost model = projection::starting_model(state, planned@, diagnostics).after_rows(
        frame,
        rows@,
    );
    let r = project_rows(
        source_path,
        rows,
        planned,
        state,
        include_reasoning,
        first_doc_id,
        diagnostics,
    );
    assert(digested(digest, plan.calls, calls::plan_model(planned@)));
    assert(parsed(frame, rows@, state, digest, model));
    proof {
        let start = projection::starting_model(state, planned@, diagnostics);
        laws::law_offset_is_the_last_row(start, frame, rows@);
        assert forall|k: int| 0 <= k < r.0@.len() implies #[trigger] r.0@[k]@
            == model.records[k] by {}
        assert forall|i: int| 0 <= i < rows@.len() && (#[trigger] rows@[i]).role@
            == "tool"@ implies result_recorded(rows@[i], r.0@) by {
            laws::law_every_result_is_recorded(start, frame, rows@, i);
            let shown = content::content_shown(text::opt_text(rows@[i].content));
            let k = choose|k: int| {
                &&& 0 <= k < model.records.len()
                &&& (#[trigger] model.records[k]).role == "tool_result"@
                &&& model.records[k].text == shown
                &&& model.records[k].tool_output == Some(shown)
                &&& model.records[k].session_id == rows@[i].session_id@
                &&& model.records[k].ts == rows@[i].timestamp_ms
            };
            assert(r.0@[k]@ == model.records[k]);
        }
        assert forall|i: int|
            0 <= i < rows@.len() && ((#[trigger] rows@[i]).role@ == "user"@ || rows@[i].role@
                == "assistant"@) && !text::blank(
                content::content_shown(text::opt_text(rows@[i].content)),
            ) implies message_recorded(rows@[i], r.0@) by {
            laws::law_every_message_is_recorded(start, frame, rows@, i);
            let k = choose|k: int| {
                &&& 0 <= k < model.records.len()
                &&& (#[trigger] model.records[k]).role == rows@[i].role@
                &&& model.records[k].text == content::content_shown(
                    text::opt_text(rows@[i].content),
                )
                &&& model.records[k].session_id == rows@[i].session_id@
                &&& model.records[k].ts == rows@[i].timestamp_ms
            };
            assert(r.0@[k]@ == model.records[k]);
        }
        assert forall|k: int| 0 <= k < r.0@.len() implies exists|i: int|
            0 <= i < rows@.len() && laws::made_from(
                frame,
                #[trigger] rows@[i],
                k,
                #[trigger] r.0@[k]@,
            ) by {
            laws::law_records_come_from_rows(start, frame, rows@, k);
            let i = choose|i: int|
                0 <= i < rows@.len() && laws::made_from(
                    frame,
                    #[trigger] rows@[i],
                    k,
                    model.records[k],
                );
            assert(laws::made_from(frame, rows@[i], k, r.0@[k]@));
        }
    }
    r
}

} // verus!
