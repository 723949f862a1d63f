//! Tool calls as assistant messages list them.

use crate::json;
use crate::json::Json;
use crate::sources::hermes::MessageRow;
use crate::sources::{DiagnosticsModel, ParseDiagnostics};
use crate::text;
use std::collections::HashMap;
use vstd::prelude::*;

verus! {

broadcast use {vstd::string::group_string_axioms, vstd::std_specs::hash::group_hash_axioms};

/// A tool call.
#[derive(Debug)]
pub struct ToolCall {
    pub id: String,
    pub name: Option<String>,
    pub arguments: String,
    /// The SHA-256 of `arguments`, where it is known.
    pub argument_sha256: Option<String>,
}

/// The model of [`ToolCall`].
#[verifier::ext_equal]
pub struct CallModel {
    pub id: Seq<char>,
    pub name: Option<Seq<char>>,
    pub arguments: Seq<char>,
    pub argument_sha256: Option<Seq<char>>,
}

impl View for ToolCall {
    type V = CallModel;

    open spec fn view(&self) -> CallModel {
        CallModel {
            id: self.id@,
            name: text::opt_text(self.name),
            arguments: self.arguments@,
            argument_sha256: text::opt_text(self.argument_sha256),
        }
    }
}

/// The models of a list of calls.
pub open spec fn calls_model(calls: Seq<ToolCall>) -> Seq<CallModel> {
    calls.map_values(|call: ToolCall| call@)
}

/// The models of planned calls, by the id of the row that lists them.
pub open spec fn plan_model(planned: Map<u64, Vec<ToolCall>>) -> Map<u64, Seq<CallModel>> {
    planned.map_values(|calls: Vec<ToolCall>| calls_model(calls@))
}

/// A JSON value as a text: a string as it stands, anything else rendered.
pub open spec fn value_as_text(value: Json) -> Seq<char> {
    match json::text(value) {
        Some(shown) => shown,
        None => json::rendered(value),
    }
}

/// The field `key` of the call's `function` object, or else of the call itself.
pub open spec fn call_field(entry: Json, key: Seq<char>) -> Option<Json> {
    let inner = match json::field(entry, "function"@) {
        Some(function) => json::field(function, key),
        None => None,
    };
    match inner {
        Some(value) => Some(value),
        None => json::field(entry, key),
    }
}

/// A string that is not empty.
pub open spec fn nonempty_text(value: Option<Json>) -> Option<Seq<char>> {
    match value {
        Some(value) => match json::text(value) {
            Some(shown) => if shown.len() > 0 {
                Some(shown)
            } else {
                None
            },
            None => None,
        },
        None => None,
    }
}

/// The id that a call has of its own: `id`, or `call_id` where there is no `id`.
pub open spec fn native_id(entry: Json) -> Option<Seq<char>> {
    match json::field(entry, "id"@) {
        Some(value) => nonempty_text(Some(value)),
        None => nonempty_text(json::field(entry, "call_id"@)),
    }
}

/// The id that is made up for a call without one.
pub open spec fn made_up_id(row_id: u64, position: nat) -> Seq<char> {
    "hermes:"@ + text::decimal(row_id as nat) + ":"@ + text::decimal(position)
}

/// The call that an entry of a `tool_calls` array describes; entries that are no objects describe
/// none.
pub open spec fn entry_call(row_id: u64, position: nat, entry: Json) -> Option<CallModel> {
    if !(entry is Object) {
        None
    } else {
        Some(
            CallModel {
                id: match native_id(entry) {
                    Some(id) => id,
                    None => made_up_id(row_id, position),
                },
                name: nonempty_text(call_field(entry, "name"@)),
                arguments: match call_field(entry, "arguments"@) {
                    Some(value) => value_as_text(value),
                    None => seq![],
                },
                argument_sha256: None,
            },
        )
    }
}

/// The calls that the first entries of a `tool_calls` array describe.
pub open spec fn entry_calls(row_id: u64, entries: Seq<Json>) -> Seq<CallModel>
    decreases entries.len(),
{
    if entries.len() == 0 {
        seq![]
    } else {
        let before = entry_calls(row_id, entries.drop_last());
        match entry_call(row_id, (entries.len() - 1) as nat, entries.last()) {
            Some(call) => before.push(call),
            None => before,
        }
    }
}

/// A JSON value as a text: a string as it stands, anything else rendered.
pub fn json_text(value: &Json) -> (r: String)
    ensures
        r@ == value_as_text(*value),
{
    match value.as_text() {
        Some(shown) => text::owned(shown),
        None => value.render(),
    }
}

/// The field `key` of the call's `function` object, or else of the call itself.
fn field_of_call<'a>(entry: &'a Json, key: &str) -> (r: Option<&'a Json>)
    ensures
        match r {
            Some(value) => call_field(*entry, key@) == Some(*value),
            None => call_field(*entry, key@) is None,
        },
{
    if let Some(function) = entry.get("function") {
        if let Some(value) = function.get(key) {
            return Some(value);
        }
    }
    entry.get(key)
}

/// A string that is not empty.
fn nonempty(value: Option<&Json>) -> (r: Option<String>)
    ensures
        text::opt_text(r) == nonempty_text(
            match value {
                Some(value) => Some(*value),
                None => None,
            },
        ),
{
    match value {
        Some(value) => match value.as_text() {
            Some(shown) => {
                if shown.is_empty() {
                    None
                } else {
                    Some(text::owned(shown))
                }
            },
            None => None,
        },
        None => None,
    }
}

/// The call that an entry of a `tool_calls` array describes.
pub fn parse_tool_call(row_id: u64, position: usize, entry: &Json) -> (r: Option<ToolCall>)
    ensures
        match r {
            Some(call) => entry_call(row_id, position as nat, *entry) == Some(call@),
            None => entry_call(row_id, position as nat, *entry) is None,
        },
{
    match entry {
        Json::Object(_) => {},
        _ => {
            return None;
        },
    }
    let name = nonempty(field_of_call(entry, "name"));
    let own_id = match entry.get("id") {
        Some(value) => nonempty(Some(value)),
        None => nonempty(entry.get("call_id")),
    };
    let arguments = match field_of_call(entry, "arguments") {
        Some(value) => json_text(value),
        None => String::new(),
    };
    let id = match own_id {
        Some(id) => id,
        None => {
            let mut id = text::owned("hermes:");
            text::push_decimal(&mut id, row_id);
            id.append(":");
            text::push_decimal(&mut id, position as u64);
            id
        },
    };
    let call = ToolCall { id, name, arguments, argument_sha256: None };
    assert(call@ =~= entry_call(row_id, position as nat, *entry)->0);
    Some(call)
}

/// A call whose id was made up, or looks as if it had been.
pub open spec fn placeholder(call: CallModel) -> bool {
    "hermes:"@.is_prefix_of(call.id)
}

/// How many of the calls have a made-up id.
pub open spec fn placeholders(calls: Seq<CallModel>) -> nat
    decreases calls.len(),
{
    if calls.len() == 0 {
        0
    } else {
        placeholders(calls.drop_last()) + if placeholder(calls.last()) {
            1nat
        } else {
            0nat
        }
    }
}

/// The calls with made-up ids replaced by `ids`, in order.
pub open spec fn with_ids(calls: Seq<CallModel>, ids: Seq<Seq<char>>) -> Seq<CallModel> {
    Seq::new(
        calls.len(),
        |i: int|
            if placeholder(calls[i]) {
                CallModel { id: ids[placeholders(calls.take(i)) as int], ..calls[i] }
            } else {
                calls[i]
            },
    )
}

/// The calls with made-up ids replaced by those of the results, if there are as many results as
/// made-up ids.
pub open spec fn settled(calls: Seq<CallModel>, ids: Seq<Seq<char>>) -> Seq<CallModel> {
    if placeholders(calls) > 0 && ids.len() == placeholders(calls) {
        with_ids(calls, ids)
    } else {
        calls
    }
}

/// The call ids of the unbroken run of tool results that `rows` start with.
pub open spec fn result_ids(rows: Seq<MessageRow>) -> Seq<Seq<char>>
    decreases rows.len(),
{
    if rows.len() == 0 || rows[0].role@ != "tool"@ {
        seq![]
    } else {
        (match rows[0].tool_call_id {
            Some(id) => seq![id@],
            None => seq![],
        }) + result_ids(rows.drop_first())
    }
}

/// What planning makes of one row.
pub enum RowPlan {
    /// The row lists no calls.
    Nothing,
    /// The row's list is no JSON.
    Malformed,
    /// The row's list is JSON, but no array.
    NotArray,
    /// The row lists these calls.
    Calls(Seq<CallModel>),
}

/// What planning makes of the row at `index`.
pub open spec fn row_plan(rows: Seq<MessageRow>, index: int) -> RowPlan {
    let row = rows[index];
    match row.tool_calls {
        None => RowPlan::Nothing,
        Some(raw) => if row.role@ != "assistant"@ || text::blank(raw@) {
            RowPlan::Nothing
        } else {
            match json::json_of(raw@) {
                None => RowPlan::Malformed,
                Some(Json::List(entries)) => RowPlan::Calls(
                    settled(entry_calls(row.id, entries@), result_ids(rows.skip(index + 1))),
                ),
                Some(_) => RowPlan::NotArray,
            }
        },
    }
}

/// Planned calls by row id, and what was counted on the way.
#[verifier::ext_equal]
pub struct PlanModel {
    pub calls: Map<u64, Seq<CallModel>>,
    pub diagnostics: DiagnosticsModel,
}

/// The plan of the first `n` rows.
pub open spec fn plan_of(rows: Seq<MessageRow>, n: nat, diagnostics: DiagnosticsModel) -> PlanModel
    decreases n,
{
    if n == 0 {
        PlanModel { calls: Map::empty(), diagnostics }
    } else {
        let before = plan_of(rows, (n - 1) as nat, diagnostics);
        match row_plan(rows, n - 1) {
            RowPlan::Nothing => before,
            RowPlan::Malformed => PlanModel {
                diagnostics: DiagnosticsModel {
                    malformed_json_lines: before.diagnostics.malformed_json_lines + 1,
                    ..before.diagnostics
                },
                ..before
            },
            RowPlan::NotArray => PlanModel {
                diagnostics: before.diagnostics.meet("tool_calls_not_array"@),
                ..before
            },
            RowPlan::Calls(calls) => if calls.len() > 0 {
                PlanModel { calls: before.calls.insert(rows[n - 1].id, calls), ..before }
            } else {
                before
            },
        }
    }
}

/// The calls that a `tool_calls` array describes.
pub fn parse_entries(row_id: u64, entries: &Vec<Json>) -> (r: Vec<ToolCall>)
    ensures
        calls_model(r@) == entry_calls(row_id, entries@),
{
    let mut calls: Vec<ToolCall> = Vec::new();
    let mut i: usize = 0;
    assert(entries@.take(0) =~= seq![]);
    assert(calls_model(calls@) =~= seq![]);
    while i < entries.len()
        invariant
            i <= entries@.len(),
            calls_model(calls@) == entry_calls(row_id, entries@.take(i as int)),
        decreases entries@.len() - i,
    {
        assert(entries@.take(i + 1).drop_last() =~= entries@.take(i as int));
        let ghost before = calls@;
        if let Some(call) = parse_tool_call(row_id, i, &entries[i]) {
            calls.push(call);
            assert(calls_model(calls@) =~= calls_model(before).push(call@));
        }
        i += 1;
    }
    assert(entries@.take(i as int) =~= entries@);
    calls
}

/// The call ids of the unbroken run of tool results that starts at `from`.
pub fn following_ids(rows: &Vec<MessageRow>, from: usize) -> (r: Vec<String>)
    requires
        from <= rows@.len(),
    ensures
        text::texts(r@) == result_ids(rows@.skip(from as int)),
{
    let mut ids: Vec<String> = Vec::new();
    let mut j: usize = from;
    let ghost all = result_ids(rows@.skip(from as int));
    assert(text::texts(ids@) + result_ids(rows@.skip(j as int)) =~= all);
    while j < rows.len()
        invariant
            from <= j <= rows@.len(),
            all == result_ids(rows@.skip(from as int)),
            text::texts(ids@) + result_ids(rows@.skip(j as int)) == all,
        decreases rows@.len() - j,
    {
        let row = &rows[j];
        assert(rows@.skip(j as int)[0] == row);
        assert(rows@.skip(j as int).drop_first() =~= rows@.skip(j + 1));
        if !text::same(row.role.as_str(), "tool") {
            assert(text::texts(ids@) =~= all);
            return ids;
        }
        let ghost before = ids@;
        if let Some(id) = &row.tool_call_id {
            ids.push(id.clone());
            assert(text::texts(ids@) =~= text::texts(before).push(id@));
        }
        assert(text::texts(ids@) + result_ids(rows@.skip(j + 1)) =~= all);
        j += 1;
    }
    assert(text::texts(ids@) =~= all);
    ids
}

/// The calls with made-up ids replaced by those of the results, if there are as many results as
/// made-up ids.
pub fn settle(calls: &mut Vec<ToolCall>, ids: Vec<String>)
    ensures
        calls_model(final(calls)@) == settled(calls_model(old(calls)@), text::texts(ids@)),
{
    let ghost listed = calls_model(calls@);
    let ghost texts = text::texts(ids@);
    let mut found: usize = 0;
    let mut i: usize = 0;
    assert(listed.take(0) =~= seq![]);
    while i < calls.len()
        invariant
            i <= calls@.len(),
            listed == calls_model(calls@),
            found == placeholders(listed.take(i as int)),
            found <= i,
        decreases calls@.len() - i,
    {
        assert(listed.take(i + 1).drop_last() =~= listed.take(i as int));
        if text::starts_with(calls[i].id.as_str(), "hermes:") {
            found += 1;
        }
        i += 1;
    }
    assert(listed.take(i as int) =~= listed);
    if found == 0 || ids.len() != found {
        return;
    }
    let mut next: usize = 0;
    let mut k: usize = 0;
    let ghost target = with_ids(listed, texts);
    while k < calls.len()
        invariant
            k <= calls@.len(),
            calls@.len() == listed.len(),
            target == with_ids(listed, texts),
            texts == text::texts(ids@),
            found == placeholders(listed),
            ids@.len() == found,
            next == placeholders(listed.take(k as int)),
            next <= found,
            forall|j: int| 0 <= j < k ==> #[trigger] calls@[j]@ == target[j],
            forall|j: int| k <= j < calls@.len() ==> #[trigger] calls@[j]@ == listed[j],
        decreases calls@.len() - k,
    {
        proof {
            assert(listed.take(k + 1).drop_last() =~= listed.take(k as int));
            lemma_placeholders_grow(listed, k + 1);
            assert(calls@[k as int]@ == listed[k as int]);
            assert(listed.take(k + 1).last() == listed[k as int]);
        }
        if text::starts_with(calls[k].id.as_str(), "hermes:") {
            calls[k].id = ids[next].clone();
            next += 1;
        }
        assert(calls@[k as int]@ =~= target[k as int]);
        k += 1;
    }
    assert(calls_model(calls@) =~= target);
}

/// A part of the calls has no more made-up ids than all of them.
proof fn lemma_placeholders_grow(calls: Seq<CallModel>, k: int)
    requires
        0 <= k <= calls.len(),
    ensures
        placeholders(calls.take(k)) <= placeholders(calls),
    decreases calls.len() - k,
{
    if k == calls.len() {
        assert(calls.take(k) =~= calls);
    } else {
        assert(calls.take(k + 1).drop_last() =~= calls.take(k));
        lemma_placeholders_grow(calls, k + 1);
    }
}

/// Plans the tool calls of all rows, by row id.
///
/// Calls without an id of their own adopt the ids of the tool results that follow them, if there
/// are as many of these.
pub fn plan_tool_calls(rows: &Vec<MessageRow>, diagnostics: &mut ParseDiagnostics) -> (r: HashMap<
    u64,
    Vec<ToolCall>,
>)
    requires
        old(diagnostics)@.within(u64::MAX - rows@.len()),
    ensures
        ({
            let plan = plan_of(rows@, rows@.len(), old(diagnostics)@);
            plan_model(r@) == plan.calls && final(diagnostics)@ == plan.diagnostics
        }),
{
    let mut planned: HashMap<u64, Vec<ToolCall>> = HashMap::new();
    let mut i: usize = 0;
    let ghost start = diagnostics@;
    assert(plan_model(planned@) =~= Map::empty());
    while i < rows.len()
        invariant
            i <= rows@.len(),
            diagnostics@.within(u64::MAX - rows@.len() + i),
            plan_model(planned@) == plan_of(rows@, i as nat, start).calls,
            diagnostics@ == plan_of(rows@, i as nat, start).diagnostics,
        decreases rows@.len() - i,
    {
        let row = &rows[i];
        if let Some(raw) = &row.tool_calls {
            if text::same(row.role.as_str(), "assistant") && !text::is_blank(raw.as_str()) {
                match json::parse(raw.as_str()) {
                    None => {
                        let ghost before = diagnostics@;
                        diagnostics.malformed_json_lines = diagnostics.malformed_json_lines + 1;
                        proof {
                            assert(diagnostics@ =~= plan_of(
                                rows@,
                                (i + 1) as nat,
                                start,
                            ).diagnostics);
                            assert forall|name: Seq<char>| #[trigger]
                                diagnostics@.met(name) == before.met(name) by {}
                        }
                    },
                    Some(Json::List(entries)) => {
                        let mut calls = parse_entries(row.id, &entries);
                        let ids = following_ids(rows, i + 1);
                        settle(&mut calls, ids);
                        if calls.len() > 0 {
                            let ghost before = planned@;
                            planned.insert(row.id, calls);
                            assert(plan_model(planned@) =~= plan_model(before).insert(
                                row.id,
                                calls_model(calls@),
                            ));
                        }
                    },
                    Some(_) => {
                        let ghost before = diagnostics@;
                        diagnostics.increment_unknown_semantic("tool_calls_not_array");
                        proof {
                            assert forall|name: Seq<char>| #[trigger]
                                diagnostics@.met(name) <= before.met(name) + 1 by {}
                        }
                    },
                }
            }
        }
        i += 1;
    }
    planned
}

/// How many of the entries are objects.
pub open spec fn objects(entries: Seq<Json>) -> nat
    decreases entries.len(),
{
    if entries.len() == 0 {
        0
    } else {
        objects(entries.drop_last()) + if entries.last() is Object {
            1nat
        } else {
            0nat
        }
    }
}

/// Every object in a `tool_calls` array becomes a call, in order, and nothing else does. Its
/// position in the array counts what is no object too.
pub proof fn law_every_object_is_a_call(row_id: u64, entries: Seq<Json>, i: int)
    requires
        0 <= i < entries.len(),
    ensures
        entry_calls(row_id, entries).len() == objects(entries),
        objects(entries.take(i)) <= objects(entries),
        entries[i] is Object ==> {
            &&& objects(entries.take(i)) < objects(entries)
            &&& entry_call(row_id, i as nat, entries[i]) == Some(
                entry_calls(row_id, entries)[objects(entries.take(i)) as int],
            )
        },
    decreases entries.len(),
{
    let less = entries.drop_last();
    if i < less.len() {
        law_every_object_is_a_call(row_id, less, i);
        assert(less.take(i) =~= entries.take(i));
    } else {
        assert(entries.take(i) =~= less);
        if less.len() > 0 {
            law_every_object_is_a_call(row_id, less, 0);
        } else {
            assert(entry_calls(row_id, less).len() == objects(less));
        }
    }
}

/// A call has the id that its entry gives it under `id`, or under `call_id` where there is no
/// `id`, if that is a string that is not empty, and otherwise one that is made up. Its arguments
/// are those of the function, or else of the entry: a string as it stands, anything else as it is
/// written. Its name is that of the function, or else of the entry, if it is a string that is not
/// empty.
pub proof fn law_calls_are_what_entries_say(row_id: u64, position: nat, entry: Json)
    ensures
        ({
            let call = entry_call(row_id, position, entry)->0;
            let function = json::field(entry, "function"@);
            let arguments = if function is Some && json::field(function->0, "arguments"@) is Some {
                json::field(function->0, "arguments"@)
            } else {
                json::field(entry, "arguments"@)
            };
            let name = if function is Some && json::field(function->0, "name"@) is Some {
                json::field(function->0, "name"@)
            } else {
                json::field(entry, "name"@)
            };
            let id = if json::field(entry, "id"@) is Some {
                json::field(entry, "id"@)
            } else {
                json::field(entry, "call_id"@)
            };
            let is_text = |value: Option<Json>|
                value is Some && json::text(value->0) is Some && json::text(value->0)->0.len() > 0;
            &&& entry_call(row_id, position, entry) is Some <==> entry is Object
            &&& entry is Object ==> {
                &&& is_text(id) ==> Some(call.id) == json::text(id->0)
                &&& !is_text(id) ==> call.id == made_up_id(row_id, position)
                &&& is_text(name) ==> call.name == json::text(name->0)
                &&& !is_text(name) ==> call.name is None
                &&& arguments is None ==> call.arguments.len() == 0
                &&& arguments is Some && json::text(arguments->0) is Some ==> Some(call.arguments)
                    == json::text(arguments->0)
                &&& arguments is Some && json::text(arguments->0) is None ==> call.arguments
                    == json::rendered(arguments->0)
                &&& call.argument_sha256 is None
            }
        }),
{
}

/// Ids are made up with a mark in front, and no two of them for different places are the same.
pub proof fn law_made_up_ids_differ(row: u64, position: nat, other_row: u64, other: nat)
    ensures
        "hermes:"@.is_prefix_of(made_up_id(row, position)),
        made_up_id(row, position) == made_up_id(other_row, other) ==> row == other_row && position
            == other,
{
    let mark = "hermes:"@;
    let a = text::decimal(row as nat);
    let b = text::decimal(other_row as nat);
    let x = made_up_id(row, position);
    let y = made_up_id(other_row, other);
    assert(x.subrange(0, mark.len() as int) =~= mark);
    if x == y {
        reveal_strlit(":");
        text::law_decimal_says_its_number(row as nat);
        text::law_decimal_says_its_number(other_row as nat);
        assert(x[(mark.len() + a.len()) as int] == ':');
        assert(y[(mark.len() + b.len()) as int] == ':');
        if a.len() < b.len() {
            assert(y[(mark.len() + a.len()) as int] == b[a.len() as int]);
        }
        if b.len() < a.len() {
            assert(x[(mark.len() + b.len()) as int] == a[b.len() as int]);
        }
        assert forall|i: int| 0 <= i < a.len() implies a[i] == b[i] by {
            assert(x[mark.len() + i] == y[mark.len() + i]);
        }
        assert(a =~= b);
        text::law_decimals_differ(row as nat, other_row as nat);
        let from = (mark.len() + a.len() + 1) as int;
        assert(x.skip(from) =~= text::decimal(position));
        assert(y.skip(from) =~= text::decimal(other));
        text::law_decimals_differ(position, other);
    }
}

/// The ids that `after` has where `before` has ids that begin with the mark of made-up ones, in
/// order.
pub open spec fn ids_given(before: Seq<CallModel>, after: Seq<CallModel>) -> Seq<Seq<char>>
    decreases before.len(),
{
    if before.len() == 0 {
        seq![]
    } else {
        let given = ids_given(before.drop_last(), after.drop_last());
        if "hermes:"@.is_prefix_of(before.last().id) {
            given.push(after.last().id)
        } else {
            given
        }
    }
}

proof fn lemma_ids_given(calls: Seq<CallModel>, ids: Seq<Seq<char>>, n: int)
    requires
        0 <= n <= calls.len(),
        ids.len() == placeholders(calls),
    ensures
        placeholders(calls.take(n)) <= ids.len(),
        ids_given(calls.take(n), with_ids(calls, ids).take(n)) == ids.take(
            placeholders(calls.take(n)) as int,
        ),
    decreases n,
{
    lemma_placeholders_grow(calls, n);
    let after = with_ids(calls, ids);
    if n > 0 {
        lemma_ids_given(calls, ids, n - 1);
        assert(calls.take(n).drop_last() =~= calls.take(n - 1));
        assert(after.take(n).drop_last() =~= after.take(n - 1));
        assert(calls.take(n).last() == calls[n - 1]);
        assert(after.take(n).last() == after[n - 1]);
    }
    assert(ids_given(calls.take(n), after.take(n)) =~= ids.take(
        placeholders(calls.take(n)) as int,
    ));
}

/// Settling changes nothing of a call but an id that was made up. Where there are as many results
/// as made-up ids, the calls that have these get the ids of the results, in order; otherwise all
/// ids stay as they are.
pub proof fn law_made_up_ids_are_replaced_in_order(calls: Seq<CallModel>, ids: Seq<Seq<char>>)
    ensures
        ({
            let after = settled(calls, ids);
            &&& after.len() == calls.len()
            &&& forall|i: int|
                0 <= i < calls.len() ==> {
                    &&& (#[trigger] after[i]).name == calls[i].name
                    &&& after[i].arguments == calls[i].arguments
                    &&& after[i].argument_sha256 == calls[i].argument_sha256
                    &&& !"hermes:"@.is_prefix_of(calls[i].id) ==> after[i].id == calls[i].id
                }
            &&& ids_given(calls, calls).len() == ids.len() ==> ids_given(calls, after) == ids
            &&& ids_given(calls, calls).len() != ids.len() ==> after == calls
        }),
{
    lemma_counts_ids_given(calls, calls);
    let after = settled(calls, ids);
    if ids.len() == placeholders(calls) {
        if placeholders(calls) > 0 {
            let n = calls.len() as int;
            lemma_ids_given(calls, ids, n);
            assert(calls.take(n) =~= calls);
            assert(with_ids(calls, ids).take(n) =~= after);
            assert(ids.take(ids.len() as int) =~= ids);
        } else {
            assert(ids_given(calls, after) =~= ids);
        }
    }
}

proof fn lemma_counts_ids_given(before: Seq<CallModel>, after: Seq<CallModel>)
    ensures
        ids_given(before, after).len() == placeholders(before),
    decreases before.len(),
{
    if before.len() > 0 {
        lemma_counts_ids_given(before.drop_last(), after.drop_last());
    }
}

/// The ids of results are those of the rows of tools that come first, in order. A row without an id
/// gives none, and from the first row that is not of a tool on, no row does.
pub proof fn law_results_are_those_that_come_first(row: MessageRow, rows: Seq<MessageRow>)
    ensures
        result_ids(Seq::<MessageRow>::empty()).len() == 0,
        row.role@ != "tool"@ ==> result_ids(seq![row] + rows).len() == 0,
        row.role@ == "tool"@ && row.tool_call_id is None ==> result_ids(seq![row] + rows)
            == result_ids(rows),
        row.role@ == "tool"@ && row.tool_call_id is Some ==> result_ids(seq![row] + rows) == seq![
            row.tool_call_id->0@,
        ] + result_ids(rows),
{
    let all = seq![row] + rows;
    assert(all[0] == row);
    assert(all.drop_first() =~= rows);
    if row.role@ == "tool"@ && row.tool_call_id is None {
        assert(result_ids(all) =~= result_ids(rows));
    }
}

/// What is planned for a row that no other row shares its id with.
proof fn lemma_plan_of_row(rows: Seq<MessageRow>, n: nat, diagnostics: DiagnosticsModel, i: int)
    requires
        0 <= i < n <= rows.len(),
        forall|k: int| 0 <= k < n && k != i ==> (#[trigger] rows[k]).id != rows[i].id,
    ensures
        ({
            let planned = plan_of(rows, n, diagnostics).calls;
            match row_plan(rows, i) {
                RowPlan::Calls(listed) => if listed.len() > 0 {
                    planned.dom().contains(rows[i].id) && planned[rows[i].id] == listed
                } else {
                    !planned.dom().contains(rows[i].id)
                },
                _ => !planned.dom().contains(rows[i].id),
            }
        }),
    decreases n,
{
    let m = (n - 1) as nat;
    if i < m {
        lemma_plan_of_row(rows, m, diagnostics, i);
        assert(rows[m as int].id != rows[i].id);
    } else {
        lemma_not_planned(rows, m, diagnostics, rows[i].id);
    }
}

proof fn lemma_not_planned(
    rows: Seq<MessageRow>,
    n: nat,
    diagnostics: DiagnosticsModel,
    id: u64,
)
    requires
        n <= rows.len(),
        forall|k: int| 0 <= k < n ==> (#[trigger] rows[k]).id != id,
    ensures
        !plan_of(rows, n, diagnostics).calls.dom().contains(id),
    decreases n,
{
    if n > 0 {
        lemma_not_planned(rows, (n - 1) as nat, diagnostics, id);
        assert(rows[n - 1].id != id);
    }
}

/// For a row of the assistant that lists calls, each object in its list is planned as a call with
/// the name and the arguments that the list gives it, in the order of the list. It keeps an id of
/// its own.
pub proof fn law_listed_calls_are_planned(
    rows: Seq<MessageRow>,
    diagnostics: DiagnosticsModel,
    i: int,
    entries: Vec<Json>,
    m: int,
)
    requires
        0 <= i < rows.len(),
        forall|k: int| 0 <= k < rows.len() && k != i ==> (#[trigger] rows[k]).id != rows[i].id,
        rows[i].role@ == "assistant"@,
        rows[i].tool_calls is Some,
        !text::blank(rows[i].tool_calls->0@),
        json::json_of(rows[i].tool_calls->0@) == Some(Json::List(entries)),
        0 <= m < entries@.len(),
        entries@[m] is Object,
    ensures
        ({
            let planned = plan_of(rows, rows.len(), diagnostics).calls;
            let listed = planned[rows[i].id];
            let said = entry_call(rows[i].id, m as nat, entries@[m])->0;
            let j = objects(entries@.take(m)) as int;
            &&& planned.dom().contains(rows[i].id)
            &&& listed.len() == objects(entries@)
            &&& 0 <= j < listed.len()
            &&& listed[j].name == said.name
            &&& listed[j].arguments == said.arguments
            &&& !"hermes:"@.is_prefix_of(said.id) ==> listed[j].id == said.id
        }),
{
    let row = rows[i];
    let calls = entry_calls(row.id, entries@);
    let ids = result_ids(rows.skip(i + 1));
    lemma_plan_of_row(rows, rows.len(), diagnostics, i);
    law_every_object_is_a_call(row.id, entries@, m);
    law_made_up_ids_are_replaced_in_order(calls, ids);
    assert(row_plan(rows, i) == RowPlan::Calls(settled(calls, ids)));
    let j = objects(entries@.take(m)) as int;
    assert(settled(calls, ids)[j].name == calls[j].name);
}

/// A call that a row lists without an id of its own gets the id of its result, where the results
/// that follow the row are as many as such calls.
pub proof fn law_calls_adopt_the_ids_of_their_results(
    rows: Seq<MessageRow>,
    diagnostics: DiagnosticsModel,
    i: int,
    entries: Vec<Json>,
)
    requires
        0 <= i < rows.len(),
        forall|k: int| 0 <= k < rows.len() && k != i ==> (#[trigger] rows[k]).id != rows[i].id,
        rows[i].role@ == "assistant"@,
        rows[i].tool_calls is Some,
        !text::blank(rows[i].tool_calls->0@),
        json::json_of(rows[i].tool_calls->0@) == Some(Json::List(entries)),
        objects(entries@) > 0,
    ensures
        ({
            let said = entry_calls(rows[i].id, entries@);
            let results = result_ids(rows.skip(i + 1));
            let listed = plan_of(rows, rows.len(), diagnostics).calls[rows[i].id];
            &&& ids_given(said, said).len() == results.len() ==> ids_given(said, listed) == results
            &&& ids_given(said, said).len() != results.len() ==> listed == said
        }),
{
    let calls = entry_calls(rows[i].id, entries@);
    let ids = result_ids(rows.skip(i + 1));
    if entries@.len() > 0 {
        law_every_object_is_a_call(rows[i].id, entries@, 0);
    }
    lemma_plan_of_row(rows, rows.len(), diagnostics, i);
    law_made_up_ids_are_replaced_in_order(calls, ids);
    assert(row_plan(rows, i) == RowPlan::Calls(settled(calls, ids)));
}

/// Nothing is planned for a row that is not of the assistant, that lists nothing, or whose list is
/// no JSON array.
pub proof fn law_nothing_else_is_planned(
    rows: Seq<MessageRow>,
    diagnostics: DiagnosticsModel,
    i: int,
)
    requires
        0 <= i < rows.len(),
        forall|k: int| 0 <= k < rows.len() && k != i ==> (#[trigger] rows[k]).id != rows[i].id,
        ({
            ||| rows[i].role@ != "assistant"@
            ||| rows[i].tool_calls is None
            ||| text::blank(rows[i].tool_calls->0@)
            ||| json::json_of(rows[i].tool_calls->0@) is None
            ||| !(json::json_of(rows[i].tool_calls->0@)->0 is List)
        }),
    ensures
        !plan_of(rows, rows.len(), diagnostics).calls.dom().contains(rows[i].id),
{
    lemma_plan_of_row(rows, rows.len(), diagnostics, i);
}

/// A list of calls that is no JSON is counted as malformed, and one that is JSON but no array by
/// its shape. Nothing else is counted by planning.
pub proof fn law_planning_counts_what_it_cannot_use(
    rows: Seq<MessageRow>,
    n: nat,
    diagnostics: DiagnosticsModel,
)
    requires
        n < rows.len(),
    ensures
        ({
            let row = rows[n as int];
            let before = plan_of(rows, n, diagnostics).diagnostics;
            let after = plan_of(rows, n + 1, diagnostics).diagnostics;
            let lists = row.role@ == "assistant"@ && row.tool_calls is Some && !text::blank(
                row.tool_calls->0@,
            );
            let read = json::json_of(row.tool_calls->0@);
            &&& plan_of(rows, 0, diagnostics).diagnostics == diagnostics
            &&& after.malformed_json_lines == before.malformed_json_lines + if lists
                && read is None {
                1int
            } else {
                0int
            }
            &&& after.met("tool_calls_not_array"@) == before.met("tool_calls_not_array"@) + if lists
                && read is Some && !(read->0 is List) {
                1int
            } else {
                0int
            }
            &&& forall|name: Seq<char>|
                name != "tool_calls_not_array"@ ==> #[trigger] after.met(name) == before.met(name)
            &&& after.duplicate_tool_calls == before.duplicate_tool_calls
            &&& after.orphan_tool_results == before.orphan_tool_results
            &&& after.encrypted_reasoning_dropped == before.encrypted_reasoning_dropped
        }),
{
}

} // verus!
