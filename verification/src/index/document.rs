//! Records as documents of the index.

use crate::index::layout::IndexFields;
use crate::text;
use crate::types;
use crate::types::{LinksModel, Record, RecordLinks, RecordModel, SourceKind, SourceLabels};
use vstd::prelude::*;

verus! {

broadcast use vstd::string::group_string_axioms;

/// `tantivy::TantivyDocument`, whose entries [`document_entries`] names.
#[verifier::external_type_specification]
#[verifier::external_body]
pub struct ExTantivyDocument(tantivy::TantivyDocument);

/// A value in a document.
pub enum ValueModel {
    Number(u64),
    Text(Seq<char>),
    Other,
}

/// A value in a document, with the number of its field.
pub struct EntryModel {
    pub field: u32,
    pub value: ValueModel,
}

/// The values of a document, in order. A field may have several.
pub uninterp spec fn document_entries(document: tantivy::TantivyDocument) -> Seq<EntryModel>;

/// The first value of a field.
pub open spec fn first_value(entries: Seq<EntryModel>, field: u32) -> Option<ValueModel>
    decreases entries.len(),
{
    if entries.len() == 0 {
        None
    } else if first_value(entries.drop_last(), field) is Some {
        first_value(entries.drop_last(), field)
    } else if entries.last().field == field {
        Some(entries.last().value)
    } else {
        None
    }
}

/// The first value of a field, where it is a text.
pub open spec fn text_of(entries: Seq<EntryModel>, field: u32) -> Option<Seq<char>> {
    match first_value(entries, field) {
        Some(ValueModel::Text(value)) => Some(value),
        _ => None,
    }
}

/// The first value of a field, where it is a number.
pub open spec fn number_of(entries: Seq<EntryModel>, field: u32) -> Option<u64> {
    match first_value(entries, field) {
        Some(ValueModel::Number(value)) => Some(value),
        _ => None,
    }
}

/// Calls `TantivyDocument::default`, which holds nothing.
#[verifier::external_body]
fn new_document() -> (r: tantivy::TantivyDocument)
    ensures
        document_entries(r) == Seq::<EntryModel>::empty(),
{
    tantivy::TantivyDocument::default()
}

/// Calls `TantivyDocument::add_u64`, which appends a number.
#[verifier::external_body]
fn add_number(document: &mut tantivy::TantivyDocument, field: u32, value: u64)
    ensures
        document_entries(*final(document)) == document_entries(*old(document)).push(
            EntryModel { field, value: ValueModel::Number(value) },
        ),
{
    document.add_u64(tantivy::schema::Field::from_field_id(field), value)
}

/// Calls `TantivyDocument::add_text`, which appends a text.
#[verifier::external_body]
fn add_text(document: &mut tantivy::TantivyDocument, field: u32, value: &str)
    ensures
        document_entries(*final(document)) == document_entries(*old(document)).push(
            EntryModel { field, value: ValueModel::Text(value@) },
        ),
{
    document.add_text(tantivy::schema::Field::from_field_id(field), value)
}

/// Calls `TantivyDocument::get_first` and asks the value for its text, which only a text has.
#[verifier::external_body]
fn first_text(document: &tantivy::TantivyDocument, field: u32) -> (r: Option<String>)
    ensures
        text::opt_text(r) == text_of(document_entries(*document), field),
{
    let value = document.get_first(tantivy::schema::Field::from_field_id(field))?;
    tantivy::schema::Value::as_str(&value).map(|text| text.to_string())
}

/// Calls `TantivyDocument::get_first` and asks the value for its number, which only an unsigned
/// number has.
#[verifier::external_body]
fn first_number(document: &tantivy::TantivyDocument, field: u32) -> (r: Option<u64>)
    ensures
        r == number_of(document_entries(*document), field),
{
    let value = document.get_first(tantivy::schema::Field::from_field_id(field))?;
    tantivy::schema::Value::as_u64(&value)
}

/// A field of a document and its value, where it has one.
pub struct PartModel {
    pub field: u32,
    pub value: Option<ValueModel>,
}

/// A field with a number.
pub open spec fn number_part(field: u32, value: u64) -> PartModel {
    PartModel { field, value: Some(ValueModel::Number(value)) }
}

/// A field with a text.
pub open spec fn text_part(field: u32, value: Seq<char>) -> PartModel {
    PartModel { field, value: Some(ValueModel::Text(value)) }
}

/// A field with a text, where there is one.
pub open spec fn optional_part(field: u32, value: Option<Seq<char>>) -> PartModel {
    PartModel {
        field,
        value: match value {
            Some(value) => Some(ValueModel::Text(value)),
            None => None,
        },
    }
}

/// The entries of a document: the parts that have a value, in order.
pub open spec fn entries_of(parts: Seq<PartModel>) -> Seq<EntryModel>
    decreases parts.len(),
{
    if parts.len() == 0 {
        seq![]
    } else {
        match parts.last().value {
            Some(value) => entries_of(parts.drop_last()).push(
                EntryModel { field: parts.last().field, value },
            ),
            None => entries_of(parts.drop_last()),
        }
    }
}

/// The parts of a document that come before the source.
pub open spec fn leading_parts(fields: IndexFields, record: RecordModel) -> Seq<PartModel> {
    seq![
        number_part(fields.doc_id, record.doc_id),
        number_part(fields.ts, record.ts),
        text_part(fields.project, record.project),
        text_part(fields.session_id, record.session_id),
        number_part(fields.turn_id, record.turn_id as u64),
        text_part(fields.role, record.role),
        text_part(fields.text, record.text),
    ]
}

/// The source, where the index keeps it.
pub open spec fn source_part(
    labels: SourceLabels,
    fields: IndexFields,
    record: RecordModel,
) -> Seq<PartModel> {
    match fields.source {
        Some(source) => seq![text_part(source, labels.stored(record.source))],
        None => seq![],
    }
}

/// The parts of a document that come after the source.
pub open spec fn trailing_parts(fields: IndexFields, record: RecordModel) -> Seq<PartModel> {
    seq![
        optional_part(fields.tool_name, record.tool_name),
        optional_part(fields.tool_input, record.tool_input),
        optional_part(fields.tool_output, record.tool_output),
        optional_part(fields.event_id, record.links.event_id),
        optional_part(fields.parent_event_id, record.links.parent_event_id),
        optional_part(fields.logical_parent_event_id, record.links.logical_parent_event_id),
        optional_part(fields.parent_session_id, record.links.parent_session_id),
        optional_part(fields.thread_source, record.links.thread_source),
        optional_part(fields.conversation_kind, record.links.conversation_kind),
        optional_part(fields.parent_tool_use_id, record.links.parent_tool_use_id),
        optional_part(fields.source_tool_use_id, record.links.source_tool_use_id),
        optional_part(fields.source_tool_assistant_uuid, record.links.source_tool_assistant_uuid),
        text_part(fields.source_path, record.source_path),
    ]
}

/// The parts of the document of a record.
pub open spec fn parts_of(
    labels: SourceLabels,
    fields: IndexFields,
    record: RecordModel,
) -> Seq<PartModel> {
    leading_parts(fields, record) + source_part(labels, fields, record) + trailing_parts(
        fields,
        record,
    )
}

/// The document of a record.
pub open spec fn document_of(
    labels: SourceLabels,
    fields: IndexFields,
    record: RecordModel,
) -> Seq<EntryModel> {
    entries_of(parts_of(labels, fields, record))
}

/// A document being put together: `parts` are those that it has already.
struct Draft {
    document: tantivy::TantivyDocument,
    parts: Ghost<Seq<PartModel>>,
}

impl Draft {
    spec fn valid(self) -> bool {
        document_entries(self.document) == entries_of(self.parts@)
    }

    /// Adds a number.
    fn add_number(&mut self, field: u32, value: u64)
        requires
            old(self).valid(),
        ensures
            final(self).valid(),
            final(self).parts@ == old(self).parts@.push(number_part(field, value)),
    {
        add_number(&mut self.document, field, value);
        self.parts = Ghost(self.parts@.push(number_part(field, value)));
        assert(self.parts@.drop_last() =~= old(self).parts@);
    }

    /// Adds a text.
    fn add_text(&mut self, field: u32, value: &str)
        requires
            old(self).valid(),
        ensures
            final(self).valid(),
            final(self).parts@ == old(self).parts@.push(text_part(field, value@)),
    {
        add_text(&mut self.document, field, value);
        self.parts = Ghost(self.parts@.push(text_part(field, value@)));
        assert(self.parts@.drop_last() =~= old(self).parts@);
    }

    /// Adds a text, where there is one.
    fn add_optional_text(&mut self, field: u32, value: &Option<String>)
        requires
            old(self).valid(),
        ensures
            final(self).valid(),
            final(self).parts@ == old(self).parts@.push(
                optional_part(field, text::opt_text(*value)),
            ),
    {
        if let Some(value) = value {
            add_text(&mut self.document, field, value.as_str());
        }
        self.parts = Ghost(self.parts@.push(optional_part(field, text::opt_text(*value))));
        assert(self.parts@.drop_last() =~= old(self).parts@);
    }
}

/// The document of a record.
pub fn record_document(labels: &SourceLabels, fields: &IndexFields, record: &Record) -> (r:
    tantivy::TantivyDocument)
    ensures
        document_entries(r) == document_of(*labels, *fields, record@),
{
    let mut draft = Draft { document: new_document(), parts: Ghost(Seq::empty()) };
    draft.add_number(fields.doc_id, record.doc_id);
    draft.add_number(fields.ts, record.ts);
    draft.add_text(fields.project, record.project.as_str());
    draft.add_text(fields.session_id, record.session_id.as_str());
    draft.add_number(fields.turn_id, record.turn_id as u64);
    draft.add_text(fields.role, record.role.as_str());
    draft.add_text(fields.text, record.text.as_str());
    assert(draft.parts@ =~= leading_parts(*fields, record@));
    if let Some(source) = fields.source {
        draft.add_text(source, labels.storage_label(record.source));
    }
    assert(draft.parts@ =~= leading_parts(*fields, record@) + source_part(
        *labels,
        *fields,
        record@,
    ));
    draft.add_optional_text(fields.tool_name, &record.tool_name);
    draft.add_optional_text(fields.tool_input, &record.tool_input);
    draft.add_optional_text(fields.tool_output, &record.tool_output);
    draft.add_optional_text(fields.event_id, &record.links.event_id);
    draft.add_optional_text(fields.parent_event_id, &record.links.parent_event_id);
    draft.add_optional_text(fields.logical_parent_event_id, &record.links.logical_parent_event_id);
    draft.add_optional_text(fields.parent_session_id, &record.links.parent_session_id);
    draft.add_optional_text(fields.thread_source, &record.links.thread_source);
    draft.add_optional_text(fields.conversation_kind, &record.links.conversation_kind);
    draft.add_optional_text(fields.parent_tool_use_id, &record.links.parent_tool_use_id);
    draft.add_optional_text(fields.source_tool_use_id, &record.links.source_tool_use_id);
    draft.add_optional_text(
        fields.source_tool_assistant_uuid,
        &record.links.source_tool_assistant_uuid,
    );
    draft.add_text(fields.source_path, record.source_path.as_str());
    assert(draft.parts@ =~= parts_of(*labels, *fields, record@));
    draft.document
}

/// A text that counts as empty where there is none.
pub open spec fn or_empty(value: Option<Seq<char>>) -> Seq<char> {
    match value {
        Some(value) => value,
        None => seq![],
    }
}

/// A number that counts as zero where there is none.
pub open spec fn or_zero(value: Option<u64>) -> u64 {
    match value {
        Some(value) => value,
        None => 0,
    }
}

/// The source that a document is labelled with.
pub open spec fn labelled_source(
    labels: SourceLabels,
    fields: IndexFields,
    entries: Seq<EntryModel>,
) -> Option<SourceKind> {
    match fields.source {
        Some(source) => match text_of(entries, source) {
            Some(label) => labels.labelled(label),
            None => None,
        },
        None => None,
    }
}

/// The links that a document holds.
pub open spec fn links_read(fields: IndexFields, entries: Seq<EntryModel>) -> LinksModel {
    LinksModel {
        event_id: text_of(entries, fields.event_id),
        parent_event_id: text_of(entries, fields.parent_event_id),
        logical_parent_event_id: text_of(entries, fields.logical_parent_event_id),
        parent_session_id: text_of(entries, fields.parent_session_id),
        thread_source: text_of(entries, fields.thread_source),
        conversation_kind: text_of(entries, fields.conversation_kind),
        parent_tool_use_id: text_of(entries, fields.parent_tool_use_id),
        source_tool_use_id: text_of(entries, fields.source_tool_use_id),
        source_tool_assistant_uuid: text_of(entries, fields.source_tool_assistant_uuid),
    }
}

/// The record that a document holds. `unlabelled` is the source of a document that has no known
/// label.
pub open spec fn record_read(
    labels: SourceLabels,
    fields: IndexFields,
    entries: Seq<EntryModel>,
    unlabelled: SourceKind,
) -> RecordModel {
    RecordModel {
        source: match labelled_source(labels, fields, entries) {
            Some(source) => source,
            None => unlabelled,
        },
        doc_id: or_zero(number_of(entries, fields.doc_id)),
        ts: or_zero(number_of(entries, fields.ts)),
        project: or_empty(text_of(entries, fields.project)),
        session_id: or_empty(text_of(entries, fields.session_id)),
        turn_id: (or_zero(number_of(entries, fields.turn_id)) % 0x1_0000_0000) as u32,
        role: or_empty(text_of(entries, fields.role)),
        text: or_empty(text_of(entries, fields.text)),
        tool_name: text_of(entries, fields.tool_name),
        tool_input: text_of(entries, fields.tool_input),
        tool_output: text_of(entries, fields.tool_output),
        links: links_read(fields, entries),
        source_path: or_empty(text_of(entries, fields.source_path)),
    }
}

/// The first text of a field, empty where there is none.
fn text_or_empty(document: &tantivy::TantivyDocument, field: u32) -> (r: String)
    ensures
        r@ == or_empty(text_of(document_entries(*document), field)),
{
    match first_text(document, field) {
        Some(value) => value,
        None => String::new(),
    }
}

/// The first number of a field, zero where there is none.
fn number_or_zero(document: &tantivy::TantivyDocument, field: u32) -> (r: u64)
    ensures
        r == or_zero(number_of(document_entries(*document), field)),
{
    match first_number(document, field) {
        Some(value) => value,
        None => 0,
    }
}

/// The record that a document holds. The source of a document without a known label is found by
/// `from_path` from the path of its transcript.
pub fn record_from_doc<F>(
    labels: &SourceLabels,
    fields: &IndexFields,
    document: &tantivy::TantivyDocument,
    from_path: F,
) -> (r: Record) where F: Fn(&str) -> SourceKind
    requires
        forall|path: &str| call_requires(from_path, (path,)),
    ensures
        ({
            let entries = document_entries(*document);
            exists|unlabelled: SourceKind| #[trigger]
                record_read(*labels, *fields, entries, unlabelled) == r@ && (labelled_source(
                    *labels,
                    *fields,
                    entries,
                ) is Some || exists|path: &str| #[trigger]
                    call_ensures(from_path, (path,), unlabelled) && path@ == r@.source_path)
        }),
{
    let ghost entries = document_entries(*document);
    let source_path = text_or_empty(document, fields.source_path);
    let label = match fields.source {
        Some(source) => first_text(document, source),
        None => None,
    };
    let labelled = match &label {
        Some(label) => labels.from_label(label.as_str()),
        None => None,
    };
    assert(labelled == labelled_source(*labels, *fields, entries));
    let source = match labelled {
        Some(source) => source,
        None => from_path(source_path.as_str()),
    };
    let turn: u64 = number_or_zero(document, fields.turn_id);
    let r = Record {
        source,
        doc_id: number_or_zero(document, fields.doc_id),
        ts: number_or_zero(document, fields.ts),
        project: text_or_empty(document, fields.project),
        session_id: text_or_empty(document, fields.session_id),
        turn_id: (turn % 0x1_0000_0000) as u32,
        role: text_or_empty(document, fields.role),
        text: text_or_empty(document, fields.text),
        tool_name: first_text(document, fields.tool_name),
        tool_input: first_text(document, fields.tool_input),
        tool_output: first_text(document, fields.tool_output),
        links: RecordLinks {
            event_id: first_text(document, fields.event_id),
            parent_event_id: first_text(document, fields.parent_event_id),
            logical_parent_event_id: first_text(document, fields.logical_parent_event_id),
            parent_session_id: first_text(document, fields.parent_session_id),
            thread_source: first_text(document, fields.thread_source),
            conversation_kind: first_text(document, fields.conversation_kind),
            parent_tool_use_id: first_text(document, fields.parent_tool_use_id),
            source_tool_use_id: first_text(document, fields.source_tool_use_id),
            source_tool_assistant_uuid: first_text(document, fields.source_tool_assistant_uuid),
        },
        source_path,
    };
    assert(r@.links =~= links_read(*fields, entries));
    assert(r@ =~= record_read(*labels, *fields, entries, source));
    r
}

/// A field that no part has is not in the document.
proof fn lemma_absent(parts: Seq<PartModel>, field: u32)
    requires
        forall|i: int| 0 <= i < parts.len() ==> (#[trigger] parts[i]).field != field,
    ensures
        first_value(entries_of(parts), field) is None,
    decreases parts.len(),
{
    if parts.len() > 0 {
        let rest = parts.drop_last();
        assert forall|i: int| 0 <= i < rest.len() implies (#[trigger] rest[i]).field != field by {
            assert(rest[i] == parts[i]);
        }
        lemma_absent(rest, field);
        assert(parts[parts.len() - 1] == parts.last());
        if let Some(value) = parts.last().value {
            let added = EntryModel { field: parts.last().field, value };
            assert(entries_of(rest).push(added).drop_last() =~= entries_of(rest));
        }
    }
}

/// A part that is the only one of its field is found in the document.
proof fn lemma_found(parts: Seq<PartModel>, at: int)
    requires
        0 <= at < parts.len(),
        forall|i: int|
            0 <= i < parts.len() && i != at ==> (#[trigger] parts[i]).field != parts[at].field,
    ensures
        first_value(entries_of(parts), parts[at].field) == parts[at].value,
    decreases parts.len(),
{
    let field = parts[at].field;
    let rest = parts.drop_last();
    if at == parts.len() - 1 {
        assert forall|i: int| 0 <= i < rest.len() implies (#[trigger] rest[i]).field != field by {
            assert(rest[i] == parts[i]);
        }
        lemma_absent(rest, field);
    } else {
        assert forall|i: int| 0 <= i < rest.len() && i != at implies (#[trigger] rest[i]).field
            != rest[at].field by {
            assert(rest[i] == parts[i]);
        }
        lemma_found(rest, at);
        assert(parts[parts.len() - 1] == parts.last());
    }
    if let Some(value) = parts.last().value {
        let added = EntryModel { field: parts.last().field, value };
        assert(entries_of(rest).push(added).drop_last() =~= entries_of(rest));
    }
}

/// Where the number of the required field `i` stands among the parts of a document.
spec fn place_of(fields: IndexFields, i: int) -> int {
    if i < 7 || fields.source is None {
        i
    } else {
        i + 1
    }
}

/// The parts of a document have different fields.
proof fn lemma_parts_differ(labels: SourceLabels, fields: IndexFields, record: RecordModel)
    requires
        fields.distinct(),
    ensures
        ({
            let parts = parts_of(labels, fields, record);
            &&& forall|i: int|
                0 <= i < 20 ==> (#[trigger] parts[place_of(fields, i)]).field
                    == fields.required()[i]
            &&& fields.source is Some ==> parts[7].field == fields.source->0
            &&& forall|i: int, j: int|
                0 <= i < parts.len() && 0 <= j < parts.len() && i != j ==> (
                #[trigger] parts[i]).field != (#[trigger] parts[j]).field
        }),
{
    let parts = parts_of(labels, fields, record);
    let numbers = fields.required();
    let leading = leading_parts(fields, record);
    let trailing = trailing_parts(fields, record);
    assert forall|i: int| 0 <= i < 20 implies (#[trigger] parts[place_of(fields, i)]).field
        == numbers[i] by {
        if i < 7 {
            assert(parts[i] == leading[i]);
        } else {
            assert(parts[place_of(fields, i)] == trailing[i - 7]);
        }
    }
    assert forall|i: int, j: int|
        0 <= i < parts.len() && 0 <= j < parts.len() && i != j implies (#[trigger] parts[i]).field
        != (#[trigger] parts[j]).field by {
        let a = if i < 7 || fields.source is None {
            i
        } else {
            i - 1
        };
        let b = if j < 7 || fields.source is None {
            j
        } else {
            j - 1
        };
        if fields.source is Some && i == 7 {
            assert(parts[place_of(fields, b)].field == numbers[b]);
            assert(numbers.contains(numbers[b]));
        } else if fields.source is Some && j == 7 {
            assert(parts[place_of(fields, a)].field == numbers[a]);
            assert(numbers.contains(numbers[a]));
        } else {
            assert(parts[place_of(fields, a)].field == numbers[a]);
            assert(parts[place_of(fields, b)].field == numbers[b]);
        }
    }
}

/// What each field of the document of a record holds.
pub proof fn lemma_document_values(labels: SourceLabels, fields: IndexFields, record: RecordModel)
    requires
        fields.distinct(),
    ensures
        ({
            let entries = document_of(labels, fields, record);
            &&& number_of(entries, fields.doc_id) == Some(record.doc_id)
            &&& number_of(entries, fields.ts) == Some(record.ts)
            &&& number_of(entries, fields.turn_id) == Some(record.turn_id as u64)
            &&& text_of(entries, fields.project) == Some(record.project)
            &&& text_of(entries, fields.session_id) == Some(record.session_id)
            &&& text_of(entries, fields.role) == Some(record.role)
            &&& text_of(entries, fields.text) == Some(record.text)
            &&& text_of(entries, fields.source_path) == Some(record.source_path)
            &&& text_of(entries, fields.tool_name) == record.tool_name
            &&& text_of(entries, fields.tool_input) == record.tool_input
            &&& text_of(entries, fields.tool_output) == record.tool_output
            &&& links_read(fields, entries) == record.links
            &&& fields.source matches Some(source) ==> text_of(entries, source) == Some(
                labels.stored(record.source),
            )
        }),
{
    let parts = parts_of(labels, fields, record);
    let entries = document_of(labels, fields, record);
    let leading = leading_parts(fields, record);
    let trailing = trailing_parts(fields, record);
    lemma_parts_differ(labels, fields, record);
    assert forall|i: int| 0 <= i < parts.len() implies first_value(
        entries,
        (#[trigger] parts[i]).field,
    ) == parts[i].value by {
        lemma_found(parts, i);
    }
    assert forall|i: int| 0 <= i < 7 implies first_value(entries, (#[trigger] leading[i]).field)
        == leading[i].value by {
        assert(parts[i] == leading[i]);
    }
    assert forall|i: int| 0 <= i < 13 implies first_value(
        entries,
        (#[trigger] trailing[i]).field,
    ) == trailing[i].value by {
        assert(parts[place_of(fields, i + 7)] == trailing[i]);
    }
    if let Some(source) = fields.source {
        assert(parts[7] == text_part(source, labels.stored(record.source)));
    }
    assert(first_value(entries, fields.doc_id) == leading[0].value);
    assert(first_value(entries, fields.ts) == leading[1].value);
    assert(first_value(entries, fields.project) == leading[2].value);
    assert(first_value(entries, fields.session_id) == leading[3].value);
    assert(first_value(entries, fields.turn_id) == leading[4].value);
    assert(first_value(entries, fields.role) == leading[5].value);
    assert(first_value(entries, fields.text) == leading[6].value);
    assert(first_value(entries, fields.tool_name) == trailing[0].value);
    assert(first_value(entries, fields.tool_input) == trailing[1].value);
    assert(first_value(entries, fields.tool_output) == trailing[2].value);
    assert(first_value(entries, fields.event_id) == trailing[3].value);
    assert(first_value(entries, fields.parent_event_id) == trailing[4].value);
    assert(first_value(entries, fields.logical_parent_event_id) == trailing[5].value);
    assert(first_value(entries, fields.parent_session_id) == trailing[6].value);
    assert(first_value(entries, fields.thread_source) == trailing[7].value);
    assert(first_value(entries, fields.conversation_kind) == trailing[8].value);
    assert(first_value(entries, fields.parent_tool_use_id) == trailing[9].value);
    assert(first_value(entries, fields.source_tool_use_id) == trailing[10].value);
    assert(first_value(entries, fields.source_tool_assistant_uuid) == trailing[11].value);
    assert(first_value(entries, fields.source_path) == trailing[12].value);
    assert(links_read(fields, entries) =~= record.links);
}

/// Reading back the document of a record gives the record. Where an index keeps no source, the
/// record comes back with the source that its path stands for.
pub proof fn law_record_round_trip(
    labels: SourceLabels,
    fields: IndexFields,
    record: RecordModel,
    unlabelled: SourceKind,
)
    requires
        labels.distinct(),
        fields.distinct(),
    ensures
        record_read(labels, fields, document_of(labels, fields, record), unlabelled) == (
        RecordModel {
            source: if fields.source is Some {
                record.source
            } else {
                unlabelled
            },
            ..record
        }),
{
    lemma_document_values(labels, fields, record);
    types::law_label_round_trip(labels, record.source);
}

/// The first value of a field is that of the first entry of the field, and there is none only where
/// no entry is of the field.
pub proof fn law_first_value_comes_first(entries: Seq<EntryModel>, field: u32)
    ensures
        match first_value(entries, field) {
            Some(value) => exists|i: int|
                0 <= i < entries.len() && (#[trigger] entries[i]).field == field && entries[i].value
                    == value && forall|k: int|
                    0 <= k < i ==> (#[trigger] entries[k]).field != field,
            None => forall|i: int|
                0 <= i < entries.len() ==> (#[trigger] entries[i]).field != field,
        },
    decreases entries.len(),
{
    if entries.len() > 0 {
        let rest = entries.drop_last();
        law_first_value_comes_first(rest, field);
        assert(entries[entries.len() - 1] == entries.last());
        match first_value(rest, field) {
            Some(value) => {
                let i = choose|i: int|
                    0 <= i < rest.len() && (#[trigger] rest[i]).field == field && rest[i].value
                        == value && forall|k: int|
                        0 <= k < i ==> (#[trigger] rest[k]).field != field;
                assert(entries[i] == rest[i]);
                assert forall|k: int| 0 <= k < i implies (#[trigger] entries[k]).field != field by {
                    assert(rest[k] == entries[k]);
                }
            },
            None => {
                assert forall|k: int| 0 <= k < rest.len() implies (#[trigger] entries[k]).field
                    != field by {
                    assert(rest[k] == entries[k]);
                }
            },
        }
    }
}

/// Each link of a record is stored in the field that is named after it.
pub proof fn law_links_are_stored_by_name(
    labels: SourceLabels,
    fields: IndexFields,
    record: RecordModel,
)
    requires
        fields.distinct(),
    ensures
        ({
            let entries = document_of(labels, fields, record);
            let links = record.links;
            &&& text_of(entries, fields.event_id) == links.event_id
            &&& text_of(entries, fields.parent_event_id) == links.parent_event_id
            &&& text_of(entries, fields.logical_parent_event_id) == links.logical_parent_event_id
            &&& text_of(entries, fields.parent_session_id) == links.parent_session_id
            &&& text_of(entries, fields.thread_source) == links.thread_source
            &&& text_of(entries, fields.conversation_kind) == links.conversation_kind
            &&& text_of(entries, fields.parent_tool_use_id) == links.parent_tool_use_id
            &&& text_of(entries, fields.source_tool_use_id) == links.source_tool_use_id
            &&& text_of(entries, fields.source_tool_assistant_uuid)
                == links.source_tool_assistant_uuid
        }),
{
    lemma_document_values(labels, fields, record);
}

/// What is searched for in the fields of a document is what its record says: the words in its text,
/// and everything else as it stands.
pub proof fn law_records_are_stored_by_name(
    labels: SourceLabels,
    fields: IndexFields,
    record: RecordModel,
)
    requires
        fields.distinct(),
    ensures
        ({
            let entries = document_of(labels, fields, record);
            &&& number_of(entries, fields.doc_id) == Some(record.doc_id)
            &&& number_of(entries, fields.ts) == Some(record.ts)
            &&& number_of(entries, fields.turn_id) == Some(record.turn_id as u64)
            &&& text_of(entries, fields.project) == Some(record.project)
            &&& text_of(entries, fields.session_id) == Some(record.session_id)
            &&& text_of(entries, fields.role) == Some(record.role)
            &&& text_of(entries, fields.text) == Some(record.text)
            &&& text_of(entries, fields.source_path) == Some(record.source_path)
            &&& text_of(entries, fields.tool_name) == record.tool_name
            &&& text_of(entries, fields.tool_input) == record.tool_input
            &&& text_of(entries, fields.tool_output) == record.tool_output
            &&& fields.source matches Some(source) ==> text_of(entries, source) == Some(
                labels.stored(record.source),
            )
        }),
{
    lemma_document_values(labels, fields, record);
}

/// What a document does not hold is read as empty, as zero or as absent, and a source without a
/// known label as the one that is given for it.
pub proof fn law_missing_values_are_read_as_nothing(
    labels: SourceLabels,
    fields: IndexFields,
    unlabelled: SourceKind,
)
    ensures
        record_read(labels, fields, seq![], unlabelled) == (RecordModel {
            source: unlabelled,
            doc_id: 0,
            ts: 0,
            project: seq![],
            session_id: seq![],
            turn_id: 0,
            role: seq![],
            text: seq![],
            tool_name: None,
            tool_input: None,
            tool_output: None,
            links: types::no_links(),
            source_path: seq![],
        }),
{
    let read = record_read(labels, fields, seq![], unlabelled);
    assert(read.links =~= types::no_links());
}

/// Each part of a record is read from the field that is named after it.
pub proof fn law_records_are_read_by_name(
    labels: SourceLabels,
    fields: IndexFields,
    entries: Seq<EntryModel>,
    unlabelled: SourceKind,
)
    ensures
        ({
            let read = record_read(labels, fields, entries, unlabelled);
            let holds = |field: u32, value: Seq<char>|
                text_of(entries, field) is Some ==> text_of(entries, field) == Some(value);
            &&& number_of(entries, fields.doc_id) is Some ==> number_of(entries, fields.doc_id)
                == Some(read.doc_id)
            &&& number_of(entries, fields.ts) is Some ==> number_of(entries, fields.ts) == Some(
                read.ts,
            )
            &&& number_of(entries, fields.turn_id) is Some ==> number_of(entries, fields.turn_id)->0
                % 0x1_0000_0000 == read.turn_id
            &&& holds(fields.project, read.project)
            &&& holds(fields.session_id, read.session_id)
            &&& holds(fields.role, read.role)
            &&& holds(fields.text, read.text)
            &&& holds(fields.source_path, read.source_path)
            &&& read.tool_name == text_of(entries, fields.tool_name)
            &&& read.tool_input == text_of(entries, fields.tool_input)
            &&& read.tool_output == text_of(entries, fields.tool_output)
            &&& read.links.event_id == text_of(entries, fields.event_id)
            &&& read.links.parent_session_id == text_of(entries, fields.parent_session_id)
            &&& read.links.parent_tool_use_id == text_of(entries, fields.parent_tool_use_id)
        }),
{
}

} // verus!
