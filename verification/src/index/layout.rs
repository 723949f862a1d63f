//! The schema of the index and the numbers by which its fields are known.

use crate::text;
use vstd::prelude::*;

verus! {

broadcast use vstd::string::group_string_axioms;

/// `tantivy::schema::SchemaBuilder`, whose fields [`builder_fields`] names.
#[verifier::external_type_specification]
#[verifier::external_body]
pub struct ExSchemaBuilder(tantivy::schema::SchemaBuilder);

/// `tantivy::schema::Schema`, whose fields [`schema_fields`] names.
#[verifier::external_type_specification]
#[verifier::external_body]
pub struct ExSchema(tantivy::schema::Schema);

/// How the values of a field are kept.
#[derive(Clone, Copy, Debug, PartialEq, Eq, Structural)]
pub enum FieldKind {
    /// A 64-bit number that can be searched, read back and sorted by.
    Number,
    /// A text that can be searched as a whole and read back.
    Keyword,
    /// A text that can be searched by its words and phrases, and read back.
    Words,
    /// Anything else.
    Other,
}

/// A field of a schema.
#[verifier::ext_equal]
pub struct FieldModel {
    pub name: Seq<char>,
    pub kind: FieldKind,
}

/// A field of the schema of this index.
#[derive(Clone, Copy, Debug)]
pub struct FieldSpec {
    pub name: &'static str,
    pub kind: FieldKind,
}

impl View for FieldSpec {
    type V = FieldModel;

    open spec fn view(&self) -> FieldModel {
        FieldModel { name: self.name@, kind: self.kind }
    }
}

/// The fields that a schema builder was given, in order.
pub uninterp spec fn builder_fields(builder: tantivy::schema::SchemaBuilder) -> Seq<FieldModel>;

/// The fields of a schema, in order.
pub uninterp spec fn schema_fields(schema: tantivy::schema::Schema) -> Seq<FieldModel>;

/// A field of this name can be added to `fields`.
pub open spec fn addable(fields: Seq<FieldModel>, name: Seq<char>) -> bool {
    &&& fields.len() < u32::MAX
    &&& name.len() > 0
    &&& name[0] != '-'
    &&& forall|i: int| 0 <= i < fields.len() ==> (#[trigger] fields[i]).name != name
}

/// Calls `SchemaBuilder::default`, which has no fields.
#[verifier::external_body]
fn new_builder() -> (r: tantivy::schema::SchemaBuilder)
    ensures
        builder_fields(r) == Seq::<FieldModel>::empty(),
{
    tantivy::schema::SchemaBuilder::default()
}

/// Calls `SchemaBuilder::add_u64_field` for a field that is indexed, stored and fast. It panics
/// where the name is taken, empty or starts with a dash.
#[verifier::external_body]
fn add_number_field(builder: &mut tantivy::schema::SchemaBuilder, name: &str)
    requires
        addable(builder_fields(*old(builder)), name@),
    ensures
        builder_fields(*final(builder)) == builder_fields(*old(builder)).push(
            FieldModel { name: name@, kind: FieldKind::Number },
        ),
{
    builder.add_u64_field(
        name,
        tantivy::schema::INDEXED | tantivy::schema::STORED | tantivy::schema::FAST,
    );
}

/// Calls `SchemaBuilder::add_text_field` for a field that is indexed as one term and stored. It
/// panics where the name is taken, empty or starts with a dash.
#[verifier::external_body]
fn add_keyword_field(builder: &mut tantivy::schema::SchemaBuilder, name: &str)
    requires
        addable(builder_fields(*old(builder)), name@),
    ensures
        builder_fields(*final(builder)) == builder_fields(*old(builder)).push(
            FieldModel { name: name@, kind: FieldKind::Keyword },
        ),
{
    builder.add_text_field(name, tantivy::schema::STRING | tantivy::schema::STORED);
}

/// Calls `SchemaBuilder::add_text_field` for a field that is cut into words by the default
/// tokenizer, indexed with frequencies and positions, and stored. It panics where the name is
/// taken, empty or starts with a dash.
#[verifier::external_body]
fn add_words_field(builder: &mut tantivy::schema::SchemaBuilder, name: &str)
    requires
        addable(builder_fields(*old(builder)), name@),
    ensures
        builder_fields(*final(builder)) == builder_fields(*old(builder)).push(
            FieldModel { name: name@, kind: FieldKind::Words },
        ),
{
    builder.add_text_field(name, tantivy::schema::TEXT | tantivy::schema::STORED);
}

/// Calls `SchemaBuilder::build`, which keeps the fields and their order.
#[verifier::external_body]
fn finish(builder: tantivy::schema::SchemaBuilder) -> (r: tantivy::schema::Schema)
    ensures
        schema_fields(r) == builder_fields(builder),
{
    builder.build()
}

/// The number of the field named `name`: its position among the fields. No two fields of a schema
/// have the same name.
pub open spec fn position_of(fields: Seq<FieldModel>, name: Seq<char>) -> Option<u32>
    decreases fields.len(),
{
    if fields.len() == 0 {
        None
    } else if fields.last().name == name {
        Some((fields.len() - 1) as u32)
    } else {
        position_of(fields.drop_last(), name)
    }
}

/// Calls `Schema::get_field` and takes the number of the field. A field's number is its position,
/// and a name that no field has is not found.
#[verifier::external_body]
fn find_field(schema: &tantivy::schema::Schema, name: &str) -> (r: Option<u32>)
    ensures
        r == position_of(schema_fields(*schema), name@),
{
    schema.get_field(name).ok().map(|field| field.field_id())
}

/// A field of the schema of this index.
pub open spec fn field_model(name: Seq<char>, kind: FieldKind) -> FieldModel {
    FieldModel { name, kind }
}

/// The fields of the schema of this index.
pub open spec fn current_fields() -> Seq<FieldModel> {
    seq![
        field_model("doc_id"@, FieldKind::Number),
        field_model("ts"@, FieldKind::Number),
        field_model("project"@, FieldKind::Keyword),
        field_model("session_id"@, FieldKind::Keyword),
        field_model("turn_id"@, FieldKind::Number),
        field_model("role"@, FieldKind::Keyword),
        field_model("source"@, FieldKind::Keyword),
        field_model("text"@, FieldKind::Words),
        field_model("tool_name"@, FieldKind::Keyword),
        field_model("tool_input"@, FieldKind::Words),
        field_model("tool_output"@, FieldKind::Words),
        field_model("event_id"@, FieldKind::Keyword),
        field_model("parent_event_id"@, FieldKind::Keyword),
        field_model("logical_parent_event_id"@, FieldKind::Keyword),
        field_model("parent_session_id"@, FieldKind::Keyword),
        field_model("thread_source"@, FieldKind::Keyword),
        field_model("conversation_kind"@, FieldKind::Keyword),
        field_model("parent_tool_use_id"@, FieldKind::Keyword),
        field_model("source_tool_use_id"@, FieldKind::Keyword),
        field_model("source_tool_assistant_uuid"@, FieldKind::Keyword),
        field_model("source_path"@, FieldKind::Keyword),
    ]
}

/// The fields of the schema of this index.
pub fn field_specs() -> (r: Vec<FieldSpec>)
    ensures
        r@.map_values(|field: FieldSpec| field@) == current_fields(),
{
    let r: Vec<FieldSpec> = vec![
        FieldSpec { name: "doc_id", kind: FieldKind::Number },
        FieldSpec { name: "ts", kind: FieldKind::Number },
        FieldSpec { name: "project", kind: FieldKind::Keyword },
        FieldSpec { name: "session_id", kind: FieldKind::Keyword },
        FieldSpec { name: "turn_id", kind: FieldKind::Number },
        FieldSpec { name: "role", kind: FieldKind::Keyword },
        FieldSpec { name: "source", kind: FieldKind::Keyword },
        FieldSpec { name: "text", kind: FieldKind::Words },
        FieldSpec { name: "tool_name", kind: FieldKind::Keyword },
        FieldSpec { name: "tool_input", kind: FieldKind::Words },
        FieldSpec { name: "tool_output", kind: FieldKind::Words },
        FieldSpec { name: "event_id", kind: FieldKind::Keyword },
        FieldSpec { name: "parent_event_id", kind: FieldKind::Keyword },
        FieldSpec { name: "logical_parent_event_id", kind: FieldKind::Keyword },
        FieldSpec { name: "parent_session_id", kind: FieldKind::Keyword },
        FieldSpec { name: "thread_source", kind: FieldKind::Keyword },
        FieldSpec { name: "conversation_kind", kind: FieldKind::Keyword },
        FieldSpec { name: "parent_tool_use_id", kind: FieldKind::Keyword },
        FieldSpec { name: "source_tool_use_id", kind: FieldKind::Keyword },
        FieldSpec { name: "source_tool_assistant_uuid", kind: FieldKind::Keyword },
        FieldSpec { name: "source_path", kind: FieldKind::Keyword },
    ];
    assert(r@.map_values(|field: FieldSpec| field@) =~= current_fields());
    r
}

/// The names of this index differ in their length or in their first letter.
proof fn lemma_names_differ()
    ensures
        forall|i: int, j: int|
            0 <= i < j < current_fields().len() ==> (#[trigger] current_fields()[i]).name != (
            #[trigger] current_fields()[j]).name,
        forall|i: int|
            0 <= i < current_fields().len() ==> {
                let name = (#[trigger] current_fields()[i]).name;
                name.len() > 0 && name[0] != '-'
            },
{
    reveal_strlit("doc_id");
    reveal_strlit("ts");
    reveal_strlit("project");
    reveal_strlit("session_id");
    reveal_strlit("turn_id");
    reveal_strlit("role");
    reveal_strlit("source");
    reveal_strlit("text");
    reveal_strlit("tool_name");
    reveal_strlit("tool_input");
    reveal_strlit("tool_output");
    reveal_strlit("event_id");
    reveal_strlit("parent_event_id");
    reveal_strlit("logical_parent_event_id");
    reveal_strlit("parent_session_id");
    reveal_strlit("thread_source");
    reveal_strlit("conversation_kind");
    reveal_strlit("parent_tool_use_id");
    reveal_strlit("source_tool_use_id");
    reveal_strlit("source_tool_assistant_uuid");
    reveal_strlit("source_path");
    let lengths: Seq<int> = seq![
        6, 2, 7, 10, 7, 4, 6, 4, 9, 10, 11, 8, 15, 23, 17, 13, 17, 18, 18, 26, 11,
    ];
    let initials: Seq<char> = seq![
        'd', 't', 'p', 's', 't', 'r', 's', 't', 't', 't', 't', 'e', 'p', 'l', 'p', 't', 'c', 'p', 's',
        's', 's',
    ];
    let fields = current_fields();
    assert forall|i: int| 0 <= i < fields.len() implies (#[trigger] fields[i]).name.len()
        == lengths[i] && fields[i].name[0] == initials[i] by {}
    assert forall|i: int, j: int| 0 <= i < j < fields.len() implies (#[trigger] fields[i]).name != (
    #[trigger] fields[j]).name by {
        assert(lengths[i] != lengths[j] || initials[i] != initials[j]);
    }
}

/// The schema of this index.
pub fn build_schema() -> (r: tantivy::schema::Schema)
    ensures
        schema_fields(r) == current_fields(),
{
    let specs = field_specs();
    let mut builder = new_builder();
    let ghost all = current_fields();
    proof {
        lemma_names_differ();
    }
    assert(all.take(0) =~= seq![]);
    let mut i: usize = 0;
    while i < specs.len()
        invariant
            i <= specs@.len(),
            all == current_fields(),
            all.len() == 21,
            specs@.map_values(|field: FieldSpec| field@) == all,
            builder_fields(builder) == all.take(i as int),
            forall|a: int, b: int|
                0 <= a < b < all.len() ==> (#[trigger] all[a]).name != (#[trigger] all[b]).name,
            forall|a: int|
                0 <= a < all.len() ==> {
                    let name = (#[trigger] all[a]).name;
                    name.len() > 0 && name[0] != '-'
                },
            forall|a: int| 0 <= a < all.len() ==> (#[trigger] all[a]).kind != FieldKind::Other,
        decreases specs@.len() - i,
    {
        let field = specs[i];
        assert(all[i as int] == specs@.map_values(|field: FieldSpec| field@)[i as int]);
        assert(all[i as int] == field@);
        assert(all.take(i + 1) =~= all.take(i as int).push(field@));
        match field.kind {
            FieldKind::Number => add_number_field(&mut builder, field.name),
            FieldKind::Words => add_words_field(&mut builder, field.name),
            _ => add_keyword_field(&mut builder, field.name),
        }
        i += 1;
    }
    assert(all.take(21) =~= all);
    finish(builder)
}

/// A schema has every field of this index. Whether it keeps them in the same way is not asked.
pub open spec fn has_current_fields(fields: Seq<FieldModel>) -> bool {
    forall|i: int|
        0 <= i < current_fields().len() ==> position_of(
            fields,
            (#[trigger] current_fields()[i]).name,
        ) is Some
}

/// Whether a schema has every field of this index.
pub fn schema_is_current(schema: &tantivy::schema::Schema) -> (r: bool)
    ensures
        r == has_current_fields(schema_fields(*schema)),
{
    let specs = field_specs();
    let ghost all = current_fields();
    let mut i: usize = 0;
    while i < specs.len()
        invariant
            i <= specs@.len(),
            all == current_fields(),
            specs@.map_values(|field: FieldSpec| field@) == all,
            forall|a: int|
                0 <= a < i ==> position_of(
                    schema_fields(*schema),
                    (#[trigger] all[a]).name,
                ) is Some,
        decreases specs@.len() - i,
    {
        assert(all[i as int] == specs@.map_values(|field: FieldSpec| field@)[i as int]);
        if find_field(schema, specs[i].name).is_none() {
            assert(position_of(schema_fields(*schema), all[i as int].name) is None);
            return false;
        }
        i += 1;
    }
    assert(specs@.map_values(|field: FieldSpec| field@).len() == specs@.len());
    true
}

/// The numbers of the fields of the index.
#[derive(Clone, Copy, Debug, PartialEq, Eq, Structural)]
pub struct IndexFields {
    pub doc_id: u32,
    pub ts: u32,
    pub project: u32,
    pub session_id: u32,
    pub turn_id: u32,
    pub role: u32,
    pub text: u32,
    pub source: Option<u32>,
    pub tool_name: u32,
    pub tool_input: u32,
    pub tool_output: u32,
    pub event_id: u32,
    pub parent_event_id: u32,
    pub logical_parent_event_id: u32,
    pub parent_session_id: u32,
    pub thread_source: u32,
    pub conversation_kind: u32,
    pub parent_tool_use_id: u32,
    pub source_tool_use_id: u32,
    pub source_tool_assistant_uuid: u32,
    pub source_path: u32,
}

/// The names of the fields that an index cannot do without, in the order in which they are looked
/// up.
pub open spec fn required_names() -> Seq<Seq<char>> {
    seq![
        "doc_id"@,
        "ts"@,
        "project"@,
        "session_id"@,
        "turn_id"@,
        "role"@,
        "text"@,
        "tool_name"@,
        "tool_input"@,
        "tool_output"@,
        "event_id"@,
        "parent_event_id"@,
        "logical_parent_event_id"@,
        "parent_session_id"@,
        "thread_source"@,
        "conversation_kind"@,
        "parent_tool_use_id"@,
        "source_tool_use_id"@,
        "source_tool_assistant_uuid"@,
        "source_path"@,
    ]
}

/// The first of `names` that no field has.
pub open spec fn first_missing(fields: Seq<FieldModel>, names: Seq<Seq<char>>) -> Option<Seq<char>>
    decreases names.len(),
{
    if names.len() == 0 {
        None
    } else if first_missing(fields, names.drop_last()) is Some {
        first_missing(fields, names.drop_last())
    } else if position_of(fields, names.last()) is None {
        Some(names.last())
    } else {
        None
    }
}

impl IndexFields {
    /// The numbers of the fields that an index cannot do without, in the order of
    /// [`required_names`].
    pub open spec fn required(self) -> Seq<u32> {
        seq![
            self.doc_id,
            self.ts,
            self.project,
            self.session_id,
            self.turn_id,
            self.role,
            self.text,
            self.tool_name,
            self.tool_input,
            self.tool_output,
            self.event_id,
            self.parent_event_id,
            self.logical_parent_event_id,
            self.parent_session_id,
            self.thread_source,
            self.conversation_kind,
            self.parent_tool_use_id,
            self.source_tool_use_id,
            self.source_tool_assistant_uuid,
            self.source_path,
        ]
    }

    /// No two fields have the same number.
    pub open spec fn distinct(self) -> bool {
        &&& self.required().no_duplicates()
        &&& self.source matches Some(source) ==> !self.required().contains(source)
    }

    /// A schema has the field that words are searched for in.
    pub open spec fn searchable_in(self, fields: Seq<FieldModel>) -> bool {
        self.text < fields.len()
    }

    /// These are the numbers that the fields have in a schema.
    pub open spec fn loaded_from(self, fields: Seq<FieldModel>) -> bool {
        &&& forall|i: int|
            0 <= i < required_names().len() ==> position_of(fields, #[trigger] required_names()[i])
                == Some(self.required()[i])
        &&& self.source == position_of(fields, "source"@)
    }
}

/// A field that a schema does not have.
#[derive(Debug)]
pub struct MissingField {
    pub name: &'static str,
}

impl MissingField {
    /// What this error says.
    pub fn message(&self) -> (r: String)
        ensures
            r@ == "missing field "@ + self.name@,
    {
        let mut message = text::owned("missing field ");
        message.append(self.name);
        message
    }
}

/// The numbers that the fields of the index have in a schema. Only the source may be missing.
pub fn load_fields(schema: &tantivy::schema::Schema) -> (r: Result<IndexFields, MissingField>)
    ensures
        match r {
            Ok(fields) => {
                &&& first_missing(schema_fields(*schema), required_names()) is None
                &&& fields.loaded_from(schema_fields(*schema))
                &&& fields.searchable_in(schema_fields(*schema))
            },
            Err(error) => first_missing(schema_fields(*schema), required_names()) == Some(
                error.name@,
            ),
        },
{
    let names: [&'static str; 20] = [
        "doc_id",
        "ts",
        "project",
        "session_id",
        "turn_id",
        "role",
        "text",
        "tool_name",
        "tool_input",
        "tool_output",
        "event_id",
        "parent_event_id",
        "logical_parent_event_id",
        "parent_session_id",
        "thread_source",
        "conversation_kind",
        "parent_tool_use_id",
        "source_tool_use_id",
        "source_tool_assistant_uuid",
        "source_path",
    ];
    let ghost fields = schema_fields(*schema);
    let ghost wanted = required_names();
    assert(forall|i: int| 0 <= i < 20 ==> #[trigger] names@[i]@ == wanted[i]);
    let mut numbers: Vec<u32> = Vec::new();
    assert(wanted.take(0) =~= seq![]);
    let mut i: usize = 0;
    while i < 20
        invariant
            i <= 20,
            wanted == required_names(),
            wanted.len() == 20,
            names@.len() == 20,
            forall|j: int| 0 <= j < 20 ==> #[trigger] names@[j]@ == wanted[j],
            fields == schema_fields(*schema),
            numbers@.len() == i,
            forall|j: int|
                0 <= j < i ==> position_of(fields, #[trigger] wanted[j]) == Some(numbers@[j]),
            first_missing(fields, wanted.take(i as int)) is None,
        decreases 20 - i,
    {
        let name = names[i];
        assert(wanted.take(i + 1).drop_last() =~= wanted.take(i as int));
        assert(wanted.take(i + 1).last() == name@);
        match find_field(schema, name) {
            Some(number) => numbers.push(number),
            None => {
                proof {
                    lemma_first_missing_stays(fields, wanted, i + 1);
                }
                return Err(MissingField { name });
            },
        }
        i += 1;
    }
    assert(wanted.take(20) =~= wanted);
    let loaded = IndexFields {
        doc_id: numbers[0],
        ts: numbers[1],
        project: numbers[2],
        session_id: numbers[3],
        turn_id: numbers[4],
        role: numbers[5],
        text: numbers[6],
        source: find_field(schema, "source"),
        tool_name: numbers[7],
        tool_input: numbers[8],
        tool_output: numbers[9],
        event_id: numbers[10],
        parent_event_id: numbers[11],
        logical_parent_event_id: numbers[12],
        parent_session_id: numbers[13],
        thread_source: numbers[14],
        conversation_kind: numbers[15],
        parent_tool_use_id: numbers[16],
        source_tool_use_id: numbers[17],
        source_tool_assistant_uuid: numbers[18],
        source_path: numbers[19],
    };
    assert(loaded.required() =~= numbers@);
    proof {
        law_loaded_numbers_are_in_range(fields, loaded, 6);
    }
    Ok(loaded)
}

/// What is missing first among the first names is missing first among all of them.
proof fn lemma_first_missing_stays(fields: Seq<FieldModel>, names: Seq<Seq<char>>, n: int)
    requires
        0 <= n <= names.len(),
        first_missing(fields, names.take(n)) is Some,
    ensures
        first_missing(fields, names) == first_missing(fields, names.take(n)),
    decreases names.len() - n,
{
    if n == names.len() {
        assert(names.take(n) =~= names);
    } else {
        assert(names.take(n + 1).drop_last() =~= names.take(n));
        lemma_first_missing_stays(fields, names, n + 1);
    }
}

/// Where every name is found, nothing is missing.
proof fn lemma_nothing_missing(fields: Seq<FieldModel>, names: Seq<Seq<char>>)
    requires
        forall|i: int| 0 <= i < names.len() ==> position_of(fields, #[trigger] names[i]) is Some,
    ensures
        first_missing(fields, names) is None,
    decreases names.len(),
{
    if names.len() > 0 {
        let rest = names.drop_last();
        assert forall|i: int| 0 <= i < rest.len() implies position_of(
            fields,
            #[trigger] rest[i],
        ) is Some by {
            assert(rest[i] == names[i]);
        }
        lemma_nothing_missing(fields, rest);
        assert(names[names.len() - 1] == names.last());
    }
}

/// A position is one of a field that has the name.
proof fn lemma_position_names(fields: Seq<FieldModel>, name: Seq<char>)
    requires
        fields.len() <= u32::MAX,
        position_of(fields, name) is Some,
    ensures
        position_of(fields, name)->0 < fields.len(),
        fields[position_of(fields, name)->0 as int].name == name,
    decreases fields.len(),
{
    if fields.len() > 0 && fields.last().name != name {
        lemma_position_names(fields.drop_last(), name);
    }
}

/// The number of a field is one that the schema has.
pub proof fn lemma_position_in_range(fields: Seq<FieldModel>, name: Seq<char>)
    ensures
        position_of(fields, name) matches Some(number) ==> number < fields.len(),
    decreases fields.len(),
{
    if fields.len() > 0 && fields.last().name != name {
        lemma_position_in_range(fields.drop_last(), name);
    }
}

/// The numbers that were loaded from a schema are those of fields that it has.
pub proof fn law_loaded_numbers_are_in_range(fields: Seq<FieldModel>, loaded: IndexFields, i: int)
    requires
        loaded.loaded_from(fields),
        0 <= i < loaded.required().len(),
    ensures
        loaded.required()[i] < fields.len(),
{
    assert(position_of(fields, required_names()[i]) == Some(loaded.required()[i]));
    lemma_position_in_range(fields, required_names()[i]);
}

/// A field is found under its name.
proof fn lemma_position_found(fields: Seq<FieldModel>, at: int)
    requires
        0 <= at < fields.len(),
    ensures
        position_of(fields, fields[at].name) is Some,
    decreases fields.len(),
{
    if fields.last().name != fields[at].name {
        assert(fields.drop_last()[at] == fields[at]);
        lemma_position_found(fields.drop_last(), at);
    }
}

/// The required names and `source` are the names of the fields of this index.
proof fn lemma_required_are_current()
    ensures
        forall|i: int|
            0 <= i < required_names().len() ==> exists|k: int|
                0 <= k < current_fields().len() && current_fields()[k].name
                    == #[trigger] required_names()[i],
        current_fields()[6].name == "source"@,
        required_names().no_duplicates(),
        !required_names().contains("source"@),
{
    let all = current_fields();
    let wanted = required_names();
    assert forall|i: int| 0 <= i < wanted.len() implies exists|k: int|
        0 <= k < all.len() && all[k].name == #[trigger] wanted[i] by {
        let k = if i < 6 {
            i
        } else {
            i + 1
        };
        assert(all[k].name == wanted[i]);
    }
    lemma_names_differ();
    assert forall|i: int, j: int| 0 <= i < j < wanted.len() implies wanted[i] != wanted[j] by {
        let a = if i < 6 {
            i
        } else {
            i + 1
        };
        let b = if j < 6 {
            j
        } else {
            j + 1
        };
        assert(all[a].name == wanted[i] && all[b].name == wanted[j]);
    }
    assert forall|i: int| 0 <= i < wanted.len() implies wanted[i] != "source"@ by {
        let a = if i < 6 {
            i
        } else {
            i + 1
        };
        assert(all[a].name == wanted[i] && all[6].name == "source"@);
    }
}

/// A schema that is current misses nothing.
pub proof fn lemma_current_misses_nothing(fields: Seq<FieldModel>)
    requires
        has_current_fields(fields),
    ensures
        first_missing(fields, required_names()) is None,
{
    lemma_required_are_current();
    let wanted = required_names();
    assert forall|i: int| 0 <= i < wanted.len() implies position_of(
        fields,
        #[trigger] wanted[i],
    ) is Some by {
        let k = choose|k: int|
            0 <= k < current_fields().len() && current_fields()[k].name == wanted[i];
        assert(position_of(fields, current_fields()[k].name) is Some);
    }
    lemma_nothing_missing(fields, wanted);
}

/// The numbers of the fields of a schema that is current can be loaded, the source's among them,
/// and no two of them are the same.
pub proof fn law_current_schema_loads(fields: Seq<FieldModel>, loaded: IndexFields)
    requires
        has_current_fields(fields),
        fields.len() <= u32::MAX,
        loaded.loaded_from(fields),
    ensures
        first_missing(fields, required_names()) is None,
        loaded.source is Some,
        loaded.distinct(),
{
    lemma_required_are_current();
    let wanted = required_names();
    lemma_current_misses_nothing(fields);
    assert(position_of(fields, current_fields()[6].name) is Some);
    let numbers = loaded.required();
    assert forall|i: int, j: int| 0 <= i < j < numbers.len() implies numbers[i] != numbers[j] by {
        lemma_position_names(fields, wanted[i]);
        lemma_position_names(fields, wanted[j]);
        assert(wanted[i] != wanted[j]);
    }
    assert(!numbers.contains(loaded.source->0)) by {
        lemma_position_names(fields, "source"@);
        assert forall|i: int| 0 <= i < numbers.len() implies numbers[i] != loaded.source->0 by {
            lemma_position_names(fields, wanted[i]);
        }
    }
}

/// The schema that is built is current.
pub proof fn law_built_schema_is_current()
    ensures
        has_current_fields(current_fields()),
{
    assert forall|i: int| 0 <= i < current_fields().len() implies position_of(
        current_fields(),
        (#[trigger] current_fields()[i]).name,
    ) is Some by {
        lemma_position_found(current_fields(), i);
    }
}

/// The schema of a new index, and the numbers that its fields have.
pub fn new_layout() -> (r: (tantivy::schema::Schema, IndexFields))
    ensures
        schema_fields(r.0) == current_fields(),
        r.1.loaded_from(current_fields()),
        r.1.source is Some,
        r.1.distinct(),
        r.1.searchable_in(current_fields()),
{
    let built = build_schema();
    proof {
        law_built_schema_is_current();
        lemma_current_misses_nothing(current_fields());
    }
    let loaded = load_fields(&built);
    assert(loaded is Ok);
    let fields = loaded.unwrap();
    proof {
        law_current_schema_loads(current_fields(), fields);
    }
    (built, fields)
}

/// A schema that lacks a field of this index is not current.
pub proof fn law_stale_schema_is_not_current(fields: Seq<FieldModel>, k: int)
    requires
        0 <= k < current_fields().len(),
        forall|i: int| 0 <= i < fields.len() ==> (#[trigger] fields[i]).name
            != current_fields()[k].name,
        fields.len() <= u32::MAX,
    ensures
        !has_current_fields(fields),
{
    if has_current_fields(fields) {
        assert(position_of(fields, current_fields()[k].name) is Some);
        lemma_position_names(fields, current_fields()[k].name);
    }
}

/// A field is found by its name under a number at which the schema has a field of that name, and is
/// missing only where no field has that name.
pub proof fn law_fields_are_found_by_name(fields: Seq<FieldModel>, name: Seq<char>)
    requires
        fields.len() <= u32::MAX,
    ensures
        match position_of(fields, name) {
            Some(number) => number < fields.len() && fields[number as int].name == name,
            None => forall|i: int| 0 <= i < fields.len() ==> (#[trigger] fields[i]).name != name,
        },
{
    lemma_position_in_range(fields, name);
    if position_of(fields, name) is Some {
        lemma_position_names(fields, name);
    } else {
        assert forall|i: int| 0 <= i < fields.len() implies (#[trigger] fields[i]).name
            != name by {
            if fields[i].name == name {
                lemma_position_found(fields, i);
            }
        }
    }
}

/// The name that is reported as missing is the first one that is asked for and not there. Nothing
/// is reported only where everything that is asked for is there.
pub proof fn law_first_missing_field_is_reported(fields: Seq<FieldModel>, names: Seq<Seq<char>>)
    ensures
        match first_missing(fields, names) {
            Some(name) => exists|i: int|
                0 <= i < names.len() && #[trigger] names[i] == name && position_of(fields, name)
                    is None && forall|k: int|
                    0 <= k < i ==> position_of(fields, #[trigger] names[k]) is Some,
            None => forall|i: int|
                0 <= i < names.len() ==> position_of(fields, #[trigger] names[i]) is Some,
        },
    decreases names.len(),
{
    if names.len() > 0 {
        let less = names.drop_last();
        law_first_missing_field_is_reported(fields, less);
        assert(names[names.len() - 1] == names.last());
        match first_missing(fields, less) {
            Some(name) => {
                let i = choose|i: int|
                    0 <= i < less.len() && #[trigger] less[i] == name && position_of(fields, name)
                        is None && forall|k: int|
                        0 <= k < i ==> position_of(fields, #[trigger] less[k]) is Some;
                assert(names[i] == name);
                assert forall|k: int| 0 <= k < i implies position_of(
                    fields,
                    #[trigger] names[k],
                ) is Some by {
                    assert(less[k] == names[k]);
                }
            },
            None => {
                assert forall|k: int| 0 <= k < less.len() implies position_of(
                    fields,
                    #[trigger] names[k],
                ) is Some by {
                    assert(less[k] == names[k]);
                }
            },
        }
    }
}

/// Each number that was loaded from a schema is that of the field that it is named after.
pub proof fn law_fields_are_loaded_by_name(fields: Seq<FieldModel>, loaded: IndexFields)
    requires
        loaded.loaded_from(fields),
    ensures
        position_of(fields, "doc_id"@) == Some(loaded.doc_id),
        position_of(fields, "ts"@) == Some(loaded.ts),
        position_of(fields, "project"@) == Some(loaded.project),
        position_of(fields, "session_id"@) == Some(loaded.session_id),
        position_of(fields, "turn_id"@) == Some(loaded.turn_id),
        position_of(fields, "role"@) == Some(loaded.role),
        position_of(fields, "text"@) == Some(loaded.text),
        position_of(fields, "source"@) == loaded.source,
        position_of(fields, "tool_name"@) == Some(loaded.tool_name),
        position_of(fields, "tool_input"@) == Some(loaded.tool_input),
        position_of(fields, "tool_output"@) == Some(loaded.tool_output),
        position_of(fields, "event_id"@) == Some(loaded.event_id),
        position_of(fields, "parent_event_id"@) == Some(loaded.parent_event_id),
        position_of(fields, "logical_parent_event_id"@) == Some(loaded.logical_parent_event_id),
        position_of(fields, "parent_session_id"@) == Some(loaded.parent_session_id),
        position_of(fields, "thread_source"@) == Some(loaded.thread_source),
        position_of(fields, "conversation_kind"@) == Some(loaded.conversation_kind),
        position_of(fields, "parent_tool_use_id"@) == Some(loaded.parent_tool_use_id),
        position_of(fields, "source_tool_use_id"@) == Some(loaded.source_tool_use_id),
        position_of(fields, "source_tool_assistant_uuid"@) == Some(
            loaded.source_tool_assistant_uuid,
        ),
        position_of(fields, "source_path"@) == Some(loaded.source_path),
{
    let names = required_names();
    let numbers = loaded.required();
    assert forall|i: int| 0 <= i < 20 implies position_of(fields, #[trigger] names[i]) == Some(
        numbers[i],
    ) by {}
    assert(names[0] == "doc_id"@ && names[1] == "ts"@ && names[2] == "project"@);
    assert(names[3] == "session_id"@ && names[4] == "turn_id"@ && names[5] == "role"@);
    assert(names[6] == "text"@ && names[7] == "tool_name"@ && names[8] == "tool_input"@);
    assert(names[9] == "tool_output"@ && names[10] == "event_id"@);
    assert(names[11] == "parent_event_id"@ && names[12] == "logical_parent_event_id"@);
    assert(names[13] == "parent_session_id"@ && names[14] == "thread_source"@);
    assert(names[15] == "conversation_kind"@ && names[16] == "parent_tool_use_id"@);
    assert(names[17] == "source_tool_use_id"@ && names[18] == "source_tool_assistant_uuid"@);
    assert(names[19] == "source_path"@);
}

/// The index searches for words in the text, the input and the output of a tool; it keeps the id,
/// the time and the turn as numbers, and everything else as a whole.
pub proof fn law_fields_are_searched_by_kind(i: int)
    requires
        0 <= i < current_fields().len(),
    ensures
        ({
            let field = current_fields()[i];
            &&& field.kind is Words <==> field.name == "text"@ || field.name == "tool_input"@
                || field.name == "tool_output"@
            &&& field.kind is Number <==> field.name == "doc_id"@ || field.name == "ts"@
                || field.name == "turn_id"@
            &&& field.kind is Words || field.kind is Number || field.kind is Keyword
        }),
{
    lemma_names_differ();
    let fields = current_fields();
    assert(fields[0].name == "doc_id"@ && fields[1].name == "ts"@ && fields[4].name == "turn_id"@);
    assert(fields[7].name == "text"@ && fields[9].name == "tool_input"@ && fields[10].name
        == "tool_output"@);
}

} // verus!
