//! What the message columns of a row say.

use crate::json;
use crate::json::Json;
use crate::sources::hermes::MessageRow;
use crate::sources::ParseDiagnostics;
use crate::text;
use vstd::prelude::*;

verus! {

broadcast use vstd::string::group_string_axioms;

/// Marks a content column that holds JSON.
pub const CONTENT_JSON_PREFIX: &'static str = "\0json:";

/// The text of a content block, where it is one that shows text.
pub open spec fn block_text(block: Json) -> Option<Seq<char>> {
    match json::text_field(block, "type"@) {
        Some(kind) => if kind == "text"@ || kind == "input_text"@ || kind == "output_text"@ {
            json::text_field(block, "text"@)
        } else {
            None
        },
        None => None,
    }
}

/// The texts of those of the blocks that show text.
pub open spec fn block_texts(blocks: Seq<Json>) -> Seq<Seq<char>>
    decreases blocks.len(),
{
    if blocks.len() == 0 {
        seq![]
    } else {
        let before = block_texts(blocks.drop_last());
        match block_text(blocks.last()) {
            Some(shown) => before.push(shown),
            None => before,
        }
    }
}

/// What a JSON content value says.
pub open spec fn value_text(value: Json) -> Seq<char> {
    match value {
        Json::List(blocks) => text::joined(block_texts(blocks@), "\n"@),
        Json::Text(shown) => shown@,
        Json::Null => seq![],
        other => json::rendered(other),
    }
}

/// What a content column says: plain text as it stands, and of marked JSON the text it shows.
/// What is marked but is no JSON is shown without the mark.
pub open spec fn content_shown(content: Option<Seq<char>>) -> Seq<char> {
    match content {
        None => seq![],
        Some(column) => if CONTENT_JSON_PREFIX@.is_prefix_of(column) {
            let encoded = column.skip(CONTENT_JSON_PREFIX@.len() as int);
            match json::json_of(encoded) {
                Some(value) => value_text(value),
                None => encoded,
            }
        } else {
            column
        },
    }
}

/// What a JSON content value says.
pub fn json_content(value: &Json) -> (r: String)
    ensures
        r@ == value_text(*value),
{
    match value {
        Json::List(blocks) => {
            let mut shown: Vec<String> = Vec::new();
            let mut i: usize = 0;
            assert(blocks@.take(0) =~= seq![]);
            assert(text::texts(shown@) =~= seq![]);
            while i < blocks.len()
                invariant
                    i <= blocks@.len(),
                    text::texts(shown@) == block_texts(blocks@.take(i as int)),
                decreases blocks@.len() - i,
            {
                let block = &blocks[i];
                proof {
                    assert(blocks@.take(i + 1).drop_last() =~= blocks@.take(i as int));
                }
                let ghost before = shown@;
                if let Some(kind) = block.text_at("type") {
                    if text::same(kind, "text") || text::same(kind, "input_text") || text::same(
                        kind,
                        "output_text",
                    ) {
                        if let Some(part) = block.text_at("text") {
                            shown.push(text::owned(part));
                            assert(text::texts(shown@) =~= text::texts(before).push(part@));
                        }
                    }
                }
                i += 1;
            }
            assert(blocks@.take(i as int) =~= blocks@);
            text::join(&shown, "\n")
        },
        Json::Text(shown) => shown.clone(),
        Json::Null => String::new(),
        other => other.render(),
    }
}

/// What a content column says.
pub fn content_text(content: Option<&str>) -> (r: String)
    ensures
        r@ == content_shown(text::opt_str(content)),
{
    let column = match content {
        Some(column) => column,
        None => {
            return String::new();
        },
    };
    match text::strip_prefix(column, CONTENT_JSON_PREFIX) {
        Some(encoded) => {
            assert(column@.skip(CONTENT_JSON_PREFIX@.len() as int) =~= encoded@);
            match json::parse(encoded) {
                Some(value) => json_content(&value),
                None => text::owned(encoded),
            }
        },
        None => text::owned(column),
    }
}

/// A JSON object that stands for reasoning which cannot be read.
pub open spec fn encrypted_value(value: Json) -> bool {
    ||| json::text_field(value, "type"@) == Some("redacted_thinking"@)
    ||| json::text_field(value, "type"@) == Some("encrypted_reasoning"@)
    ||| json::field(value, "encrypted_content"@) is Some
}

/// A text that stands for reasoning which cannot be read.
pub open spec fn encrypted(shown: Seq<char>) -> bool {
    match json::json_of(shown) {
        Some(value) => encrypted_value(value),
        None => false,
    }
}

/// Whether a JSON value stands for reasoning which cannot be read.
pub fn is_encrypted_value(value: &Json) -> (r: bool)
    ensures
        r == encrypted_value(*value),
{
    if let Some(kind) = value.text_at("type") {
        if text::same(kind, "redacted_thinking") || text::same(kind, "encrypted_reasoning") {
            return true;
        }
    }
    value.get("encrypted_content").is_some()
}

/// Whether a text stands for reasoning which cannot be read.
pub fn is_encrypted_reasoning(shown: &str) -> (r: bool)
    ensures
        r == encrypted(shown@),
{
    match json::parse(shown) {
        Some(value) => is_encrypted_value(&value),
        None => false,
    }
}

/// A column that is not blank, trimmed.
pub open spec fn filled(column: Option<Seq<char>>) -> Option<Seq<char>> {
    match column {
        Some(shown) => if text::blank(shown) {
            None
        } else {
            Some(text::trimmed(shown))
        },
        None => None,
    }
}

/// The reasoning that a row carries, readable or not.
pub open spec fn carried_reasoning(row: MessageRow) -> Option<Seq<char>> {
    match filled(text::opt_text(row.reasoning_content)) {
        Some(shown) => Some(shown),
        None => filled(text::opt_text(row.reasoning)),
    }
}

/// The reasoning that a row shows.
pub open spec fn shown_reasoning(row: MessageRow) -> Option<Seq<char>> {
    match carried_reasoning(row) {
        Some(shown) => if encrypted(shown) {
            None
        } else {
            Some(shown)
        },
        None => None,
    }
}

/// Whether a row carries reasoning that cannot be read.
pub open spec fn hides_reasoning(row: MessageRow) -> bool {
    carried_reasoning(row) matches Some(shown) && encrypted(shown)
}

/// A column that is not blank, trimmed.
fn filled_text(column: &Option<String>) -> (r: Option<&str>)
    ensures
        text::opt_str(r) == filled(text::opt_text(*column)),
{
    match column {
        Some(shown) => {
            let trimmed = text::trim(shown.as_str());
            if trimmed.is_empty() {
                None
            } else {
                Some(trimmed)
            }
        },
        None => None,
    }
}

/// The reasoning that a row shows. Reasoning that cannot be read is counted and dropped.
pub fn reasoning_text(row: &MessageRow, diagnostics: &mut ParseDiagnostics) -> (r: Option<String>)
    requires
        old(diagnostics).encrypted_reasoning_dropped < u64::MAX,
    ensures
        text::opt_text(r) == shown_reasoning(*row),
        *final(diagnostics) == (ParseDiagnostics {
            encrypted_reasoning_dropped: (old(diagnostics).encrypted_reasoning_dropped + if
            hides_reasoning(*row) {
                1int
            } else {
                0int
            }) as u64,
            ..*old(diagnostics)
        }),
{
    let carried = match filled_text(&row.reasoning_content) {
        Some(shown) => Some(shown),
        None => filled_text(&row.reasoning),
    };
    match carried {
        Some(shown) => {
            if is_encrypted_reasoning(shown) {
                diagnostics.encrypted_reasoning_dropped =
                diagnostics.encrypted_reasoning_dropped + 1;
                None
            } else {
                Some(text::owned(shown))
            }
        },
        None => None,
    }
}

/// A block shows the text in its field `text`, where that is a string and its field `type` says
/// that it is a text, an input text or an output text. Any other block shows nothing.
pub proof fn law_text_blocks_are_shown(block: Json)
    ensures
        ({
            let kind = json::text_field(block, "type"@);
            let is_text = kind == Some("text"@) || kind == Some("input_text"@) || kind == Some(
                "output_text"@,
            );
            &&& is_text ==> block_text(block) == json::text_field(block, "text"@)
            &&& !is_text ==> block_text(block) is None
        }),
{
}

/// What blocks show does not depend on the blocks around them, and comes in their order.
pub proof fn law_blocks_are_shown_in_order(blocks: Seq<Json>, more: Seq<Json>)
    ensures
        block_texts(blocks + more) == block_texts(blocks) + block_texts(more),
        more.len() == 1 ==> block_texts(more) == match block_text(more[0]) {
            Some(shown) => seq![shown],
            None => seq![],
        },
    decreases more.len(),
{
    if more.len() == 0 {
        assert(blocks + more =~= blocks);
    } else {
        assert((blocks + more).drop_last() =~= blocks + more.drop_last());
        law_blocks_are_shown_in_order(blocks, more.drop_last());
    }
    if more.len() == 1 {
        assert(more.drop_last() =~= seq![]);
        assert(block_texts(more.drop_last()) =~= seq![]);
    }
    assert(block_texts(blocks + more) =~= block_texts(blocks) + block_texts(more));
}

/// A JSON string says itself, a list what its blocks show, line by line, nothing says nothing, and
/// anything else says what it is written as.
pub proof fn law_values_say_what_they_hold(value: Json)
    ensures
        match value {
            Json::Text(shown) => value_text(value) == shown@,
            Json::List(blocks) => value_text(value) == text::joined(block_texts(blocks@), "\n"@),
            Json::Null => value_text(value).len() == 0,
            _ => value_text(value) == json::rendered(value),
        },
{
}

/// A list of one text block says that text.
pub proof fn law_one_block_is_shown_as_it_stands(blocks: Vec<Json>)
    requires
        blocks@.len() == 1,
        block_text(blocks@[0]) is Some,
    ensures
        Some(value_text(Json::List(blocks))) == block_text(blocks@[0]),
{
    law_blocks_are_shown_in_order(seq![], blocks@);
}

/// A column without the mark of JSON is shown as it stands.
pub proof fn law_plain_content_is_shown_as_it_stands(column: Seq<char>)
    requires
        !"\0json:"@.is_prefix_of(column),
    ensures
        content_shown(Some(column)) == column,
{
}

/// Of a column with the mark of JSON, what the JSON says is shown, and what is no JSON is shown as
/// it stands behind the mark. Where there is no column, nothing is shown.
pub proof fn law_marked_content_is_shown_as_json(encoded: Seq<char>)
    ensures
        content_shown(Some("\0json:"@ + encoded)) == match json::json_of(encoded) {
            Some(value) => value_text(value),
            None => encoded,
        },
        content_shown(None).len() == 0,
{
    let mark = "\0json:"@;
    let column = mark + encoded;
    assert(column.subrange(0, mark.len() as int) =~= mark);
    assert(column.skip(mark.len() as int) =~= encoded);
}

/// Reasoning cannot be read just where it is a JSON object of a redacted or encrypted kind, or one
/// with encrypted content.
pub proof fn law_encrypted_reasoning(shown: Seq<char>, value: Json)
    ensures
        encrypted(shown) ==> json::json_of(shown) is Some,
        json::json_of(shown) == Some(value) && json::field(value, "encrypted_content"@) is Some
            ==> encrypted(shown),
        json::json_of(shown) == Some(value) && json::text_field(value, "type"@) == Some(
            "redacted_thinking"@,
        ) ==> encrypted(shown),
        json::json_of(shown) == Some(value) && json::text_field(value, "type"@) == Some(
            "encrypted_reasoning"@,
        ) ==> encrypted(shown),
        json::json_of(shown) == Some(value) && encrypted(shown) ==> json::field(
            value,
            "encrypted_content"@,
        ) is Some || json::text_field(value, "type"@) == Some("redacted_thinking"@)
            || json::text_field(value, "type"@) == Some("encrypted_reasoning"@),
{
}

/// The reasoning of a row is that of the column for its content, or else of the column for
/// reasoning, without white space around it. It is shown where it can be read, and hidden where it
/// cannot; a row whose columns are blank has none to show or to hide.
pub proof fn law_reasoning_is_shown_or_hidden(row: MessageRow)
    ensures
        ({
            let first = row.reasoning_content is Some && !text::blank(row.reasoning_content->0@);
            let second = row.reasoning is Some && !text::blank(row.reasoning->0@);
            let told = if first {
                text::trimmed(row.reasoning_content->0@)
            } else {
                text::trimmed(row.reasoning->0@)
            };
            &&& !first && !second ==> shown_reasoning(row) is None && !hides_reasoning(row)
            &&& first || second ==> hides_reasoning(row) == encrypted(told)
            &&& (first || second) && !encrypted(told) ==> shown_reasoning(row) == Some(told)
            &&& (first || second) && encrypted(told) ==> shown_reasoning(row) is None
        }),
{
}

} // verus!
