//! JSON documents: a document as the values that its pointers lead to, and values read one after
//! the other.

use vstd::prelude::*;

verus! {

// ---------------------------------------------------------------------------
// Whole documents
// ---------------------------------------------------------------------------

/// `serde_json::Value`, of which nothing is visible but through [`json_nodes`].
#[verifier::external_type_specification]
#[verifier::external_body]
pub struct ExValue(serde_json::Value);

/// What a JSON pointer leads to.
#[derive(Debug)]
pub enum JsonNode {
    Null,
    Bool,
    Number,
    Text(String),
    Array,
    Object,
}

/// [`JsonNode`], with the text as a sequence of characters.
pub enum JsonNodeView {
    Null,
    Bool,
    Number,
    Text(Seq<char>),
    Array,
    Object,
}

impl View for JsonNode {
    type V = JsonNodeView;

    open spec fn view(&self) -> JsonNodeView {
        match self {
            JsonNode::Null => JsonNodeView::Null,
            JsonNode::Bool => JsonNodeView::Bool,
            JsonNode::Number => JsonNodeView::Number,
            JsonNode::Text(text) => JsonNodeView::Text(text@),
            JsonNode::Array => JsonNodeView::Array,
            JsonNode::Object => JsonNodeView::Object,
        }
    }
}

/// What a JSON value holds: for each JSON pointer that leads somewhere in it, what it leads to.
pub uninterp spec fn json_nodes(value: serde_json::Value) -> Map<Seq<char>, JsonNodeView>;

/// What the JSON value holds that bytes spell, where they spell one.
pub uninterp spec fn json_document(bytes: Seq<u8>) -> Option<Map<Seq<char>, JsonNodeView>>;

/// Calls `serde_json::from_slice` for a `serde_json::Value`. Whether the bytes spell a value, and
/// which, depends on the bytes alone.
#[verifier::external_body]
pub(crate) fn parse_document(bytes: &[u8]) -> (value: Option<serde_json::Value>)
    ensures
        value is Some == json_document(bytes@) is Some,
        value is Some ==> json_nodes(value->0) == json_document(bytes@)->0,
{
    serde_json::from_slice(bytes).ok()
}

/// Calls `pointer` of `serde_json::Value` and tells which kind of value it leads to.
#[verifier::external_body]
pub(crate) fn node(value: &serde_json::Value, pointer: &str) -> (node: Option<JsonNode>)
    ensures
        node is Some == json_nodes(*value).contains_key(pointer@),
        node is Some ==> node->0@ == json_nodes(*value)[pointer@],
{
    value.pointer(pointer).map(
        |value|
            match value {
                serde_json::Value::Null => JsonNode::Null,
                serde_json::Value::Bool(_) => JsonNode::Bool,
                serde_json::Value::Number(_) => JsonNode::Number,
                serde_json::Value::String(text) => JsonNode::Text(text.clone()),
                serde_json::Value::Array(_) => JsonNode::Array,
                serde_json::Value::Object(_) => JsonNode::Object,
            },
    )
}

/// The text that a pointer leads to, where it leads to a text.
pub open spec fn text_at(nodes: Map<Seq<char>, JsonNodeView>, pointer: Seq<char>) -> Option<
    Seq<char>,
> {
    if nodes.contains_key(pointer) {
        match nodes[pointer] {
            JsonNodeView::Text(text) => Some(text),
            _ => None,
        }
    } else {
        None
    }
}

/// Reads the text that a pointer leads to.
pub(crate) fn text_of(value: &serde_json::Value, pointer: &str) -> (text: Option<String>)
    ensures
        crate::text::view_of_text(text) == text_at(json_nodes(*value), pointer@),
{
    match node(value, pointer) {
        Some(JsonNode::Text(text)) => Some(text),
        _ => None,
    }
}

// ---------------------------------------------------------------------------
// Values one after the other
// ---------------------------------------------------------------------------

/// The text that bytes begin with, and the number of bytes up to its end.
pub uninterp spec fn json_text(bytes: Seq<u8>) -> Option<(Seq<char>, nat)>;

/// Calls `next` and `byte_offset` of `serde_json::StreamDeserializer` for a `String`: the text that
/// the bytes begin with, behind white space. What is read ends within the bytes.
#[verifier::external_body]
pub(crate) fn read_text(bytes: &[u8]) -> (read: Option<(String, usize)>)
    ensures
        read is Some == json_text(bytes@) is Some,
        read is Some ==> json_text(bytes@)->0 == ((read->0).0@, (read->0).1 as nat),
        read is Some ==> 0 < (read->0).1 <= bytes@.len(),
{
    let mut stream = serde_json::Deserializer::from_slice(bytes).into_iter::<String>();
    let text = stream.next()?.ok()?;
    Some((text, stream.byte_offset()))
}

/// The text or the null that bytes begin with, and the number of bytes up to its end.
pub uninterp spec fn json_optional_text(bytes: Seq<u8>) -> Option<(Option<Seq<char>>, nat)>;

/// Calls `next` and `byte_offset` of `serde_json::StreamDeserializer` for an `Option<String>`: the
/// text that the bytes begin with, behind white space, or none for a null. What is read ends within
/// the bytes.
#[verifier::external_body]
pub(crate) fn read_optional_text(bytes: &[u8]) -> (read: Option<(Option<String>, usize)>)
    ensures
        read is Some == json_optional_text(bytes@) is Some,
        read is Some ==> json_optional_text(bytes@)->0 == (
            crate::text::view_of_text((read->0).0),
            (read->0).1 as nat,
        ),
        read is Some ==> 0 < (read->0).1 <= bytes@.len(),
{
    let mut stream = serde_json::Deserializer::from_slice(bytes).into_iter::<Option<String>>();
    let text = stream.next()?.ok()?;
    Some((text, stream.byte_offset()))
}

/// The integer that bytes begin with, and the number of bytes up to its end.
pub uninterp spec fn json_integer(bytes: Seq<u8>) -> Option<(i64, nat)>;

/// Calls `next` and `byte_offset` of `serde_json::StreamDeserializer` for an `i64`: the integer
/// that the bytes begin with, behind white space. What is read ends within the bytes.
#[verifier::external_body]
pub(crate) fn read_integer(bytes: &[u8]) -> (read: Option<(i64, usize)>)
    ensures
        read is Some == json_integer(bytes@) is Some,
        read is Some ==> json_integer(bytes@)->0 == ((read->0).0, (read->0).1 as nat),
        read is Some ==> 0 < (read->0).1 <= bytes@.len(),
{
    let mut stream = serde_json::Deserializer::from_slice(bytes).into_iter::<i64>();
    let integer = stream.next()?.ok()?;
    Some((integer, stream.byte_offset()))
}

/// The number of bytes up to the end of the value that bytes begin with.
pub uninterp spec fn json_value(bytes: Seq<u8>) -> Option<nat>;

/// Calls `next` and `byte_offset` of `serde_json::StreamDeserializer` for a
/// `serde::de::IgnoredAny`: where the value ends that the bytes begin with, behind white space.
/// It ends within the bytes.
#[verifier::external_body]
pub(crate) fn skip_value(bytes: &[u8]) -> (end: Option<usize>)
    ensures
        end is Some == json_value(bytes@) is Some,
        end is Some ==> json_value(bytes@)->0 == end->0 as nat,
        end is Some ==> 0 < end->0 <= bytes@.len(),
{
    let mut stream =
        serde_json::Deserializer::from_slice(bytes).into_iter::<serde::de::IgnoredAny>();
    let _ = stream.next()?.ok()?;
    Some(stream.byte_offset())
}

/// Whether a byte is white space between the tokens of a document.
pub open spec fn is_json_white(byte: u8) -> bool {
    byte == 0x20 || byte == 0x09 || byte == 0x0a || byte == 0x0d
}

/// What is left of bytes behind the white space that they begin with.
pub open spec fn after_white(bytes: Seq<u8>) -> Seq<u8>
    decreases bytes.len(),
{
    if bytes.len() > 0 && is_json_white(bytes[0]) {
        after_white(bytes.skip(1))
    } else {
        bytes
    }
}

/// What is left of bytes behind the first so many.
pub(crate) fn behind(bytes: &[u8], count: usize) -> (rest: &[u8])
    requires
        count <= bytes@.len(),
    ensures
        rest@ == bytes@.skip(count as int),
{
    let rest = vstd::slice::slice_subrange(bytes, count, bytes.len());
    assert(rest@ =~= bytes@.skip(count as int));
    rest
}

/// Passes over white space.
pub(crate) fn pass_white(bytes: &[u8]) -> (rest: &[u8])
    ensures
        rest@ == after_white(bytes@),
        rest@.len() <= bytes@.len(),
{
    let mut rest: &[u8] = bytes;
    while rest.len() > 0 && (rest[0] == 0x20 || rest[0] == 0x09 || rest[0] == 0x0a || rest[0]
        == 0x0d)
        invariant
            rest@.len() <= bytes@.len(),
            after_white(rest@) == after_white(bytes@),
        decreases rest@.len(),
    {
        rest = behind(rest, 1);
    }
    rest
}

} // verus!
