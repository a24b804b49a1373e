//! The calls into `lopdf`. Nothing in this file is proved: each contract
//! states what the named `lopdf` function does.

use vstd::prelude::*;
use crate::model::{Entry, Node, ObjectId, Operation, entries_of, entries_set};

verus! {

/// `lopdf::Object`, a PDF object. Its inside is not read here.
#[verifier::external_type_specification]
#[verifier::external_body]
pub struct ExObject(lopdf::Object);

/// `lopdf::Error`, with which encoding fails.
#[verifier::external_type_specification]
#[verifier::external_body]
pub struct ExPdfError(lopdf::Error);

/// `std::io::Error`, with which writing fails.
#[verifier::external_type_specification]
#[verifier::external_body]
pub struct ExIoError(std::io::Error);

/// The value that a `lopdf::Object` holds.
pub uninterp spec fn object_model(object: lopdf::Object) -> Node;

/// The bytes that `lopdf::content::Content::encode` gives for a list of
/// operations, or `None` where it fails.
pub uninterp spec fn encoded_content(operations: Seq<Operation>) -> Option<Seq<u8>>;

/// The bytes that `lopdf::Document::save_to` gives for a document of the
/// given version that holds `objects` under their ids, whose highest id is
/// `max_id` and whose trailer names `root` as its root; `None` where it
/// fails.
pub uninterp spec fn document_bytes(
    version: Seq<char>,
    objects: Seq<(ObjectId, Node)>,
    max_id: u32,
    root: ObjectId,
) -> Option<Seq<u8>>;

/// Whether `bytes` begin with the marker `%PDF-` and end with the marker
/// `%%EOF`.
pub open spec fn framed(bytes: Seq<u8>) -> bool {
    &&& bytes.len() >= 10
    &&& bytes.subrange(0, 5) == seq![0x25u8, 0x50u8, 0x44u8, 0x46u8, 0x2du8]
    &&& bytes.subrange(bytes.len() - 5, bytes.len() as int) == seq![
        0x25u8,
        0x25u8,
        0x45u8,
        0x4fu8,
        0x46u8,
    ]
}

/// The models of a list of objects, in order.
pub open spec fn object_models(objects: Seq<lopdf::Object>) -> Seq<Node> {
    Seq::new(objects.len(), |i: int| object_model(objects[i]))
}

/// The entries that a list of keyed objects stands for, in order.
pub open spec fn entry_models(pairs: Seq<(String, lopdf::Object)>) -> Seq<Entry> {
    Seq::new(pairs.len(), |i: int| (pairs[i].0@, object_model(pairs[i].1)))
}

/// `lopdf::Object::Integer`: the integer object of that value.
#[verifier::external_body]
pub(crate) fn integer_object(value: i64) -> (object: lopdf::Object)
    ensures
        object_model(object) == Node::Integer(value as int),
{
    lopdf::Object::Integer(value)
}

/// `lopdf::Object::from(&str)`: the name object whose bytes are those of
/// `name`.
#[verifier::external_body]
pub(crate) fn name_object(name: &str) -> (object: lopdf::Object)
    ensures
        object_model(object) == Node::Name(name@),
{
    lopdf::Object::from(name)
}

/// `lopdf::Object::string_literal`: the literal string object whose bytes
/// are those of `text`.
#[verifier::external_body]
pub(crate) fn text_object(text: &str) -> (object: lopdf::Object)
    ensures
        object_model(object) == Node::Text(text@),
{
    lopdf::Object::string_literal(text)
}

/// `lopdf::Object::Reference`: the reference to the object named by `id`.
#[verifier::external_body]
pub(crate) fn reference_object(id: ObjectId) -> (object: lopdf::Object)
    ensures
        object_model(object) == Node::Reference(id),
{
    lopdf::Object::Reference((id.number, id.generation))
}

/// `lopdf::Object::Array`: the array object that holds `items` in order.
#[verifier::external_body]
pub(crate) fn array_object(items: Vec<lopdf::Object>) -> (object: lopdf::Object)
    ensures
        object_model(object) == Node::Array(object_models(items@)),
{
    lopdf::Object::Array(items)
}

/// `lopdf::Dictionary::from_iter`, which sets each pair in turn: a key set
/// twice keeps its first place and its last value.
#[verifier::external_body]
pub(crate) fn dictionary_object(pairs: Vec<(String, lopdf::Object)>) -> (object: lopdf::Object)
    ensures
        object_model(object) == Node::Dictionary(entries_of(entry_models(pairs@))),
{
    lopdf::Object::Dictionary(pairs.into_iter().collect())
}

/// `lopdf::Stream::new` on the dictionary of `pairs`: it sets `Length` to
/// the number of bytes of `content` and keeps `content` as it is.
#[verifier::external_body]
pub(crate) fn stream_object(pairs: Vec<(String, lopdf::Object)>, content: Vec<u8>) -> (object:
    lopdf::Object)
    ensures
        object_model(object) == Node::Stream(
            entries_set(
                entries_of(entry_models(pairs@)),
                "Length"@,
                Node::Integer(content@.len() as int),
            ),
            content@,
        ),
{
    lopdf::Object::Stream(lopdf::Stream::new(pairs.into_iter().collect(), content))
}

/// The operations that a list of operators with their operands stands for.
pub open spec fn operation_models(pairs: Seq<(String, Vec<lopdf::Object>)>) -> Seq<Operation> {
    Seq::new(
        pairs.len(),
        |i: int| Operation { operator: pairs[i].0@, operands: object_models(pairs[i].1@) },
    )
}

/// The objects of a document with their ids, by their models.
pub open spec fn indirect_models(objects: Seq<(ObjectId, lopdf::Object)>) -> Seq<(ObjectId, Node)> {
    Seq::new(objects.len(), |i: int| (objects[i].0, object_model(objects[i].1)))
}

/// `lopdf::content::Content::encode` on the operations that
/// `lopdf::content::Operation::new` makes of each pair. The result depends
/// on the operations alone.
#[verifier::external_body]
pub(crate) fn encode_content(pairs: Vec<(String, Vec<lopdf::Object>)>) -> (result: Result<
    Vec<u8>,
    lopdf::Error,
>)
    ensures
        match result {
            Ok(bytes) => encoded_content(operation_models(pairs@)) == Some(bytes@),
            Err(_) => encoded_content(operation_models(pairs@)) is None,
        },
{
    let operations: Vec<lopdf::content::Operation> = pairs
        .into_iter()
        .map(|(operator, operands)| lopdf::content::Operation::new(&operator, operands))
        .collect();
    lopdf::content::Content { operations }.encode()
}

/// `lopdf::Document::save_to` on a document made by
/// `lopdf::Document::with_version`, with `objects` as its objects, `max_id`
/// as its highest id and `Root` set to a reference to `root` in its trailer.
/// The result depends on these four alone. What it writes begins with
/// `%PDF-` and the version, and ends with `%%EOF`.
#[verifier::external_body]
pub(crate) fn write_document(
    version: &str,
    objects: Vec<(ObjectId, lopdf::Object)>,
    max_id: u32,
    root: ObjectId,
) -> (result: Result<Vec<u8>, std::io::Error>)
    ensures
        match result {
            Ok(bytes) => document_bytes(version@, indirect_models(objects@), max_id, root) == Some(
                bytes@,
            ) && framed(bytes@),
            Err(_) => document_bytes(version@, indirect_models(objects@), max_id, root) is None,
        },
{
    let mut document = lopdf::Document::with_version(version);
    document.objects = objects.into_iter().map(|(id, o)| ((id.number, id.generation), o)).collect();
    document.max_id = max_id;
    document.trailer.set("Root", lopdf::Object::Reference((root.number, root.generation)));
    let mut bytes: Vec<u8> = Vec::new();
    document.save_to(&mut bytes).map(|_| bytes)
}

} // verus!
