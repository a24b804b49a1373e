//! The objects of a bill: the font, the resources, the pages, the page
//! tree and the catalog, each as a value and as the object made of it.

use vstd::prelude::*;
use vstd::string::StringExecFns;
use crate::backend::{
    array_object, dictionary_object, entry_models, integer_object, name_object, object_model,
    object_models, reference_object, stream_object,
};
use crate::image::{resource_name, resource_name_text};
use crate::layout::Layout;
use crate::model::{
    distinct_keys, lemma_entries_of_distinct, lemma_set_fresh, Entry, Node, ObjectId,
};

verus! {

/// The font that all text is set in: Courier, one of the standard fonts.
pub open spec fn font_node() -> Node {
    Node::Dictionary(
        seq![
            ("Type"@, Node::Name("Font"@)),
            ("Subtype"@, Node::Name("Type1"@)),
            ("BaseFont"@, Node::Name("Courier"@)),
        ],
    )
}

/// The resources that the pages share: the font, known as `F1`.
pub open spec fn resources_node(font: ObjectId) -> Node {
    Node::Dictionary(seq![("Font"@, Node::Dictionary(seq![("F1"@, Node::Reference(font))]))])
}

/// A content stream of the given bytes.
pub open spec fn content_node(bytes: Seq<u8>) -> Node {
    Node::Stream(seq![("Length"@, Node::Integer(bytes.len() as int))], bytes)
}

/// A page below `tree` that draws `content` and knows `image` by its
/// resource name.
pub open spec fn page_node(tree: ObjectId, content: ObjectId, image: ObjectId) -> Node {
    Node::Dictionary(
        seq![
            ("Type"@, Node::Name("Page"@)),
            ("Parent"@, Node::Reference(tree)),
            ("Contents"@, Node::Reference(content)),
            (
                "Resources"@,
                Node::Dictionary(
                    seq![
                        (
                            "XObject"@,
                            Node::Dictionary(seq![(resource_name(image), Node::Reference(image))]),
                        ),
                    ],
                ),
            ),
        ],
    )
}

/// References to the given objects, in order.
pub open spec fn references(ids: Seq<ObjectId>) -> Seq<Node> {
    Seq::new(ids.len(), |i: int| Node::Reference(ids[i]))
}

/// The page tree: its pages in order, their number, the shared resources
/// and the size of every page.
pub open spec fn tree_node(kids: Seq<ObjectId>, resources: ObjectId, layout: Layout) -> Node {
    Node::Dictionary(
        seq![
            ("Type"@, Node::Name("Pages"@)),
            ("Kids"@, Node::Array(references(kids))),
            ("Count"@, Node::Integer(kids.len() as int)),
            ("Resources"@, Node::Reference(resources)),
            (
                "MediaBox"@,
                Node::Array(
                    seq![
                        Node::Integer(0),
                        Node::Integer(0),
                        Node::Integer(layout.page_width as int),
                        Node::Integer(layout.page_height as int),
                    ],
                ),
            ),
        ],
    )
}

/// The catalog, the root of the document, which names the page tree.
pub open spec fn catalog_node(tree: ObjectId) -> Node {
    Node::Dictionary(seq![("Type"@, Node::Name("Catalog"@)), ("Pages"@, Node::Reference(tree))])
}

/// A dictionary entry under `key`.
fn entry(key: &str, object: lopdf::Object) -> (pair: (String, lopdf::Object))
    ensures
        pair.0@ == key@,
        pair.1 == object,
{
    (String::from_str(key), object)
}

/// The dictionary object of pairs whose keys differ from one another.
fn dictionary(pairs: Vec<(String, lopdf::Object)>) -> (object: lopdf::Object)
    requires
        distinct_keys(entry_models(pairs@)),
    ensures
        object_model(object) == Node::Dictionary(entry_models(pairs@)),
{
    proof {
        lemma_entries_of_distinct(entry_models(pairs@));
    }
    dictionary_object(pairs)
}

/// Makes the font object.
pub fn font_object() -> (object: lopdf::Object)
    ensures
        object_model(object) == font_node(),
{
    let mut pairs: Vec<(String, lopdf::Object)> = Vec::new();
    pairs.push(entry("Type", name_object("Font")));
    pairs.push(entry("Subtype", name_object("Type1")));
    pairs.push(entry("BaseFont", name_object("Courier")));
    proof {
        reveal_strlit("Type");
        reveal_strlit("Subtype");
        reveal_strlit("BaseFont");
        let keys = entry_models(pairs@);
        assert(keys[0].0.len() == 4 && keys[1].0.len() == 7 && keys[2].0.len() == 8);
        assert(keys =~= font_node()->Dictionary_0);
    }
    dictionary(pairs)
}

/// Makes the object of the shared resources.
pub fn resources_object(font: ObjectId) -> (object: lopdf::Object)
    ensures
        object_model(object) == resources_node(font),
{
    let mut fonts: Vec<(String, lopdf::Object)> = Vec::new();
    fonts.push(entry("F1", reference_object(font)));
    assert(entry_models(fonts@) =~= seq![("F1"@, Node::Reference(font))]);
    let fonts = dictionary(fonts);
    let mut pairs: Vec<(String, lopdf::Object)> = Vec::new();
    pairs.push(entry("Font", fonts));
    assert(entry_models(pairs@) =~= resources_node(font)->Dictionary_0);
    dictionary(pairs)
}

/// Makes the content stream object of the given bytes.
pub fn content_object(bytes: Vec<u8>) -> (object: lopdf::Object)
    ensures
        object_model(object) == content_node(bytes@),
{
    let pairs: Vec<(String, lopdf::Object)> = Vec::new();
    proof {
        let none = Seq::<Entry>::empty();
        assert(entry_models(pairs@) =~= none);
        lemma_entries_of_distinct(none);
        lemma_set_fresh(none, "Length"@, Node::Integer(bytes@.len() as int));
        assert(none.push(("Length"@, Node::Integer(bytes@.len() as int)))
            =~= content_node(bytes@)->Stream_0);
    }
    stream_object(pairs, bytes)
}

/// The four keys of a page differ from one another.
pub proof fn lemma_page_keys(tree: ObjectId, content: ObjectId, image: ObjectId)
    ensures
        distinct_keys(page_node(tree, content, image)->Dictionary_0),
{
    reveal_strlit("Type");
    reveal_strlit("Parent");
    reveal_strlit("Contents");
    reveal_strlit("Resources");
    let keys = page_node(tree, content, image)->Dictionary_0;
    assert(keys[0].0.len() == 4 && keys[1].0.len() == 6 && keys[2].0.len() == 8);
    assert(keys[3].0.len() == 9);
}

/// Makes the object of a page.
pub fn page_object(tree: ObjectId, content: ObjectId, image: ObjectId) -> (object: lopdf::Object)
    ensures
        object_model(object) == page_node(tree, content, image),
{
    let name = resource_name_text(image);
    let mut images: Vec<(String, lopdf::Object)> = Vec::new();
    images.push(entry(name.as_str(), reference_object(image)));
    assert(entry_models(images@) =~= seq![(resource_name(image), Node::Reference(image))]);
    let images = dictionary(images);
    let mut resources: Vec<(String, lopdf::Object)> = Vec::new();
    resources.push(entry("XObject", images));
    assert(entry_models(resources@) =~= seq![("XObject"@, object_model(images))]);
    let resources = dictionary(resources);
    let mut pairs: Vec<(String, lopdf::Object)> = Vec::new();
    pairs.push(entry("Type", name_object("Page")));
    pairs.push(entry("Parent", reference_object(tree)));
    pairs.push(entry("Contents", reference_object(content)));
    pairs.push(entry("Resources", resources));
    proof {
        lemma_page_keys(tree, content, image);
        assert(entry_models(pairs@) =~= page_node(tree, content, image)->Dictionary_0);
    }
    dictionary(pairs)
}

/// The five keys of a page tree differ from one another.
pub proof fn lemma_tree_keys(kids: Seq<ObjectId>, resources: ObjectId, layout: Layout)
    ensures
        distinct_keys(tree_node(kids, resources, layout)->Dictionary_0),
{
    reveal_strlit("Type");
    reveal_strlit("Kids");
    reveal_strlit("Count");
    reveal_strlit("Resources");
    reveal_strlit("MediaBox");
    let keys = tree_node(kids, resources, layout)->Dictionary_0;
    assert(keys[0].0.len() == 4 && keys[1].0.len() == 4 && keys[2].0.len() == 5);
    assert(keys[3].0.len() == 9 && keys[4].0.len() == 8);
    assert(keys[0].0[0] == 'T' && keys[1].0[0] == 'K');
}

/// Makes the object of the page tree.
pub fn tree_object(kids: &Vec<ObjectId>, resources: ObjectId, layout: &Layout) -> (object:
    lopdf::Object)
    requires
        kids.len() <= u32::MAX,
    ensures
        object_model(object) == tree_node(kids@, resources, *layout),
{
    let mut items: Vec<lopdf::Object> = Vec::new();
    let mut i: usize = 0;
    while i < kids.len()
        invariant
            i <= kids.len(),
            items@.len() == i,
            forall|j: int|
                0 <= j < i ==> object_model(#[trigger] items@[j]) == Node::Reference(kids@[j]),
        decreases kids.len() - i,
    {
        items.push(reference_object(kids[i]));
        i += 1;
    }
    assert(object_models(items@) =~= references(kids@));
    let mut corners: Vec<lopdf::Object> = Vec::new();
    corners.push(integer_object(0));
    corners.push(integer_object(0));
    corners.push(integer_object(layout.page_width as i64));
    corners.push(integer_object(layout.page_height as i64));
    assert(object_models(corners@) =~= seq![
        Node::Integer(0),
        Node::Integer(0),
        Node::Integer(layout.page_width as int),
        Node::Integer(layout.page_height as int),
    ]);
    let mut pairs: Vec<(String, lopdf::Object)> = Vec::new();
    pairs.push(entry("Type", name_object("Pages")));
    pairs.push(entry("Kids", array_object(items)));
    pairs.push(entry("Count", integer_object(kids.len() as i64)));
    pairs.push(entry("Resources", reference_object(resources)));
    pairs.push(entry("MediaBox", array_object(corners)));
    proof {
        lemma_tree_keys(kids@, resources, *layout);
        assert(entry_models(pairs@) =~= tree_node(kids@, resources, *layout)->Dictionary_0);
    }
    dictionary(pairs)
}

/// Makes the catalog object.
pub fn catalog_object(tree: ObjectId) -> (object: lopdf::Object)
    ensures
        object_model(object) == catalog_node(tree),
{
    let mut pairs: Vec<(String, lopdf::Object)> = Vec::new();
    pairs.push(entry("Type", name_object("Catalog")));
    pairs.push(entry("Pages", reference_object(tree)));
    proof {
        reveal_strlit("Type");
        reveal_strlit("Pages");
        let keys = entry_models(pairs@);
        assert(keys[0].0.len() == 4 && keys[1].0.len() == 5);
        assert(keys =~= catalog_node(tree)->Dictionary_0);
    }
    dictionary(pairs)
}

} // verus!
