//! Images: the object that carries one, the name under which a page knows
//! it, and the operations that place it.

use vstd::prelude::*;
use vstd::string::StringExecFns;
use crate::backend::{entry_models, integer_object, name_object, object_model, stream_object};
use crate::content::{bare, ContentStreamBuilder, Operand};
use crate::layout::{Layout, IMAGE_X, IMAGE_Y};
use crate::model::{
    distinct_keys, lemma_entries_of_distinct, lemma_set_fresh, Node, ObjectId, Operation,
};
use crate::text::{decimal, decimal_text};

verus! {

/// The name under which a page knows the image stored under `id`: the
/// letter `X` and the object number.
pub open spec fn resource_name(id: ObjectId) -> Seq<char> {
    seq!['X'] + decimal(id.number as nat)
}

/// Writes the resource name of the image stored under `id`.
pub fn resource_name_text(id: ObjectId) -> (name: String)
    ensures
        name@ == resource_name(id),
{
    proof {
        reveal_strlit("X");
    }
    let mut name = String::from_str("X");
    let number = decimal_text(id.number as u64);
    name.append(number.as_str());
    assert(name@ =~= resource_name(id));
    name
}

/// The image object of a page: a stream of JPEG data in RGB with eight bits
/// per component, of the pixel size that the layout gives.
pub open spec fn image_node(layout: Layout, payload: Seq<u8>) -> Node {
    Node::Stream(
        seq![
            ("Type"@, Node::Name("XObject"@)),
            ("Subtype"@, Node::Name("Image"@)),
            ("Width"@, Node::Integer(layout.image_width as int)),
            ("Height"@, Node::Integer(layout.image_height as int)),
            ("ColorSpace"@, Node::Name("DeviceRGB"@)),
            ("BitsPerComponent"@, Node::Integer(8)),
            ("Filter"@, Node::Name("DCTDecode"@)),
            ("Length"@, Node::Integer(payload.len() as int)),
        ],
        payload,
    )
}

/// The four operations that place the image known as `name`: save the
/// graphics state, set the transform, draw the image, restore the state.
pub open spec fn placement(name: Seq<char>, layout: Layout) -> Seq<Operation> {
    seq![
        bare("q"@),
        Operation {
            operator: "cm"@,
            operands: seq![
                Node::Integer(layout.scale_x()),
                Node::Integer(0),
                Node::Integer(0),
                Node::Integer(layout.scale_y()),
                Node::Integer(IMAGE_X as int),
                Node::Integer(IMAGE_Y as int),
            ],
        },
        Operation { operator: "Do"@, operands: seq![Node::Name(name)] },
        bare("Q"@),
    ]
}

/// The eight keys of an image dictionary differ from one another.
pub proof fn lemma_image_keys(layout: Layout, payload: Seq<u8>)
    ensures
        distinct_keys(image_node(layout, payload)->Stream_0),
{
    reveal_strlit("Type");
    reveal_strlit("Subtype");
    reveal_strlit("Width");
    reveal_strlit("Height");
    reveal_strlit("ColorSpace");
    reveal_strlit("BitsPerComponent");
    reveal_strlit("Filter");
    reveal_strlit("Length");
    let keys = image_node(layout, payload)->Stream_0;
    assert(keys[0].0.len() == 4 && keys[1].0.len() == 7 && keys[2].0.len() == 5);
    assert(keys[3].0.len() == 6 && keys[4].0.len() == 10 && keys[5].0.len() == 16);
    assert(keys[6].0.len() == 6 && keys[7].0.len() == 6);
    assert(keys[3].0[0] == 'H' && keys[6].0[0] == 'F' && keys[7].0[0] == 'L');
}

/// Makes the image object that carries `payload`.
pub fn image_object(layout: &Layout, payload: Vec<u8>) -> (object: lopdf::Object)
    ensures
        object_model(object) == image_node(*layout, payload@),
{
    let mut pairs: Vec<(String, lopdf::Object)> = Vec::new();
    pairs.push((String::from_str("Type"), name_object("XObject")));
    pairs.push((String::from_str("Subtype"), name_object("Image")));
    pairs.push((String::from_str("Width"), integer_object(layout.image_width as i64)));
    pairs.push((String::from_str("Height"), integer_object(layout.image_height as i64)));
    pairs.push((String::from_str("ColorSpace"), name_object("DeviceRGB")));
    pairs.push((String::from_str("BitsPerComponent"), integer_object(8)));
    pairs.push((String::from_str("Filter"), name_object("DCTDecode")));
    proof {
        let whole = image_node(*layout, payload@)->Stream_0;
        let head = whole.drop_last();
        lemma_image_keys(*layout, payload@);
        assert(entry_models(pairs@) =~= head);
        assert(distinct_keys(head)) by {
            assert forall|i: int, j: int| 0 <= i < j < head.len() implies head[i].0
                != head[j].0 by {
                assert(head[i] == whole[i] && head[j] == whole[j]);
            }
        }
        lemma_entries_of_distinct(head);
        assert forall|i: int| 0 <= i < head.len() implies (#[trigger] head[i]).0 != "Length"@ by {
            assert(head[i] == whole[i] && whole[7].0 == "Length"@);
        }
        lemma_set_fresh(head, "Length"@, Node::Integer(payload@.len() as int));
        assert(head.push(("Length"@, Node::Integer(payload@.len() as int))) =~= whole);
    }
    stream_object(pairs, payload)
}

/// Appends the four operations that place the image known as `name`.
pub fn place_image(builder: &mut ContentStreamBuilder, name: &str, layout: &Layout)
    requires
        layout.wf(),
    ensures
        final(builder)@ == old(builder)@ + placement(name@, *layout),
{
    let scale_x: i64 = IMAGE_X + (layout.image_width / layout.image_divisor) as i64;
    let scale_y: i64 = IMAGE_Y + (layout.image_height / layout.image_divisor) as i64;
    builder.push("q", Vec::new());
    let mut transform: Vec<Operand> = Vec::new();
    transform.push(Operand::Integer(scale_x));
    transform.push(Operand::Integer(0));
    transform.push(Operand::Integer(0));
    transform.push(Operand::Integer(scale_y));
    transform.push(Operand::Integer(IMAGE_X));
    transform.push(Operand::Integer(IMAGE_Y));
    builder.push("cm", transform);
    let mut draw: Vec<Operand> = Vec::new();
    draw.push(Operand::Name(String::from_str(name)));
    builder.push("Do", draw);
    builder.push("Q", Vec::new());
    proof {
        let block = placement(name@, *layout);
        let now = builder@;
        let n = old(builder)@.len() as int;
        assert(now.len() == n + 4);
        assert(now[n].operands =~= block[0].operands);
        assert(now[n + 1].operands =~= block[1].operands);
        assert(now[n + 2].operands =~= block[2].operands);
        assert(now[n + 3].operands =~= block[3].operands);
        assert(now =~= old(builder)@ + block);
    }
}

} // verus!
