//! What holds of every bill: how many pages it has, what each page draws
//! and names, and how the page tree lists the pages.

use vstd::prelude::*;
use crate::assemble::{
    body_slot, content_id, document, font_id, image_id, page_id, page_ids, resources_id, tree_id,
    written,
};
use crate::bill::{bill, is_bill, page_contents};
use crate::content::{
    header, item_lines, lemma_item_lines, lemma_item_lines_len, rule_text, text_block,
};
use crate::error::BuildError;
use crate::image::{image_node, placement, resource_name};
use crate::layout::{Layout, CAPTION_Y, RULE_Y, TEXT_X, TITLE_Y};
use crate::model::{lemma_lookup_distinct, lookup, Node, ObjectId, Operation};
use crate::objects::{content_node, lemma_tree_keys, page_node, references, tree_node};
use crate::paginate::{chunk_len, chunk_start, page_count, page_program};
use crate::store::holds;
use crate::text::{decimal, item_text, lemma_decimal_injective, Price};

verus! {

/// The number of pages is the least that holds all items, and at least
/// one: with no item there is one page, and otherwise the pages hold the
/// items while one page fewer would not.
pub proof fn law_page_count(items: nat, capacity: nat)
    requires
        capacity > 0,
    ensures
        page_count(items, capacity) >= 1,
        page_count(items, capacity) * capacity >= items,
        items == 0 ==> page_count(items, capacity) == 1,
        items > 0 ==> (page_count(items, capacity) - 1) * capacity < items,
{
    if items > 0 {
        let last = (items - 1) / capacity as int;
        assert(last * capacity <= items - 1 < (last + 1) * capacity) by (nonlinear_arith)
            requires
                last == (items - 1) / capacity as int,
                capacity > 0,
                items >= 1,
        ;
    } else {
        assert(1 * capacity >= 0) by (nonlinear_arith)
            requires
                capacity > 0,
        ;
    }
}

/// A bill that is built is the written document of as many pages as the
/// items take: its page tree counts that many pages and lists that many
/// kids.
pub proof fn law_bill_pages(
    subject: Seq<char>,
    labels: Seq<Seq<char>>,
    prices: Seq<Price>,
    images: Seq<Seq<u8>>,
    layout: Layout,
)
    requires
        bill(subject, labels, prices, images, layout) is Ok,
    ensures
        ({
            let pages = page_count(labels.len(), layout.capacity as nat);
            let contents = page_contents(subject, labels, prices, pages, layout);
            let objects = document(images, contents, layout);
            &&& images.len() == pages
            &&& written(objects) == Some(bill(subject, labels, prices, images, layout)->Ok_0)
            &&& objects[0] matches Some(Node::Dictionary(entries)) && lookup(entries, "Count"@)
                == Some(Node::Integer(pages as int)) && lookup(entries, "Kids"@) == Some(
                Node::Array(references(page_ids(pages))),
            ) && references(page_ids(pages)).len() == pages
        }),
{
    let pages = page_count(labels.len(), layout.capacity as nat);
    let contents = page_contents(subject, labels, prices, pages, layout);
    let tree = tree_node(page_ids(pages), resources_id(), layout);
    lemma_tree_keys(page_ids(pages), resources_id(), layout);
    lemma_lookup_distinct(tree->Dictionary_0, 1);
    lemma_lookup_distinct(tree->Dictionary_0, 2);
}

/// Two builds from the same inputs give the same bytes, or fail alike.
pub proof fn law_same_inputs_same_output(
    first: Result<Vec<u8>, BuildError>,
    second: Result<Vec<u8>, BuildError>,
    subject: Seq<char>,
    labels: Seq<Seq<char>>,
    prices: Seq<Price>,
    images: Seq<Seq<u8>>,
    layout: Layout,
)
    requires
        is_bill(first, subject, labels, prices, images, layout),
        is_bill(second, subject, labels, prices, images, layout),
    ensures
        match (first, second) {
            (Ok(a), Ok(b)) => a@ == b@,
            (Err(a), Err(b)) => a == b,
            _ => false,
        },
{
}

/// With no item there is one page, and it draws the head and the image
/// and no item line.
pub proof fn law_no_items(subject: Seq<char>, image: ObjectId, layout: Layout)
    requires
        layout.wf(),
    ensures
        page_count(0, layout.capacity as nat) == 1,
        page_program(subject, Seq::empty(), Seq::empty(), 0, image, layout) == header(
            subject,
            layout,
        ) + placement(resource_name(image), layout),
{
    let lines = item_lines(
        Seq::<Seq<char>>::empty(),
        Seq::<Price>::empty(),
        chunk_start(0, layout.capacity as nat) as int,
        chunk_len(0, 0, layout.capacity as nat),
        layout,
    );
    assert(0 * layout.capacity as nat == 0) by (nonlinear_arith);
    assert((0 + 1) * layout.capacity as nat > 0) by (nonlinear_arith)
        requires
            layout.capacity > 0,
    ;
    assert(lines =~= Seq::<Operation>::empty());
    assert(header(subject, layout) + placement(resource_name(image), layout) + lines =~= header(
        subject,
        layout,
    ) + placement(resource_name(image), layout));
}

/// Items that fill their pages leave no short page behind: every page is
/// full.
pub proof fn law_full_pages(full: nat, capacity: nat, page: nat)
    requires
        capacity > 0,
        full > 0,
        page < full,
    ensures
        page_count(full * capacity, capacity) == full,
        chunk_len(full * capacity, page, capacity) == capacity,
{
    let items = full * capacity;
    assert(items >= capacity) by (nonlinear_arith)
        requires
            items == full * capacity,
            full >= 1,
            capacity > 0,
    ;
    assert((items - 1) / capacity as int == full - 1) by (nonlinear_arith)
        requires
            items == full * capacity,
            full >= 1,
            capacity > 0,
    ;
    assert((page + 1) * capacity <= items) by (nonlinear_arith)
        requires
            items == full * capacity,
            page + 1 <= full,
            capacity > 0,
    ;
}

/// One item more than a page holds gives two pages: a full one, and one
/// with the one item.
pub proof fn law_one_over(capacity: nat)
    requires
        capacity > 0,
    ensures
        page_count(capacity + 1, capacity) == 2,
        chunk_len(capacity + 1, 0, capacity) == capacity,
        chunk_start(1, capacity) == capacity,
        chunk_len(capacity + 1, 1, capacity) == 1,
{
    assert(capacity as int / capacity as int == 1) by (nonlinear_arith)
        requires
            capacity > 0,
    ;
    assert((0 + 1) * capacity == capacity) by (nonlinear_arith);
    assert(1 * capacity == capacity) by (nonlinear_arith);
    assert((1 + 1) * capacity == 2 * capacity) by (nonlinear_arith);
}

/// Different objects have different resource names.
pub proof fn law_resource_names_differ(first: ObjectId, second: ObjectId)
    requires
        resource_name(first) == resource_name(second),
    ensures
        first.number == second.number,
{
    let a = decimal(first.number as nat);
    let b = decimal(second.number as nat);
    assert((seq!['X'] + a).subrange(1, 1 + a.len() as int) =~= a);
    assert((seq!['X'] + b).subrange(1, 1 + b.len() as int) =~= b);
    assert((seq!['X'] + a).len() == 1 + a.len());
    assert((seq!['X'] + b).len() == 1 + b.len());
    lemma_decimal_injective(first.number as nat, second.number as nat);
}

/// Whether an operation draws a named resource.
pub open spec fn draws(operation: Operation) -> bool {
    operation.operator == "Do"@
}

/// No operation of a text block draws.
proof fn lemma_text_block_draws(size: int, x: int, y: int, text: Seq<char>, at: int)
    requires
        0 <= at < 5,
    ensures
        text_block(size, x, y, text).len() == 5,
        !draws(text_block(size, x, y, text)[at]),
{
    reveal_strlit("Do");
    reveal_strlit("BT");
    reveal_strlit("Tf");
    reveal_strlit("Td");
    reveal_strlit("Tj");
    reveal_strlit("ET");
    assert("BT"@[0] == 'B' && "Tf"@[0] == 'T' && "Td"@[0] == 'T' && "Tj"@[0] == 'T' && "ET"@[0]
        == 'E' && "Do"@[0] == 'D');
}

/// No operation of the head draws.
proof fn lemma_header_draws(subject: Seq<char>, layout: Layout, at: int)
    requires
        0 <= at < 15,
    ensures
        header(subject, layout).len() == 15,
        !draws(header(subject, layout)[at]),
{
    let title = text_block(
        layout.title_size as int,
        TEXT_X as int,
        TITLE_Y as int,
        "Fake Bill for: "@ + subject,
    );
    let rule = text_block(layout.body_size as int, TEXT_X as int, RULE_Y as int, rule_text());
    let caption = text_block(
        layout.body_size as int,
        TEXT_X as int,
        CAPTION_Y as int,
        "Purchases:"@,
    );
    let head = header(subject, layout);
    assert(head == title + rule + caption);
    if at < 5 {
        lemma_text_block_draws(
            layout.title_size as int,
            TEXT_X as int,
            TITLE_Y as int,
            "Fake Bill for: "@ + subject,
            at,
        );
        assert(head[at] == title[at]);
    } else if at < 10 {
        lemma_text_block_draws(
            layout.body_size as int,
            TEXT_X as int,
            RULE_Y as int,
            rule_text(),
            at - 5,
        );
        assert(head[at] == rule[at - 5]);
    } else {
        lemma_text_block_draws(
            layout.body_size as int,
            TEXT_X as int,
            CAPTION_Y as int,
            "Purchases:"@,
            at - 10,
        );
        assert(head[at] == caption[at - 10]);
    }
}

/// Of the four operations that place an image, the third draws it and the
/// others do not draw.
proof fn lemma_placement_draws(name: Seq<char>, layout: Layout, at: int)
    requires
        0 <= at < 4,
    ensures
        placement(name, layout).len() == 4,
        placement(name, layout)[2] == (Operation {
            operator: "Do"@,
            operands: seq![Node::Name(name)],
        }),
        draws(placement(name, layout)[at]) <==> at == 2,
{
    reveal_strlit("Do");
    reveal_strlit("q");
    reveal_strlit("cm");
    reveal_strlit("Q");
    assert("q"@.len() == 1 && "Q"@.len() == 1 && "cm"@[0] == 'c' && "Do"@[0] == 'D');
}

/// No item line draws.
proof fn lemma_item_lines_draw(
    labels: Seq<Seq<char>>,
    prices: Seq<Price>,
    start: int,
    count: nat,
    layout: Layout,
    at: int,
)
    requires
        0 <= at < 5 * count,
    ensures
        item_lines(labels, prices, start, count, layout).len() == 5 * count,
        !draws(item_lines(labels, prices, start, count, layout)[at]),
{
    let lines = item_lines(labels, prices, start, count, layout);
    let item = at / 5;
    lemma_item_lines(labels, prices, start, count, layout, item);
    let block = lines.subrange(5 * item, 5 * item + 5);
    assert(block[at - 5 * item] == lines[at]);
    lemma_text_block_draws(
        layout.body_size as int,
        TEXT_X as int,
        layout.line_y(item),
        item_text(labels[start + item], prices[start + item]),
        at - 5 * item,
    );
}

/// Every page draws exactly one image, by the resource name of the image
/// that belongs to it.
pub proof fn law_page_draws_its_image(
    subject: Seq<char>,
    labels: Seq<Seq<char>>,
    prices: Seq<Price>,
    page: nat,
    image: ObjectId,
    layout: Layout,
)
    ensures
        ({
            let program = page_program(subject, labels, prices, page, image, layout);
            &&& program.len() >= 19
            &&& program[17] == Operation {
                operator: "Do"@,
                operands: seq![Node::Name(resource_name(image))],
            }
            &&& forall|at: int|
                0 <= at < program.len() && draws(#[trigger] program[at]) ==> at == 17
        }),
{
    let count = chunk_len(labels.len(), page, layout.capacity as nat);
    let start = chunk_start(page, layout.capacity as nat) as int;
    let head = header(subject, layout);
    let place = placement(resource_name(image), layout);
    let lines = item_lines(labels, prices, start, count, layout);
    let program = page_program(subject, labels, prices, page, image, layout);
    assert(program == head + place + lines);
    lemma_header_draws(subject, layout, 0);
    lemma_placement_draws(resource_name(image), layout, 2);
    lemma_item_lines_len(labels, prices, start, count, layout);
    assert(program[17] == place[2]);
    assert forall|at: int| 0 <= at < program.len() && draws(#[trigger] program[at]) implies at
        == 17 by {
        if at < 15 {
            lemma_header_draws(subject, layout, at);
            assert(program[at] == head[at]);
        } else if at < 19 {
            lemma_placement_draws(resource_name(image), layout, at - 15);
            assert(program[at] == place[at - 15]);
        } else {
            lemma_item_lines_draw(labels, prices, start, count, layout, at - 19);
            assert(program[at] == lines[at - 19]);
        }
    }
}

/// The three objects of a page stand in the document under their ids.
pub proof fn lemma_page_objects(
    images: Seq<Seq<u8>>,
    contents: Seq<Seq<u8>>,
    layout: Layout,
    page: int,
)
    requires
        0 <= page < images.len(),
        3 * images.len() + 4 <= u32::MAX,
    ensures
        image_id(page).number == 3 * page + 4,
        content_id(page).number == 3 * page + 5,
        page_id(page).number == 3 * page + 6,
        document(images, contents, layout).len() == 3 * images.len() + 4,
        document(images, contents, layout)[3 * page + 3] == Some(
            image_node(layout, images[page]),
        ),
        document(images, contents, layout)[3 * page + 4] == Some(content_node(contents[page])),
        document(images, contents, layout)[3 * page + 5] == Some(
            page_node(tree_id(), content_id(page), image_id(page)),
        ),
{
    let total = images.len() as int;
    assert((3 * page + 3 - 3) / 3 == page && (3 * page + 3 - 3) % 3 == 0);
    assert((3 * page + 4 - 3) / 3 == page && (3 * page + 4 - 3) % 3 == 1);
    assert((3 * page + 5 - 3) / 3 == page && (3 * page + 5 - 3) % 3 == 2);
    assert(3 * page + 5 < 3 * total + 3);
    assert(body_slot(images, contents, layout, 3 * page + 3) == Some(
        image_node(layout, images[page]),
    ));
    assert(body_slot(images, contents, layout, 3 * page + 4) == Some(
        content_node(contents[page]),
    ));
    assert(body_slot(images, contents, layout, 3 * page + 5) == Some(
        page_node(tree_id(), content_id(page), image_id(page)),
    ));
}

/// The document holds, for each page, the image that the page draws: the
/// image object stands under the id whose name the page draws, the page
/// knows it under this name and no other, and no other object of the
/// document has this name.
pub proof fn law_page_image(
    images: Seq<Seq<u8>>,
    contents: Seq<Seq<u8>>,
    layout: Layout,
    page: int,
    other: ObjectId,
)
    requires
        0 <= page < images.len(),
        3 * images.len() + 4 <= u32::MAX,
    ensures
        holds(document(images, contents, layout), image_id(page)),
        document(images, contents, layout)[image_id(page).number - 1] == Some(
            image_node(layout, images[page]),
        ),
        holds(document(images, contents, layout), page_id(page)),
        document(images, contents, layout)[page_id(page).number - 1] == Some(
            page_node(tree_id(), content_id(page), image_id(page)),
        ),
        holds(document(images, contents, layout), other) && resource_name(other) == resource_name(
            image_id(page),
        ) ==> other == image_id(page),
{
    lemma_page_objects(images, contents, layout, page);
    if holds(document(images, contents, layout), other) && resource_name(other) == resource_name(
        image_id(page),
    ) {
        law_resource_names_differ(other, image_id(page));
    }
}

/// The page tree lists as many pages as there are images, in the order in
/// which the pages were made: the entry at each index refers to the page
/// of that index, which draws the content of that index.
pub proof fn law_page_tree(images: Seq<Seq<u8>>, contents: Seq<Seq<u8>>, layout: Layout, page: int)
    requires
        0 <= page < images.len(),
        3 * images.len() + 4 <= u32::MAX,
    ensures
        document(images, contents, layout)[0] == Some(
            tree_node(page_ids(images.len()), resources_id(), layout),
        ),
        references(page_ids(images.len())).len() == images.len(),
        references(page_ids(images.len()))[page] == Node::Reference(page_id(page)),
        holds(document(images, contents, layout), page_id(page)),
        document(images, contents, layout)[page_id(page).number - 1] == Some(
            page_node(tree_id(), content_id(page), image_id(page)),
        ),
        holds(document(images, contents, layout), content_id(page)),
        document(images, contents, layout)[content_id(page).number - 1] == Some(
            content_node(contents[page]),
        ),
{
    lemma_page_objects(images, contents, layout, page);
}

/// Every item of a page has a line of its own on it: the cursor is set to
/// the left edge, one line height lower for each item before it on the
/// page, and the text shown is that of the item.
pub proof fn law_item_lines(
    subject: Seq<char>,
    labels: Seq<Seq<char>>,
    prices: Seq<Price>,
    page: nat,
    image: ObjectId,
    layout: Layout,
    item: int,
)
    requires
        0 <= item < chunk_len(labels.len(), page, layout.capacity as nat),
    ensures
        ({
            let program = page_program(subject, labels, prices, page, image, layout);
            let index = chunk_start(page, layout.capacity as nat) + item;
            &&& program.len() == 19 + 5 * chunk_len(labels.len(), page, layout.capacity as nat)
            &&& program[19 + 5 * item + 2] == Operation {
                operator: "Td"@,
                operands: seq![Node::Integer(TEXT_X as int), Node::Integer(layout.line_y(item))],
            }
            &&& program[19 + 5 * item + 3] == Operation {
                operator: "Tj"@,
                operands: seq![Node::Text(item_text(labels[index], prices[index]))],
            }
        }),
{
    let count = chunk_len(labels.len(), page, layout.capacity as nat);
    let start = chunk_start(page, layout.capacity as nat) as int;
    let lines = item_lines(labels, prices, start, count, layout);
    let head = header(subject, layout) + placement(resource_name(image), layout);
    let program = page_program(subject, labels, prices, page, image, layout);
    lemma_item_lines(labels, prices, start, count, layout, item);
    let block = lines.subrange(5 * item, 5 * item + 5);
    assert(head.len() == 19);
    assert(program == head + lines);
    assert(program[19 + 5 * item + 2] == block[2]);
    assert(program[19 + 5 * item + 3] == block[3]);
}

/// Whether every reference inside `node` names an object that `objects`
/// holds.
pub open spec fn resolved(node: Node, objects: Seq<Option<Node>>) -> bool
    decreases node,
{
    match node {
        Node::Reference(id) => holds(objects, id),
        Node::Array(items) => forall|i: int|
            0 <= i < items.len() ==> resolved(#[trigger] items[i], objects),
        Node::Dictionary(entries) => forall|i: int|
            0 <= i < entries.len() ==> resolved((#[trigger] entries[i]).1, objects),
        Node::Stream(entries, _) => forall|i: int|
            0 <= i < entries.len() ==> resolved((#[trigger] entries[i]).1, objects),
        _ => true,
    }
}

/// A page refers to objects that the document holds.
proof fn lemma_page_resolved(
    images: Seq<Seq<u8>>,
    contents: Seq<Seq<u8>>,
    layout: Layout,
    page: int,
)
    requires
        0 <= page < images.len(),
        3 * images.len() + 4 <= u32::MAX,
    ensures
        resolved(
            page_node(tree_id(), content_id(page), image_id(page)),
            document(images, contents, layout),
        ),
{
    reveal_with_fuel(resolved, 5);
    lemma_page_objects(images, contents, layout, page);
    let objects = document(images, contents, layout);
    assert(holds(objects, tree_id()));
    assert(holds(objects, content_id(page)));
    assert(holds(objects, image_id(page)));
}

/// The page tree refers to objects that the document holds.
proof fn lemma_tree_resolved(images: Seq<Seq<u8>>, contents: Seq<Seq<u8>>, layout: Layout)
    requires
        3 * images.len() + 4 <= u32::MAX,
    ensures
        resolved(
            tree_node(page_ids(images.len()), resources_id(), layout),
            document(images, contents, layout),
        ),
{
    reveal_with_fuel(resolved, 5);
    let objects = document(images, contents, layout);
    let kids = references(page_ids(images.len()));
    assert forall|i: int| 0 <= i < kids.len() implies resolved(#[trigger] kids[i], objects) by {
        lemma_page_objects(images, contents, layout, i);
    }
    assert(holds(objects, resources_id()));
}

/// No reference dangles: every object of the document is there, and every
/// reference inside it names an object that the document holds.
pub proof fn law_references_resolve(
    images: Seq<Seq<u8>>,
    contents: Seq<Seq<u8>>,
    layout: Layout,
    index: int,
)
    requires
        0 <= index < 3 * images.len() + 4,
        3 * images.len() + 4 <= u32::MAX,
    ensures
        document(images, contents, layout)[index] is Some,
        resolved(
            document(images, contents, layout)[index].unwrap(),
            document(images, contents, layout),
        ),
{
    let objects = document(images, contents, layout);
    let total = images.len() as int;
    if index == 0 {
        lemma_tree_resolved(images, contents, layout);
    } else if index == 3 * total + 3 {
        reveal_with_fuel(resolved, 3);
        assert(holds(objects, tree_id()));
    } else if index == 1 {
        reveal_with_fuel(resolved, 3);
    } else if index == 2 {
        reveal_with_fuel(resolved, 4);
        assert(holds(objects, font_id()));
    } else {
        let page = (index - 3) / 3;
        lemma_page_objects(images, contents, layout, page);
        if (index - 3) % 3 == 0 {
            reveal_with_fuel(resolved, 3);
        } else if (index - 3) % 3 == 1 {
            reveal_with_fuel(resolved, 3);
        } else {
            lemma_page_resolved(images, contents, layout, page);
        }
    }
}

} // verus!
