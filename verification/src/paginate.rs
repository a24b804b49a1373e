//! Pagination: how the items are cut into pages, and what each page draws.

use vstd::prelude::*;
use crate::content::{header, item_lines, texts, ContentStreamBuilder};
use crate::image::{place_image, placement, resource_name, resource_name_text};
use crate::layout::Layout;
use crate::model::{ObjectId, Operation};
use crate::text::Price;

verus! {

/// The number of pages for `items` items at `capacity` items a page: as
/// many as it takes to hold them all, and one where there is no item.
pub open spec fn page_count(items: nat, capacity: nat) -> nat {
    if items == 0 {
        1
    } else {
        ((items - 1) / capacity as int + 1) as nat
    }
}

/// The index of the first item of a page.
pub open spec fn chunk_start(page: nat, capacity: nat) -> nat {
    page * capacity
}

/// The number of items on a page: `capacity`, but for the last page, which
/// holds what is left.
pub open spec fn chunk_len(items: nat, page: nat, capacity: nat) -> nat {
    if (page + 1) * capacity <= items {
        capacity
    } else if page * capacity <= items {
        (items - page * capacity) as nat
    } else {
        0
    }
}

/// What one page draws: the head, the image known by the name of `image`,
/// and the lines of the page's items.
pub open spec fn page_program(
    subject: Seq<char>,
    labels: Seq<Seq<char>>,
    prices: Seq<Price>,
    page: nat,
    image: ObjectId,
    layout: Layout,
) -> Seq<Operation> {
    header(subject, layout) + placement(resource_name(image), layout) + item_lines(
        labels,
        prices,
        chunk_start(page, layout.capacity as nat) as int,
        chunk_len(labels.len(), page, layout.capacity as nat),
        layout,
    )
}

/// The chunks lie one behind the other from the first item to the last:
/// the pages before the last are full, each page starts where the one before
/// it ended, and the last page holds what is left, at least one item unless
/// there is none at all.
pub proof fn law_chunks(items: nat, page: nat, capacity: nat)
    requires
        capacity > 0,
        page < page_count(items, capacity),
    ensures
        chunk_start(page, capacity) <= items,
        chunk_start(page, capacity) + chunk_len(items, page, capacity) <= items,
        chunk_len(items, page, capacity) <= capacity,
        page + 1 < page_count(items, capacity) ==> chunk_len(items, page, capacity) == capacity,
        chunk_start(page + 1, capacity) == chunk_start(page, capacity) + capacity,
        chunk_start(0, capacity) == 0,
        page + 1 == page_count(items, capacity) ==> chunk_start(page, capacity) + chunk_len(
            items,
            page,
            capacity,
        ) == items,
        items > 0 ==> chunk_len(items, page, capacity) > 0,
{
    assert(page * capacity + capacity == (page + 1) * capacity) by (nonlinear_arith);
    assert(0 * capacity == 0) by (nonlinear_arith);
    if items > 0 {
        let last = (items - 1) / capacity as int;
        assert(last * capacity <= items - 1 < (last + 1) * capacity) by (nonlinear_arith)
            requires
                last == (items - 1) / capacity as int,
                capacity > 0,
                items >= 1,
        ;
        if page < last {
            assert((page + 1) * capacity <= last * capacity) by (nonlinear_arith)
                requires
                    page + 1 <= last,
                    capacity > 0,
            ;
        } else {
            assert(page == last);
        }
        assert(page * capacity + capacity == (page + 1) * capacity) by (nonlinear_arith);
    } else {
        assert(page == 0);
        assert(0 * capacity == 0) by (nonlinear_arith);
        assert((0 + 1) * capacity == capacity) by (nonlinear_arith);
    }
}

/// Counts the pages for `items` items.
pub fn count_pages(items: usize, capacity: u32) -> (pages: usize)
    requires
        capacity > 0,
    ensures
        pages == page_count(items as nat, capacity as nat),
{
    if items == 0 {
        1
    } else {
        (items - 1) / (capacity as usize) + 1
    }
}

/// The items of a page: the index of its first item and the index after
/// its last.
pub fn chunk_bounds(items: usize, page: usize, capacity: u32) -> (bounds: (usize, usize))
    requires
        capacity > 0,
        page < page_count(items as nat, capacity as nat),
    ensures
        bounds.0 == chunk_start(page as nat, capacity as nat),
        bounds.1 == bounds.0 + chunk_len(items as nat, page as nat, capacity as nat),
        bounds.0 <= bounds.1 <= items,
{
    proof {
        law_chunks(items as nat, page as nat, capacity as nat);
        assert(page * capacity + capacity == (page + 1) * capacity) by (nonlinear_arith);
    }
    let start = page * (capacity as usize);
    let end = if items - start > capacity as usize {
        start + capacity as usize
    } else {
        items
    };
    (start, end)
}

/// Builds what the page at index `page` draws.
pub fn page_content(
    subject: &str,
    labels: &Vec<String>,
    prices: &Vec<Price>,
    page: usize,
    image: ObjectId,
    layout: &Layout,
) -> (builder: ContentStreamBuilder)
    requires
        layout.wf(),
        labels.len() == prices.len(),
        page < page_count(labels.len() as nat, layout.capacity as nat),
    ensures
        builder@ == page_program(subject@, texts(labels@), prices@, page as nat, image, *layout),
{
    proof {
        law_chunks(labels.len() as nat, page as nat, layout.capacity as nat);
    }
    let bounds = chunk_bounds(labels.len(), page, layout.capacity);
    let mut builder = ContentStreamBuilder::new();
    builder.header(subject, layout);
    let name = resource_name_text(image);
    place_image(&mut builder, name.as_str(), layout);
    builder.item_lines(labels, prices, bounds.0, bounds.1, layout);
    assert(builder@ =~= page_program(
        subject@,
        texts(labels@),
        prices@,
        page as nat,
        image,
        *layout,
    ));
    builder
}

} // verus!
