//! The bill: from a subject and its items to the bytes of the document.

use vstd::prelude::*;
use crate::assemble::{
    building, document, image_id, page_slots, written, DocumentAssembler, Stage,
};
use crate::backend::{encoded_content, framed};
use crate::content::texts;
use crate::error::BuildError;
use crate::layout::Layout;
use crate::paginate::{count_pages, page_content, page_count, page_program};
use crate::text::Price;

verus! {

/// The bytes of each image of a list.
pub open spec fn payloads(images: Seq<Vec<u8>>) -> Seq<Seq<u8>> {
    Seq::new(images.len(), |i: int| images[i]@)
}

/// The encoded content of the page at index `page`, or `None` where what
/// the page draws cannot be encoded.
pub open spec fn page_bytes(
    subject: Seq<char>,
    labels: Seq<Seq<char>>,
    prices: Seq<Price>,
    page: int,
    layout: Layout,
) -> Option<Seq<u8>> {
    encoded_content(page_program(subject, labels, prices, page as nat, image_id(page), layout))
}

/// The encoded contents of the first `pages` pages.
pub open spec fn page_contents(
    subject: Seq<char>,
    labels: Seq<Seq<char>>,
    prices: Seq<Price>,
    pages: nat,
    layout: Layout,
) -> Seq<Seq<u8>> {
    Seq::new(pages, |page: int| page_bytes(subject, labels, prices, page, layout).unwrap())
}

/// The most pages that a document can have: each takes three objects, and
/// four more belong to the document as a whole.
pub const MAX_PAGES: usize = 1431655763;

/// What building a bill gives. A layout that is not valid is rejected,
/// then an empty subject, then prices that are not as many as the labels,
/// then items that take more than `MAX_PAGES` pages, then images that are
/// not one for each page. A page that cannot be encoded fails the whole
/// bill, and so does a document that cannot be written. Otherwise the
/// result is the written document of one page for each chunk of items.
pub open spec fn bill(
    subject: Seq<char>,
    labels: Seq<Seq<char>>,
    prices: Seq<Price>,
    images: Seq<Seq<u8>>,
    layout: Layout,
) -> Result<Seq<u8>, BuildError> {
    let pages = page_count(labels.len(), layout.capacity as nat);
    if !layout.wf() {
        Err(BuildError::InvalidLayout)
    } else if subject.len() == 0 {
        Err(BuildError::EmptySubject)
    } else if labels.len() != prices.len() {
        Err(BuildError::LengthMismatch)
    } else if pages > MAX_PAGES {
        Err(BuildError::TooManyPages)
    } else if images.len() != pages {
        Err(BuildError::ImageCountMismatch)
    } else if exists|page: int|
        0 <= page < pages && #[trigger] page_bytes(subject, labels, prices, page, layout) is None {
        Err(BuildError::Encoding)
    } else {
        match written(
            document(images, page_contents(subject, labels, prices, pages, layout), layout),
        ) {
            Some(bytes) => Ok(bytes),
            None => Err(BuildError::Serialization),
        }
    }
}

/// Whether `result` is what building the bill of these inputs gives.
pub open spec fn is_bill(
    result: Result<Vec<u8>, BuildError>,
    subject: Seq<char>,
    labels: Seq<Seq<char>>,
    prices: Seq<Price>,
    images: Seq<Seq<u8>>,
    layout: Layout,
) -> bool {
    match result {
        Ok(bytes) => bill(subject, labels, prices, images, layout) == Ok::<Seq<u8>, BuildError>(
            bytes@,
        ),
        Err(error) => bill(subject, labels, prices, images, layout) == Err::<Seq<u8>, BuildError>(
            error,
        ),
    }
}

/// Builds the bill for `subject`: one page for each `layout.capacity`
/// items, each with the head, its image and the lines of its items, or one
/// page without item lines where there is no item. `images` holds the
/// image of each page, in page order.
pub fn genpdf(
    subject: &str,
    labels: &Vec<String>,
    prices: &Vec<Price>,
    images: &Vec<Vec<u8>>,
    layout: &Layout,
) -> (result: Result<Vec<u8>, BuildError>)
    ensures
        is_bill(result, subject@, texts(labels@), prices@, payloads(images@), *layout),
        result matches Ok(bytes) ==> framed(bytes@),
{
    if !layout.is_valid() {
        return Err(BuildError::InvalidLayout);
    }
    if subject.is_empty() {
        return Err(BuildError::EmptySubject);
    }
    if labels.len() != prices.len() {
        return Err(BuildError::LengthMismatch);
    }
    let pages = count_pages(labels.len(), layout.capacity);
    if pages > MAX_PAGES {
        return Err(BuildError::TooManyPages);
    }
    if images.len() != pages {
        return Err(BuildError::ImageCountMismatch);
    }
    let ghost contents = page_contents(subject@, texts(labels@), prices@, pages as nat, *layout);
    let mut assembler = DocumentAssembler::new(*layout);
    assert(assembler.objects() =~= building(payloads(images@), contents, *layout, 0));
    let mut page: usize = 0;
    while page < pages
        invariant
            layout.wf(),
            subject@.len() > 0,
            labels.len() == prices.len(),
            pages == page_count(labels.len() as nat, layout.capacity as nat),
            images.len() == pages,
            3 * pages + 4 <= u32::MAX,
            page <= pages,
            contents == page_contents(subject@, texts(labels@), prices@, pages as nat, *layout),
            assembler.wf(),
            assembler.layout() == *layout,
            page == 0 ==> assembler.stage() == Stage::Empty,
            page > 0 ==> assembler.stage() == Stage::PagesBuilding,
            assembler.kids().len() == page,
            forall|k: int| 0 <= k < page ==> assembler.kids()[k] == crate::assemble::page_id(k),
            assembler.objects() == building(payloads(images@), contents, *layout, page as nat),
            forall|k: int|
                0 <= k < page ==> (#[trigger] page_bytes(
                    subject@,
                    texts(labels@),
                    prices@,
                    k,
                    *layout,
                )) is Some,
        decreases pages - page,
    {
        let image = assembler.next_image_id();
        let builder = page_content(subject, labels, prices, page, image, layout);
        let content = match builder.encode() {
            Ok(bytes) => bytes,
            Err(error) => {
                assert(page_bytes(subject@, texts(labels@), prices@, page as int, *layout) is None);
                assert(error == BuildError::Encoding);
                return Err(error);
            },
        };
        let payload = images[page].clone();
        assert(payload@ =~= images@[page as int]@);
        let ghost before = assembler.objects();
        assembler.add_page(payload, content);
        proof {
            let next = building(payloads(images@), contents, *layout, (page + 1) as nat);
            let added = page_slots(3 * page + 3, payload@, content@, *layout);
            assert(contents[page as int] == content@);
            assert(payloads(images@)[page as int] == payload@);
            assert(before + added =~= next);
        }
        page += 1;
    }
    assembler.seal();
    assembler.link();
    proof {
        assert(assembler.kids() =~= crate::assemble::page_ids(pages as nat));
        assert(assembler.objects() =~= document(payloads(images@), contents, *layout));
    }
    assembler.serialize()
}

} // verus!
