//! Assembly: the pages are tied into a page tree below a catalog, and the
//! whole graph is written out.

use vstd::prelude::*;
use crate::backend::{document_bytes, framed};
use crate::error::BuildError;
use crate::image::{image_node, image_object};
use crate::layout::Layout;
use crate::model::{Node, ObjectId};
use crate::objects::{
    catalog_node, catalog_object, content_node, content_object, font_node, font_object, page_node,
    page_object, resources_node, resources_object, tree_node, tree_object,
};
use crate::store::{filled, id_at, ObjectStore};

verus! {

/// The version that every document declares.
pub const VERSION: &'static str = "1.5";

/// The id of the page tree, reserved before anything else.
pub open spec fn tree_id() -> ObjectId {
    id_at(0)
}

/// The id of the font.
pub open spec fn font_id() -> ObjectId {
    id_at(1)
}

/// The id of the shared resources.
pub open spec fn resources_id() -> ObjectId {
    id_at(2)
}

/// The id of the image of the page at index `page`.
pub open spec fn image_id(page: int) -> ObjectId {
    id_at(3 * page + 3)
}

/// The id of the content stream of the page at index `page`.
pub open spec fn content_id(page: int) -> ObjectId {
    id_at(3 * page + 4)
}

/// The id of the page at index `page`.
pub open spec fn page_id(page: int) -> ObjectId {
    id_at(3 * page + 5)
}

/// The ids of the first `count` pages, in order.
pub open spec fn page_ids(count: nat) -> Seq<ObjectId> {
    Seq::new(count, |page: int| page_id(page))
}

/// What a store holds before the first page: the reserved id of the page
/// tree, the font and the shared resources.
pub open spec fn preamble() -> Seq<Option<Node>> {
    seq![None, Some(font_node()), Some(resources_node(font_id()))]
}

/// The three objects of one page, whose image takes the slot at `first`:
/// the image, the content stream, and the page that refers to both.
pub open spec fn page_slots(first: int, image: Seq<u8>, content: Seq<u8>, layout: Layout) -> Seq<
    Option<Node>,
> {
    seq![
        Some(image_node(layout, image)),
        Some(content_node(content)),
        Some(page_node(tree_id(), id_at(first + 1), id_at(first))),
    ]
}

/// The object in the slot at `index` of a document under construction,
/// behind the slot of the page tree: the font, the resources, then three
/// objects for each page.
pub open spec fn body_slot(
    images: Seq<Seq<u8>>,
    contents: Seq<Seq<u8>>,
    layout: Layout,
    index: int,
) -> Option<Node> {
    let page = (index - 3) / 3;
    if index == 1 {
        Some(font_node())
    } else if index == 2 {
        Some(resources_node(font_id()))
    } else if (index - 3) % 3 == 0 {
        Some(image_node(layout, images[page]))
    } else if (index - 3) % 3 == 1 {
        Some(content_node(contents[page]))
    } else {
        Some(page_node(tree_id(), content_id(page), image_id(page)))
    }
}

/// The store after `pages` pages have been added.
pub open spec fn building(
    images: Seq<Seq<u8>>,
    contents: Seq<Seq<u8>>,
    layout: Layout,
    pages: nat,
) -> Seq<Option<Node>> {
    Seq::new(
        3 * pages + 3,
        |index: int|
            if index == 0 {
                None
            } else {
                body_slot(images, contents, layout, index)
            },
    )
}

/// The finished document of one page for each image: the page tree in the
/// first slot, the font, the resources, three objects for each page, and
/// the catalog last.
pub open spec fn document(images: Seq<Seq<u8>>, contents: Seq<Seq<u8>>, layout: Layout) -> Seq<
    Option<Node>,
> {
    Seq::new(
        3 * images.len() + 4,
        |index: int|
            if index == 0 {
                Some(tree_node(page_ids(images.len()), resources_id(), layout))
            } else if index == 3 * images.len() + 3 {
                Some(catalog_node(tree_id()))
            } else {
                body_slot(images, contents, layout, index)
            },
    )
}

/// How far the assembly of a document has come.
#[derive(Clone, Copy, Debug, PartialEq, Eq, Structural)]
pub enum Stage {
    /// No page has been added.
    Empty,
    /// At least one page has been added; more may follow.
    PagesBuilding,
    /// The page tree holds its pages; none can be added.
    TreeSealed,
    /// The catalog names the page tree; the document can be written.
    CatalogLinked,
}

/// Assembles one document. The stages follow one another in order; writing
/// the document ends the assembly and gives the store up.
pub struct DocumentAssembler {
    store: ObjectStore,
    kids: Vec<ObjectId>,
    stage: Stage,
    layout: Layout,
}

impl DocumentAssembler {
    /// The objects in the store, by id.
    pub closed spec fn objects(&self) -> Seq<Option<Node>> {
        self.store@
    }

    /// The ids of the pages added so far, in the order in which they came.
    pub closed spec fn kids(&self) -> Seq<ObjectId> {
        self.kids@
    }

    pub closed spec fn stage(&self) -> Stage {
        self.stage
    }

    pub closed spec fn layout(&self) -> Layout {
        self.layout
    }

    /// The ids fit the id space with room for the catalog, and there are
    /// pages from the second stage on.
    pub open spec fn wf(&self) -> bool {
        let count = self.objects().len();
        &&& self.kids().len() <= count
        &&& match self.stage() {
            Stage::Empty => count == 3 && self.kids().len() == 0,
            Stage::PagesBuilding | Stage::TreeSealed => 3 <= count < u32::MAX && self.kids().len()
                > 0,
            Stage::CatalogLinked => 4 <= count <= u32::MAX,
        }
    }

    /// Starts a document: reserves the id of the page tree, then stores
    /// the font and the resources that the pages share.
    pub fn new(layout: Layout) -> (assembler: DocumentAssembler)
        ensures
            assembler.wf(),
            assembler.stage() == Stage::Empty,
            assembler.layout() == layout,
            assembler.objects() == preamble(),
            assembler.kids() == Seq::<ObjectId>::empty(),
    {
        let mut store = ObjectStore::new();
        let _tree = store.new_id();
        let font = store.add(font_object());
        let _resources = store.add(resources_object(font));
        assert(store@ =~= preamble());
        DocumentAssembler { store, kids: Vec::new(), stage: Stage::Empty, layout }
    }

    /// The stage that the assembly has reached.
    pub fn current_stage(&self) -> (stage: Stage)
        ensures
            stage == self.stage(),
    {
        self.stage
    }

    /// The number of pages added so far.
    pub fn page_total(&self) -> (total: usize)
        ensures
            total == self.kids().len(),
    {
        self.kids.len()
    }

    /// The id that the image of the next page will get.
    pub fn next_image_id(&self) -> (id: ObjectId)
        requires
            self.wf(),
            self.objects().len() < u32::MAX,
        ensures
            id == id_at(self.objects().len() as int),
    {
        ObjectId { number: (self.store.len() + 1) as u32, generation: 0 }
    }

    /// Adds a page: stores its image, its content stream and the page
    /// itself, in this order, and returns the id of the page.
    pub fn add_page(&mut self, image: Vec<u8>, content: Vec<u8>) -> (id: ObjectId)
        requires
            old(self).wf(),
            old(self).stage() == Stage::Empty || old(self).stage() == Stage::PagesBuilding,
            old(self).objects().len() + 4 <= u32::MAX,
        ensures
            final(self).wf(),
            final(self).stage() == Stage::PagesBuilding,
            final(self).layout() == old(self).layout(),
            final(self).objects() == old(self).objects() + page_slots(
                old(self).objects().len() as int,
                image@,
                content@,
                old(self).layout(),
            ),
            final(self).kids() == old(self).kids().push(id),
            id == id_at(old(self).objects().len() as int + 2),
    {
        let tree = ObjectId { number: 1, generation: 0 };
        let image_id = self.store.add(image_object(&self.layout, image));
        let content_id = self.store.add(content_object(content));
        let id = self.store.add(page_object(tree, content_id, image_id));
        self.kids.push(id);
        self.stage = Stage::PagesBuilding;
        assert(self.store@ =~= old(self).store@ + page_slots(
            old(self).store@.len() as int,
            image@,
            content@,
            self.layout,
        ));
        id
    }

    /// Seals the page tree: fills the id reserved for it with the pages
    /// in the order in which they were added, their number, the shared
    /// resources and the page size.
    pub fn seal(&mut self)
        requires
            old(self).wf(),
            old(self).stage() == Stage::PagesBuilding,
        ensures
            final(self).wf(),
            final(self).stage() == Stage::TreeSealed,
            final(self).layout() == old(self).layout(),
            final(self).kids() == old(self).kids(),
            final(self).objects() == old(self).objects().update(
                0,
                Some(tree_node(old(self).kids(), resources_id(), old(self).layout())),
            ),
    {
        let tree = ObjectId { number: 1, generation: 0 };
        let resources = ObjectId { number: 3, generation: 0 };
        let object = tree_object(&self.kids, resources, &self.layout);
        self.store.set(tree, object);
        self.stage = Stage::TreeSealed;
    }

    /// Links the catalog: stores it with its reference to the page tree and
    /// returns its id, the root of the document.
    pub fn link(&mut self) -> (id: ObjectId)
        requires
            old(self).wf(),
            old(self).stage() == Stage::TreeSealed,
        ensures
            final(self).wf(),
            final(self).stage() == Stage::CatalogLinked,
            final(self).layout() == old(self).layout(),
            final(self).kids() == old(self).kids(),
            final(self).objects() == old(self).objects().push(Some(catalog_node(tree_id()))),
            id == id_at(old(self).objects().len() as int),
    {
        let tree = ObjectId { number: 1, generation: 0 };
        let id = self.store.add(catalog_object(tree));
        self.stage = Stage::CatalogLinked;
        id
    }

    /// Writes the document, with the catalog, the object stored last, as
    /// its root. This ends the assembly.
    pub fn serialize(self) -> (result: Result<Vec<u8>, BuildError>)
        requires
            self.wf(),
            self.stage() == Stage::CatalogLinked,
        ensures
            match result {
                Ok(bytes) => written(self.objects()) == Some(bytes@) && framed(bytes@),
                Err(error) => error == BuildError::Serialization && written(self.objects())
                    is None,
            },
    {
        let root = ObjectId { number: self.store.len() as u32, generation: 0 };
        self.store.serialize(VERSION, root)
    }
}

/// The bytes of the document that holds `objects`, the last of them its
/// root, or `None` where it cannot be written.
pub open spec fn written(objects: Seq<Option<Node>>) -> Option<Seq<u8>> {
    document_bytes(VERSION@, filled(objects), objects.len() as u32, id_at(objects.len() - 1))
}

} // verus!
