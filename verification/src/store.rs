//! The object store: the indirect objects of one document under their ids.

use vstd::prelude::*;
use crate::backend::{document_bytes, framed, indirect_models, object_model, write_document};
use crate::error::BuildError;
use crate::model::{Node, ObjectId};

verus! {

/// The id of the object in the slot at `index`: ids count from one and have
/// generation zero.
pub open spec fn id_at(index: int) -> ObjectId {
    ObjectId { number: (index + 1) as u32, generation: 0 }
}

/// Whether `id` has been given out by a store with these slots.
pub open spec fn issued(slots: Seq<Option<Node>>, id: ObjectId) -> bool {
    id.generation == 0 && 1 <= id.number <= slots.len()
}

/// Whether `id` has been given out and an object is stored under it.
pub open spec fn holds(slots: Seq<Option<Node>>, id: ObjectId) -> bool {
    issued(slots, id) && slots[id.number - 1] is Some
}

/// The stored objects with their ids, by rising id. A reserved id without
/// an object is left out.
pub open spec fn filled(slots: Seq<Option<Node>>) -> Seq<(ObjectId, Node)>
    decreases slots.len(),
{
    if slots.len() == 0 {
        Seq::empty()
    } else {
        let rest = filled(slots.drop_last());
        match slots.last() {
            Some(node) => rest.push((id_at(slots.len() - 1), node)),
            None => rest,
        }
    }
}

/// A fresh id was never given out before: it lies above every earlier one.
pub proof fn law_fresh_id(slots: Seq<Option<Node>>, earlier: ObjectId)
    requires
        slots.len() < u32::MAX,
        issued(slots, earlier),
    ensures
        earlier.number < id_at(slots.len() as int).number,
        issued(slots.push(None), id_at(slots.len() as int)),
        !issued(slots, id_at(slots.len() as int)),
{
}

/// Nothing is removed: what a store holds it still holds after an id is
/// reserved, an object added or an object set.
pub proof fn law_nothing_removed(
    slots: Seq<Option<Node>>,
    id: ObjectId,
    target: ObjectId,
    node: Node,
)
    requires
        holds(slots, id),
        issued(slots, target),
    ensures
        holds(slots.push(None), id),
        holds(slots.push(Some(node)), id),
        holds(slots.update(target.number - 1, Some(node)), id),
{
}

/// The value in a slot.
pub open spec fn slot_model(slot: Option<lopdf::Object>) -> Option<Node> {
    match slot {
        Some(object) => Some(object_model(object)),
        None => None,
    }
}

/// Holds the indirect objects of one document. Ids are given out in rising
/// order and never again; no object is ever removed.
pub struct ObjectStore {
    slots: Vec<Option<lopdf::Object>>,
}

impl View for ObjectStore {
    type V = Seq<Option<Node>>;

    /// One entry for each id given out, in order: the object stored under
    /// it, or `None` while the id is only reserved.
    closed spec fn view(&self) -> Seq<Option<Node>> {
        Seq::new(self.slots@.len(), |i: int| slot_model(self.slots@[i]))
    }
}

impl ObjectStore {
    /// A store that has given out no id.
    pub fn new() -> (store: ObjectStore)
        ensures
            store@ == Seq::<Option<Node>>::empty(),
    {
        let store = ObjectStore { slots: Vec::new() };
        assert(store@ =~= Seq::<Option<Node>>::empty());
        store
    }

    /// How many ids have been given out.
    pub fn len(&self) -> (count: usize)
        ensures
            count == self@.len(),
    {
        self.slots.len()
    }

    /// Whether an object is stored under `id`.
    pub fn contains(&self, id: ObjectId) -> (found: bool)
        ensures
            found == holds(self@, id),
    {
        if id.generation != 0 || id.number == 0 || id.number as usize > self.slots.len() {
            return false;
        }
        let index = (id.number - 1) as usize;
        assert(self@[index as int] == slot_model(self.slots@[index as int]));
        self.slots[index].is_some()
    }

    /// Reserves a fresh id: the next number, with nothing stored under it
    /// yet.
    pub fn new_id(&mut self) -> (id: ObjectId)
        requires
            old(self)@.len() < u32::MAX,
        ensures
            id == id_at(old(self)@.len() as int),
            final(self)@ == old(self)@.push(None),
    {
        let number = (self.slots.len() + 1) as u32;
        self.slots.push(None);
        assert(self@ =~= old(self)@.push(None));
        ObjectId { number, generation: 0 }
    }

    /// Stores `object` under a fresh id and returns that id.
    pub fn add(&mut self, object: lopdf::Object) -> (id: ObjectId)
        requires
            old(self)@.len() < u32::MAX,
        ensures
            id == id_at(old(self)@.len() as int),
            final(self)@ == old(self)@.push(Some(object_model(object))),
    {
        let number = (self.slots.len() + 1) as u32;
        self.slots.push(Some(object));
        assert(self@ =~= old(self)@.push(Some(object_model(object))));
        ObjectId { number, generation: 0 }
    }

    /// Stores `object` under an id that was given out before, in place of
    /// what was there.
    pub fn set(&mut self, id: ObjectId, object: lopdf::Object)
        requires
            issued(old(self)@, id),
        ensures
            final(self)@ == old(self)@.update(id.number - 1, Some(object_model(object))),
    {
        let index = (id.number - 1) as usize;
        self.slots[index] = Some(object);
        assert(self@ =~= old(self)@.update(id.number - 1, Some(object_model(object))));
    }

    /// Hands out the stored objects with their ids, by rising id.
    pub fn into_objects(self) -> (objects: Vec<(ObjectId, lopdf::Object)>)
        requires
            self@.len() <= u32::MAX,
        ensures
            indirect_models(objects@) == filled(self@),
    {
        let ghost all = self@;
        let ghost total = all.len() as int;
        let mut slots = self.slots;
        let count: usize = slots.len();
        let mut reversed: Vec<Option<lopdf::Object>> = Vec::new();
        while slots.len() > 0
            invariant
                slots@.len() + reversed@.len() == total,
                total == all.len(),
                forall|j: int| 0 <= j < slots@.len() ==> slot_model(#[trigger] slots@[j]) == all[j],
                forall|j: int|
                    0 <= j < reversed@.len() ==> slot_model(#[trigger] reversed@[j]) == all[total
                        - 1 - j],
            decreases slots@.len(),
        {
            let slot = slots.pop();
            match slot {
                Some(value) => {
                    reversed.push(value);
                },
                None => {},
            }
        }
        let mut objects: Vec<(ObjectId, lopdf::Object)> = Vec::new();
        assert(all.take(0) =~= Seq::<Option<Node>>::empty());
        assert(indirect_models(objects@) =~= filled(all.take(0)));
        while reversed.len() > 0
            invariant
                total == all.len(),
                total <= u32::MAX,
                count == total,
                reversed@.len() <= total,
                forall|j: int|
                    0 <= j < reversed@.len() ==> slot_model(#[trigger] reversed@[j]) == all[total
                        - 1 - j],
                indirect_models(objects@) == filled(all.take(total - reversed@.len())),
            decreases reversed@.len(),
        {
            let ghost done = total - reversed@.len();
            let ghost before = objects@;
            let number = (count - reversed.len() + 1) as u32;
            let slot = reversed.pop();
            proof {
                assert(all.take(done + 1).drop_last() =~= all.take(done));
                assert(all.take(done + 1).last() == all[done]);
            }
            match slot {
                Some(Some(object)) => {
                    objects.push((ObjectId { number, generation: 0 }, object));
                    assert(indirect_models(objects@) =~= indirect_models(before).push(
                        (id_at(done), object_model(object)),
                    ));
                },
                _ => {},
            }
        }
        assert(all.take(total) =~= all);
        objects
    }

    /// Writes the document of the given version whose objects are those
    /// stored here and whose root is `root`. The store ends with this.
    pub fn serialize(self, version: &str, root: ObjectId) -> (result: Result<Vec<u8>, BuildError>)
        requires
            self@.len() <= u32::MAX,
        ensures
            match result {
                Ok(bytes) => document_bytes(version@, filled(self@), self@.len() as u32, root)
                    == Some(bytes@) && framed(bytes@),
                Err(error) => error == BuildError::Serialization && document_bytes(
                    version@,
                    filled(self@),
                    self@.len() as u32,
                    root,
                ) is None,
            },
    {
        let max_id = self.slots.len() as u32;
        let objects = self.into_objects();
        match write_document(version, objects, max_id, root) {
            Ok(bytes) => Ok(bytes),
            Err(_) => Err(BuildError::Serialization),
        }
    }
}

} // verus!
