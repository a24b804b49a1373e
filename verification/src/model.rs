//! The mathematical model of PDF objects that the contracts speak of.

use vstd::prelude::*;

verus! {

/// Names one indirect object of a document: its object number and its
/// generation.
#[derive(Clone, Copy, Debug, PartialEq, Eq, Structural)]
pub struct ObjectId {
    pub number: u32,
    pub generation: u16,
}

impl ObjectId {
    /// The id of the given object number, with generation zero.
    pub fn new(number: u32) -> (id: ObjectId)
        ensures
            id == (ObjectId { number, generation: 0 }),
    {
        ObjectId { number, generation: 0 }
    }
}

/// One dictionary entry: the key and the value stored under it.
pub type Entry = (Seq<char>, Node);

/// The value of a PDF object, of the kinds that a bill is made of. Names,
/// strings and dictionary keys are given by their characters; the bytes
/// written for them are their UTF-8 encoding.
pub enum Node {
    Integer(int),
    Name(Seq<char>),
    Text(Seq<char>),
    Reference(ObjectId),
    Array(Seq<Node>),
    Dictionary(Seq<Entry>),
    Stream(Seq<Entry>, Seq<u8>),
}

/// One content-stream operation: the operator and its operands in order.
pub struct Operation {
    pub operator: Seq<char>,
    pub operands: Seq<Node>,
}

/// The position of `key` among `entries`, or the length of `entries` where
/// no entry has that key.
pub open spec fn key_position(entries: Seq<Entry>, key: Seq<char>) -> int
    decreases entries.len(),
{
    if entries.len() == 0 {
        0
    } else if entries[0].0 == key {
        0
    } else {
        1 + key_position(entries.drop_first(), key)
    }
}

/// `entries` after `key` is set to `value`: an entry with that key keeps its
/// place and takes the new value, a new key is appended.
pub open spec fn entries_set(entries: Seq<Entry>, key: Seq<char>, value: Node) -> Seq<Entry> {
    let at = key_position(entries, key);
    if at < entries.len() {
        entries.update(at, (key, value))
    } else {
        entries.push((key, value))
    }
}

/// The dictionary that results from setting `pairs` in order, starting from
/// an empty one.
pub open spec fn entries_of(pairs: Seq<Entry>) -> Seq<Entry>
    decreases pairs.len(),
{
    if pairs.len() == 0 {
        Seq::empty()
    } else {
        let last = pairs.last();
        entries_set(entries_of(pairs.drop_last()), last.0, last.1)
    }
}

/// Whether no key occurs twice among `entries`.
pub open spec fn distinct_keys(entries: Seq<Entry>) -> bool {
    forall|i: int, j: int| 0 <= i < j < entries.len() ==> entries[i].0 != entries[j].0
}

/// The value stored under `key`, or `None` where no entry has that key.
pub open spec fn lookup(entries: Seq<Entry>, key: Seq<char>) -> Option<Node> {
    let at = key_position(entries, key);
    if at < entries.len() {
        Some(entries[at].1)
    } else {
        None
    }
}

/// `key_position` finds the first entry with the key, if there is one.
pub proof fn lemma_key_position(entries: Seq<Entry>, key: Seq<char>)
    ensures
        0 <= key_position(entries, key) <= entries.len(),
        key_position(entries, key) < entries.len() ==> entries[key_position(entries, key)].0
            == key,
        forall|i: int| 0 <= i < key_position(entries, key) ==> (#[trigger] entries[i]).0 != key,
    decreases entries.len(),
{
    if entries.len() > 0 && entries[0].0 != key {
        let rest = entries.drop_first();
        lemma_key_position(rest, key);
        assert forall|i: int| 0 <= i < key_position(entries, key) implies (
        #[trigger] entries[i]).0 != key by {
            if i > 0 {
                assert(entries[i] == rest[i - 1]);
            }
        }
    }
}

/// Setting a key that no entry has appends it.
pub proof fn lemma_set_fresh(entries: Seq<Entry>, key: Seq<char>, value: Node)
    requires
        forall|i: int| 0 <= i < entries.len() ==> (#[trigger] entries[i]).0 != key,
    ensures
        entries_set(entries, key, value) == entries.push((key, value)),
{
    lemma_key_position(entries, key);
}

/// Setting pairs with distinct keys in order gives those pairs.
pub proof fn lemma_entries_of_distinct(pairs: Seq<Entry>)
    requires
        distinct_keys(pairs),
    ensures
        entries_of(pairs) == pairs,
    decreases pairs.len(),
{
    if pairs.len() > 0 {
        let front = pairs.drop_last();
        lemma_entries_of_distinct(front);
        lemma_set_fresh(front, pairs.last().0, pairs.last().1);
        assert(front.push(pairs.last()) =~= pairs);
    } else {
        assert(pairs =~= Seq::<Entry>::empty());
    }
}

/// Among distinct keys, the entry at `index` is the one found under its key.
pub proof fn lemma_lookup_distinct(entries: Seq<Entry>, index: int)
    requires
        distinct_keys(entries),
        0 <= index < entries.len(),
    ensures
        lookup(entries, entries[index].0) == Some(entries[index].1),
{
    lemma_key_position(entries, entries[index].0);
}

} // verus!
