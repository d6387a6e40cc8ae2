//! The catalogue of known tags: what each one is called, the kind of its
//! value, how many values it may hold, and whether it is retired.

use std::collections::HashMap;
use vstd::prelude::*;
use crate::kind::VrKind;

verus! {

broadcast use vstd::std_specs::hash::group_hash_axioms;

/// What the catalogue says of one tag.
#[derive(Debug, Clone, PartialEq, Eq)]
pub struct AttributeMetadata {
    pub name: String,
    pub vr_kind: VrKind,
    pub multiplicity: String,
    pub is_deprecated: bool,
}

/// A catalogue of tags, each one a pair of group and element.
#[derive(Debug)]
pub struct TagRegistry {
    table: HashMap<u32, AttributeMetadata>,
}

/// The number under which a tag is filed: its group, then its element.
pub open spec fn tag_key(tag: (u16, u16)) -> u32 {
    (tag.0 as u32 * 65536 + tag.1 as u32) as u32
}

fn key_of(tag: (u16, u16)) -> (res: u32)
    ensures
        res == tag_key(tag),
        forall|other: (u16, u16)| tag_key(other) == res ==> other == tag,
{
    tag.0 as u32 * 65536 + tag.1 as u32
}

impl View for TagRegistry {
    type V = Map<(u16, u16), AttributeMetadata>;

    closed spec fn view(&self) -> Map<(u16, u16), AttributeMetadata> {
        Map::new(
            |tag: (u16, u16)| self.table@.contains_key(tag_key(tag)),
            |tag: (u16, u16)| self.table@[tag_key(tag)],
        )
    }
}

impl TagRegistry {
    /// A catalogue that knows no tag.
    pub fn new() -> (res: TagRegistry)
        ensures
            res@ == Map::<(u16, u16), AttributeMetadata>::empty(),
    {
        let res = TagRegistry { table: HashMap::new() };
        res
    }

    /// Files `metadata` under `tag`, in place of what was filed there before.
    pub fn register(&mut self, tag: (u16, u16), metadata: AttributeMetadata)
        ensures
            final(self)@ == old(self)@.insert(tag, metadata),
    {
        let key = key_of(tag);
        self.table.insert(key, metadata);
    }

    /// What the catalogue says of `tag`, if it knows the tag.
    pub fn lookup(&self, tag: (u16, u16)) -> (res: Option<&AttributeMetadata>)
        ensures
            match res {
                Some(m) => self@.contains_key(tag) && *m == self@[tag],
                None => !self@.contains_key(tag),
            },
    {
        let key = key_of(tag);
        self.table.get(&key)
    }

    /// Whether the catalogue knows `tag`.
    pub fn contains(&self, tag: (u16, u16)) -> (res: bool)
        ensures
            res == self@.contains_key(tag),
    {
        let key = key_of(tag);
        self.table.contains_key(&key)
    }
}

} // verus!
