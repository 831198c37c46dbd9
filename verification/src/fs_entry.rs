//! The entries of a mirrored file system: one per file or directory, with its
//! path, the other paths that reach it, its attributes and, for a directory
//! whose listing has been read, its children.
//!
//! Path components are interned: a path is the sequence of the ids of its
//! components' names.

use crate::protocol::xdr::nfs3::{createverf3, fattr3, fileid3, ftype3};
use std::collections::BTreeMap;
use vstd::prelude::*;

verus! {

broadcast use {vstd::std_specs::btree::group_btree_axioms, vstd::laws_cmp::group_laws_cmp};

/// `a` comes before `b` in lexicographic order.
pub open spec fn path_lt(a: Seq<u32>, b: Seq<u32>) -> bool
    decreases a.len(),
{
    if a.len() == 0 {
        b.len() > 0
    } else if b.len() == 0 {
        false
    } else if a[0] < b[0] {
        true
    } else if a[0] == b[0] {
        path_lt(a.drop_first(), b.drop_first())
    } else {
        false
    }
}

/// The paths of `aliases`, in the order in which they are held.
pub open spec fn alias_paths(aliases: Seq<Vec<u32>>) -> Seq<Seq<u32>> {
    aliases.map_values(|p: Vec<u32>| p@)
}

/// A file system entry representing a file or directory
#[derive(Debug, Clone)]
pub struct FSEntry {
    /// The name of the entry as a list of symbols
    pub name: Vec<u32>,
    /// All path aliases for this entry, each once, in increasing
    /// lexicographic order
    pub aliases: Vec<Vec<u32>>,
    /// The file attributes of the entry
    pub fsmeta: fattr3,
    /// Metadata when building the children list
    pub children_meta: fattr3,
    /// Optional map of child name symbol to file ID
    pub children: Option<BTreeMap<u32, fileid3>>,
    /// Optional verifier for exclusive creates
    pub exclusive_verifier: Option<createverf3>,
}

impl FSEntry {
    /// The aliases form a set held in increasing order.
    pub open spec fn wf(&self) -> bool {
        forall|i: int, j: int|
            0 <= i < j < self.aliases@.len() ==> path_lt(
                #[trigger] alias_paths(self.aliases@)[i],
                #[trigger] alias_paths(self.aliases@)[j],
            )
    }

    /// The children of the entry, when its listing has been read.
    pub open spec fn children_map(&self) -> Option<Map<u32, fileid3>> {
        match self.children {
            Some(c) => Some(c@),
            None => None,
        }
    }

    /// Creates a new file system entry, whose only alias is its name, whose
    /// children are not yet known and that has no exclusive-create verifier.
    pub fn new(name: Vec<u32>, fsmeta: fattr3) -> (entry: Self)
        ensures
            entry.wf(),
            entry.name@ == name@,
            alias_paths(entry.aliases@) == seq![name@],
            entry.fsmeta == fsmeta,
            entry.children_meta == fsmeta,
            entry.children is None,
            entry.exclusive_verifier is None,
    {
        let mut aliases: Vec<Vec<u32>> = Vec::new();
        aliases.push(copy_path(&name));
        proof {
            assert(alias_paths(aliases@) =~= seq![name@]);
        }
        FSEntry { name, aliases, fsmeta, children_meta: fsmeta, children: None, exclusive_verifier: None }
    }

    /// Checks if the entry is a directory
    pub fn is_directory(&self) -> (dir: bool)
        ensures
            dir == (self.fsmeta.ftype == ftype3::NF3DIR),
    {
        match self.fsmeta.ftype {
            ftype3::NF3DIR => true,
            _ => false,
        }
    }

    /// Checks if the entry has children
    pub fn has_children(&self) -> (known: bool)
        ensures
            known == self.children is Some,
    {
        self.children.is_some()
    }

    /// Adds a child to the entry; a directory whose children were not yet
    /// known now has just this one.
    pub fn add_child(&mut self, name: u32, child_id: fileid3)
        ensures
            final(self).children_map() == Some(
                match old(self).children_map() {
                    Some(c) => c.insert(name, child_id),
                    None => Map::<u32, fileid3>::empty().insert(name, child_id),
                },
            ),
            final(self).name == old(self).name,
            final(self).aliases == old(self).aliases,
            final(self).fsmeta == old(self).fsmeta,
            final(self).children_meta == old(self).children_meta,
            final(self).exclusive_verifier == old(self).exclusive_verifier,
    {
        match self.children.take() {
            Some(mut children) => {
                children.insert(name, child_id);
                self.children = Some(children);
            },
            None => {
                let mut children: BTreeMap<u32, fileid3> = BTreeMap::new();
                children.insert(name, child_id);
                self.children = Some(children);
            },
        }
    }

    /// Removes a child from the entry; an entry whose children are not
    /// known is left as it is.
    pub fn remove_child(&mut self, name: u32)
        ensures
            final(self).children_map() == match old(self).children_map() {
                Some(c) => Some(c.remove(name)),
                None => None,
            },
            final(self).name == old(self).name,
            final(self).aliases == old(self).aliases,
            final(self).fsmeta == old(self).fsmeta,
            final(self).children_meta == old(self).children_meta,
            final(self).exclusive_verifier == old(self).exclusive_verifier,
    {
        match self.children.take() {
            Some(mut children) => {
                children.remove(&name);
                self.children = Some(children);
            },
            None => {},
        }
    }
}

/// A copy of the path `path`.
fn copy_path(path: &Vec<u32>) -> (copy: Vec<u32>)
    ensures
        copy@ == path@,
{
    let mut copy: Vec<u32> = Vec::new();
    let mut i: usize = 0;
    while i < path.len()
        invariant
            i <= path@.len(),
            copy@ == path@.subrange(0, i as int),
        decreases path@.len() - i,
    {
        copy.push(path[i]);
        assert(path@.subrange(0, i + 1) =~= path@.subrange(0, i as int).push(path@[i as int]));
        i = i + 1;
    }
    assert(path@.subrange(0, path@.len() as int) =~= path@);
    copy
}

} // verus!
