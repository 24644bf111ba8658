//! The labels of the function being lowered.

use crate::ir::builder::Block;
use vstd::prelude::*;

verus! {

/// A map from label names to the blocks that they stand for, kept as a list
/// of entries in which no name occurs twice.
pub struct LabelMap {
    entries: Vec<(String, Block)>,
}

/// Whether some entry of `entries` has the name `name`.
pub closed spec fn has_name(entries: Seq<(String, Block)>, name: Seq<char>) -> bool {
    exists|i: int| 0 <= i < entries.len() && #[trigger] entries[i].0@ == name
}

/// The place of an entry of `entries` that has the name `name`.
pub closed spec fn place_of(entries: Seq<(String, Block)>, name: Seq<char>) -> int {
    choose|i: int| 0 <= i < entries.len() && #[trigger] entries[i].0@ == name
}

impl LabelMap {
    /// No name occurs twice among the entries.
    pub closed spec fn wf(&self) -> bool {
        forall|i: int, j: int|
            0 <= i < j < self.entries@.len() ==> #[trigger] self.entries@[i].0@
                != #[trigger] self.entries@[j].0@
    }

    /// The map that this value stands for.
    pub closed spec fn view(&self) -> Map<Seq<char>, Block> {
        Map::new(
            |name: Seq<char>| has_name(self.entries@, name),
            |name: Seq<char>| self.entries@[place_of(self.entries@, name)].1,
        )
    }

    /// The empty map.
    pub fn new() -> (r: LabelMap)
        ensures
            r.wf(),
            r@ == Map::<Seq<char>, Block>::empty(),
    {
        let r = LabelMap { entries: Vec::new() };
        assert(r@ =~= Map::<Seq<char>, Block>::empty());
        r
    }

    /// Where `name` stands in the entries, if it does.
    fn find(&self, name: &String) -> (r: Option<usize>)
        ensures
            match r {
                Some(i) => i < self.entries@.len() && self.entries@[i as int].0@ == name@,
                None => !has_name(self.entries@, name@),
            },
    {
        let mut i: usize = 0;
        while i < self.entries.len()
            invariant
                i <= self.entries@.len(),
                forall|k: int| 0 <= k < i ==> self.entries@[k].0@ != name@,
            decreases self.entries@.len() - i,
        {
            if self.entries[i].0 == *name {
                return Some(i);
            }
            i += 1;
        }
        None
    }

    /// The block that `name` stands for, if it is a label.
    pub fn get(&self, name: &String) -> (r: Option<Block>)
        requires
            self.wf(),
        ensures
            r == (if self@.contains_key(name@) {
                Some(self@[name@])
            } else {
                None
            }),
    {
        match self.find(name) {
            Some(i) => {
                assert(has_name(self.entries@, name@));
                Some(self.entries[i].1)
            },
            None => None,
        }
    }

    /// Lets `name` stand for `block`, and returns the block that it stood
    /// for before, if it was a label already.
    pub fn insert(&mut self, name: String, block: Block) -> (r: Option<Block>)
        requires
            old(self).wf(),
        ensures
            final(self).wf(),
            final(self)@ == old(self)@.insert(name@, block),
            r == (if old(self)@.contains_key(name@) {
                Some(old(self)@[name@])
            } else {
                None
            }),
    {
        let ghost before = self.entries@;
        match self.find(&name) {
            Some(i) => {
                assert(has_name(before, name@));
                let previous = self.entries[i].1;
                self.entries[i] = (name, block);
                proof {
                    let after = self.entries@;
                    assert forall|n: Seq<char>| has_name(after, n) == has_name(before, n) by {
                        if has_name(before, n) {
                            let k = place_of(before, n);
                            assert(after[k].0@ == n);
                        }
                        if has_name(after, n) {
                            let k = place_of(after, n);
                            assert(before[k].0@ == n);
                        }
                    }
                    assert(self@ =~= old(self)@.insert(name@, block));
                }
                Some(previous)
            },
            None => {
                self.entries.push((name, block));
                proof {
                    let after = self.entries@;
                    assert(after[before.len() as int].0@ == name@);
                    assert forall|n: Seq<char>| has_name(after, n) == (has_name(before, n) || n
                        == name@) by {
                        if has_name(before, n) {
                            let k = place_of(before, n);
                            assert(after[k].0@ == n);
                        }
                        if has_name(after, n) {
                            let k = place_of(after, n);
                            if k < before.len() {
                                assert(before[k].0@ == n);
                            }
                        }
                    }
                    assert(self@ =~= old(self)@.insert(name@, block));
                }
                None
            },
        }
    }
}

} // verus!
