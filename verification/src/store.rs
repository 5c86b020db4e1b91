//! The puzzle store: a keyed mapping from an owner identity to its puzzle.
//!
//! The store is the contract's only persistent state, modelled here as an
//! explicit value handed into each operation. Its mathematical content is a
//! `Map` from the owner's address bytes to the puzzle's value; the concrete
//! representation is an association list whose keys are pairwise distinct.
//! Loading the state from the storage adapter and committing it back are the
//! adapter's work and happen outside this library.

use vstd::prelude::*;

use crate::puzzle::{Puzzle, PuzzleView};

verus! {

/// The width, in bytes, of an owner identity.
pub const ADDRESS_LEN: usize = 20;

/// A fixed-width identity naming a puzzle owner or a caller; the storage key.
pub struct Address {
    pub bytes: Vec<u8>,
}

impl View for Address {
    type V = Seq<u8>;

    open spec fn view(&self) -> Seq<u8> {
        self.bytes@
    }
}

impl Address {
    /// An address is well formed when it has exactly [`ADDRESS_LEN`] bytes.
    pub open spec fn wf(&self) -> bool {
        self.bytes@.len() == ADDRESS_LEN
    }
}

impl Clone for Address {
    fn clone(&self) -> (r: Self)
        ensures
            r@ == self@,
    {
        let mut bytes: Vec<u8> = Vec::new();
        let mut i: usize = 0;
        while i < self.bytes.len()
            invariant
                i <= self.bytes.len(),
                bytes@ == self.bytes@.subrange(0, i as int),
            decreases self.bytes.len() - i,
        {
            bytes.push(self.bytes[i]);
            i = i + 1;
            proof {
                assert(bytes@ =~= self.bytes@.subrange(0, i as int));
            }
        }
        proof {
            assert(bytes@ =~= self.bytes@);
        }
        Address { bytes }
    }
}

/// Decides whether two addresses name the same identity.
pub fn addr_eq(a: &Address, b: &Address) -> (r: bool)
    ensures
        r == (a@ == b@),
{
    if a.bytes.len() != b.bytes.len() {
        return false;
    }
    let mut i: usize = 0;
    while i < a.bytes.len()
        invariant
            a.bytes@.len() == b.bytes@.len(),
            i <= a.bytes.len(),
            forall|j: int| 0 <= j < i ==> a.bytes@[j] == b.bytes@[j],
        decreases a.bytes.len() - i,
    {
        if a.bytes[i] != b.bytes[i] {
            return false;
        }
        i = i + 1;
    }
    proof {
        assert(a@ =~= b@);
    }
    true
}

/// The address keys of the entries are pairwise distinct.
pub(crate) open spec fn keys_unique(s: Seq<(Address, Puzzle)>) -> bool {
    forall|i: int, j: int|
        #![trigger s[i], s[j]]
        0 <= i < j < s.len() ==> s[i].0@ != s[j].0@
}

/// Every entry holds a well-formed address and a well-formed puzzle.
pub(crate) open spec fn entries_wf(s: Seq<(Address, Puzzle)>) -> bool {
    forall|i: int| 0 <= i < s.len() ==> (#[trigger] s[i]).0.wf() && s[i].1.wf()
}

/// The mapping that a sequence of entries stands for; later entries win.
pub(crate) open spec fn entries_map(s: Seq<(Address, Puzzle)>) -> Map<Seq<u8>, PuzzleView>
    decreases s.len(),
{
    if s.len() == 0 {
        Map::empty()
    } else {
        entries_map(s.drop_last()).insert(s.last().0@, s.last().1@)
    }
}

/// The mapping holds a key exactly when some entry carries it.
proof fn lemma_entries_map_contains(s: Seq<(Address, Puzzle)>, k: Seq<u8>)
    ensures
        entries_map(s).contains_key(k) <==> exists|i: int|
            0 <= i < s.len() && (#[trigger] s[i]).0@ == k,
    decreases s.len(),
{
    if s.len() == 0 {
    } else {
        lemma_entries_map_contains(s.drop_last(), k);
        if s.last().0@ == k {
            assert(s[s.len() - 1].0@ == k);
        } else {
            assert forall|i: int| 0 <= i < s.len() && (#[trigger] s[i]).0@ == k implies 0 <= i
                < s.drop_last().len() && s.drop_last()[i].0@ == k by {
                assert(i != s.len() - 1);
            }
            assert forall|i: int|
                0 <= i < s.drop_last().len() && (#[trigger] s.drop_last()[i]).0@
                    == k implies 0 <= i < s.len() && s[i].0@ == k by {}
        }
    }
}

/// With distinct keys, each entry's key maps to that entry's puzzle.
proof fn lemma_entries_map_value(s: Seq<(Address, Puzzle)>, i: int)
    requires
        keys_unique(s),
        0 <= i < s.len(),
    ensures
        entries_map(s).contains_key(s[i].0@),
        entries_map(s)[s[i].0@] == s[i].1@,
    decreases s.len(),
{
    if i == s.len() - 1 {
    } else {
        assert(keys_unique(s.drop_last()));
        lemma_entries_map_value(s.drop_last(), i);
        assert(s.drop_last()[i] == s[i]);
        assert(s[i].0@ != s.last().0@);
    }
}

/// Finds the position of the entry keyed by `owner`, if there is one.
fn find_index(entries: &Vec<(Address, Puzzle)>, owner: &Address) -> (r: Option<usize>)
    ensures
        match r {
            Some(i) => i < entries@.len() && entries@[i as int].0@ == owner@,
            None => forall|j: int|
                0 <= j < entries@.len() ==> (#[trigger] entries@[j]).0@ != owner@,
        },
{
    let mut i: usize = 0;
    while i < entries.len()
        invariant
            i <= entries@.len(),
            forall|j: int| 0 <= j < i ==> (#[trigger] entries@[j]).0@ != owner@,
        decreases entries@.len() - i,
    {
        if addr_eq(&entries[i].0, owner) {
            return Some(i);
        }
        i = i + 1;
    }
    None
}

/// The store of all puzzles, keyed by their owners' addresses.
pub struct PuzzleStore {
    entries: Vec<(Address, Puzzle)>,
}

impl View for PuzzleStore {
    type V = Map<Seq<u8>, PuzzleView>;

    closed spec fn view(&self) -> Map<Seq<u8>, PuzzleView> {
        entries_map(self.entries@)
    }
}

impl PuzzleStore {
    /// Keys are distinct, addresses are fixed-width, stored words non-empty.
    pub closed spec fn wf(&self) -> bool {
        keys_unique(self.entries@) && entries_wf(self.entries@)
    }

    /// Creates the empty puzzle collection, run once at contract genesis.
    pub fn new() -> (s: PuzzleStore)
        ensures
            s.wf(),
            s@ == Map::<Seq<u8>, PuzzleView>::empty(),
    {
        PuzzleStore { entries: Vec::new() }
    }

    /// Every puzzle the store holds has a non-empty word.
    pub proof fn lemma_words_nonempty(&self)
        requires
            self.wf(),
        ensures
            forall|k: Seq<u8>| self@.contains_key(k) ==> (#[trigger] self@[k]).word.len() > 0,
    {
        assert forall|k: Seq<u8>| self@.contains_key(k) implies (#[trigger] self@[k]).word.len()
            > 0 by {
            lemma_entries_map_contains(self.entries@, k);
            let i = choose|i: int|
                0 <= i < self.entries@.len() && (#[trigger] self.entries@[i]).0@ == k;
            lemma_entries_map_value(self.entries@, i);
        }
    }

    /// Point lookup; absence is a normal outcome.
    pub fn get(&self, owner: &Address) -> (r: Option<&Puzzle>)
        requires
            self.wf(),
        ensures
            match r {
                Some(p) => self@.contains_key(owner@) && p@ == self@[owner@],
                None => !self@.contains_key(owner@),
            },
    {
        let n = self.entries.len();
        let mut i: usize = 0;
        while i < n
            invariant
                self.wf(),
                n == self.entries@.len(),
                i <= n,
                forall|j: int| 0 <= j < i ==> (#[trigger] self.entries@[j]).0@ != owner@,
            decreases n - i,
        {
            if addr_eq(&self.entries[i].0, owner) {
                proof {
                    lemma_entries_map_value(self.entries@, i as int);
                }
                return Some(&self.entries[i].1);
            }
            i = i + 1;
        }
        proof {
            lemma_entries_map_contains(self.entries@, owner@);
        }
        None
    }

    /// Upserts the owner's puzzle; a prior puzzle at the same owner is
    /// replaced without history.
    pub fn set(&mut self, owner: &Address, puzzle: Puzzle)
        requires
            old(self).wf(),
            owner.wf(),
            puzzle.wf(),
        ensures
            final(self).wf(),
            final(self)@ == old(self)@.insert(owner@, puzzle@),
    {
        let ghost s0 = self.entries@;
        let found = find_index(&self.entries, owner);
        match found {
            Some(idx) => {
                self.entries.remove(idx);
                proof {
                    s0.remove_ensures(idx as int);
                }
            },
            None => {
                proof {
                    lemma_entries_map_contains(s0, owner@);
                }
            },
        }
        let ghost s1 = self.entries@;
        proof {
            assert(keys_unique(s1) && entries_wf(s1)) by {
                assert forall|a: int, b: int|
                    #![trigger s1[a], s1[b]]
                    0 <= a < b < s1.len() implies s1[a].0@ != s1[b].0@ by {
                    if found is Some {
                        let idx = found->0 as int;
                        let a0: int = if a < idx { a } else { a + 1 };
                        let b0: int = if b < idx { b } else { b + 1 };
                        assert(s1[a] == s0[a0] && s1[b] == s0[b0]);
                        assert(s0[a0].0@ != s0[b0].0@);
                    }
                }
                assert forall|a: int| 0 <= a < s1.len() implies (#[trigger] s1[a]).0.wf()
                    && s1[a].1.wf() by {
                    if found is Some {
                        let idx = found->0 as int;
                        let a0: int = if a < idx { a } else { a + 1 };
                        assert(s1[a] == s0[a0]);
                        assert(s0[a0].0.wf() && s0[a0].1.wf());
                    }
                }
            }
            assert(forall|j: int| 0 <= j < s1.len() ==> (#[trigger] s1[j]).0@ != owner@) by {
                if found is Some {
                    let idx = found->0 as int;
                    assert forall|j: int| 0 <= j < s1.len() implies (#[trigger] s1[j]).0@
                        != owner@ by {
                        let j0: int = if j < idx { j } else { j + 1 };
                        assert(s1[j] == s0[j0]);
                        assert(s0[idx].0@ == owner@);
                        if j0 != idx {
                            assert(s0[j0].0@ != s0[idx].0@);
                        }
                    }
                }
            }
        }
        self.entries.push((owner.clone(), puzzle));
        proof {
            let s2 = self.entries@;
            assert(s2.drop_last() =~= s1);
            assert(s2.last().0@ == owner@ && s2.last().1@ == puzzle@);
            assert(entries_map(s2) == entries_map(s1).insert(owner@, puzzle@));
            assert(keys_unique(s2) && entries_wf(s2)) by {
                assert forall|a: int, b: int|
                    #![trigger s2[a], s2[b]]
                    0 <= a < b < s2.len() implies s2[a].0@ != s2[b].0@ by {
                    assert(s2[a] == s1[a]);
                    if b < s2.len() - 1 {
                        assert(s2[b] == s1[b]);
                    }
                }
                assert forall|a: int| 0 <= a < s2.len() implies (#[trigger] s2[a]).0.wf()
                    && s2[a].1.wf() by {
                    if a < s2.len() - 1 {
                        assert(s2[a] == s1[a]);
                    }
                }
            }
            assert(entries_map(s2) =~= entries_map(s0).insert(owner@, puzzle@)) by {
                let m1 = entries_map(s2);
                let m2 = entries_map(s0).insert(owner@, puzzle@);
                assert forall|k: Seq<u8>| m1.contains_key(k) implies m2.contains_key(k) by {
                    lemma_entries_map_contains(s2, k);
                    if k != owner@ {
                        let j = choose|j: int| 0 <= j < s2.len() && (#[trigger] s2[j]).0@ == k;
                        assert(j < s2.len() - 1);
                        assert(s2[j] == s1[j]);
                        if found is Some {
                            let idx = found->0 as int;
                            assert(s1[j] == if j < idx { s0[j] } else { s0[j + 1] });
                        }
                        lemma_entries_map_contains(s0, k);
                    }
                }
                assert forall|k: Seq<u8>| m2.contains_key(k) implies m1.contains_key(k) by {
                    lemma_entries_map_contains(s2, k);
                    if k == owner@ {
                        assert(s2[s2.len() - 1].0@ == k);
                    } else {
                        lemma_entries_map_contains(s0, k);
                        let j = choose|j: int| 0 <= j < s0.len() && (#[trigger] s0[j]).0@ == k;
                        if found is Some {
                            let idx = found->0 as int;
                            assert(j != idx);
                            if j < idx {
                                assert(s1[j] == s0[j]);
                                assert(s2[j] == s0[j]);
                            } else {
                                assert(s1[j - 1] == s0[j]);
                                assert(s2[j - 1] == s0[j]);
                            }
                        } else {
                            assert(s2[j] == s0[j]);
                        }
                    }
                }
                assert forall|k: Seq<u8>| m1.contains_key(k) implies m1[k] == m2[k] by {
                    lemma_entries_map_contains(s2, k);
                    let j = choose|j: int| 0 <= j < s2.len() && (#[trigger] s2[j]).0@ == k;
                    lemma_entries_map_value(s2, j);
                    if k == owner@ {
                        assert(j == s2.len() - 1) by {
                            if j < s2.len() - 1 {
                                assert(s2[j] == s1[j]);
                            }
                        }
                        assert(m1[k] == puzzle@);
                    } else {
                        assert(j < s2.len() - 1);
                        assert(s2[j] == s1[j]);
                        if found is Some {
                            let idx = found->0 as int;
                            let j0 = if j < idx { j } else { j + 1 };
                            assert(s1[j] == s0[j0]);
                            lemma_entries_map_value(s0, j0);
                        } else {
                            lemma_entries_map_value(s0, j);
                        }
                    }
                }
            }
        }
    }
}

} // verus!
