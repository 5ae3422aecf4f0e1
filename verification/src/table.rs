//! The table capability the editor core consumes: a sparse, logically
//! unbounded store of raw cell texts together with the evaluated values
//! of the last evaluation pass. The formula evaluator proper is an
//! outside collaborator and is not specified here: at this layer a cell
//! evaluates to its raw text, and what matters to the editor core is the
//! capability's contract — sources move at once, values only move when
//! `evaluate` runs.

use crate::coords::CellPos;
use vstd::prelude::*;

verus! {

/// The text a cell map holds at `pos`, or empty text for a cell it does
/// not hold.
pub open spec fn text_or_empty(m: Map<CellPos, Seq<char>>, pos: CellPos) -> Seq<char> {
    if m.contains_key(pos) {
        m[pos]
    } else {
        Seq::empty()
    }
}

/// Does each position occur at most once in the entry list?
spec fn entries_wf(es: Seq<(CellPos, String)>) -> bool {
    forall|i: int, j: int| 0 <= i < j < es.len() ==> es[i].0 != es[j].0
}

/// The mapping an entry list stands for.
spec fn entries_map(es: Seq<(CellPos, String)>) -> Map<CellPos, Seq<char>>
    decreases es.len(),
{
    if es.len() == 0 {
        Map::empty()
    } else {
        entries_map(es.drop_last()).insert(es.last().0, es.last().1@)
    }
}

/// Every entry of a duplicate-free list is in its map, with its text.
proof fn lemma_entries_map_contains(es: Seq<(CellPos, String)>, i: int)
    requires
        entries_wf(es),
        0 <= i < es.len(),
    ensures
        entries_map(es).contains_key(es[i].0),
        entries_map(es)[es[i].0] == es[i].1@,
    decreases es.len(),
{
    if i < es.len() - 1 {
        assert(entries_wf(es.drop_last()));
        lemma_entries_map_contains(es.drop_last(), i);
        assert(es[i].0 != es.last().0);
    }
}

/// A position no entry holds is not in the map.
proof fn lemma_entries_map_absent(es: Seq<(CellPos, String)>, p: CellPos)
    requires
        forall|i: int| 0 <= i < es.len() ==> es[i].0 != p,
    ensures
        !entries_map(es).contains_key(p),
    decreases es.len(),
{
    if es.len() > 0 {
        lemma_entries_map_absent(es.drop_last(), p);
    }
}

/// Appending a fresh position inserts it into the map and keeps the list
/// duplicate-free.
proof fn lemma_entries_map_push(es: Seq<(CellPos, String)>, p: CellPos, s: String)
    requires
        entries_wf(es),
        forall|i: int| 0 <= i < es.len() ==> es[i].0 != p,
    ensures
        entries_wf(es.push((p, s))),
        entries_map(es.push((p, s))) == entries_map(es).insert(p, s@),
{
    assert(es.push((p, s)).drop_last() =~= es);
}

/// Removing the one entry that holds a position removes it from the map
/// and keeps the list duplicate-free.
proof fn lemma_entries_map_remove(es: Seq<(CellPos, String)>, i: int)
    requires
        entries_wf(es),
        0 <= i < es.len(),
    ensures
        entries_wf(es.remove(i)),
        entries_map(es.remove(i)) == entries_map(es).remove(es[i].0),
    decreases es.len(),
{
    let p = es[i].0;
    if i == es.len() - 1 {
        assert(es.remove(i) =~= es.drop_last());
        assert(forall|j: int| 0 <= j < es.drop_last().len() ==> es.drop_last()[j].0 != p);
        lemma_entries_map_absent(es.drop_last(), p);
        assert(entries_map(es).remove(p) =~= entries_map(es.drop_last()));
    } else {
        assert(entries_wf(es.drop_last()));
        lemma_entries_map_remove(es.drop_last(), i);
        assert(es.remove(i).drop_last() =~= es.drop_last().remove(i));
        assert(es.remove(i).last() == es.last());
        assert(es.last().0 != p);
        assert(entries_map(es.drop_last()).remove(p).insert(es.last().0, es.last().1@)
            =~= entries_map(es.drop_last()).insert(es.last().0, es.last().1@).remove(p));
    }
}

/// Lists equal position-for-position and text-for-text stand for the same
/// map.
proof fn lemma_entries_map_congruent(a: Seq<(CellPos, String)>, b: Seq<(CellPos, String)>)
    requires
        a.len() == b.len(),
        forall|i: int| 0 <= i < a.len() ==> a[i].0 == b[i].0 && a[i].1@ == b[i].1@,
    ensures
        entries_map(a) == entries_map(b),
        entries_wf(a) == entries_wf(b),
    decreases a.len(),
{
    if a.len() > 0 {
        lemma_entries_map_congruent(a.drop_last(), b.drop_last());
        assert(entries_map(a) =~= entries_map(b));
    }
    assert(entries_wf(a) ==> entries_wf(b));
    assert(entries_wf(b) ==> entries_wf(a));
}

/// The sparse table: raw texts, and the values of the last evaluation
/// pass.
pub struct Table {
    sources: Vec<(CellPos, String)>,
    values: Vec<(CellPos, String)>,
}

impl Table {
    /// Raw source text per cell.
    pub closed spec fn source_map(self) -> Map<CellPos, Seq<char>> {
        entries_map(self.sources@)
    }

    /// Evaluated value per cell, as of the last evaluation pass.
    pub closed spec fn value_map(self) -> Map<CellPos, Seq<char>> {
        entries_map(self.values@)
    }

    /// Internal well-formedness: each position is stored at most once.
    pub closed spec fn wf(self) -> bool {
        entries_wf(self.sources@) && entries_wf(self.values@)
    }

    /// The empty table: no sources, nothing evaluated.
    pub fn new() -> (t: Table)
        ensures
            t.wf(),
            t.source_map() == Map::<CellPos, Seq<char>>::empty(),
            t.value_map() == Map::<CellPos, Seq<char>>::empty(),
    {
        Table { sources: Vec::new(), values: Vec::new() }
    }

    /// Index of the entry holding `pos`, if there is one.
    fn find(es: &Vec<(CellPos, String)>, pos: CellPos) -> (r: Option<usize>)
        ensures
            match r {
                Some(i) => i < es@.len() && es@[i as int].0 == pos,
                None => forall|i: int| 0 <= i < es@.len() ==> es@[i].0 != pos,
            },
    {
        let mut i: usize = 0;
        while i < es.len()
            invariant
                0 <= i <= es@.len(),
                forall|j: int| 0 <= j < i ==> es@[j].0 != pos,
            decreases es@.len() - i,
        {
            if es[i].0 == pos {
                return Some(i);
            }
            i += 1;
        }
        None
    }

    /// Raw text of one cell, if it has any.
    pub fn get_source(&self, pos: CellPos) -> (r: Option<String>)
        requires
            self.wf(),
        ensures
            match r {
                Some(s) => self.source_map().contains_key(pos) && s@ == self.source_map()[pos],
                None => !self.source_map().contains_key(pos),
            },
    {
        match Self::find(&self.sources, pos) {
            Some(i) => {
                proof {
                    lemma_entries_map_contains(self.sources@, i as int);
                }
                let e = &self.sources[i];
                Some(e.1.clone())
            },
            None => {
                proof {
                    lemma_entries_map_absent(self.sources@, pos);
                }
                None
            },
        }
    }

    /// Evaluated value of one cell, if the last evaluation pass gave it
    /// one.
    pub fn get(&self, pos: CellPos) -> (r: Option<String>)
        requires
            self.wf(),
        ensures
            match r {
                Some(s) => self.value_map().contains_key(pos) && s@ == self.value_map()[pos],
                None => !self.value_map().contains_key(pos),
            },
    {
        match Self::find(&self.values, pos) {
            Some(i) => {
                proof {
                    lemma_entries_map_contains(self.values@, i as int);
                }
                let e = &self.values[i];
                Some(e.1.clone())
            },
            None => {
                proof {
                    lemma_entries_map_absent(self.values@, pos);
                }
                None
            },
        }
    }

    /// Sets, replaces or clears one cell's raw text. Evaluated values do
    /// not move until the next evaluation pass.
    pub fn set_source(&mut self, pos: CellPos, src: Option<String>)
        requires
            old(self).wf(),
        ensures
            final(self).wf(),
            final(self).value_map() == old(self).value_map(),
            final(self).source_map() == match src {
                Some(s) => old(self).source_map().insert(pos, s@),
                None => old(self).source_map().remove(pos),
            },
    {
        let ghost m0 = self.source_map();
        match Self::find(&self.sources, pos) {
            Some(i) => {
                proof {
                    lemma_entries_map_remove(self.sources@, i as int);
                    assert forall|j: int| 0 <= j < self.sources@.remove(i as int).len() implies self
                        .sources@.remove(i as int)[j].0 != pos by {
                        if j < i {
                            assert(self.sources@.remove(i as int)[j] == self.sources@[j]);
                        } else {
                            assert(self.sources@.remove(i as int)[j] == self.sources@[j + 1]);
                        }
                    }
                }
                self.sources.remove(i);
            },
            None => {},
        }
        // Here no entry holds `pos` and the map is `m0` without it.
        match src {
            Some(s) => {
                proof {
                    lemma_entries_map_push(self.sources@, pos, s);
                    assert(m0.remove(pos).insert(pos, s@) =~= m0.insert(pos, s@));
                    if !m0.contains_key(pos) {
                        assert(m0.remove(pos) =~= m0);
                    }
                }
                self.sources.push((pos, s));
            },
            None => {
                proof {
                    lemma_entries_map_absent(self.sources@, pos);
                    if !m0.contains_key(pos) {
                        assert(m0.remove(pos) =~= m0);
                    }
                }
            },
        }
    }

    /// One evaluation pass: recomputes every cell's value from its raw
    /// source. Until it runs, values are those of the previous pass.
    pub fn evaluate(&mut self)
        requires
            old(self).wf(),
        ensures
            final(self).wf(),
            final(self).source_map() == old(self).source_map(),
            final(self).value_map() == old(self).source_map(),
    {
        let mut vals: Vec<(CellPos, String)> = Vec::new();
        let mut i: usize = 0;
        while i < self.sources.len()
            invariant
                0 <= i <= self.sources@.len(),
                vals@.len() == i,
                self == old(self),
                forall|j: int|
                    0 <= j < i ==> vals@[j].0 == self.sources@[j].0 && vals@[j].1@
                        == self.sources@[j].1@,
            decreases self.sources@.len() - i,
        {
            let e = &self.sources[i];
            vals.push((e.0, e.1.clone()));
            i += 1;
        }
        proof {
            lemma_entries_map_congruent(vals@, self.sources@);
        }
        self.values = vals;
    }
}

} // verus!
