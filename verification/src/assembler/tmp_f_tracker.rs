//! Forward references to temporary labels (`Nf`): the lines that wait for
//! a label, and, once it is defined, its address for each of them.
use vstd::prelude::*;
use crate::assembler::misc::Mode;

verus! {

/// An entry `(line, label, address, mode)`; later entries win.
pub type FoundEntry = (usize, u16, u16, Mode);

/// The address and mode recorded last for `label` as seen from `line`.
pub open spec fn lookup(found: Seq<FoundEntry>, line: usize, label: u16) -> Option<(u16, Mode)>
    decreases found.len(),
{
    if found.len() == 0 {
        None
    } else if found.last().0 == line && found.last().1 == label {
        Some((found.last().2, found.last().3))
    } else {
        lookup(found.drop_last(), line, label)
    }
}

/// The forward references to temporary labels of a pass of the assembler.
#[derive(Debug)]
pub struct TmpFTracker {
    need: Vec<(u16, usize)>,
    found: Vec<FoundEntry>,
}

impl TmpFTracker {
    /// The pairs (label, line) of lines waiting for a label.
    pub closed spec fn needs(&self) -> Set<(u16, usize)> {
        self.need@.to_set()
    }

    /// The address of the next definition of `label` after `line`, once known.
    pub closed spec fn found_at(&self, line: usize, label: u16) -> Option<(u16, Mode)> {
        lookup(self.found@, line, label)
    }

    pub fn new() -> (r: TmpFTracker)
        ensures
            r.needs() == Set::<(u16, usize)>::empty(),
            forall|line: usize, label: u16| r.found_at(line, label) is None,
    {
        let r = TmpFTracker { need: Vec::new(), found: Vec::new() };
        assert(r.need@.to_set() =~= Set::<(u16, usize)>::empty());
        r
    }

    /// The address recorded for `label` as seen from `line`.
    pub fn get(&self, line: usize, label: u16) -> (r: Option<(u16, Mode)>)
        ensures
            r == self.found_at(line, label),
    {
        let mut k = self.found.len();
        proof {
            assert(self.found@.take(k as int) =~= self.found@);
        }
        while k > 0
            invariant
                k <= self.found@.len(),
                lookup(self.found@, line, label) == lookup(self.found@.take(k as int), line, label),
            decreases k,
        {
            let e = self.found[k - 1];
            proof {
                assert(self.found@.take(k as int).drop_last() =~= self.found@.take(k - 1));
            }
            if e.0 == line && e.1 == label {
                return Some((e.2, e.3));
            }
            k = k - 1;
        }
        None
    }

    /// Records that `line` waits for `label`.
    pub fn need(&mut self, line: usize, label: u16)
        ensures
            final(self).needs() == old(self).needs().insert((label, line)),
            forall|l: usize, b: u16| final(self).found_at(l, b) == old(self).found_at(l, b),
    {
        self.need.push((label, line));
        proof {
            old(self).need@.lemma_push_to_set_commute((label, line));
        }
    }

    /// Records that `label` is defined at `loc`: every line waiting for it
    /// gets that address and waits no more.
    pub fn found(&mut self, label: u16, loc: u16, mode: Mode)
        ensures
            final(self).needs() == old(self).needs().filter(|p: (u16, usize)| p.0 != label),
            forall|l: usize, b: u16|
                #[trigger] final(self).found_at(l, b) == if b == label && old(self).needs().contains(
                    (label, l),
                ) {
                    Some((loc, mode))
                } else {
                    old(self).found_at(l, b)
                },
    {
        let ghost found0 = self.found@;
        let mut kept: Vec<(u16, usize)> = Vec::new();
        let mut i: usize = 0;
        while i < self.need.len()
            invariant
                i <= self.need@.len(),
                self.need@ == old(self).need@,
                kept@.to_set() == self.need@.take(i as int).to_set().filter(
                    |p: (u16, usize)| p.0 != label,
                ),
                forall|l: usize, b: u16|
                    #[trigger] lookup(self.found@, l, b) == if b == label && self.need@.take(
                        i as int,
                    ).to_set().contains((label, l)) {
                        Some((loc, mode))
                    } else {
                        lookup(found0, l, b)
                    },
            decreases self.need@.len() - i,
        {
            let p = self.need[i];
            proof {
                assert(self.need@.take(i + 1) =~= self.need@.take(i as int).push(p));
                self.need@.take(i as int).lemma_push_to_set_commute(p);
                kept@.lemma_push_to_set_commute(p);
            }
            if p.0 == label {
                let ghost before = self.found@;
                self.found.push((p.1, label, loc, mode));
                proof {
                    assert forall|l: usize, b: u16| #[trigger] lookup(self.found@, l, b) == if b
                        == label && self.need@.take(i + 1).to_set().contains((label, l)) {
                        Some((loc, mode))
                    } else {
                        lookup(found0, l, b)
                    } by {
                        assert(self.found@.drop_last() =~= before);
                        let old_l = lookup(before, l, b);
                        assert(old_l == if b == label && self.need@.take(i as int).to_set().contains(
                            (label, l),
                        ) {
                            Some((loc, mode))
                        } else {
                            lookup(found0, l, b)
                        });
                        assert(self.need@.take(i + 1).to_set().contains((label, l)) == (
                        self.need@.take(i as int).to_set().contains((label, l)) || (label, l)
                            == p));
                    }
                    assert(kept@.to_set() =~= self.need@.take(i + 1).to_set().filter(
                        |q: (u16, usize)| q.0 != label,
                    ));
                }
            } else {
                kept.push(p);
                proof {
                    assert(kept@.to_set() =~= self.need@.take(i + 1).to_set().filter(
                        |q: (u16, usize)| q.0 != label,
                    ));
                }
            }
            i = i + 1;
        }
        proof {
            assert(self.need@.take(i as int) =~= self.need@);
        }
        self.need = kept;
    }
}

} // verus!
