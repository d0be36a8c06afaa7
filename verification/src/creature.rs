//! The first creature list: name, initiative and armor class, kept with the
//! highest initiative first.

use vstd::prelude::*;

verus! {

/// Individual creature data.
#[derive(Debug)]
pub struct Creature {
    pub name: String,
    pub initiative: u8,
    pub ac: u8,
}

impl Default for Creature {
    fn default() -> (c: Self)
        ensures
            c.name@ == Seq::<char>::empty(),
            c.initiative == 0,
            c.ac == 0,
    {
        Creature { name: String::new(), initiative: 0, ac: 0 }
    }
}

/// No creature comes before one with a higher initiative.
pub open spec fn initiative_descending(s: Seq<Creature>) -> bool {
    forall|i: int, j: int| 0 <= i < j < s.len() ==> (#[trigger] s[i]).initiative >= (#[trigger] s[j]).initiative
}

/// `p` is where a creature with `initiative` goes in `s`: after every
/// creature with at least that initiative, before every one with less.
pub open spec fn initiative_slot(s: Seq<Creature>, initiative: u8, p: int) -> bool {
    &&& 0 <= p <= s.len()
    &&& forall|j: int| 0 <= j < p ==> (#[trigger] s[j]).initiative >= initiative
    &&& forall|j: int| p <= j < s.len() ==> (#[trigger] s[j]).initiative < initiative
}

/// The creatures, highest initiative first; creatures with equal initiative
/// keep the order they were added in.
#[derive(Debug)]
pub struct Creatures {
    sorted: Vec<Creature>,
}

impl View for Creatures {
    type V = Seq<Creature>;

    closed spec fn view(&self) -> Seq<Creature> {
        self.sorted@
    }
}

impl Creatures {
    #[verifier::type_invariant]
    spec fn ordered(self) -> bool {
        initiative_descending(self.sorted@)
    }
}

impl Default for Creatures {
    fn default() -> (empty: Self)
        ensures
            empty@ == Seq::<Creature>::empty(),
    {
        Creatures { sorted: Vec::new() }
    }
}

impl Creatures {
    /// Adds a creature after every creature with at least its initiative.
    pub fn add(&mut self, creature: Creature)
        ensures
            initiative_descending(final(self)@),
            exists|p: int|
                initiative_slot(old(self)@, creature.initiative, p) && final(self)@ == old(self)@.insert(
                    p,
                    creature,
                ),
    {
        proof {
            use_type_invariant(&*self);
        }
        let mut sorted: Vec<Creature> = Vec::new();
        std::mem::swap(&mut sorted, &mut self.sorted);
        let ghost s = sorted@;
        let mut p: usize = 0;
        while p < sorted.len() && sorted[p].initiative >= creature.initiative
            invariant
                p <= sorted.len(),
                sorted@ == s,
                forall|j: int| 0 <= j < p ==> (#[trigger] s[j]).initiative >= creature.initiative,
            decreases sorted.len() - p,
        {
            p = p + 1;
        }
        let ghost c = creature;
        assert(initiative_slot(s, c.initiative, p as int)) by {
            assert forall|j: int| p <= j < s.len() implies (#[trigger] s[j]).initiative < c.initiative by {
                if j > p {
                    assert(s[p as int].initiative >= s[j].initiative);
                }
            }
        }
        sorted.insert(p, creature);
        assert(initiative_descending(sorted@)) by {
            let t = sorted@;
            assert forall|a: int, b: int| 0 <= a < b < t.len() implies (#[trigger] t[a]).initiative >= (
            #[trigger] t[b]).initiative by {
                if b < p {
                    assert(t[a] == s[a] && t[b] == s[b]);
                } else if b == p {
                    assert(t[a] == s[a]);
                } else if a < p {
                    assert(t[a] == s[a] && t[b] == s[b - 1]);
                } else if a == p {
                    assert(t[b] == s[b - 1]);
                } else {
                    assert(t[a] == s[a - 1] && t[b] == s[b - 1]);
                }
            }
        }
        self.sorted = sorted;
        assert(s == old(self)@);
        assert(initiative_slot(old(self)@, c.initiative, p as int) && self@ == old(self)@.insert(p as int, c));
    }

    /// The creatures, highest initiative first, without consuming them.
    pub fn iter(&self) -> (it: std::slice::Iter<'_, Creature>)
        ensures
            vstd::std_specs::slice::into_iter_elts(it) == self@,
    {
        self.sorted.as_slice().iter()
    }
}

impl<'a> IntoIterator for &'a Creatures {
    type Item = &'a Creature;
    type IntoIter = std::slice::Iter<'a, Creature>;

    fn into_iter(self) -> (it: std::slice::Iter<'a, Creature>)
        ensures
            vstd::std_specs::slice::into_iter_elts(it) == self@,
    {
        self.iter()
    }
}

} // verus!
