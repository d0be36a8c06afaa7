//! Creatures and the collection that keeps them in display order.

use vstd::prelude::*;
use vstd::std_specs::iter::IteratorSpec;
use vstd::seq_lib::lemma_multiset_commutative;

use crate::text::{chars_less, chars_lt, chars_of, lemma_chars_lt_total, lemma_chars_lt_transitive, lemma_chars_lt_irreflexive, lowercase_of, to_lowercase};

use crate::order::{lemma_insert_stable_at, lemma_stable_sorted_ordered, ordered_by, stable_sorted};

verus! {

broadcast use vstd::seq_lib::group_to_multiset_ensures;

/// Stable identifier for a creature. The value `0` means "not assigned yet".
#[derive(Clone, Copy, Debug, Default, Eq, Hash, Ord, PartialEq, PartialOrd, Structural)]
pub struct CreatureId(pub u64);

impl CreatureId {
    /// The identifier with the given raw value.
    pub fn new(value: u64) -> (id: Self)
        ensures
            id.0 == value,
    {
        CreatureId(value)
    }

    /// The raw value of the identifier.
    pub fn get(self) -> (value: u64)
        ensures
            value == self.0,
    {
        self.0
    }

    fn is_assigned(self) -> (assigned: bool)
        ensures
            assigned == (self.0 != 0),
    {
        self.0 != 0
    }

    /// The fresh-identifier counter once this identifier is known to be taken:
    /// it moves past the identifier (saturating) and never moves back.
    fn reserve_next_after(self, next: u64) -> (reserved: u64)
        ensures
            reserved == reserve_after(self.0, next),
    {
        let bound = self.0.saturating_add(1);
        if next < bound {
            bound
        } else {
            next
        }
    }
}

/// The fresh-identifier counter `next` after the identifier `id` is taken.
pub open spec fn reserve_after(id: u64, next: u64) -> u64 {
    let bound: u64 = if id == u64::MAX { u64::MAX } else { (id + 1) as u64 };
    if next < bound { bound } else { next }
}

/// Individual creature data.
#[derive(Debug, Eq, PartialEq)]
pub struct Creature {
    pub id: CreatureId,
    pub name: String,
    pub initiative: Option<i32>,
    pub ac: Option<i32>,
    pub description: String,
    /// Current health; `modify_health` keeps it at or below `max_health`.
    pub health: i32,
    pub max_health: i32,
}

impl Clone for Creature {
    fn clone(&self) -> (copy: Self)
        ensures
            copy == *self,
    {
        Creature {
            id: self.id,
            name: self.name.clone(),
            initiative: self.initiative,
            ac: self.ac,
            description: self.description.clone(),
            health: self.health,
            max_health: self.max_health,
        }
    }
}

impl Creature {
    /// A new creature at full health, with no identifier and no description.
    pub fn new(name: &str, initiative: Option<i32>, ac: Option<i32>, max_health: i32) -> (c: Self)
        ensures
            c.id.0 == 0,
            c.name@ == name@,
            c.initiative == initiative,
            c.ac == ac,
            c.description@ == Seq::<char>::empty(),
            c.health == max_health,
            c.max_health == max_health,
    {
        Self {
            id: CreatureId(0),
            name: name.to_owned(),
            initiative,
            ac,
            description: String::new(),
            health: max_health,
            max_health,
        }
    }

    pub fn get_health(&self) -> (health: i32)
        ensures
            health == self.health,
    {
        self.health
    }

    pub fn get_max_health(&self) -> (max_health: i32)
        ensures
            max_health == self.max_health,
    {
        self.max_health
    }

    pub fn set_health(&mut self, health: i32)
        ensures
            *final(self) == (Creature { health, ..*old(self) }),
    {
        self.health = health;
    }

    pub fn set_initiative(&mut self, initiative: Option<i32>)
        ensures
            *final(self) == (Creature { initiative, ..*old(self) }),
    {
        self.initiative = initiative;
    }

    pub fn set_description(&mut self, description: String)
        ensures
            *final(self) == (Creature { description, ..*old(self) }),
    {
        self.description = description;
    }

    /// Adds `delta` to the current health and caps the result at the maximum
    /// health; the result may go below zero. Returns the new health.
    pub fn modify_health(&mut self, delta: i32) -> (health: i32)
        requires
            i32::MIN <= old(self).health + delta <= i32::MAX,
        ensures
            health == capped_health(old(self).health + delta, old(self).max_health),
            *final(self) == (Creature { health, ..*old(self) }),
    {
        self.health = self.health + delta;
        let max = self.get_max_health();
        if self.health > max {
            self.health = max;
        }
        self.health
    }

    /// Whether the creature is at zero health or below.
    pub fn is_down(&self) -> (down: bool)
        ensures
            down == (self.health <= 0),
    {
        self.health <= 0
    }
}

/// Health after a change: the raw sum, capped at the maximum health.
pub open spec fn capped_health(raw: int, max_health: i32) -> i32 {
    if raw > max_health { max_health } else { raw as i32 }
}

/// The initiative a creature is ranked by; a missing initiative counts as
/// the lowest value.
pub open spec fn initiative_rank(c: Creature) -> int {
    match c.initiative {
        Some(v) => v as int,
        None => i32::MIN as int,
    }
}

/// Display order: creatures with an initiative come first, then higher
/// initiative, then the lowercased name in `str` order, then the identifier.
pub open spec fn precedes(a: Creature, b: Creature) -> bool {
    if (a.initiative is None) != (b.initiative is None) {
        b.initiative is None
    } else if initiative_rank(a) != initiative_rank(b) {
        initiative_rank(a) > initiative_rank(b)
    } else if lowercase_of(a.name@) != lowercase_of(b.name@) {
        chars_lt(lowercase_of(a.name@), lowercase_of(b.name@))
    } else {
        a.id.0 < b.id.0
    }
}

/// A sequence in display order is ordered by `display_order`.
pub proof fn lemma_display_sorted_ordered(s: Seq<Creature>)
    requires
        is_display_sorted(s),
    ensures
        ordered_by(s, display_order()),
{
    assert forall|i: int, j: int| 0 <= i < j < s.len() implies !(display_order())(#[trigger] s[j], #[trigger] s[i]) by {}
}

/// Every identifier in the collection is assigned (not zero) and below the
/// counter, so the counter's value is fresh.
pub open spec fn ids_below_counter(c: Creatures) -> bool {
    &&& c.next_fresh() > 0
    &&& forall|i: int| 0 <= i < c@.len() ==> 0 < (#[trigger] c@[i]).id.0 < c.next_fresh()
}

/// Display order as a relation, for sorting.
pub open spec fn display_order() -> spec_fn(Creature, Creature) -> bool {
    |a: Creature, b: Creature| precedes(a, b)
}

/// No creature in `s` comes strictly before an earlier one.
pub open spec fn is_display_sorted(s: Seq<Creature>) -> bool {
    forall|i: int, j: int| 0 <= i < j < s.len() ==> !precedes(#[trigger] s[j], #[trigger] s[i])
}

pub proof fn lemma_precedes_irreflexive(a: Creature)
    ensures
        !precedes(a, a),
{
}

pub proof fn lemma_precedes_transitive(a: Creature, b: Creature, c: Creature)
    requires
        precedes(a, b),
        precedes(b, c),
    ensures
        precedes(a, c),
{
    let (la, lb, lc) = (lowercase_of(a.name@), lowercase_of(b.name@), lowercase_of(c.name@));
    if (a.initiative is None) == (b.initiative is None) && (b.initiative is None) == (
    c.initiative is None) && initiative_rank(a) == initiative_rank(b) && initiative_rank(b)
        == initiative_rank(c) {
        if la != lb && lb != lc {
            lemma_chars_lt_transitive(la, lb, lc);
            lemma_chars_lt_total(la, lb);
            if la == lc {
                assert(chars_lt(lb, la));
            }
        }
    }
}

/// Two creatures neither of which precedes the other agree on everything the
/// order looks at, the identifier included.
pub proof fn lemma_precedes_total(a: Creature, b: Creature)
    ensures
        !precedes(a, b) && !precedes(b, a) ==> a.id == b.id && a.initiative == b.initiative,
        !(precedes(a, b) && precedes(b, a)),
{
    lemma_chars_lt_total(lowercase_of(a.name@), lowercase_of(b.name@));
}

/// Whether `a` comes strictly before `b` in display order.
pub fn creature_precedes(a: &Creature, b: &Creature) -> (r: bool)
    ensures
        r == precedes(*a, *b),
{
    let a_missing = a.initiative.is_none();
    let b_missing = b.initiative.is_none();
    if a_missing != b_missing {
        return b_missing;
    }
    let a_rank = match a.initiative {
        Some(v) => v,
        None => i32::MIN,
    };
    let b_rank = match b.initiative {
        Some(v) => v,
        None => i32::MIN,
    };
    if a_rank != b_rank {
        return a_rank > b_rank;
    }
    let a_lower = chars_of(to_lowercase(a.name.as_str()).as_str());
    let b_lower = chars_of(to_lowercase(b.name.as_str()).as_str());
    proof {
        lemma_chars_lt_irreflexive(a_lower@);
    }
    if chars_less(&a_lower, &b_lower) {
        return true;
    }
    if chars_less(&b_lower, &a_lower) {
        return false;
    }
    proof {
        lemma_chars_lt_total(a_lower@, b_lower@);
    }
    a.id.0 < b.id.0
}

proof fn lemma_insert_multiset<A>(s: Seq<A>, p: int, x: A)
    requires
        0 <= p <= s.len(),
    ensures
        s.insert(p, x).to_multiset() == s.to_multiset().insert(x),
{
    let l = s.subrange(0, p);
    let r = s.subrange(p, s.len() as int);
    assert(s =~= l + r);
    assert(s.insert(p, x) =~= l.push(x) + r);
    lemma_multiset_commutative(l.push(x), r);
    lemma_multiset_commutative(l, r);
}

proof fn lemma_insert_sorted(s: Seq<Creature>, p: int, x: Creature)
    requires
        is_display_sorted(s),
        0 <= p <= s.len(),
        forall|j: int| 0 <= j < p ==> !precedes(x, #[trigger] s[j]),
        p < s.len() ==> precedes(x, s[p]),
    ensures
        is_display_sorted(s.insert(p, x)),
{
    let t = s.insert(p, x);
    assert forall|i: int, j: int| 0 <= i < j < t.len() implies !precedes(#[trigger] t[j], #[trigger] t[i]) by {
        if i < p && j < p {
            assert(t[i] == s[i] && t[j] == s[j]);
        } else if i < p && j == p {
            assert(t[i] == s[i]);
        } else if i < p {
            assert(t[i] == s[i] && t[j] == s[j - 1]);
        } else if i == p {
            assert(t[j] == s[j - 1]);
            if precedes(s[j - 1], x) {
                lemma_precedes_transitive(s[j - 1], x, s[p]);
                if j - 1 == p {
                    lemma_precedes_irreflexive(s[p]);
                }
            }
        } else {
            assert(t[i] == s[i - 1] && t[j] == s[j - 1]);
        }
    }
}

/// No two creatures in `s` share an identifier.
pub open spec fn ids_unique(s: Seq<Creature>) -> bool {
    forall|i: int, j: int| 0 <= i < j < s.len() ==> (#[trigger] s[i]).id != (#[trigger] s[j]).id
}

/// Display order pins the arrangement down: two display-sorted sequences
/// holding the same creatures, whose identifiers are unique, are equal.
pub proof fn lemma_sorted_permutation_unique(s: Seq<Creature>, t: Seq<Creature>)
    requires
        is_display_sorted(s),
        is_display_sorted(t),
        s.to_multiset() == t.to_multiset(),
        ids_unique(s),
    ensures
        s == t,
    decreases s.len(),
{
    assert(s.len() == s.to_multiset().len());
    assert(t.len() == t.to_multiset().len());
    if s.len() == 0 {
        assert(s =~= t);
    } else {
        assert(s.to_multiset().count(s[0]) > 0);
        assert(t.contains(s[0]));
        let k = choose|k: int| 0 <= k < t.len() && t[k] == s[0];
        assert(t.to_multiset().count(t[0]) > 0);
        assert(s.contains(t[0]));
        let m = choose|m: int| 0 <= m < s.len() && s[m] == t[0];
        if m > 0 {
            assert(!precedes(s[m], s[0]));
        }
        if k > 0 {
            assert(!precedes(t[k], t[0]));
        }
        lemma_precedes_irreflexive(s[0]);
        lemma_precedes_total(s[0], t[0]);
        if m > 0 {
            assert(s[0].id != s[m].id);
        }
        assert(t[0] == s[0]);
        let s1 = s.drop_first();
        let t1 = t.drop_first();
        assert(s.remove(0) =~= s1);
        assert(t.remove(0) =~= t1);
        assert(s1.to_multiset() == t1.to_multiset());
        assert forall|i: int, j: int| 0 <= i < j < s1.len() implies !precedes(#[trigger] s1[j], #[trigger] s1[i]) by {
            assert(s1[i] == s[i + 1] && s1[j] == s[j + 1]);
        }
        assert forall|i: int, j: int| 0 <= i < j < t1.len() implies !precedes(#[trigger] t1[j], #[trigger] t1[i]) by {
            assert(t1[i] == t[i + 1] && t1[j] == t[j + 1]);
        }
        assert forall|i: int, j: int| 0 <= i < j < s1.len() implies (#[trigger] s1[i]).id != (#[trigger] s1[j]).id by {
            assert(s1[i] == s[i + 1] && s1[j] == s[j + 1]);
        }
        lemma_sorted_permutation_unique(s1, t1);
        assert(s =~= t) by {
            assert forall|i: int| 0 <= i < s.len() implies s[i] == t[i] by {
                if i > 0 {
                    assert(s[i] == s1[i - 1] && t[i] == t1[i - 1]);
                }
            }
        }
    }
}

/// The first position in `s` holding a creature with identifier `id`.
pub open spec fn first_index_of(s: Seq<Creature>, id: CreatureId, i: int) -> bool {
    0 <= i < s.len() && s[i].id == id && forall|j: int| 0 <= j < i ==> (#[trigger] s[j]).id != id
}

/// Whether some creature in `s` has identifier `id`.
pub open spec fn has_id(s: Seq<Creature>, id: CreatureId) -> bool {
    exists|i: int| 0 <= i < s.len() && (#[trigger] s[i]).id == id
}

/// The first position of an identifier is unique.
pub proof fn lemma_first_index_unique(s: Seq<Creature>, id: CreatureId, i: int, j: int)
    requires
        first_index_of(s, id, i),
        first_index_of(s, id, j),
    ensures
        i == j,
{
    if i < j {
        assert(s[i].id != id);
    } else if j < i {
        assert(s[j].id != id);
    }
}

/// The first creature with identifier `id`.
pub open spec fn first_with_id(s: Seq<Creature>, id: CreatureId) -> Creature {
    s[choose|i: int| first_index_of(s, id, i)]
}

/// A creature with identifier `id` has a first position.
pub proof fn lemma_first_index_exists(s: Seq<Creature>, id: CreatureId)
    requires
        has_id(s, id),
    ensures
        exists|i: int| first_index_of(s, id, i),
    decreases s.len(),
{
    if s[0].id == id {
        assert(first_index_of(s, id, 0));
    } else {
        let k = choose|k: int| 0 <= k < s.len() && (#[trigger] s[k]).id == id;
        let t = s.drop_first();
        assert(t[k - 1] == s[k]);
        lemma_first_index_exists(t, id);
        let i = choose|i: int| first_index_of(t, id, i);
        assert forall|j: int| 0 <= j < i + 1 implies (#[trigger] s[j]).id != id by {
            if j > 0 {
                assert(s[j] == t[j - 1]);
            }
        }
        assert(first_index_of(s, id, i + 1));
    }
}

/// The creatures kept in display order, with the counter that fresh
/// identifiers are drawn from.
pub struct Creatures {
    sorted: Vec<Creature>,
    next_id: u64,
}

impl View for Creatures {
    type V = Seq<Creature>;

    closed spec fn view(&self) -> Seq<Creature> {
        self.sorted@
    }
}

impl Creatures {
    /// The identifier the next creature without one will receive.
    pub closed spec fn next_fresh(&self) -> u64 {
        self.next_id
    }

    /// Sorts the creatures into display order; stable for creatures that
    /// agree on everything the order looks at.
    pub fn sort(&mut self)
        ensures
            final(self)@ == stable_sorted(old(self)@, display_order()),
            is_display_sorted(final(self)@),
            ids_below_counter(*old(self)) ==> ids_below_counter(*final(self)),
            final(self)@.to_multiset() == old(self)@.to_multiset(),
            final(self)@.len() == old(self)@.len(),
            final(self).next_fresh() == old(self).next_fresh(),
    {
        let mut input: Vec<Creature> = Vec::new();
        std::mem::swap(&mut input, &mut self.sorted);
        let ghost original = input@;
        let mut out: Vec<Creature> = Vec::new();
        let n = input.len();
        let mut i: usize = 0;
        while i < n
            invariant
                n == input.len(),
                input@ == original,
                i <= n,
                is_display_sorted(out@),
                out@.to_multiset() == original.take(i as int).to_multiset(),
                out@ == stable_sorted(original.take(i as int), display_order()),
            decreases n - i,
        {
            let x = input[i].clone();
            let mut p: usize = 0;
            while p < out.len() && !creature_precedes(&x, &out[p])
                invariant
                    p <= out.len(),
                    forall|j: int| 0 <= j < p ==> !precedes(x, #[trigger] out@[j]),
                decreases out.len() - p,
            {
                p = p + 1;
            }
            proof {
                lemma_insert_sorted(out@, p as int, x);
                lemma_insert_multiset(out@, p as int, x);
                assert(original.take(i + 1) =~= original.take(i as int).push(x));
                assert(original.take(i + 1).drop_last() =~= original.take(i as int));
                lemma_insert_stable_at(out@, p as int, x, display_order());
            }
            out.insert(p, x);
            i = i + 1;
        }
        assert(original.take(n as int) =~= original);
        assert(out@.len() == out@.to_multiset().len());
        assert(original.len() == original.to_multiset().len());
        self.sorted = out;
        proof {
            if ids_below_counter(*old(self)) {
                assert forall|i: int| 0 <= i < self@.len() implies 0 < (#[trigger] self@[i]).id.0 < self.next_fresh() by {
                    let x = self@[i];
                    assert(self@.to_multiset().count(x) > 0);
                    assert(original.to_multiset().count(x) > 0);
                    assert(original.contains(x));
                    let k = choose|k: int| 0 <= k < original.len() && original[k] == x;
                    assert(old(self)@[k] == x);
                }
            }
        }
    }
}


/// The identifier a creature receives when added with counter `next`.
pub open spec fn assigned_id(c: Creature, next: u64) -> u64 {
    if c.id.0 != 0 { c.id.0 } else { next }
}

/// The counter after a creature is added with counter `next`.
pub open spec fn next_after_add(c: Creature, next: u64) -> u64 {
    if c.id.0 != 0 {
        reserve_after(c.id.0, next)
    } else {
        reserve_after(next, if next == u64::MAX { 0 } else { (next + 1) as u64 })
    }
}

/// Whether an identifier is listed in `ids`.
pub open spec fn listed(ids: Seq<CreatureId>, id: CreatureId) -> bool {
    ids.contains(id)
}

/// No identifier in `s` comes before a smaller one.
pub open spec fn is_id_sorted(s: Seq<Creature>) -> bool {
    forall|i: int, j: int| 0 <= i < j < s.len() ==> (#[trigger] s[i]).id.0 <= (#[trigger] s[j]).id.0
}

fn id_listed(ids: &[CreatureId], id: CreatureId) -> (r: bool)
    ensures
        r == listed(ids@, id),
{
    let mut i: usize = 0;
    while i < ids.len()
        invariant
            i <= ids.len(),
            forall|j: int| 0 <= j < i ==> ids@[j] != id,
        decreases ids.len() - i,
    {
        if ids[i] == id {
            return true;
        }
        i = i + 1;
    }
    false
}

/// Sorts by identifier, keeping the order of equal identifiers.
fn sort_by_id(input: Vec<Creature>) -> (out: Vec<Creature>)
    ensures
        is_id_sorted(out@),
        out@.to_multiset() == input@.to_multiset(),
{
    let ghost original = input@;
    let mut out: Vec<Creature> = Vec::new();
    let n = input.len();
    let mut i: usize = 0;
    while i < n
        invariant
            n == input.len(),
            input@ == original,
            i <= n,
            is_id_sorted(out@),
            out@.to_multiset() == original.take(i as int).to_multiset(),
        decreases n - i,
    {
        let x = input[i].clone();
        let mut p: usize = 0;
        while p < out.len() && out[p].id.0 <= x.id.0
            invariant
                p <= out.len(),
                forall|j: int| 0 <= j < p ==> (#[trigger] out@[j]).id.0 <= x.id.0,
            decreases out.len() - p,
        {
            p = p + 1;
        }
        proof {
            lemma_insert_multiset(out@, p as int, x);
            assert(original.take(i + 1) =~= original.take(i as int).push(x));
            let t = out@.insert(p as int, x);
            assert forall|a: int, b: int| 0 <= a < b < t.len() implies (#[trigger] t[a]).id.0 <= (#[trigger] t[b]).id.0 by {
                if a < p && b < p {
                } else if a < p && b == p {
                    assert(t[a] == out@[a]);
                } else if a < p {
                    assert(t[a] == out@[a] && t[b] == out@[b - 1]);
                } else if a == p {
                    assert(t[b] == out@[b - 1]);
                    assert(out@[p as int].id.0 <= out@[b - 1].id.0);
                } else {
                    assert(t[a] == out@[a - 1] && t[b] == out@[b - 1]);
                }
            }
        }
        out.insert(p, x);
        i = i + 1;
    }
    assert(original.take(n as int) =~= original);
    out
}

/// The creatures of `s`, each given the identifier it receives when added in
/// order to a collection whose counter starts at `start`, together with the
/// counter afterwards.
pub open spec fn assign_ids(s: Seq<Creature>, start: u64) -> (Seq<Creature>, u64)
    decreases s.len(),
{
    if s.len() == 0 {
        (Seq::empty(), start)
    } else {
        let (prev, next) = assign_ids(s.drop_last(), start);
        let c = s.last();
        (prev.push(Creature { id: CreatureId(assigned_id(c, next)), ..c }), next_after_add(c, next))
    }
}

impl Default for Creatures {
    fn default() -> (empty: Self)
        ensures
            empty@ == Seq::<Creature>::empty(),
            empty.next_fresh() == 1,
    {
        Creatures { sorted: Vec::new(), next_id: 1 }
    }
}

impl Creatures {
    /// Adds a creature, giving it a fresh identifier when it has none, and
    /// returns its identifier.
    pub fn add(&mut self, creature: Creature) -> (id: CreatureId)
        ensures
            id.0 == assigned_id(creature, old(self).next_fresh()),
            final(self).next_fresh() == next_after_add(creature, old(self).next_fresh()),
            is_display_sorted(final(self)@),
            final(self)@.to_multiset() == old(self)@.push(Creature { id, ..creature }).to_multiset(),
            final(self)@ == stable_sorted(old(self)@.push(Creature { id, ..creature }), display_order()),
            ids_below_counter(*old(self)) && creature.id.0 == 0 ==> id.0 != 0 && !has_id(old(self)@, id),
            ids_below_counter(*old(self)) && assigned_id(creature, old(self).next_fresh()) < u64::MAX
                ==> ids_below_counter(*final(self)),
    {
        self.add_with_id(creature)
    }

    /// Adds a creature that may already carry an identifier (as one restored
    /// from storage or from the undo history does), and returns its identifier.
    pub fn add_existing(&mut self, creature: Creature) -> (id: CreatureId)
        ensures
            id.0 == assigned_id(creature, old(self).next_fresh()),
            final(self).next_fresh() == next_after_add(creature, old(self).next_fresh()),
            is_display_sorted(final(self)@),
            final(self)@.to_multiset() == old(self)@.push(Creature { id, ..creature }).to_multiset(),
            final(self)@ == stable_sorted(old(self)@.push(Creature { id, ..creature }), display_order()),
            ids_below_counter(*old(self)) && creature.id.0 == 0 ==> id.0 != 0 && !has_id(old(self)@, id),
            ids_below_counter(*old(self)) && assigned_id(creature, old(self).next_fresh()) < u64::MAX
                ==> ids_below_counter(*final(self)),
    {
        self.add_with_id(creature)
    }

    fn add_with_id(&mut self, creature: Creature) -> (id: CreatureId)
        ensures
            id.0 == assigned_id(creature, old(self).next_fresh()),
            final(self).next_fresh() == next_after_add(creature, old(self).next_fresh()),
            is_display_sorted(final(self)@),
            final(self)@.to_multiset() == old(self)@.push(Creature { id, ..creature }).to_multiset(),
            final(self)@ == stable_sorted(old(self)@.push(Creature { id, ..creature }), display_order()),
            ids_below_counter(*old(self)) && creature.id.0 == 0 ==> id.0 != 0 && !has_id(old(self)@, id),
            ids_below_counter(*old(self)) && assigned_id(creature, old(self).next_fresh()) < u64::MAX
                ==> ids_below_counter(*final(self)),
    {
        let ghost given = creature;
        let mut creature = creature;
        if !creature.id.is_assigned() {
            creature.id = CreatureId(self.next_id);
            self.next_id = self.next_id.wrapping_add(1);
        }
        let id = creature.id;
        self.next_id = id.reserve_next_after(self.next_id);
        let ghost pushed = self.sorted@.push(creature);
        self.sorted.push(creature);
        assert(self.sorted@ == pushed);
        self.sort();
        proof {
            if ids_below_counter(*old(self)) && id.0 < u64::MAX {
                assert forall|i: int| 0 <= i < self@.len() implies 0 < (#[trigger] self@[i]).id.0 < self.next_fresh() by {
                    let x = self@[i];
                    assert(self@.to_multiset().count(x) > 0);
                    assert(pushed.to_multiset().count(x) > 0);
                    assert(pushed.contains(x));
                    let k = choose|k: int| 0 <= k < pushed.len() && pushed[k] == x;
                    if k < old(self)@.len() {
                        assert(pushed[k] == old(self)@[k]);
                        assert(old(self)@[k].id.0 < old(self).next_fresh());
                    } else {
                        assert(x.id == id);
                    }
                }
            }
            if ids_below_counter(*old(self)) && given.id.0 == 0 {
                assert forall|i: int| 0 <= i < old(self)@.len() implies (#[trigger] old(self)@[i]).id != id by {
                    assert(old(self)@[i].id.0 < old(self).next_fresh());
                }
            }
        }
        id
    }

    /// A collection holding the given creatures, added in order.
    pub fn from_vec(creatures: Vec<Creature>) -> (collection: Self)
        ensures
            collection@ == stable_sorted(assign_ids(creatures@, 1).0, display_order()),
            is_display_sorted(collection@),
            collection@.to_multiset() == assign_ids(creatures@, 1).0.to_multiset(),
            collection.next_fresh() == assign_ids(creatures@, 1).1,
    {
        let mut collection = Self::default();
        let n = creatures.len();
        let mut i: usize = 0;
        while i < n
            invariant
                n == creatures.len(),
                i <= n,
                is_display_sorted(collection@),
                collection@.to_multiset() == assign_ids(creatures@.take(i as int), 1).0.to_multiset(),
                collection.next_fresh() == assign_ids(creatures@.take(i as int), 1).1,
                collection@ == stable_sorted(assign_ids(creatures@.take(i as int), 1).0, display_order()),
            decreases n - i,
        {
            assert(creatures@.take(i + 1).drop_last() =~= creatures@.take(i as int));
            let ghost before = collection@;
            collection.add_existing(creatures[i].clone());
            proof {
                lemma_display_sorted_ordered(before);
                lemma_stable_sorted_ordered(before, display_order());
                let x = creatures@.take(i + 1).last();
                assert(x == creatures@[i as int]);
                let assigned = assign_ids(creatures@.take(i as int), 1).0.push(
                    Creature { id: CreatureId(assigned_id(x, assign_ids(creatures@.take(i as int), 1).1)), ..x },
                );
                assert(assigned.drop_last() =~= assign_ids(creatures@.take(i as int), 1).0);
                assert(before.push(assigned.last()).drop_last() =~= before);
            }
            i = i + 1;
        }
        assert(creatures@.take(n as int) =~= creatures@);
        collection
    }

    /// Removes every creature whose identifier is listed and returns them,
    /// ordered by identifier.
    pub fn remove_by_ids(&mut self, ids: &[CreatureId]) -> (removed: Vec<Creature>)
        ensures
            final(self)@ == old(self)@.filter(|c: Creature| !listed(ids@, c.id)),
            final(self).next_fresh() == old(self).next_fresh(),
            ids_below_counter(*old(self)) ==> ids_below_counter(*final(self)),
            is_id_sorted(removed@),
            removed@.to_multiset() == old(self)@.filter(|c: Creature| listed(ids@, c.id)).to_multiset(),
    {
        let ghost keep_pred = |c: Creature| !listed(ids@, c.id);
        let ghost drop_pred = |c: Creature| listed(ids@, c.id);
        let ghost original = self.sorted@;
        let mut kept: Vec<Creature> = Vec::new();
        let mut removed: Vec<Creature> = Vec::new();
        let n = self.sorted.len();
        let mut i: usize = 0;
        while i < n
            invariant
                n == self.sorted.len(),
                self.sorted@ == original,
                i <= n,
                keep_pred == (|c: Creature| !listed(ids@, c.id)),
                drop_pred == (|c: Creature| listed(ids@, c.id)),
                kept@ == original.take(i as int).filter(keep_pred),
                removed@ == original.take(i as int).filter(drop_pred),
            decreases n - i,
        {
            let c = self.sorted[i].clone();
            proof {
                assert(original.take(i + 1) =~= original.take(i as int).push(c));
                original.take(i as int).lemma_filter_push(c, keep_pred);
                original.take(i as int).lemma_filter_push(c, drop_pred);
            }
            let hit = id_listed(ids, c.id);
            assert(keep_pred(c) == !hit);
            assert(drop_pred(c) == hit);
            if hit {
                removed.push(c);
            } else {
                kept.push(c);
            }
            i = i + 1;
        }
        assert(original.take(n as int) =~= original);
        self.sorted = kept;
        proof {
            if ids_below_counter(*old(self)) {
                original.filter_lemma(keep_pred);
                assert(self@ == original.filter(keep_pred));
                assert forall|i: int| 0 <= i < self@.len() implies 0 < (#[trigger] self@[i]).id.0 < self.next_fresh() by {
                    assert(original.filter(keep_pred)[i] == self@[i]);
                    assert(original.filter(keep_pred).contains(self@[i]));
                    original.lemma_filter_contains_rev(keep_pred, self@[i]);
                    let k = choose|k: int| 0 <= k < original.len() && original[k] == self@[i];
                    assert(old(self)@[k] == self@[i]);
                }
            }
        }
        sort_by_id(removed)
    }

    /// The position of the first creature with identifier `id`.
    pub fn index_of(&self, id: CreatureId) -> (index: Option<usize>)
        ensures
            match index {
                Some(i) => first_index_of(self@, id, i as int),
                None => !has_id(self@, id),
            },
    {
        let mut i: usize = 0;
        while i < self.sorted.len()
            invariant
                i <= self.sorted.len(),
                forall|j: int| 0 <= j < i ==> (#[trigger] self.sorted@[j]).id != id,
            decreases self.sorted.len() - i,
        {
            if self.sorted[i].id == id {
                return Some(i);
            }
            i = i + 1;
        }
        None
    }

    /// The first creature with identifier `id`.
    pub fn get(&self, id: CreatureId) -> (found: Option<&Creature>)
        ensures
            match found {
                Some(c) => exists|i: int| first_index_of(self@, id, i) && *c == self@[i],
                None => !has_id(self@, id),
            },
    {
        match self.index_of(id) {
            Some(i) => Some(&self.sorted[i]),
            None => None,
        }
    }

    /// The first creature with identifier `id`, for changing it in place.
    pub fn get_mut(&mut self, id: CreatureId) -> (found: Option<&mut Creature>)
        ensures
            final(self).next_fresh() == old(self).next_fresh(),
            match found {
                Some(c) => exists|i: int|
                    first_index_of(old(self)@, id, i) && *c == old(self)@[i] && final(self)@ == old(
                        self,
                    )@.update(i, *final(c)),
                None => !has_id(old(self)@, id) && final(self)@ == old(self)@,
            },
    {
        match self.index_of(id) {
            Some(i) => Some(&mut self.sorted[i]),
            None => None,
        }
    }

    /// The creature shown at a display position.
    pub fn by_display_index(&self, index: usize) -> (found: Option<&Creature>)
        ensures
            match found {
                Some(c) => index < self@.len() && *c == self@[index as int],
                None => index >= self@.len(),
            },
    {
        if index < self.sorted.len() {
            Some(&self.sorted[index])
        } else {
            None
        }
    }

    /// The identifier of the creature shown at a display position.
    pub fn id_at(&self, index: usize) -> (id: Option<CreatureId>)
        ensures
            id == (if index < self@.len() { Some(self@[index as int].id) } else { None::<CreatureId> }),
    {
        match self.by_display_index(index) {
            Some(c) => Some(c.id),
            None => None,
        }
    }

    /// The identifiers in display order.
    pub fn ids_in_display_order(&self) -> (ids: Vec<CreatureId>)
        ensures
            ids@ == self@.map_values(|c: Creature| c.id),
    {
        let mut ids: Vec<CreatureId> = Vec::new();
        let mut i: usize = 0;
        while i < self.sorted.len()
            invariant
                i <= self.sorted.len(),
                ids@ == self.sorted@.take(i as int).map_values(|c: Creature| c.id),
            decreases self.sorted.len() - i,
        {
            ids.push(self.sorted[i].id);
            assert(self.sorted@.take(i + 1).map_values(|c: Creature| c.id) =~= self.sorted@.take(
                i as int,
            ).map_values(|c: Creature| c.id).push(self.sorted@[i as int].id));
            i = i + 1;
        }
        assert(self.sorted@.take(i as int) =~= self.sorted@);
        ids
    }

    /// The creatures in display order.
    pub fn iter(&self) -> (it: std::slice::Iter<'_, Creature>)
        ensures
            vstd::std_specs::slice::into_iter_elts(it) == self@,
    {
        self.sorted.as_slice().iter()
    }

    /// A copy of the creatures in display order.
    pub fn to_vec(&self) -> (copy: Vec<Creature>)
        ensures
            copy@ == self@,
    {
        let mut copy: Vec<Creature> = Vec::new();
        let mut i: usize = 0;
        while i < self.sorted.len()
            invariant
                i <= self.sorted.len(),
                copy@ == self.sorted@.take(i as int),
            decreases self.sorted.len() - i,
        {
            copy.push(self.sorted[i].clone());
            assert(self.sorted@.take(i + 1) =~= self.sorted@.take(i as int).push(self.sorted@[i as int]));
            i = i + 1;
        }
        assert(self.sorted@.take(i as int) =~= self.sorted@);
        copy
    }

    /// The number of creatures.
    pub fn len(&self) -> (n: usize)
        ensures
            n == self@.len(),
    {
        self.sorted.len()
    }

    /// Whether there are no creatures.
    pub fn is_empty(&self) -> (empty: bool)
        ensures
            empty == (self@.len() == 0),
    {
        self.sorted.len() == 0
    }

    /// Whether some creature has identifier `id`.
    pub fn contains(&self, id: CreatureId) -> (found: bool)
        ensures
            found == has_id(self@, id),
    {
        self.index_of(id).is_some()
    }
}


impl<'a> IntoIterator for &'a Creatures {
    type Item = &'a Creature;
    type IntoIter = std::slice::Iter<'a, Creature>;

    fn into_iter(self) -> (it: std::slice::Iter<'a, Creature>)
        ensures
            vstd::std_specs::slice::into_iter_elts(it) == self@,
    {
        self.iter()
    }
}

} // verus!
