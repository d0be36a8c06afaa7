//! What reverting an edit gives back, and what re-applying it gives.

use vstd::prelude::*;
use vstd::seq_lib::lemma_multiset_commutative;

use super::creature::{
    assign_ids, assigned_id, first_index_of, next_after_add, has_id, ids_unique, is_display_sorted, lemma_first_index_exists,
    display_order, lemma_display_sorted_ordered, lemma_sorted_permutation_unique, listed, precedes, Creature, CreatureId, Creatures,
};
use super::edit::{
    apply_health, apply_initiative, edit_applied, edit_reverted, ids_of, update_by_id,
    with_health, with_initiative, with_name, CreatureEdit, HealthChange, InitiativeChange,
};

use crate::order::{lemma_stable_sorted_ordered, stable_sorted};

verus! {

broadcast use vstd::seq_lib::group_to_multiset_ensures;

/// Applying `f` to every creature of two sequences holding the same creatures
/// gives two sequences holding the same creatures.
pub proof fn lemma_map_preserves_multiset(s: Seq<Creature>, t: Seq<Creature>, f: spec_fn(Creature) -> Creature)
    requires
        s.to_multiset() == t.to_multiset(),
    ensures
        s.map_values(f).to_multiset() == t.map_values(f).to_multiset(),
    decreases s.len(),
{
    assert(s.len() == s.to_multiset().len());
    assert(t.len() == t.to_multiset().len());
    if s.len() == 0 {
        assert(s.map_values(f) =~= t.map_values(f));
    } else {
        let x = s.last();
        assert(s.to_multiset().count(x) > 0);
        assert(t.contains(x));
        let k = choose|k: int| 0 <= k < t.len() && t[k] == x;
        let s1 = s.drop_last();
        let t1 = t.remove(k);
        assert(s =~= s1.push(x));
        assert(t1.to_multiset() == t.to_multiset().remove(x));
        assert(s1.to_multiset() == s.to_multiset().remove(x));
        lemma_map_preserves_multiset(s1, t1, f);
        assert(s.map_values(f) =~= s1.map_values(f).push(f(x)));
        assert(t1.map_values(f) =~= t.map_values(f).remove(k));
        assert(t.map_values(f)[k] == f(x));
        assert(t1.map_values(f).to_multiset() == t.map_values(f).to_multiset().remove(f(x)));
        assert(t.map_values(f).to_multiset().count(f(x)) > 0) by {
            assert(t.map_values(f).contains(f(x)));
        }
        assert(t.map_values(f).to_multiset() =~= t1.map_values(f).to_multiset().insert(f(x)));
    }
}

/// Adding a creature without an identifier to creatures whose identifiers
/// are unique and below the counter gives it a fresh one: the identifiers
/// stay unique and below the counter.
pub proof fn lemma_fresh_id_unique(before: Creatures, after: Creatures, c: Creature, id: CreatureId)
    requires
        ids_unique(before@),
        forall|i: int| 0 <= i < before@.len() ==> (#[trigger] before@[i]).id.0 < before.next_fresh(),
        c.id.0 == 0,
        before.next_fresh() < u64::MAX,
        id.0 == assigned_id(c, before.next_fresh()),
        after.next_fresh() == next_after_add(c, before.next_fresh()),
        after@.to_multiset() == before@.push(Creature { id, ..c }).to_multiset(),
    ensures
        ids_unique(after@),
        forall|i: int| 0 <= i < after@.len() ==> (#[trigger] after@[i]).id.0 < after.next_fresh(),
{
    let x = Creature { id, ..c };
    let t = before@.push(x);
    assert(ids_unique(t)) by {
        assert forall|i: int, j: int| 0 <= i < j < t.len() implies (#[trigger] t[i]).id != (#[trigger] t[j]).id by {
            if j < before@.len() {
                assert(t[i] == before@[i] && t[j] == before@[j]);
            } else {
                assert(t[i] == before@[i]);
            }
        }
    }
    lemma_ids_unique_permutation(t, after@);
    assert forall|i: int| 0 <= i < after@.len() implies (#[trigger] after@[i]).id.0 < after.next_fresh() by {
        assert(after@.to_multiset().count(after@[i]) > 0);
        assert(t.contains(after@[i]));
        let k = choose|k: int| 0 <= k < t.len() && t[k] == after@[i];
        if k < before@.len() {
            assert(t[k] == before@[k]);
        }
    }
}

/// Identifiers stay unique when the same creatures are arranged differently.
pub proof fn lemma_ids_unique_permutation(s: Seq<Creature>, t: Seq<Creature>)
    requires
        s.to_multiset() == t.to_multiset(),
        ids_unique(s),
    ensures
        ids_unique(t),
{
    assert forall|i: int, j: int| 0 <= i < j < t.len() implies (#[trigger] t[i]).id != (#[trigger] t[j]).id by {
        if t[i].id == t[j].id {
            assert(t.to_multiset().count(t[i]) > 0);
            assert(s.contains(t[i]));
            assert(t.to_multiset().count(t[j]) > 0);
            assert(s.contains(t[j]));
            let a = choose|a: int| 0 <= a < s.len() && s[a] == t[i];
            let b = choose|b: int| 0 <= b < s.len() && s[b] == t[j];
            if t[i] == t[j] {
                let t0 = t.subrange(0, j);
                let t1 = t.subrange(j, t.len() as int);
                assert(t == t0 + t1);
                lemma_multiset_commutative(t0, t1);
                assert(t0.contains(t[i]));
                assert(t1.contains(t[j])) by {
                    assert(t1[0] == t[j]);
                }
                assert(t0.to_multiset().count(t[i]) > 0);
                assert(t1.to_multiset().count(t[j]) > 0);
                assert(s.to_multiset().count(t[i]) >= 2);
                if s.no_duplicates() {
                    s.lemma_multiset_has_no_duplicates();
                    assert(s.to_multiset().contains(t[i]));
                } else {
                    let (p, q) = choose|p: int, q: int|
                        0 <= p < s.len() && 0 <= q < s.len() && p != q && s[p] == s[q];
                    if p < q {
                        assert(s[p].id != s[q].id);
                    } else {
                        assert(s[q].id != s[p].id);
                    }
                }
            } else {
                assert(a != b);
                if a < b {
                    assert(s[a].id != s[b].id);
                } else {
                    assert(s[b].id != s[a].id);
                }
            }
        }
    }
}


/// The creature after the health changes that name its identifier.
pub open spec fn health_after(c: Creature, changes: Seq<HealthChange>, forward: bool) -> Creature
    decreases changes.len(),
{
    if changes.len() == 0 {
        c
    } else {
        let prev = health_after(c, changes.drop_last(), forward);
        let ch = changes.last();
        if ch.id == c.id {
            Creature { health: if forward { ch.after } else { ch.before }, ..prev }
        } else {
            prev
        }
    }
}

/// The creature after the initiative changes that name its identifier.
pub open spec fn initiative_after(c: Creature, changes: Seq<InitiativeChange>, forward: bool) -> Creature
    decreases changes.len(),
{
    if changes.len() == 0 {
        c
    } else {
        let prev = initiative_after(c, changes.drop_last(), forward);
        let ch = changes.last();
        if ch.id == c.id {
            Creature { initiative: if forward { ch.after } else { ch.before }, ..prev }
        } else {
            prev
        }
    }
}

/// The creature with `f` applied when it has identifier `id`.
pub open spec fn update_if(id: CreatureId, f: spec_fn(Creature) -> Creature) -> spec_fn(Creature) -> Creature {
    |c: Creature| if c.id == id { f(c) } else { c }
}

proof fn lemma_update_unique(s: Seq<Creature>, id: CreatureId, f: spec_fn(Creature) -> Creature)
    requires
        ids_unique(s),
    ensures
        update_by_id(s, id, f) == s.map_values(update_if(id, f)),
{
    if has_id(s, id) {
        lemma_first_index_exists(s, id);
        let i = choose|i: int| first_index_of(s, id, i);
        assert forall|j: int| 0 <= j < s.len() implies #[trigger] update_by_id(s, id, f)[j] == s.map_values(update_if(id, f))[j] by {
            if j < i {
                assert(s[j].id != id);
            } else if j > i {
                assert(s[i].id != s[j].id);
            } else {
                assert(s[j].id == id);
            }
        }
        assert(update_by_id(s, id, f) =~= s.map_values(update_if(id, f)));
    } else {
        assert forall|j: int| 0 <= j < s.len() implies s[j].id != id by {
            if s[j].id == id {
                assert(has_id(s, id));
            }
        }
        assert(update_by_id(s, id, f) =~= s.map_values(update_if(id, f)));
    }
}

pub proof fn lemma_health_after_fields(c: Creature, changes: Seq<HealthChange>, forward: bool)
    ensures
        health_after(c, changes, forward) == (Creature { health: health_after(c, changes, forward).health, ..c }),
    decreases changes.len(),
{
    if changes.len() > 0 {
        lemma_health_after_fields(c, changes.drop_last(), forward);
    }
}

proof fn lemma_initiative_after_fields(c: Creature, changes: Seq<InitiativeChange>, forward: bool)
    ensures
        initiative_after(c, changes, forward) == (Creature {
            initiative: initiative_after(c, changes, forward).initiative,
            ..c
        }),
    decreases changes.len(),
{
    if changes.len() > 0 {
        lemma_initiative_after_fields(c, changes.drop_last(), forward);
    }
}

/// With unique identifiers, applying health changes updates each creature on
/// its own.
pub proof fn lemma_apply_health_pointwise(s: Seq<Creature>, changes: Seq<HealthChange>, forward: bool)
    requires
        ids_unique(s),
    ensures
        apply_health(s, changes, forward) == s.map_values(|c: Creature| health_after(c, changes, forward)),
    decreases changes.len(),
{
    if changes.len() == 0 {
        assert(s.map_values(|c: Creature| health_after(c, changes, forward)) =~= s);
    } else {
        let prev = changes.drop_last();
        lemma_apply_health_pointwise(s, prev, forward);
        let a = s.map_values(|c: Creature| health_after(c, prev, forward));
        assert forall|i: int| 0 <= i < a.len() implies (#[trigger] a[i]).id == s[i].id by {
            lemma_health_after_fields(s[i], prev, forward);
        }
        assert(ids_unique(a));
        let ch = changes.last();
        let v = if forward { ch.after } else { ch.before };
        lemma_update_unique(a, ch.id, with_health(v));
        assert(a.map_values(update_if(ch.id, with_health(v))) =~= s.map_values(
            |c: Creature| health_after(c, changes, forward),
        ));
    }
}

/// With unique identifiers, applying initiative changes updates each
/// creature on its own.
pub proof fn lemma_apply_initiative_pointwise(s: Seq<Creature>, changes: Seq<InitiativeChange>, forward: bool)
    requires
        ids_unique(s),
    ensures
        apply_initiative(s, changes, forward) == s.map_values(
            |c: Creature| initiative_after(c, changes, forward),
        ),
    decreases changes.len(),
{
    if changes.len() == 0 {
        assert(s.map_values(|c: Creature| initiative_after(c, changes, forward)) =~= s);
    } else {
        let prev = changes.drop_last();
        lemma_apply_initiative_pointwise(s, prev, forward);
        let a = s.map_values(|c: Creature| initiative_after(c, prev, forward));
        assert forall|i: int| 0 <= i < a.len() implies (#[trigger] a[i]).id == s[i].id by {
            lemma_initiative_after_fields(s[i], prev, forward);
        }
        assert(ids_unique(a));
        let ch = changes.last();
        let v = if forward { ch.after } else { ch.before };
        lemma_update_unique(a, ch.id, with_initiative(v));
        assert(a.map_values(update_if(ch.id, with_initiative(v))) =~= s.map_values(
            |c: Creature| initiative_after(c, changes, forward),
        ));
    }
}


proof fn lemma_health_after_none(c: Creature, changes: Seq<HealthChange>, forward: bool)
    requires
        forall|k: int| 0 <= k < changes.len() ==> (#[trigger] changes[k]).id != c.id,
    ensures
        health_after(c, changes, forward) == c,
    decreases changes.len(),
{
    if changes.len() > 0 {
        let prev = changes.drop_last();
        assert forall|k: int| 0 <= k < prev.len() implies (#[trigger] prev[k]).id != c.id by {
            assert(prev[k] == changes[k]);
        }
        lemma_health_after_none(c, prev, forward);
    }
}

proof fn lemma_initiative_after_none(c: Creature, changes: Seq<InitiativeChange>, forward: bool)
    requires
        forall|k: int| 0 <= k < changes.len() ==> (#[trigger] changes[k]).id != c.id,
    ensures
        initiative_after(c, changes, forward) == c,
    decreases changes.len(),
{
    if changes.len() > 0 {
        let prev = changes.drop_last();
        assert forall|k: int| 0 <= k < prev.len() implies (#[trigger] prev[k]).id != c.id by {
            assert(prev[k] == changes[k]);
        }
        lemma_initiative_after_none(c, prev, forward);
    }
}

/// The edit was made from the state `s`: each change's `before` value is
/// what the creature it names has in `s`; added
/// creatures carry identifiers of their own that `s` does not use.
pub open spec fn edit_consistent(s: Seq<Creature>, e: CreatureEdit) -> bool {
    match e {
        CreatureEdit::AdjustHealth { changes } => {
            forall|k: int, i: int|
                0 <= k < changes@.len() && 0 <= i < s.len() && (#[trigger] s[i]).id == (
                #[trigger] changes@[k]).id ==> s[i].health == changes@[k].before
        },
        CreatureEdit::SetInitiative { changes } => {
            forall|k: int, i: int|
                0 <= k < changes@.len() && 0 <= i < s.len() && (#[trigger] s[i]).id == (
                #[trigger] changes@[k]).id ==> s[i].initiative == changes@[k].before
        },
        CreatureEdit::RenameCreature { id, before, after } => {
            forall|i: int| 0 <= i < s.len() && (#[trigger] s[i]).id == id ==> s[i].name == before
        },
        CreatureEdit::AddCreatures { creatures } => {
            &&& forall|k: int| 0 <= k < creatures@.len() ==> (#[trigger] creatures@[k]).id.0 != 0
            &&& forall|k: int, i: int|
                0 <= k < creatures@.len() && 0 <= i < s.len() ==> (#[trigger] creatures@[k]).id != (
                #[trigger] s[i]).id
        },
    }
}

/// The creatures an edit adds carry different identifiers (other edits add
/// none).
pub open spec fn added_distinct(e: CreatureEdit) -> bool {
    match e {
        CreatureEdit::AddCreatures { creatures } => ids_unique(creatures@),
        _ => true,
    }
}

proof fn lemma_assign_ids_keeps(s: Seq<Creature>, start: u64)
    requires
        forall|k: int| 0 <= k < s.len() ==> (#[trigger] s[k]).id.0 != 0,
    ensures
        assign_ids(s, start).0 == s,
    decreases s.len(),
{
    if s.len() > 0 {
        let prev = s.drop_last();
        assert forall|k: int| 0 <= k < prev.len() implies (#[trigger] prev[k]).id.0 != 0 by {
            assert(prev[k] == s[k]);
        }
        lemma_assign_ids_keeps(prev, start);
        assert(s.last().id.0 != 0);
        assert(s =~= prev.push(s.last()));
    }
}

pub proof fn lemma_filter_sorted(s: Seq<Creature>, p: spec_fn(Creature) -> bool)
    requires
        is_display_sorted(s),
    ensures
        is_display_sorted(s.filter(p)),
    decreases s.len(),
{
    if s.len() == 0 {
        assert(s.filter(p).len() == 0) by {
            s.lemma_filter_len(p);
        }
    } else {
        let r = s.drop_last();
        let l = s.last();
        assert(s == r.push(l));
        assert(is_display_sorted(r)) by {
            assert forall|i: int, j: int| 0 <= i < j < r.len() implies !precedes(#[trigger] r[j], #[trigger] r[i]) by {
                assert(r[i] == s[i] && r[j] == s[j]);
            }
        }
        lemma_filter_sorted(r, p);
        r.lemma_filter_push(l, p);
        if p(l) {
            let f = r.filter(p);
            let g = f.push(l);
            assert(is_display_sorted(g)) by {
                assert forall|i: int, j: int| 0 <= i < j < g.len() implies !precedes(#[trigger] g[j], #[trigger] g[i]) by {
                    if j == g.len() - 1 {
                        assert(g[i] == f[i]);
                        assert(f.contains(f[i]));
                        r.lemma_filter_contains_rev(p, f[i]);
                        let m = choose|m: int| 0 <= m < r.len() && r[m] == f[i];
                        assert(s[m] == f[i]);
                        assert(!precedes(s[s.len() - 1], s[m]));
                    } else {
                        assert(g[i] == f[i] && g[j] == f[j]);
                    }
                }
            }
            assert(s.filter(p) == g);
        } else {
            assert(s.filter(p) == r.filter(p));
        }
    }
}

pub proof fn lemma_filter_count(s: Seq<Creature>, p: spec_fn(Creature) -> bool, x: Creature)
    ensures
        s.filter(p).to_multiset().count(x) == if p(x) { s.to_multiset().count(x) } else { 0 },
    decreases s.len(),
{
    if s.len() == 0 {
        assert(s.filter(p).len() == 0) by {
            s.lemma_filter_len(p);
        }
    } else {
        let r = s.drop_last();
        let l = s.last();
        assert(s =~= r.push(l));
        lemma_filter_count(r, p, x);
        r.lemma_filter_push(l, p);
    }
}


/// Going back over changes whose `before` values all agree with `c` for its
/// identifier gives `c` that value, when some change names it.
proof fn lemma_health_back_agreeing(c: Creature, changes: Seq<HealthChange>, v: i32)
    requires
        exists|k: int| 0 <= k < changes.len() && (#[trigger] changes[k]).id == c.id,
        forall|k: int| 0 <= k < changes.len() && (#[trigger] changes[k]).id == c.id ==> changes[k].before == v,
    ensures
        health_after(c, changes, false) == (Creature { health: v, ..c }),
    decreases changes.len(),
{
    let prev = changes.drop_last();
    lemma_health_after_fields(c, prev, false);
    if changes.last().id != c.id {
        let k = choose|k: int| 0 <= k < changes.len() && (#[trigger] changes[k]).id == c.id;
        assert(prev[k] == changes[k]);
        assert forall|j: int| 0 <= j < prev.len() && (#[trigger] prev[j]).id == c.id implies prev[j].before == v by {
            assert(prev[j] == changes[j]);
        }
        lemma_health_back_agreeing(c, prev, v);
    } else {
        assert(changes[changes.len() - 1].id == c.id);
    }
}

proof fn lemma_health_round_trip(s: Seq<Creature>, changes: Seq<HealthChange>, i: int)
    requires
        forall|k: int, j: int|
            0 <= k < changes.len() && 0 <= j < s.len() && (#[trigger] s[j]).id == (
            #[trigger] changes[k]).id ==> s[j].health == changes[k].before,
        0 <= i < s.len(),
    ensures
        health_after(health_after(s[i], changes, true), changes, false) == s[i],
{
    let c = s[i];
    if exists|k: int| 0 <= k < changes.len() && (#[trigger] changes[k]).id == c.id {
        let k = choose|k: int| 0 <= k < changes.len() && (#[trigger] changes[k]).id == c.id;
        lemma_health_after_fields(c, changes, true);
        let d = health_after(c, changes, true);
        assert(changes[k].id == d.id);
        assert forall|j: int| 0 <= j < changes.len() && (#[trigger] changes[j]).id == d.id implies changes[j].before
            == c.health by {
            assert(s[i].id == changes[j].id);
        }
        lemma_health_back_agreeing(d, changes, c.health);
    } else {
        lemma_health_after_none(c, changes, true);
        lemma_health_after_none(c, changes, false);
    }
}

/// Going back over changes whose `before` values all agree with `c` for its
/// identifier gives `c` that value, when some change names it.
proof fn lemma_initiative_back_agreeing(c: Creature, changes: Seq<InitiativeChange>, v: Option<i32>)
    requires
        exists|k: int| 0 <= k < changes.len() && (#[trigger] changes[k]).id == c.id,
        forall|k: int| 0 <= k < changes.len() && (#[trigger] changes[k]).id == c.id ==> changes[k].before == v,
    ensures
        initiative_after(c, changes, false) == (Creature { initiative: v, ..c }),
    decreases changes.len(),
{
    let prev = changes.drop_last();
    lemma_initiative_after_fields(c, prev, false);
    if changes.last().id != c.id {
        let k = choose|k: int| 0 <= k < changes.len() && (#[trigger] changes[k]).id == c.id;
        assert(prev[k] == changes[k]);
        assert forall|j: int| 0 <= j < prev.len() && (#[trigger] prev[j]).id == c.id implies prev[j].before == v by {
            assert(prev[j] == changes[j]);
        }
        lemma_initiative_back_agreeing(c, prev, v);
    } else {
        assert(changes[changes.len() - 1].id == c.id);
    }
}

proof fn lemma_initiative_round_trip(s: Seq<Creature>, changes: Seq<InitiativeChange>, i: int)
    requires
        forall|k: int, j: int|
            0 <= k < changes.len() && 0 <= j < s.len() && (#[trigger] s[j]).id == (
            #[trigger] changes[k]).id ==> s[j].initiative == changes[k].before,
        0 <= i < s.len(),
    ensures
        initiative_after(initiative_after(s[i], changes, true), changes, false) == s[i],
{
    let c = s[i];
    if exists|k: int| 0 <= k < changes.len() && (#[trigger] changes[k]).id == c.id {
        let k = choose|k: int| 0 <= k < changes.len() && (#[trigger] changes[k]).id == c.id;
        lemma_initiative_after_fields(c, changes, true);
        let d = initiative_after(c, changes, true);
        assert(changes[k].id == d.id);
        assert forall|j: int| 0 <= j < changes.len() && (#[trigger] changes[j]).id == d.id implies changes[j].before
            == c.initiative by {
            assert(s[i].id == changes[j].id);
        }
        lemma_initiative_back_agreeing(d, changes, c.initiative);
    } else {
        lemma_initiative_after_none(c, changes, true);
        lemma_initiative_after_none(c, changes, false);
    }
}

/// The state after applying `e` to `before`, as a sequence holding the same
/// creatures as the collection after the edit.
pub open spec fn applied_state(before: Creatures, e: CreatureEdit) -> Seq<Creature> {
    match e {
        CreatureEdit::AdjustHealth { changes } => apply_health(before@, changes@, true),
        CreatureEdit::SetInitiative { changes } => apply_initiative(before@, changes@, true),
        CreatureEdit::RenameCreature { id, before: _, after } => update_by_id(before@, id, with_name(after)),
        CreatureEdit::AddCreatures { creatures } => before@ + assign_ids(
            creatures@,
            before.next_fresh(),
        ).0,
    }
}

/// An edit that agrees with creatures whose identifiers are unique leaves
/// them unique.
pub proof fn lemma_applied_state_unique(before: Creatures, e: CreatureEdit)
    requires
        ids_unique(before@),
        edit_consistent(before@, e),
        added_distinct(e),
    ensures
        ids_unique(applied_state(before, e)),
{
    let s = before@;
    match e {
        CreatureEdit::AdjustHealth { changes } => {
            lemma_apply_health_pointwise(s, changes@, true);
            let x = applied_state(before, e);
            assert forall|i: int| 0 <= i < x.len() implies (#[trigger] x[i]).id == s[i].id by {
                lemma_health_after_fields(s[i], changes@, true);
            }
        },
        CreatureEdit::SetInitiative { changes } => {
            lemma_apply_initiative_pointwise(s, changes@, true);
            let x = applied_state(before, e);
            assert forall|i: int| 0 <= i < x.len() implies (#[trigger] x[i]).id == s[i].id by {
                lemma_initiative_after_fields(s[i], changes@, true);
            }
        },
        CreatureEdit::RenameCreature { id, before: _, after } => {
            lemma_update_unique(s, id, with_name(after));
            let x = applied_state(before, e);
            assert forall|i: int| 0 <= i < x.len() implies (#[trigger] x[i]).id == s[i].id by {}
        },
        CreatureEdit::AddCreatures { creatures } => {
            lemma_assign_ids_keeps(creatures@, before.next_fresh());
            let x = applied_state(before, e);
            assert forall|i: int, j: int| 0 <= i < j < x.len() implies (#[trigger] x[i]).id != (
            #[trigger] x[j]).id by {
                if j < s.len() {
                    assert(x[i] == s[i] && x[j] == s[j]);
                } else if i < s.len() {
                    assert(x[i] == s[i] && x[j] == creatures@[j - s.len()]);
                } else {
                    assert(x[i] == creatures@[i - s.len()] && x[j] == creatures@[j - s.len()]);
                }
            }
        },
    }
}

/// Reverting an edit right after applying it gives back exactly the creatures
/// it was applied to, in the same order, when the edit was made from that
/// state and the identifiers there are unique. Added creatures need only be
/// absent from that state, not different from each other.
pub proof fn lemma_revert_restores(before: Creatures, applied: Creatures, restored: Creatures, e: CreatureEdit)
    requires
        is_display_sorted(before@),
        ids_unique(before@),
        edit_consistent(before@, e),
        edit_applied(before, applied, e),
        edit_reverted(applied, restored, e),
    ensures
        restored@ == before@,
        added_distinct(e) ==> ids_unique(applied@),
        applied@.to_multiset() == applied_state(before, e).to_multiset(),
{
    let s = before@;
    if added_distinct(e) {
        lemma_applied_state_unique(before, e);
    }
    match e {
        CreatureEdit::AdjustHealth { changes } => {
            let ch = changes@;
            let x = applied_state(before, e);
            lemma_ids_unique_permutation(x, applied@);
            lemma_apply_health_pointwise(s, ch, true);
            lemma_apply_health_pointwise(applied@, ch, false);
            let bwd = |c: Creature| health_after(c, ch, false);
            lemma_map_preserves_multiset(applied@, x, bwd);
            assert(x.map_values(bwd) =~= s) by {
                assert forall|i: int| 0 <= i < s.len() implies x.map_values(bwd)[i] == s[i] by {
                    lemma_health_round_trip(s, ch, i);
                }
            }
            lemma_sorted_permutation_unique(s, restored@);
        },
        CreatureEdit::SetInitiative { changes } => {
            let ch = changes@;
            let x = applied_state(before, e);
            lemma_ids_unique_permutation(x, applied@);
            lemma_apply_initiative_pointwise(s, ch, true);
            lemma_apply_initiative_pointwise(applied@, ch, false);
            let bwd = |c: Creature| initiative_after(c, ch, false);
            lemma_map_preserves_multiset(applied@, x, bwd);
            assert(x.map_values(bwd) =~= s) by {
                assert forall|i: int| 0 <= i < s.len() implies x.map_values(bwd)[i] == s[i] by {
                    lemma_initiative_round_trip(s, ch, i);
                }
            }
            lemma_sorted_permutation_unique(s, restored@);
        },
        CreatureEdit::RenameCreature { id, before: old_name, after } => {
            let x = applied_state(before, e);
            lemma_ids_unique_permutation(x, applied@);
            lemma_update_unique(s, id, with_name(after));
            lemma_update_unique(applied@, id, with_name(old_name));
            let bwd = update_if(id, with_name(old_name));
            lemma_map_preserves_multiset(applied@, x, bwd);
            assert(x.map_values(bwd) =~= s);
            lemma_sorted_permutation_unique(s, restored@);
        },
        CreatureEdit::AddCreatures { creatures } => {
            let cr = creatures@;
            lemma_assign_ids_keeps(cr, before.next_fresh());
            let x = applied_state(before, e);
            if added_distinct(e) {
                lemma_ids_unique_permutation(x, applied@);
            }
            let q = |c: Creature| !listed(ids_of(cr), c.id);
            assert(is_display_sorted(applied@));
            lemma_filter_sorted(applied@, q);
            lemma_multiset_commutative(s, cr);
            assert(restored@.to_multiset() =~= s.to_multiset()) by {
                assert forall|c: Creature| #[trigger] restored@.to_multiset().count(c) == s.to_multiset().count(c) by {
                    lemma_filter_count(applied@, q, c);
                    if q(c) {
                        if cr.to_multiset().count(c) > 0 {
                            assert(cr.contains(c));
                            let k = choose|k: int| 0 <= k < cr.len() && cr[k] == c;
                            assert(ids_of(cr)[k] == c.id);
                        }
                    } else {
                        if s.to_multiset().count(c) > 0 {
                            assert(s.contains(c));
                            let i = choose|i: int| 0 <= i < s.len() && s[i] == c;
                            let k = choose|k: int| 0 <= k < ids_of(cr).len() && ids_of(cr)[k] == c.id;
                            assert(cr[k].id != s[i].id);
                        }
                    }
                }
            }
            lemma_sorted_permutation_unique(s, restored@);
        },
    }
}

/// Applying an edit again after reverting it gives back exactly the state the
/// first application produced.
pub proof fn lemma_reapply_after_revert(
    before: Creatures,
    applied: Creatures,
    restored: Creatures,
    reapplied: Creatures,
    e: CreatureEdit,
)
    requires
        is_display_sorted(before@),
        ids_unique(before@),
        edit_consistent(before@, e),
        edit_applied(before, applied, e),
        edit_reverted(applied, restored, e),
        edit_applied(restored, reapplied, e),
    ensures
        reapplied@ == applied@,
{
    lemma_revert_restores(before, applied, restored, e);
    match e {
        CreatureEdit::AddCreatures { creatures } => {
            lemma_assign_ids_keeps(creatures@, before.next_fresh());
            lemma_assign_ids_keeps(creatures@, restored.next_fresh());
        },
        _ => {
            lemma_sorted_permutation_unique(applied@, reapplied@);
        },
    }
}

/// Sorting twice sorts once: sorting is stable, and a sequence already in
/// display order sorts to itself.
pub proof fn lemma_sort_twice(first: Seq<Creature>, once: Seq<Creature>, twice: Seq<Creature>)
    requires
        once == stable_sorted(first, display_order()),
        is_display_sorted(once),
        twice == stable_sorted(once, display_order()),
    ensures
        twice == once,
{
    assert forall|i: int, j: int| 0 <= i < j < once.len() implies !(display_order())(
        #[trigger] once[j],
        #[trigger] once[i],
    ) by {}
    lemma_stable_sorted_ordered(once, display_order());
}

/// Removing a creature by the identifier `add` gave it leaves the
/// creatures as they were before it was added, when their identifiers are
/// unique and below the counter.
pub proof fn lemma_add_then_remove(before: Creatures, after: Creatures, c: Creature, id: CreatureId)
    requires
        is_display_sorted(before@),
        ids_unique(before@),
        forall|i: int| 0 <= i < before@.len() ==> (#[trigger] before@[i]).id.0 < before.next_fresh(),
        c.id.0 == 0,
        id.0 == assigned_id(c, before.next_fresh()),
        is_display_sorted(after@),
        after@.to_multiset() == before@.push(Creature { id, ..c }).to_multiset(),
    ensures
        after@.filter(|x: Creature| !listed(seq![id], x.id)) == before@,
{
    broadcast use vstd::seq_lib::group_to_multiset_ensures;

    let pred = |x: Creature| !listed(seq![id], x.id);
    let kept = after@.filter(pred);
    let added = Creature { id, ..c };
    assert forall|x: Creature| kept.to_multiset().count(x) == before@.to_multiset().count(x) by {
        lemma_filter_count(after@, pred, x);
        if x.id == id {
            assert(seq![id][0] == x.id);
            assert(!pred(x));
            if before@.to_multiset().count(x) > 0 {
                let i = before@.index_of(x);
                assert(before@[i].id.0 < before.next_fresh());
            }
        } else {
            assert(!seq![id].contains(x.id)) by {
                if seq![id].contains(x.id) {
                    assert(seq![id][0] == x.id);
                }
            }
            assert(x != added);
        }
    }
    assert(kept.to_multiset() =~= before@.to_multiset());
    lemma_filter_sorted(after@, pred);
    lemma_ids_unique_permutation(before@, kept);
    lemma_sorted_permutation_unique(kept, before@);
}

/// A collection rebuilt from its own creatures (`from_vec` of `to_vec`)
/// holds them in the same order, when every creature carries its own
/// identifier; the counter of the new collection is its own.
pub proof fn lemma_from_vec_round_trip(c: Creatures, copy: Seq<Creature>, rebuilt: Creatures)
    requires
        is_display_sorted(c@),
        forall|i: int| 0 <= i < c@.len() ==> (#[trigger] c@[i]).id.0 != 0,
        copy == c@,
        rebuilt@ == stable_sorted(assign_ids(copy, 1).0, display_order()),
    ensures
        rebuilt@ == c@,
{
    lemma_assign_ids_keeps(copy, 1);
    lemma_display_sorted_ordered(c@);
    lemma_stable_sorted_ordered(c@, display_order());
}

} // verus!
