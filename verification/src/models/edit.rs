//! Undoable changes to the creatures of an encounter.

use vstd::prelude::*;

use crate::order::{insert_stable, lemma_stable_sorted_ordered};
use super::creature::{
    assign_ids, assigned_id, display_order, first_index_of, has_id, is_display_sorted, lemma_display_sorted_ordered,
    listed, Creature, CreatureId,
    Creatures,
};

verus! {

broadcast use vstd::seq_lib::group_to_multiset_ensures;

/// A health change of one creature: its health before and after.
#[derive(Clone, Copy, Debug, Eq, PartialEq, Structural)]
pub struct HealthChange {
    pub id: CreatureId,
    pub before: i32,
    pub after: i32,
}

impl HealthChange {
    pub fn new(id: CreatureId, before: i32, after: i32) -> (change: Self)
        ensures
            change == (HealthChange { id, before, after }),
    {
        Self { id, before, after }
    }
}

/// An initiative change of one creature: its initiative before and after.
#[derive(Clone, Copy, Debug, Eq, PartialEq, Structural)]
pub struct InitiativeChange {
    pub id: CreatureId,
    pub before: Option<i32>,
    pub after: Option<i32>,
}

impl InitiativeChange {
    pub fn new(id: CreatureId, before: Option<i32>, after: Option<i32>) -> (change: Self)
        ensures
            change == (InitiativeChange { id, before, after }),
    {
        Self { id, before, after }
    }
}

/// A change to the creatures that can be applied and reverted.
#[derive(Clone, Debug, Eq, PartialEq)]
#[allow(inconsistent_fields)]
pub enum CreatureEdit {
    AdjustHealth { changes: Vec<HealthChange> },
    SetInitiative { changes: Vec<InitiativeChange> },
    RenameCreature { id: CreatureId, before: String, after: String },
    AddCreatures { creatures: Vec<Creature> },
}

/// `s` with the first creature whose identifier is `id` replaced by `f` of it;
/// `s` itself when there is none.
pub open spec fn update_by_id(s: Seq<Creature>, id: CreatureId, f: spec_fn(Creature) -> Creature) -> Seq<
    Creature,
> {
    if has_id(s, id) {
        let i = choose|i: int| first_index_of(s, id, i);
        s.update(i, f(s[i]))
    } else {
        s
    }
}

/// The creature with its health set.
pub open spec fn with_health(h: i32) -> spec_fn(Creature) -> Creature {
    |c: Creature| Creature { health: h, ..c }
}

/// The creature with its initiative set.
pub open spec fn with_initiative(v: Option<i32>) -> spec_fn(Creature) -> Creature {
    |c: Creature| Creature { initiative: v, ..c }
}

/// The creature with its name set.
pub open spec fn with_name(name: String) -> spec_fn(Creature) -> Creature {
    |c: Creature| Creature { name, ..c }
}

/// The health changes applied in order, each to the first creature with its
/// identifier, setting the `after` health (or the `before` health when
/// `forward` is false).
pub open spec fn apply_health(s: Seq<Creature>, changes: Seq<HealthChange>, forward: bool) -> Seq<
    Creature,
>
    decreases changes.len(),
{
    if changes.len() == 0 {
        s
    } else {
        let ch = changes.last();
        update_by_id(
            apply_health(s, changes.drop_last(), forward),
            ch.id,
            with_health(if forward { ch.after } else { ch.before }),
        )
    }
}

/// The initiative changes applied in order, like `apply_health`.
pub open spec fn apply_initiative(s: Seq<Creature>, changes: Seq<InitiativeChange>, forward: bool) -> Seq<
    Creature,
>
    decreases changes.len(),
{
    if changes.len() == 0 {
        s
    } else {
        let ch = changes.last();
        update_by_id(
            apply_initiative(s, changes.drop_last(), forward),
            ch.id,
            with_initiative(if forward { ch.after } else { ch.before }),
        )
    }
}

/// The identifiers of the given creatures.
pub open spec fn ids_of(s: Seq<Creature>) -> Seq<CreatureId> {
    s.map_values(|c: Creature| c.id)
}

/// What applying `e` does to a collection: `new` is the result of applying it
/// to `old`.
pub open spec fn edit_applied(old: Creatures, new: Creatures, e: CreatureEdit) -> bool {
    match e {
        CreatureEdit::AdjustHealth { changes } => {
            &&& is_display_sorted(new@)
            &&& new@.to_multiset() == apply_health(old@, changes@, true).to_multiset()
            &&& new.next_fresh() == old.next_fresh()
        },
        CreatureEdit::SetInitiative { changes } => {
            &&& is_display_sorted(new@)
            &&& new@.to_multiset() == apply_initiative(old@, changes@, true).to_multiset()
            &&& new.next_fresh() == old.next_fresh()
        },
        CreatureEdit::RenameCreature { id, before, after } => {
            &&& is_display_sorted(new@)
            &&& new@.to_multiset() == update_by_id(old@, id, with_name(after)).to_multiset()
            &&& new.next_fresh() == old.next_fresh()
        },
        CreatureEdit::AddCreatures { creatures } => {
            &&& creatures@.len() > 0 ==> is_display_sorted(new@)
            &&& creatures@.len() == 0 ==> new@ == old@
            &&& new@.to_multiset() == (old@ + assign_ids(creatures@, old.next_fresh()).0).to_multiset()
            &&& new.next_fresh() == assign_ids(creatures@, old.next_fresh()).1
            &&& is_display_sorted(old@) ==> new@ == inserted_all(old@, assign_ids(creatures@, old.next_fresh()).0)
        },
    }
}

/// `s` with the creatures of `xs` inserted one after another, each before
/// the first creature it comes strictly before in display order.
pub open spec fn inserted_all(s: Seq<Creature>, xs: Seq<Creature>) -> Seq<Creature>
    decreases xs.len(),
{
    if xs.len() == 0 {
        s
    } else {
        insert_stable(inserted_all(s, xs.drop_last()), xs.last(), display_order())
    }
}

/// What reverting `e` does to a collection: `new` is the result of reverting
/// it on `old`.
pub open spec fn edit_reverted(old: Creatures, new: Creatures, e: CreatureEdit) -> bool {
    match e {
        CreatureEdit::AdjustHealth { changes } => {
            &&& is_display_sorted(new@)
            &&& new@.to_multiset() == apply_health(old@, changes@, false).to_multiset()
            &&& new.next_fresh() == old.next_fresh()
        },
        CreatureEdit::SetInitiative { changes } => {
            &&& is_display_sorted(new@)
            &&& new@.to_multiset() == apply_initiative(old@, changes@, false).to_multiset()
            &&& new.next_fresh() == old.next_fresh()
        },
        CreatureEdit::RenameCreature { id, before, after } => {
            &&& is_display_sorted(new@)
            &&& new@.to_multiset() == update_by_id(old@, id, with_name(before)).to_multiset()
            &&& new.next_fresh() == old.next_fresh()
        },
        CreatureEdit::AddCreatures { creatures } => {
            &&& new@ == old@.filter(|c: Creature| !listed(ids_of(creatures@), c.id))
            &&& new.next_fresh() == old.next_fresh()
        },
    }
}

fn set_health_of(target: &mut Creatures, id: CreatureId, health: i32)
    ensures
        final(target)@ == update_by_id(old(target)@, id, with_health(health)),
        final(target).next_fresh() == old(target).next_fresh(),
{
    match target.get_mut(id) {
        Some(c) => {
            c.set_health(health);
        },
        None => {},
    }
    proof {
        if has_id(old(target)@, id) {
            let i = choose|i: int| first_index_of(old(target)@, id, i);
            assert(first_index_of(old(target)@, id, i));
        }
    }
}


fn set_initiative_of(target: &mut Creatures, id: CreatureId, initiative: Option<i32>)
    ensures
        final(target)@ == update_by_id(old(target)@, id, with_initiative(initiative)),
        final(target).next_fresh() == old(target).next_fresh(),
{
    match target.get_mut(id) {
        Some(c) => {
            c.set_initiative(initiative);
        },
        None => {},
    }
    proof {
        if has_id(old(target)@, id) {
            let i = choose|i: int| first_index_of(old(target)@, id, i);
            assert(first_index_of(old(target)@, id, i));
        }
    }
}

fn set_name_of(target: &mut Creatures, id: CreatureId, name: &String)
    ensures
        final(target)@ == update_by_id(old(target)@, id, with_name(*name)),
        final(target).next_fresh() == old(target).next_fresh(),
{
    match target.get_mut(id) {
        Some(c) => {
            c.name = name.clone();
        },
        None => {},
    }
    proof {
        if has_id(old(target)@, id) {
            let i = choose|i: int| first_index_of(old(target)@, id, i);
            assert(first_index_of(old(target)@, id, i));
        }
    }
}

fn apply_health_changes(target: &mut Creatures, changes: &Vec<HealthChange>, forward: bool)
    ensures
        final(target)@ == apply_health(old(target)@, changes@, forward),
        final(target).next_fresh() == old(target).next_fresh(),
{
    let ghost start = target@;
    let mut k: usize = 0;
    while k < changes.len()
        invariant
            k <= changes.len(),
            target@ == apply_health(start, changes@.take(k as int), forward),
            target.next_fresh() == old(target).next_fresh(),
        decreases changes.len() - k,
    {
        let ch = changes[k];
        assert(changes@.take(k + 1).drop_last() =~= changes@.take(k as int));
        if forward {
            set_health_of(target, ch.id, ch.after);
        } else {
            set_health_of(target, ch.id, ch.before);
        }
        k = k + 1;
    }
    assert(changes@.take(k as int) =~= changes@);
}

fn apply_initiative_changes(target: &mut Creatures, changes: &Vec<InitiativeChange>, forward: bool)
    ensures
        final(target)@ == apply_initiative(old(target)@, changes@, forward),
        final(target).next_fresh() == old(target).next_fresh(),
{
    let ghost start = target@;
    let mut k: usize = 0;
    while k < changes.len()
        invariant
            k <= changes.len(),
            target@ == apply_initiative(start, changes@.take(k as int), forward),
            target.next_fresh() == old(target).next_fresh(),
        decreases changes.len() - k,
    {
        let ch = changes[k];
        assert(changes@.take(k + 1).drop_last() =~= changes@.take(k as int));
        if forward {
            set_initiative_of(target, ch.id, ch.after);
        } else {
            set_initiative_of(target, ch.id, ch.before);
        }
        k = k + 1;
    }
    assert(changes@.take(k as int) =~= changes@);
}

/// The identifiers of the given creatures, in order.
pub fn ids_of_creatures(creatures: &Vec<Creature>) -> (ids: Vec<CreatureId>)
    ensures
        ids@ == ids_of(creatures@),
{
    let mut ids: Vec<CreatureId> = Vec::new();
    let mut i: usize = 0;
    while i < creatures.len()
        invariant
            i <= creatures.len(),
            ids@ == ids_of(creatures@.take(i as int)),
        decreases creatures.len() - i,
    {
        ids.push(creatures[i].id);
        assert(ids_of(creatures@.take(i + 1)) =~= ids_of(creatures@.take(i as int)).push(
            creatures@[i as int].id,
        ));
        i = i + 1;
    }
    assert(creatures@.take(i as int) =~= creatures@);
    ids
}

impl CreatureEdit {
    /// Restores the creatures to how they were before the edit was applied.
    pub fn revert_from(&self, target: &mut Creatures)
        ensures
            edit_reverted(*old(target), *final(target), *self),
    {
        match self {
            CreatureEdit::AdjustHealth { changes } => {
                apply_health_changes(target, changes, false);
                target.sort();
            },
            CreatureEdit::SetInitiative { changes } => {
                apply_initiative_changes(target, changes, false);
                target.sort();
            },
            CreatureEdit::RenameCreature { id, before, after: _ } => {
                set_name_of(target, *id, before);
                target.sort();
            },
            CreatureEdit::AddCreatures { creatures } => {
                let ids = ids_of_creatures(creatures);
                let _removed = target.remove_by_ids(ids.as_slice());
            },
        }
    }

    /// Applies the edit to the creatures.
    pub fn apply_to(&self, target: &mut Creatures)
        ensures
            edit_applied(*old(target), *final(target), *self),
    {
        match self {
            CreatureEdit::AdjustHealth { changes } => {
                apply_health_changes(target, changes, true);
                target.sort();
            },
            CreatureEdit::SetInitiative { changes } => {
                apply_initiative_changes(target, changes, true);
                target.sort();
            },
            CreatureEdit::RenameCreature { id, before: _, after } => {
                set_name_of(target, *id, after);
                target.sort();
            },
            CreatureEdit::AddCreatures { creatures } => {
                let ghost start = *target;
                let mut i: usize = 0;
                while i < creatures.len()
                    invariant
                        i <= creatures.len(),
                        i > 0 ==> is_display_sorted(target@),
                        target@.to_multiset() == (start@ + assign_ids(
                            creatures@.take(i as int),
                            start.next_fresh(),
                        ).0).to_multiset(),
                        target.next_fresh() == assign_ids(creatures@.take(i as int), start.next_fresh()).1,
                        i == 0 ==> target@ == start@,
                        is_display_sorted(start@) ==> target@ == inserted_all(
                            start@,
                            assign_ids(creatures@.take(i as int), start.next_fresh()).0,
                        ),
                    decreases creatures.len() - i,
                {
                    let ghost before = target@;
                    let ghost prev = assign_ids(creatures@.take(i as int), start.next_fresh());
                    assert(creatures@.take(i + 1).drop_last() =~= creatures@.take(i as int));
                    let ghost cur = *target;
                    let id = target.add_existing(creatures[i].clone());
                    let ghost x = Creature { id, ..creatures@[i as int] };
                    assert(id == CreatureId(assigned_id(creatures@[i as int], prev.1)));
                    assert(assign_ids(creatures@.take(i + 1), start.next_fresh()).0 == prev.0.push(x));
                    proof {
                        if is_display_sorted(start@) {
                            lemma_display_sorted_ordered(cur@);
                            lemma_stable_sorted_ordered(cur@, display_order());
                            assert(cur@.push(x).drop_last() =~= cur@);
                            assert(prev.0.push(x).drop_last() =~= prev.0);
                        }
                    }
                    assert(start@ + prev.0.push(x) =~= (start@ + prev.0).push(x));
                    i = i + 1;
                }
                assert(creatures@.take(i as int) =~= creatures@);
            },
        }
    }
}


impl undo::Edit for CreatureEdit {
    type Target = Creatures;
    type Output = ();

    fn edit(&mut self, target: &mut Creatures)
        ensures
            *final(self) == *old(self),
            edit_applied(*old(target), *final(target), *old(self)),
    {
        self.apply_to(target);
    }

    fn undo(&mut self, target: &mut Creatures)
        ensures
            *final(self) == *old(self),
            edit_reverted(*old(target), *final(target), *old(self)),
    {
        self.revert_from(target);
    }
}

} // verus!
