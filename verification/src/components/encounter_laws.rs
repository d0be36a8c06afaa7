//! What holds across the encounter's operations: undo gives back what an
//! edit changed, redo gives the edit back, the submitted edits agree with the
//! creatures they were made from, and moving or toggling twice returns.

use vstd::prelude::*;

use crate::components::encounter::{
    creatures_submitted, edit_submitted, key_routed, normal_key_action, encounter_wf, fresh_ids_ok, health_changes_for, health_submitted,
    initiative_changes_for, initiative_submitted, is_insert_position, next_position, other_than, position_of,
    previous_position, reconciled, redone, rename_submitted, signed_amount, strictly_increasing, toggled, undone, Encounter,
};
use crate::models::creature::Creatures;
use crate::models::edit::edit_applied;
use crate::action::Action;
use crate::models::input::{
    char_typed, empty_field, field_of, field_text, form_request, plain_cursor, spec_parse_i32, spec_parse_positive_i32,
    text_field_lines, types_char, AppMode, NewCreatureField, TextField, TextInput, TextKey,
};
use crate::text::trim_chars;
use crate::models::creature::{
    capped_health, first_index_of, first_with_id, has_id, ids_unique, is_display_sorted, lemma_first_index_exists, lemma_first_index_unique, Creature,
    CreatureId,
};
use crate::models::edit::{CreatureEdit, HealthChange};
use crate::models::edit_laws::{
    health_after, lemma_apply_health_pointwise, lemma_health_after_fields,
    added_distinct, applied_state, edit_consistent, lemma_applied_state_unique, lemma_ids_unique_permutation, lemma_reapply_after_revert,
    lemma_revert_restores,
};
use crate::models::history::{history_entries, history_head, pushed, record_limit, record_state};

verus! {

/// No identifier occurs twice.
pub open spec fn ids_distinct(ids: Seq<CreatureId>) -> bool {
    forall|i: int, j: int| 0 <= i < j < ids.len() ==> ids[i] != ids[j]
}

/// With unique identifiers, the creature holding an identifier is the first
/// one holding it.
proof fn lemma_unique_is_first(s: Seq<Creature>, i: int)
    requires
        ids_unique(s),
        0 <= i < s.len(),
    ensures
        first_with_id(s, s[i].id) == s[i],
{
    let id = s[i].id;
    assert(first_index_of(s, id, i)) by {
        assert forall|j: int| 0 <= j < i implies (#[trigger] s[j]).id != id by {}
    }
    lemma_first_index_exists(s, id);
    let k = choose|k: int| first_index_of(s, id, k);
    lemma_first_index_unique(s, id, i, k);
}

/// Every health change is for a listed identifier, records the health the
/// first creature with it has, and no two changes share an identifier when
/// the identifiers are distinct.
proof fn lemma_health_changes_shape(s: Seq<Creature>, ids: Seq<CreatureId>, delta: int)
    ensures
        forall|k: int|
            0 <= k < health_changes_for(s, ids, delta).len() ==> ids.contains(
                (#[trigger] health_changes_for(s, ids, delta)[k]).id,
            ) && has_id(s, health_changes_for(s, ids, delta)[k].id) && health_changes_for(s, ids, delta)[k].before
                == first_with_id(s, health_changes_for(s, ids, delta)[k].id).health,
        ids_distinct(ids) ==> forall|a: int, b: int|
            0 <= a < b < health_changes_for(s, ids, delta).len() ==> (#[trigger] health_changes_for(
                s,
                ids,
                delta,
            )[a]).id != (#[trigger] health_changes_for(s, ids, delta)[b]).id,
    decreases ids.len(),
{
    if ids.len() > 0 {
        let prev = health_changes_for(s, ids.drop_last(), delta);
        let cur = health_changes_for(s, ids, delta);
        lemma_health_changes_shape(s, ids.drop_last(), delta);
        assert forall|k: int| 0 <= k < prev.len() implies ids.contains(#[trigger] prev[k].id) by {
            let j = choose|j: int| 0 <= j < ids.drop_last().len() && ids.drop_last()[j] == prev[k].id;
            assert(ids[j] == prev[k].id);
        }
        if cur.len() > prev.len() {
            assert(cur =~= prev.push(cur.last()));
            assert(cur.last().id == ids.last());
            assert(ids[ids.len() - 1] == ids.last());
            if ids_distinct(ids) {
                assert(ids_distinct(ids.drop_last()));
                assert forall|k: int| 0 <= k < prev.len() implies (#[trigger] prev[k]).id != ids.last() by {
                    let j = choose|j: int| 0 <= j < ids.drop_last().len() && ids.drop_last()[j] == prev[k].id;
                    assert(ids[j] == prev[k].id);
                }
            }
        } else {
            assert(cur =~= prev);
        }
    }
}

/// The same for initiative changes.
proof fn lemma_initiative_changes_shape(s: Seq<Creature>, ids: Seq<CreatureId>, value: i32)
    ensures
        forall|k: int|
            0 <= k < initiative_changes_for(s, ids, value).len() ==> ids.contains(
                (#[trigger] initiative_changes_for(s, ids, value)[k]).id,
            ) && has_id(s, initiative_changes_for(s, ids, value)[k].id) && initiative_changes_for(
                s,
                ids,
                value,
            )[k].before == first_with_id(s, initiative_changes_for(s, ids, value)[k].id).initiative,
        ids_distinct(ids) ==> forall|a: int, b: int|
            0 <= a < b < initiative_changes_for(s, ids, value).len() ==> (#[trigger] initiative_changes_for(
                s,
                ids,
                value,
            )[a]).id != (#[trigger] initiative_changes_for(s, ids, value)[b]).id,
    decreases ids.len(),
{
    if ids.len() > 0 {
        let prev = initiative_changes_for(s, ids.drop_last(), value);
        let cur = initiative_changes_for(s, ids, value);
        lemma_initiative_changes_shape(s, ids.drop_last(), value);
        assert forall|k: int| 0 <= k < prev.len() implies ids.contains(#[trigger] prev[k].id) by {
            let j = choose|j: int| 0 <= j < ids.drop_last().len() && ids.drop_last()[j] == prev[k].id;
            assert(ids[j] == prev[k].id);
        }
        if cur.len() > prev.len() {
            assert(cur =~= prev.push(cur.last()));
            assert(cur.last().id == ids.last());
            assert(ids[ids.len() - 1] == ids.last());
            if ids_distinct(ids) {
                assert(ids_distinct(ids.drop_last()));
                assert forall|k: int| 0 <= k < prev.len() implies (#[trigger] prev[k]).id != ids.last() by {
                    let j = choose|j: int| 0 <= j < ids.drop_last().len() && ids.drop_last()[j] == prev[k].id;
                    assert(ids[j] == prev[k].id);
                }
            }
        } else {
            assert(cur =~= prev);
        }
    }
}

/// A health edit made from the creatures agrees with the creatures: each
/// change records the health its creature has.
pub proof fn lemma_health_edit_consistent(s: Seq<Creature>, ids: Seq<CreatureId>, delta: int, e: CreatureEdit)
    requires
        ids_unique(s),
        e matches CreatureEdit::AdjustHealth { changes } && changes@ == health_changes_for(s, ids, delta),
    ensures
        edit_consistent(s, e),
{
    lemma_health_changes_shape(s, ids, delta);
    let ch = health_changes_for(s, ids, delta);
    assert forall|k: int, i: int|
        0 <= k < ch.len() && 0 <= i < s.len() && (#[trigger] s[i]).id == (#[trigger] ch[k]).id implies s[i].health
        == ch[k].before by {
        lemma_unique_is_first(s, i);
    }
}

/// An initiative edit made from the creatures agrees with the creatures.
pub proof fn lemma_initiative_edit_consistent(s: Seq<Creature>, ids: Seq<CreatureId>, value: i32, e: CreatureEdit)
    requires
        ids_unique(s),
        e matches CreatureEdit::SetInitiative { changes } && changes@ == initiative_changes_for(s, ids, value),
    ensures
        edit_consistent(s, e),
{
    lemma_initiative_changes_shape(s, ids, value);
    let ch = initiative_changes_for(s, ids, value);
    assert forall|k: int, i: int|
        0 <= k < ch.len() && 0 <= i < s.len() && (#[trigger] s[i]).id == (#[trigger] ch[k]).id implies s[i].initiative
        == ch[k].before by {
        lemma_unique_is_first(s, i);
    }
}

/// A rename made from the creatures agrees with them.
pub proof fn lemma_rename_edit_consistent(s: Seq<Creature>, id: CreatureId, e: CreatureEdit)
    requires
        ids_unique(s),
        has_id(s, id),
        e matches CreatureEdit::RenameCreature { id: eid, before, after: _ } && eid == id && before
            == first_with_id(s, id).name,
    ensures
        edit_consistent(s, e),
{
    assert forall|i: int| 0 <= i < s.len() && (#[trigger] s[i]).id == id implies s[i].name == first_with_id(s, id).name by {
        lemma_unique_is_first(s, i);
    }
}

/// After an edit is pushed on a history with room for one edit, the edit is
/// the one just below the head, and the head is above the bottom.
proof fn lemma_pushed_top(old_history: undo::Record<CreatureEdit>, new_history: undo::Record<CreatureEdit>, e: CreatureEdit)
    requires
        history_head(old_history) <= history_entries(old_history).len(),
        record_limit(old_history) > 0,
        record_state(new_history) == pushed(
            history_entries(old_history),
            history_head(old_history),
            record_limit(old_history),
            e,
        ),
    ensures
        history_head(new_history) > 0,
        history_head(new_history) <= history_entries(new_history).len(),
        history_entries(new_history)[history_head(new_history) - 1] == e,
{
}

/// Undo right after an edit was submitted gives back exactly the creatures
/// the encounter had before the edit.
pub proof fn lemma_undo_restores_submitted_edit(
    old: Encounter,
    mid: Encounter,
    new: Encounter,
    e: CreatureEdit,
    hover: Option<usize>,
)
    requires
        encounter_wf(old),
        edit_consistent(old.creatures@, e),
        edit_submitted(old, mid, e, hover),
        undone(mid, new),
    ensures
        new.creatures@ == old.creatures@,
{
    lemma_pushed_top(old.history, mid.history, e);
    lemma_revert_restores(old.creatures, mid.creatures, new.creatures, e);
}

/// Redo right after that undo gives back exactly the creatures the edit
/// produced.
pub proof fn lemma_redo_reapplies_submitted_edit(
    old: Encounter,
    mid: Encounter,
    new: Encounter,
    newer: Encounter,
    e: CreatureEdit,
    hover: Option<usize>,
)
    requires
        encounter_wf(old),
        edit_consistent(old.creatures@, e),
        edit_submitted(old, mid, e, hover),
        undone(mid, new),
        redone(new, newer),
    ensures
        newer.creatures@ == mid.creatures@,
{
    lemma_pushed_top(old.history, mid.history, e);
    lemma_revert_restores(old.creatures, mid.creatures, new.creatures, e);
    lemma_reapply_after_revert(old.creatures, mid.creatures, new.creatures, newer.creatures, e);
}

/// Submitting a health change and then undoing gives
/// back exactly the creatures from before, clamped healing included.
pub proof fn lemma_health_submit_then_undo(old: Encounter, mid: Encounter, new: Encounter)
    requires
        encounter_wf(old),
        old.mode matches AppMode::HealthInput(input) && (spec_parse_positive_i32(
            field_text(input.textarea),
            "amount"@,
        ) matches Ok(amount) && health_changes_for(
            old.creatures@,
            input.target_ids@,
            signed_amount(input.operation, amount),
        ).len() > 0),
        health_submitted(old, mid),
        undone(mid, new),
    ensures
        new.creatures@ == old.creatures@,
{
    if let AppMode::HealthInput(input) = old.mode {
        if let Ok(amount) = spec_parse_positive_i32(field_text(input.textarea), "amount"@) {
            let e = history_entries(mid.history).last();
            lemma_health_edit_consistent(
                old.creatures@,
                input.target_ids@,
                signed_amount(input.operation, amount),
                e,
            );
            lemma_undo_restores_submitted_edit(old, mid, new, e, old.hovered);
        }
    }
}

/// Submitting an initiative and then undoing gives back
/// exactly the creatures from before.
pub proof fn lemma_initiative_submit_then_undo(old: Encounter, mid: Encounter, new: Encounter)
    requires
        encounter_wf(old),
        old.mode matches AppMode::InitiativeInput(input) && (spec_parse_i32(
            field_text(input.textarea),
            "initiative"@,
        ) matches Ok(value) && initiative_changes_for(old.creatures@, input.target_ids@, value).len() > 0),
        initiative_submitted(old, mid),
        undone(mid, new),
    ensures
        new.creatures@ == old.creatures@,
{
    if let AppMode::InitiativeInput(input) = old.mode {
        if let Ok(value) = spec_parse_i32(field_text(input.textarea), "initiative"@) {
            let e = history_entries(mid.history).last();
            lemma_initiative_edit_consistent(old.creatures@, input.target_ids@, value, e);
            let hover = if input.target_ids@.len() > 0 {
                position_of(mid.creatures@, input.target_ids@[0])
            } else {
                old.hovered
            };
            lemma_undo_restores_submitted_edit(old, mid, new, e, hover);
        }
    }
}

/// Renaming a creature and then undoing gives back exactly the creatures
/// from before.
pub proof fn lemma_rename_submit_then_undo(old: Encounter, mid: Encounter, new: Encounter)
    requires
        encounter_wf(old),
        old.mode matches AppMode::RenameInput(input) && has_id(old.creatures@, input.target_id) && trim_chars(
            field_text(input.textarea),
        ).len() > 0 && first_with_id(old.creatures@, input.target_id).name@ != trim_chars(
            field_text(input.textarea),
        ),
        rename_submitted(old, mid),
        undone(mid, new),
    ensures
        new.creatures@ == old.creatures@,
{
    if let AppMode::RenameInput(input) = old.mode {
        let e = history_entries(mid.history).last();
        lemma_rename_edit_consistent(old.creatures@, input.target_id, e);
        lemma_undo_restores_submitted_edit(old, mid, new, e, position_of(mid.creatures@, input.target_id));
    }
}

/// Adding a batch from the new-creature form and then undoing gives back
/// exactly the creatures from before.
pub proof fn lemma_creatures_submit_then_undo(old: Encounter, mid: Encounter, new: Encounter)
    requires
        encounter_wf(old),
        old.mode matches AppMode::NewCreature(form) && (form_request(form.fields) matches Ok(req)
            && fresh_ids_ok(old.creatures, req.4 as int)),
        creatures_submitted(old, mid),
        undone(mid, new),
    ensures
        new.creatures@ == old.creatures@,
{
    if let AppMode::NewCreature(form) = old.mode {
        if let Ok(req) = form_request(form.fields) {
            let e = history_entries(mid.history).last();
            lemma_pushed_top(old.history, mid.history, e);
            let before = choose|before: Creatures| before@ == old.creatures@ && #[trigger] edit_applied(
                before,
                mid.creatures,
                e,
            );
            lemma_revert_restores(before, mid.creatures, new.creatures, e);
        }
    }
}

/// Keeping only some identifiers of an increasing sequence leaves it
/// increasing.
proof fn lemma_filter_increasing(s: Seq<CreatureId>, p: spec_fn(CreatureId) -> bool)
    requires
        strictly_increasing(s),
    ensures
        strictly_increasing(s.filter(p)),
        forall|i: int| 0 <= i < s.filter(p).len() ==> s.contains(#[trigger] s.filter(p)[i]),
    decreases s.len(),
{
    if s.len() == 0 {
        assert(s.filter(p) =~= s) by {
            reveal(Seq::filter);
        }
    } else {
        let init = s.drop_last();
        let last = s.last();
        assert(strictly_increasing(init)) by {
            assert forall|i: int, j: int| 0 <= i < j < init.len() implies (#[trigger] init[i]).0 < (
            #[trigger] init[j]).0 by {
                assert(init[i] == s[i] && init[j] == s[j]);
            }
        }
        lemma_filter_increasing(init, p);
        assert(s =~= init.push(last));
        init.lemma_filter_push(last, p);
        let f = init.filter(p);
        assert forall|i: int| 0 <= i < f.len() implies (#[trigger] f[i]).0 < last.0 by {
            let k = choose|k: int| 0 <= k < init.len() && init[k] == f[i];
            assert(s[k] == init[k]);
            assert(s[s.len() - 1] == last);
        }
        assert forall|i: int| 0 <= i < s.filter(p).len() implies s.contains(#[trigger] s.filter(p)[i]) by {
            if i < f.len() {
                let k = choose|k: int| 0 <= k < init.len() && init[k] == f[i];
                assert(s[k] == init[k]);
            } else {
                assert(s[s.len() - 1] == last);
            }
        }
    }
}

/// Toggling the hovered creature keeps the selection in increasing order of
/// identifier.
pub proof fn lemma_toggle_keeps_increasing(selected: Seq<CreatureId>, id: CreatureId)
    requires
        strictly_increasing(selected),
    ensures
        strictly_increasing(toggled(selected, id)),
{
    if selected.contains(id) {
        lemma_filter_increasing(selected, other_than(id));
    } else {
        lemma_insert_position_exists(selected, id);
        let p = choose|p: int| is_insert_position(selected, id, p);
        let t = selected.insert(p, id);
        assert forall|i: int, j: int| 0 <= i < j < t.len() implies (#[trigger] t[i]).0 < (#[trigger] t[j]).0 by {
            if j < p {
                assert(t[i] == selected[i] && t[j] == selected[j]);
            } else if j == p {
                assert(t[i] == selected[i]);
                assert(selected[i].0 <= id.0);
                assert(selected[i] != id);
            } else if i < p {
                assert(t[i] == selected[i] && t[j] == selected[j - 1]);
            } else if i == p {
                assert(t[j] == selected[j - 1]);
                assert(selected[p].0 > id.0);
                if j - 1 > p {
                    assert(selected[p].0 < selected[j - 1].0);
                }
            } else {
                assert(t[i] == selected[i - 1] && t[j] == selected[j - 1]);
            }
        }
    }
}

/// Submitting an edit that agrees with the creatures keeps the encounter
/// well formed: creatures in display order with unique identifiers, the
/// selection increasing, and the history consistent.
pub proof fn lemma_submitted_edit_keeps_wf(old: Encounter, new: Encounter, e: CreatureEdit, hover: Option<usize>)
    requires
        encounter_wf(old),
        edit_consistent(old.creatures@, e),
        added_distinct(e),
        edit_submitted(old, new, e, hover),
    ensures
        encounter_wf(new),
{
    lemma_pushed_top(old.history, new.history, e);
    lemma_applied_state_unique(old.creatures, e);
    lemma_ids_unique_permutation(applied_state(old.creatures, e), new.creatures@);
    lemma_filter_increasing(old.selected@, |id: CreatureId| has_id(new.creatures@, id));
    if let CreatureEdit::AddCreatures { creatures } = e {
        if creatures@.len() == 0 {
            assert(is_display_sorted(new.creatures@));
        }
    }
}

/// Moving down and then up a non-empty list returns to the hovered row.
pub proof fn lemma_next_then_previous(hovered: usize, len: nat)
    requires
        hovered < len,
        len <= usize::MAX,
    ensures
        previous_position(next_position(Some(hovered), len), len) == Some(hovered),
{
}

/// Moving up and then down a non-empty list returns to the hovered row.
pub proof fn lemma_previous_then_next(hovered: usize, len: nat)
    requires
        hovered < len,
        len <= usize::MAX,
    ensures
        next_position(previous_position(Some(hovered), len), len) == Some(hovered),
{
}

/// Toggling an identifier that is not selected and then toggling it again
/// gives back the selection.
pub proof fn lemma_toggle_twice_unselected(selected: Seq<CreatureId>, id: CreatureId)
    requires
        strictly_increasing(selected),
        !selected.contains(id),
    ensures
        toggled(toggled(selected, id), id) == selected,
{
    let p = choose|p: int| is_insert_position(selected, id, p);
    lemma_insert_position_exists(selected, id);
    let t = selected.insert(p, id);
    assert(t[p] == id);
    lemma_filter_removes_inserted(selected, p, id);
}

/// Toggling a selected identifier and then toggling it again gives back the
/// selection.
#[verifier::rlimit(30)]
pub proof fn lemma_toggle_twice_selected(selected: Seq<CreatureId>, id: CreatureId)
    requires
        strictly_increasing(selected),
        selected.contains(id),
    ensures
        toggled(toggled(selected, id), id) == selected,
{
    let k = choose|k: int| 0 <= k < selected.len() && selected[k] == id;
    let rest = selected.remove(k);
    assert(!rest.contains(id)) by {
        if rest.contains(id) {
            let j = choose|j: int| 0 <= j < rest.len() && rest[j] == id;
            if j < k {
                assert(rest[j] == selected[j]);
                assert(selected[j].0 < selected[k].0);
            } else {
                assert(rest[j] == selected[j + 1]);
                assert(selected[k].0 < selected[j + 1].0);
            }
        }
    }
    assert(rest.insert(k, id) =~= selected);
    lemma_filter_removes_inserted(rest, k, id);
    let f = selected.filter(other_than(id));
    assert(f == rest);
    assert(is_insert_position(rest, id, k)) by {
        assert forall|j: int| 0 <= j < k implies (#[trigger] rest[j]).0 <= id.0 by {
            assert(rest[j] == selected[j]);
            assert(selected[j].0 < selected[k].0);
        }
        if k < rest.len() {
            assert(rest[k] == selected[k + 1]);
            assert(selected[k].0 < selected[k + 1].0);
        }
    }
    lemma_insert_position_unique(rest, id, k);
}

proof fn lemma_insert_position_exists(s: Seq<CreatureId>, id: CreatureId)
    requires
        strictly_increasing(s),
    ensures
        exists|p: int| is_insert_position(s, id, p),
    decreases s.len(),
{
    if s.len() == 0 {
        assert(is_insert_position(s, id, 0));
    } else if s[0].0 > id.0 {
        assert(is_insert_position(s, id, 0));
    } else {
        let t = s.drop_first();
        assert(strictly_increasing(t)) by {
            assert forall|i: int, j: int| 0 <= i < j < t.len() implies (#[trigger] t[i]).0 < (#[trigger] t[j]).0 by {
                assert(t[i] == s[i + 1] && t[j] == s[j + 1]);
            }
        }
        lemma_insert_position_exists(t, id);
        let q = choose|q: int| is_insert_position(t, id, q);
        assert(is_insert_position(s, id, q + 1)) by {
            assert forall|j: int| 0 <= j < q + 1 implies (#[trigger] s[j]).0 <= id.0 by {
                if j > 0 {
                    assert(s[j] == t[j - 1]);
                }
            }
            if q + 1 < s.len() {
                assert(s[q + 1] == t[q]);
            }
        }
    }
}

proof fn lemma_insert_position_unique(s: Seq<CreatureId>, id: CreatureId, p: int)
    requires
        is_insert_position(s, id, p),
    ensures
        (choose|q: int| is_insert_position(s, id, q)) == p,
{
    let q = choose|q: int| is_insert_position(s, id, q);
    if q < p {
        assert(s[q].0 <= id.0);
    } else if q > p {
        assert(s[p].0 <= id.0);
    }
}

/// Removing `id` from a sequence that does not hold it changes nothing.
proof fn lemma_filter_keeps_others(s: Seq<CreatureId>, id: CreatureId)
    requires
        !s.contains(id),
    ensures
        s.filter(other_than(id)) == s,
    decreases s.len(),
{
    let f = other_than(id);
    if s.len() == 0 {
        assert(s.filter(f) =~= s) by {
            reveal(Seq::filter);
        }
    } else {
        let init = s.drop_last();
        let last = s.last();
        assert(!init.contains(id)) by {
            if init.contains(id) {
                let j = choose|j: int| 0 <= j < init.len() && init[j] == id;
                assert(s[j] == id);
            }
        }
        assert(s[s.len() - 1] == last);
        lemma_filter_keeps_others(init, id);
        init.lemma_filter_push(last, f);
        assert(init.push(last) =~= s);
    }
}

/// Removing `id` from `s` with `id` inserted at `p` gives back `s`, when `s`
/// does not hold `id`.
proof fn lemma_filter_removes_inserted(s: Seq<CreatureId>, p: int, id: CreatureId)
    requires
        0 <= p <= s.len(),
        !s.contains(id),
    ensures
        s.insert(p, id).filter(other_than(id)) == s,
    decreases s.len(),
{
    let f = other_than(id);
    if p == s.len() {
        assert(s.insert(p, id) =~= s.push(id));
        s.lemma_filter_push(id, f);
        lemma_filter_keeps_others(s, id);
    } else {
        let init = s.drop_last();
        let last = s.last();
        assert(!init.contains(id)) by {
            if init.contains(id) {
                let j = choose|j: int| 0 <= j < init.len() && init[j] == id;
                assert(s[j] == id);
            }
        }
        assert(s[s.len() - 1] == last);
        lemma_filter_removes_inserted(init, p, id);
        assert(s.insert(p, id) =~= init.insert(p, id).push(last));
        init.insert(p, id).lemma_filter_push(last, f);
        assert(init.push(last) =~= s);
    }
}

/// Filtering a sequence twice by the same predicate filters it once.
proof fn lemma_filter_twice<A>(s: Seq<A>, pred: spec_fn(A) -> bool)
    ensures
        s.filter(pred).filter(pred) == s.filter(pred),
    decreases s.len(),
{
    broadcast use Seq::lemma_filter_push;

    if s.len() > 0 {
        let t = s.drop_last();
        let x = s.last();
        assert(s =~= t.push(x));
        lemma_filter_twice(t, pred);
        t.lemma_filter_push(x, pred);
        if pred(x) {
            t.filter(pred).lemma_filter_push(x, pred);
        }
    } else {
        assert(s.filter(pred) =~= Seq::<A>::empty());
        assert(s.filter(pred).filter(pred) =~= Seq::<A>::empty());
    }
}

/// Reconciling the selection and hover a second time changes nothing: the
/// selection already names only existing creatures and the hover and scroll
/// positions already lie within them.
pub proof fn lemma_reconcile_twice(e0: Encounter, e1: Encounter, e2: Encounter)
    requires
        reconciled(e0, e1),
        reconciled(e1, e2),
    ensures
        e2.selected@ == e1.selected@,
        e2.hovered == e1.hovered,
        e2.scroll_offset == e1.scroll_offset,
        e2.creatures == e1.creatures,
        e2.mode == e1.mode,
        e2.history == e1.history,
{
    lemma_filter_twice(e0.selected@, |id: CreatureId| has_id(e0.creatures@, id));
}

/// Navigation, selection and popups are no undo steps: after an edit is
/// submitted, any steps that leave the creatures and the history as they
/// are (moving, toggling or clearing the selection, opening, typing into or
/// cancelling a popup) do not change what undo gives back, which is the
/// creatures from before the edit. The selection then names only existing
/// creatures, and something is hovered exactly when there are creatures.
pub proof fn lemma_undo_after_navigation(
    old: Encounter,
    mid: Encounter,
    nav: Encounter,
    new: Encounter,
    e: CreatureEdit,
    hover: Option<usize>,
)
    requires
        encounter_wf(old),
        edit_consistent(old.creatures@, e),
        edit_submitted(old, mid, e, hover),
        nav.creatures == mid.creatures,
        nav.history == mid.history,
        undone(nav, new),
    ensures
        new.creatures@ == old.creatures@,
        forall|i: int| 0 <= i < new.selected@.len() ==> has_id(new.creatures@, #[trigger] new.selected@[i]),
        (new.hovered is None) == (new.creatures@.len() == 0),
{
    lemma_pushed_top(old.history, mid.history, e);
    lemma_revert_restores(old.creatures, mid.creatures, new.creatures, e);
    let pred = |id: CreatureId| has_id(new.creatures@, id);
    nav.selected@.filter_lemma(pred);
}

/// Redo after undo gives back the creatures from before the undo, whatever
/// led there: when the edit below the history's head made the current
/// creatures from creatures it agrees with, undoing it and redoing it ends
/// where it started. The selection then names only existing creatures, and
/// something is hovered exactly when there are creatures.
pub proof fn lemma_undo_then_redo(base: Creatures, e: Encounter, undone_e: Encounter, redone_e: Encounter)
    requires
        history_head(e.history) > 0,
        history_head(e.history) <= history_entries(e.history).len(),
        is_display_sorted(base@),
        ids_unique(base@),
        edit_consistent(base@, history_entries(e.history)[history_head(e.history) - 1]),
        edit_applied(base, e.creatures, history_entries(e.history)[history_head(e.history) - 1]),
        undone(e, undone_e),
        redone(undone_e, redone_e),
    ensures
        undone_e.creatures@ == base@,
        redone_e.creatures@ == e.creatures@,
        forall|i: int|
            0 <= i < redone_e.selected@.len() ==> has_id(redone_e.creatures@, #[trigger] redone_e.selected@[i]),
        (redone_e.hovered is None) == (redone_e.creatures@.len() == 0),
{
    let edit = history_entries(e.history)[history_head(e.history) - 1];
    lemma_revert_restores(base, e.creatures, undone_e.creatures, edit);
    lemma_reapply_after_revert(base, e.creatures, undone_e.creatures, redone_e.creatures, edit);
    let pred = |id: CreatureId| has_id(redone_e.creatures@, id);
    undone_e.selected@.filter_lemma(pred);
}

/// Every target that exists and whose capped health would change gets a
/// change: from the health of the first creature with its identifier to the
/// capped sum.
proof fn lemma_health_changes_cover(s: Seq<Creature>, ids: Seq<CreatureId>, delta: int, t: int)
    requires
        0 <= t < ids.len(),
        has_id(s, ids[t]),
        capped_health(first_with_id(s, ids[t]).health + delta, first_with_id(s, ids[t]).max_health)
            != first_with_id(s, ids[t]).health,
    ensures
        exists|j: int|
            0 <= j < health_changes_for(s, ids, delta).len() && #[trigger] health_changes_for(s, ids, delta)[j]
                == (HealthChange {
                id: ids[t],
                before: first_with_id(s, ids[t]).health,
                after: capped_health(
                    first_with_id(s, ids[t]).health + delta,
                    first_with_id(s, ids[t]).max_health,
                ),
            }),
    decreases ids.len(),
{
    let prev = health_changes_for(s, ids.drop_last(), delta);
    let cur = health_changes_for(s, ids, delta);
    if t < ids.len() - 1 {
        assert(ids.drop_last()[t] == ids[t]);
        lemma_health_changes_cover(s, ids.drop_last(), delta, t);
        let j = choose|j: int|
            0 <= j < prev.len() && #[trigger] prev[j] == (HealthChange {
                id: ids[t],
                before: first_with_id(s, ids[t]).health,
                after: capped_health(
                    first_with_id(s, ids[t]).health + delta,
                    first_with_id(s, ids[t]).max_health,
                ),
            });
        assert(cur[j] == prev[j]);
    } else {
        assert(ids.last() == ids[t]);
        assert(cur[prev.len() as int] == cur.last());
    }
}

/// Damage or healing reaches every target: after a health submission of
/// `amount`, each targeted creature whose capped health changes has a change
/// in the recorded edit, from its health to its health plus the signed
/// amount, capped at its maximum.
pub proof fn lemma_health_submit_changes_every_target(old: Encounter, new: Encounter, amount: i32, t: int, i: int)
    requires
        health_submitted(old, new),
        ids_unique(old.creatures@),
        old.mode matches AppMode::HealthInput(input) && spec_parse_positive_i32(field_text(input.textarea), "amount"@)
            == Ok::<i32, Seq<char>>(amount) && 0 <= t < input.target_ids@.len() && 0 <= i < old.creatures@.len()
            && old.creatures@[i].id == input.target_ids@[t] && capped_health(
            old.creatures@[i].health + signed_amount(input.operation, amount),
            old.creatures@[i].max_health,
        ) != old.creatures@[i].health,
    ensures
        old.mode matches AppMode::HealthInput(input) && history_entries(new.history).last() matches CreatureEdit::AdjustHealth {
            changes,
        } && exists|j: int|
            0 <= j < changes@.len() && #[trigger] changes@[j] == (HealthChange {
                id: input.target_ids@[t],
                before: old.creatures@[i].health,
                after: capped_health(
                    old.creatures@[i].health + signed_amount(input.operation, amount),
                    old.creatures@[i].max_health,
                ),
            }),
{
    if let AppMode::HealthInput(input) = old.mode {
        let s = old.creatures@;
        let delta = signed_amount(input.operation, amount);
        lemma_unique_is_first(s, i);
        assert(has_id(s, input.target_ids@[t]));
        lemma_health_changes_cover(s, input.target_ids@, delta, t);
    }
}

/// Every health change goes to the capped sum for the first creature with
/// its identifier.
proof fn lemma_health_changes_after(s: Seq<Creature>, ids: Seq<CreatureId>, delta: int)
    ensures
        forall|k: int|
            0 <= k < health_changes_for(s, ids, delta).len() ==> (#[trigger] health_changes_for(s, ids, delta)[k]).after
                == capped_health(
                first_with_id(s, health_changes_for(s, ids, delta)[k].id).health + delta,
                first_with_id(s, health_changes_for(s, ids, delta)[k].id).max_health,
            ),
    decreases ids.len(),
{
    if ids.len() > 0 {
        let prev = health_changes_for(s, ids.drop_last(), delta);
        let cur = health_changes_for(s, ids, delta);
        lemma_health_changes_after(s, ids.drop_last(), delta);
        if cur.len() > prev.len() {
            assert(cur =~= prev.push(cur.last()));
        } else {
            assert(cur =~= prev);
        }
        assert forall|k: int| 0 <= k < cur.len() implies (#[trigger] cur[k]).after == capped_health(
            first_with_id(s, cur[k].id).health + delta,
            first_with_id(s, cur[k].id).max_health,
        ) by {
            if k < prev.len() {
                assert(cur[k] == prev[k]);
            }
        }
    }
}

/// Applying changes that agree on the value for `c`'s identifier, at least
/// one of them naming it, gives `c` that health.
proof fn lemma_health_forward_agreeing(c: Creature, changes: Seq<HealthChange>, v: i32)
    requires
        exists|k: int| 0 <= k < changes.len() && (#[trigger] changes[k]).id == c.id,
        forall|k: int| 0 <= k < changes.len() && (#[trigger] changes[k]).id == c.id ==> changes[k].after == v,
    ensures
        health_after(c, changes, true) == (Creature { health: v, ..c }),
    decreases changes.len(),
{
    let prev = changes.drop_last();
    lemma_health_after_fields(c, prev, true);
    if changes.last().id != c.id {
        let k = choose|k: int| 0 <= k < changes.len() && (#[trigger] changes[k]).id == c.id;
        assert(prev[k] == changes[k]);
        assert forall|j: int| 0 <= j < prev.len() && (#[trigger] prev[j]).id == c.id implies prev[j].after == v by {
            assert(prev[j] == changes[j]);
        }
        lemma_health_forward_agreeing(c, prev, v);
    } else {
        assert(changes[changes.len() - 1].id == c.id);
    }
}

/// After a health submission of `amount`, each targeted creature whose
/// capped health changes is in the encounter with its health set to its old
/// health plus the signed amount, capped at its maximum, and nothing else of
/// it changed.
pub proof fn lemma_health_submit_sets_every_target(old: Encounter, new: Encounter, amount: i32, t: int, i: int)
    requires
        health_submitted(old, new),
        ids_unique(old.creatures@),
        old.mode matches AppMode::HealthInput(input) && spec_parse_positive_i32(field_text(input.textarea), "amount"@)
            == Ok::<i32, Seq<char>>(amount) && 0 <= t < input.target_ids@.len() && 0 <= i < old.creatures@.len()
            && old.creatures@[i].id == input.target_ids@[t] && capped_health(
            old.creatures@[i].health + signed_amount(input.operation, amount),
            old.creatures@[i].max_health,
        ) != old.creatures@[i].health,
    ensures
        old.mode matches AppMode::HealthInput(input) && exists|j: int|
            0 <= j < new.creatures@.len() && #[trigger] new.creatures@[j] == (Creature {
                health: capped_health(
                    old.creatures@[i].health + signed_amount(input.operation, amount),
                    old.creatures@[i].max_health,
                ),
                ..old.creatures@[i]
            }),
{
    if let AppMode::HealthInput(input) = old.mode {
        let s = old.creatures@;
        let delta = signed_amount(input.operation, amount);
        let c = s[i];
        let v = capped_health(c.health + delta, c.max_health);
        lemma_health_submit_changes_every_target(old, new, amount, t, i);
        let changes = health_changes_for(s, input.target_ids@, delta);
        let e = history_entries(new.history).last();
        lemma_unique_is_first(s, i);
        lemma_health_changes_after(s, input.target_ids@, delta);
        assert forall|k: int| 0 <= k < changes.len() && (#[trigger] changes[k]).id == c.id implies changes[k].after
            == v by {}
        lemma_health_changes_cover(s, input.target_ids@, delta, t);
        let w = choose|j: int|
            0 <= j < changes.len() && #[trigger] changes[j] == (HealthChange {
                id: input.target_ids@[t],
                before: first_with_id(s, input.target_ids@[t]).health,
                after: capped_health(
                    first_with_id(s, input.target_ids@[t]).health + delta,
                    first_with_id(s, input.target_ids@[t]).max_health,
                ),
            });
        assert(changes[w].id == c.id);
        lemma_health_forward_agreeing(c, changes, v);
        lemma_apply_health_pointwise(s, changes, true);
        let mapped = s.map_values(|x: Creature| health_after(x, changes, true));
        assert(mapped[i] == (Creature { health: v, ..c }));
        assert(mapped.contains(mapped[i]));
        assert(new.creatures@.to_multiset() == mapped.to_multiset());
        assert(mapped.to_multiset().count(mapped[i]) > 0) by {
            broadcast use vstd::seq_lib::group_to_multiset_ensures;
        }
        assert(new.creatures@.contains(mapped[i])) by {
            broadcast use vstd::seq_lib::group_to_multiset_ensures;
        }
    }
}

/// In normal mode exactly the plain keys `-` and `_` open the popup that
/// subtracts health, and exactly `+` and `=` the one that adds it (Ctrl
/// turns them into no health action); so no key opens both.
pub proof fn lemma_health_popup_keys(key: TextInput)
    ensures
        normal_key_action(key) == Some(Action::OpenSubtractHealth) <==> (key.key == TextKey::Char('-') || key.key
            == TextKey::Char('_')) && !key.ctrl,
        normal_key_action(key) == Some(Action::OpenAddHealth) <==> (key.key == TextKey::Char('+') || key.key
            == TextKey::Char('=')) && !key.ctrl,
{
}

/// A plain character typed into an empty field leaves exactly that
/// character as its text.
proof fn lemma_typed_into_empty(f: TextField, g: TextField, c: char)
    requires
        empty_field(f),
        char_typed(f, g, c),
    ensures
        field_text(g) == seq![c],
{
    assert(Seq::<char>::empty().insert(0, c) =~= seq![c]);
    assert(text_field_lines(g) =~= seq![seq![c]]);
}

/// A plain character (no Ctrl or Alt, not a line break) typed into an open
/// popup reaches its focused field as typed text: the health and initiative
/// fields and the form's number fields take digits and ignore other
/// characters, the rename field and the form's name field take any
/// character. Typed at a cursor on a line with nothing selected, the
/// character is inserted there; typed into an empty field, it is the
/// field's whole text. The creatures and the history stay as they were.
pub proof fn lemma_popup_fields_take_typed_keys(old: Encounter, new: Encounter, key: TextInput, c: char)
    requires
        key_routed(old, new, key),
        key.key == TextKey::Char(c),
        !key.ctrl,
        !key.alt,
        c != '\n',
        c != '\r',
    ensures
        new.creatures == old.creatures,
        new.history == old.history,
        old.mode matches AppMode::HealthInput(a) ==> if '0' <= c && c <= '9' {
            new.mode matches AppMode::HealthInput(b) && b.operation == a.operation && b.target_ids == a.target_ids
                && (plain_cursor(a.textarea) ==> char_typed(a.textarea, b.textarea, c)) && (empty_field(a.textarea)
                ==> field_text(b.textarea) == seq![c])
        } else {
            new == old
        },
        old.mode matches AppMode::InitiativeInput(a) ==> if '0' <= c && c <= '9' {
            new.mode matches AppMode::InitiativeInput(b) && b.target_ids == a.target_ids && (plain_cursor(a.textarea)
                ==> char_typed(a.textarea, b.textarea, c)) && (empty_field(a.textarea) ==> field_text(b.textarea)
                == seq![c])
        } else {
            new == old
        },
        old.mode matches AppMode::RenameInput(a) ==> new.mode matches AppMode::RenameInput(b) && b.target_id
            == a.target_id && (plain_cursor(a.textarea) ==> char_typed(a.textarea, b.textarea, c)) && (empty_field(
            a.textarea,
        ) ==> field_text(b.textarea) == seq![c]),
        old.mode matches AppMode::NewCreature(a) ==> if a.active_field == NewCreatureField::Name || ('0' <= c && c
            <= '9') {
            new.mode matches AppMode::NewCreature(b) && b.active_field == a.active_field && (plain_cursor(
                field_of(a.fields, a.active_field),
            ) ==> char_typed(field_of(a.fields, a.active_field), field_of(b.fields, a.active_field), c)) && (
            empty_field(field_of(a.fields, a.active_field)) ==> field_text(field_of(b.fields, a.active_field))
                == seq![c])
        } else {
            new == old
        },
{
    assert(types_char(key));
    match old.mode {
        AppMode::HealthInput(a) => {
            if '0' <= c && c <= '9' {
                if let AppMode::HealthInput(b) = new.mode {
                    if empty_field(a.textarea) {
                        lemma_typed_into_empty(a.textarea, b.textarea, c);
                    }
                }
            }
        },
        AppMode::InitiativeInput(a) => {
            if '0' <= c && c <= '9' {
                if let AppMode::InitiativeInput(b) = new.mode {
                    if empty_field(a.textarea) {
                        lemma_typed_into_empty(a.textarea, b.textarea, c);
                    }
                }
            }
        },
        AppMode::RenameInput(a) => {
            if let AppMode::RenameInput(b) = new.mode {
                if empty_field(a.textarea) {
                    lemma_typed_into_empty(a.textarea, b.textarea, c);
                }
            }
        },
        AppMode::NewCreature(a) => {
            if a.active_field == NewCreatureField::Name || ('0' <= c && c <= '9') {
                if let AppMode::NewCreature(b) = new.mode {
                    if empty_field(field_of(a.fields, a.active_field)) {
                        lemma_typed_into_empty(field_of(a.fields, a.active_field), field_of(b.fields, a.active_field), c);
                    }
                }
            }
        },
        _ => {},
    }
}

} // verus!
