//! The encounter tracker: navigation, selection, the input popups, and the
//! undoable edits they submit.

use vstd::prelude::*;

use crate::action::Action;
use crate::text::{decimal, push_char, trim, trim_chars, usize_to_string};

use crate::models::creature::{
    capped_health, first_index_of, first_with_id, has_id, ids_unique, is_display_sorted, listed,
    lemma_first_index_exists, lemma_first_index_unique, Creature, CreatureId, Creatures,
};
use crate::models::edit::{edit_applied, edit_reverted, ids_of, ids_of_creatures, CreatureEdit, HealthChange, InitiativeChange};
use crate::models::edit_laws::{edit_consistent, lemma_filter_count, lemma_filter_sorted};
use crate::models::edit_laws::lemma_ids_unique_permutation;
use crate::models::creature::{lemma_sorted_permutation_unique, precedes};
use crate::models::history::{
    history_edit, history_entries, history_head, history_new, history_redo, history_undo, pushed, record_limit,
    record_state,
};
use crate::models::input::{
    empty_field, field_of, field_text, is_ascii_digit, parse_i32, parse_positive_i32, spec_parse_i32,
    spec_parse_positive_i32, textarea_value, form_request, letter_suffix, letter_suffix_chars,
    key_typed, parsed_view, with_field, text_field_lines, text_field_cursor, text_field_selection, AppMode, NewCreatureField, TextInput, TextKey, HealthInput, HealthOperation, InitiativeInput,
    NewCreatureForm, RenameInput,
};

verus! {

broadcast use {vstd::seq_lib::group_to_multiset_ensures, vstd::multiset::group_multiset_axioms};

/// Encounter tracker component.
pub struct Encounter {
    pub creatures: Creatures,
    /// The display position of the hovered creature.
    pub hovered: Option<usize>,
    /// The first display position shown.
    pub scroll_offset: usize,
    /// The multi-selected creatures, by identifier in increasing order.
    pub selected: Vec<CreatureId>,
    pub mode: AppMode,
    /// The undo history of creature edits.
    pub history: undo::Record<CreatureEdit>,
}

/// The identifier of the hovered creature, if the hovered position holds one.
pub open spec fn hovered_id_of(e: Encounter) -> Option<CreatureId> {
    match e.hovered {
        Some(i) => if i < e.creatures@.len() {
            Some(e.creatures@[i as int].id)
        } else {
            None
        },
        None => None,
    }
}

/// The creatures an action applies to: the selection when there is one, else
/// the hovered creature.
pub open spec fn target_ids_of(e: Encounter) -> Seq<CreatureId> {
    if e.selected@.len() == 0 {
        match hovered_id_of(e) {
            Some(id) => seq![id],
            None => Seq::empty(),
        }
    } else {
        e.selected@
    }
}

/// Identifiers in strictly increasing order.
pub open spec fn strictly_increasing(ids: Seq<CreatureId>) -> bool {
    forall|i: int, j: int| 0 <= i < j < ids.len() ==> (#[trigger] ids[i]).0 < (#[trigger] ids[j]).0
}

/// The state every operation keeps: creatures in display order with unique
/// identifiers, a selection in increasing order, and a consistent history
/// that keeps at least one edit (`Record::new` keeps up to `usize::MAX`).
pub open spec fn encounter_wf(e: Encounter) -> bool {
    &&& is_display_sorted(e.creatures@)
    &&& ids_unique(e.creatures@)
    &&& strictly_increasing(e.selected@)
    &&& history_head(e.history) <= history_entries(e.history).len()
    &&& record_limit(e.history) > 0
}

/// The hovered position after the creatures change: kept but clamped to the
/// last creature, the first when nothing was hovered, nothing when empty.
pub open spec fn reconciled_hover(hovered: Option<usize>, len: nat) -> Option<usize> {
    if len == 0 {
        None
    } else {
        let h = if hovered is Some { hovered->0 } else { 0 };
        Some(if h < len - 1 { h } else { (len - 1) as usize })
    }
}

/// The scroll offset after the creatures change.
pub open spec fn reconciled_scroll(scroll: usize, len: nat) -> usize {
    if len == 0 {
        0
    } else if scroll < len - 1 {
        scroll
    } else {
        (len - 1) as usize
    }
}

/// `new` is `old` after dropping selected identifiers that no creature has
/// and clamping the hover and scroll positions.
pub open spec fn reconciled(old: Encounter, new: Encounter) -> bool {
    &&& new.selected@ == old.selected@.filter(|id: CreatureId| has_id(old.creatures@, id))
    &&& new.hovered == reconciled_hover(old.hovered, old.creatures@.len())
    &&& new.scroll_offset == reconciled_scroll(old.scroll_offset, old.creatures@.len())
    &&& new.creatures == old.creatures
    &&& new.mode == old.mode
    &&& new.history == old.history
}

fn creatures_contains(creatures: &Creatures, id: CreatureId) -> (found: bool)
    ensures
        found == has_id(creatures@, id),
{
    creatures.contains(id)
}

impl Encounter {
    /// Drops selected creatures that no longer exist and keeps the hover and
    /// scroll positions within the creatures.
    pub fn reconcile_selection_and_hover(&mut self)
        ensures
            reconciled(*old(self), *final(self)),
    {
        let ghost pred = |id: CreatureId| has_id(self.creatures@, id);
        let ghost sel = self.selected@;
        let mut kept: Vec<CreatureId> = Vec::new();
        let mut i: usize = 0;
        while i < self.selected.len()
            invariant
                i <= self.selected.len(),
                sel == self.selected@,
                pred == (|id: CreatureId| has_id(self.creatures@, id)),
                kept@ == sel.take(i as int).filter(pred),
            decreases self.selected.len() - i,
        {
            let id = self.selected[i];
            proof {
                assert(sel.take(i + 1) =~= sel.take(i as int).push(id));
                sel.take(i as int).lemma_filter_push(id, pred);
            }
            if creatures_contains(&self.creatures, id) {
                kept.push(id);
            }
            i = i + 1;
        }
        assert(sel.take(i as int) =~= sel);
        self.selected = kept;
        if self.creatures.is_empty() {
            self.hovered = None;
            self.scroll_offset = 0;
            return;
        }
        let last = self.creatures.len() - 1;
        let h = match self.hovered {
            Some(h) => h,
            None => 0,
        };
        self.hovered = Some(if h < last { h } else { last });
        self.scroll_offset = if self.scroll_offset < last { self.scroll_offset } else { last };
    }
}


impl Encounter {
    /// An encounter seeded with three creatures, the first one hovered.
    pub fn new() -> (e: Self)
        ensures
            encounter_wf(e),
            e.creatures@.len() == 3,
            e.creatures@[0].name@ == "horace"@ && e.creatures@[0].id == CreatureId(3)
                && e.creatures@[0].initiative == Some(3i32) && e.creatures@[0].ac == Some(15i32)
                && e.creatures@[0].health == 40 && e.creatures@[0].max_health == 40,
            e.creatures@[1].name@ == "john"@ && e.creatures@[1].id == CreatureId(1)
                && e.creatures@[1].initiative == Some(2i32) && e.creatures@[1].ac == Some(12i32)
                && e.creatures@[1].health == 35 && e.creatures@[1].max_health == 35,
            e.creatures@[2].name@ == "jane"@ && e.creatures@[2].id == CreatureId(2)
                && e.creatures@[2].initiative == Some(1i32) && e.creatures@[2].ac == Some(10i32)
                && e.creatures@[2].health == 25 && e.creatures@[2].max_health == 25,
            e.creatures.next_fresh() == 4,
            e.hovered == Some(0usize),
            e.scroll_offset == 0,
            e.selected@.len() == 0,
            e.mode is Normal,
            record_state(e.history) == (Seq::<CreatureEdit>::empty(), 0nat),
            record_limit(e.history) == usize::MAX,
    {
        let mut creatures = Creatures::default();
        let john = Creature::new("john", Some(2), Some(12), 35);
        let ghost j = Creature { id: CreatureId(1), ..john };
        creatures.add(john);
        let jane = Creature::new("jane", Some(1), Some(10), 25);
        let ghost ja = Creature { id: CreatureId(2), ..jane };
        creatures.add(jane);
        let horace = Creature::new("horace", Some(3), Some(15), 40);
        let ghost h = Creature { id: CreatureId(3), ..horace };
        creatures.add(horace);
        proof {
            let expected = seq![h, j, ja];
            let e0 = Seq::<Creature>::empty();
            assert(expected =~= e0.push(h).push(j).push(ja));
            assert(e0.to_multiset() =~= vstd::multiset::Multiset::empty());
            assert(creatures@.to_multiset() =~= expected.to_multiset());
            assert(is_display_sorted(expected)) by {
                assert forall|a: int, b: int| 0 <= a < b < expected.len() implies !precedes(
                    #[trigger] expected[b],
                    #[trigger] expected[a],
                ) by {}
            }
            assert(ids_unique(expected));
            lemma_sorted_permutation_unique(expected, creatures@);
        }
        let mut encounter = Encounter {
            creatures,
            hovered: Some(0),
            scroll_offset: 0,
            selected: Vec::new(),
            mode: AppMode::Normal,
            history: history_new(),
        };
        encounter.reconcile_selection_and_hover();
        proof {
            let ghost pred = |id: CreatureId| has_id(encounter.creatures@, id);
            reveal(Seq::filter);
            assert(encounter.selected@ =~= Seq::<CreatureId>::empty());
        }
        encounter
    }
}


impl Default for Encounter {
    fn default() -> (e: Self)
        ensures
            encounter_wf(e),
            e.creatures@.len() == 3,
            e.hovered == Some(0usize),
            e.selected@.len() == 0,
            e.mode is Normal,
            record_state(e.history) == (Seq::<CreatureEdit>::empty(), 0nat),
    {
        Self::new()
    }
}

/// The position after moving down one row, wrapping from the last row to the
/// first; the first row when nothing was hovered.
pub open spec fn next_position(hovered: Option<usize>, len: nat) -> Option<usize> {
    if len == 0 {
        None
    } else {
        match hovered {
            None => Some(0usize),
            Some(i) => if i + 1 >= len { Some(0usize) } else { Some((i + 1) as usize) },
        }
    }
}

/// The position after moving up one row, wrapping from the first row to the
/// last; the first row when nothing was hovered.
pub open spec fn previous_position(hovered: Option<usize>, len: nat) -> Option<usize> {
    if len == 0 {
        None
    } else {
        match hovered {
            None => Some(0usize),
            Some(i) => if i == 0 { Some((len - 1) as usize) } else { Some((i - 1) as usize) },
        }
    }
}

/// The selection with `id` added in order, or removed when present.
pub open spec fn toggled(selected: Seq<CreatureId>, id: CreatureId) -> Seq<CreatureId> {
    if selected.contains(id) {
        selected.filter(other_than(id))
    } else {
        let p = choose|p: int| is_insert_position(selected, id, p);
        selected.insert(p, id)
    }
}

/// Whether an identifier differs from `id`.
pub open spec fn other_than(id: CreatureId) -> spec_fn(CreatureId) -> bool {
    |x: CreatureId| x != id
}

/// `p` is the first position of `selected` holding an identifier above `id`,
/// or its length when there is none.
pub open spec fn is_insert_position(selected: Seq<CreatureId>, id: CreatureId, p: int) -> bool {
    &&& 0 <= p <= selected.len()
    &&& forall|j: int| 0 <= j < p ==> (#[trigger] selected[j]).0 <= id.0
    &&& p < selected.len() ==> selected[p].0 > id.0
}

/// The scroll offset that keeps the hovered row among `visible_rows` rows.
pub open spec fn scroll_for(hovered: Option<usize>, scroll: usize, visible_rows: usize) -> usize {
    let rows = if visible_rows > 1 { visible_rows as int } else { 1 };
    match hovered {
        None => 0,
        Some(h) => if h < scroll {
            h
        } else if h >= scroll + rows {
            (h + 1 - rows) as usize
        } else {
            scroll
        },
    }
}

/// Moving down one row.
pub open spec fn moved_next(old: Encounter, new: Encounter) -> bool {
    new == (Encounter { hovered: next_position(old.hovered, old.creatures@.len()), ..old })
}

/// Moving up one row.
pub open spec fn moved_previous(old: Encounter, new: Encounter) -> bool {
    new == (Encounter { hovered: previous_position(old.hovered, old.creatures@.len()), ..old })
}

/// Moving to the first row.
pub open spec fn moved_first(old: Encounter, new: Encounter) -> bool {
    new == (Encounter { hovered: if old.creatures@.len() > 0 { Some(0usize) } else { None }, ..old })
}

/// Moving to the last row.
pub open spec fn moved_last(old: Encounter, new: Encounter) -> bool {
    new == (Encounter {
        hovered: if old.creatures@.len() > 0 { Some((old.creatures@.len() - 1) as usize) } else { None },
        ..old
    })
}

/// The hovered creature's selection flipped, nothing else changed.
pub open spec fn selection_toggled(old: Encounter, new: Encounter) -> bool {
    match hovered_id_of(old) {
        Some(id) => new == (Encounter { selected: new.selected, ..old }) && new.selected@ == toggled(
            old.selected@,
            id,
        ),
        None => new == old,
    }
}

/// Nothing selected any more, nothing else changed.
pub open spec fn selection_cleared(old: Encounter, new: Encounter) -> bool {
    &&& new.selected@.len() == 0
    &&& new == (Encounter { selected: new.selected, ..old })
}

/// The popup closed.
pub open spec fn input_cancelled(old: Encounter, new: Encounter) -> bool {
    new == (Encounter { mode: AppMode::Normal, ..old })
}

/// An empty health popup opened for the targets, if there are any.
pub open spec fn health_opened(old: Encounter, new: Encounter, operation: HealthOperation) -> bool {
    if target_ids_of(old).len() == 0 {
        new == old
    } else {
        &&& new == (Encounter { mode: new.mode, ..old })
        &&& new.mode matches AppMode::HealthInput(input) && input.operation == operation
            && input.target_ids@ == target_ids_of(old) && empty_field(input.textarea) && input.error is None
    }
}

/// An empty initiative popup opened for the targets, if there are any.
pub open spec fn initiative_opened(old: Encounter, new: Encounter) -> bool {
    if target_ids_of(old).len() == 0 {
        new == old
    } else {
        &&& new == (Encounter { mode: new.mode, ..old })
        &&& new.mode matches AppMode::InitiativeInput(input) && input.target_ids@ == target_ids_of(old)
            && empty_field(input.textarea) && input.error is None
    }
}

/// The rename popup opened for the hovered creature, holding its name, unless
/// creatures are selected or nothing is hovered.
pub open spec fn rename_opened(old: Encounter, new: Encounter) -> bool {
    if old.selected@.len() > 0 || hovered_id_of(old) is None {
        new == old
    } else {
        &&& new == (Encounter { mode: new.mode, ..old })
        &&& new.mode matches AppMode::RenameInput(input) && {
            let name = old.creatures@[old.hovered->0 as int].name@;
            &&& input.target_id == hovered_id_of(old)->0
            &&& !name.contains('\n') && (name.len() == 0 || name.last() != '\r') ==> text_field_lines(
                input.textarea,
            ) == seq![name] && text_field_cursor(input.textarea) == (0usize, name.len() as usize)
                && text_field_selection(input.textarea) is None
            &&& input.error is None
        }
    }
}

/// An empty new-creature form opened on its name field.
pub open spec fn form_opened(old: Encounter, new: Encounter) -> bool {
    &&& new == (Encounter { mode: new.mode, ..old })
    &&& new.mode matches AppMode::NewCreature(form) && form.active_field == NewCreatureField::Name
        && form.error is None && empty_field(form.fields.name) && empty_field(form.fields.initiative)
        && empty_field(form.fields.ac) && empty_field(form.fields.health) && empty_field(form.fields.count)
}

/// The form's focus moved to the next field.
pub open spec fn focus_moved_next(old: Encounter, new: Encounter) -> bool {
    match old.mode {
        AppMode::NewCreature(form) => new == (Encounter {
            mode: AppMode::NewCreature(NewCreatureForm { active_field: form.active_field.spec_next(), ..form }),
            ..old
        }),
        _ => new == old,
    }
}

/// The form's focus moved to the previous field.
pub open spec fn focus_moved_previous(old: Encounter, new: Encounter) -> bool {
    match old.mode {
        AppMode::NewCreature(form) => new == (Encounter {
            mode: AppMode::NewCreature(NewCreatureForm { active_field: form.active_field.spec_previous(), ..form }),
            ..old
        }),
        _ => new == old,
    }
}

/// A key went to the popup's focused field; nothing else changed.
pub open spec fn key_routed(old: Encounter, new: Encounter, key: TextInput) -> bool {
    &&& new == (Encounter { mode: new.mode, ..old })
    &&& text_routed(old.mode, new.mode, key)
}

impl Encounter {
    pub fn move_next(&mut self)
        ensures
            moved_next(*old(self), *final(self)),
    {
        if self.creatures.is_empty() {
            self.hovered = None;
            return;
        }
        let last = self.creatures.len() - 1;
        self.hovered = Some(
            match self.hovered {
                None => 0,
                Some(index) => if index >= last {
                    0
                } else {
                    index + 1
                },
            },
        );
    }

    pub fn move_previous(&mut self)
        ensures
            moved_previous(*old(self), *final(self)),
    {
        if self.creatures.is_empty() {
            self.hovered = None;
            return;
        }
        let len = self.creatures.len();
        self.hovered = Some(
            match self.hovered {
                None => 0,
                Some(index) => if index == 0 {
                    len - 1
                } else {
                    index - 1
                },
            },
        );
    }

    pub fn move_first(&mut self)
        ensures
            moved_first(*old(self), *final(self)),
    {
        self.hovered = if !self.creatures.is_empty() { Some(0) } else { None };
    }

    pub fn move_last(&mut self)
        ensures
            moved_last(*old(self), *final(self)),
    {
        let len = self.creatures.len();
        self.hovered = if len > 0 { Some(len - 1) } else { None };
    }

    /// The identifier of the hovered creature.
    pub fn hovered_id(&self) -> (id: Option<CreatureId>)
        ensures
            id == hovered_id_of(*self),
    {
        match self.hovered {
            Some(index) => self.creatures.id_at(index),
            None => None,
        }
    }

    /// The creatures an action applies to: the selection when there is one,
    /// else the hovered creature.
    pub fn target_ids(&self) -> (ids: Vec<CreatureId>)
        ensures
            ids@ == target_ids_of(*self),
    {
        if self.selected.len() == 0 {
            let mut ids = Vec::new();
            match self.hovered_id() {
                Some(id) => ids.push(id),
                None => {},
            }
            proof {
                assert(ids@ =~= target_ids_of(*self));
            }
            ids
        } else {
            self.selected.clone()
        }
    }

    /// Selects the hovered creature, or deselects it when selected.
    pub fn toggle_hovered_selection(&mut self)
        ensures
            selection_toggled(*old(self), *final(self)),
    {
        let id = match self.hovered_id() {
            Some(id) => id,
            None => return,
        };
        let ghost sel = self.selected@;
        let ghost pred = other_than(id);
        let mut present = false;
        let mut kept: Vec<CreatureId> = Vec::new();
        let mut p: usize = 0;
        let mut i: usize = 0;
        while i < self.selected.len()
            invariant
                i <= self.selected.len(),
                sel == self.selected@,
                pred == other_than(id),
                kept@ == sel.take(i as int).filter(pred),
                present == sel.take(i as int).contains(id),
                p <= i,
                forall|j: int| 0 <= j < p ==> (#[trigger] sel[j]).0 <= id.0,
                p < i ==> sel[p as int].0 > id.0,
            decreases self.selected.len() - i,
        {
            let x = self.selected[i];
            proof {
                assert(sel.take(i + 1) =~= sel.take(i as int).push(x));
                sel.take(i as int).lemma_filter_push(x, pred);
                if x == id {
                    assert(sel.take(i + 1)[i as int] == id);
                } else if sel.take(i + 1).contains(id) {
                    let t = sel.take(i + 1);
                    let j = choose|j: int| 0 <= j < t.len() && #[trigger] t[j] == id;
                    assert(sel.take(i as int)[j] == id);
                }
            }
            if x == id {
                present = true;
            } else {
                kept.push(x);
            }
            if p == i && x.0 <= id.0 {
                p = i + 1;
            }
            i = i + 1;
        }
        assert(sel.take(i as int) =~= sel);
        if present {
            self.selected = kept;
        } else {
            proof {
                assert(is_insert_position(sel, id, p as int));
                let q = choose|q: int| is_insert_position(sel, id, q);
                if q < p {
                    assert(sel[q].0 <= id.0);
                } else if q > p {
                    assert(sel[p as int].0 <= id.0);
                }
            }
            self.selected.insert(p, id);
        }
    }

    /// Deselects everything.
    pub fn clear_selection(&mut self)
        ensures
            selection_cleared(*old(self), *final(self)),
    {
        self.selected.clear();
    }

    /// Scrolls just enough to show the hovered row among `visible_rows` rows.
    pub fn ensure_hover_visible(&mut self, visible_rows: usize)
        ensures
            *final(self) == (Encounter {
                scroll_offset: scroll_for(old(self).hovered, old(self).scroll_offset, visible_rows),
                ..*old(self)
            }),
    {
        let hovered = match self.hovered {
            Some(h) => h,
            None => {
                self.scroll_offset = 0;
                return;
            },
        };
        let visible_rows = if visible_rows > 1 { visible_rows } else { 1 };
        if hovered < self.scroll_offset {
            self.scroll_offset = hovered;
        } else if hovered - self.scroll_offset >= visible_rows {
            self.scroll_offset = hovered - visible_rows + 1;
        }
    }

    /// Closes any popup.
    pub fn cancel_input(&mut self)
        ensures
            input_cancelled(*old(self), *final(self)),
    {
        self.mode = AppMode::Normal;
    }

    /// Opens the health popup for the current targets; nothing happens when
    /// there are none.
    pub fn open_health_input(&mut self, operation: HealthOperation)
        ensures
            health_opened(*old(self), *final(self), operation),
    {
        let target_ids = self.target_ids();
        if target_ids.len() == 0 {
            return;
        }
        self.mode = AppMode::HealthInput(HealthInput::new(operation, target_ids));
    }

    /// Opens the initiative popup for the current targets; nothing happens
    /// when there are none.
    pub fn open_initiative_input(&mut self)
        ensures
            initiative_opened(*old(self), *final(self)),
    {
        let target_ids = self.target_ids();
        if target_ids.len() == 0 {
            return;
        }
        self.mode = AppMode::InitiativeInput(InitiativeInput::new(target_ids));
    }

    /// Opens the rename popup for the hovered creature, holding its name;
    /// nothing happens while creatures are selected or nothing is hovered.
    pub fn open_rename_input(&mut self)
        ensures
            rename_opened(*old(self), *final(self)),
    {
        if self.selected.len() > 0 {
            return;
        }
        let target_id = match self.hovered_id() {
            Some(id) => id,
            None => return,
        };
        let index = match self.hovered {
            Some(i) => i,
            None => return,
        };
        let name = match self.creatures.by_display_index(index) {
            Some(creature) => creature.name.clone(),
            None => return,
        };
        self.mode = AppMode::RenameInput(RenameInput::new(target_id, name.as_str()));
    }

    /// Opens an empty new-creature form.
    pub fn open_new_creature_form(&mut self)
        ensures
            form_opened(*old(self), *final(self)),
    {
        self.mode = AppMode::NewCreature(NewCreatureForm::default());
    }

    /// Focuses the next field of the new-creature form.
    pub fn focus_next_new_creature_field(&mut self)
        ensures
            focus_moved_next(*old(self), *final(self)),
    {
        if let AppMode::NewCreature(form) = &mut self.mode {
            form.active_field = form.active_field.next();
        }
    }

    /// Focuses the previous field of the new-creature form.
    pub fn focus_previous_new_creature_field(&mut self)
        ensures
            focus_moved_previous(*old(self), *final(self)),
    {
        if let AppMode::NewCreature(form) = &mut self.mode {
            form.active_field = form.active_field.previous();
        }
    }
}


/// Whether a key may reach a numeric field: digits without Ctrl or Alt, and
/// every key that is not a character.
pub open spec fn numeric_key_allowed(key: TextInput) -> bool {
    match key.key {
        TextKey::Char(c) => is_ascii_digit(c) && !key.ctrl && !key.alt,
        _ => true,
    }
}

/// Whether a key may reach a numeric field.
pub fn numeric_textarea_key_allowed(key: TextInput) -> (allowed: bool)
    ensures
        allowed == numeric_key_allowed(key),
{
    match key.key {
        TextKey::Char(c) => '0' <= c && c <= '9' && !key.ctrl && !key.alt,
        _ => true,
    }
}

/// `new` is `old` after a key reached the field it belongs to, if any: only
/// that field's text may differ.
pub open spec fn text_routed(old: AppMode, new: AppMode, key: TextInput) -> bool {
    match old {
        AppMode::HealthInput(a) => match new {
            AppMode::HealthInput(b) => if numeric_key_allowed(key) {
                b == HealthInput { textarea: b.textarea, ..a } && key_typed(a.textarea, b.textarea, key)
            } else {
                b == a
            },
            _ => false,
        },
        AppMode::InitiativeInput(a) => match new {
            AppMode::InitiativeInput(b) => if numeric_key_allowed(key) {
                b == InitiativeInput { textarea: b.textarea, ..a } && key_typed(a.textarea, b.textarea, key)
            } else {
                b == a
            },
            _ => false,
        },
        AppMode::RenameInput(a) => match new {
            AppMode::RenameInput(b) => b == RenameInput { textarea: b.textarea, ..a } && key_typed(
                a.textarea,
                b.textarea,
                key,
            ),
            _ => false,
        },
        AppMode::NewCreature(a) => match new {
            AppMode::NewCreature(b) => if a.active_field != NewCreatureField::Name && !numeric_key_allowed(key) {
                b == a
            } else {
                &&& b == NewCreatureForm {
                    fields: with_field(a.fields, a.active_field, field_of(b.fields, a.active_field)),
                    ..a
                }
                &&& key_typed(field_of(a.fields, a.active_field), field_of(b.fields, a.active_field), key)
            },
            _ => false,
        },
        AppMode::Normal => new is Normal,
    }
}

impl Encounter {
    /// Hands a key to the open popup's focused field; numeric fields only
    /// take digits (and keys that are not characters).
    pub fn route_textarea_key(&mut self, key: TextInput)
        ensures
            key_routed(*old(self), *final(self), key),
    {
        let allowed = numeric_textarea_key_allowed(key);
        match &mut self.mode {
            AppMode::HealthInput(input) => {
                if allowed {
                    input.textarea.input(key);
                }
            },
            AppMode::InitiativeInput(input) => {
                if allowed {
                    input.textarea.input(key);
                }
            },
            AppMode::RenameInput(input) => {
                input.textarea.input(key);
            },
            AppMode::NewCreature(form) => {
                if form.active_field != NewCreatureField::Name && !allowed {
                    return;
                }
                form.active_textarea_mut().input(key);
            },
            AppMode::Normal => {},
        }
    }
}


/// The record's head is within its edits.
pub open spec fn history_wf(e: Encounter) -> bool {
    history_head(e.history) <= history_entries(e.history).len()
}

/// The health changes for `delta` applied to the targets, in target order:
/// one per target that exists and whose capped health actually changes.
pub open spec fn health_changes_for(s: Seq<Creature>, ids: Seq<CreatureId>, delta: int) -> Seq<HealthChange>
    decreases ids.len(),
{
    if ids.len() == 0 {
        Seq::empty()
    } else {
        let prev = health_changes_for(s, ids.drop_last(), delta);
        let id = ids.last();
        if has_id(s, id) {
            let c = first_with_id(s, id);
            let after = capped_health(c.health + delta, c.max_health);
            if c.health != after {
                prev.push(HealthChange { id, before: c.health, after })
            } else {
                prev
            }
        } else {
            prev
        }
    }
}

/// Adding `delta` to the health of each existing target stays within `i32`.
pub open spec fn health_delta_fits(s: Seq<Creature>, ids: Seq<CreatureId>, delta: int) -> bool {
    forall|k: int|
        0 <= k < ids.len() && has_id(s, #[trigger] ids[k]) ==> i32::MIN <= first_with_id(s, ids[k]).health + delta
            <= i32::MAX
}

/// The signed health change the popup asks for.
pub open spec fn signed_amount(operation: HealthOperation, amount: i32) -> int {
    match operation {
        HealthOperation::Add => amount as int,
        HealthOperation::Subtract => -amount,
    }
}

/// Submitting the health popup cannot overflow a creature's health.
pub open spec fn health_submit_fits(e: Encounter) -> bool {
    match e.mode {
        AppMode::HealthInput(input) => match spec_parse_positive_i32(field_text(input.textarea), "amount"@) {
            Ok(amount) => health_delta_fits(e.creatures@, input.target_ids@, signed_amount(input.operation, amount)),
            Err(_) => true,
        },
        _ => true,
    }
}

/// `new` is `old` after the edit `e` was applied to the creatures and pushed
/// on the history, the selection and hover were reconciled, and the popup
/// closed.
pub open spec fn edit_submitted(old: Encounter, new: Encounter, e: CreatureEdit, hover: Option<usize>) -> bool {
    &&& edit_applied(old.creatures, new.creatures, e)
    &&& record_state(new.history) == pushed(
        history_entries(old.history),
        history_head(old.history),
        record_limit(old.history),
        e,
    )
    &&& record_limit(new.history) == record_limit(old.history)
    &&& new.selected@ == old.selected@.filter(|id: CreatureId| has_id(new.creatures@, id))
    &&& new.hovered == reconciled_hover(hover, new.creatures@.len())
    &&& new.scroll_offset == reconciled_scroll(old.scroll_offset, new.creatures@.len())
    &&& new.mode is Normal
}

/// The error is the message `msg`.
pub open spec fn error_is(error: Option<String>, msg: Seq<char>) -> bool {
    error matches Some(m) && m@ == msg
}

/// `new` is `old` with the popup showing the error message `msg`.
pub open spec fn error_shown(old: Encounter, new: Encounter, msg: Seq<char>) -> bool {
    &&& new == Encounter { mode: new.mode, ..old }
    &&& match (old.mode, new.mode) {
        (AppMode::HealthInput(a), AppMode::HealthInput(b)) => b == HealthInput { error: b.error, ..a } && error_is(b.error, msg),
        (AppMode::InitiativeInput(a), AppMode::InitiativeInput(b)) => b == InitiativeInput { error: b.error, ..a } && error_is(b.error, msg),
        (AppMode::RenameInput(a), AppMode::RenameInput(b)) => b == RenameInput { error: b.error, ..a } && error_is(b.error, msg),
        (AppMode::NewCreature(a), AppMode::NewCreature(b)) => b == NewCreatureForm { error: b.error, ..a } && error_is(b.error, msg),
        _ => false,
    }
}

/// What submitting the health popup does: on a bad amount the popup shows the
/// error; otherwise the changes for the targets are applied as one undoable
/// edit (none when nothing changes) and the popup closes.
pub open spec fn health_submitted(old: Encounter, new: Encounter) -> bool {
    match old.mode {
        AppMode::HealthInput(input) => match spec_parse_positive_i32(field_text(input.textarea), "amount"@) {
            Err(msg) => error_shown(old, new, msg),
            Ok(amount) => {
                let changes = health_changes_for(
                    old.creatures@,
                    input.target_ids@,
                    signed_amount(input.operation, amount),
                );
                if changes.len() == 0 {
                    new == Encounter { mode: AppMode::Normal, ..old }
                } else {
                    let e = history_entries(new.history).last();
                    &&& e matches CreatureEdit::AdjustHealth { changes: v } && v@ == changes
                    &&& edit_submitted(old, new, e, old.hovered)
                }
            },
        },
        _ => new == old,
    }
}

impl Encounter {
    fn set_error(&mut self, error: String)
        ensures
            !(old(self).mode is Normal) ==> error_shown(*old(self), *final(self), error@),
            old(self).mode is Normal ==> *final(self) == *old(self),
    {
        match &mut self.mode {
            AppMode::HealthInput(input) => input.error = Some(error),
            AppMode::InitiativeInput(input) => input.error = Some(error),
            AppMode::RenameInput(input) => input.error = Some(error),
            AppMode::NewCreature(form) => form.error = Some(error),
            AppMode::Normal => {},
        }
    }

    fn health_changes(&self, target_ids: &Vec<CreatureId>, delta: i32) -> (changes: Vec<HealthChange>)
        requires
            health_delta_fits(self.creatures@, target_ids@, delta as int),
        ensures
            changes@ == health_changes_for(self.creatures@, target_ids@, delta as int),
    {
        let mut changes: Vec<HealthChange> = Vec::new();
        let mut k: usize = 0;
        while k < target_ids.len()
            invariant
                k <= target_ids.len(),
                health_delta_fits(self.creatures@, target_ids@, delta as int),
                changes@ == health_changes_for(self.creatures@, target_ids@.take(k as int), delta as int),
            decreases target_ids.len() - k,
        {
            let id = target_ids[k];
            assert(target_ids@.take(k + 1).drop_last() =~= target_ids@.take(k as int));
            assert(target_ids@.take(k + 1).last() == id);
            match self.creatures.get(id) {
                Some(creature) => {
                    proof {
                        let i = choose|i: int| first_index_of(self.creatures@, id, i) && *creature == self.creatures@[i];
                        assert(has_id(self.creatures@, id));
                        lemma_first_index_exists(self.creatures@, id);
                        let j = choose|j: int| first_index_of(self.creatures@, id, j);
                        lemma_first_index_unique(self.creatures@, id, i, j);
                        assert(has_id(self.creatures@, target_ids@[k as int]));
                    }
                    let mut copy = creature.clone();
                    let before = copy.get_health();
                    let after = copy.modify_health(delta);
                    if before != after {
                        changes.push(HealthChange::new(id, before, after));
                    }
                },
                None => {},
            }
            k = k + 1;
        }
        assert(target_ids@.take(k as int) =~= target_ids@);
        changes
    }

    /// Applies the health popup: adds or takes the amount from each target,
    /// capped at maximum health, as one undoable edit.
    pub fn submit_health_input(&mut self)
        requires
            history_wf(*old(self)),
            health_submit_fits(*old(self)),
        ensures
            health_submitted(*old(self), *final(self)),
    {
        let parsed = match &self.mode {
            AppMode::HealthInput(input) => {
                match parse_positive_i32(textarea_value(&input.textarea), "amount") {
                    Ok(amount) => Ok((input.operation, amount, input.target_ids.clone())),
                    Err(error) => Err(error),
                }
            },
            _ => return,
        };
        let (operation, amount, target_ids) = match parsed {
            Ok(p) => p,
            Err(error) => {
                self.set_error(error);
                return;
            },
        };
        let delta: i32 = match operation {
            HealthOperation::Add => amount,
            HealthOperation::Subtract => -amount,
        };
        let changes = self.health_changes(&target_ids, delta);
        if changes.len() > 0 {
            let ghost mid_creatures = self.creatures;
            history_edit(&mut self.history, &mut self.creatures, CreatureEdit::AdjustHealth { changes });
            self.reconcile_selection_and_hover();
        }
        self.mode = AppMode::Normal;
    }
}


/// The display position of the first creature with identifier `id`.
pub open spec fn position_of(s: Seq<Creature>, id: CreatureId) -> Option<usize> {
    if has_id(s, id) {
        Some((choose|i: int| first_index_of(s, id, i)) as usize)
    } else {
        None
    }
}

/// The initiative changes setting `value` on the targets, in target order:
/// one per target that exists and whose initiative differs.
pub open spec fn initiative_changes_for(s: Seq<Creature>, ids: Seq<CreatureId>, value: i32) -> Seq<InitiativeChange>
    decreases ids.len(),
{
    if ids.len() == 0 {
        Seq::empty()
    } else {
        let prev = initiative_changes_for(s, ids.drop_last(), value);
        let id = ids.last();
        if has_id(s, id) && first_with_id(s, id).initiative != Some(value) {
            prev.push(InitiativeChange { id, before: first_with_id(s, id).initiative, after: Some(value) })
        } else {
            prev
        }
    }
}

/// What submitting the initiative popup does: on a bad number the popup
/// shows the error; otherwise the targets get the initiative as one undoable
/// edit (none when nothing changes), the first target stays hovered after the
/// creatures are re-sorted, and the popup closes.
pub open spec fn initiative_submitted(old: Encounter, new: Encounter) -> bool {
    match old.mode {
        AppMode::InitiativeInput(input) => match spec_parse_i32(field_text(input.textarea), "initiative"@) {
            Err(msg) => error_shown(old, new, msg),
            Ok(value) => {
                let changes = initiative_changes_for(old.creatures@, input.target_ids@, value);
                if changes.len() == 0 {
                    new == Encounter { mode: AppMode::Normal, ..old }
                } else {
                    let e = history_entries(new.history).last();
                    let hover = if input.target_ids@.len() > 0 {
                        position_of(new.creatures@, input.target_ids@[0])
                    } else {
                        old.hovered
                    };
                    &&& e matches CreatureEdit::SetInitiative { changes: v } && v@ == changes
                    &&& edit_submitted(old, new, e, hover)
                }
            },
        },
        _ => new == old,
    }
}

/// What submitting the rename popup does: a blank name shows an error; a
/// missing creature just closes the popup; a different name is applied as an
/// undoable edit and the renamed creature stays hovered after re-sorting.
pub open spec fn rename_submitted(old: Encounter, new: Encounter) -> bool {
    match old.mode {
        AppMode::RenameInput(input) => {
            let after = trim_chars(field_text(input.textarea));
            if after.len() == 0 {
                error_shown(old, new, "name is required"@)
            } else if !has_id(old.creatures@, input.target_id) {
                reconciled(Encounter { mode: AppMode::Normal, ..old }, new)
            } else if first_with_id(old.creatures@, input.target_id).name@ == after {
                new == Encounter { mode: AppMode::Normal, ..old }
            } else {
                let e = history_entries(new.history).last();
                &&& e matches CreatureEdit::RenameCreature { id, before, after: a } && id == input.target_id
                    && before == first_with_id(old.creatures@, input.target_id).name && a@ == after
                &&& edit_submitted(old, new, e, position_of(new.creatures@, input.target_id))
            }
        },
        _ => new == old,
    }
}

proof fn lemma_get_is_first(s: Seq<Creature>, id: CreatureId, c: Creature)
    requires
        exists|i: int| first_index_of(s, id, i) && c == s[i],
    ensures
        has_id(s, id),
        c == first_with_id(s, id),
        position_of(s, id) == Some((choose|i: int| first_index_of(s, id, i)) as usize),
{
    let i = choose|i: int| first_index_of(s, id, i) && c == s[i];
    assert(has_id(s, id));
    lemma_first_index_exists(s, id);
    let j = choose|j: int| first_index_of(s, id, j);
    lemma_first_index_unique(s, id, i, j);
}

proof fn lemma_index_is_position(s: Seq<Creature>, id: CreatureId, r: Option<usize>)
    requires
        match r {
            Some(i) => first_index_of(s, id, i as int),
            None => !has_id(s, id),
        },
    ensures
        r == position_of(s, id),
{
    if let Some(i) = r {
        assert(has_id(s, id));
        lemma_first_index_exists(s, id);
        let j = choose|j: int| first_index_of(s, id, j);
        lemma_first_index_unique(s, id, i as int, j);
    }
}

impl Encounter {
    fn initiative_changes(&self, target_ids: &Vec<CreatureId>, value: i32) -> (changes: Vec<InitiativeChange>)
        ensures
            changes@ == initiative_changes_for(self.creatures@, target_ids@, value),
    {
        let mut changes: Vec<InitiativeChange> = Vec::new();
        let mut k: usize = 0;
        while k < target_ids.len()
            invariant
                k <= target_ids.len(),
                changes@ == initiative_changes_for(self.creatures@, target_ids@.take(k as int), value),
            decreases target_ids.len() - k,
        {
            let id = target_ids[k];
            assert(target_ids@.take(k + 1).drop_last() =~= target_ids@.take(k as int));
            assert(target_ids@.take(k + 1).last() == id);
            match self.creatures.get(id) {
                Some(creature) => {
                    proof {
                        lemma_get_is_first(self.creatures@, id, *creature);
                    }
                    let before = creature.initiative;
                    let same = match before {
                        Some(v) => v == value,
                        None => false,
                    };
                    if !same {
                        changes.push(InitiativeChange::new(id, before, Some(value)));
                    }
                },
                None => {},
            }
            k = k + 1;
        }
        assert(target_ids@.take(k as int) =~= target_ids@);
        changes
    }

    /// Applies the initiative popup to the targets as one undoable edit and
    /// keeps the first target hovered.
    pub fn submit_initiative_input(&mut self)
        requires
            history_wf(*old(self)),
        ensures
            initiative_submitted(*old(self), *final(self)),
    {
        let parsed = match &self.mode {
            AppMode::InitiativeInput(input) => {
                match parse_i32(textarea_value(&input.textarea), "initiative") {
                    Ok(value) => Ok((value, input.target_ids.clone())),
                    Err(error) => Err(error),
                }
            },
            _ => return,
        };
        let (value, target_ids) = match parsed {
            Ok(p) => p,
            Err(error) => {
                self.set_error(error);
                return;
            },
        };
        let changes = self.initiative_changes(&target_ids, value);
        if changes.len() > 0 {
            history_edit(&mut self.history, &mut self.creatures, CreatureEdit::SetInitiative { changes });
            if target_ids.len() > 0 {
                let first = target_ids[0];
                let index = self.creatures.index_of(first);
                proof {
                    lemma_index_is_position(self.creatures@, first, index);
                }
                self.hovered = index;
            }
            self.reconcile_selection_and_hover();
        }
        self.mode = AppMode::Normal;
    }

    /// Applies the rename popup as an undoable edit and keeps the renamed
    /// creature hovered.
    pub fn submit_rename_input(&mut self)
        requires
            history_wf(*old(self)),
        ensures
            rename_submitted(*old(self), *final(self)),
    {
        let (after, target_id) = match &self.mode {
            AppMode::RenameInput(input) => (trim(textarea_value(&input.textarea).as_str()), input.target_id),
            _ => return,
        };
        if after.as_str().is_empty() {
            proof {
                reveal_strlit("name is required");
            }
            self.set_error(String::from_str("name is required"));
            return;
        }
        let before = match self.creatures.get(target_id) {
            Some(creature) => {
                proof {
                    lemma_get_is_first(self.creatures@, target_id, *creature);
                }
                creature.name.clone()
            },
            None => {
                self.mode = AppMode::Normal;
                self.reconcile_selection_and_hover();
                return;
            },
        };
        if !(before == after) {
            history_edit(
                &mut self.history,
                &mut self.creatures,
                CreatureEdit::RenameCreature { id: target_id, before, after },
            );
            let index = self.creatures.index_of(target_id);
            proof {
                lemma_index_is_position(self.creatures@, target_id, index);
            }
            self.hovered = index;
            self.reconcile_selection_and_hover();
        }
        self.mode = AppMode::Normal;
    }
}


/// The name of creature `index` in a batch of `count`: the name itself for a
/// single creature, else the name, a space and the letter suffix.
pub open spec fn batch_name(name: Seq<char>, count: usize, index: int) -> Seq<char> {
    if count == 1 {
        name
    } else {
        name + seq![' '] + letter_suffix_chars(index as nat)
    }
}

/// `v` is the batch the form asked for, numbered from `start`.
pub open spec fn is_batch(v: Seq<Creature>, req: (Seq<char>, Option<i32>, Option<i32>, i32, usize), start: u64) -> bool {
    &&& v.len() == req.4
    &&& forall|i: int|
        0 <= i < v.len() ==> {
            &&& (#[trigger] v[i]).id.0 == start + i
            &&& v[i].name@ == batch_name(req.0, req.4, i)
            &&& v[i].initiative == req.1
            &&& v[i].ac == req.2
            &&& v[i].health == req.3
            &&& v[i].max_health == req.3
            &&& v[i].description@ == Seq::<char>::empty()
        }
}

/// The creatures are in display order with unique identifiers, all of them
/// assigned and below the fresh-identifier counter, which can count `room`
/// further identifiers without wrapping.
pub open spec fn fresh_ids_ok(c: Creatures, room: int) -> bool {
    &&& is_display_sorted(c@)
    &&& ids_unique(c@)
    &&& forall|i: int| 0 <= i < c@.len() ==> 0 < (#[trigger] c@[i]).id.0 < c.next_fresh()
    &&& c.next_fresh() >= 1
    &&& c.next_fresh() + room < u64::MAX
}

/// What submitting the new-creature form does: a bad form shows the error;
/// otherwise the batch is added as one undoable edit with fresh identifiers,
/// the selection is cleared, the first new creature is hovered, and the form
/// closes.
pub open spec fn creatures_submitted(old: Encounter, new: Encounter) -> bool {
    match old.mode {
        AppMode::NewCreature(form) => match form_request(form.fields) {
            Err(msg) => error_shown(old, new, msg),
            Ok(req) => {
                &&& new.mode is Normal
                &&& fresh_ids_ok(old.creatures, req.4 as int) ==> {
                    let e = history_entries(new.history).last();
                    &&& e matches CreatureEdit::AddCreatures { creatures: v } && is_batch(
                        v@,
                        req,
                        old.creatures.next_fresh(),
                    ) && new.hovered == reconciled_hover(
                        position_of(new.creatures@, v@[0].id),
                        new.creatures@.len(),
                    )
                    &&& edit_consistent(old.creatures@, e)
                    &&& exists|mid: Creatures| mid@ == old.creatures@ && #[trigger] edit_applied(mid, new.creatures, e)
                    &&& record_state(new.history) == pushed(
                        history_entries(old.history),
                        history_head(old.history),
                        record_limit(old.history),
                        e,
                    )
                    &&& record_limit(new.history) == record_limit(old.history)
                    &&& new.selected@.len() == 0
                    &&& new.scroll_offset == reconciled_scroll(old.scroll_offset, new.creatures@.len())
                }
            },
        },
        _ => new == old,
    }
}

/// In a sequence holding the creatures of `t` plus `x`, where no creature of
/// `t` shares `x`'s identifier, the only creature with that identifier is `x`.
proof fn lemma_only_with_id(s: Seq<Creature>, t: Seq<Creature>, x: Creature, c: Creature)
    requires
        s.to_multiset() == t.push(x).to_multiset(),
        forall|k: int| 0 <= k < t.len() ==> (#[trigger] t[k]).id != x.id,
        s.contains(c),
        c.id == x.id,
    ensures
        c == x,
{
    assert(s.to_multiset().count(c) > 0);
    assert(t.push(x).contains(c));
    let k = choose|k: int| 0 <= k < t.push(x).len() && t.push(x)[k] == c;
    if k < t.len() {
        assert(t[k] == c);
    }
}

proof fn lemma_batch_removed(
    old: Seq<Creature>,
    created: Seq<Creature>,
    after: Seq<Creature>,
    mid: Seq<Creature>,
    start: u64,
)
    requires
        is_display_sorted(old),
        ids_unique(old),
        forall|i: int| 0 <= i < old.len() ==> (#[trigger] old[i]).id.0 < start,
        forall|k: int| 0 <= k < created.len() ==> (#[trigger] created[k]).id.0 == start + k,
        is_display_sorted(after),
        after.to_multiset() == (old + created).to_multiset(),
        mid == after.filter(|c: Creature| !listed(ids_of(created), c.id)),
    ensures
        mid == old,
{
    let q = |c: Creature| !listed(ids_of(created), c.id);
    lemma_filter_sorted(after, q);
    vstd::seq_lib::lemma_multiset_commutative(old, created);
    assert(mid.to_multiset() =~= old.to_multiset()) by {
        assert forall|y: Creature| #[trigger] mid.to_multiset().count(y) == old.to_multiset().count(y) by {
            lemma_filter_count(after, q, y);
            if q(y) {
                if created.to_multiset().count(y) > 0 {
                    assert(created.contains(y));
                    let k = choose|k: int| 0 <= k < created.len() && created[k] == y;
                    assert(ids_of(created)[k] == y.id);
                }
            } else {
                if old.to_multiset().count(y) > 0 {
                    assert(old.contains(y));
                    let i = choose|i: int| 0 <= i < old.len() && old[i] == y;
                    let k = choose|k: int| 0 <= k < ids_of(created).len() && ids_of(created)[k] == y.id;
                    assert(created[k].id == y.id);
                }
            }
        }
    }
    crate::models::creature::lemma_sorted_permutation_unique(old, mid);
}

impl Encounter {
    fn batch_member_name(name: &String, count: usize, index: usize) -> (member: String)
        ensures
            member@ == batch_name(name@, count, index as int),
    {
        if count == 1 {
            name.clone()
        } else {
            let mut member = name.clone();
            push_char(&mut member, ' ');
            member.append(letter_suffix(index).as_str());
            member
        }
    }

    /// Adds the creatures the new-creature form asks for as one undoable
    /// edit, hovering the first of them.
    pub fn submit_new_creature_form(&mut self)
        requires
            history_wf(*old(self)),
        ensures
            creatures_submitted(*old(self), *final(self)),
    {
        let parsed = match &self.mode {
            AppMode::NewCreature(form) => form.parse(),
            _ => return,
        };
        let parsed = match parsed {
            Ok(p) => p,
            Err(error) => {
                self.set_error(error);
                return;
            },
        };
        let ghost req = parsed_view(parsed);
        let ghost old_creatures = self.creatures;
        let ghost ok = fresh_ids_ok(old_creatures, parsed.count as int);
        let ghost start = old_creatures.next_fresh();
        let mut created: Vec<Creature> = Vec::new();
        let mut index: usize = 0;
        while index < parsed.count
            invariant
                index <= parsed.count,
                req == parsed_view(parsed),
                ok == fresh_ids_ok(old_creatures, parsed.count as int),
                start == old_creatures.next_fresh(),
                history_wf(*old(self)),
                self.history == old(self).history,
                self.mode == old(self).mode,
                self.selected == old(self).selected,
                self.hovered == old(self).hovered,
                self.scroll_offset == old(self).scroll_offset,
                old_creatures == old(self).creatures,
                ok ==> {
                    &&& is_display_sorted(self.creatures@)
                    &&& self.creatures@.to_multiset() == (old_creatures@ + created@).to_multiset()
                    &&& self.creatures.next_fresh() == start + index
                    &&& created@.len() == index
                    &&& forall|i: int|
                        0 <= i < created@.len() ==> {
                            &&& (#[trigger] created@[i]).id.0 == start + i
                            &&& created@[i].name@ == batch_name(req.0, req.4, i)
                            &&& created@[i].initiative == req.1
                            &&& created@[i].ac == req.2
                            &&& created@[i].health == req.3
                            &&& created@[i].max_health == req.3
                            &&& created@[i].description@ == Seq::<char>::empty()
                        }
                },
            decreases parsed.count - index,
        {
            let name = Self::batch_member_name(&parsed.name, parsed.count, index);
            let ghost before = self.creatures@;
            let fresh = Creature::new(name.as_str(), parsed.initiative, parsed.ac, parsed.health);
            let ghost fresh_view = fresh;
            let id = self.creatures.add(fresh);
            let ghost x = Creature { id, ..fresh_view };
            proof {
                if ok {
                    let t = old_creatures@ + created@;
                    assert((old_creatures@ + created@.push(x)) =~= t.push(x));
                    assert(self.creatures@.to_multiset().count(x) > 0);
                    assert(self.creatures@.contains(x));
                    let k = choose|k: int| 0 <= k < self.creatures@.len() && self.creatures@[k] == x;
                    assert(has_id(self.creatures@, id));
                    assert forall|k: int| 0 <= k < t.len() implies (#[trigger] t[k]).id != x.id by {
                        if k < old_creatures@.len() {
                            assert(t[k] == old_creatures@[k]);
                        } else {
                            assert(t[k] == created@[k - old_creatures@.len()]);
                        }
                    }
                }
            }
            match self.creatures.get(id) {
                Some(creature) => {
                    let copy = creature.clone();
                    proof {
                        if ok {
                            let t = old_creatures@ + created@;
                            let i = choose|i: int| first_index_of(self.creatures@, id, i) && *creature == self.creatures@[i];
                            assert(self.creatures@.contains(copy));
                            lemma_only_with_id(self.creatures@, t, x, copy);
                            assert((old_creatures@ + created@.push(copy)) =~= t.push(copy));
                        }
                    }
                    created.push(copy);
                },
                None => {},
            }
            index = index + 1;
        }
        if created.len() > 0 {
            let ids = ids_of_creatures(&created);
            let ghost after = self.creatures@;
            let _removed = self.creatures.remove_by_ids(ids.as_slice());
            proof {
                if ok {
                    lemma_batch_removed(old_creatures@, created@, after, self.creatures@, start);
                    assert(ids_unique(created@));
                }
            }
            let ghost mid = self.creatures;
            let first_id = ids[0];
            history_edit(&mut self.history, &mut self.creatures, CreatureEdit::AddCreatures { creatures: created });
            self.selected.clear();
            let position = self.creatures.index_of(first_id);
            proof {
                lemma_index_is_position(self.creatures@, first_id, position);
            }
            self.hovered = position;
            self.reconcile_selection_and_hover();
            proof {
                reveal(Seq::filter);
                assert(self.selected@ =~= Seq::<CreatureId>::empty());
            }
        }
        self.mode = AppMode::Normal;
    }
}


/// `new` keeps `old`'s popup, and its selection, hover and scroll are `old`'s
/// reconciled with `new`'s creatures.
pub open spec fn reconciled_with(old: Encounter, new: Encounter) -> bool {
    &&& new.selected@ == old.selected@.filter(|id: CreatureId| has_id(new.creatures@, id))
    &&& new.hovered == reconciled_hover(old.hovered, new.creatures@.len())
    &&& new.scroll_offset == reconciled_scroll(old.scroll_offset, new.creatures@.len())
    &&& new.mode == old.mode
}

/// What undo does: the edit below the history's head is reverted and the
/// head moves down; at the bottom of the history the creatures stay as they
/// are. Either way the selection and hover are reconciled.
pub open spec fn undone(old: Encounter, new: Encounter) -> bool {
    &&& reconciled_with(old, new)
    &&& record_limit(new.history) == record_limit(old.history)
    &&& if history_head(old.history) > 0 {
        &&& edit_reverted(
            old.creatures,
            new.creatures,
            history_entries(old.history)[history_head(old.history) - 1],
        )
        &&& record_state(new.history) == (history_entries(old.history), (history_head(old.history) - 1) as nat)
    } else {
        new.creatures == old.creatures && new.history == old.history
    }
}

/// What redo does: the edit at the history's head is applied again and the
/// head moves up; at the top of the history the creatures stay as they are.
/// Either way the selection and hover are reconciled.
pub open spec fn redone(old: Encounter, new: Encounter) -> bool {
    &&& reconciled_with(old, new)
    &&& record_limit(new.history) == record_limit(old.history)
    &&& if history_head(old.history) < history_entries(old.history).len() {
        &&& edit_applied(
            old.creatures,
            new.creatures,
            history_entries(old.history)[history_head(old.history) as int],
        )
        &&& record_state(new.history) == (history_entries(old.history), history_head(old.history) + 1)
    } else {
        new.creatures == old.creatures && new.history == old.history
    }
}

impl Encounter {
    /// Reverts the most recent applied edit.
    pub fn undo(&mut self)
        requires
            history_wf(*old(self)),
        ensures
            undone(*old(self), *final(self)),
    {
        history_undo(&mut self.history, &mut self.creatures);
        self.reconcile_selection_and_hover();
    }

    /// Applies again the most recently reverted edit.
    pub fn redo(&mut self)
        requires
            history_wf(*old(self)),
        ensures
            redone(*old(self), *final(self)),
    {
        history_redo(&mut self.history, &mut self.creatures);
        self.reconcile_selection_and_hover();
    }
}


/// The action a key asks for while a popup is open: `Esc` cancels, `Enter`
/// submits, `Tab` and `Shift+Tab` move between the form's fields, and any
/// other key is text for the focused field. Without a popup keys ask for
/// nothing here.
pub open spec fn key_action(mode: AppMode, key: TextInput) -> Option<Action> {
    match mode {
        AppMode::Normal => None,
        AppMode::HealthInput(_) => Some(
            if key.key == TextKey::Esc {
                Action::CancelInput
            } else if key.key == TextKey::Enter {
                Action::SubmitHealthInput
            } else {
                Action::TextInput(key)
            },
        ),
        AppMode::InitiativeInput(_) => Some(
            if key.key == TextKey::Esc {
                Action::CancelInput
            } else if key.key == TextKey::Enter {
                Action::SubmitInitiativeInput
            } else {
                Action::TextInput(key)
            },
        ),
        AppMode::RenameInput(_) => Some(
            if key.key == TextKey::Esc {
                Action::CancelInput
            } else if key.key == TextKey::Enter {
                Action::SubmitRenameInput
            } else {
                Action::TextInput(key)
            },
        ),
        AppMode::NewCreature(_) => Some(
            if key.key == TextKey::Esc {
                Action::CancelInput
            } else if key.key == TextKey::Enter {
                Action::SubmitNewCreatureForm
            } else if key.key == TextKey::BackTab {
                Action::FocusPreviousNewCreatureField
            } else if key.key == TextKey::Tab {
                Action::FocusNextNewCreatureField
            } else {
                Action::TextInput(key)
            },
        ),
    }
}

/// What an action does to the encounter.
pub open spec fn updated(old: Encounter, new: Encounter, action: Action) -> bool {
    match action {
        Action::ClearSelection => selection_cleared(old, new),
        Action::MoveNext => moved_next(old, new),
        Action::MovePrevious => moved_previous(old, new),
        Action::MoveFirst => moved_first(old, new),
        Action::MoveLast => moved_last(old, new),
        Action::ToggleSelection => selection_toggled(old, new),
        Action::OpenAddHealth => health_opened(old, new, HealthOperation::Add),
        Action::OpenSubtractHealth => health_opened(old, new, HealthOperation::Subtract),
        Action::OpenInitiativeInput => initiative_opened(old, new),
        Action::OpenNewCreatureForm => form_opened(old, new),
        Action::OpenRenameInput => rename_opened(old, new),
        Action::Undo => undone(old, new),
        Action::Redo => redone(old, new),
        Action::CancelInput => input_cancelled(old, new),
        Action::SubmitHealthInput => health_submitted(old, new),
        Action::SubmitInitiativeInput => initiative_submitted(old, new),
        Action::SubmitRenameInput => rename_submitted(old, new),
        Action::SubmitNewCreatureForm => creatures_submitted(old, new),
        Action::FocusNextNewCreatureField => focus_moved_next(old, new),
        Action::FocusPreviousNewCreatureField => focus_moved_previous(old, new),
        Action::TextInput(key) => key_routed(old, new, key),
        _ => new == old,
    }
}

impl Encounter {
    /// The action a key asks for while a popup is open.
    pub fn handle_key_event(&mut self, key: TextInput) -> (action: Option<Action>)
        ensures
            action == key_action(old(self).mode, key),
            *final(self) == *old(self),
    {
        let (cancel, enter, back_tab, tab) = match key.key {
            TextKey::Esc => (true, false, false, false),
            TextKey::Enter => (false, true, false, false),
            TextKey::BackTab => (false, false, true, false),
            TextKey::Tab => (false, false, false, true),
            _ => (false, false, false, false),
        };
        let submit = match &self.mode {
            AppMode::Normal => return None,
            AppMode::HealthInput(_) => Action::SubmitHealthInput,
            AppMode::InitiativeInput(_) => Action::SubmitInitiativeInput,
            AppMode::RenameInput(_) => Action::SubmitRenameInput,
            AppMode::NewCreature(_) => {
                if back_tab {
                    return Some(Action::FocusPreviousNewCreatureField);
                }
                if tab {
                    return Some(Action::FocusNextNewCreatureField);
                }
                Action::SubmitNewCreatureForm
            },
        };
        if cancel {
            Some(Action::CancelInput)
        } else if enter {
            Some(submit)
        } else {
            Some(Action::TextInput(key))
        }
    }

    /// Carries out an action; actions that are not the encounter's change
    /// nothing. No follow-up action is ever returned.
    pub fn update(&mut self, action: Action) -> (next: Option<Action>)
        requires
            history_wf(*old(self)),
            action is SubmitHealthInput ==> health_submit_fits(*old(self)),
        ensures
            updated(*old(self), *final(self), action),
            next is None,
    {
        match action {
            Action::ClearSelection => self.clear_selection(),
            Action::MoveNext => self.move_next(),
            Action::MovePrevious => self.move_previous(),
            Action::MoveFirst => self.move_first(),
            Action::MoveLast => self.move_last(),
            Action::ToggleSelection => self.toggle_hovered_selection(),
            Action::OpenAddHealth => self.open_health_input(HealthOperation::Add),
            Action::OpenSubtractHealth => self.open_health_input(HealthOperation::Subtract),
            Action::OpenInitiativeInput => self.open_initiative_input(),
            Action::OpenNewCreatureForm => self.open_new_creature_form(),
            Action::OpenRenameInput => self.open_rename_input(),
            Action::Undo => self.undo(),
            Action::Redo => self.redo(),
            Action::CancelInput => self.cancel_input(),
            Action::SubmitHealthInput => self.submit_health_input(),
            Action::SubmitInitiativeInput => self.submit_initiative_input(),
            Action::SubmitRenameInput => self.submit_rename_input(),
            Action::SubmitNewCreatureForm => self.submit_new_creature_form(),
            Action::FocusNextNewCreatureField => self.focus_next_new_creature_field(),
            Action::FocusPreviousNewCreatureField => self.focus_previous_new_creature_field(),
            Action::TextInput(key) => self.route_textarea_key(key),
            _ => {},
        }
        None
    }

    /// Whether submitting the health popup keeps every target's health
    /// within `i32`; `submit_health_input` asks for it.
    pub fn health_submission_fits(&self) -> (fits: bool)
        ensures
            fits == health_submit_fits(*self),
    {
        let input = match &self.mode {
            AppMode::HealthInput(input) => input,
            _ => return true,
        };
        let amount = match parse_positive_i32(textarea_value(&input.textarea), "amount") {
            Ok(amount) => amount,
            Err(_) => return true,
        };
        assert(spec_parse_positive_i32(field_text(input.textarea), "amount"@) == Ok::<i32, Seq<char>>(amount));
        let delta: i64 = match input.operation {
            HealthOperation::Add => amount as i64,
            HealthOperation::Subtract => -(amount as i64),
        };
        let ids = &input.target_ids;
        let mut k: usize = 0;
        while k < ids.len()
            invariant
                k <= ids.len(),
                delta == signed_amount(input.operation, amount),
                self.mode == AppMode::HealthInput(*input),
                ids == &input.target_ids,
                spec_parse_positive_i32(field_text(input.textarea), "amount"@) == Ok::<i32, Seq<char>>(amount),
                forall|j: int|
                    0 <= j < k && has_id(self.creatures@, #[trigger] ids@[j]) ==> i32::MIN <= first_with_id(
                        self.creatures@,
                        ids@[j],
                    ).health + delta <= i32::MAX,
            decreases ids.len() - k,
        {
            let id = ids[k];
            match self.creatures.get(id) {
                Some(creature) => {
                    proof {
                        lemma_get_is_first(self.creatures@, id, *creature);
                    }
                    let health = creature.health as i64 + delta;
                    if health < i32::MIN as i64 || health > i32::MAX as i64 {
                        assert(ids@[k as int] == id);
                        assert(has_id(self.creatures@, ids@[k as int]));
                        assert(!health_delta_fits(self.creatures@, ids@, delta as int));
                        return false;
                    }
                },
                None => {},
            }
            k = k + 1;
        }
        true
    }
}

/// The popup's name for its targets: the one creature's name ("creature"
/// when it is gone), or "<n> creatures".
pub open spec fn target_label_of(s: Seq<Creature>, ids: Seq<CreatureId>) -> Seq<char> {
    if ids.len() == 1 {
        if has_id(s, ids[0]) {
            first_with_id(s, ids[0]).name@
        } else {
            "creature"@
        }
    } else {
        decimal(ids.len()) + " creatures"@
    }
}

/// The popup's name for its targets.
pub fn target_label(creatures: &Creatures, target_ids: &[CreatureId]) -> (label: String)
    ensures
        label@ == target_label_of(creatures@, target_ids@),
{
    if target_ids.len() == 1 {
        match creatures.get(target_ids[0]) {
            Some(creature) => {
                proof {
                    lemma_get_is_first(creatures@, target_ids@[0], *creature);
                }
                creature.name.clone()
            },
            None => {
                proof {
                    reveal_strlit("creature");
                }
                String::from_str("creature")
            },
        }
    } else {
        proof {
            reveal_strlit(" creatures");
        }
        let mut label = usize_to_string(target_ids.len());
        label.append(" creatures");
        label
    }
}

/// The action a key asks for outside the popups: `j`/`Down` and `k`/`Up`
/// move, `g` and `G` go to the first and last row, `Space` toggles the
/// selection, `+`/`=` and `-`/`_` open the health popup, `i` the initiative
/// popup, `n` the new-creature form, `r` the rename popup, `u` undoes,
/// `Ctrl+R` redoes, `Esc` clears the selection, and `q` or `Ctrl+C` quits.
pub open spec fn normal_key_action(key: TextInput) -> Option<Action> {
    match key.key {
        TextKey::Down => Some(Action::MoveNext),
        TextKey::Up => Some(Action::MovePrevious),
        TextKey::Esc => Some(Action::ClearSelection),
        TextKey::Char(c) => if key.ctrl {
            if c == 'r' || c == 'R' {
                Some(Action::Redo)
            } else if c == 'c' || c == 'C' {
                Some(Action::Quit)
            } else {
                None
            }
        } else if c == 'j' {
            Some(Action::MoveNext)
        } else if c == 'k' {
            Some(Action::MovePrevious)
        } else if c == 'g' {
            Some(Action::MoveFirst)
        } else if c == 'G' {
            Some(Action::MoveLast)
        } else if c == ' ' {
            Some(Action::ToggleSelection)
        } else if c == '+' || c == '=' {
            Some(Action::OpenAddHealth)
        } else if c == '-' || c == '_' {
            Some(Action::OpenSubtractHealth)
        } else if c == 'i' {
            Some(Action::OpenInitiativeInput)
        } else if c == 'n' {
            Some(Action::OpenNewCreatureForm)
        } else if c == 'r' {
            Some(Action::OpenRenameInput)
        } else if c == 'u' {
            Some(Action::Undo)
        } else if c == 'q' {
            Some(Action::Quit)
        } else {
            None
        },
        _ => None,
    }
}

/// The action a key asks for outside the popups.
pub fn normal_mode_action(key: TextInput) -> (action: Option<Action>)
    ensures
        action == normal_key_action(key),
{
    match key.key {
        TextKey::Down => Some(Action::MoveNext),
        TextKey::Up => Some(Action::MovePrevious),
        TextKey::Esc => Some(Action::ClearSelection),
        TextKey::Char(c) => if key.ctrl {
            if c == 'r' || c == 'R' {
                Some(Action::Redo)
            } else if c == 'c' || c == 'C' {
                Some(Action::Quit)
            } else {
                None
            }
        } else if c == 'j' {
            Some(Action::MoveNext)
        } else if c == 'k' {
            Some(Action::MovePrevious)
        } else if c == 'g' {
            Some(Action::MoveFirst)
        } else if c == 'G' {
            Some(Action::MoveLast)
        } else if c == ' ' {
            Some(Action::ToggleSelection)
        } else if c == '+' || c == '=' {
            Some(Action::OpenAddHealth)
        } else if c == '-' || c == '_' {
            Some(Action::OpenSubtractHealth)
        } else if c == 'i' {
            Some(Action::OpenInitiativeInput)
        } else if c == 'n' {
            Some(Action::OpenNewCreatureForm)
        } else if c == 'r' {
            Some(Action::OpenRenameInput)
        } else if c == 'u' {
            Some(Action::Undo)
        } else if c == 'q' {
            Some(Action::Quit)
        } else {
            None
        },
        _ => None,
    }
}

} // verus!
