use ttrpgtui::action::Action;
use ttrpgtui::components::encounter::{normal_mode_action, target_label, Encounter};
use ttrpgtui::models::creature::CreatureId;
use ttrpgtui::models::input::{textarea_value, AppMode, HealthOperation, NewCreatureField, TextInput, TextKey};

fn apply(encounter: &mut Encounter, action: Action) {
    let next = encounter.update(action);
    assert!(next.is_none());
}

fn key(c: char) -> TextInput {
    TextInput { key: TextKey::Char(c), ctrl: false, alt: false, shift: false }
}

fn special(key: TextKey) -> TextInput {
    TextInput { key, ctrl: false, alt: false, shift: false }
}

#[test]
fn target_ids_use_selection_when_present() {
    let mut encounter = Encounter::new();
    let first = encounter.creatures.id_at(0).unwrap();
    let second = encounter.creatures.id_at(1).unwrap();

    assert_eq!(encounter.target_ids(), vec![first]);
    encounter.hovered = Some(1);
    encounter.toggle_hovered_selection();
    assert_eq!(encounter.target_ids(), vec![second]);
}

#[test]
fn rename_is_undoable_and_keeps_target_hovered_after_resort() {
    let mut encounter = Encounter::new();
    let id = encounter.hovered_id().unwrap();

    encounter.open_rename_input();
    if let AppMode::RenameInput(input) = &mut encounter.mode {
        input.textarea.textarea.select_all();
        input.textarea.textarea.cut();
        input.textarea.textarea.insert_str("zzzz");
    }
    encounter.submit_rename_input();

    assert_eq!(encounter.creatures.get(id).unwrap().name, "zzzz");
    assert_eq!(encounter.hovered_id(), Some(id));

    encounter.undo();
    assert_ne!(encounter.creatures.get(id).unwrap().name, "zzzz");
    encounter.redo();
    assert_eq!(encounter.creatures.get(id).unwrap().name, "zzzz");
}

#[test]
fn undo_redo_restores_clamped_health_exactly() {
    let mut encounter = Encounter::new();
    let id = encounter.creatures.id_at(0).unwrap();
    encounter.selected.clear();
    encounter.hovered = encounter.creatures.index_of(id);

    encounter.open_health_input(HealthOperation::Subtract);
    if let AppMode::HealthInput(input) = &mut encounter.mode {
        input.textarea.textarea.insert_str("100");
    }
    encounter.submit_health_input();
    assert!(encounter.creatures.get(id).unwrap().get_health() < 0);

    encounter.open_health_input(HealthOperation::Add);
    if let AppMode::HealthInput(input) = &mut encounter.mode {
        input.textarea.textarea.insert_str("999");
    }
    encounter.submit_health_input();
    let max = encounter.creatures.get(id).unwrap().get_max_health();
    assert_eq!(encounter.creatures.get(id).unwrap().get_health(), max);

    encounter.undo();
    assert!(encounter.creatures.get(id).unwrap().get_health() < 0);
    encounter.redo();
    assert_eq!(encounter.creatures.get(id).unwrap().get_health(), max);
}

#[test]
fn numeric_input_ignores_letters_and_punctuation() {
    let mut encounter = Encounter::new();

    encounter.open_health_input(HealthOperation::Add);
    for character in ['1', 'a', '-', '.', '2'] {
        encounter.route_textarea_key(key(character));
    }

    let AppMode::HealthInput(input) = &encounter.mode else {
        panic!("expected health input mode");
    };
    assert_eq!(textarea_value(&input.textarea), "12");
}

#[test]
fn new_creature_numeric_fields_filter_input_but_name_does_not() {
    let mut encounter = Encounter::new();

    encounter.open_new_creature_form();
    if let AppMode::NewCreature(form) = &mut encounter.mode {
        form.active_field = NewCreatureField::Name;
    }
    encounter.route_textarea_key(key('a'));
    encounter.route_textarea_key(key('-'));

    if let AppMode::NewCreature(form) = &mut encounter.mode {
        form.active_field = NewCreatureField::Health;
    }
    encounter.route_textarea_key(key('b'));
    encounter.route_textarea_key(key('.'));
    encounter.route_textarea_key(key('4'));

    let AppMode::NewCreature(form) = &encounter.mode else {
        panic!("expected new creature mode");
    };
    assert_eq!(textarea_value(&form.fields.name), "a-");
    assert_eq!(textarea_value(&form.fields.health), "4");
}

#[test]
fn space_toggles_hovered_selection() {
    let mut encounter = Encounter::new();
    let id = encounter.hovered_id().unwrap();

    apply(&mut encounter, Action::ToggleSelection);
    assert!(encounter.selected.contains(&id));

    apply(&mut encounter, Action::ToggleSelection);
    assert!(!encounter.selected.contains(&id));
}

#[test]
fn plus_opens_add_health_input_for_current_target() {
    let mut encounter = Encounter::new();
    let id = encounter.hovered_id().unwrap();

    apply(&mut encounter, Action::OpenAddHealth);

    let AppMode::HealthInput(input) = encounter.mode else {
        panic!("expected health input mode");
    };
    assert_eq!(input.operation, HealthOperation::Add);
    assert_eq!(input.target_ids, vec![id]);
}

#[test]
fn r_opens_rename_only_without_multiselect() {
    let mut encounter = Encounter::new();

    apply(&mut encounter, Action::OpenRenameInput);
    assert!(matches!(encounter.mode, AppMode::RenameInput(_)));

    encounter.cancel_input();
    encounter.toggle_hovered_selection();
    apply(&mut encounter, Action::OpenRenameInput);
    assert!(matches!(encounter.mode, AppMode::Normal));
}

#[test]
fn escape_clears_selection_without_quitting() {
    let mut encounter = Encounter::new();
    encounter.toggle_hovered_selection();

    apply(&mut encounter, Action::ClearSelection);

    assert!(encounter.selected.is_empty());
}

#[test]
fn movement_wraps_between_first_and_last_rows() {
    let mut encounter = Encounter::new();
    encounter.move_last();

    apply(&mut encounter, Action::MoveNext);
    assert_eq!(encounter.hovered, Some(0));

    apply(&mut encounter, Action::MovePrevious);
    assert_eq!(encounter.hovered, encounter.creatures.len().checked_sub(1));
}

#[test]
fn i_updates_initiative_and_keeps_target_hovered_after_resort() {
    let mut encounter = Encounter::new();
    encounter.move_last();
    let id = encounter.hovered_id().unwrap();

    apply(&mut encounter, Action::OpenInitiativeInput);
    if let AppMode::InitiativeInput(input) = &mut encounter.mode {
        input.textarea.textarea.insert_str("99");
    } else {
        panic!("expected initiative input mode");
    }
    apply(&mut encounter, Action::SubmitInitiativeInput);

    assert_eq!(encounter.creatures.get(id).unwrap().initiative, Some(99));
    assert_eq!(encounter.hovered_id(), Some(id));
}

#[test]
fn seeded_encounter_lists_highest_initiative_first() {
    let encounter = Encounter::new();
    let names: Vec<&str> = encounter.creatures.iter().map(|c| c.name.as_str()).collect();
    assert_eq!(names, vec!["horace", "john", "jane"]);
    assert_eq!(encounter.hovered, Some(0));
    assert_eq!(encounter.creatures.id_at(0), Some(CreatureId::new(3)));
}

#[test]
fn new_creature_form_adds_a_lettered_batch_undoably() {
    let mut encounter = Encounter::new();
    apply(&mut encounter, Action::OpenNewCreatureForm);
    if let AppMode::NewCreature(form) = &mut encounter.mode {
        form.fields.name.textarea.insert_str("Goblin");
        form.fields.initiative.textarea.insert_str("12");
        form.fields.health.textarea.insert_str("7");
        form.fields.count.textarea.insert_str("3");
    }
    apply(&mut encounter, Action::SubmitNewCreatureForm);
    assert!(matches!(encounter.mode, AppMode::Normal));
    let names: Vec<&str> = encounter.creatures.iter().map(|c| c.name.as_str()).collect();
    assert_eq!(names, vec!["Goblin A", "Goblin B", "Goblin C", "horace", "john", "jane"]);
    assert_eq!(encounter.hovered, Some(0));
    assert_eq!(encounter.creatures.id_at(0), Some(CreatureId::new(4)));

    apply(&mut encounter, Action::Undo);
    assert_eq!(encounter.creatures.len(), 3);
    apply(&mut encounter, Action::Redo);
    assert_eq!(encounter.creatures.len(), 6);
}

#[test]
fn new_creature_form_reports_missing_name() {
    let mut encounter = Encounter::new();
    apply(&mut encounter, Action::OpenNewCreatureForm);
    apply(&mut encounter, Action::SubmitNewCreatureForm);
    let AppMode::NewCreature(form) = &encounter.mode else {
        panic!("expected new creature mode");
    };
    assert_eq!(form.error, Some("name is required".to_string()));
    assert_eq!(encounter.creatures.len(), 3);
}

#[test]
fn health_input_reports_bad_amount() {
    let mut encounter = Encounter::new();
    apply(&mut encounter, Action::OpenSubtractHealth);
    if let AppMode::HealthInput(input) = &mut encounter.mode {
        input.textarea.textarea.insert_str("0");
    }
    assert!(encounter.health_submission_fits());
    apply(&mut encounter, Action::SubmitHealthInput);
    let AppMode::HealthInput(input) = &encounter.mode else {
        panic!("expected health input mode");
    };
    assert_eq!(input.error, Some("amount must be positive".to_string()));
}

#[test]
fn popup_keys_map_to_actions() {
    let mut encounter = Encounter::new();
    assert_eq!(encounter.handle_key_event(key('x')), None);
    encounter.open_new_creature_form();
    assert_eq!(encounter.handle_key_event(special(TextKey::Tab)), Some(Action::FocusNextNewCreatureField));
    assert_eq!(
        encounter.handle_key_event(special(TextKey::BackTab)),
        Some(Action::FocusPreviousNewCreatureField)
    );
    assert_eq!(encounter.handle_key_event(special(TextKey::Enter)), Some(Action::SubmitNewCreatureForm));
    assert_eq!(encounter.handle_key_event(special(TextKey::Esc)), Some(Action::CancelInput));
    assert_eq!(encounter.handle_key_event(key('q')), Some(Action::TextInput(key('q'))));
}

#[test]
fn undo_with_empty_history_changes_nothing() {
    let mut encounter = Encounter::new();
    encounter.undo();
    encounter.redo();
    assert_eq!(encounter.creatures.len(), 3);
    assert_eq!(encounter.hovered, Some(0));
}

#[test]
fn scrolling_keeps_hovered_row_visible() {
    let mut encounter = Encounter::new();
    encounter.move_last();
    encounter.ensure_hover_visible(2);
    assert_eq!(encounter.scroll_offset, 1);
    encounter.move_first();
    encounter.ensure_hover_visible(2);
    assert_eq!(encounter.scroll_offset, 0);
}

#[test]
fn target_label_names_one_creature_or_counts_them() {
    let encounter = Encounter::new();
    let first = encounter.creatures.id_at(0).unwrap();
    let second = encounter.creatures.id_at(1).unwrap();
    assert_eq!(target_label(&encounter.creatures, &[first]), "horace");
    assert_eq!(target_label(&encounter.creatures, &[first, second]), "2 creatures");
    assert_eq!(target_label(&encounter.creatures, &[CreatureId::new(77)]), "creature");
}

#[test]
fn normal_mode_keys_follow_the_key_table() {
    assert_eq!(normal_mode_action(key('j')), Some(Action::MoveNext));
    assert_eq!(normal_mode_action(special(TextKey::Up)), Some(Action::MovePrevious));
    assert_eq!(normal_mode_action(key('G')), Some(Action::MoveLast));
    assert_eq!(normal_mode_action(key('=')), Some(Action::OpenAddHealth));
    assert_eq!(normal_mode_action(key('_')), Some(Action::OpenSubtractHealth));
    assert_eq!(normal_mode_action(key('u')), Some(Action::Undo));
    assert_eq!(normal_mode_action(TextInput { key: TextKey::Char('r'), ctrl: true, alt: false, shift: false }), Some(Action::Redo));
    assert_eq!(normal_mode_action(special(TextKey::Esc)), Some(Action::ClearSelection));
    assert_eq!(normal_mode_action(key('z')), None);
}

#[test]
fn toggling_twice_restores_the_selection() {
    let mut encounter = Encounter::new();
    encounter.hovered = Some(2);
    encounter.toggle_hovered_selection();
    encounter.hovered = Some(0);
    encounter.toggle_hovered_selection();
    let selected = encounter.selected.clone();
    encounter.hovered = Some(1);
    encounter.toggle_hovered_selection();
    encounter.toggle_hovered_selection();
    assert_eq!(encounter.selected, selected);
    let raw: Vec<u64> = selected.iter().map(|id| id.get()).collect();
    assert_eq!(raw, vec![2, 3]);
}
