use std::path::PathBuf;

use ttrpgtui::action::Action;
use ttrpgtui::components::session_picker::{
    clamp_selection, select_next_wrapping, select_previous_wrapping, PickerOutcome, PickerRequest, PickerResponse,
    PickerStep, SessionPicker,
};
use ttrpgtui::models::creature::Creature;
use ttrpgtui::models::input::{TextInput, TextKey};
use ttrpgtui::storage::{EncounterInfo, PersistedEncounter, SessionInfo};

fn key(c: char) -> TextInput {
    TextInput { key: TextKey::Char(c), ctrl: false, alt: false, shift: false }
}

fn special(key: TextKey) -> TextInput {
    TextInput { key, ctrl: false, alt: false, shift: false }
}

fn session(dir: &str) -> SessionInfo {
    SessionInfo {
        dir_name: dir.to_string(),
        path: PathBuf::from(dir),
        date: "2024-05-01".to_string(),
        name: "Friday".to_string(),
    }
}

fn encounter(file: &str) -> EncounterInfo {
    EncounterInfo { file_name: file.to_string(), path: PathBuf::from(file), name: "Ambush".to_string() }
}

fn started(sessions: Vec<SessionInfo>) -> SessionPicker {
    let mut picker = SessionPicker::new();
    let outcome = picker.register_config(PathBuf::from("data"));
    assert!(matches!(outcome, PickerOutcome::Request(PickerRequest::ListSessions)));
    let outcome = picker.resume(PickerResponse::Sessions(Ok(sessions)));
    assert!(matches!(outcome, PickerOutcome::Done(None)));
    picker
}

#[test]
fn selections_wrap_and_clamp() {
    let mut state = Some(2);
    select_next_wrapping(&mut state, 3);
    assert_eq!(state, Some(0));
    select_previous_wrapping(&mut state, 3);
    assert_eq!(state, Some(2));
    clamp_selection(&mut state, 2);
    assert_eq!(state, Some(1));
    clamp_selection(&mut state, 0);
    assert_eq!(state, None);
    let mut none = None;
    select_next_wrapping(&mut none, 4);
    assert_eq!(none, Some(0));
}

#[test]
fn start_up_lists_sessions_and_selects_the_first() {
    let picker = started(vec![session("a"), session("b")]);
    assert_eq!(picker.session_state, Some(0));
    assert_eq!(picker.sessions.len(), 2);
    assert!(picker.active);
}

#[test]
fn start_up_failure_is_reported() {
    let mut picker = SessionPicker::new();
    let _ = picker.register_config(PathBuf::from("data"));
    let outcome = picker.resume(PickerResponse::Sessions(Err("no access".to_string())));
    assert!(matches!(outcome, PickerOutcome::Failed(message) if message == "no access"));
}

#[test]
fn choosing_a_session_lists_its_encounters() {
    let mut picker = started(vec![session("a"), session("b")]);
    let _ = picker.handle_key_event(key('j'));
    assert_eq!(picker.session_state, Some(1));
    let outcome = picker.handle_key_event(special(TextKey::Enter));
    match outcome {
        PickerOutcome::Request(PickerRequest::ListEncounters(chosen)) => assert_eq!(chosen.dir_name, "b"),
        other => panic!("unexpected {other:?}"),
    }
    let outcome = picker.resume(PickerResponse::Encounters(Ok(vec![encounter("x.ron")])));
    assert!(matches!(outcome, PickerOutcome::Done(Some(Action::Render))));
    assert_eq!(picker.step, PickerStep::Encounter);
    assert_eq!(picker.encounter_state, Some(0));

    let _ = picker.handle_key_event(special(TextKey::Esc));
    assert_eq!(picker.step, PickerStep::Session);
    assert!(picker.encounters.is_empty());
    assert!(picker.selected_session.is_none());
}

#[test]
fn creating_an_encounter_loads_it() {
    let mut picker = started(vec![session("a")]);
    let _ = picker.handle_key_event(special(TextKey::Enter));
    let _ = picker.resume(PickerResponse::Encounters(Ok(Vec::new())));
    let outcome = picker.handle_key_event(special(TextKey::Enter));
    assert!(matches!(outcome, PickerOutcome::Done(Some(Action::Render))));
    assert!(picker.input.is_some());
    for c in "Goblin Ambush".chars() {
        let _ = picker.handle_key_event(key(c));
    }
    let outcome = picker.handle_key_event(special(TextKey::Enter));
    match outcome {
        PickerOutcome::Request(PickerRequest::CreateEncounter(chosen, name)) => {
            assert_eq!(chosen.dir_name, "a");
            assert_eq!(name, "Goblin Ambush");
        }
        other => panic!("unexpected {other:?}"),
    }
    let outcome = picker.resume(PickerResponse::EncounterCreated(Ok(encounter("goblin-ambush.ron"))));
    assert!(matches!(outcome, PickerOutcome::Request(PickerRequest::ListEncounters(_))));
    let outcome = picker.resume(PickerResponse::Encounters(Ok(vec![encounter("a.ron"), encounter("goblin-ambush.ron")])));
    assert_eq!(picker.encounter_state, Some(1));
    assert!(matches!(outcome, PickerOutcome::Request(PickerRequest::LoadEncounter(_))));
    let saved = PersistedEncounter { name: "Goblin Ambush".to_string(), creatures: vec![Creature::new("goblin", None, None, 7)] };
    let outcome = picker.resume(PickerResponse::EncounterLoaded(Ok(saved)));
    match outcome {
        PickerOutcome::Done(Some(Action::LoadEncounter { session_dir, encounter_file, encounter_name, creatures })) => {
            assert_eq!(session_dir, "a");
            assert_eq!(encounter_file, "goblin-ambush.ron");
            assert_eq!(encounter_name, "Goblin Ambush");
            assert_eq!(creatures.len(), 1);
        }
        other => panic!("unexpected {other:?}"),
    }
    assert!(!picker.active);
    assert!(matches!(picker.handle_key_event(key('j')), PickerOutcome::Done(None)));
}

#[test]
fn failed_file_work_shows_the_error() {
    let mut picker = started(Vec::new());
    let outcome = picker.handle_key_event(special(TextKey::Enter));
    assert!(matches!(outcome, PickerOutcome::Done(Some(Action::Render))));
    for c in "Night".chars() {
        let _ = picker.handle_key_event(key(c));
    }
    let outcome = picker.handle_key_event(special(TextKey::Enter));
    assert!(matches!(outcome, PickerOutcome::Request(PickerRequest::CreateSession(ref name)) if name == "Night"));
    let outcome = picker.resume(PickerResponse::SessionCreated(Err("disk full".to_string())));
    assert!(matches!(outcome, PickerOutcome::Done(Some(Action::Error(ref message))) if message == "disk full"));
    assert_eq!(picker.message, Some("disk full".to_string()));
    assert!(picker.waiting.is_none());
}

#[test]
fn blank_session_name_is_refused_without_a_request() {
    let mut picker = started(vec![]);
    picker.handle_key_event(key('n'));
    picker.handle_key_event(key(' '));
    let outcome = picker.handle_key_event(special(TextKey::Enter));
    match outcome {
        PickerOutcome::Done(Some(Action::Error(message))) => assert_eq!(message, "session name is required"),
        _ => panic!("expected the required-name error"),
    }
    assert_eq!(picker.message.as_deref(), Some("session name is required"));
    assert!(picker.waiting.is_none());
    assert!(picker.input.is_some());
    assert_eq!(picker.step, PickerStep::Session);
}

#[test]
fn typed_session_name_is_trimmed_before_the_request() {
    let mut picker = started(vec![]);
    picker.handle_key_event(key('n'));
    for c in " Friday ".chars() {
        picker.handle_key_event(key(c));
    }
    match picker.handle_key_event(special(TextKey::Enter)) {
        PickerOutcome::Request(PickerRequest::CreateSession(name)) => assert_eq!(name, "Friday"),
        _ => panic!("expected a request to create the session"),
    }
}

#[test]
fn backspace_removes_the_last_typed_character() {
    let mut picker = started(vec![]);
    picker.handle_key_event(key('n'));
    picker.handle_key_event(key('a'));
    picker.handle_key_event(key('b'));
    picker.handle_key_event(special(TextKey::Backspace));
    match picker.handle_key_event(special(TextKey::Enter)) {
        PickerOutcome::Request(PickerRequest::CreateSession(name)) => assert_eq!(name, "a"),
        _ => panic!("expected a request to create the session"),
    }
}

#[test]
fn left_arrow_moves_back_before_typing() {
    let mut picker = started(vec![]);
    picker.handle_key_event(key('n'));
    picker.handle_key_event(key('a'));
    picker.handle_key_event(key('b'));
    picker.handle_key_event(special(TextKey::Left));
    picker.handle_key_event(key('x'));
    match picker.handle_key_event(special(TextKey::Enter)) {
        PickerOutcome::Request(PickerRequest::CreateSession(name)) => assert_eq!(name, "axb"),
        _ => panic!("expected a request to create the session"),
    }
}
