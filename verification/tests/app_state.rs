use ttrpgtui::app_state::{update, App};
use ttrpgtui::models::input::{TextInput, TextKey};

fn key(c: char) -> TextInput {
    TextInput { key: TextKey::Char(c), ctrl: false, alt: false, shift: false }
}

#[test]
fn new_app_selects_the_first_cell() {
    let app = App::new();
    assert!(!app.should_quit);
    assert_eq!(app.creature_table_state.selected(), Some(0));
    assert_eq!(app.creature_table_state.selected_column(), Some(0));
    app.tick();
}

#[test]
fn keys_move_the_table_selection() {
    let mut app = App::new();
    update(&mut app, key('j'));
    update(&mut app, key('j'));
    assert_eq!(app.creature_table_state.selected(), Some(2));
    update(&mut app, key('k'));
    assert_eq!(app.creature_table_state.selected(), Some(1));
    update(&mut app, key('l'));
    assert_eq!(app.creature_table_state.selected_column(), Some(1));
    update(&mut app, key('h'));
    update(&mut app, key('h'));
    assert_eq!(app.creature_table_state.selected_column(), Some(0));
    update(&mut app, key('G'));
    assert_eq!(app.creature_table_state.selected(), Some(usize::MAX));
    update(&mut app, key('g'));
    assert_eq!(app.creature_table_state.selected(), Some(0));
    assert!(!app.should_quit);
}

#[test]
fn quit_keys_stop_the_app() {
    let mut app = App::new();
    update(&mut app, TextInput { key: TextKey::Char('c'), ctrl: true, alt: false, shift: false });
    assert!(app.should_quit);
    let mut app = App::new();
    update(&mut app, TextInput { key: TextKey::Esc, ctrl: false, alt: false, shift: false });
    assert!(app.should_quit);
    let mut app = App::new();
    update(&mut app, key('q'));
    assert!(app.should_quit);
}
