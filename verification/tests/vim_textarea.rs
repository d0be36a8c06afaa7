use ttrpgtui::components::vim_textarea::{Mode, VimTextArea};
use ttrpgtui::models::creature::CreatureId;
use ttrpgtui::models::input::{TextInput, TextKey};

fn key(c: char) -> TextInput {
    TextInput { key: TextKey::Char(c), ctrl: false, alt: false, shift: false }
}

fn esc() -> TextInput {
    TextInput { key: TextKey::Esc, ctrl: false, alt: false, shift: false }
}

#[test]
fn starts_in_insert_mode_and_escapes_to_normal() {
    let mut area = VimTextArea::new(vec![CreatureId::new(1)], "notes");
    assert_eq!(area.mode(), Mode::Insert);
    area.input(key('!'));
    assert_eq!(area.value(), "notes!");
    area.input(esc());
    assert!(area.is_normal_mode());
}

#[test]
fn dd_deletes_the_line_and_u_restores_it() {
    let mut area = VimTextArea::new(Vec::new(), "first");
    area.input(esc());
    area.input(key('d'));
    assert_eq!(area.mode(), Mode::Operator('d'));
    area.input(key('d'));
    assert_eq!(area.mode(), Mode::Normal);
    assert_eq!(area.value(), "");
    area.input(key('u'));
    assert_eq!(area.value(), "first");
}

#[test]
fn x_deletes_and_r_replaces_one_character() {
    let mut area = VimTextArea::new(Vec::new(), "cat");
    area.input(esc());
    area.input(key('0'));
    area.input(key('^'));
    area.input(key('x'));
    assert_eq!(area.value(), "at");
    area.input(key('r'));
    assert_eq!(area.mode(), Mode::Replace(true));
    area.input(key('o'));
    assert_eq!(area.value(), "ot");
    assert_eq!(area.mode(), Mode::Normal);
}

#[test]
fn movement_keys_leave_the_text_alone() {
    let mut area = VimTextArea::new(Vec::new(), "hello world");
    area.input(esc());
    for c in ['h', 'l', 'w', 'b', 'e', '^', '$', 'G', 'g', 'g'] {
        area.input(key(c));
    }
    assert_eq!(area.value(), "hello world");
    assert!(area.is_normal_mode());
}

#[test]
fn mode_labels_name_the_mode() {
    assert_eq!(Mode::Normal.label(), "NORMAL");
    assert_eq!(Mode::Replace(false).label(), "REPLACE");
    assert_eq!(Mode::Operator('y').label(), "OPERATOR(y)");
}

#[test]
fn visual_d_cuts_the_selection_with_the_character_under_the_cursor() {
    let mut area = VimTextArea::new(Vec::new(), "abc");
    area.input(esc());
    area.input(key('^'));
    area.input(key('v'));
    area.input(key('l'));
    area.input(key('d'));
    assert_eq!(area.mode(), Mode::Normal);
    assert_eq!(area.value(), "c");
}

#[test]
fn join_open_and_substitute_edit_lines() {
    let mut area = VimTextArea::new(Vec::new(), "one");
    area.input(esc());
    area.input(key('o'));
    assert_eq!(area.mode(), Mode::Insert);
    area.input(key('t'));
    area.input(key('w'));
    area.input(key('o'));
    assert_eq!(area.value(), "one\ntwo");
    area.input(esc());
    area.input(key('k'));
    area.input(key('J'));
    assert_eq!(area.value(), "one two");
    area.input(key('O'));
    assert_eq!(area.value(), "\none two");
    area.input(esc());
    area.input(key('j'));
    area.input(key('S'));
    assert_eq!(area.value(), "\n");
    assert_eq!(area.mode(), Mode::Insert);
}

#[test]
fn capital_d_deletes_to_the_end_of_the_line() {
    let mut area = VimTextArea::new(Vec::new(), "abcde");
    area.input(esc());
    area.input(key('^'));
    area.input(key('l'));
    area.input(key('l'));
    area.input(key('D'));
    assert_eq!(area.value(), "ab");
}

#[test]
fn dd_on_a_middle_line_removes_it() {
    let mut area = VimTextArea::new(Vec::new(), "a");
    area.input(esc());
    area.input(key('o'));
    area.input(key('b'));
    area.input(esc());
    area.input(key('o'));
    area.input(key('c'));
    area.input(esc());
    area.input(key('k'));
    area.input(key('d'));
    area.input(key('d'));
    assert_eq!(area.value(), "a\nc");
}

#[test]
fn overtype_replaces_characters_in_place() {
    let mut area = VimTextArea::new(Vec::new(), "cat");
    area.input(esc());
    area.input(key('^'));
    area.input(key('R'));
    area.input(key('b'));
    area.input(key('u'));
    assert_eq!(area.value(), "but");
}

#[test]
fn visual_y_then_p_pastes_the_copied_text() {
    let mut area = VimTextArea::new(Vec::new(), "abc");
    area.input(esc());
    area.input(key('^'));
    area.input(key('v'));
    area.input(key('l'));
    area.input(key('y'));
    assert_eq!(area.mode(), Mode::Normal);
    assert_eq!(area.value(), "abc");
    area.input(key('p'));
    assert_eq!(area.value(), "ababc");
}

#[test]
fn d_dollar_cuts_to_the_end_of_the_line() {
    let mut area = VimTextArea::new(Vec::new(), "abcde");
    area.input(esc());
    area.input(key('^'));
    area.input(key('l'));
    area.input(key('d'));
    area.input(key('$'));
    assert_eq!(area.mode(), Mode::Normal);
    assert_eq!(area.value(), "a");
}

#[test]
fn yy_then_p_copies_the_line_below() {
    let mut area = VimTextArea::new(Vec::new(), "a");
    area.input(esc());
    area.input(key('o'));
    area.input(key('b'));
    area.input(esc());
    area.input(key('k'));
    area.input(key('y'));
    area.input(key('y'));
    assert_eq!(area.value(), "a\nb");
    area.input(key('p'));
    assert_eq!(area.value(), "a\na\nb");
}
