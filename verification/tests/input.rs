use ttrpgtui::models::input::{letter_suffix, parse_i32, parse_positive_i32, single_line_textarea, NewCreatureField, NewCreatureForm};

#[test]
fn letter_suffixes_continue_after_z() {
    assert_eq!(letter_suffix(0), "A");
    assert_eq!(letter_suffix(25), "Z");
    assert_eq!(letter_suffix(26), "AA");
    assert_eq!(letter_suffix(27), "AB");
}

#[test]
fn letter_suffixes_grow_a_third_letter() {
    assert_eq!(letter_suffix(51), "AZ");
    assert_eq!(letter_suffix(701), "ZZ");
    assert_eq!(letter_suffix(702), "AAA");
}

#[test]
fn numbers_are_trimmed_and_signed() {
    assert_eq!(parse_i32(" -12 ".to_string(), "initiative"), Ok(-12));
    assert_eq!(parse_i32("+7".to_string(), "initiative"), Ok(7));
    assert_eq!(
        parse_i32("abc".to_string(), "initiative"),
        Err("initiative must be a number".to_string())
    );
    assert_eq!(
        parse_i32("2147483648".to_string(), "initiative"),
        Err("initiative must be a number".to_string())
    );
    assert_eq!(parse_i32("-2147483648".to_string(), "initiative"), Ok(i32::MIN));
}

#[test]
fn amounts_must_be_positive() {
    assert_eq!(parse_positive_i32("15".to_string(), "amount"), Ok(15));
    assert_eq!(
        parse_positive_i32("0".to_string(), "amount"),
        Err("amount must be positive".to_string())
    );
    assert_eq!(
        parse_positive_i32("x".to_string(), "amount"),
        Err("amount must be a number".to_string())
    );
}

#[test]
fn form_focus_cycles_through_every_field() {
    let mut field = NewCreatureField::Name;
    let mut seen = Vec::new();
    for _ in 0..5 {
        seen.push(field);
        field = field.next();
    }
    assert_eq!(field, NewCreatureField::Name);
    assert_eq!(seen.len(), 5);
    assert_eq!(NewCreatureField::Name.previous(), NewCreatureField::Count);
    assert_eq!(NewCreatureField::Count.next(), NewCreatureField::Name);
}

#[test]
fn new_creature_form_fields_show_what_they_ask_for() {
    let form = NewCreatureForm::new();
    assert_eq!(form.fields.name.textarea.placeholder_text(), "Name");
    assert_eq!(form.fields.initiative.textarea.placeholder_text(), "Initiative (optional)");
    assert_eq!(form.fields.ac.textarea.placeholder_text(), "AC (optional)");
    assert_eq!(form.fields.health.textarea.placeholder_text(), "Health");
    assert_eq!(form.fields.count.textarea.placeholder_text(), "Count (optional)");
    assert_eq!(form.active_field, NewCreatureField::Name);
    assert!(form.error.is_none());
}

#[test]
fn single_line_field_starts_empty_with_its_placeholder() {
    let field = single_line_textarea("Initiative");
    assert_eq!(field.textarea.placeholder_text(), "Initiative");
    assert_eq!(field.textarea.lines(), &[String::new()]);
    assert_eq!(field.textarea.cursor(), (0, 0));
    let blank = single_line_textarea("");
    assert_eq!(blank.textarea.placeholder_text(), "");
}
