use ttrpgtui::models::creature::{Creature, CreatureId, Creatures};
use ttrpgtui::models::edit::{CreatureEdit, HealthChange};

#[test]
fn iter_returns_creatures_in_descending_initiative_order_without_consuming() {
    let mut creatures = Creatures::default();
    creatures.add(Creature::new("slow", Some(3), Some(12), 7));
    creatures.add(Creature::new("fast", Some(18), Some(15), 12));
    creatures.add(Creature::new("middle", Some(10), Some(13), 9));

    let names: Vec<&str> = creatures
        .iter()
        .map(|creature| creature.name.as_str())
        .collect();
    assert_eq!(names, vec!["fast", "middle", "slow"]);

    let names_after_iterating: Vec<&str> = (&creatures)
        .into_iter()
        .map(|creature| creature.name.as_str())
        .collect();
    assert_eq!(names_after_iterating, vec!["fast", "middle", "slow"]);
}

#[test]
fn creatures_without_initiative_sort_last() {
    let mut creatures = Creatures::default();
    creatures.add(Creature::new("unknown", None, None, 7));
    creatures.add(Creature::new("negative", Some(-2), None, 7));
    creatures.add(Creature::new("high", Some(18), None, 7));

    let names: Vec<&str> = creatures
        .iter()
        .map(|creature| creature.name.as_str())
        .collect();
    assert_eq!(names, vec!["high", "negative", "unknown"]);
}

#[test]
fn same_initiative_creatures_sort_by_name_then_id() {
    let mut creatures = Creatures::default();
    let first_alpha = creatures.add(Creature::new("alpha", Some(10), None, 7));
    creatures.add(Creature::new("charlie", Some(10), None, 7));
    creatures.add(Creature::new("bravo", Some(10), None, 7));
    let second_alpha = creatures.add(Creature::new("alpha", Some(10), None, 7));

    let rows: Vec<(&str, CreatureId)> = creatures
        .iter()
        .map(|creature| (creature.name.as_str(), creature.id))
        .collect();
    assert_eq!(
        rows,
        vec![
            ("alpha", first_alpha),
            ("alpha", second_alpha),
            (
                "bravo",
                creatures.iter().find(|c| c.name == "bravo").unwrap().id
            ),
            (
                "charlie",
                creatures.iter().find(|c| c.name == "charlie").unwrap().id
            ),
        ]
    );
}

#[test]
fn optional_ac_survives_remove_and_readd() {
    let mut creatures = Creatures::default();
    let id = creatures.add(Creature::new("armored", Some(10), Some(17), 7));

    let removed = creatures.remove_by_ids(&[id]);
    assert_eq!(removed[0].ac, Some(17));
    creatures.add_existing(removed[0].clone());

    assert_eq!(
        creatures.get(id).map(|creature| creature.ac),
        Some(Some(17))
    );
}

#[test]
fn clamped_healing_and_negative_health_are_supported() {
    let mut creature = Creature::new("test", Some(1), None, 10);
    creature.modify_health(-15);
    assert_eq!(creature.get_health(), -5);
    assert!(creature.is_down());

    creature.modify_health(100);
    assert_eq!(creature.get_health(), 10);
}

#[test]
fn fresh_identifiers_count_up_from_one() {
    let mut creatures = Creatures::default();
    let a = creatures.add(Creature::new("a", None, None, 1));
    let b = creatures.add(Creature::new("b", None, None, 1));
    assert_eq!(a.get(), 1);
    assert_eq!(b.get(), 2);
}

#[test]
fn existing_identifier_is_kept_and_reserved() {
    let mut creatures = Creatures::default();
    let mut restored = Creature::new("restored", Some(4), None, 9);
    restored.id = CreatureId::new(40);
    let kept = creatures.add_existing(restored);
    assert_eq!(kept, CreatureId::new(40));
    let fresh = creatures.add(Creature::new("fresh", None, None, 3));
    assert_eq!(fresh.get(), 41);
}

#[test]
fn remove_by_ids_returns_removed_in_identifier_order() {
    let mut creatures = Creatures::default();
    let a = creatures.add(Creature::new("low", Some(1), None, 5));
    let b = creatures.add(Creature::new("high", Some(20), None, 5));
    let c = creatures.add(Creature::new("mid", Some(10), None, 5));
    let removed = creatures.remove_by_ids(&[c, a]);
    let ids: Vec<CreatureId> = removed.iter().map(|creature| creature.id).collect();
    assert_eq!(ids, vec![a, c]);
    assert_eq!(creatures.ids_in_display_order(), vec![b]);
    assert!(!creatures.contains(a));
    assert_eq!(creatures.len(), 1);
}

#[test]
fn lookups_by_position_and_identifier() {
    let mut creatures = Creatures::default();
    let slow = creatures.add(Creature::new("slow", Some(2), None, 5));
    let quick = creatures.add(Creature::new("quick", Some(9), None, 5));
    assert_eq!(creatures.id_at(0), Some(quick));
    assert_eq!(creatures.index_of(slow), Some(1));
    assert_eq!(creatures.by_display_index(1).map(|c| c.name.clone()), Some("slow".to_string()));
    assert_eq!(creatures.id_at(2), None);
    assert_eq!(creatures.index_of(CreatureId::new(99)), None);
    if let Some(creature) = creatures.get_mut(slow) {
        creature.set_health(1);
    }
    assert_eq!(creatures.get(slow).map(|c| c.get_health()), Some(1));
}

#[test]
fn healing_stops_at_maximum_and_damage_goes_below_zero() {
    let mut creature = Creature::new("orc", None, Some(13), 15);
    assert_eq!(creature.modify_health(-20), -5);
    assert!(creature.is_down());
    assert_eq!(creature.modify_health(3), -2);
    assert_eq!(creature.modify_health(50), 15);
    assert_eq!(creature.get_max_health(), 15);
}

#[test]
fn from_vec_assigns_identifiers_and_sorts() {
    let creatures = Creatures::from_vec(vec![
        Creature::new("b", Some(1), None, 5),
        Creature::new("a", Some(5), None, 5),
    ]);
    let names: Vec<String> = creatures.to_vec().into_iter().map(|c| c.name).collect();
    assert_eq!(names, vec!["a".to_string(), "b".to_string()]);
    assert_eq!(creatures.index_of(CreatureId::new(1)), Some(1));
}

#[test]
fn names_compare_without_letter_case() {
    let mut creatures = Creatures::default();
    creatures.add(Creature::new("Zed", Some(5), None, 7));
    creatures.add(Creature::new("adam", Some(5), None, 7));
    let names: Vec<&str> = creatures.iter().map(|c| c.name.as_str()).collect();
    assert_eq!(names, vec!["adam", "Zed"]);
}

#[test]
fn edit_trait_applies_and_undoes_a_health_change() {
    let mut creatures = Creatures::default();
    let id = creatures.add(Creature::new("ogre", Some(3), None, 10));
    let mut edit = CreatureEdit::AdjustHealth {
        changes: vec![HealthChange { id, before: 10, after: 4 }],
    };
    undo::Edit::edit(&mut edit, &mut creatures);
    assert_eq!(creatures.get(id).unwrap().get_health(), 4);
    undo::Edit::undo(&mut edit, &mut creatures);
    assert_eq!(creatures.get(id).unwrap().get_health(), 10);
    assert_eq!(creatures.len(), 1);
}

#[test]
fn creatures_equal_in_display_order_keep_their_order() {
    let mut first = Creature::new("Orc", Some(5), None, 10);
    first.id = CreatureId::new(7);
    let mut second = Creature::new("orc", Some(5), None, 10);
    second.id = CreatureId::new(7);
    second.modify_health(-3);
    let mut creatures = Creatures::from_vec(vec![first, second]);
    let listed = creatures.to_vec();
    assert_eq!(listed[0].get_health(), 10);
    assert_eq!(listed[1].get_health(), 7);
    creatures.sort();
    let again = creatures.to_vec();
    assert_eq!(again[0].get_health(), 10);
    assert_eq!(again[1].get_health(), 7);
}
