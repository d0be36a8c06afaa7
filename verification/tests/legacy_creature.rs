use ttrpgtui::creature::{Creature, Creatures};

#[test]
fn creature_iter_returns_creatures_in_descending_initiative_order_without_consuming() {
    let mut creatures = Creatures::default();
    creatures.add(Creature {
        name: "slow".into(),
        initiative: 3,
        ac: 12,
    });
    creatures.add(Creature {
        name: "fast".into(),
        initiative: 18,
        ac: 15,
    });
    creatures.add(Creature {
        name: "middle".into(),
        initiative: 10,
        ac: 13,
    });

    let names: Vec<&str> = creatures
        .iter()
        .map(|creature| creature.name.as_str())
        .collect();
    assert_eq!(names, vec!["fast", "middle", "slow"]);

    let names_after_iterating: Vec<&str> = (&creatures)
        .into_iter()
        .map(|creature| creature.name.as_str())
        .collect();
    assert_eq!(names_after_iterating, vec!["fast", "middle", "slow"]);
}

#[test]
fn equal_initiative_keeps_the_order_of_adding() {
    let mut creatures = Creatures::default();
    creatures.add(Creature { name: "first".into(), initiative: 7, ac: 10 });
    creatures.add(Creature { name: "second".into(), initiative: 7, ac: 11 });
    creatures.add(Creature { name: "top".into(), initiative: 9, ac: 12 });
    let names: Vec<&str> = creatures.iter().map(|c| c.name.as_str()).collect();
    assert_eq!(names, vec!["top", "first", "second"]);
    let empty = Creature::default();
    assert_eq!(empty.initiative, 0);
}
