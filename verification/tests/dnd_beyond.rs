use ttrpgtui::dnd_beyond::{
    auth_header, character_from_response, CharacterData, CharacterId, CharacterResponse, Class, ClassDefinition, Race,
};

fn hero(bonus: Option<i32>, override_hp: Option<i32>, armor_class: Option<i32>) -> CharacterData {
    CharacterData {
        name: "Example Hero".to_string(),
        base_hit_points: 42,
        bonus_hit_points: bonus,
        override_hit_points: override_hp,
        armor_class,
        race: None,
        classes: Vec::new(),
    }
}

#[test]
fn dnd_beyond_response_uses_reported_armor_class_only() {
    let mut data = hero(Some(3), None, None);
    data.race = Some(Race { full_name: "Human".to_string() });
    data.classes = vec![Class { level: 6, definition: ClassDefinition { name: "Fighter".to_string() } }];
    let response = CharacterResponse { success: true, data };

    let creature = response.data.into_creature();
    assert_eq!(creature.name, "Example Hero");
    assert_eq!(creature.get_max_health(), 45);
    assert_eq!(creature.ac, None);
    assert_eq!(creature.description, "Human Fighter 6");
}

#[test]
fn dnd_beyond_response_preserves_reported_armor_class_when_present() {
    let response = CharacterResponse { success: true, data: hero(None, Some(50), Some(17)) };

    let creature = response.data.into_creature();
    assert_eq!(creature.get_max_health(), 50);
    assert_eq!(creature.ac, Some(17));
}

#[test]
fn descriptions_join_classes_and_fall_back() {
    let mut data = hero(None, None, None);
    assert_eq!(data.description(), "D&D Beyond character");
    data.classes = vec![
        Class { level: 3, definition: ClassDefinition { name: "Rogue".to_string() } },
        Class { level: 2, definition: ClassDefinition { name: "Wizard".to_string() } },
    ];
    assert_eq!(data.description(), "Rogue 3 / Wizard 2");
    data.classes.clear();
    data.race = Some(Race { full_name: "Elf".to_string() });
    assert_eq!(data.description(), "Elf");
}

#[test]
fn unsuccessful_response_is_an_error() {
    let response = CharacterResponse { success: false, data: hero(None, None, None) };
    let result = character_from_response(CharacterId(7), response);
    assert_eq!(
        result.err(),
        Some("D&D Beyond returned an unsuccessful response for character 7".to_string())
    );
}

#[test]
fn hit_points_that_overflow_are_detected() {
    let data = hero(Some(i32::MAX), None, None);
    assert!(!data.hit_points_fit());
    assert!(hero(Some(3), None, None).hit_points_fit());
}

#[test]
fn authorization_header_prefers_the_whole_value_then_the_token_then_the_cookie() {
    assert_eq!(
        auth_header(Some("Basic abc".to_string()), Some("tok".to_string()), Some("c=1".to_string())),
        Some(("Authorization".to_string(), "Basic abc".to_string()))
    );
    assert_eq!(
        auth_header(None, Some("tok".to_string()), Some("c=1".to_string())),
        Some(("Authorization".to_string(), "Bearer tok".to_string()))
    );
    assert_eq!(
        auth_header(Some(String::new()), None, Some("c=1".to_string())),
        Some(("Cookie".to_string(), "c=1".to_string()))
    );
    assert_eq!(auth_header(None, Some(String::new()), None), None);
}
