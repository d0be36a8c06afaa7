use ttrpgtui::models::creature::{Creature, Creatures};
use ttrpgtui::storage::{
    campaign_config_path, deslugify, encounter_from_creatures, encounter_name, is_encounter_file, manifest_from_dir, session_dir_base,
    sessions_root, slugify, sort_encounters, sort_sessions, unique_dir_name, unique_file_name, unique_name,
    validate_name, CampaignCreaturePreset, EncounterInfo, SessionInfo,
};
use std::path::{Path, PathBuf};

fn session(dir_name: &str, date: &str, name: &str) -> SessionInfo {
    SessionInfo {
        dir_name: dir_name.to_string(),
        path: PathBuf::from(dir_name),
        date: date.to_string(),
        name: name.to_string(),
    }
}

fn encounter(file_name: &str, name: &str) -> EncounterInfo {
    EncounterInfo { file_name: file_name.to_string(), path: PathBuf::from(file_name), name: name.to_string() }
}

#[test]
fn slugs_keep_letters_and_digits_and_collapse_the_rest() {
    assert_eq!(slugify("Friday Night"), "friday-night");
    assert_eq!(slugify("  Goblin   Ambush!! "), "goblin-ambush");
    assert_eq!(slugify("--Room #3--"), "room-3");
    assert_eq!(slugify("???"), "untitled");
    assert_eq!(slugify(""), "untitled");
}

#[test]
fn deslugified_names_are_capitalized_words() {
    assert_eq!(deslugify("goblin-ambush"), "Goblin Ambush");
    assert_eq!(deslugify("friday_night--one"), "Friday Night One");
    assert_eq!(deslugify("---"), "");
}

#[test]
fn folder_names_without_manifest_give_date_and_name() {
    let manifest = manifest_from_dir("2024-05-01_friday-night");
    assert_eq!(manifest.date, "2024-05-01");
    assert_eq!(manifest.name, "Friday Night");
    let manifest = manifest_from_dir("loose-notes");
    assert_eq!(manifest.date, "unknown-date");
    assert_eq!(manifest.name, "Loose Notes");
}

#[test]
fn names_are_trimmed_and_required() {
    assert_eq!(validate_name("  Goblin Ambush ", "encounter name"), Ok("Goblin Ambush".to_string()));
    assert_eq!(validate_name("   ", "session name"), Err("session name is required".to_string()));
}

#[test]
fn unique_names_count_up_before_the_extension() {
    let taken = vec!["goblin.ron".to_string(), "goblin-2.ron".to_string()];
    assert_eq!(unique_name("goblin.ron", &taken), "goblin-3.ron");
    assert_eq!(unique_name("orc.ron", &taken), "orc.ron");
    assert_eq!(unique_file_name("goblin", "ron", &taken), "goblin-3.ron");
    let dirs = vec!["2024-05-01_friday".to_string()];
    assert_eq!(unique_dir_name("2024-05-01_friday", &dirs), "2024-05-01_friday-2");
    assert_eq!(session_dir_base("2024-05-01", "Friday!"), "2024-05-01_friday");
}

#[test]
fn sessions_list_latest_first_then_by_name() {
    let sorted = sort_sessions(vec![
        session("a", "2024-01-01", "Zed"),
        session("b", "2024-03-01", "beta"),
        session("c", "2024-03-01", "Alpha"),
        session("d", "2024-03-01", "alpha"),
    ]);
    let dirs: Vec<&str> = sorted.iter().map(|s| s.dir_name.as_str()).collect();
    assert_eq!(dirs, vec!["c", "d", "b", "a"]);
}

#[test]
fn encounters_list_by_name_then_file() {
    let sorted = sort_encounters(vec![
        encounter("z.ron", "ambush"),
        encounter("b.ron", "Camp"),
        encounter("a.ron", "Ambush"),
    ]);
    let files: Vec<&str> = sorted.iter().map(|e| e.file_name.as_str()).collect();
    assert_eq!(files, vec!["a.ron", "z.ron", "b.ron"]);
}

#[test]
fn saved_encounter_copies_creatures_in_order() {
    let mut creatures = Creatures::default();
    creatures.add(Creature::new("goblin", Some(12), Some(15), 7));
    creatures.add(Creature::new("boss", Some(20), Some(17), 30));
    let saved = encounter_from_creatures("Goblin Ambush".to_string(), &creatures);
    assert_eq!(saved.name, "Goblin Ambush");
    assert_eq!(saved.creatures[0].name, "boss");
    assert_eq!(saved.creatures[1].name, "goblin");
}

#[test]
fn campaign_presets_become_creatures_without_initiative() {
    let creature = Creature::from(CampaignCreaturePreset {
        name: "Mira".to_string(),
        health: 24,
        ac: Some(16),
        description: "party cleric".to_string(),
    });
    assert_eq!(creature.name, "Mira");
    assert_eq!(creature.get_health(), 24);
    assert_eq!(creature.get_max_health(), 24);
    assert_eq!(creature.ac, Some(16));
    assert_eq!(creature.initiative, None);
    assert_eq!(creature.description, "party cleric");
}

#[test]
fn data_paths_are_joined_below_the_data_folder() {
    let data = Path::new("data");
    assert_eq!(sessions_root(data), Path::new("data").join("sessions"));
    assert_eq!(campaign_config_path(data), Path::new("data").join("campaign.ron"));
}

#[test]
fn listing_order_ignores_letter_case() {
    let sorted = sort_encounters(vec![encounter("z.ron", "Zulu"), encounter("a.ron", "alpha")]);
    let names: Vec<&str> = sorted.iter().map(|e| e.name.as_str()).collect();
    assert_eq!(names, vec!["alpha", "Zulu"]);
}

#[test]
fn only_ron_files_other_than_the_manifest_are_encounters() {
    assert!(is_encounter_file("ambush.ron", true));
    assert!(!is_encounter_file("ambush.ron", false));
    assert!(!is_encounter_file("session.ron", true));
    assert!(!is_encounter_file(".ron", true));
    assert!(!is_encounter_file("notes.txt", true));
    assert!(is_encounter_file("a.b.ron", true));
}

#[test]
fn encounters_without_a_readable_name_are_named_after_their_file() {
    assert_eq!(encounter_name("goblin-ambush.ron", None), "Goblin Ambush");
    assert_eq!(encounter_name("goblin-ambush.ron", Some("Saved".to_string())), "Saved");
}

#[test]
fn encounters_that_tie_keep_their_order() {
    let first = EncounterInfo { file_name: "a.ron".to_string(), path: PathBuf::from("one/a.ron"), name: "Ambush".to_string() };
    let second = EncounterInfo { file_name: "a.ron".to_string(), path: PathBuf::from("two/a.ron"), name: "ambush".to_string() };
    let sorted = sort_encounters(vec![first, second]);
    assert_eq!(sorted[0].path, PathBuf::from("one/a.ron"));
    assert_eq!(sorted[1].path, PathBuf::from("two/a.ron"));
    let again = sort_encounters(vec![sorted[1].clone(), sorted[0].clone()]);
    assert_eq!(again[0].path, PathBuf::from("two/a.ron"));
}

#[test]
fn names_are_trimmed_of_all_unicode_whitespace() {
    assert_eq!(validate_name("\u{3000}\u{a0} Goblins\t\u{85}\u{2029}", "name"), Ok("Goblins".to_string()));
    assert_eq!(validate_name("\u{2003}\u{205f}", "name"), Err("name is required".to_string()));
}
