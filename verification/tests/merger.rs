use memory_pipeline::merger::{merge_attributes, merge_leveled, merge_profiles, MAX_EVIDENCES};
use memory_pipeline::profile_types::{level_rank, Attribute, LeveledAttribute, ProfileData};

fn leveled(value: &str, level: &str, evidences: &[&str]) -> LeveledAttribute {
    LeveledAttribute {
        value: value.to_string(),
        level: level.to_string(),
        evidences: evidences.iter().map(|e| e.to_string()).collect(),
    }
}

fn plain(value: &str, evidences: &[&str]) -> Attribute {
    Attribute {
        value: value.to_string(),
        evidences: evidences.iter().map(|e| e.to_string()).collect(),
    }
}

fn numbered(from: usize, to: usize) -> Vec<String> {
    (from..to).map(|i| format!("ep_{i}")).collect()
}

#[test]
fn test_merge_leveled_keeps_highest_level() {
    let existing = vec![LeveledAttribute {
        value: "Rust".into(),
        level: "intermediate".into(),
        evidences: vec!["ep_1".into()],
    }];
    let incoming = vec![LeveledAttribute {
        value: "Rust".into(),
        level: "advanced".into(),
        evidences: vec!["ep_5".into()],
    }];
    let merged = merge_leveled(&existing, &incoming);
    assert_eq!(merged.len(), 1);
    assert_eq!(merged[0].level, "advanced");
    assert_eq!(merged[0].evidences, vec!["ep_1", "ep_5"]);
}

#[test]
fn test_merge_leveled_does_not_downgrade() {
    let existing = vec![LeveledAttribute {
        value: "Rust".into(),
        level: "expert".into(),
        evidences: vec!["ep_1".into()],
    }];
    let incoming = vec![LeveledAttribute {
        value: "Rust".into(),
        level: "beginner".into(),
        evidences: vec!["ep_5".into()],
    }];
    let merged = merge_leveled(&existing, &incoming);
    assert_eq!(merged[0].level, "expert");
}

#[test]
fn test_merge_adds_new_attributes() {
    let existing = vec![Attribute {
        value: "AI agents".into(),
        evidences: vec![],
    }];
    let incoming = vec![Attribute {
        value: "hardware hacking".into(),
        evidences: vec!["ep_3".into()],
    }];
    let merged = merge_attributes(&existing, &incoming);
    assert_eq!(merged.len(), 2);
}

#[test]
fn test_evidence_truncation() {
    let existing = vec![Attribute {
        value: "test".into(),
        evidences: (0..8).map(|i| format!("ep_{i}")).collect(),
    }];
    let incoming = vec![Attribute {
        value: "test".into(),
        evidences: (8..15).map(|i| format!("ep_{i}")).collect(),
    }];
    let merged = merge_attributes(&existing, &incoming);
    assert_eq!(merged[0].evidences.len(), MAX_EVIDENCES);
    // Should keep most recent (last 10)
    assert_eq!(merged[0].evidences[0], "ep_5");
}

#[test]
fn test_merge_profiles_preserves_user_name() {
    let existing = ProfileData {
        user_name: Some("Fabio".into()),
        ..Default::default()
    };
    let incoming = ProfileData::default();
    let merged = merge_profiles(&existing, &incoming);
    assert_eq!(merged.user_name, Some("Fabio".into()));
}

#[test]
fn a_new_name_replaces_the_old_one() {
    let existing = ProfileData { user_name: Some("Ada".into()), ..Default::default() };
    let incoming = ProfileData { user_name: Some("Grace".into()), ..Default::default() };
    assert_eq!(merge_profiles(&existing, &incoming).user_name, Some("Grace".into()));
}

#[test]
fn ten_evidences_stay_as_they_are() {
    let existing = vec![LeveledAttribute {
        value: "Go".into(),
        level: "low".into(),
        evidences: numbered(0, 6),
    }];
    let incoming = vec![LeveledAttribute {
        value: "Go".into(),
        level: "low".into(),
        evidences: numbered(6, 10),
    }];
    assert_eq!(merge_leveled(&existing, &incoming)[0].evidences, numbered(0, 10));
    let more = vec![leveled("Go", "low", &["ep_10"])];
    let merged = merge_leveled(&merge_leveled(&existing, &incoming), &more);
    assert_eq!(merged[0].evidences, numbered(1, 11));
}

#[test]
fn attributes_of_one_list_alone_keep_their_last_ten_evidences() {
    let many = vec![Attribute { value: "chess".into(), evidences: numbered(0, 12) }];
    assert_eq!(merge_attributes(&[], &many)[0].evidences, numbered(2, 12));
    assert_eq!(merge_attributes(&many, &[])[0].evidences, numbered(2, 12));
    assert_eq!(merge_attributes(&many, &[plain("tea", &[])])[0].evidences, numbered(2, 12));
    let skill = |evidences: Vec<String>| {
        vec![LeveledAttribute { value: "Go".into(), level: "low".into(), evidences }]
    };
    assert_eq!(merge_leveled(&[], &skill(numbered(0, 11)))[0].evidences, numbered(1, 11));
    assert_eq!(merge_leveled(&skill(numbered(0, 11)), &[])[0].evidences, numbered(1, 11));
    assert_eq!(merge_leveled(&[], &skill(numbered(0, 10)))[0].evidences, numbered(0, 10));
    let profile = ProfileData { interests: many, ..Default::default() };
    let merged = merge_profiles(&ProfileData::default(), &profile);
    assert_eq!(merged.interests[0].evidences, numbered(2, 12));
}

#[test]
fn the_most_recent_of_all_given_evidences_are_kept() {
    let list = |from: usize, to: usize| Attribute { value: "a".into(), evidences: numbered(from, to) };
    let merged = merge_attributes(&[list(0, 14)], &[list(14, 17), list(17, 19)]);
    assert_eq!(merged.len(), 1);
    assert_eq!(merged[0].evidences, numbered(9, 19));
}

#[test]
fn three_profiles_merge_in_either_grouping() {
    let profile = |level: &str, from: usize| ProfileData {
        hard_skills: vec![LeveledAttribute {
            value: "Rust".into(),
            level: level.into(),
            evidences: numbered(from, from + 5),
        }],
        interests: vec![Attribute { value: format!("i{from}"), evidences: numbered(0, 12) }],
        ..Default::default()
    };
    let (a, b, c) = (profile("low", 0), profile("high", 5), profile("moderate", 10));
    let left = merge_profiles(&merge_profiles(&a, &b), &c);
    let right = merge_profiles(&a, &merge_profiles(&b, &c));
    assert_eq!(left.hard_skills, right.hard_skills);
    assert_eq!(left.interests, right.interests);
    assert_eq!(left.hard_skills[0].level, "high");
    assert_eq!(left.hard_skills[0].evidences, numbered(5, 15));
    assert_eq!(left.interests.len(), 3);
}

#[test]
fn only_the_first_of_equal_values_is_extended() {
    let existing = vec![plain("tea", &["a"]), plain("tea", &["b"])];
    let merged = merge_attributes(&existing, &[plain("tea", &["c"])]);
    assert_eq!(merged, vec![plain("tea", &["a", "c"]), plain("tea", &["b"])]);
}

#[test]
fn repeated_incoming_values_are_merged_with_one_another() {
    let merged = merge_leveled(
        &[],
        &[leveled("Rust", "beginner", &["a"]), leveled("Rust", "Expert", &["b"])],
    );
    assert_eq!(merged, vec![leveled("Rust", "Expert", &["a", "b"])]);
}

#[test]
fn equal_ranks_keep_the_old_wording() {
    let merged = merge_leveled(&[leveled("Rust", "high", &[])], &[leveled("Rust", "advanced", &[])]);
    assert_eq!(merged[0].level, "high");
}

#[test]
fn merging_in_turns_is_merging_at_once() {
    let existing = vec![plain("a", &["1"]), plain("b", &["2"])];
    let first = vec![plain("b", &["3"]), plain("c", &["4"])];
    let second = vec![plain("c", &["5"]), plain("a", &["6"])];
    let both = vec![plain("b", &["3"]), plain("c", &["4"]), plain("c", &["5"]), plain("a", &["6"])];
    assert_eq!(
        merge_attributes(&merge_attributes(&existing, &first), &second),
        merge_attributes(&existing, &both)
    );
    let levels = vec![leveled("x", "low", &["1"])];
    let rise = vec![leveled("x", "high", &["2"])];
    let fall = vec![leveled("x", "moderate", &["3"])];
    let rise_and_fall = vec![leveled("x", "high", &["2"]), leveled("x", "moderate", &["3"])];
    assert_eq!(
        merge_leveled(&merge_leveled(&levels, &rise), &fall),
        merge_leveled(&levels, &rise_and_fall)
    );
}

#[test]
fn merging_nothing_changes_nothing() {
    let existing = vec![leveled("a", "low", &["1"]), leveled("b", "high", &[])];
    assert_eq!(merge_leveled(&existing, &[]), existing);
    let attributes = vec![plain("a", &["1"])];
    assert_eq!(merge_attributes(&attributes, &[]), attributes);
}

#[test]
fn the_first_profile_is_taken_over() {
    let incoming = ProfileData {
        user_name: Some("Ada".into()),
        hard_skills: vec![leveled("Rust", "expert", &["1"])],
        tendency: vec![plain("brief", &["2"])],
        ..Default::default()
    };
    let merged = merge_profiles(&ProfileData::default(), &incoming);
    assert_eq!(merged.user_name, incoming.user_name);
    assert_eq!(merged.hard_skills, incoming.hard_skills);
    assert_eq!(merged.tendency, incoming.tendency);
    assert!(merged.interests.is_empty());
}

#[test]
fn every_list_of_a_profile_is_merged_with_its_own() {
    let one = |value: &str| vec![leveled(value, "low", &[])];
    let list = |value: &str| vec![plain(value, &[])];
    let incoming = ProfileData {
        user_name: None,
        hard_skills: one("hard"),
        soft_skills: one("soft"),
        motivation_system: one("motivation"),
        fear_system: one("fear"),
        value_system: one("value"),
        humor_use: one("humor"),
        colloquialism: one("colloquial"),
        personality: list("personality"),
        way_of_decision_making: list("decision"),
        interests: list("interest"),
        user_goal: list("goal"),
        work_responsibility: list("work"),
        working_habit_preference: list("habit"),
        tendency: list("tendency"),
    };
    let merged = merge_profiles(&ProfileData::default(), &incoming);
    assert_eq!(merged.hard_skills, one("hard"));
    assert_eq!(merged.soft_skills, one("soft"));
    assert_eq!(merged.motivation_system, one("motivation"));
    assert_eq!(merged.fear_system, one("fear"));
    assert_eq!(merged.value_system, one("value"));
    assert_eq!(merged.humor_use, one("humor"));
    assert_eq!(merged.colloquialism, one("colloquial"));
    assert_eq!(merged.personality, list("personality"));
    assert_eq!(merged.way_of_decision_making, list("decision"));
    assert_eq!(merged.interests, list("interest"));
    assert_eq!(merged.user_goal, list("goal"));
    assert_eq!(merged.work_responsibility, list("work"));
    assert_eq!(merged.working_habit_preference, list("habit"));
    assert_eq!(merged.tendency, list("tendency"));
}

#[test]
fn level_words_are_ranked_whatever_their_case() {
    assert_eq!(level_rank("beginner"), 0);
    assert_eq!(level_rank("LOW"), 0);
    assert_eq!(level_rank("Moderate"), 1);
    assert_eq!(level_rank("intermediate"), 1);
    assert_eq!(level_rank("HIGH"), 2);
    assert_eq!(level_rank("advanced"), 2);
    assert_eq!(level_rank("Very_High"), 3);
    assert_eq!(level_rank("eXPERT"), 3);
    assert_eq!(level_rank("wizard"), 0);
    assert_eq!(level_rank(""), 0);
    assert_eq!(level_rank("é"), 0);
    // The Kelvin sign becomes a small `k`, which makes no level of this word.
    assert_eq!(level_rank("\u{212A}"), 0);
}

#[test]
fn copies_of_a_profile_hold_the_same() {
    let profile = ProfileData {
        user_name: Some("Ada".into()),
        soft_skills: vec![leveled("patience", "high", &["1", "2"])],
        interests: vec![plain("music", &["3"])],
        ..Default::default()
    };
    let copy = profile.clone();
    assert_eq!(copy.user_name, profile.user_name);
    assert_eq!(copy.soft_skills, profile.soft_skills);
    assert_eq!(copy.interests, profile.interests);
}
