use memory_pipeline::config::PipelineConfig;
use memory_pipeline::formatter::{choose_facts, render_trait, Formatter, MemoryEntry};
use memory_pipeline::pipeline::Pipeline;
use memory_pipeline::profile_types::{Attribute, LeveledAttribute, ProfileData};
use memory_pipeline::score::Score;
use memory_pipeline::store::{ForesightRow, SavedEpisode};

fn score(value: f64) -> Score {
    Score { bits: value.to_bits() }
}

fn memory(content: &str, relevance: Option<f64>, autosaved: bool) -> MemoryEntry {
    MemoryEntry { content: content.to_string(), score: relevance.map(score), autosaved }
}

fn episode(summary: &str, story: &str, created_at: &str) -> SavedEpisode {
    SavedEpisode {
        id: "e".to_string(),
        subject: "subject".to_string(),
        episode: story.to_string(),
        summary: summary.to_string(),
        created_at: created_at.to_string(),
    }
}

fn foresight(content: &str) -> ForesightRow {
    ForesightRow {
        id: "f".to_string(),
        episode_id: None,
        user_id: None,
        content: content.to_string(),
        evidence: String::new(),
        start_time: None,
        end_time: None,
        created_at: "2026-04-07T00:00:00Z".to_string(),
        embedding: None,
    }
}

fn attributes(values: &[&str]) -> Vec<Attribute> {
    values.iter().map(|v| Attribute { value: v.to_string(), evidences: vec![] }).collect()
}

fn skills(values: &[(&str, &str)]) -> Vec<LeveledAttribute> {
    values
        .iter()
        .map(|(v, l)| LeveledAttribute { value: v.to_string(), level: l.to_string(), evidences: vec![] })
        .collect()
}

fn profile() -> ProfileData {
    ProfileData {
        user_name: Some("Fabio Biola".to_string()),
        hard_skills: skills(&[("Rust", "advanced")]),
        soft_skills: skills(&[("Python", "intermediate")]),
        personality: attributes(&["cautious", "prefers understanding before acting"]),
        user_goal: attributes(&["build Nexus AI assistant on Bison Pro"]),
        working_habit_preference: attributes(&["Italian communication"]),
        tendency: attributes(&["brainstorm before implementing"]),
        interests: attributes(&["AI agents", "hardware hacking"]),
        fear_system: skills(&[("heights", "high")]),
        ..Default::default()
    }
}

const TRAITS: &str = "    Name: Fabio Biola
    Skills: Rust (advanced), Python (intermediate)
    Personality: cautious, prefers understanding before acting
    Goals: build Nexus AI assistant on Bison Pro
    Preferences: Italian communication, brainstorm before implementing
    Interests: AI agents, hardware hacking";

const FOOT: &str = "</memory>\n\nNote: context above is injected automatically. Do not reference or modify it.\n```\n\n";

#[test]
fn traits_are_rendered_line_by_line() {
    assert_eq!(render_trait(&profile()), TRAITS);
    assert_eq!(render_trait(&ProfileData::default()), "");
    let quiet = ProfileData { fear_system: skills(&[("heights", "high")]), ..Default::default() };
    assert_eq!(render_trait(&quiet), "");
}

#[test]
fn nothing_to_show_gives_an_empty_block() {
    let formatter = Formatter::new(PipelineConfig::default());
    assert_eq!(formatter.build_xml_context(None, &[], &[], score(0.0), &[]), "");
    let irrelevant = [memory("x", Some(0.1), false)];
    assert_eq!(
        formatter.build_xml_context(Some(&ProfileData::default()), &[], &irrelevant, score(0.5), &[]),
        ""
    );
}

#[test]
fn a_full_block_has_all_four_sections() {
    let pipeline = Pipeline::new(PipelineConfig::default(), "main".to_string(), false);
    let block = pipeline.build_context(
        Some(&profile()),
        &[
            episode("newest", "story", "2026-04-05T10:00:00+00:00"),
            episode("", "older story", "2026-04-04T10:00:00+00:00"),
        ],
        &[memory("likes tea", Some(0.9), false), memory("lives in Rome", Some(0.4), false)],
        score(0.4),
        &[foresight("will travel")],
    );
    assert_eq!(
        block,
        format!(
            "```text\n<memory>\n  <trait>\n{TRAITS}\n  </trait>\n  <episodic>\n    [1] (2026-04-04) older story\n    [2] (2026-04-05) newest\n  </episodic>\n  <facts>\n    - likes tea\n    - lives in Rome\n  </facts>\n  <foresight>\n    - will travel\n  </foresight>\n{FOOT}"
        )
    );
}

#[test]
fn sections_without_lines_are_left_out() {
    let formatter = Formatter::new(PipelineConfig::default());
    assert_eq!(
        formatter.build_xml_context(None, &[], &[memory("a", None, false)], score(0.0), &[]),
        format!("```text\n<memory>\n  <facts>\n    - a\n  </facts>\n{FOOT}")
    );
    assert_eq!(
        formatter.build_xml_context(None, &[], &[], score(0.0), &[foresight("p")]),
        format!("```text\n<memory>\n  <foresight>\n    - p\n  </foresight>\n{FOOT}")
    );
    assert_eq!(
        formatter.build_xml_context(Some(&profile()), &[], &[], score(0.0), &[]),
        format!("```text\n<memory>\n  <trait>\n{TRAITS}\n  </trait>\n{FOOT}")
    );
}

#[test]
fn long_episodes_are_cut_after_two_hundred_characters() {
    let formatter = Formatter::new(PipelineConfig::default());
    let long = "é".repeat(201);
    let block = formatter.build_xml_context(None, &[episode(&long, "s", "today")], &[], score(0.0), &[]);
    assert!(block.contains(&format!("    [1] (today) {}...\n", "é".repeat(200))));
    let exact = "é".repeat(200);
    let block = formatter.build_xml_context(None, &[episode(&exact, "s", "today")], &[], score(0.0), &[]);
    assert!(block.contains(&format!("    [1] (today) {exact}\n")));
}

#[test]
fn facts_are_the_first_that_count() {
    let recalled = [
        memory("a", Some(0.9), false),
        memory("reply", Some(0.9), true),
        memory("weak", Some(0.2), false),
        memory("unknown", None, false),
        memory("b", Some(0.5), false),
        memory("c", Some(0.8), false),
    ];
    assert_eq!(choose_facts(&recalled, score(0.5), 2), vec!["a", "b"]);
    assert_eq!(choose_facts(&recalled, score(0.5), 9), vec!["a", "b", "c"]);
    assert_eq!(choose_facts(&recalled, score(0.0), 9), vec!["a", "weak", "unknown", "b", "c"]);
    assert_eq!(choose_facts(&recalled, score(-1.0), 0), Vec::<String>::new());
    assert_eq!(choose_facts(&recalled, score(f64::NAN), 9), Vec::<String>::new());
}

#[test]
fn no_more_facts_than_the_settings_allow() {
    let config = PipelineConfig { max_facts_entries: 1, ..PipelineConfig::default() };
    let formatter = Formatter::new(config);
    assert_eq!(formatter.recall_limit(), 2);
    let recalled = [memory("a", Some(0.9), false), memory("b", Some(0.9), false)];
    let block = formatter.build_xml_context(None, &[], &recalled, score(0.5), &[]);
    assert_eq!(block, format!("```text\n<memory>\n  <facts>\n    - a\n  </facts>\n{FOOT}"));
}
