use memory_pipeline::extractor::foresight::ForesightEntry;
use memory_pipeline::extractor::{AtomicFact, EpisodeData};
use memory_pipeline::score::Score;
use memory_pipeline::store::{
    choose_foresights, today, EventLogRow, ForesightDraft, ForesightRow, RowStamp, SavedEpisode,
};

fn score(value: f64) -> Option<Score> {
    Some(Score { bits: value.to_bits() })
}

fn row(id: &str, created_at: &str) -> ForesightRow {
    ForesightRow {
        id: id.to_string(),
        episode_id: None,
        user_id: Some("u1".to_string()),
        content: format!("content {id}"),
        evidence: String::new(),
        start_time: None,
        end_time: Some("2099-12-31".to_string()),
        created_at: created_at.to_string(),
        embedding: None,
    }
}

fn ids(rows: &[ForesightRow]) -> Vec<&str> {
    rows.iter().map(|r| r.id.as_str()).collect()
}

fn is_random_uuid(text: &str) -> bool {
    let chars: Vec<char> = text.chars().collect();
    chars.len() == 36
        && chars.iter().enumerate().all(|(i, c)| match i {
            8 | 13 | 18 | 23 => *c == '-',
            14 => *c == '4',
            19 => matches!(c, '8' | '9' | 'a' | 'b'),
            _ => matches!(c, '0'..='9' | 'a'..='f'),
        })
}

#[test]
fn test_get_active_foresights_by_similarity() {
    // Newest first: the distant one is more recent, but less relevant.
    let rows = [row("dist", "2026-04-07T01:00:00Z"), row("rel", "2026-04-07T00:00:00Z")];
    let results = choose_foresights(&rows, Some(vec![score(0.0), score(0.995)]), 2);
    assert_eq!(results.len(), 2);
    assert_eq!(results[0].id, "rel");
    assert_eq!(results[1].id, "dist");
}

#[test]
fn test_get_active_foresights_fallback_to_recency() {
    let rows = [row("new", "2026-04-07T01:00:00Z"), row("old", "2026-04-07T00:00:00Z")];
    let results = choose_foresights(&rows, None, 2);
    assert_eq!(results.len(), 2);
    assert_eq!(results[0].id, "new");
}

#[test]
fn predictions_without_a_similarity_come_last() {
    let rows = [row("none", "3"), row("low", "2"), row("high", "1")];
    let scores = vec![None, score(-0.5), score(0.9)];
    assert_eq!(ids(&choose_foresights(&rows, Some(scores), 9)), vec!["high", "low", "none"]);
}

#[test]
fn what_is_not_a_number_counts_as_no_similarity() {
    let rows = [row("nan", "3"), row("low", "2"), row("none", "1")];
    let scores = vec![score(f64::NAN), score(-0.5), None];
    assert_eq!(ids(&choose_foresights(&rows, Some(scores), 9)), vec!["low", "nan", "none"]);
}

#[test]
fn equal_similarities_keep_the_newest_first() {
    let rows = [row("a", "5"), row("b", "4"), row("c", "3"), row("d", "2"), row("e", "1")];
    let scores = vec![score(0.5), score(0.7), score(0.5), score(0.7), score(-0.0)];
    assert_eq!(ids(&choose_foresights(&rows, Some(scores), 9)), vec!["b", "d", "a", "c", "e"]);
}

#[test]
fn only_so_many_predictions_are_shown() {
    let rows = [row("a", "3"), row("b", "2"), row("c", "1")];
    assert_eq!(ids(&choose_foresights(&rows, None, 2)), vec!["a", "b"]);
    assert_eq!(ids(&choose_foresights(&rows, None, 0)), Vec::<&str>::new());
    let scores = vec![score(0.1), score(0.2), score(0.3)];
    assert_eq!(ids(&choose_foresights(&rows, Some(scores), 2)), vec!["c", "b"]);
    assert_eq!(ids(&choose_foresights(&[], Some(vec![]), 2)), Vec::<&str>::new());
}

#[test]
fn an_episode_is_saved_with_an_identifier_and_a_time() {
    let data = EpisodeData {
        subject: "a".to_string(),
        episode: "b".to_string(),
        summary: "c".to_string(),
    };
    let saved = SavedEpisode::stamped(&data);
    assert!(is_random_uuid(&saved.id));
    assert_eq!(saved.subject, "a");
    assert_eq!(saved.episode, "b");
    assert_eq!(saved.summary, "c");
    assert!(chrono::DateTime::parse_from_rfc3339(&saved.created_at).is_ok());
    let copy = saved.clone();
    assert_eq!(copy.id, saved.id);
    assert_eq!(copy.created_at, saved.created_at);
}

#[test]
fn missing_columns_are_read_as_empty() {
    let saved = SavedEpisode::from_columns("e1".to_string(), None, None, "story".to_string(), None);
    assert_eq!(saved.id, "e1");
    assert_eq!(saved.subject, "");
    assert_eq!(saved.summary, "");
    assert_eq!(saved.episode, "story");
    assert_eq!(saved.created_at, "");
    let saved = SavedEpisode::from_columns(
        "e1".to_string(),
        Some("subject".to_string()),
        Some("summary".to_string()),
        "story".to_string(),
        Some("now".to_string()),
    );
    assert_eq!((saved.subject.as_str(), saved.summary.as_str(), saved.created_at.as_str()), ("subject", "summary", "now"));
}

#[test]
fn facts_share_the_time_of_their_episode() {
    let facts = [
        AtomicFact { fact: "f1".to_string(), time: None },
        AtomicFact { fact: "f2".to_string(), time: Some("yesterday".to_string()) },
    ];
    let rows = EventLogRow::stamped("e1", &facts);
    assert_eq!(rows.len(), 2);
    assert!(rows.iter().all(|r| is_random_uuid(&r.id) && r.episode_id == "e1"));
    assert_ne!(rows[0].id, rows[1].id);
    assert_eq!(rows[0].created_at, rows[1].created_at);
    assert_eq!(rows[0].atomic_fact, "f1");
    assert_eq!(rows[0].time_ref, None);
    assert_eq!(rows[1].atomic_fact, "f2");
    assert_eq!(rows[1].time_ref.as_deref(), Some("yesterday"));
}

#[test]
fn test_save_foresight_with_embedding() {
    let drafts = [ForesightDraft {
        episode_id: "e1".to_string(),
        user_id: "u1".to_string(),
        entry: ForesightEntry {
            content: "user will code tomorrow".to_string(),
            evidence: "user mentioned coding plans".to_string(),
            start_time: None,
            end_time: Some("2099-12-31".to_string()),
        },
        embedding: Some(vec![1, 2, 3]),
    }];
    let rows = ForesightRow::stamped(&drafts);
    assert_eq!(rows.len(), 1);
    assert!(is_random_uuid(&rows[0].id));
    assert_eq!(rows[0].episode_id.as_deref(), Some("e1"));
    assert_eq!(rows[0].user_id.as_deref(), Some("u1"));
    assert_eq!(rows[0].content, "user will code tomorrow");
    assert_eq!(rows[0].evidence, "user mentioned coding plans");
    assert_eq!(rows[0].start_time, None);
    assert_eq!(rows[0].end_time.as_deref(), Some("2099-12-31"));
    assert_eq!(rows[0].embedding, Some(vec![1, 2, 3]));
    assert_eq!(rows[0].clone().embedding, Some(vec![1, 2, 3]));
    assert!(chrono::DateTime::parse_from_rfc3339(&rows[0].created_at).is_ok());
}

#[test]
fn test_save_foresight_without_embedding() {
    let drafts = [ForesightDraft {
        episode_id: "e1".to_string(),
        user_id: "u1".to_string(),
        entry: ForesightEntry {
            content: "user will rest".to_string(),
            evidence: "user mentioned rest".to_string(),
            start_time: None,
            end_time: Some("2099-12-31".to_string()),
        },
        embedding: None,
    }];
    let rows = ForesightRow::stamped(&drafts);
    assert_eq!(rows[0].content, "user will rest");
    assert_eq!(rows[0].embedding, None);
}

#[test]
fn the_day_is_written_as_year_month_and_day() {
    let before = chrono::Utc::now().format("%Y-%m-%d").to_string();
    let day = today();
    let after = chrono::Utc::now().format("%Y-%m-%d").to_string();
    assert!(day == before || day == after);
    assert_eq!(day.len(), 10);
}

#[test]
fn stamps_are_fresh() {
    let first = RowStamp::fresh();
    let second = RowStamp::fresh();
    assert!(is_random_uuid(&first.id));
    assert_ne!(first.id, second.id);
    assert!(chrono::DateTime::parse_from_rfc3339(&first.now).is_ok());
}
