//! Asking for the profile of a user.

use vstd::prelude::*;
use vstd::string::*;

use crate::chat::{ChatQuery, ChatQueryView};
use crate::prompts;
use crate::store::{SavedEpisode, SavedEpisodeView};
use crate::text;

verus! {

/// An episode as it stands in the prompt.
pub open spec fn episode_text(episode: SavedEpisodeView) -> Seq<char> {
    "[Episode "@ + episode.id + "] ("@ + episode.created_at + ")\nSubject: "@ + episode.subject
        + "\n"@ + episode.episode + "\n"@
}

/// The episodes as they stand in the prompt, with a rule between.
pub open spec fn episodes_text(episodes: Seq<SavedEpisodeView>) -> Seq<char> {
    text::joined(
        Seq::new(episodes.len(), |i: int| episode_text(episodes[i])),
        "\n---\n"@,
    )
}

/// The question for the profile, from the current one as JSON and recent episodes.
pub open spec fn profile_query(
    model: Seq<char>,
    current_json: Seq<char>,
    recent_episodes: Seq<SavedEpisodeView>,
    prompt_language: Seq<char>,
) -> ChatQueryView {
    ChatQueryView {
        model,
        system: Some(
            "You are a user profile extraction engine. Analyze episodes and extract structured attributes."@,
        ),
        user: text::replaced(
            text::replaced(
                prompts::profile_prompt(prompt_language),
                "{current_profile_json}"@,
                current_json,
            ),
            "{recent_episodes}"@,
            episodes_text(recent_episodes),
        ),
    }
}

fn render_episode(episode: &SavedEpisode) -> (result: String)
    ensures
        result@ == episode_text(episode@),
{
    let mut result: String = String::from_str("[Episode ");
    result.append(&episode.id);
    result.append("] (");
    result.append(&episode.created_at);
    result.append(")\nSubject: ");
    result.append(&episode.subject);
    result.append("\n");
    result.append(&episode.episode);
    result.append("\n");
    result
}

/// Renders episodes for the prompt, with a rule between.
pub fn render_episodes(episodes: &[SavedEpisode]) -> (result: String)
    ensures
        result@ == episodes_text(text::views(episodes@)),
{
    let mut parts: Vec<String> = Vec::new();
    let ghost seen = text::views(episodes@);
    let ghost all = Seq::new(seen.len(), |i: int| episode_text(seen[i]));
    for i in 0..episodes.len()
        invariant
            seen == text::views(episodes@),
            all == Seq::new(seen.len(), |i: int| episode_text(seen[i])),
            parts.len() == i,
            forall|k: int| 0 <= k < i ==> (#[trigger] parts@[k])@ == all[k],
    {
        parts.push(render_episode(&episodes[i]));
    }
    assert(text::views(parts@) =~= all);
    text::join(&parts, "\n---\n")
}

/// Starts an extraction: the question for the profile, from the current one as JSON and recent
/// episodes.
pub fn extract(
    model: String,
    current_json: &str,
    recent_episodes: &[SavedEpisode],
    prompt_language: &str,
) -> (query: ChatQuery)
    ensures
        query@ == profile_query(
            model@,
            current_json@,
            text::views(recent_episodes@),
            prompt_language@,
        ),
{
    let template: &'static str = prompts::choose_profile_prompt(prompt_language);
    let rendered: String = render_episodes(recent_episodes);
    proof {
        reveal_strlit("{current_profile_json}");
        reveal_strlit("{recent_episodes}");
    }
    let with_profile: String = text::replace(template, "{current_profile_json}", current_json);
    ChatQuery {
        model,
        system: Some(
            String::from_str(
                "You are a user profile extraction engine. Analyze episodes and extract structured attributes.",
            ),
        ),
        user: text::replace(&with_profile, "{recent_episodes}", &rendered),
    }
}

} // verus!
