//! What holds of every block of memories.

use vstd::prelude::*;

use crate::formatter;
use crate::formatter::MemoryEntryView;
use crate::profile_types::{AttributeView, LeveledAttributeView, ProfileView};
use crate::score::Score;
use crate::store::{ForesightRowView, SavedEpisodeView};
use crate::text;
use crate::text_laws;

verus! {

/// The block is empty exactly where there is nothing to show; any other block stands between its
/// head and its foot.
pub proof fn block_is_empty_or_framed(
    traits: Seq<char>,
    episodes: Seq<SavedEpisodeView>,
    facts: Seq<Seq<char>>,
    foresights: Seq<ForesightRowView>,
)
    ensures
        ({
            let block = formatter::memory_block(traits, episodes, facts, foresights);
            let nothing = traits.len() == 0 && episodes.len() == 0 && facts.len() == 0
                && foresights.len() == 0;
            &&& block.len() == 0 <==> nothing
            &&& !nothing ==> formatter::block_head().is_prefix_of(block)
            &&& !nothing ==> formatter::block_foot().is_suffix_of(block)
        }),
{
    reveal_strlit("```text\n<memory>\n");
    let block = formatter::memory_block(traits, episodes, facts, foresights);
    let head = formatter::block_head();
    let foot = formatter::block_foot();
    if !(traits.len() == 0 && episodes.len() == 0 && facts.len() == 0 && foresights.len() == 0) {
        assert(block.take(head.len() as int) =~= head);
        assert(block.skip(block.len() - foot.len()) =~= foot);
        assert(head =~= block.subrange(0, head.len() as int));
        assert(foot =~= block.subrange(block.len() - foot.len(), block.len() as int));
    }
}

/// A section stands in the block only where it has something to show.
pub proof fn empty_sections_are_left_out(
    episodes: Seq<SavedEpisodeView>,
    facts: Seq<Seq<char>>,
)
    requires
        episodes.len() > 0 || facts.len() > 0,
    ensures
        formatter::memory_block(Seq::empty(), episodes, facts, Seq::empty())
            == formatter::block_head() + formatter::section(
            "  <episodic>\n"@,
            formatter::episode_lines(episodes),
            "  </episodic>\n"@,
        ) + formatter::section("  <facts>\n"@, formatter::item_lines(facts), "  </facts>\n"@)
            + formatter::block_foot(),
        formatter::section("  <episodic>\n"@, formatter::episode_lines(Seq::empty()), "  </episodic>\n"@)
            == Seq::<char>::empty(),
        formatter::section("  <facts>\n"@, formatter::item_lines(Seq::empty()), "  </facts>\n"@)
            == Seq::<char>::empty(),
{
    let head = formatter::block_head();
    assert(head + Seq::<char>::empty() =~= head);
    let body = head + formatter::section(
        "  <episodic>\n"@,
        formatter::episode_lines(episodes),
        "  </episodic>\n"@,
    ) + formatter::section("  <facts>\n"@, formatter::item_lines(facts), "  </facts>\n"@);
    assert(body + Seq::<char>::empty() =~= body);
}

/// The facts shown are the first of the recalled memories that count, in their order and no more
/// than the limit.
pub proof fn facts_are_the_first_that_count(
    entries: Seq<MemoryEntryView>,
    min_relevance: Score,
    limit: nat,
)
    ensures
        ({
            let counting = entries.filter(
                |entry: MemoryEntryView| formatter::counts(entry, min_relevance),
            );
            let facts = formatter::shown_facts(entries, min_relevance, limit);
            &&& facts.len() == if counting.len() < limit {
                counting.len()
            } else {
                limit
            }
            &&& forall|i: int| 0 <= i < facts.len() ==> #[trigger] facts[i] == counting[i].content
        }),
    decreases entries.len(),
{
    reveal(Seq::filter);
    if entries.len() > 0 {
        facts_are_the_first_that_count(entries.drop_last(), min_relevance, limit);
    }
}

/// No more than the limit, and an ellipsis, is shown of an episode.
pub proof fn gist_is_short(episode: SavedEpisodeView)
    ensures
        formatter::episode_gist(episode).len() <= formatter::EPISODE_CHARS + 3,
        episode.summary.len() > 0 && episode.summary.len() <= formatter::EPISODE_CHARS
            ==> formatter::episode_gist(episode) == episode.summary,
{
    reveal_strlit("...");
}

/// The traits are empty exactly where none of the shown attributes is known.
pub proof fn traits_are_empty_without_attributes(profile: ProfileView)
    ensures
        formatter::trait_text(profile).len() == 0 <==> {
            &&& profile.user_name is None
            &&& profile.hard_skills.len() == 0
            &&& profile.soft_skills.len() == 0
            &&& profile.personality.len() == 0
            &&& profile.user_goal.len() == 0
            &&& profile.working_habit_preference.len() == 0
            &&& profile.tendency.len() == 0
            &&& profile.interests.len() == 0
        },
{
    reveal_strlit("    ");
    let lines = formatter::trait_lines(profile);
    assert forall|i: int| 0 <= i < lines.len() implies (#[trigger] lines[i]).len() > 0 by {
        line_is_not_empty("Name"@, formatter::names(profile));
        line_is_not_empty(
            "Skills"@,
            formatter::skills(profile.hard_skills) + formatter::skills(profile.soft_skills),
        );
        line_is_not_empty("Personality"@, formatter::plain_values(profile.personality));
        line_is_not_empty("Goals"@, formatter::plain_values(profile.user_goal));
        line_is_not_empty(
            "Preferences"@,
            formatter::plain_values(profile.working_habit_preference) + formatter::plain_values(
                profile.tendency,
            ),
        );
        line_is_not_empty("Interests"@, formatter::plain_values(profile.interests));
    }
    if lines.len() > 0 {
        assert(lines[0].len() > 0);
    }
}

proof fn line_is_not_empty(label: Seq<char>, items: Seq<Seq<char>>)
    ensures
        forall|i: int|
            0 <= i < formatter::labelled(label, items).len() ==> (#[trigger] formatter::labelled(
                label,
                items,
            )[i]).len() > 0,
{
    reveal_strlit("    ");
}

/// Of an episode the summary is shown, or the narrative where there is no summary. Of one with more
/// than two hundred characters exactly the first two hundred are shown, and three dots.
pub proof fn the_front_of_an_episode_is_shown(episode: SavedEpisodeView)
    ensures
        ({
            let full = if episode.summary.len() > 0 {
                episode.summary
            } else {
                episode.episode
            };
            let shown = formatter::episode_gist(episode);
            &&& full.len() <= 200 ==> shown == full
            &&& full.len() > 200 ==> {
                &&& shown.len() == 203
                &&& forall|i: int| 0 <= i < 200 ==> #[trigger] shown[i] == full[i]
                &&& shown[200] == '.' && shown[201] == '.' && shown[202] == '.'
            }
        }),
{
    let full = if episode.summary.len() > 0 {
        episode.summary
    } else {
        episode.episode
    };
    text_laws::the_front_is_shown(full, 200);
}

/// The episodes, which come the newest first, are shown the oldest first and numbered from one, each
/// with its date and what is shown of it, on a line of its own.
pub proof fn the_oldest_episode_comes_first(episodes: Seq<SavedEpisodeView>, i: int)
    requires
        0 <= i < episodes.len(),
    ensures
        formatter::episode_lines(episodes).len() == episodes.len(),
        formatter::episode_lines(episodes)[episodes.len() - 1 - i] == "    ["@ + text::decimal(
            (episodes.len() - i) as nat,
        ) + "] ("@ + text::ten_byte_prefix(episodes[i].created_at) + ") "@
            + formatter::episode_gist(episodes[i]) + "\n"@,
{
}

/// Whether a memory counts: not one that was saved automatically, and as relevant as asked for, where
/// one of unknown relevance counts as zero.
pub proof fn relevant_memories_count(entry: MemoryEntryView, min_relevance: Score)
    ensures
        entry.autosaved ==> !formatter::counts(entry, min_relevance),
        !entry.autosaved && entry.score is Some ==> (formatter::counts(entry, min_relevance)
            <==> entry.score->0.reaches(min_relevance)),
        !entry.autosaved && entry.score is None ==> (formatter::counts(entry, min_relevance)
            <==> (Score { bits: 0 }).reaches(min_relevance)),
{
}

/// A line of the traits, where it has items.
pub open spec fn line_of(label: Seq<char>, items: Seq<Seq<char>>) -> Seq<Seq<char>> {
    if items.len() == 0 {
        Seq::empty()
    } else {
        seq!["    "@ + label + ": "@ + text::joined(items, ", "@)]
    }
}

/// The traits of a profile, line by line and only where there is something to tell: the name, the
/// skills with their levels, hard before soft, the personality, the goals, the preferences from
/// habits and tendencies, and the interests. Nothing else of the profile is told, and nothing of no
/// profile.
pub proof fn traits_are_told_line_by_line(profile: ProfileView)
    ensures
        ({
            let told = |list: Seq<AttributeView>| list.map_values(|a: AttributeView| a.value);
            let skilled = |list: Seq<LeveledAttributeView>|
                list.map_values(|a: LeveledAttributeView| a.value + " ("@ + a.level + ")"@);
            let name = match profile.user_name {
                Some(known) => seq![known],
                None => Seq::empty(),
            };
            formatter::traits(Some(profile)) == text::joined(
                line_of("Name"@, name) + line_of(
                    "Skills"@,
                    skilled(profile.hard_skills) + skilled(profile.soft_skills),
                ) + line_of("Personality"@, told(profile.personality)) + line_of(
                    "Goals"@,
                    told(profile.user_goal),
                ) + line_of(
                    "Preferences"@,
                    told(profile.working_habit_preference) + told(profile.tendency),
                ) + line_of("Interests"@, told(profile.interests)),
                "\n"@,
            )
        }),
        formatter::traits(None).len() == 0,
{
    let told = |list: Seq<AttributeView>| list.map_values(|a: AttributeView| a.value);
    let skilled = |list: Seq<LeveledAttributeView>|
        list.map_values(|a: LeveledAttributeView| a.value + " ("@ + a.level + ")"@);
    assert(formatter::skills(profile.hard_skills) =~= skilled(profile.hard_skills));
    assert(formatter::skills(profile.soft_skills) =~= skilled(profile.soft_skills));
    assert(formatter::plain_values(profile.personality) =~= told(profile.personality));
    assert(formatter::plain_values(profile.user_goal) =~= told(profile.user_goal));
    assert(formatter::plain_values(profile.working_habit_preference) =~= told(
        profile.working_habit_preference,
    ));
    assert(formatter::plain_values(profile.tendency) =~= told(profile.tendency));
    assert(formatter::plain_values(profile.interests) =~= told(profile.interests));
}

/// The lines of a list, each item on a line of its own.
pub open spec fn listed(items: Seq<Seq<char>>) -> Seq<char>
    decreases items.len(),
{
    if items.len() == 0 {
        Seq::empty()
    } else {
        listed(items.drop_last()) + ("    - "@ + items.last() + "\n"@)
    }
}

/// The lines of episodes that come the newest first, the first of them numbered `number`.
pub open spec fn told(episodes: Seq<SavedEpisodeView>, number: nat) -> Seq<char>
    decreases episodes.len(),
{
    if episodes.len() == 0 {
        Seq::empty()
    } else {
        "    ["@ + text::decimal(number) + "] ("@ + text::ten_byte_prefix(
            episodes.last().created_at,
        ) + ") "@ + formatter::episode_gist(episodes.last()) + "\n"@ + told(
            episodes.drop_last(),
            number + 1,
        )
    }
}

proof fn items_are_listed(items: Seq<Seq<char>>)
    ensures
        text::concatenated(formatter::item_lines(items)) == listed(items),
    decreases items.len(),
{
    if items.len() > 0 {
        items_are_listed(items.drop_last());
        assert(formatter::item_lines(items).drop_last() =~= formatter::item_lines(
            items.drop_last(),
        ));
    }
}

proof fn episodes_are_told(episodes: Seq<SavedEpisodeView>, number: nat)
    ensures
        text::concatenated(
            Seq::new(
                episodes.len(),
                |i: int|
                    formatter::episode_line(
                        (i + number) as nat,
                        episodes[episodes.len() - 1 - i],
                    ),
            ),
        ) == told(episodes, number),
    decreases episodes.len(),
{
    let all = Seq::new(
        episodes.len(),
        |i: int|
            formatter::episode_line((i + number) as nat, episodes[episodes.len() - 1 - i]),
    );
    if episodes.len() > 0 {
        let newer = episodes.drop_last();
        let rest = Seq::new(
            newer.len(),
            |i: int|
                formatter::episode_line((i + (number + 1)) as nat, newer[newer.len() - 1 - i]),
        );
        episodes_are_told(newer, number + 1);
        assert(all =~= seq![all[0]] + rest);
        text_laws::texts_are_put_one_after_the_other(all[0], seq![all[0]], rest);
    }
}

/// The block in full: its head; the traits, the episodes, the facts and the predictions, each only
/// where there are some and between its own two tags; and its foot. Every episode, every fact and
/// every prediction is in it, in order.
pub proof fn the_block_holds_everything(
    traits: Seq<char>,
    episodes: Seq<SavedEpisodeView>,
    facts: Seq<Seq<char>>,
    foresights: Seq<ForesightRowView>,
)
    requires
        traits.len() > 0 || episodes.len() > 0 || facts.len() > 0 || foresights.len() > 0,
    ensures
        ({
            let none = Seq::<char>::empty();
            let told_traits = if traits.len() > 0 {
                "  <trait>\n"@ + traits + "\n  </trait>\n"@
            } else {
                none
            };
            let told_episodes = if episodes.len() > 0 {
                "  <episodic>\n"@ + told(episodes, 1) + "  </episodic>\n"@
            } else {
                none
            };
            let told_facts = if facts.len() > 0 {
                "  <facts>\n"@ + listed(facts) + "  </facts>\n"@
            } else {
                none
            };
            let told_foresights = if foresights.len() > 0 {
                "  <foresight>\n"@ + listed(
                    foresights.map_values(|row: ForesightRowView| row.content),
                ) + "  </foresight>\n"@
            } else {
                none
            };
            formatter::memory_block(traits, episodes, facts, foresights)
                == "```text\n<memory>\n"@ + told_traits + told_episodes + told_facts
                + told_foresights
                + "</memory>\n\nNote: context above is injected automatically. Do not reference or modify it.\n```\n\n"@
        }),
{
    episodes_are_told(episodes, 1);
    assert(formatter::episode_lines(episodes) =~= Seq::new(
        episodes.len(),
        |i: int| formatter::episode_line((i + 1) as nat, episodes[episodes.len() - 1 - i]),
    ));
    items_are_listed(facts);
    let contents = foresights.map_values(|row: ForesightRowView| row.content);
    assert(formatter::predictions(foresights) =~= contents);
    items_are_listed(contents);
}

} // verus!
