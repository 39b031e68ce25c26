//! The block of memories that is put in front of a conversation.

use vstd::prelude::*;
use vstd::string::*;

use crate::config::{PipelineConfig, PipelineConfigView};
use crate::profile_types::{
    Attribute, AttributeView, LeveledAttribute, LeveledAttributeView, ProfileData, ProfileView,
};
use crate::score::Score;
use crate::store::{ForesightRow, ForesightRowView, SavedEpisode, SavedEpisodeView};
use crate::text;

verus! {

/// How many characters of an episode are shown.
pub const EPISODE_CHARS: usize = 200;

/// A memory that was recalled for a query.
#[derive(Debug)]
pub struct MemoryEntry {
    pub content: String,
    /// How relevant the memory is, where that is known.
    pub score: Option<Score>,
    /// Whether the memory is a reply that was saved automatically.
    pub autosaved: bool,
}

/// A memory with its text as characters.
#[verifier::ext_equal]
pub struct MemoryEntryView {
    pub content: Seq<char>,
    pub score: Option<Score>,
    pub autosaved: bool,
}

impl View for MemoryEntry {
    type V = MemoryEntryView;

    open spec fn view(&self) -> MemoryEntryView {
        MemoryEntryView {
            content: self.content@,
            score: self.score,
            autosaved: self.autosaved,
        }
    }
}

/// Whether a memory is shown: relevant enough, an unknown relevance counting as zero, and not a
/// reply that was saved automatically.
pub open spec fn counts(entry: MemoryEntryView, min_relevance: Score) -> bool {
    let score = match entry.score {
        Some(known) => known,
        None => Score { bits: 0 },
    };
    score.reaches(min_relevance) && !entry.autosaved
}

/// The first memories that are shown, at most `limit`.
pub open spec fn shown_facts(
    entries: Seq<MemoryEntryView>,
    min_relevance: Score,
    limit: nat,
) -> Seq<Seq<char>>
    decreases entries.len(),
{
    if entries.len() == 0 {
        Seq::empty()
    } else {
        let before = shown_facts(entries.drop_last(), min_relevance, limit);
        if before.len() < limit && counts(entries.last(), min_relevance) {
            before.push(entries.last().content)
        } else {
            before
        }
    }
}

/// A line of the traits: a label and its items; none where there are no items.
pub open spec fn labelled(label: Seq<char>, items: Seq<Seq<char>>) -> Seq<Seq<char>> {
    if items.len() == 0 {
        Seq::empty()
    } else {
        seq!["    "@ + label + ": "@ + text::joined(items, ", "@)]
    }
}

/// Skills with their levels in brackets.
pub open spec fn skills(attributes: Seq<LeveledAttributeView>) -> Seq<Seq<char>> {
    Seq::new(
        attributes.len(),
        |i: int| attributes[i].value + " ("@ + attributes[i].level + ")"@,
    )
}

/// The values of attributes.
pub open spec fn plain_values(attributes: Seq<AttributeView>) -> Seq<Seq<char>> {
    Seq::new(attributes.len(), |i: int| attributes[i].value)
}

/// The name of the user, where it is known.
pub open spec fn names(profile: ProfileView) -> Seq<Seq<char>> {
    match profile.user_name {
        Some(name) => seq![name],
        None => Seq::empty(),
    }
}

/// The lines of the traits.
pub open spec fn trait_lines(profile: ProfileView) -> Seq<Seq<char>> {
    labelled("Name"@, names(profile)) + labelled(
        "Skills"@,
        skills(profile.hard_skills) + skills(profile.soft_skills),
    ) + labelled("Personality"@, plain_values(profile.personality)) + labelled(
        "Goals"@,
        plain_values(profile.user_goal),
    ) + labelled(
        "Preferences"@,
        plain_values(profile.working_habit_preference) + plain_values(profile.tendency),
    ) + labelled("Interests"@, plain_values(profile.interests))
}

/// A profile as traits for a reader.
pub open spec fn trait_text(profile: ProfileView) -> Seq<char> {
    text::joined(trait_lines(profile), "\n"@)
}

/// The traits of a profile, where there is one.
pub open spec fn traits(profile: Option<ProfileView>) -> Seq<char> {
    match profile {
        Some(known) => trait_text(known),
        None => Seq::empty(),
    }
}

/// What is shown of an episode: the summary, or the narrative where there is none, cut short.
pub open spec fn episode_gist(episode: SavedEpisodeView) -> Seq<char> {
    text::shortened(
        if episode.summary.len() > 0 {
            episode.summary
        } else {
            episode.episode
        },
        EPISODE_CHARS as nat,
    )
}

/// The line of the `number`th episode.
pub open spec fn episode_line(number: nat, episode: SavedEpisodeView) -> Seq<char> {
    "    ["@ + text::decimal(number) + "] ("@ + text::ten_byte_prefix(episode.created_at) + ") "@
        + episode_gist(episode) + "\n"@
}

/// The lines of episodes that come the newest first: the oldest first, numbered from one.
pub open spec fn episode_lines(episodes: Seq<SavedEpisodeView>) -> Seq<Seq<char>> {
    Seq::new(
        episodes.len(),
        |i: int| episode_line((i + 1) as nat, episodes[episodes.len() - 1 - i]),
    )
}

/// A list item for each text.
pub open spec fn item_lines(items: Seq<Seq<char>>) -> Seq<Seq<char>> {
    Seq::new(items.len(), |i: int| "    - "@ + items[i] + "\n"@)
}

/// The contents of predictions.
pub open spec fn predictions(rows: Seq<ForesightRowView>) -> Seq<Seq<char>> {
    Seq::new(rows.len(), |i: int| rows[i].content)
}

/// A section between its two tags; none where it has no lines.
pub open spec fn section(open: Seq<char>, lines: Seq<Seq<char>>, close: Seq<char>) -> Seq<char> {
    if lines.len() == 0 {
        Seq::empty()
    } else {
        open + text::concatenated(lines) + close
    }
}

/// The section of the traits; none where there are none.
pub open spec fn trait_section(traits: Seq<char>) -> Seq<char> {
    if traits.len() == 0 {
        Seq::empty()
    } else {
        "  <trait>\n"@ + traits + "\n  </trait>\n"@
    }
}

/// What opens the block.
pub open spec fn block_head() -> Seq<char> {
    "```text\n<memory>\n"@
}

/// What closes the block.
pub open spec fn block_foot() -> Seq<char> {
    "</memory>\n\nNote: context above is injected automatically. Do not reference or modify it.\n```\n\n"@
}

/// The block of memories: traits, episodes, facts and predictions, each section only where it has
/// something to show, and nothing at all where none has.
pub open spec fn memory_block(
    traits: Seq<char>,
    episodes: Seq<SavedEpisodeView>,
    facts: Seq<Seq<char>>,
    foresights: Seq<ForesightRowView>,
) -> Seq<char> {
    if traits.len() == 0 && episodes.len() == 0 && facts.len() == 0 && foresights.len() == 0 {
        Seq::empty()
    } else {
        block_head() + trait_section(traits) + section(
            "  <episodic>\n"@,
            episode_lines(episodes),
            "  </episodic>\n"@,
        ) + section("  <facts>\n"@, item_lines(facts), "  </facts>\n"@) + section(
            "  <foresight>\n"@,
            item_lines(predictions(foresights)),
            "  </foresight>\n"@,
        ) + block_foot()
    }
}

fn count_entry(entry: &MemoryEntry, min_relevance: Score) -> (answer: bool)
    ensures
        answer == counts(entry@, min_relevance),
{
    let score: Score = match entry.score {
        Some(known) => known,
        None => Score::zero(),
    };
    score.at_least(min_relevance) && !entry.autosaved
}

/// Chooses the memories that are shown: the first of those that count, at most `limit`.
pub fn choose_facts(entries: &[MemoryEntry], min_relevance: Score, limit: usize) -> (facts: Vec<
    String,
>)
    ensures
        text::views(facts@) == shown_facts(text::views(entries@), min_relevance, limit as nat),
{
    let mut facts: Vec<String> = Vec::new();
    let ghost all = text::views(entries@);
    assert(all.take(0) =~= Seq::empty());
    assert(text::views(facts@) =~= Seq::empty());
    for i in 0..entries.len()
        invariant
            all == text::views(entries@),
            text::views(facts@) == shown_facts(all.take(i as int), min_relevance, limit as nat),
    {
        let ghost before = text::views(facts@);
        assert(all.take(i + 1).drop_last() =~= all.take(i as int));
        if facts.len() < limit && count_entry(&entries[i], min_relevance) {
            facts.push(entries[i].content.clone());
            assert(text::views(facts@) =~= before.push(entries@[i as int].content@));
        }
    }
    assert(all.take(all.len() as int) =~= all);
    facts
}

fn push_labelled(lines: &mut Vec<String>, label: &str, items: &Vec<String>)
    ensures
        text::views(final(lines)@) == text::views(old(lines)@) + labelled(
            label@,
            text::views(items@),
        ),
{
    let ghost before = text::views(lines@);
    if items.len() > 0 {
        let mut line: String = String::from_str("    ");
        line.append(label);
        line.append(": ");
        line.append(&text::join(items, ", "));
        lines.push(line);
    }
    assert(text::views(lines@) =~= before + labelled(label@, text::views(items@)));
}

fn push_skills(items: &mut Vec<String>, attributes: &Vec<LeveledAttribute>)
    ensures
        text::views(final(items)@) == text::views(old(items)@) + skills(
            text::views(attributes@),
        ),
{
    let ghost before = text::views(items@);
    let ghost all = skills(text::views(attributes@));
    assert(before + all.take(0) =~= before);
    for i in 0..attributes.len()
        invariant
            all == skills(text::views(attributes@)),
            text::views(items@) == before + all.take(i as int),
    {
        let mut item: String = attributes[i].value.clone();
        item.append(" (");
        item.append(&attributes[i].level);
        item.append(")");
        let ghost so_far = text::views(items@);
        items.push(item);
        assert(text::views(items@) =~= so_far.push(all[i as int]));
        assert(so_far.push(all[i as int]) =~= before + all.take(i + 1));
    }
    assert(all.take(all.len() as int) =~= all);
}

fn push_values(items: &mut Vec<String>, attributes: &Vec<Attribute>)
    ensures
        text::views(final(items)@) == text::views(old(items)@) + plain_values(
            text::views(attributes@),
        ),
{
    let ghost before = text::views(items@);
    let ghost all = plain_values(text::views(attributes@));
    assert(before + all.take(0) =~= before);
    for i in 0..attributes.len()
        invariant
            all == plain_values(text::views(attributes@)),
            text::views(items@) == before + all.take(i as int),
    {
        let ghost so_far = text::views(items@);
        items.push(attributes[i].value.clone());
        assert(text::views(items@) =~= so_far.push(all[i as int]));
        assert(so_far.push(all[i as int]) =~= before + all.take(i + 1));
    }
    assert(all.take(all.len() as int) =~= all);
}

/// Renders a profile as traits for a reader.
pub fn render_trait(profile: &ProfileData) -> (result: String)
    ensures
        result@ == trait_text(profile@),
{
    let mut lines: Vec<String> = Vec::new();
    let ghost none = Seq::<Seq<char>>::empty();
    assert(text::views(lines@) =~= none);

    let mut known: Vec<String> = Vec::new();
    if let Some(name) = &profile.user_name {
        known.push(name.clone());
    }
    assert(text::views(known@) =~= names(profile@));
    push_labelled(&mut lines, "Name", &known);

    let mut all_skills: Vec<String> = Vec::new();
    assert(text::views(all_skills@) =~= none);
    push_skills(&mut all_skills, &profile.hard_skills);
    push_skills(&mut all_skills, &profile.soft_skills);
    assert(none + skills(profile@.hard_skills) =~= skills(profile@.hard_skills));
    push_labelled(&mut lines, "Skills", &all_skills);

    let mut personality: Vec<String> = Vec::new();
    assert(text::views(personality@) =~= none);
    push_values(&mut personality, &profile.personality);
    assert(none + plain_values(profile@.personality) =~= plain_values(profile@.personality));
    push_labelled(&mut lines, "Personality", &personality);

    let mut goals: Vec<String> = Vec::new();
    assert(text::views(goals@) =~= none);
    push_values(&mut goals, &profile.user_goal);
    assert(none + plain_values(profile@.user_goal) =~= plain_values(profile@.user_goal));
    push_labelled(&mut lines, "Goals", &goals);

    let mut preferences: Vec<String> = Vec::new();
    assert(text::views(preferences@) =~= none);
    push_values(&mut preferences, &profile.working_habit_preference);
    push_values(&mut preferences, &profile.tendency);
    assert(none + plain_values(profile@.working_habit_preference) =~= plain_values(
        profile@.working_habit_preference,
    ));
    push_labelled(&mut lines, "Preferences", &preferences);

    let mut interests: Vec<String> = Vec::new();
    assert(text::views(interests@) =~= none);
    push_values(&mut interests, &profile.interests);
    assert(none + plain_values(profile@.interests) =~= plain_values(profile@.interests));
    push_labelled(&mut lines, "Interests", &interests);

    assert(text::views(lines@) =~= trait_lines(profile@));
    text::join(&lines, "\n")
}

fn append_episode(block: &mut String, number: usize, episode: &SavedEpisode)
    ensures
        final(block)@ == old(block)@ + episode_line(number as nat, episode@),
{
    let ghost before = block@;
    let shown: &String = if episode.summary.as_str().is_empty() {
        &episode.episode
    } else {
        &episode.summary
    };
    let gist: String = text::shorten(shown, EPISODE_CHARS);
    block.append("    [");
    text::append_decimal(block, number);
    block.append("] (");
    block.append(text::date_part(&episode.created_at));
    block.append(") ");
    block.append(&gist);
    block.append("\n");
    assert(block@ =~= before + episode_line(number as nat, episode@));
}

fn append_episodes(block: &mut String, episodes: &[SavedEpisode])
    ensures
        final(block)@ == old(block)@ + section(
            "  <episodic>\n"@,
            episode_lines(text::views(episodes@)),
            "  </episodic>\n"@,
        ),
{
    let ghost before = block@;
    let ghost lines = episode_lines(text::views(episodes@));
    if episodes.len() > 0 {
        block.append("  <episodic>\n");
        let ghost opened = block@;
        assert(opened + text::concatenated(lines.take(0)) =~= opened);
        for i in 0..episodes.len()
            invariant
                lines == episode_lines(text::views(episodes@)),
                block@ == opened + text::concatenated(lines.take(i as int)),
        {
            append_episode(block, i + 1, &episodes[episodes.len() - 1 - i]);
            assert(lines.take(i + 1).drop_last() =~= lines.take(i as int));
            assert(opened + text::concatenated(lines.take(i as int)) + lines[i as int] =~= opened
                + (text::concatenated(lines.take(i as int)) + lines[i as int]));
        }
        assert(lines.take(lines.len() as int) =~= lines);
        block.append("  </episodic>\n");
    }
    assert(block@ =~= before + section("  <episodic>\n"@, lines, "  </episodic>\n"@));
}

fn append_items(block: &mut String, open: &str, items: &[String], close: &str)
    ensures
        final(block)@ == old(block)@ + section(
            open@,
            item_lines(text::views(items@)),
            close@,
        ),
{
    let ghost before = block@;
    let ghost lines = item_lines(text::views(items@));
    if items.len() > 0 {
        block.append(open);
        let ghost opened = block@;
        assert(opened + text::concatenated(lines.take(0)) =~= opened);
        for i in 0..items.len()
            invariant
                lines == item_lines(text::views(items@)),
                block@ == opened + text::concatenated(lines.take(i as int)),
        {
            let ghost so_far = block@;
            block.append("    - ");
            block.append(&items[i]);
            block.append("\n");
            assert(block@ =~= so_far + lines[i as int]);
            assert(lines.take(i + 1).drop_last() =~= lines.take(i as int));
            assert(opened + text::concatenated(lines.take(i as int)) + lines[i as int] =~= opened
                + (text::concatenated(lines.take(i as int)) + lines[i as int]));
        }
        assert(lines.take(lines.len() as int) =~= lines);
        block.append(close);
    }
    assert(block@ =~= before + section(open@, lines, close@));
}

/// Builds the block of memories.
#[derive(Debug)]
pub struct Formatter {
    pub config: PipelineConfig,
}

impl Formatter {
    /// A formatter with the given settings.
    pub fn new(config: PipelineConfig) -> (formatter: Formatter)
        ensures
            formatter.config@ == config@,
    {
        Formatter { config }
    }

    /// How many memories are recalled, of which some are then left out.
    pub fn recall_limit(&self) -> (limit: usize)
        requires
            self.config.max_facts_entries * 2 <= usize::MAX,
        ensures
            limit == self.config.max_facts_entries * 2,
    {
        self.config.max_facts_entries * 2
    }

    /// Builds the block of memories from the profile of the user, the recent episodes with the
    /// newest first, the memories that were recalled for the query and the predictions to show.
    /// The block is empty where there is nothing to show.
    pub fn build_xml_context(
        &self,
        profile: Option<&ProfileData>,
        episodes: &[SavedEpisode],
        recalled: &[MemoryEntry],
        min_relevance: Score,
        foresights: &[ForesightRow],
    ) -> (block: String)
        ensures
            block@ == memory_block(
                traits(
                    match profile {
                        Some(known) => Some(known@),
                        None => None,
                    },
                ),
                text::views(episodes@),
                shown_facts(
                    text::views(recalled@),
                    min_relevance,
                    self.config@.max_facts_entries,
                ),
                text::views(foresights@),
            ),
    {
        let facts: Vec<String> = choose_facts(
            recalled,
            min_relevance,
            self.config.max_facts_entries,
        );
        let shown_traits: String = match profile {
            Some(known) => render_trait(known),
            None => String::new(),
        };
        if shown_traits.as_str().is_empty() && episodes.len() == 0 && facts.len() == 0
            && foresights.len() == 0 {
            return String::new();
        }
        let mut block: String = String::from_str("```text\n<memory>\n");
        if !shown_traits.as_str().is_empty() {
            block.append("  <trait>\n");
            block.append(&shown_traits);
            block.append("\n  </trait>\n");
        }
        assert(block@ =~= block_head() + trait_section(shown_traits@));
        append_episodes(&mut block, episodes);
        append_items(&mut block, "  <facts>\n", &facts, "  </facts>\n");
        let mut contents: Vec<String> = Vec::new();
        for i in 0..foresights.len()
            invariant
                contents.len() == i,
                forall|k: int| 0 <= k < i ==> (#[trigger] contents@[k])@ == foresights@[k].content@,
        {
            contents.push(foresights[i].content.clone());
        }
        assert(text::views(contents@) =~= predictions(text::views(foresights@)));
        append_items(&mut block, "  <foresight>\n", &contents, "  </foresight>\n");
        block.append(
            "</memory>\n\nNote: context above is injected automatically. Do not reference or modify it.\n```\n\n",
        );
        block
    }
}

} // verus!
