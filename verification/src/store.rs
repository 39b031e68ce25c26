//! The rows that the pipeline stores, and the order in which predictions are read back.

use vstd::prelude::*;
use vstd::string::*;

use crate::buffer;
use crate::extractor::{AtomicFact, AtomicFactView, EpisodeData, EpisodeDataView};
use crate::extractor::foresight::{ForesightEntry, ForesightEntryView};
use crate::outside;
use crate::score::Score;
use crate::text;

verus! {

/// A saved episode with its identifier.
#[derive(Debug)]
pub struct SavedEpisode {
    pub id: String,
    pub subject: String,
    pub episode: String,
    pub summary: String,
    pub created_at: String,
}

/// A saved episode as characters.
#[verifier::ext_equal]
pub struct SavedEpisodeView {
    pub id: Seq<char>,
    pub subject: Seq<char>,
    pub episode: Seq<char>,
    pub summary: Seq<char>,
    pub created_at: Seq<char>,
}

/// A stored atomic fact.
#[derive(Debug)]
pub struct EventLogRow {
    pub id: String,
    pub episode_id: String,
    pub atomic_fact: String,
    pub time_ref: Option<String>,
    pub created_at: String,
}

/// A stored atomic fact as characters.
#[verifier::ext_equal]
pub struct EventLogRowView {
    pub id: Seq<char>,
    pub episode_id: Seq<char>,
    pub atomic_fact: Seq<char>,
    pub time_ref: Option<Seq<char>>,
    pub created_at: Seq<char>,
}

/// A prediction that is about to be stored.
#[derive(Debug)]
pub struct ForesightDraft {
    pub episode_id: String,
    pub user_id: String,
    pub entry: ForesightEntry,
    /// The embedding of the content, where there is one.
    pub embedding: Option<Vec<u8>>,
}

/// A prediction that is about to be stored, as characters.
#[verifier::ext_equal]
pub struct ForesightDraftView {
    pub episode_id: Seq<char>,
    pub user_id: Seq<char>,
    pub entry: ForesightEntryView,
    pub embedding: Option<Seq<u8>>,
}

/// A stored prediction.
#[derive(Debug)]
pub struct ForesightRow {
    pub id: String,
    pub episode_id: Option<String>,
    pub user_id: Option<String>,
    pub content: String,
    pub evidence: String,
    pub start_time: Option<String>,
    pub end_time: Option<String>,
    pub created_at: String,
    pub embedding: Option<Vec<u8>>,
}

/// A stored prediction as characters.
#[verifier::ext_equal]
pub struct ForesightRowView {
    pub id: Seq<char>,
    pub episode_id: Option<Seq<char>>,
    pub user_id: Option<Seq<char>>,
    pub content: Seq<char>,
    pub evidence: Seq<char>,
    pub start_time: Option<Seq<char>>,
    pub end_time: Option<Seq<char>>,
    pub created_at: Seq<char>,
    pub embedding: Option<Seq<u8>>,
}

impl View for SavedEpisode {
    type V = SavedEpisodeView;

    open spec fn view(&self) -> SavedEpisodeView {
        SavedEpisodeView {
            id: self.id@,
            subject: self.subject@,
            episode: self.episode@,
            summary: self.summary@,
            created_at: self.created_at@,
        }
    }
}

impl View for EventLogRow {
    type V = EventLogRowView;

    open spec fn view(&self) -> EventLogRowView {
        EventLogRowView {
            id: self.id@,
            episode_id: self.episode_id@,
            atomic_fact: self.atomic_fact@,
            time_ref: text::view_of(self.time_ref),
            created_at: self.created_at@,
        }
    }
}

impl View for ForesightDraft {
    type V = ForesightDraftView;

    open spec fn view(&self) -> ForesightDraftView {
        ForesightDraftView {
            episode_id: self.episode_id@,
            user_id: self.user_id@,
            entry: self.entry@,
            embedding: text::view_of(self.embedding),
        }
    }
}

impl View for ForesightRow {
    type V = ForesightRowView;

    open spec fn view(&self) -> ForesightRowView {
        ForesightRowView {
            id: self.id@,
            episode_id: text::view_of(self.episode_id),
            user_id: text::view_of(self.user_id),
            content: self.content@,
            evidence: self.evidence@,
            start_time: text::view_of(self.start_time),
            end_time: text::view_of(self.end_time),
            created_at: self.created_at@,
            embedding: text::view_of(self.embedding),
        }
    }
}

impl Clone for SavedEpisode {
    fn clone(&self) -> (copy: Self)
        ensures
            copy@ == self@,
    {
        SavedEpisode {
            id: self.id.clone(),
            subject: self.subject.clone(),
            episode: self.episode.clone(),
            summary: self.summary.clone(),
            created_at: self.created_at.clone(),
        }
    }
}

fn copy_embedding(embedding: &Option<Vec<u8>>) -> (copy: Option<Vec<u8>>)
    ensures
        text::view_of(copy) == text::view_of(*embedding),
{
    match embedding {
        Some(bytes) => {
            let copy: Vec<u8> = bytes.clone();
            assert(copy@ =~= bytes@);
            Some(copy)
        },
        None => None,
    }
}

impl Clone for ForesightRow {
    fn clone(&self) -> (copy: Self)
        ensures
            copy@ == self@,
    {
        ForesightRow {
            id: self.id.clone(),
            episode_id: text::copy_option(&self.episode_id),
            user_id: text::copy_option(&self.user_id),
            content: self.content.clone(),
            evidence: self.evidence.clone(),
            start_time: text::copy_option(&self.start_time),
            end_time: text::copy_option(&self.end_time),
            created_at: self.created_at.clone(),
            embedding: copy_embedding(&self.embedding),
        }
    }
}

/// The saved form of an extracted episode.
pub open spec fn saved_episode(
    id: Seq<char>,
    data: EpisodeDataView,
    created_at: Seq<char>,
) -> SavedEpisodeView {
    SavedEpisodeView {
        id,
        subject: data.subject,
        episode: data.episode,
        summary: data.summary,
        created_at,
    }
}

impl SavedEpisode {
    /// The saved form of an extracted episode.
    pub fn new(id: String, data: &EpisodeData, created_at: String) -> (saved: SavedEpisode)
        ensures
            saved@ == saved_episode(id@, data@, created_at@),
    {
        SavedEpisode {
            id,
            subject: data.subject.clone(),
            episode: data.episode.clone(),
            summary: data.summary.clone(),
            created_at,
        }
    }

    /// The saved form of an extracted episode, with a fresh identifier and the present time.
    pub fn stamped(data: &EpisodeData) -> (saved: SavedEpisode)
        ensures
            outside::is_uuid_text(saved.id@),
            buffer::is_timestamp(saved.created_at@),
            saved@ == saved_episode(saved.id@, data@, saved.created_at@),
    {
        let id: String = outside::random_uuid();
        SavedEpisode::new(id, data, buffer::timestamp())
    }

    /// An episode as it is read back: columns without a value are empty.
    pub fn from_columns(
        id: String,
        subject: Option<String>,
        summary: Option<String>,
        episode: String,
        created_at: Option<String>,
    ) -> (saved: SavedEpisode)
        ensures
            saved@ == (SavedEpisodeView {
                id: id@,
                subject: text::or_empty(text::view_of(subject)),
                episode: episode@,
                summary: text::or_empty(text::view_of(summary)),
                created_at: text::or_empty(text::view_of(created_at)),
            }),
    {
        SavedEpisode {
            id,
            subject: text::text_or_empty(subject),
            episode,
            summary: text::text_or_empty(summary),
            created_at: text::text_or_empty(created_at),
        }
    }
}

/// The stored form of an atomic fact.
pub open spec fn event_log_row(
    id: Seq<char>,
    episode_id: Seq<char>,
    fact: AtomicFactView,
    created_at: Seq<char>,
) -> EventLogRowView {
    EventLogRowView {
        id,
        episode_id,
        atomic_fact: fact.fact,
        time_ref: fact.time,
        created_at,
    }
}

impl EventLogRow {
    /// The stored form of an atomic fact.
    pub fn new(id: String, episode_id: &str, fact: &AtomicFact, created_at: &str) -> (row:
        EventLogRow)
        ensures
            row@ == event_log_row(id@, episode_id@, fact@, created_at@),
    {
        EventLogRow {
            id,
            episode_id: String::from_str(episode_id),
            atomic_fact: fact.fact.clone(),
            time_ref: text::copy_option(&fact.time),
            created_at: String::from_str(created_at),
        }
    }

    /// The stored forms of the facts of an episode: each with a fresh identifier, all with the
    /// same time.
    pub fn stamped(episode_id: &str, facts: &[AtomicFact]) -> (rows: Vec<EventLogRow>)
        ensures
            rows.len() == facts.len(),
            exists|now: Seq<char>| #[trigger]
                buffer::is_timestamp(now) && forall|i: int|
                    0 <= i < rows.len() ==> outside::is_uuid_text((#[trigger] rows@[i]).id@)
                        && rows@[i]@ == event_log_row(
                        rows@[i].id@,
                        episode_id@,
                        facts@[i]@,
                        now,
                    ),
    {
        let now: String = buffer::timestamp();
        let mut rows: Vec<EventLogRow> = Vec::new();
        for i in 0..facts.len()
            invariant
                rows.len() == i,
                forall|k: int|
                    0 <= k < i ==> outside::is_uuid_text((#[trigger] rows@[k]).id@) && rows@[k]@
                        == event_log_row(rows@[k].id@, episode_id@, facts@[k]@, now@),
        {
            let id: String = outside::random_uuid();
            rows.push(EventLogRow::new(id, episode_id, &facts[i], &now));
        }
        assert(buffer::is_timestamp(now@));
        rows
    }
}

/// The stored form of a prediction.
pub open spec fn foresight_row(
    id: Seq<char>,
    draft: ForesightDraftView,
    created_at: Seq<char>,
) -> ForesightRowView {
    ForesightRowView {
        id,
        episode_id: Some(draft.episode_id),
        user_id: Some(draft.user_id),
        content: draft.entry.content,
        evidence: draft.entry.evidence,
        start_time: draft.entry.start_time,
        end_time: draft.entry.end_time,
        created_at,
        embedding: draft.embedding,
    }
}

impl ForesightRow {
    /// The stored form of a prediction.
    pub fn new(id: String, draft: &ForesightDraft, created_at: String) -> (row: ForesightRow)
        ensures
            row@ == foresight_row(id@, draft@, created_at@),
    {
        ForesightRow {
            id,
            episode_id: Some(draft.episode_id.clone()),
            user_id: Some(draft.user_id.clone()),
            content: draft.entry.content.clone(),
            evidence: draft.entry.evidence.clone(),
            start_time: text::copy_option(&draft.entry.start_time),
            end_time: text::copy_option(&draft.entry.end_time),
            created_at,
            embedding: copy_embedding(&draft.embedding),
        }
    }

    /// The stored forms of predictions, each with a fresh identifier and the time at which it was
    /// made.
    pub fn stamped(drafts: &[ForesightDraft]) -> (rows: Vec<ForesightRow>)
        ensures
            rows.len() == drafts.len(),
            forall|i: int|
                0 <= i < rows.len() ==> outside::is_uuid_text((#[trigger] rows@[i]).id@)
                    && buffer::is_timestamp(rows@[i].created_at@) && rows@[i]@ == foresight_row(
                    rows@[i].id@,
                    drafts@[i]@,
                    rows@[i].created_at@,
                ),
    {
        let mut rows: Vec<ForesightRow> = Vec::new();
        for i in 0..drafts.len()
            invariant
                rows.len() == i,
                forall|k: int|
                    0 <= k < i ==> outside::is_uuid_text((#[trigger] rows@[k]).id@)
                        && buffer::is_timestamp(rows@[k].created_at@) && rows@[k]@ == foresight_row(
                        rows@[k].id@,
                        drafts@[k]@,
                        rows@[k].created_at@,
                    ),
        {
            let id: String = outside::random_uuid();
            rows.push(ForesightRow::new(id, &drafts[i], buffer::timestamp()));
        }
        rows
    }
}

/// A fresh identifier and the present time, for a row that is about to be written.
#[derive(Debug)]
pub struct RowStamp {
    pub id: String,
    pub now: String,
}

impl RowStamp {
    /// A stamp with a fresh identifier and the present time.
    pub fn fresh() -> (stamp: RowStamp)
        ensures
            outside::is_uuid_text(stamp.id@),
            buffer::is_timestamp(stamp.now@),
    {
        RowStamp { id: outside::random_uuid(), now: buffer::timestamp() }
    }
}

/// The present day in UTC, as year, month and day: a prediction that ends before it has expired.
pub fn today() -> (day: String)
    ensures
        exists|secs: i64| #[trigger]
            outside::utc_day_text(secs) == day@ && outside::is_instant(secs as int, 0) && secs
                >= 0,
{
    let now: (i64, u32) = outside::utc_now();
    outside::utc_day(now.0)
}

/// A prediction with the number by which it is ordered.
#[verifier::ext_equal]
pub struct Ranked {
    pub order: int,
    pub row: ForesightRowView,
}

/// How many of a list in falling order come before a new entry: all that are not below it.
pub open spec fn rank_place(list: Seq<Ranked>, order: int) -> nat
    decreases list.len(),
{
    if list.len() == 0 || list.last().order >= order {
        list.len()
    } else {
        rank_place(list.drop_last(), order)
    }
}

/// The entries in falling order; those of the same order stay as they came.
pub open spec fn in_rank_order(entries: Seq<Ranked>) -> Seq<Ranked>
    decreases entries.len(),
{
    if entries.len() == 0 {
        entries
    } else {
        let list = in_rank_order(entries.drop_last());
        let last = entries.last();
        list.insert(rank_place(list, last.order) as int, last)
    }
}

/// The score by which a prediction is ordered: minus one where its similarity is not known or not a
/// number.
pub open spec fn known_score(score: Option<Score>) -> Score {
    match score {
        Some(known) if !known.is_nan() => known,
        _ => Score { bits: 0xbff0_0000_0000_0000 },
    }
}

/// Predictions with their scores.
pub open spec fn scored(rows: Seq<ForesightRowView>, scores: Seq<Option<Score>>) -> Seq<Ranked> {
    Seq::new(
        rows.len(),
        |i: int| Ranked { order: known_score(scores[i]).order(), row: rows[i] },
    )
}

/// The rows of ranked predictions.
pub open spec fn ranked_rows(entries: Seq<Ranked>) -> Seq<ForesightRowView> {
    Seq::new(entries.len(), |i: int| entries[i].row)
}

/// The first `limit` of a sequence, or all where there are fewer.
pub open spec fn first_rows(rows: Seq<ForesightRowView>, limit: nat) -> Seq<ForesightRowView> {
    if rows.len() > limit {
        rows.take(limit as int)
    } else {
        rows
    }
}

/// The predictions that are shown of those that are active, which come the newest first: by
/// falling similarity where similarities are given, and else as they come.
pub open spec fn shown_foresights(
    rows: Seq<ForesightRowView>,
    scores: Option<Seq<Option<Score>>>,
    limit: nat,
) -> Seq<ForesightRowView> {
    match scores {
        Some(known) => first_rows(ranked_rows(in_rank_order(scored(rows, known))), limit),
        None => first_rows(rows, limit),
    }
}

fn order_scores(rows: &[ForesightRow], scores: &Vec<Option<Score>>) -> (list: Vec<(i64, usize)>)
    requires
        scores.len() == rows.len(),
    ensures
        list.len() == rows.len(),
        forall|i: int| 0 <= i < list.len() ==> (#[trigger] list@[i]).1 < rows.len(),
        listed(list@, text::views(rows@)) == in_rank_order(
            scored(text::views(rows@), scores@),
        ),
{
    let ghost seen = text::views(rows@);
    let ghost entries = scored(seen, scores@);
    let mut list: Vec<(i64, usize)> = Vec::new();
    assert(entries.take(0) =~= Seq::empty());
    assert(listed(list@, seen) =~= Seq::empty());
    for i in 0..rows.len()
        invariant
            seen == text::views(rows@),
            scores.len() == rows.len(),
            entries == scored(seen, scores@),
            list.len() == i,
            forall|k: int| 0 <= k < list.len() ==> (#[trigger] list@[k]).1 < i,
            listed(list@, seen) == in_rank_order(entries.take(i as int)),
    {
        let score: Score = match scores[i] {
            Some(known) if !known.not_a_number() => known,
            _ => Score::minus_one(),
        };
        let key: i64 = score.ordering_key();
        let ghost before = listed(list@, seen);
        let mut place: usize = list.len();
        assert(before.take(place as int) =~= before);
        while place > 0 && list[place - 1].0 < key
            invariant
                place <= list.len(),
                before == listed(list@, seen),
                rank_place(before.take(place as int), key as int) == rank_place(
                    before,
                    key as int,
                ),
            ensures
                place <= list.len(),
                rank_place(before.take(place as int), key as int) == rank_place(
                    before,
                    key as int,
                ),
                place > 0 ==> before[place - 1].order >= key,
            decreases place,
        {
            assert(before.take(place as int).last().order < key);
            assert(before.take(place as int).drop_last() =~= before.take(place - 1));
            place -= 1;
        }
        assert(before.take(place as int).len() == place);
        assert(place > 0 ==> before.take(place as int).last() == before[place - 1]);
        let ghost old_list = list@;
        list.insert(place, (key, i));
        proof {
            assert(entries.take(i + 1).drop_last() =~= entries.take(i as int));
            assert(entries.take(i + 1).last() == entries[i as int]);
            assert(listed(list@, seen) =~= before.insert(place as int, entries[i as int]));
            assert forall|k: int| 0 <= k < list.len() implies (#[trigger] list@[k]).1 < i + 1 by {
                if k < place {
                    assert(list@[k] == old_list[k]);
                } else if k > place {
                    assert(list@[k] == old_list[k - 1]);
                }
            }
        }
    }
    assert(entries.take(entries.len() as int) =~= entries);
    list
}

/// What a list of orders and places stands for.
spec fn listed(list: Seq<(i64, usize)>, rows: Seq<ForesightRowView>) -> Seq<Ranked> {
    Seq::new(list.len(), |i: int| Ranked { order: list[i].0 as int, row: rows[list[i].1 as int] })
}

/// Chooses the predictions that are shown of those that are active, which come the newest first:
/// by falling similarity to what was asked where similarities are given, those without one that is
/// a number counting as minus one, and else as they come.
pub fn choose_foresights(
    rows: &[ForesightRow],
    scores: Option<Vec<Option<Score>>>,
    limit: usize,
) -> (shown: Vec<ForesightRow>)
    requires
        scores matches Some(known) ==> known.len() == rows.len(),
    ensures
        text::views(shown@) == shown_foresights(
            text::views(rows@),
            text::view_of(scores),
            limit as nat,
        ),
{
    let ghost seen = text::views(rows@);
    let mut shown: Vec<ForesightRow> = Vec::new();
    match scores {
        Some(known) => {
            let list: Vec<(i64, usize)> = order_scores(rows, &known);
            let ghost all = ranked_rows(in_rank_order(scored(seen, known@)));
            let count: usize = if list.len() > limit {
                limit
            } else {
                list.len()
            };
            for i in 0..count
                invariant
                    seen == text::views(rows@),
                    count <= list.len(),
                    list.len() == rows.len(),
                    forall|k: int| 0 <= k < list.len() ==> (#[trigger] list@[k]).1 < rows.len(),
                    shown.len() == i,
                    forall|k: int|
                        0 <= k < i ==> (#[trigger] shown@[k])@ == seen[list@[k].1 as int],
            {
                shown.push(rows[list[i].1].clone());
            }
            proof {
                let expected = first_rows(all, limit as nat);
                assert(all.len() == list.len());
                assert forall|k: int| 0 <= k < count implies (#[trigger] text::views(shown@)[k])
                    == expected[k] by {
                    assert(listed(list@, seen)[k].row == all[k]);
                }
                assert(text::views(shown@) =~= expected);
            }
        },
        None => {
            let count: usize = if rows.len() > limit {
                limit
            } else {
                rows.len()
            };
            for i in 0..count
                invariant
                    count <= rows.len(),
                    shown.len() == i,
                    forall|k: int| 0 <= k < i ==> (#[trigger] shown@[k])@ == rows@[k]@,
            {
                shown.push(rows[i].clone());
            }
            assert(text::views(shown@) =~= first_rows(seen, limit as nat));
        },
    }
    shown
}

/// Whether entries are in falling order.
pub open spec fn falling(entries: Seq<Ranked>) -> bool {
    forall|i: int, j: int|
        0 <= i < j < entries.len() ==> (#[trigger] entries[i]).order >= (
        #[trigger] entries[j]).order
}

proof fn rank_place_splits(list: Seq<Ranked>, order: int)
    requires
        falling(list),
    ensures
        rank_place(list, order) <= list.len(),
        forall|i: int| 0 <= i < rank_place(list, order) ==> (#[trigger] list[i]).order >= order,
        forall|i: int|
            rank_place(list, order) <= i < list.len() ==> (#[trigger] list[i]).order < order,
    decreases list.len(),
{
    if list.len() > 0 && list.last().order < order {
        let front = list.drop_last();
        assert(falling(front)) by {
            assert forall|i: int, j: int| 0 <= i < j < front.len() implies (
            #[trigger] front[i]).order >= (#[trigger] front[j]).order by {
                assert(front[i] == list[i] && front[j] == list[j]);
            }
        }
        rank_place_splits(front, order);
        assert forall|i: int| 0 <= i < rank_place(list, order) implies (#[trigger] list[i]).order
            >= order by {
            assert(front[i] == list[i]);
        }
        assert forall|i: int| rank_place(list, order) <= i < list.len() implies (
        #[trigger] list[i]).order < order by {
            if i < front.len() {
                assert(front[i] == list[i]);
            }
        }
    } else if list.len() > 0 {
        assert forall|i: int| 0 <= i < list.len() implies (#[trigger] list[i]).order >= order by {
            if i < list.len() - 1 {
                assert(list[i].order >= list[list.len() - 1].order);
            }
        }
    }
}

/// The most similar prediction comes first: the orders never rise along the list.
pub proof fn rank_order_falls(entries: Seq<Ranked>)
    ensures
        falling(in_rank_order(entries)),
        in_rank_order(entries).len() == entries.len(),
    decreases entries.len(),
{
    if entries.len() > 0 {
        let list = in_rank_order(entries.drop_last());
        rank_order_falls(entries.drop_last());
        rank_place_splits(list, entries.last().order);
    }
}

/// Ordering predictions loses none and adds none.
pub proof fn rank_order_keeps_all(entries: Seq<Ranked>)
    ensures
        in_rank_order(entries).to_multiset() == entries.to_multiset(),
    decreases entries.len(),
{
    broadcast use vstd::seq_lib::group_to_multiset_ensures;

    if entries.len() > 0 {
        let front = entries.drop_last();
        let list = in_rank_order(front);
        let last = entries.last();
        rank_order_keeps_all(front);
        rank_order_falls(front);
        rank_place_splits(list, last.order);
        assert(front.push(last) =~= entries);
    }
}

/// Predictions of the same similarity stay the newest first, as they came.
pub proof fn rank_order_is_stable(entries: Seq<Ranked>, order: int)
    ensures
        in_rank_order(entries).filter(|entry: Ranked| entry.order == order) == entries.filter(
            |entry: Ranked| entry.order == order,
        ),
    decreases entries.len(),
{
    let same = |entry: Ranked| entry.order == order;
    if entries.len() > 0 {
        let front = entries.drop_last();
        let list = in_rank_order(front);
        let last = entries.last();
        let place = rank_place(list, last.order) as int;
        rank_order_is_stable(front, order);
        rank_order_falls(front);
        rank_place_splits(list, last.order);
        let left = list.take(place);
        let right = list.skip(place);
        assert(list =~= left + right);
        assert(list.insert(place, last) =~= left + seq![last] + right);
        assert(entries =~= front + seq![last]);
        Seq::filter_distributes_over_add(left, right, same);
        Seq::filter_distributes_over_add(left + seq![last], right, same);
        Seq::filter_distributes_over_add(left, seq![last], same);
        Seq::filter_distributes_over_add(front, seq![last], same);
        if last.order == order {
            none_of_the_rest(right, order);
            assert(left.filter(same) + right.filter(same) =~= left.filter(same));
            assert(left.filter(same) + seq![last].filter(same) + right.filter(same)
                =~= left.filter(same) + seq![last].filter(same));
        } else {
            assert(seq![last].filter(same) =~= Seq::empty()) by {
                reveal(Seq::filter);
                assert(seq![last].drop_last() =~= Seq::<Ranked>::empty());
            }
            assert(left.filter(same) + Seq::empty() + right.filter(same) =~= left.filter(same)
                + right.filter(same));
            assert(front.filter(same) + Seq::empty() =~= front.filter(same));
        }
    }
}

proof fn none_of_the_rest(entries: Seq<Ranked>, order: int)
    requires
        forall|i: int| 0 <= i < entries.len() ==> (#[trigger] entries[i]).order < order,
    ensures
        entries.filter(|entry: Ranked| entry.order == order).len() == 0,
    decreases entries.len(),
{
    reveal(Seq::filter);
    if entries.len() > 0 {
        let front = entries.drop_last();
        assert forall|i: int| 0 <= i < front.len() implies (#[trigger] front[i]).order < order by {
            assert(front[i] == entries[i]);
        }
        none_of_the_rest(front, order);
        assert(entries[entries.len() - 1].order < order);
    }
}

/// Where no similarity tells predictions apart they are shown as they come: the newest first.
pub proof fn recency_is_the_fallback(rows: Seq<ForesightRowView>, limit: nat)
    ensures
        shown_foresights(rows, None, limit) == first_rows(rows, limit),
{
}

/// As many predictions are shown as there are, up to the limit, and each of them is one of those
/// that are active.
pub proof fn shown_are_active_and_few(
    rows: Seq<ForesightRowView>,
    scores: Option<Seq<Option<Score>>>,
    limit: nat,
)
    ensures
        ({
            let shown = shown_foresights(rows, scores, limit);
            &&& shown.len() == if rows.len() < limit {
                rows.len()
            } else {
                limit
            }
            &&& forall|i: int| 0 <= i < shown.len() ==> rows.contains(#[trigger] shown[i])
        }),
{
    broadcast use vstd::seq_lib::group_to_multiset_ensures;

    let shown = shown_foresights(rows, scores, limit);
    match scores {
        Some(known) => {
            let entries = scored(rows, known);
            let list = in_rank_order(entries);
            rank_order_falls(entries);
            rank_order_keeps_all(entries);
            assert forall|i: int| 0 <= i < shown.len() implies rows.contains(
                #[trigger] shown[i],
            ) by {
                assert(list.contains(list[i]));
                assert(entries.to_multiset().count(list[i]) > 0);
                let k = choose|k: int| 0 <= k < entries.len() && entries[k] == list[i];
                assert(rows[k] == shown[i]);
            }
        },
        None => {
            assert forall|i: int| 0 <= i < shown.len() implies rows.contains(
                #[trigger] shown[i],
            ) by {
                assert(rows[i] == shown[i]);
            }
        },
    }
}

/// Where the entries of the ordered list stood.
spec fn rank_places(entries: Seq<Ranked>) -> Seq<int>
    decreases entries.len(),
{
    if entries.len() == 0 {
        Seq::empty()
    } else {
        let front = entries.drop_last();
        rank_places(front).insert(
            rank_place(in_rank_order(front), entries.last().order) as int,
            entries.len() - 1,
        )
    }
}

proof fn places_are_ordered(entries: Seq<Ranked>)
    ensures
        ({
            let places = rank_places(entries);
            let list = in_rank_order(entries);
            &&& places.len() == entries.len()
            &&& list.len() == entries.len()
            &&& forall|i: int| 0 <= i < places.len() ==> 0 <= #[trigger] places[i] < entries.len()
            &&& forall|i: int| 0 <= i < places.len() ==> #[trigger] list[i] == entries[places[i]]
            &&& forall|i: int, j: int|
                0 <= i < j < places.len() ==> #[trigger] places[i] != #[trigger] places[j] && (
                list[i].order > list[j].order || list[i].order == list[j].order && places[i]
                    < places[j])
        }),
    decreases entries.len(),
{
    if entries.len() > 0 {
        let front = entries.drop_last();
        let last = entries.last();
        let list = in_rank_order(front);
        let old_places = rank_places(front);
        let place = rank_place(list, last.order) as int;
        places_are_ordered(front);
        rank_order_falls(front);
        rank_place_splits(list, last.order);
        let places = rank_places(entries);
        let ordered = in_rank_order(entries);
        assert forall|i: int| 0 <= i < places.len() implies (0 <= #[trigger] places[i]
            < entries.len() && ordered[i] == entries[places[i]]) by {
            if i < place {
                assert(places[i] == old_places[i] && ordered[i] == list[i]);
                assert(front[old_places[i]] == entries[old_places[i]]);
            } else if i > place {
                assert(places[i] == old_places[i - 1] && ordered[i] == list[i - 1]);
                assert(front[old_places[i - 1]] == entries[old_places[i - 1]]);
            }
        }
        assert forall|i: int, j: int| 0 <= i < j < places.len() implies #[trigger] places[i]
            != #[trigger] places[j] && (ordered[i].order > ordered[j].order || ordered[i].order
            == ordered[j].order && places[i] < places[j]) by {
            let old_i = if i < place {
                i
            } else {
                i - 1
            };
            let old_j = if j < place {
                j
            } else {
                j - 1
            };
            if i == place {
                assert(places[j] == old_places[old_j] && ordered[j] == list[old_j]);
            } else if j == place {
                assert(places[i] == old_places[old_i] && ordered[i] == list[old_i]);
            } else {
                assert(places[i] == old_places[old_i] && places[j] == old_places[old_j]);
                assert(ordered[i] == list[old_i] && ordered[j] == list[old_j]);
            }
        }
    }
}

proof fn no_place_is_missing(places: Seq<int>, n: nat, r: int)
    requires
        places.len() == n,
        forall|i: int| 0 <= i < places.len() ==> 0 <= #[trigger] places[i] < n,
        forall|i: int, j: int|
            0 <= i < j < places.len() ==> #[trigger] places[i] != #[trigger] places[j],
        0 <= r < n,
    ensures
        exists|i: int| 0 <= i < places.len() && #[trigger] places[i] == r,
    decreases n,
{
    if exists|i: int| 0 <= i < places.len() && #[trigger] places[i] == n - 1 {
        let last = choose|i: int| 0 <= i < places.len() && #[trigger] places[i] == n - 1;
        if r < n - 1 {
            let rest = places.remove(last);
            assert forall|i: int| 0 <= i < rest.len() implies 0 <= #[trigger] rest[i] < n - 1 by {
                let k = if i < last {
                    i
                } else {
                    i + 1
                };
                assert(rest[i] == places[k]);
                if k < last {
                    assert(places[k] != places[last]);
                } else {
                    assert(places[last] != places[k]);
                }
            }
            assert forall|i: int, j: int| 0 <= i < j < rest.len() implies #[trigger] rest[i]
                != #[trigger] rest[j] by {
                let k = if i < last {
                    i
                } else {
                    i + 1
                };
                let l = if j < last {
                    j
                } else {
                    j + 1
                };
                assert(rest[i] == places[k] && rest[j] == places[l]);
            }
            no_place_is_missing(rest, (n - 1) as nat, r);
            let i = choose|i: int| 0 <= i < rest.len() && #[trigger] rest[i] == r;
            let k = if i < last {
                i
            } else {
                i + 1
            };
            assert(places[k] == r);
        }
    } else {
        let rest = places.drop_last();
        assert forall|i: int| 0 <= i < rest.len() implies 0 <= #[trigger] rest[i] < n - 1 by {
            assert(rest[i] == places[i]);
        }
        assert forall|i: int, j: int| 0 <= i < j < rest.len() implies #[trigger] rest[i]
            != #[trigger] rest[j] by {
            assert(rest[i] == places[i] && rest[j] == places[j]);
        }
        assert(0 <= places[n - 1] < n - 1);
        no_place_is_missing(rest, (n - 1) as nat, places[n - 1]);
        let i = choose|i: int| 0 <= i < rest.len() && #[trigger] rest[i] == places[n - 1];
        assert(places[i] != places[n - 1]);
    }
}

/// The similarity of the prediction at a place as an integer that orders it; minus one where there
/// is none that is a number.
pub open spec fn similarity_at(scores: Seq<Option<Score>>, place: int) -> int {
    if scores[place] is Some && !scores[place]->0.is_nan() {
        scores[place]->0.order()
    } else {
        -0x3ff0_0000_0000_0000
    }
}

/// Whether the prediction at one place goes before the one at another: it is more similar, or as
/// similar and newer.
pub open spec fn goes_before(scores: Seq<Option<Score>>, one: int, other: int) -> bool {
    similarity_at(scores, one) > similarity_at(scores, other) || similarity_at(scores, one)
        == similarity_at(scores, other) && one < other
}

/// Whether `places` are those of the shown predictions: each goes before the next ones and before
/// every one that is not shown.
pub open spec fn are_the_most_similar(
    rows: Seq<ForesightRowView>,
    scores: Seq<Option<Score>>,
    shown: Seq<ForesightRowView>,
    places: Seq<int>,
) -> bool {
    &&& places.len() == shown.len()
    &&& forall|i: int|
        0 <= i < places.len() ==> 0 <= #[trigger] places[i] < rows.len() && shown[i]
            == rows[places[i]]
    &&& forall|i: int, j: int|
        0 <= i < j < places.len() ==> goes_before(
            scores,
            #[trigger] places[i],
            #[trigger] places[j],
        )
    &&& forall|i: int, r: int|
        0 <= i < places.len() && 0 <= r < rows.len() && !places.contains(r)
            ==> #[trigger] goes_before(scores, places[i], r)
}

/// Where similarities are given the most similar predictions are shown, in the order of their
/// similarity and the newer first of two that are as similar; where none are given the newest are.
/// As many are shown as there are, up to the limit.
pub proof fn the_most_similar_are_shown(
    rows: Seq<ForesightRowView>,
    scores: Seq<Option<Score>>,
    limit: nat,
)
    requires
        scores.len() == rows.len(),
    ensures
        ({
            let count = if rows.len() < limit {
                rows.len()
            } else {
                limit
            };
            let shown = shown_foresights(rows, Some(scores), limit);
            &&& shown.len() == count
            &&& exists|places: Seq<int>| #[trigger]
                are_the_most_similar(rows, scores, shown, places)
            &&& shown_foresights(rows, None, limit) == rows.take(count as int)
        }),
{
    let count = if rows.len() < limit {
        rows.len()
    } else {
        limit
    };
    let shown = shown_foresights(rows, Some(scores), limit);
    let entries = scored(rows, scores);
    let list = in_rank_order(entries);
    let all = rank_places(entries);
    places_are_ordered(entries);
    let places = all.take(count as int);
    assert(rows.take(rows.len() as int) =~= rows);
    assert forall|i: int| 0 <= i < rows.len() implies (#[trigger] entries[i]).order
        == similarity_at(scores, i) by {}
    assert forall|i: int| 0 <= i < places.len() implies 0 <= #[trigger] places[i] < rows.len()
        && shown[i] == rows[places[i]] by {
        assert(places[i] == all[i]);
        assert(list[i] == entries[all[i]]);
    }
    assert forall|i: int, j: int| 0 <= i < j < places.len() implies goes_before(
        scores,
        #[trigger] places[i],
        #[trigger] places[j],
    ) by {
        assert(all[i] != all[j]);
        assert(list[i] == entries[all[i]] && list[j] == entries[all[j]]);
    }
    assert forall|i: int, r: int|
        0 <= i < places.len() && 0 <= r < rows.len() && !places.contains(r)
            implies #[trigger] goes_before(scores, places[i], r) by {
        no_place_is_missing(all, rows.len(), r);
        let k = choose|k: int| 0 <= k < all.len() && #[trigger] all[k] == r;
        if k < count {
            assert(places[k] == r);
        }
        assert(places[i] == all[i]);
        assert(all[i] != all[k]);
        assert(list[i] == entries[all[i]] && list[k] == entries[all[k]]);
    }
    assert(are_the_most_similar(rows, scores, shown, places));
}

/// A saved episode, a stored fact and a stored prediction hold what was given, each in its own
/// column.
pub proof fn rows_hold_what_was_given(
    id: Seq<char>,
    created_at: Seq<char>,
    data: EpisodeDataView,
    episode_id: Seq<char>,
    fact: AtomicFactView,
    draft: ForesightDraftView,
)
    ensures
        ({
            let saved = saved_episode(id, data, created_at);
            &&& saved.id == id && saved.created_at == created_at
            &&& saved.subject == data.subject
            &&& saved.episode == data.episode
            &&& saved.summary == data.summary
        }),
        ({
            let row = event_log_row(id, episode_id, fact, created_at);
            &&& row.id == id && row.created_at == created_at
            &&& row.episode_id == episode_id
            &&& row.atomic_fact == fact.fact
            &&& row.time_ref == fact.time
        }),
        ({
            let row = foresight_row(id, draft, created_at);
            &&& row.id == id && row.created_at == created_at
            &&& row.episode_id == Some(draft.episode_id)
            &&& row.user_id == Some(draft.user_id)
            &&& row.content == draft.entry.content
            &&& row.evidence == draft.entry.evidence
            &&& row.start_time == draft.entry.start_time
            &&& row.end_time == draft.entry.end_time
            &&& row.embedding == draft.embedding
        }),
{
}

} // verus!
