//! Merging a newly extracted profile into the stored one.

use vstd::prelude::*;

use crate::profile_types::{
    level_rank, Attribute, AttributeView, LeveledAttribute, LeveledAttributeView, ProfileData,
    ProfileView,
};
use crate::profile_types;
use crate::text;

verus! {

/// How many evidences of an attribute survive a merge.
pub const MAX_EVIDENCES: usize = 10;

/// The most recent evidences: the last of the list.
pub open spec fn recent(evidences: Seq<Seq<char>>) -> Seq<Seq<char>> {
    if evidences.len() > MAX_EVIDENCES {
        evidences.skip(evidences.len() - MAX_EVIDENCES)
    } else {
        evidences
    }
}

/// Where `value` first stands among `values`, or their number where it does not.
pub open spec fn first_place(values: Seq<Seq<char>>, value: Seq<char>) -> int
    decreases values.len(),
{
    if values.len() == 0 || values[0] == value {
        0
    } else {
        1 + first_place(values.skip(1), value)
    }
}

/// The values of leveled attributes.
pub open spec fn leveled_values(attributes: Seq<LeveledAttributeView>) -> Seq<Seq<char>> {
    Seq::new(attributes.len(), |i: int| attributes[i].value)
}

/// The values of attributes.
pub open spec fn attribute_values(attributes: Seq<AttributeView>) -> Seq<Seq<char>> {
    Seq::new(attributes.len(), |i: int| attributes[i].value)
}

/// Two leveled attributes of one value in one: the higher level, the older one where they rank
/// the same, and the most recent of their evidences.
pub open spec fn combined_leveled(
    old: LeveledAttributeView,
    new: LeveledAttributeView,
) -> LeveledAttributeView {
    LeveledAttributeView {
        value: old.value,
        level: if profile_types::rank(new.level) > profile_types::rank(old.level) {
            new.level
        } else {
            old.level
        },
        evidences: recent(old.evidences + new.evidences),
    }
}

/// Two attributes of one value in one, with the most recent of their evidences.
pub open spec fn combined_attribute(old: AttributeView, new: AttributeView) -> AttributeView {
    AttributeView { value: old.value, evidences: recent(old.evidences + new.evidences) }
}

/// A leveled attribute with the most recent of its evidences.
pub open spec fn capped_leveled(attribute: LeveledAttributeView) -> LeveledAttributeView {
    LeveledAttributeView { evidences: recent(attribute.evidences), ..attribute }
}

/// An attribute with the most recent of its evidences.
pub open spec fn capped_attribute(attribute: AttributeView) -> AttributeView {
    AttributeView { evidences: recent(attribute.evidences), ..attribute }
}

/// Leveled attributes, each with the most recent of its evidences.
pub open spec fn all_capped_leveled(attributes: Seq<LeveledAttributeView>) -> Seq<
    LeveledAttributeView,
> {
    Seq::new(attributes.len(), |i: int| capped_leveled(attributes[i]))
}

/// Attributes, each with the most recent of its evidences.
pub open spec fn all_capped_attributes(attributes: Seq<AttributeView>) -> Seq<AttributeView> {
    Seq::new(attributes.len(), |i: int| capped_attribute(attributes[i]))
}

/// A list with one leveled attribute taken in: combined with the first of its value, or appended.
pub open spec fn with_leveled(
    attributes: Seq<LeveledAttributeView>,
    new: LeveledAttributeView,
) -> Seq<LeveledAttributeView> {
    let place = first_place(leveled_values(attributes), new.value);
    if place < attributes.len() {
        attributes.update(place, combined_leveled(attributes[place], new))
    } else {
        attributes.push(capped_leveled(new))
    }
}

/// A list with one attribute taken in: combined with the first of its value, or appended.
pub open spec fn with_attribute(
    attributes: Seq<AttributeView>,
    new: AttributeView,
) -> Seq<AttributeView> {
    let place = first_place(attribute_values(attributes), new.value);
    if place < attributes.len() {
        attributes.update(place, combined_attribute(attributes[place], new))
    } else {
        attributes.push(capped_attribute(new))
    }
}

/// A list with the leveled attributes of another taken in, one after the other. No attribute keeps
/// more than its most recent evidences.
pub open spec fn merged_leveled(
    existing: Seq<LeveledAttributeView>,
    incoming: Seq<LeveledAttributeView>,
) -> Seq<LeveledAttributeView>
    decreases incoming.len(),
{
    if incoming.len() == 0 {
        all_capped_leveled(existing)
    } else {
        with_leveled(merged_leveled(existing, incoming.drop_last()), incoming.last())
    }
}

/// A list with the attributes of another taken in, one after the other. No attribute keeps more
/// than its most recent evidences.
pub open spec fn merged_attributes(
    existing: Seq<AttributeView>,
    incoming: Seq<AttributeView>,
) -> Seq<AttributeView>
    decreases incoming.len(),
{
    if incoming.len() == 0 {
        all_capped_attributes(existing)
    } else {
        with_attribute(merged_attributes(existing, incoming.drop_last()), incoming.last())
    }
}

/// A profile with another merged into it.
pub open spec fn merged_profile(existing: ProfileView, incoming: ProfileView) -> ProfileView {
    ProfileView {
        user_name: if incoming.user_name is Some {
            incoming.user_name
        } else {
            existing.user_name
        },
        hard_skills: merged_leveled(existing.hard_skills, incoming.hard_skills),
        soft_skills: merged_leveled(existing.soft_skills, incoming.soft_skills),
        motivation_system: merged_leveled(existing.motivation_system, incoming.motivation_system),
        fear_system: merged_leveled(existing.fear_system, incoming.fear_system),
        value_system: merged_leveled(existing.value_system, incoming.value_system),
        humor_use: merged_leveled(existing.humor_use, incoming.humor_use),
        colloquialism: merged_leveled(existing.colloquialism, incoming.colloquialism),
        personality: merged_attributes(existing.personality, incoming.personality),
        way_of_decision_making: merged_attributes(
            existing.way_of_decision_making,
            incoming.way_of_decision_making,
        ),
        interests: merged_attributes(existing.interests, incoming.interests),
        user_goal: merged_attributes(existing.user_goal, incoming.user_goal),
        work_responsibility: merged_attributes(
            existing.work_responsibility,
            incoming.work_responsibility,
        ),
        working_habit_preference: merged_attributes(
            existing.working_habit_preference,
            incoming.working_habit_preference,
        ),
        tendency: merged_attributes(existing.tendency, incoming.tendency),
    }
}

/// What [`first_place`] finds: a place of the value with no earlier one, or that there is none.
pub proof fn first_place_found(values: Seq<Seq<char>>, value: Seq<char>)
    ensures
        0 <= first_place(values, value) <= values.len(),
        first_place(values, value) < values.len() ==> values[first_place(values, value)] == value,
        forall|k: int| 0 <= k < first_place(values, value) ==> #[trigger] values[k] != value,
    decreases values.len(),
{
    if values.len() > 0 && values[0] != value {
        first_place_found(values.skip(1), value);
        assert forall|k: int| 0 <= k < first_place(values, value) implies #[trigger] values[k]
            != value by {
            if k > 0 {
                assert(values[k] == values.skip(1)[k - 1]);
            }
        }
    }
}

/// The place that is one of the value with no earlier one is the first.
pub proof fn first_place_is(values: Seq<Seq<char>>, value: Seq<char>, at: int)
    requires
        0 <= at <= values.len(),
        at < values.len() ==> values[at] == value,
        forall|k: int| 0 <= k < at ==> #[trigger] values[k] != value,
    ensures
        first_place(values, value) == at,
{
    first_place_found(values, value);
    let found = first_place(values, value);
    if found < at {
        assert(values[found] != value);
    } else if at < found {
        assert(values[at] != value);
    }
}

/// Keeps the most recent evidences.
fn keep_recent(evidences: &Vec<String>) -> (kept: Vec<String>)
    ensures
        text::views(kept@) == recent(text::views(evidences@)),
{
    let start: usize = if evidences.len() > MAX_EVIDENCES {
        evidences.len() - MAX_EVIDENCES
    } else {
        0
    };
    let mut kept: Vec<String> = Vec::new();
    for i in start..evidences.len()
        invariant
            start <= evidences.len(),
            kept.len() == i - start,
            forall|k: int|
                0 <= k < kept.len() ==> (#[trigger] kept@[k])@ == evidences@[start + k]@,
    {
        kept.push(evidences[i].clone());
    }
    assert(text::views(kept@) =~= recent(text::views(evidences@)));
    kept
}

/// Concatenates two lists of evidences and keeps the most recent.
fn merge_evidences(old_evidences: &Vec<String>, new_evidences: &Vec<String>) -> (kept: Vec<String>)
    ensures
        text::views(kept@) == recent(
            text::views(old_evidences@) + text::views(new_evidences@),
        ),
{
    let mut all: Vec<String> = Vec::new();
    let ghost whole = text::views(old_evidences@) + text::views(new_evidences@);
    for i in 0..old_evidences.len()
        invariant
            all.len() == i,
            forall|k: int| 0 <= k < i ==> (#[trigger] all@[k])@ == old_evidences@[k]@,
    {
        all.push(old_evidences[i].clone());
    }
    for i in 0..new_evidences.len()
        invariant
            all.len() == old_evidences.len() + i,
            forall|k: int| 0 <= k < old_evidences.len() ==> (#[trigger] all@[k])@ == old_evidences@[k]@,
            forall|k: int|
                old_evidences.len() <= k < all.len() ==> (#[trigger] all@[k])@
                    == new_evidences@[k - old_evidences.len()]@,
    {
        all.push(new_evidences[i].clone());
    }
    assert(text::views(all@) =~= whole);
    keep_recent(&all)
}

fn cap_leveled(attribute: &LeveledAttribute) -> (result: LeveledAttribute)
    ensures
        result@ == capped_leveled(attribute@),
{
    LeveledAttribute {
        value: attribute.value.clone(),
        level: attribute.level.clone(),
        evidences: keep_recent(&attribute.evidences),
    }
}

fn cap_attribute(attribute: &Attribute) -> (result: Attribute)
    ensures
        result@ == capped_attribute(attribute@),
{
    Attribute { value: attribute.value.clone(), evidences: keep_recent(&attribute.evidences) }
}

fn cap_all_leveled(attributes: &[LeveledAttribute]) -> (result: Vec<LeveledAttribute>)
    ensures
        text::views(result@) == all_capped_leveled(text::views(attributes@)),
{
    let mut result: Vec<LeveledAttribute> = Vec::new();
    let ghost all = all_capped_leveled(text::views(attributes@));
    for i in 0..attributes.len()
        invariant
            all == all_capped_leveled(text::views(attributes@)),
            result.len() == i,
            forall|k: int| 0 <= k < i ==> (#[trigger] result@[k])@ == all[k],
    {
        result.push(cap_leveled(&attributes[i]));
    }
    assert(text::views(result@) =~= all);
    result
}

fn cap_all_attributes(attributes: &[Attribute]) -> (result: Vec<Attribute>)
    ensures
        text::views(result@) == all_capped_attributes(text::views(attributes@)),
{
    let mut result: Vec<Attribute> = Vec::new();
    let ghost all = all_capped_attributes(text::views(attributes@));
    for i in 0..attributes.len()
        invariant
            all == all_capped_attributes(text::views(attributes@)),
            result.len() == i,
            forall|k: int| 0 <= k < i ==> (#[trigger] result@[k])@ == all[k],
    {
        result.push(cap_attribute(&attributes[i]));
    }
    assert(text::views(result@) =~= all);
    result
}

fn combine_leveled(old_one: &LeveledAttribute, new_one: &LeveledAttribute) -> (result:
    LeveledAttribute)
    ensures
        result@ == combined_leveled(old_one@, new_one@),
{
    let level: String = if level_rank(&new_one.level) > level_rank(&old_one.level) {
        new_one.level.clone()
    } else {
        old_one.level.clone()
    };
    LeveledAttribute {
        value: old_one.value.clone(),
        level,
        evidences: merge_evidences(&old_one.evidences, &new_one.evidences),
    }
}

fn combine_attribute(old_one: &Attribute, new_one: &Attribute) -> (result: Attribute)
    ensures
        result@ == combined_attribute(old_one@, new_one@),
{
    Attribute {
        value: old_one.value.clone(),
        evidences: merge_evidences(&old_one.evidences, &new_one.evidences),
    }
}

/// Merges leveled attributes: those of one value become one, at the highest level, and each keeps
/// its most recent evidences.
pub fn merge_leveled(existing: &[LeveledAttribute], incoming: &[LeveledAttribute]) -> (merged: Vec<
    LeveledAttribute,
>)
    ensures
        text::views(merged@) == merged_leveled(text::views(existing@), text::views(incoming@)),
{
    let mut merged: Vec<LeveledAttribute> = cap_all_leveled(existing);
    let ghost olds = text::views(existing@);
    let ghost news = text::views(incoming@);
    assert(news.take(0) =~= Seq::empty());
    for i in 0..incoming.len()
        invariant
            news == text::views(incoming@),
            text::views(merged@) == merged_leveled(olds, news.take(i as int)),
    {
        let ghost before = text::views(merged@);
        let ghost values = leveled_values(before);
        assert(news.take(i + 1).drop_last() =~= news.take(i as int));
        assert(news.take(i + 1).last() == incoming@[i as int]@);
        let mut place: usize = 0;
        while place < merged.len() && merged[place].value != incoming[i].value
            invariant
                before == text::views(merged@),
                values == leveled_values(before),
                0 <= i < incoming.len(),
                place <= merged.len(),
                forall|k: int| 0 <= k < place ==> #[trigger] values[k] != incoming@[i as int].value@,
            ensures
                place <= merged.len(),
                place < merged.len() ==> values[place as int] == incoming@[i as int].value@,
                forall|k: int| 0 <= k < place ==> #[trigger] values[k] != incoming@[i as int].value@,
            decreases merged.len() - place,
        {
            assert(values[place as int] == merged@[place as int].value@);
            place += 1;
        }
        proof {
            first_place_is(values, incoming@[i as int].value@, place as int);
        }
        if place < merged.len() {
            let combined: LeveledAttribute = combine_leveled(&merged[place], &incoming[i]);
            merged.set(place, combined);
            assert(text::views(merged@) =~= before.update(
                place as int,
                combined_leveled(before[place as int], incoming@[i as int]@),
            ));
        } else {
            merged.push(cap_leveled(&incoming[i]));
            assert(text::views(merged@) =~= before.push(
                capped_leveled(incoming@[i as int]@),
            ));
        }
    }
    assert(news.take(news.len() as int) =~= news);
    merged
}

/// Merges attributes: those of one value become one, and each keeps its most recent evidences.
pub fn merge_attributes(existing: &[Attribute], incoming: &[Attribute]) -> (merged: Vec<Attribute>)
    ensures
        text::views(merged@) == merged_attributes(text::views(existing@), text::views(incoming@)),
{
    let mut merged: Vec<Attribute> = cap_all_attributes(existing);
    let ghost olds = text::views(existing@);
    let ghost news = text::views(incoming@);
    assert(news.take(0) =~= Seq::empty());
    for i in 0..incoming.len()
        invariant
            news == text::views(incoming@),
            text::views(merged@) == merged_attributes(olds, news.take(i as int)),
    {
        let ghost before = text::views(merged@);
        let ghost values = attribute_values(before);
        assert(news.take(i + 1).drop_last() =~= news.take(i as int));
        assert(news.take(i + 1).last() == incoming@[i as int]@);
        let mut place: usize = 0;
        while place < merged.len() && merged[place].value != incoming[i].value
            invariant
                before == text::views(merged@),
                values == attribute_values(before),
                0 <= i < incoming.len(),
                place <= merged.len(),
                forall|k: int| 0 <= k < place ==> #[trigger] values[k] != incoming@[i as int].value@,
            ensures
                place <= merged.len(),
                place < merged.len() ==> values[place as int] == incoming@[i as int].value@,
                forall|k: int| 0 <= k < place ==> #[trigger] values[k] != incoming@[i as int].value@,
            decreases merged.len() - place,
        {
            assert(values[place as int] == merged@[place as int].value@);
            place += 1;
        }
        proof {
            first_place_is(values, incoming@[i as int].value@, place as int);
        }
        if place < merged.len() {
            let combined: Attribute = combine_attribute(&merged[place], &incoming[i]);
            merged.set(place, combined);
            assert(text::views(merged@) =~= before.update(
                place as int,
                combined_attribute(before[place as int], incoming@[i as int]@),
            ));
        } else {
            merged.push(cap_attribute(&incoming[i]));
            assert(text::views(merged@) =~= before.push(
                capped_attribute(incoming@[i as int]@),
            ));
        }
    }
    assert(news.take(news.len() as int) =~= news);
    merged
}

/// Merges an incoming profile into an existing one: leveled attributes keep the highest level,
/// attributes are merged by value, every attribute is left with its ten most recent evidences at
/// most, and a name that comes in takes the place of the one that stood there.
pub fn merge_profiles(existing: &ProfileData, incoming: &ProfileData) -> (merged: ProfileData)
    ensures
        merged@ == merged_profile(existing@, incoming@),
{
    let user_name: Option<String> = match &incoming.user_name {
        Some(name) => Some(name.clone()),
        None => existing.user_name.clone(),
    };
    ProfileData {
        user_name,
        hard_skills: merge_leveled(&existing.hard_skills, &incoming.hard_skills),
        soft_skills: merge_leveled(&existing.soft_skills, &incoming.soft_skills),
        motivation_system: merge_leveled(&existing.motivation_system, &incoming.motivation_system),
        fear_system: merge_leveled(&existing.fear_system, &incoming.fear_system),
        value_system: merge_leveled(&existing.value_system, &incoming.value_system),
        humor_use: merge_leveled(&existing.humor_use, &incoming.humor_use),
        colloquialism: merge_leveled(&existing.colloquialism, &incoming.colloquialism),
        personality: merge_attributes(&existing.personality, &incoming.personality),
        way_of_decision_making: merge_attributes(
            &existing.way_of_decision_making,
            &incoming.way_of_decision_making,
        ),
        interests: merge_attributes(&existing.interests, &incoming.interests),
        user_goal: merge_attributes(&existing.user_goal, &incoming.user_goal),
        work_responsibility: merge_attributes(
            &existing.work_responsibility,
            &incoming.work_responsibility,
        ),
        working_habit_preference: merge_attributes(
            &existing.working_habit_preference,
            &incoming.working_habit_preference,
        ),
        tendency: merge_attributes(&existing.tendency, &incoming.tendency),
    }
}

} // verus!
