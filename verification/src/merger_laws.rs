//! What holds of every merge of profiles.

use vstd::prelude::*;

use crate::merger::MAX_EVIDENCES;
use crate::merger;
use crate::profile_types;
use crate::profile_types::{AttributeView, LeveledAttributeView, ProfileView};

verus! {

/// No value stands twice among leveled attributes.
pub open spec fn leveled_distinct(attributes: Seq<LeveledAttributeView>) -> bool {
    forall|i: int, j: int|
        0 <= i < j < attributes.len() ==> (#[trigger] attributes[i]).value != (
        #[trigger] attributes[j]).value
}

/// No value stands twice among attributes.
pub open spec fn attributes_distinct(attributes: Seq<AttributeView>) -> bool {
    forall|i: int, j: int|
        0 <= i < j < attributes.len() ==> (#[trigger] attributes[i]).value != (
        #[trigger] attributes[j]).value
}

/// No leveled attribute has more evidences than a merge keeps.
pub open spec fn leveled_bounded(attributes: Seq<LeveledAttributeView>) -> bool {
    forall|i: int|
        0 <= i < attributes.len() ==> (#[trigger] attributes[i]).evidences.len() <= MAX_EVIDENCES
}

/// No attribute has more evidences than a merge keeps.
pub open spec fn attributes_bounded(attributes: Seq<AttributeView>) -> bool {
    forall|i: int|
        0 <= i < attributes.len() ==> (#[trigger] attributes[i]).evidences.len() <= MAX_EVIDENCES
}

/// No list of the profile holds a value twice.
pub open spec fn profile_distinct(profile: ProfileView) -> bool {
    &&& leveled_distinct(profile.hard_skills)
    &&& leveled_distinct(profile.soft_skills)
    &&& leveled_distinct(profile.motivation_system)
    &&& leveled_distinct(profile.fear_system)
    &&& leveled_distinct(profile.value_system)
    &&& leveled_distinct(profile.humor_use)
    &&& leveled_distinct(profile.colloquialism)
    &&& attributes_distinct(profile.personality)
    &&& attributes_distinct(profile.way_of_decision_making)
    &&& attributes_distinct(profile.interests)
    &&& attributes_distinct(profile.user_goal)
    &&& attributes_distinct(profile.work_responsibility)
    &&& attributes_distinct(profile.working_habit_preference)
    &&& attributes_distinct(profile.tendency)
}

/// No attribute of the profile has more evidences than a merge keeps.
pub open spec fn profile_bounded(profile: ProfileView) -> bool {
    &&& leveled_bounded(profile.hard_skills)
    &&& leveled_bounded(profile.soft_skills)
    &&& leveled_bounded(profile.motivation_system)
    &&& leveled_bounded(profile.fear_system)
    &&& leveled_bounded(profile.value_system)
    &&& leveled_bounded(profile.humor_use)
    &&& leveled_bounded(profile.colloquialism)
    &&& attributes_bounded(profile.personality)
    &&& attributes_bounded(profile.way_of_decision_making)
    &&& attributes_bounded(profile.interests)
    &&& attributes_bounded(profile.user_goal)
    &&& attributes_bounded(profile.work_responsibility)
    &&& attributes_bounded(profile.working_habit_preference)
    &&& attributes_bounded(profile.tendency)
}

proof fn leveled_step(attributes: Seq<LeveledAttributeView>, new: LeveledAttributeView)
    ensures
        ({
            let values = merger::leveled_values(attributes);
            let place = merger::first_place(values, new.value);
            let out = merger::with_leveled(attributes, new);
            &&& 0 <= place <= attributes.len()
            &&& place < attributes.len() ==> attributes[place].value == new.value
            &&& forall|k: int| 0 <= k < place ==> (#[trigger] attributes[k]).value != new.value
            &&& out.len() == if place < attributes.len() {
                attributes.len()
            } else {
                attributes.len() + 1
            }
            &&& merger::leveled_values(out) == if place < attributes.len() {
                values
            } else {
                values.push(new.value)
            }
        }),
{
    let values = merger::leveled_values(attributes);
    let place = merger::first_place(values, new.value);
    merger::first_place_found(values, new.value);
    assert forall|k: int| 0 <= k < place implies (#[trigger] attributes[k]).value != new.value by {
        assert(values[k] == attributes[k].value);
    }
    let out = merger::with_leveled(attributes, new);
    if place < attributes.len() {
        assert(merger::leveled_values(out) =~= values);
    } else {
        assert(merger::leveled_values(out) =~= values.push(new.value));
    }
}

proof fn attribute_step(attributes: Seq<AttributeView>, new: AttributeView)
    ensures
        ({
            let values = merger::attribute_values(attributes);
            let place = merger::first_place(values, new.value);
            let out = merger::with_attribute(attributes, new);
            &&& 0 <= place <= attributes.len()
            &&& place < attributes.len() ==> attributes[place].value == new.value
            &&& forall|k: int| 0 <= k < place ==> (#[trigger] attributes[k]).value != new.value
            &&& out.len() == if place < attributes.len() {
                attributes.len()
            } else {
                attributes.len() + 1
            }
            &&& merger::attribute_values(out) == if place < attributes.len() {
                values
            } else {
                values.push(new.value)
            }
        }),
{
    let values = merger::attribute_values(attributes);
    let place = merger::first_place(values, new.value);
    merger::first_place_found(values, new.value);
    assert forall|k: int| 0 <= k < place implies (#[trigger] attributes[k]).value != new.value by {
        assert(values[k] == attributes[k].value);
    }
    let out = merger::with_attribute(attributes, new);
    if place < attributes.len() {
        assert(merger::attribute_values(out) =~= values);
    } else {
        assert(merger::attribute_values(out) =~= values.push(new.value));
    }
}

proof fn recent_of_recent(first: Seq<Seq<char>>, second: Seq<Seq<char>>)
    ensures
        merger::recent(merger::recent(first) + second) == merger::recent(first + second),
        merger::recent(first + merger::recent(second)) == merger::recent(first + second),
        merger::recent(merger::recent(first)) == merger::recent(first),
{
    assert(merger::recent(merger::recent(first) + second) =~= merger::recent(first + second));
    assert(merger::recent(first + merger::recent(second)) =~= merger::recent(first + second));
}

proof fn same_first_place(
    before: Seq<Seq<char>>,
    after: Seq<Seq<char>>,
    value: Seq<char>,
    at: int,
)
    requires
        0 <= at < before.len() <= after.len(),
        before[at] == value,
        forall|k: int| 0 <= k < before.len() ==> #[trigger] before[k] == after[k],
    ensures
        merger::first_place(before, value) == merger::first_place(after, value),
        merger::first_place(before, value) <= at,
{
    merger::first_place_found(before, value);
    merger::first_place_found(after, value);
    let early = merger::first_place(before, value);
    let late = merger::first_place(after, value);
    assert(after[at] == value);
    if early < late {
        assert(before[early] == after[early]);
    } else if late < early {
        assert(before[late] == after[late]);
    }
}

/// A merge keeps every leveled attribute that stood there, at its place and never at a lower
/// level.
pub proof fn leveled_never_downgraded(
    existing: Seq<LeveledAttributeView>,
    incoming: Seq<LeveledAttributeView>,
)
    ensures
        merger::merged_leveled(existing, incoming).len() >= existing.len(),
        forall|i: int|
            #![trigger merger::merged_leveled(existing, incoming)[i]]
            0 <= i < existing.len() ==> {
                let kept = merger::merged_leveled(existing, incoming)[i];
                &&& kept.value == existing[i].value
                &&& profile_types::rank(kept.level) >= profile_types::rank(existing[i].level)
            },
    decreases incoming.len(),
{
    if incoming.len() > 0 {
        leveled_never_downgraded(existing, incoming.drop_last());
        leveled_step(merger::merged_leveled(existing, incoming.drop_last()), incoming.last());
    }
}

/// A merge takes in every leveled attribute that comes: its value is there, at a level that is
/// not lower.
pub proof fn leveled_all_taken_in(
    existing: Seq<LeveledAttributeView>,
    incoming: Seq<LeveledAttributeView>,
    k: int,
)
    requires
        0 <= k < incoming.len(),
    ensures
        exists|i: int|
            0 <= i < merger::merged_leveled(existing, incoming).len() && {
                let taken = #[trigger] merger::merged_leveled(existing, incoming)[i];
                &&& taken.value == incoming[k].value
                &&& profile_types::rank(taken.level) >= profile_types::rank(incoming[k].level)
            },
    decreases incoming.len(),
{
    let rest = incoming.drop_last();
    let before = merger::merged_leveled(existing, rest);
    let after = merger::merged_leveled(existing, incoming);
    leveled_step(before, incoming.last());
    if k == incoming.len() - 1 {
        let place = merger::first_place(merger::leveled_values(before), incoming[k].value);
        assert(after[place].value == incoming[k].value);
    } else {
        leveled_all_taken_in(existing, rest, k);
        let i = choose|i: int|
            0 <= i < before.len() && (#[trigger] before[i]).value == rest[k].value
                && profile_types::rank(before[i].level) >= profile_types::rank(rest[k].level);
        assert(after[i].value == incoming[k].value);
    }
}

/// A merge invents no level: the level of every merged attribute was given with its value, by
/// the existing list at that place or by an incoming attribute. With the two laws above, the
/// level that stays is the highest of those given.
pub proof fn leveled_level_was_given(
    existing: Seq<LeveledAttributeView>,
    incoming: Seq<LeveledAttributeView>,
    i: int,
)
    requires
        0 <= i < merger::merged_leveled(existing, incoming).len(),
    ensures
        ({
            let kept = merger::merged_leveled(existing, incoming)[i];
            ||| i < existing.len() && kept.value == existing[i].value && kept.level
                == existing[i].level
            ||| exists|k: int|
                0 <= k < incoming.len() && (#[trigger] incoming[k]).value == kept.value
                    && incoming[k].level == kept.level
        }),
    decreases incoming.len(),
{
    if incoming.len() > 0 {
        let rest = incoming.drop_last();
        let before = merger::merged_leveled(existing, rest);
        let after = merger::merged_leveled(existing, incoming);
        let new = incoming.last();
        leveled_step(before, new);
        let place = merger::first_place(merger::leveled_values(before), new.value);
        if i == place {
            assert(incoming[incoming.len() - 1] == new);
        }
        if i < before.len() {
            leveled_level_was_given(existing, rest, i);
            if exists|k: int|
                0 <= k < rest.len() && (#[trigger] rest[k]).value == before[i].value
                    && rest[k].level == before[i].level {
                let k = choose|k: int|
                    0 <= k < rest.len() && (#[trigger] rest[k]).value == before[i].value
                        && rest[k].level == before[i].level;
                assert(incoming[k] == rest[k]);
            }
        }
    }
}

/// A list without a value that stands twice stays so, whatever comes in.
pub proof fn leveled_stay_distinct(
    existing: Seq<LeveledAttributeView>,
    incoming: Seq<LeveledAttributeView>,
)
    requires
        leveled_distinct(existing),
    ensures
        leveled_distinct(merger::merged_leveled(existing, incoming)),
    decreases incoming.len(),
{
    if incoming.len() > 0 {
        leveled_stay_distinct(existing, incoming.drop_last());
        leveled_step(merger::merged_leveled(existing, incoming.drop_last()), incoming.last());
    }
}

/// However many evidences the attributes of the two lists have, no leveled attribute of the
/// merged list has more than a merge keeps.
pub proof fn leveled_stay_bounded(
    existing: Seq<LeveledAttributeView>,
    incoming: Seq<LeveledAttributeView>,
)
    ensures
        leveled_bounded(merger::merged_leveled(existing, incoming)),
    decreases incoming.len(),
{
    if incoming.len() > 0 {
        leveled_stay_bounded(existing, incoming.drop_last());
        leveled_step(merger::merged_leveled(existing, incoming.drop_last()), incoming.last());
    }
}

proof fn leveled_already_capped(attributes: Seq<LeveledAttributeView>)
    requires
        leveled_bounded(attributes),
    ensures
        merger::all_capped_leveled(attributes) == attributes,
{
    assert forall|i: int| 0 <= i < attributes.len() implies merger::all_capped_leveled(
        attributes,
    )[i] == #[trigger] attributes[i] by {}
    assert(merger::all_capped_leveled(attributes) =~= attributes);
}

/// The evidences of all attributes of a value, in the order in which they come.
pub open spec fn given_to_leveled(
    incoming: Seq<LeveledAttributeView>,
    value: Seq<char>,
) -> Seq<Seq<char>>
    decreases incoming.len(),
{
    if incoming.len() == 0 {
        Seq::empty()
    } else if incoming.last().value == value {
        given_to_leveled(incoming.drop_last(), value) + incoming.last().evidences
    } else {
        given_to_leveled(incoming.drop_last(), value)
    }
}

/// The evidences of a merged leveled attribute are the most recent of all that were given with its
/// value: those that stood there and then those that came in, in their order. Where a value stands
/// twice in the existing list, this goes for the first, and the later ones keep the most recent of
/// their own.
pub proof fn leveled_keep_the_most_recent(
    existing: Seq<LeveledAttributeView>,
    incoming: Seq<LeveledAttributeView>,
    i: int,
)
    requires
        0 <= i < merger::merged_leveled(existing, incoming).len(),
    ensures
        ({
            let merged = merger::merged_leveled(existing, incoming);
            let stood = if i < existing.len() {
                existing[i].evidences
            } else {
                Seq::empty()
            };
            let value = merged[i].value;
            merged[i].evidences
                == if merger::first_place(merger::leveled_values(merged), value) == i {
                merger::recent(stood + given_to_leveled(incoming, value))
            } else {
                merger::recent(stood)
            }
        }),
    decreases incoming.len(),
{
    let merged = merger::merged_leveled(existing, incoming);
    let values = merger::leveled_values(merged);
    let value = merged[i].value;
    let stood = if i < existing.len() {
        existing[i].evidences
    } else {
        Seq::empty()
    };
    merger::first_place_found(values, value);
    assert(values[i] == value);
    if incoming.len() == 0 {
        assert(stood + Seq::empty() =~= stood);
    } else {
        let rest = incoming.drop_last();
        let new = incoming.last();
        let before = merger::merged_leveled(existing, rest);
        leveled_never_downgraded(existing, rest);
        leveled_step(before, new);
        merger::first_place_found(merger::leveled_values(before), value);
        merger::first_place_found(values, new.value);
        let given = given_to_leveled(rest, value);
        if i < before.len() {
            leveled_keep_the_most_recent(existing, rest, i);
            assert(before[i].value == value);
            same_first_place(merger::leveled_values(before), values, value, i);
            recent_of_recent(stood + given, new.evidences);
            assert(stood + given + new.evidences =~= stood + (given + new.evidences));
        } else {
            leveled_nothing_given(existing, rest, value);
            assert(stood + (given + new.evidences) =~= new.evidences);
            assert(merger::first_place(values, value) == i);
        }
    }
}

proof fn leveled_nothing_given(
    existing: Seq<LeveledAttributeView>,
    incoming: Seq<LeveledAttributeView>,
    value: Seq<char>,
)
    requires
        forall|k: int|
            0 <= k < merger::merged_leveled(existing, incoming).len() ==> (
            #[trigger] merger::merged_leveled(existing, incoming)[k]).value != value,
    ensures
        given_to_leveled(incoming, value) == Seq::<Seq<char>>::empty(),
    decreases incoming.len(),
{
    if incoming.len() > 0 {
        let rest = incoming.drop_last();
        let before = merger::merged_leveled(existing, rest);
        let merged = merger::merged_leveled(existing, incoming);
        leveled_step(before, incoming.last());
        let place = merger::first_place(merger::leveled_values(before), incoming.last().value);
        assert(merged[place].value == incoming.last().value);
        assert forall|k: int| 0 <= k < before.len() implies (#[trigger] before[k]).value
            != value by {
            assert(merged[k].value == before[k].value);
        }
        leveled_nothing_given(existing, rest, value);
    }
}

/// Merging two lists one after the other is merging them at once.
pub proof fn leveled_merge_in_turns(
    existing: Seq<LeveledAttributeView>,
    first: Seq<LeveledAttributeView>,
    second: Seq<LeveledAttributeView>,
)
    ensures
        merger::merged_leveled(merger::merged_leveled(existing, first), second)
            == merger::merged_leveled(existing, first + second),
    decreases second.len(),
{
    if second.len() == 0 {
        assert(first + second =~= first);
        leveled_stay_bounded(existing, first);
        leveled_already_capped(merger::merged_leveled(existing, first));
    } else {
        leveled_merge_in_turns(existing, first, second.drop_last());
        assert((first + second).drop_last() =~= first + second.drop_last());
        assert((first + second).last() == second.last());
    }
}

proof fn leveled_place(attributes: Seq<LeveledAttributeView>, value: Seq<char>, at: int)
    requires
        0 <= at <= attributes.len(),
        at < attributes.len() ==> attributes[at].value == value,
        forall|k: int| 0 <= k < at ==> (#[trigger] attributes[k]).value != value,
    ensures
        merger::first_place(merger::leveled_values(attributes), value) == at,
{
    let values = merger::leveled_values(attributes);
    assert forall|k: int| 0 <= k < at implies #[trigger] values[k] != value by {
        assert(attributes[k].value != value);
    }
    merger::first_place_is(values, value, at);
}

proof fn leveled_combined_first(
    attributes: Seq<LeveledAttributeView>,
    old: LeveledAttributeView,
    new: LeveledAttributeView,
)
    requires
        old.value == new.value,
    ensures
        merger::with_leveled(attributes, merger::combined_leveled(old, new))
            == merger::with_leveled(
            merger::with_leveled(attributes, old),
            new,
        ),
{
    let between = merger::with_leveled(attributes, old);
    leveled_step(attributes, old);
    let place = merger::first_place(merger::leveled_values(attributes), old.value);
    leveled_place(between, new.value, place);
    recent_of_recent(old.evidences, new.evidences);
    recent_of_recent(old.evidences + new.evidences, Seq::empty());
    if place < attributes.len() {
        let stood = attributes[place].evidences;
        recent_of_recent(stood + old.evidences, new.evidences);
        recent_of_recent(stood, old.evidences + new.evidences);
        assert(stood + old.evidences + new.evidences =~= stood + (old.evidences
            + new.evidences));
    }
    assert(merger::with_leveled(attributes, merger::combined_leveled(old, new))
        =~= merger::with_leveled(between, new));
}

proof fn leveled_in_either_order(
    attributes: Seq<LeveledAttributeView>,
    present: LeveledAttributeView,
    other: LeveledAttributeView,
    at: int,
)
    requires
        0 <= at < attributes.len(),
        attributes[at].value == present.value,
        present.value != other.value,
    ensures
        merger::with_leveled(merger::with_leveled(attributes, present), other)
            == merger::with_leveled(
            merger::with_leveled(attributes, other),
            present,
        ),
{
    leveled_step(attributes, present);
    leveled_step(attributes, other);
    let here = merger::first_place(merger::leveled_values(attributes), present.value);
    let there = merger::first_place(merger::leveled_values(attributes), other.value);
    if here >= attributes.len() {
        assert(attributes[at].value != present.value);
    }
    let one = merger::with_leveled(attributes, present);
    let two = merger::with_leveled(attributes, other);
    leveled_place(one, other.value, there);
    leveled_place(two, present.value, here);
    assert(merger::with_leveled(one, other) =~= merger::with_leveled(two, present));
}

proof fn leveled_capped_before(
    existing: Seq<LeveledAttributeView>,
    incoming: Seq<LeveledAttributeView>,
)
    ensures
        merger::merged_leveled(existing, merger::all_capped_leveled(incoming))
            == merger::merged_leveled(
            existing,
            incoming,
        ),
    decreases incoming.len(),
{
    let capped = merger::all_capped_leveled(incoming);
    if incoming.len() > 0 {
        let last = incoming.last();
        leveled_capped_before(existing, incoming.drop_last());
        assert(capped.drop_last() =~= merger::all_capped_leveled(incoming.drop_last()));
        let before = merger::merged_leveled(existing, incoming.drop_last());
        leveled_step(before, last);
        let place = merger::first_place(merger::leveled_values(before), last.value);
        recent_of_recent(last.evidences, Seq::empty());
        if place < before.len() {
            recent_of_recent(before[place].evidences, last.evidences);
        }
        assert(merger::with_leveled(before, merger::capped_leveled(last))
            =~= merger::with_leveled(before, last));
    } else {
        assert(capped =~= incoming);
    }
}

proof fn leveled_one_more(
    existing: Seq<LeveledAttributeView>,
    incoming: Seq<LeveledAttributeView>,
    new: LeveledAttributeView,
)
    requires
        leveled_distinct(incoming),
    ensures
        merger::with_leveled(merger::merged_leveled(existing, incoming), new)
            == merger::merged_leveled(
            existing,
            merger::with_leveled(incoming, new),
        ),
    decreases incoming.len(),
{
    leveled_step(incoming, new);
    let merged = merger::merged_leveled(existing, incoming);
    let extended = merger::with_leveled(incoming, new);
    let place = merger::first_place(merger::leveled_values(incoming), new.value);
    if place == incoming.len() {
        assert(extended.drop_last() =~= incoming);
        leveled_step(merged, new);
        let spot = merger::first_place(merger::leveled_values(merged), new.value);
        recent_of_recent(new.evidences, Seq::empty());
        if spot < merged.len() {
            recent_of_recent(merged[spot].evidences, new.evidences);
        }
        assert(merger::with_leveled(merged, merger::capped_leveled(new))
            =~= merger::with_leveled(merged, new));
    } else {
        let rest = incoming.drop_last();
        let last = incoming.last();
        let before = merger::merged_leveled(existing, rest);
        if place == incoming.len() - 1 {
            assert(extended.drop_last() =~= rest);
            leveled_combined_first(before, last, new);
        } else {
            assert(incoming[place].value != incoming[incoming.len() - 1].value);
            leveled_place(rest, new.value, place);
            assert(merger::with_leveled(rest, new) =~= extended.drop_last());
            leveled_one_more(existing, rest, new);
            leveled_all_taken_in(existing, rest, place);
            let at = choose|i: int|
                0 <= i < before.len() && (#[trigger] before[i]).value == rest[place].value;
            leveled_in_either_order(before, new, last, at);
        }
    }
}

/// Three lists can be merged in either grouping, where the one in the middle holds no value twice.
pub proof fn leveled_merge_in_either_grouping(
    first: Seq<LeveledAttributeView>,
    second: Seq<LeveledAttributeView>,
    third: Seq<LeveledAttributeView>,
)
    requires
        leveled_distinct(second),
    ensures
        merger::merged_leveled(merger::merged_leveled(first, second), third)
            == merger::merged_leveled(
            first,
            merger::merged_leveled(second, third),
        ),
    decreases third.len(),
{
    if third.len() == 0 {
        leveled_stay_bounded(first, second);
        leveled_already_capped(merger::merged_leveled(first, second));
        leveled_capped_before(first, second);
    } else {
        let rest = third.drop_last();
        leveled_merge_in_either_grouping(first, second, rest);
        leveled_stay_distinct(second, rest);
        leveled_one_more(first, merger::merged_leveled(second, rest), third.last());
    }
}

/// A list without a value that stands twice and without an attribute that has too many evidences,
/// merged into an empty one, comes out as it went in.
pub proof fn leveled_into_empty(incoming: Seq<LeveledAttributeView>)
    requires
        leveled_distinct(incoming),
        leveled_bounded(incoming),
    ensures
        merger::merged_leveled(Seq::empty(), incoming) == incoming,
    decreases incoming.len(),
{
    if incoming.len() == 0 {
        assert(merger::merged_leveled(Seq::empty(), incoming) =~= incoming);
    } else {
        let rest = incoming.drop_last();
        assert forall|i: int| 0 <= i < rest.len() implies (#[trigger] rest[i]).evidences.len()
            <= MAX_EVIDENCES by {
            assert(rest[i] == incoming[i]);
        }
        assert(incoming[incoming.len() - 1].evidences.len() <= MAX_EVIDENCES);
        leveled_into_empty(rest);
        leveled_step(rest, incoming.last());
        let place = merger::first_place(merger::leveled_values(rest), incoming.last().value);
        if place < rest.len() {
            assert(incoming[place].value != incoming[incoming.len() - 1].value);
        }
        assert(rest.push(incoming.last()) =~= incoming);
    }
}

/// A merge keeps every attribute that stood there, at its place.
pub proof fn attributes_stay_in_place(
    existing: Seq<AttributeView>,
    incoming: Seq<AttributeView>,
)
    ensures
        merger::merged_attributes(existing, incoming).len() >= existing.len(),
        forall|i: int|
            #![trigger merger::merged_attributes(existing, incoming)[i]]
            0 <= i < existing.len() ==> merger::merged_attributes(existing, incoming)[i].value
                == existing[i].value,
    decreases incoming.len(),
{
    if incoming.len() > 0 {
        attributes_stay_in_place(existing, incoming.drop_last());
        attribute_step(merger::merged_attributes(existing, incoming.drop_last()), incoming.last());
    }
}

/// A merge takes in the value of every attribute that comes.
pub proof fn attributes_all_taken_in(
    existing: Seq<AttributeView>,
    incoming: Seq<AttributeView>,
    k: int,
)
    requires
        0 <= k < incoming.len(),
    ensures
        exists|i: int|
            0 <= i < merger::merged_attributes(existing, incoming).len() && (
            #[trigger] merger::merged_attributes(existing, incoming)[i]).value == incoming[k].value,
    decreases incoming.len(),
{
    let rest = incoming.drop_last();
    let before = merger::merged_attributes(existing, rest);
    let after = merger::merged_attributes(existing, incoming);
    attribute_step(before, incoming.last());
    if k == incoming.len() - 1 {
        let place = merger::first_place(merger::attribute_values(before), incoming[k].value);
        assert(after[place].value == incoming[k].value);
    } else {
        attributes_all_taken_in(existing, rest, k);
        let i = choose|i: int|
            0 <= i < before.len() && (#[trigger] before[i]).value == rest[k].value;
        assert(after[i].value == incoming[k].value);
    }
}

/// A merge invents no attribute: every value that it holds was given.
pub proof fn attributes_value_was_given(
    existing: Seq<AttributeView>,
    incoming: Seq<AttributeView>,
    i: int,
)
    requires
        existing.len() <= i < merger::merged_attributes(existing, incoming).len(),
    ensures
        exists|k: int|
            0 <= k < incoming.len() && (#[trigger] incoming[k]).value == merger::merged_attributes(
                existing,
                incoming,
            )[i].value,
    decreases incoming.len(),
{
    if incoming.len() > 0 {
        let rest = incoming.drop_last();
        let before = merger::merged_attributes(existing, rest);
        attribute_step(before, incoming.last());
        if i < before.len() {
            attributes_value_was_given(existing, rest, i);
            let k = choose|k: int|
                0 <= k < rest.len() && (#[trigger] rest[k]).value == before[i].value;
            assert(incoming[k] == rest[k]);
        } else {
            assert(incoming[incoming.len() - 1] == incoming.last());
        }
    }
}

/// A list without a value that stands twice stays so, whatever comes in.
pub proof fn attributes_stay_distinct(
    existing: Seq<AttributeView>,
    incoming: Seq<AttributeView>,
)
    requires
        attributes_distinct(existing),
    ensures
        attributes_distinct(merger::merged_attributes(existing, incoming)),
    decreases incoming.len(),
{
    if incoming.len() > 0 {
        attributes_stay_distinct(existing, incoming.drop_last());
        attribute_step(merger::merged_attributes(existing, incoming.drop_last()), incoming.last());
    }
}

/// However many evidences the attributes of the two lists have, no attribute of the merged list
/// has more than a merge keeps.
pub proof fn attributes_stay_bounded(existing: Seq<AttributeView>, incoming: Seq<AttributeView>)
    ensures
        attributes_bounded(merger::merged_attributes(existing, incoming)),
    decreases incoming.len(),
{
    if incoming.len() > 0 {
        attributes_stay_bounded(existing, incoming.drop_last());
        attribute_step(merger::merged_attributes(existing, incoming.drop_last()), incoming.last());
    }
}

proof fn attributes_already_capped(attributes: Seq<AttributeView>)
    requires
        attributes_bounded(attributes),
    ensures
        merger::all_capped_attributes(attributes) == attributes,
{
    assert forall|i: int| 0 <= i < attributes.len() implies merger::all_capped_attributes(
        attributes,
    )[i] == #[trigger] attributes[i] by {}
    assert(merger::all_capped_attributes(attributes) =~= attributes);
}

/// The evidences of all attributes of a value, in the order in which they come.
pub open spec fn given_to_attributes(
    incoming: Seq<AttributeView>,
    value: Seq<char>,
) -> Seq<Seq<char>>
    decreases incoming.len(),
{
    if incoming.len() == 0 {
        Seq::empty()
    } else if incoming.last().value == value {
        given_to_attributes(incoming.drop_last(), value) + incoming.last().evidences
    } else {
        given_to_attributes(incoming.drop_last(), value)
    }
}

/// The evidences of a merged attribute are the most recent of all that were given with its
/// value: those that stood there and then those that came in, in their order. Where a value stands
/// twice in the existing list, this goes for the first, and the later ones keep the most recent of
/// their own.
pub proof fn attributes_keep_the_most_recent(
    existing: Seq<AttributeView>,
    incoming: Seq<AttributeView>,
    i: int,
)
    requires
        0 <= i < merger::merged_attributes(existing, incoming).len(),
    ensures
        ({
            let merged = merger::merged_attributes(existing, incoming);
            let stood = if i < existing.len() {
                existing[i].evidences
            } else {
                Seq::empty()
            };
            let value = merged[i].value;
            merged[i].evidences
                == if merger::first_place(merger::attribute_values(merged), value) == i {
                merger::recent(stood + given_to_attributes(incoming, value))
            } else {
                merger::recent(stood)
            }
        }),
    decreases incoming.len(),
{
    let merged = merger::merged_attributes(existing, incoming);
    let values = merger::attribute_values(merged);
    let value = merged[i].value;
    let stood = if i < existing.len() {
        existing[i].evidences
    } else {
        Seq::empty()
    };
    merger::first_place_found(values, value);
    assert(values[i] == value);
    if incoming.len() == 0 {
        assert(stood + Seq::empty() =~= stood);
    } else {
        let rest = incoming.drop_last();
        let new = incoming.last();
        let before = merger::merged_attributes(existing, rest);
        attributes_stay_in_place(existing, rest);
        attribute_step(before, new);
        merger::first_place_found(merger::attribute_values(before), value);
        merger::first_place_found(values, new.value);
        let given = given_to_attributes(rest, value);
        if i < before.len() {
            attributes_keep_the_most_recent(existing, rest, i);
            assert(before[i].value == value);
            same_first_place(merger::attribute_values(before), values, value, i);
            recent_of_recent(stood + given, new.evidences);
            assert(stood + given + new.evidences =~= stood + (given + new.evidences));
        } else {
            attributes_nothing_given(existing, rest, value);
            assert(stood + (given + new.evidences) =~= new.evidences);
            assert(merger::first_place(values, value) == i);
        }
    }
}

proof fn attributes_nothing_given(
    existing: Seq<AttributeView>,
    incoming: Seq<AttributeView>,
    value: Seq<char>,
)
    requires
        forall|k: int|
            0 <= k < merger::merged_attributes(existing, incoming).len() ==> (
            #[trigger] merger::merged_attributes(existing, incoming)[k]).value != value,
    ensures
        given_to_attributes(incoming, value) == Seq::<Seq<char>>::empty(),
    decreases incoming.len(),
{
    if incoming.len() > 0 {
        let rest = incoming.drop_last();
        let before = merger::merged_attributes(existing, rest);
        let merged = merger::merged_attributes(existing, incoming);
        attribute_step(before, incoming.last());
        let place = merger::first_place(merger::attribute_values(before), incoming.last().value);
        assert(merged[place].value == incoming.last().value);
        assert forall|k: int| 0 <= k < before.len() implies (#[trigger] before[k]).value
            != value by {
            assert(merged[k].value == before[k].value);
        }
        attributes_nothing_given(existing, rest, value);
    }
}

/// Merging two lists one after the other is merging them at once.
pub proof fn attributes_merge_in_turns(
    existing: Seq<AttributeView>,
    first: Seq<AttributeView>,
    second: Seq<AttributeView>,
)
    ensures
        merger::merged_attributes(merger::merged_attributes(existing, first), second)
            == merger::merged_attributes(existing, first + second),
    decreases second.len(),
{
    if second.len() == 0 {
        assert(first + second =~= first);
        attributes_stay_bounded(existing, first);
        attributes_already_capped(merger::merged_attributes(existing, first));
    } else {
        attributes_merge_in_turns(existing, first, second.drop_last());
        assert((first + second).drop_last() =~= first + second.drop_last());
        assert((first + second).last() == second.last());
    }
}

proof fn attributes_place(attributes: Seq<AttributeView>, value: Seq<char>, at: int)
    requires
        0 <= at <= attributes.len(),
        at < attributes.len() ==> attributes[at].value == value,
        forall|k: int| 0 <= k < at ==> (#[trigger] attributes[k]).value != value,
    ensures
        merger::first_place(merger::attribute_values(attributes), value) == at,
{
    let values = merger::attribute_values(attributes);
    assert forall|k: int| 0 <= k < at implies #[trigger] values[k] != value by {
        assert(attributes[k].value != value);
    }
    merger::first_place_is(values, value, at);
}

proof fn attributes_combined_first(
    attributes: Seq<AttributeView>,
    old: AttributeView,
    new: AttributeView,
)
    requires
        old.value == new.value,
    ensures
        merger::with_attribute(attributes, merger::combined_attribute(old, new))
            == merger::with_attribute(
            merger::with_attribute(attributes, old),
            new,
        ),
{
    let between = merger::with_attribute(attributes, old);
    attribute_step(attributes, old);
    let place = merger::first_place(merger::attribute_values(attributes), old.value);
    attributes_place(between, new.value, place);
    recent_of_recent(old.evidences, new.evidences);
    recent_of_recent(old.evidences + new.evidences, Seq::empty());
    if place < attributes.len() {
        let stood = attributes[place].evidences;
        recent_of_recent(stood + old.evidences, new.evidences);
        recent_of_recent(stood, old.evidences + new.evidences);
        assert(stood + old.evidences + new.evidences =~= stood + (old.evidences
            + new.evidences));
    }
    assert(merger::with_attribute(attributes, merger::combined_attribute(old, new))
        =~= merger::with_attribute(between, new));
}

proof fn attributes_in_either_order(
    attributes: Seq<AttributeView>,
    present: AttributeView,
    other: AttributeView,
    at: int,
)
    requires
        0 <= at < attributes.len(),
        attributes[at].value == present.value,
        present.value != other.value,
    ensures
        merger::with_attribute(merger::with_attribute(attributes, present), other)
            == merger::with_attribute(
            merger::with_attribute(attributes, other),
            present,
        ),
{
    attribute_step(attributes, present);
    attribute_step(attributes, other);
    let here = merger::first_place(merger::attribute_values(attributes), present.value);
    let there = merger::first_place(merger::attribute_values(attributes), other.value);
    if here >= attributes.len() {
        assert(attributes[at].value != present.value);
    }
    let one = merger::with_attribute(attributes, present);
    let two = merger::with_attribute(attributes, other);
    attributes_place(one, other.value, there);
    attributes_place(two, present.value, here);
    assert(merger::with_attribute(one, other) =~= merger::with_attribute(two, present));
}

proof fn attributes_capped_before(existing: Seq<AttributeView>, incoming: Seq<AttributeView>)
    ensures
        merger::merged_attributes(existing, merger::all_capped_attributes(incoming))
            == merger::merged_attributes(
            existing,
            incoming,
        ),
    decreases incoming.len(),
{
    let capped = merger::all_capped_attributes(incoming);
    if incoming.len() > 0 {
        let last = incoming.last();
        attributes_capped_before(existing, incoming.drop_last());
        assert(capped.drop_last() =~= merger::all_capped_attributes(incoming.drop_last()));
        let before = merger::merged_attributes(existing, incoming.drop_last());
        attribute_step(before, last);
        let place = merger::first_place(merger::attribute_values(before), last.value);
        recent_of_recent(last.evidences, Seq::empty());
        if place < before.len() {
            recent_of_recent(before[place].evidences, last.evidences);
        }
        assert(merger::with_attribute(before, merger::capped_attribute(last))
            =~= merger::with_attribute(before, last));
    } else {
        assert(capped =~= incoming);
    }
}

proof fn attributes_one_more(
    existing: Seq<AttributeView>,
    incoming: Seq<AttributeView>,
    new: AttributeView,
)
    requires
        attributes_distinct(incoming),
    ensures
        merger::with_attribute(merger::merged_attributes(existing, incoming), new)
            == merger::merged_attributes(
            existing,
            merger::with_attribute(incoming, new),
        ),
    decreases incoming.len(),
{
    attribute_step(incoming, new);
    let merged = merger::merged_attributes(existing, incoming);
    let extended = merger::with_attribute(incoming, new);
    let place = merger::first_place(merger::attribute_values(incoming), new.value);
    if place == incoming.len() {
        assert(extended.drop_last() =~= incoming);
        attribute_step(merged, new);
        let spot = merger::first_place(merger::attribute_values(merged), new.value);
        recent_of_recent(new.evidences, Seq::empty());
        if spot < merged.len() {
            recent_of_recent(merged[spot].evidences, new.evidences);
        }
        assert(merger::with_attribute(merged, merger::capped_attribute(new))
            =~= merger::with_attribute(merged, new));
    } else {
        let rest = incoming.drop_last();
        let last = incoming.last();
        let before = merger::merged_attributes(existing, rest);
        if place == incoming.len() - 1 {
            assert(extended.drop_last() =~= rest);
            attributes_combined_first(before, last, new);
        } else {
            assert(incoming[place].value != incoming[incoming.len() - 1].value);
            attributes_place(rest, new.value, place);
            assert(merger::with_attribute(rest, new) =~= extended.drop_last());
            attributes_one_more(existing, rest, new);
            attributes_all_taken_in(existing, rest, place);
            let at = choose|i: int|
                0 <= i < before.len() && (#[trigger] before[i]).value == rest[place].value;
            attributes_in_either_order(before, new, last, at);
        }
    }
}

/// Three lists can be merged in either grouping, where the one in the middle holds no value twice.
pub proof fn attributes_merge_in_either_grouping(
    first: Seq<AttributeView>,
    second: Seq<AttributeView>,
    third: Seq<AttributeView>,
)
    requires
        attributes_distinct(second),
    ensures
        merger::merged_attributes(merger::merged_attributes(first, second), third)
            == merger::merged_attributes(
            first,
            merger::merged_attributes(second, third),
        ),
    decreases third.len(),
{
    if third.len() == 0 {
        attributes_stay_bounded(first, second);
        attributes_already_capped(merger::merged_attributes(first, second));
        attributes_capped_before(first, second);
    } else {
        let rest = third.drop_last();
        attributes_merge_in_either_grouping(first, second, rest);
        attributes_stay_distinct(second, rest);
        attributes_one_more(first, merger::merged_attributes(second, rest), third.last());
    }
}

/// A list without a value that stands twice and without an attribute that has too many evidences,
/// merged into an empty one, comes out as it went in.
pub proof fn attributes_into_empty(incoming: Seq<AttributeView>)
    requires
        attributes_distinct(incoming),
        attributes_bounded(incoming),
    ensures
        merger::merged_attributes(Seq::empty(), incoming) == incoming,
    decreases incoming.len(),
{
    if incoming.len() == 0 {
        assert(merger::merged_attributes(Seq::empty(), incoming) =~= incoming);
    } else {
        let rest = incoming.drop_last();
        assert forall|i: int| 0 <= i < rest.len() implies (#[trigger] rest[i]).evidences.len()
            <= MAX_EVIDENCES by {
            assert(rest[i] == incoming[i]);
        }
        assert(incoming[incoming.len() - 1].evidences.len() <= MAX_EVIDENCES);
        attributes_into_empty(rest);
        attribute_step(rest, incoming.last());
        let place = merger::first_place(merger::attribute_values(rest), incoming.last().value);
        if place < rest.len() {
            assert(incoming[place].value != incoming[incoming.len() - 1].value);
        }
        assert(rest.push(incoming.last()) =~= incoming);
    }
}

/// The most recent evidences are the end of the list, and all of it where it is short enough.
pub proof fn recent_is_the_end(evidences: Seq<Seq<char>>)
    ensures
        merger::recent(evidences).len() <= MAX_EVIDENCES,
        merger::recent(evidences).len() <= evidences.len(),
        merger::recent(evidences) == evidences.skip(
            evidences.len() - merger::recent(evidences).len(),
        ),
        evidences.len() >= MAX_EVIDENCES ==> merger::recent(evidences).len() == MAX_EVIDENCES,
{
    assert(evidences.skip(0) =~= evidences);
}

/// Merging a profile of which nothing is known changes nothing, where no attribute has too many
/// evidences.
pub proof fn merging_nothing(profile: ProfileView)
    requires
        profile_bounded(profile),
    ensures
        merger::merged_profile(profile, profile_types::empty_profile()) == profile,
{
    leveled_already_capped(profile.hard_skills);
    leveled_already_capped(profile.soft_skills);
    leveled_already_capped(profile.motivation_system);
    leveled_already_capped(profile.fear_system);
    leveled_already_capped(profile.value_system);
    leveled_already_capped(profile.humor_use);
    leveled_already_capped(profile.colloquialism);
    attributes_already_capped(profile.personality);
    attributes_already_capped(profile.way_of_decision_making);
    attributes_already_capped(profile.interests);
    attributes_already_capped(profile.user_goal);
    attributes_already_capped(profile.work_responsibility);
    attributes_already_capped(profile.working_habit_preference);
    attributes_already_capped(profile.tendency);
}

/// The first extraction for a user is stored as it was extracted, where no list of it holds a
/// value twice and no attribute has too many evidences.
pub proof fn first_profile_is_kept(profile: ProfileView)
    requires
        profile_distinct(profile),
        profile_bounded(profile),
    ensures
        merger::merged_profile(profile_types::empty_profile(), profile) == profile,
{
    leveled_into_empty(profile.hard_skills);
    leveled_into_empty(profile.soft_skills);
    leveled_into_empty(profile.motivation_system);
    leveled_into_empty(profile.fear_system);
    leveled_into_empty(profile.value_system);
    leveled_into_empty(profile.humor_use);
    leveled_into_empty(profile.colloquialism);
    attributes_into_empty(profile.personality);
    attributes_into_empty(profile.way_of_decision_making);
    attributes_into_empty(profile.interests);
    attributes_into_empty(profile.user_goal);
    attributes_into_empty(profile.work_responsibility);
    attributes_into_empty(profile.working_habit_preference);
    attributes_into_empty(profile.tendency);
}

/// Three profiles can be merged in either grouping, where no list of the one in the middle holds a
/// value twice.
pub proof fn merging_in_either_grouping(
    first: ProfileView,
    second: ProfileView,
    third: ProfileView,
)
    requires
        profile_distinct(second),
    ensures
        merger::merged_profile(merger::merged_profile(first, second), third)
            == merger::merged_profile(first, merger::merged_profile(second, third)),
{
    leveled_merge_in_either_grouping(first.hard_skills, second.hard_skills, third.hard_skills);
    leveled_merge_in_either_grouping(first.soft_skills, second.soft_skills, third.soft_skills);
    leveled_merge_in_either_grouping(
        first.motivation_system,
        second.motivation_system,
        third.motivation_system,
    );
    leveled_merge_in_either_grouping(first.fear_system, second.fear_system, third.fear_system);
    leveled_merge_in_either_grouping(first.value_system, second.value_system, third.value_system);
    leveled_merge_in_either_grouping(first.humor_use, second.humor_use, third.humor_use);
    leveled_merge_in_either_grouping(
        first.colloquialism,
        second.colloquialism,
        third.colloquialism,
    );
    attributes_merge_in_either_grouping(first.personality, second.personality, third.personality);
    attributes_merge_in_either_grouping(
        first.way_of_decision_making,
        second.way_of_decision_making,
        third.way_of_decision_making,
    );
    attributes_merge_in_either_grouping(first.interests, second.interests, third.interests);
    attributes_merge_in_either_grouping(first.user_goal, second.user_goal, third.user_goal);
    attributes_merge_in_either_grouping(
        first.work_responsibility,
        second.work_responsibility,
        third.work_responsibility,
    );
    attributes_merge_in_either_grouping(
        first.working_habit_preference,
        second.working_habit_preference,
        third.working_habit_preference,
    );
    attributes_merge_in_either_grouping(first.tendency, second.tendency, third.tendency);
}

/// A profile in which no list holds a value twice stays so through every merge.
pub proof fn profile_stays_distinct(existing: ProfileView, incoming: ProfileView)
    requires
        profile_distinct(existing),
    ensures
        profile_distinct(merger::merged_profile(existing, incoming)),
{
    leveled_stay_distinct(existing.hard_skills, incoming.hard_skills);
    leveled_stay_distinct(existing.soft_skills, incoming.soft_skills);
    leveled_stay_distinct(existing.motivation_system, incoming.motivation_system);
    leveled_stay_distinct(existing.fear_system, incoming.fear_system);
    leveled_stay_distinct(existing.value_system, incoming.value_system);
    leveled_stay_distinct(existing.humor_use, incoming.humor_use);
    leveled_stay_distinct(existing.colloquialism, incoming.colloquialism);
    attributes_stay_distinct(existing.personality, incoming.personality);
    attributes_stay_distinct(existing.way_of_decision_making, incoming.way_of_decision_making);
    attributes_stay_distinct(existing.interests, incoming.interests);
    attributes_stay_distinct(existing.user_goal, incoming.user_goal);
    attributes_stay_distinct(existing.work_responsibility, incoming.work_responsibility);
    attributes_stay_distinct(existing.working_habit_preference, incoming.working_habit_preference);
    attributes_stay_distinct(existing.tendency, incoming.tendency);
}

/// No attribute of a merged profile has more than the kept number of evidences, whatever the two
/// profiles hold.
pub proof fn profile_stays_bounded(existing: ProfileView, incoming: ProfileView)
    ensures
        profile_bounded(merger::merged_profile(existing, incoming)),
{
    leveled_stay_bounded(existing.hard_skills, incoming.hard_skills);
    leveled_stay_bounded(existing.soft_skills, incoming.soft_skills);
    leveled_stay_bounded(existing.motivation_system, incoming.motivation_system);
    leveled_stay_bounded(existing.fear_system, incoming.fear_system);
    leveled_stay_bounded(existing.value_system, incoming.value_system);
    leveled_stay_bounded(existing.humor_use, incoming.humor_use);
    leveled_stay_bounded(existing.colloquialism, incoming.colloquialism);
    attributes_stay_bounded(existing.personality, incoming.personality);
    attributes_stay_bounded(existing.way_of_decision_making, incoming.way_of_decision_making);
    attributes_stay_bounded(existing.interests, incoming.interests);
    attributes_stay_bounded(existing.user_goal, incoming.user_goal);
    attributes_stay_bounded(existing.work_responsibility, incoming.work_responsibility);
    attributes_stay_bounded(existing.working_habit_preference, incoming.working_habit_preference);
    attributes_stay_bounded(existing.tendency, incoming.tendency);
}

/// A name that is known stays known: an incoming name takes its place, no name leaves it.
pub proof fn user_name_is_never_lost(existing: ProfileView, incoming: ProfileView)
    ensures
        incoming.user_name is None ==> merger::merged_profile(existing, incoming).user_name
            == existing.user_name,
        incoming.user_name is Some ==> merger::merged_profile(existing, incoming).user_name
            == incoming.user_name,
{
}

/// The last ten of a list, or all of it where there are fewer.
pub open spec fn last_ten(evidences: Seq<Seq<char>>) -> Seq<Seq<char>> {
    if evidences.len() <= 10 {
        evidences
    } else {
        evidences.subrange(evidences.len() - 10, evidences.len() as int)
    }
}

proof fn last_ten_is_recent(evidences: Seq<Seq<char>>)
    ensures
        merger::recent(evidences) == last_ten(evidences),
{
    assert(merger::recent(evidences) =~= last_ten(evidences));
}

proof fn leveled_later_ones_keep_their_level(
    existing: Seq<LeveledAttributeView>,
    incoming: Seq<LeveledAttributeView>,
    i: int,
    j: int,
)
    requires
        0 <= i < j < existing.len(),
        existing[i].value == existing[j].value,
    ensures
        j < merger::merged_leveled(existing, incoming).len(),
        merger::merged_leveled(existing, incoming)[j].level == existing[j].level,
    decreases incoming.len(),
{
    leveled_never_downgraded(existing, incoming);
    if incoming.len() > 0 {
        let before = merger::merged_leveled(existing, incoming.drop_last());
        leveled_later_ones_keep_their_level(existing, incoming.drop_last(), i, j);
        leveled_never_downgraded(existing, incoming.drop_last());
        leveled_step(before, incoming.last());
        assert(before[i].value == before[j].value);
    }
}

/// Whether the value at `j` stands further in front as well.
pub open spec fn leveled_repeat(list: Seq<LeveledAttributeView>, j: int) -> bool {
    exists|i: int| 0 <= i < j && (#[trigger] list[i]).value == list[j].value
}

/// Whether `value` stands in the list before `k`.
pub open spec fn leveled_come_earlier(
    value: Seq<char>,
    list: Seq<LeveledAttributeView>,
    k: int,
) -> bool {
    exists|h: int| 0 <= h < k && (#[trigger] list[h]).value == value
}

/// Whether the attribute at `k` of the incoming list is in the merged one, at a level that is not
/// lower.
pub open spec fn leveled_taken_in(
    incoming: Seq<LeveledAttributeView>,
    merged: Seq<LeveledAttributeView>,
    k: int,
) -> bool {
    exists|j: int|
        0 <= j < merged.len() && (#[trigger] merged[j]).value == incoming[k].value
            && profile_types::rank(merged[j].level) >= profile_types::rank(incoming[k].level)
}

/// Whether the attribute at `j` of the merged list has the level that it should: the one that stood
/// at that place, or the first that came in with its value and ranks higher than all before it. A
/// later one of its value takes no level from what comes in.
pub open spec fn leveled_given(
    existing: Seq<LeveledAttributeView>,
    incoming: Seq<LeveledAttributeView>,
    merged: Seq<LeveledAttributeView>,
    j: int,
) -> bool {
    ||| j < existing.len() && merged[j].level == existing[j].level
    ||| !leveled_repeat(merged, j) && exists|k: int|
        0 <= k < incoming.len() && #[trigger] leveled_raised(
            existing,
            incoming,
            merged[j],
            j,
            k,
        )
}

/// Whether the attribute at `k` of the incoming list gives its level to the one that is merged at
/// `j`: it has its value and ranks higher than what stood there and all that came before.
pub open spec fn leveled_raised(
    existing: Seq<LeveledAttributeView>,
    incoming: Seq<LeveledAttributeView>,
    merged: LeveledAttributeView,
    j: int,
    k: int,
) -> bool {
    &&& incoming[k].value == merged.value
    &&& incoming[k].level == merged.level
    &&& j < existing.len() ==> profile_types::rank(existing[j].level) < profile_types::rank(
        merged.level,
    )
    &&& forall|h: int|
        0 <= h < k && (#[trigger] incoming[h]).value == merged.value ==> profile_types::rank(
            incoming[h].level,
        ) < profile_types::rank(merged.level)
}

proof fn leveled_levels_rise(
    existing: Seq<LeveledAttributeView>,
    incoming: Seq<LeveledAttributeView>,
    j: int,
)
    requires
        0 <= j < merger::merged_leveled(existing, incoming).len(),
    ensures
        ({
            let merged = merger::merged_leveled(existing, incoming);
            ||| j < existing.len() && merged[j].level == existing[j].level
            ||| exists|k: int|
                0 <= k < incoming.len() && #[trigger] leveled_raised(
                    existing,
                    incoming,
                    merged[j],
                    j,
                    k,
                )
        }),
    decreases incoming.len(),
{
    let merged = merger::merged_leveled(existing, incoming);
    if incoming.len() > 0 {
        let rest = incoming.drop_last();
        let new = incoming.last();
        let before = merger::merged_leveled(existing, rest);
        leveled_never_downgraded(existing, rest);
        leveled_step(before, new);
        let place = merger::first_place(merger::leveled_values(before), new.value);
        let last = incoming.len() - 1;
        if j < before.len() && merged[j].level == before[j].level {
            leveled_levels_rise(existing, rest, j);
            if !(j < existing.len() && before[j].level == existing[j].level) {
                let k = choose|k: int|
                    0 <= k < rest.len() && #[trigger] leveled_raised(
                        existing,
                        rest,
                        before[j],
                        j,
                        k,
                    );
                assert forall|h: int|
                    0 <= h < k && (#[trigger] incoming[h]).value
                        == merged[j].value implies profile_types::rank(incoming[h].level)
                    < profile_types::rank(merged[j].level) by {
                    assert(rest[h] == incoming[h]);
                }
                assert(leveled_raised(existing, incoming, merged[j], j, k));
            }
        } else {
            assert(j == place);
            assert forall|h: int|
                0 <= h < last && (#[trigger] incoming[h]).value
                    == merged[j].value implies profile_types::rank(incoming[h].level)
                < profile_types::rank(merged[j].level) by {
                assert(rest[h] == incoming[h]);
                leveled_highest_so_far(existing, rest, h, j);
            }
            assert(leveled_raised(existing, incoming, merged[j], j, last));
        }
    }
}

proof fn leveled_highest_so_far(
    existing: Seq<LeveledAttributeView>,
    incoming: Seq<LeveledAttributeView>,
    h: int,
    place: int,
)
    requires
        0 <= h < incoming.len(),
        place == merger::first_place(
            merger::leveled_values(merger::merged_leveled(existing, incoming)),
            incoming[h].value,
        ),
    ensures
        0 <= place < merger::merged_leveled(existing, incoming).len(),
        profile_types::rank(merger::merged_leveled(existing, incoming)[place].level)
            >= profile_types::rank(incoming[h].level),
    decreases incoming.len(),
{
    let rest = incoming.drop_last();
    let before = merger::merged_leveled(existing, rest);
    let merged = merger::merged_leveled(existing, incoming);
    let value = incoming[h].value;
    leveled_step(before, incoming.last());
    merger::first_place_found(merger::leveled_values(merged), value);
    merger::first_place_found(merger::leveled_values(before), value);
    let found = merger::first_place(merger::leveled_values(before), value);
    if h == incoming.len() - 1 {
        assert(merged[found].value == value);
        leveled_place(merged, value, found);
    } else {
        assert(rest[h] == incoming[h]);
        leveled_highest_so_far(existing, rest, h, found);
        same_first_place(
            merger::leveled_values(before),
            merger::leveled_values(merged),
            value,
            found,
        );
    }
}

/// What becomes of two lists of leveled attributes in a merge:
/// what stood there stays at its place, never at a lower level and only at a level that was given;
/// everything that comes in is there, new values behind and in the order in which they first come,
/// each once; and the evidences of each value are the last ten of those that stood there followed
/// by those that came in. Where a value stood twice, the later one only keeps the last ten of its
/// own.
pub open spec fn leveled_absorbed(
    existing: Seq<LeveledAttributeView>,
    incoming: Seq<LeveledAttributeView>,
    merged: Seq<LeveledAttributeView>,
) -> bool {
    &&& merged.len() >= existing.len()
    &&& forall|j: int|
        0 <= j < existing.len() ==> (#[trigger] merged[j]).value == existing[j].value
            && profile_types::rank(merged[j].level) >= profile_types::rank(existing[j].level)
    &&& forall|k: int|
        0 <= k < incoming.len() ==> #[trigger] leveled_taken_in(incoming, merged, k)
    &&& forall|j: int|
        0 <= j < merged.len() ==> #[trigger] leveled_given(existing, incoming, merged, j)
    &&& forall|i: int, j: int|
        0 <= i < j < merged.len() && existing.len() <= j ==> (#[trigger] merged[i]).value != (
        #[trigger] merged[j]).value
    &&& forall|i: int, j: int, k: int|
        existing.len() <= i < j < merged.len() && 0 <= k < incoming.len() && (
        #[trigger] incoming[k]).value == (#[trigger] merged[j]).value ==> leveled_come_earlier(
            (#[trigger] merged[i]).value,
            incoming,
            k,
        )
    &&& forall|j: int|
        0 <= j < merged.len() ==> (#[trigger] merged[j]).evidences == last_ten(
            (if j < existing.len() {
                existing[j].evidences
            } else {
                Seq::empty()
            }) + (if leveled_repeat(merged, j) {
                Seq::empty()
            } else {
                given_to_leveled(incoming, merged[j].value)
            }),
        )
}

proof fn leveled_new_values_are_ordered(
    existing: Seq<LeveledAttributeView>,
    incoming: Seq<LeveledAttributeView>,
)
    ensures
        ({
            let merged = merger::merged_leveled(existing, incoming);
            &&& forall|i: int, j: int|
                0 <= i < j < merged.len() && existing.len() <= j ==> (#[trigger] merged[i]).value
                    != (#[trigger] merged[j]).value
            &&& forall|i: int, j: int, k: int|
                existing.len() <= i < j < merged.len() && 0 <= k < incoming.len() && (
                #[trigger] incoming[k]).value == (#[trigger] merged[j]).value ==> leveled_come_earlier(
                    (#[trigger] merged[i]).value,
                    incoming,
                    k,
                )
        }),
    decreases incoming.len(),
{
    if incoming.len() > 0 {
        let rest = incoming.drop_last();
        let before = merger::merged_leveled(existing, rest);
        let merged = merger::merged_leveled(existing, incoming);
        leveled_new_values_are_ordered(existing, rest);
        leveled_never_downgraded(existing, rest);
        leveled_step(before, incoming.last());
        assert forall|i: int, j: int, k: int|
            existing.len() <= i < j < merged.len() && 0 <= k < incoming.len() && (
            #[trigger] incoming[k]).value == (#[trigger] merged[j]).value implies leveled_come_earlier(
            (#[trigger] merged[i]).value,
            incoming,
            k,
        ) by {
            if k < rest.len() && j < before.len() {
                assert(rest[k].value == before[j].value);
                assert(before[i].value == merged[i].value);
                assert(leveled_come_earlier(before[i].value, rest, k));
                let h = choose|h: int|
                    0 <= h < k && (#[trigger] rest[h]).value == before[i].value;
                assert(incoming[h].value == before[i].value);
            } else if i < before.len() {
                leveled_level_was_given(existing, rest, i);
                let h = choose|h: int|
                    0 <= h < rest.len() && (#[trigger] rest[h]).value == before[i].value;
                if k < rest.len() {
                    leveled_all_taken_in(existing, rest, k);
                    let other = choose|o: int|
                        0 <= o < before.len() && (#[trigger] before[o]).value == rest[k].value;
                    assert(merged[other].value == merged[j].value);
                } else {
                    assert(incoming[h].value == merged[i].value);
                }
            }
        }
    }
}

proof fn leveled_evidences_are_absorbed(
    existing: Seq<LeveledAttributeView>,
    incoming: Seq<LeveledAttributeView>,
    j: int,
)
    requires
        0 <= j < merger::merged_leveled(existing, incoming).len(),
    ensures
        ({
            let merged = merger::merged_leveled(existing, incoming);
            merged[j].evidences == last_ten(
                (if j < existing.len() {
                    existing[j].evidences
                } else {
                    Seq::empty()
                }) + (if leveled_repeat(merged, j) {
                    Seq::empty()
                } else {
                    given_to_leveled(incoming, merged[j].value)
                }),
            )
        }),
{
    let merged = merger::merged_leveled(existing, incoming);
    let values = merger::leveled_values(merged);
    let value = merged[j].value;
    let stood = if j < existing.len() {
        existing[j].evidences
    } else {
        Seq::empty()
    };
    leveled_keep_the_most_recent(existing, incoming, j);
    merger::first_place_found(values, value);
    assert(values[j] == value);
    let first = merger::first_place(values, value);
    if first < j {
        assert(merged[first].value == value);
    } else if leveled_repeat(merged, j) {
        let i = choose|i: int| 0 <= i < j && (#[trigger] merged[i]).value == merged[j].value;
        assert(values[i] == value);
    }
    assert(stood + Seq::empty() =~= stood);
    last_ten_is_recent(stood);
    last_ten_is_recent(stood + given_to_leveled(incoming, value));
}

/// Every merge of two lists absorbs both.
pub proof fn leveled_are_absorbed(
    existing: Seq<LeveledAttributeView>,
    incoming: Seq<LeveledAttributeView>,
)
    ensures
        leveled_absorbed(existing, incoming, merger::merged_leveled(existing, incoming)),
{
    let merged = merger::merged_leveled(existing, incoming);
    let values = merger::leveled_values(merged);
    leveled_never_downgraded(existing, incoming);
    leveled_new_values_are_ordered(existing, incoming);
    assert forall|k: int| 0 <= k < incoming.len() implies #[trigger] leveled_taken_in(
        incoming,
        merged,
        k,
    ) by {
        leveled_all_taken_in(existing, incoming, k);
    }
    assert forall|j: int| 0 <= j < merged.len() implies #[trigger] leveled_given(
        existing,
        incoming,
        merged,
        j,
    ) by {
        leveled_levels_rise(existing, incoming, j);
        if leveled_repeat(merged, j) {
            let i = choose|i: int|
                0 <= i < j && (#[trigger] merged[i]).value == merged[j].value;
            leveled_later_ones_keep_their_level(existing, incoming, i, j);
        }
    }
    assert forall|j: int| 0 <= j < merged.len() implies (#[trigger] merged[j]).evidences
        == last_ten(
        (if j < existing.len() {
            existing[j].evidences
        } else {
            Seq::empty()
        }) + (if leveled_repeat(merged, j) {
            Seq::empty()
        } else {
            given_to_leveled(incoming, merged[j].value)
        }),
    ) by {
        leveled_evidences_are_absorbed(existing, incoming, j);
    }
}

/// Whether the value at `j` stands further in front as well.
pub open spec fn attributes_repeat(list: Seq<AttributeView>, j: int) -> bool {
    exists|i: int| 0 <= i < j && (#[trigger] list[i]).value == list[j].value
}

/// Whether `value` stands in the list before `k`.
pub open spec fn attributes_come_earlier(
    value: Seq<char>,
    list: Seq<AttributeView>,
    k: int,
) -> bool {
    exists|h: int| 0 <= h < k && (#[trigger] list[h]).value == value
}

/// Whether the attribute at `k` of the incoming list is in the merged one.
pub open spec fn attributes_taken_in(
    incoming: Seq<AttributeView>,
    merged: Seq<AttributeView>,
    k: int,
) -> bool {
    exists|j: int| 0 <= j < merged.len() && (#[trigger] merged[j]).value == incoming[k].value
}

/// Whether the attribute at `j` of the merged list was given: by the existing list at that place, or
/// by an incoming attribute of its value.
pub open spec fn attributes_given(
    existing: Seq<AttributeView>,
    incoming: Seq<AttributeView>,
    merged: Seq<AttributeView>,
    j: int,
) -> bool {
    ||| j < existing.len()
    ||| exists|k: int|
        0 <= k < incoming.len() && (#[trigger] incoming[k]).value == merged[j].value
}

/// What becomes of two lists of attributes in a merge:
/// what stood there stays at its place;
/// everything that comes in is there, new values behind and in the order in which they first come,
/// each once; and the evidences of each value are the last ten of those that stood there followed
/// by those that came in. Where a value stood twice, the later one only keeps the last ten of its
/// own.
pub open spec fn attributes_absorbed(
    existing: Seq<AttributeView>,
    incoming: Seq<AttributeView>,
    merged: Seq<AttributeView>,
) -> bool {
    &&& merged.len() >= existing.len()
    &&& forall|j: int|
        0 <= j < existing.len() ==> (#[trigger] merged[j]).value == existing[j].value
    &&& forall|k: int|
        0 <= k < incoming.len() ==> #[trigger] attributes_taken_in(incoming, merged, k)
    &&& forall|j: int|
        0 <= j < merged.len() ==> #[trigger] attributes_given(existing, incoming, merged, j)
    &&& forall|i: int, j: int|
        0 <= i < j < merged.len() && existing.len() <= j ==> (#[trigger] merged[i]).value != (
        #[trigger] merged[j]).value
    &&& forall|i: int, j: int, k: int|
        existing.len() <= i < j < merged.len() && 0 <= k < incoming.len() && (
        #[trigger] incoming[k]).value == (#[trigger] merged[j]).value ==> attributes_come_earlier(
            (#[trigger] merged[i]).value,
            incoming,
            k,
        )
    &&& forall|j: int|
        0 <= j < merged.len() ==> (#[trigger] merged[j]).evidences == last_ten(
            (if j < existing.len() {
                existing[j].evidences
            } else {
                Seq::empty()
            }) + (if attributes_repeat(merged, j) {
                Seq::empty()
            } else {
                given_to_attributes(incoming, merged[j].value)
            }),
        )
}

proof fn attributes_new_values_are_ordered(
    existing: Seq<AttributeView>,
    incoming: Seq<AttributeView>,
)
    ensures
        ({
            let merged = merger::merged_attributes(existing, incoming);
            &&& forall|i: int, j: int|
                0 <= i < j < merged.len() && existing.len() <= j ==> (#[trigger] merged[i]).value
                    != (#[trigger] merged[j]).value
            &&& forall|i: int, j: int, k: int|
                existing.len() <= i < j < merged.len() && 0 <= k < incoming.len() && (
                #[trigger] incoming[k]).value == (#[trigger] merged[j]).value ==> attributes_come_earlier(
                    (#[trigger] merged[i]).value,
                    incoming,
                    k,
                )
        }),
    decreases incoming.len(),
{
    if incoming.len() > 0 {
        let rest = incoming.drop_last();
        let before = merger::merged_attributes(existing, rest);
        let merged = merger::merged_attributes(existing, incoming);
        attributes_new_values_are_ordered(existing, rest);
        attributes_stay_in_place(existing, rest);
        attribute_step(before, incoming.last());
        assert forall|i: int, j: int, k: int|
            existing.len() <= i < j < merged.len() && 0 <= k < incoming.len() && (
            #[trigger] incoming[k]).value == (#[trigger] merged[j]).value implies attributes_come_earlier(
            (#[trigger] merged[i]).value,
            incoming,
            k,
        ) by {
            if k < rest.len() && j < before.len() {
                assert(rest[k].value == before[j].value);
                assert(before[i].value == merged[i].value);
                assert(attributes_come_earlier(before[i].value, rest, k));
                let h = choose|h: int|
                    0 <= h < k && (#[trigger] rest[h]).value == before[i].value;
                assert(incoming[h].value == before[i].value);
            } else if i < before.len() {
                attributes_value_was_given(existing, rest, i);
                let h = choose|h: int|
                    0 <= h < rest.len() && (#[trigger] rest[h]).value == before[i].value;
                if k < rest.len() {
                    attributes_all_taken_in(existing, rest, k);
                    let other = choose|o: int|
                        0 <= o < before.len() && (#[trigger] before[o]).value == rest[k].value;
                    assert(merged[other].value == merged[j].value);
                } else {
                    assert(incoming[h].value == merged[i].value);
                }
            }
        }
    }
}

proof fn attributes_evidences_are_absorbed(
    existing: Seq<AttributeView>,
    incoming: Seq<AttributeView>,
    j: int,
)
    requires
        0 <= j < merger::merged_attributes(existing, incoming).len(),
    ensures
        ({
            let merged = merger::merged_attributes(existing, incoming);
            merged[j].evidences == last_ten(
                (if j < existing.len() {
                    existing[j].evidences
                } else {
                    Seq::empty()
                }) + (if attributes_repeat(merged, j) {
                    Seq::empty()
                } else {
                    given_to_attributes(incoming, merged[j].value)
                }),
            )
        }),
{
    let merged = merger::merged_attributes(existing, incoming);
    let values = merger::attribute_values(merged);
    let value = merged[j].value;
    let stood = if j < existing.len() {
        existing[j].evidences
    } else {
        Seq::empty()
    };
    attributes_keep_the_most_recent(existing, incoming, j);
    merger::first_place_found(values, value);
    assert(values[j] == value);
    let first = merger::first_place(values, value);
    if first < j {
        assert(merged[first].value == value);
    } else if attributes_repeat(merged, j) {
        let i = choose|i: int| 0 <= i < j && (#[trigger] merged[i]).value == merged[j].value;
        assert(values[i] == value);
    }
    assert(stood + Seq::empty() =~= stood);
    last_ten_is_recent(stood);
    last_ten_is_recent(stood + given_to_attributes(incoming, value));
}

/// Every merge of two lists absorbs both.
pub proof fn attributes_are_absorbed(existing: Seq<AttributeView>, incoming: Seq<AttributeView>)
    ensures
        attributes_absorbed(existing, incoming, merger::merged_attributes(existing, incoming)),
{
    let merged = merger::merged_attributes(existing, incoming);
    let values = merger::attribute_values(merged);
    attributes_stay_in_place(existing, incoming);
    attributes_new_values_are_ordered(existing, incoming);
    assert forall|k: int| 0 <= k < incoming.len() implies #[trigger] attributes_taken_in(
        incoming,
        merged,
        k,
    ) by {
        attributes_all_taken_in(existing, incoming, k);
    }
    assert forall|j: int| 0 <= j < merged.len() implies #[trigger] attributes_given(
        existing,
        incoming,
        merged,
        j,
    ) by {
        if existing.len() <= j {
            attributes_value_was_given(existing, incoming, j);
        }
    }
    assert forall|j: int| 0 <= j < merged.len() implies (#[trigger] merged[j]).evidences
        == last_ten(
        (if j < existing.len() {
            existing[j].evidences
        } else {
            Seq::empty()
        }) + (if attributes_repeat(merged, j) {
            Seq::empty()
        } else {
            given_to_attributes(incoming, merged[j].value)
        }),
    ) by {
        attributes_evidences_are_absorbed(existing, incoming, j);
    }
}

/// What becomes of two profiles in a merge: a name that comes in takes the place of the one that
/// stood there, a missing one leaves it, and each of the lists absorbs the incoming list of its
/// name.
pub open spec fn profile_absorbed(
    existing: ProfileView,
    incoming: ProfileView,
    merged: ProfileView,
) -> bool {
    &&& incoming.user_name is Some ==> merged.user_name == incoming.user_name
    &&& incoming.user_name is None ==> merged.user_name == existing.user_name
    &&& leveled_absorbed(existing.hard_skills, incoming.hard_skills, merged.hard_skills)
    &&& leveled_absorbed(existing.soft_skills, incoming.soft_skills, merged.soft_skills)
    &&& leveled_absorbed(
        existing.motivation_system,
        incoming.motivation_system,
        merged.motivation_system,
    )
    &&& leveled_absorbed(existing.fear_system, incoming.fear_system, merged.fear_system)
    &&& leveled_absorbed(existing.value_system, incoming.value_system, merged.value_system)
    &&& leveled_absorbed(existing.humor_use, incoming.humor_use, merged.humor_use)
    &&& leveled_absorbed(existing.colloquialism, incoming.colloquialism, merged.colloquialism)
    &&& attributes_absorbed(existing.personality, incoming.personality, merged.personality)
    &&& attributes_absorbed(
        existing.way_of_decision_making,
        incoming.way_of_decision_making,
        merged.way_of_decision_making,
    )
    &&& attributes_absorbed(existing.interests, incoming.interests, merged.interests)
    &&& attributes_absorbed(existing.user_goal, incoming.user_goal, merged.user_goal)
    &&& attributes_absorbed(
        existing.work_responsibility,
        incoming.work_responsibility,
        merged.work_responsibility,
    )
    &&& attributes_absorbed(
        existing.working_habit_preference,
        incoming.working_habit_preference,
        merged.working_habit_preference,
    )
    &&& attributes_absorbed(existing.tendency, incoming.tendency, merged.tendency)
}

/// Every merge of two profiles absorbs both.
pub proof fn profiles_are_absorbed(existing: ProfileView, incoming: ProfileView)
    ensures
        profile_absorbed(existing, incoming, merger::merged_profile(existing, incoming)),
{
    leveled_are_absorbed(existing.hard_skills, incoming.hard_skills);
    leveled_are_absorbed(existing.soft_skills, incoming.soft_skills);
    leveled_are_absorbed(existing.motivation_system, incoming.motivation_system);
    leveled_are_absorbed(existing.fear_system, incoming.fear_system);
    leveled_are_absorbed(existing.value_system, incoming.value_system);
    leveled_are_absorbed(existing.humor_use, incoming.humor_use);
    leveled_are_absorbed(existing.colloquialism, incoming.colloquialism);
    attributes_are_absorbed(existing.personality, incoming.personality);
    attributes_are_absorbed(existing.way_of_decision_making, incoming.way_of_decision_making);
    attributes_are_absorbed(existing.interests, incoming.interests);
    attributes_are_absorbed(existing.user_goal, incoming.user_goal);
    attributes_are_absorbed(existing.work_responsibility, incoming.work_responsibility);
    attributes_are_absorbed(existing.working_habit_preference, incoming.working_habit_preference);
    attributes_are_absorbed(existing.tendency, incoming.tendency);
}

/// The levels are ordered `beginner`, `intermediate`, `advanced`, `expert`, and the older names
/// rank with them.
pub proof fn levels_are_ordered()
    ensures
        profile_types::word_rank("beginner"@) == 0,
        profile_types::word_rank("intermediate"@) == 1,
        profile_types::word_rank("advanced"@) == 2,
        profile_types::word_rank("expert"@) == 3,
        profile_types::word_rank("low"@) == profile_types::word_rank("beginner"@),
        profile_types::word_rank("moderate"@) == profile_types::word_rank("intermediate"@),
        profile_types::word_rank("high"@) == profile_types::word_rank("advanced"@),
        profile_types::word_rank("very_high"@) == profile_types::word_rank("expert"@),
{
    reveal_strlit("low");
    reveal_strlit("beginner");
    reveal_strlit("moderate");
    reveal_strlit("intermediate");
    reveal_strlit("high");
    reveal_strlit("advanced");
    reveal_strlit("very_high");
    reveal_strlit("expert");
    assert("beginner"@[0] == 'b' && "low"@[0] == 'l');
    assert("intermediate"@[0] == 'i' && "moderate"@[0] == 'm');
    assert("advanced"@[0] == 'a' && "high"@[0] == 'h');
    assert("expert"@[0] == 'e' && "very_high"@[0] == 'v');
}

/// The four ranks, by the words that have them: a level counts as an expert's, as advanced or as
/// intermediate under its two names in any case, and under any other word as a beginner's.
pub proof fn words_tell_the_rank(level: Seq<char>)
    ensures
        ({
            let word = crate::outside::lowercase(level);
            &&& profile_types::rank(level) == 3 <==> word == "expert"@ || word == "very_high"@
            &&& profile_types::rank(level) == 2 <==> word == "advanced"@ || word == "high"@
            &&& profile_types::rank(level) == 1 <==> word == "intermediate"@ || word
                == "moderate"@
            &&& profile_types::rank(level) <= 3
        }),
{
    reveal_strlit("moderate");
    reveal_strlit("intermediate");
    reveal_strlit("high");
    reveal_strlit("advanced");
    reveal_strlit("very_high");
    reveal_strlit("expert");
    assert("intermediate"@[0] == 'i' && "moderate"@[0] == 'm');
    assert("advanced"@[0] == 'a' && "high"@[0] == 'h');
    assert("expert"@[0] == 'e' && "very_high"@[0] == 'v');
}

/// Of a user of whom nothing is known no name and no attribute is known.
pub proof fn nothing_is_known_at_first()
    ensures
        ({
            let profile = profile_types::empty_profile();
            &&& profile.user_name is None
            &&& profile.hard_skills.len() == 0
            &&& profile.soft_skills.len() == 0
            &&& profile.motivation_system.len() == 0
            &&& profile.fear_system.len() == 0
            &&& profile.value_system.len() == 0
            &&& profile.humor_use.len() == 0
            &&& profile.colloquialism.len() == 0
            &&& profile.personality.len() == 0
            &&& profile.way_of_decision_making.len() == 0
            &&& profile.interests.len() == 0
            &&& profile.user_goal.len() == 0
            &&& profile.work_responsibility.len() == 0
            &&& profile.working_habit_preference.len() == 0
            &&& profile.tendency.len() == 0
        }),
{
}

/// The case of a level does not count.
pub proof fn case_does_not_count(level: Seq<char>, other: Seq<char>)
    requires
        crate::outside::lowercase(level) == crate::outside::lowercase(other),
    ensures
        profile_types::rank(level) == profile_types::rank(other),
{
}

} // verus!
