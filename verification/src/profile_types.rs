//! The user profile: attributes with and without a level, and the order of the levels.

use vstd::prelude::*;

use crate::outside;
use crate::text;

verus! {

/// An attribute with a skill level, such as a skill or a motivation.
#[derive(Debug, PartialEq)]
pub struct LeveledAttribute {
    pub value: String,
    /// `beginner`, `intermediate`, `advanced` or `expert`.
    pub level: String,
    pub evidences: Vec<String>,
}

/// An attribute without a level, such as an interest or a goal.
#[derive(Debug, PartialEq)]
pub struct Attribute {
    pub value: String,
    pub evidences: Vec<String>,
}

/// All that is known of a user.
#[derive(Debug)]
pub struct ProfileData {
    pub user_name: Option<String>,
    pub hard_skills: Vec<LeveledAttribute>,
    pub soft_skills: Vec<LeveledAttribute>,
    pub motivation_system: Vec<LeveledAttribute>,
    pub fear_system: Vec<LeveledAttribute>,
    pub value_system: Vec<LeveledAttribute>,
    pub humor_use: Vec<LeveledAttribute>,
    pub colloquialism: Vec<LeveledAttribute>,
    pub personality: Vec<Attribute>,
    pub way_of_decision_making: Vec<Attribute>,
    pub interests: Vec<Attribute>,
    pub user_goal: Vec<Attribute>,
    pub work_responsibility: Vec<Attribute>,
    pub working_habit_preference: Vec<Attribute>,
    pub tendency: Vec<Attribute>,
}

/// A leveled attribute as characters.
#[verifier::ext_equal]
pub struct LeveledAttributeView {
    pub value: Seq<char>,
    pub level: Seq<char>,
    pub evidences: Seq<Seq<char>>,
}

/// An attribute as characters.
#[verifier::ext_equal]
pub struct AttributeView {
    pub value: Seq<char>,
    pub evidences: Seq<Seq<char>>,
}

/// A profile as characters.
#[verifier::ext_equal]
pub struct ProfileView {
    pub user_name: Option<Seq<char>>,
    pub hard_skills: Seq<LeveledAttributeView>,
    pub soft_skills: Seq<LeveledAttributeView>,
    pub motivation_system: Seq<LeveledAttributeView>,
    pub fear_system: Seq<LeveledAttributeView>,
    pub value_system: Seq<LeveledAttributeView>,
    pub humor_use: Seq<LeveledAttributeView>,
    pub colloquialism: Seq<LeveledAttributeView>,
    pub personality: Seq<AttributeView>,
    pub way_of_decision_making: Seq<AttributeView>,
    pub interests: Seq<AttributeView>,
    pub user_goal: Seq<AttributeView>,
    pub work_responsibility: Seq<AttributeView>,
    pub working_habit_preference: Seq<AttributeView>,
    pub tendency: Seq<AttributeView>,
}

impl View for LeveledAttribute {
    type V = LeveledAttributeView;

    open spec fn view(&self) -> LeveledAttributeView {
        LeveledAttributeView {
            value: self.value@,
            level: self.level@,
            evidences: text::views(self.evidences@),
        }
    }
}

impl View for Attribute {
    type V = AttributeView;

    open spec fn view(&self) -> AttributeView {
        AttributeView { value: self.value@, evidences: text::views(self.evidences@) }
    }
}

impl View for ProfileData {
    type V = ProfileView;

    open spec fn view(&self) -> ProfileView {
        ProfileView {
            user_name: text::view_of(self.user_name),
            hard_skills: text::views(self.hard_skills@),
            soft_skills: text::views(self.soft_skills@),
            motivation_system: text::views(self.motivation_system@),
            fear_system: text::views(self.fear_system@),
            value_system: text::views(self.value_system@),
            humor_use: text::views(self.humor_use@),
            colloquialism: text::views(self.colloquialism@),
            personality: text::views(self.personality@),
            way_of_decision_making: text::views(self.way_of_decision_making@),
            interests: text::views(self.interests@),
            user_goal: text::views(self.user_goal@),
            work_responsibility: text::views(self.work_responsibility@),
            working_habit_preference: text::views(self.working_habit_preference@),
            tendency: text::views(self.tendency@),
        }
    }
}

impl Clone for LeveledAttribute {
    fn clone(&self) -> (copy: Self)
        ensures
            copy@ == self@,
    {
        let copy: LeveledAttribute = LeveledAttribute {
            value: self.value.clone(),
            level: self.level.clone(),
            evidences: self.evidences.clone(),
        };
        assert(text::views(copy.evidences@) =~= text::views(self.evidences@));
        copy
    }
}

impl Clone for Attribute {
    fn clone(&self) -> (copy: Self)
        ensures
            copy@ == self@,
    {
        let copy: Attribute = Attribute {
            value: self.value.clone(),
            evidences: self.evidences.clone(),
        };
        assert(text::views(copy.evidences@) =~= text::views(self.evidences@));
        copy
    }
}

impl Clone for ProfileData {
    fn clone(&self) -> (copy: Self)
        ensures
            copy@ == self@,
    {
        ProfileData {
            user_name: self.user_name.clone(),
            hard_skills: copy_leveled(&self.hard_skills),
            soft_skills: copy_leveled(&self.soft_skills),
            motivation_system: copy_leveled(&self.motivation_system),
            fear_system: copy_leveled(&self.fear_system),
            value_system: copy_leveled(&self.value_system),
            humor_use: copy_leveled(&self.humor_use),
            colloquialism: copy_leveled(&self.colloquialism),
            personality: copy_attributes(&self.personality),
            way_of_decision_making: copy_attributes(&self.way_of_decision_making),
            interests: copy_attributes(&self.interests),
            user_goal: copy_attributes(&self.user_goal),
            work_responsibility: copy_attributes(&self.work_responsibility),
            working_habit_preference: copy_attributes(&self.working_habit_preference),
            tendency: copy_attributes(&self.tendency),
        }
    }
}

/// A copy of a list of leveled attributes.
pub fn copy_leveled(attributes: &[LeveledAttribute]) -> (copy: Vec<LeveledAttribute>)
    ensures
        text::views(copy@) == text::views(attributes@),
{
    let mut copy: Vec<LeveledAttribute> = Vec::new();
    for i in 0..attributes.len()
        invariant
            copy.len() == i,
            forall|k: int| 0 <= k < i ==> (#[trigger] copy@[k])@ == attributes@[k]@,
    {
        copy.push(attributes[i].clone());
    }
    assert(text::views(copy@) =~= text::views(attributes@));
    copy
}

/// A copy of a list of attributes.
pub fn copy_attributes(attributes: &[Attribute]) -> (copy: Vec<Attribute>)
    ensures
        text::views(copy@) == text::views(attributes@),
{
    let mut copy: Vec<Attribute> = Vec::new();
    for i in 0..attributes.len()
        invariant
            copy.len() == i,
            forall|k: int| 0 <= k < i ==> (#[trigger] copy@[k])@ == attributes@[k]@,
    {
        copy.push(attributes[i].clone());
    }
    assert(text::views(copy@) =~= text::views(attributes@));
    copy
}

/// The profile of a user of whom nothing is known.
pub open spec fn empty_profile() -> ProfileView {
    ProfileView {
        user_name: None,
        hard_skills: Seq::empty(),
        soft_skills: Seq::empty(),
        motivation_system: Seq::empty(),
        fear_system: Seq::empty(),
        value_system: Seq::empty(),
        humor_use: Seq::empty(),
        colloquialism: Seq::empty(),
        personality: Seq::empty(),
        way_of_decision_making: Seq::empty(),
        interests: Seq::empty(),
        user_goal: Seq::empty(),
        work_responsibility: Seq::empty(),
        working_habit_preference: Seq::empty(),
        tendency: Seq::empty(),
    }
}

impl Default for ProfileData {
    fn default() -> (profile: Self)
        ensures
            profile@ == empty_profile(),
    {
        let profile: ProfileData = ProfileData {
            user_name: None,
            hard_skills: Vec::new(),
            soft_skills: Vec::new(),
            motivation_system: Vec::new(),
            fear_system: Vec::new(),
            value_system: Vec::new(),
            humor_use: Vec::new(),
            colloquialism: Vec::new(),
            personality: Vec::new(),
            way_of_decision_making: Vec::new(),
            interests: Vec::new(),
            user_goal: Vec::new(),
            work_responsibility: Vec::new(),
            working_habit_preference: Vec::new(),
            tendency: Vec::new(),
        };
        assert(profile@ =~= empty_profile());
        profile
    }
}

/// The rank of a level word in lower case: `beginner` 0, `intermediate` 1, `advanced` 2 and
/// `expert` 3, each also under its older name; any other word ranks as a beginner.
pub open spec fn word_rank(word: Seq<char>) -> nat {
    if word == "very_high"@ || word == "expert"@ {
        3
    } else if word == "high"@ || word == "advanced"@ {
        2
    } else if word == "moderate"@ || word == "intermediate"@ {
        1
    } else {
        0
    }
}

/// The rank of a level, written in any case.
pub open spec fn rank(level: Seq<char>) -> nat {
    word_rank(outside::lowercase(level))
}

/// Ranks a level from 0 (beginner) to 3 (expert), whatever its case.
pub fn level_rank(level: &str) -> (result: usize)
    ensures
        result == rank(level@),
        result <= 3,
{
    let word: String = level.to_lowercase();
    if text::same_text(&word, "low") || text::same_text(&word, "beginner") {
        proof {
            reveal_strlit("low");
            reveal_strlit("beginner");
            reveal_strlit("very_high");
            reveal_strlit("expert");
            reveal_strlit("high");
            reveal_strlit("advanced");
            reveal_strlit("moderate");
            reveal_strlit("intermediate");
        }
        assert(word@.len() == 3 || word@.len() == 8);
        assert(word@.len() == 8 ==> word@[0] == 'b');
        0
    } else if text::same_text(&word, "moderate") || text::same_text(&word, "intermediate") {
        proof {
            reveal_strlit("very_high");
            reveal_strlit("expert");
            reveal_strlit("high");
            reveal_strlit("advanced");
            reveal_strlit("moderate");
            reveal_strlit("intermediate");
        }
        assert(word@[0] == 'm' || word@[0] == 'i');
        1
    } else if text::same_text(&word, "high") || text::same_text(&word, "advanced") {
        proof {
            reveal_strlit("very_high");
            reveal_strlit("expert");
            reveal_strlit("high");
            reveal_strlit("advanced");
        }
        assert(word@[0] == 'h' || word@[0] == 'a');
        2
    } else if text::same_text(&word, "very_high") || text::same_text(&word, "expert") {
        3
    } else {
        0
    }
}

} // verus!
