//! Storyline definitions (what the mod can block) and the runtime choice of
//! which storylines are enabled.
use vstd::prelude::*;
use crate::keyed::{find_key, key_index_from, lemma_key_index, unique_keys};
use crate::text::owned;

verus! {

/// A storyline that can be toggled on/off in the mod.
#[derive(Debug, Clone, PartialEq, Eq)]
pub struct StorylineDefinition {
    pub id: String,
    pub name: String,
    pub description: String,
    pub category: StorylineCategory,
    pub hooks: Vec<StoryHook>,
}

/// The group a storyline is listed under.
#[derive(Debug, Clone, Copy, PartialEq, Eq, Structural)]
pub enum StorylineCategory {
    MainQuest,
    CompanionQuest,
    SideQuest,
    WorldEvent,
}

/// The label shown for a category.
pub open spec fn category_label(c: StorylineCategory) -> Seq<char> {
    match c {
        StorylineCategory::MainQuest => "Main Quest"@,
        StorylineCategory::CompanionQuest => "Companion Quest"@,
        StorylineCategory::SideQuest => "Side Quest"@,
        StorylineCategory::WorldEvent => "World Event"@,
    }
}

impl StorylineCategory {
    /// The label shown for the category.
    pub fn label(&self) -> (r: &'static str)
        ensures
            r@ == category_label(*self),
    {
        match self {
            StorylineCategory::MainQuest => "Main Quest",
            StorylineCategory::CompanionQuest => "Companion Quest",
            StorylineCategory::SideQuest => "Side Quest",
            StorylineCategory::WorldEvent => "World Event",
        }
    }
}

/// A hook describing what the mod should intercept for a storyline.
#[derive(Debug, Clone, PartialEq, Eq)]
pub enum StoryHook {
    BlockFlag { guid: String, description: String },
    BlockDialog { pattern: String, description: String },
    BlockQuest { quest_id: String, description: String },
    ClearFlagOnEvent { event: String, flag_guid: String, description: String },
    CustomLua { code: String, description: String },
}

/// Top-level structure of a storyline definitions file.
#[derive(Debug, Clone, PartialEq, Eq)]
pub struct StorylineFile {
    pub storylines: Vec<StorylineDefinition>,
}

/// The map a list of entries describes: each name to its value.
pub open spec fn entries_map(s: Seq<(String, bool)>) -> Map<Seq<char>, bool>
    decreases s.len(),
{
    if s.len() == 0 {
        Map::empty()
    } else {
        entries_map(s.drop_last()).insert(s.last().0@, s.last().1)
    }
}

/// In a list with unique names, the map holds exactly the listed names, each
/// with its listed value.
pub proof fn lemma_entries_map(s: Seq<(String, bool)>)
    requires
        unique_keys(s),
    ensures
        forall|i: int| 0 <= i < s.len() ==> #[trigger] entries_map(s).dom().contains(s[i].0@) && entries_map(s)[s[i].0@] == s[i].1,
        forall|k: Seq<char>| #[trigger] entries_map(s).dom().contains(k) ==> exists|i: int| 0 <= i < s.len() && s[i].0@ == k,
    decreases s.len(),
{
    if s.len() > 0 {
        let p = s.drop_last();
        assert(unique_keys(p));
        lemma_entries_map(p);
        assert forall|i: int| 0 <= i < s.len() implies #[trigger] entries_map(s).dom().contains(s[i].0@) && entries_map(s)[s[i].0@] == s[i].1 by {
            if i < s.len() - 1 {
                assert(p[i] == s[i]);
                assert(s[i].0@ != s.last().0@);
                assert(entries_map(p).dom().contains(p[i].0@));
            }
        }
        assert forall|k: Seq<char>| #[trigger] entries_map(s).dom().contains(k) implies exists|i: int| 0 <= i < s.len() && s[i].0@ == k by {
            if k != s.last().0@ {
                assert(entries_map(p).dom().contains(k));
                let i = choose|i: int| 0 <= i < p.len() && p[i].0@ == k;
                assert(s[i] == p[i]);
            } else {
                assert(s[s.len() - 1].0@ == k);
            }
        }
    }
}

/// Runtime config: which storylines are enabled. A storyline that was never
/// set plays normally.
#[derive(Debug)]
pub struct StorylineConfig {
    /// Storyline id and enabled flag (true = plays normally, false = blocked);
    /// no id occurs twice.
    storylines: Vec<(String, bool)>,
}

impl View for StorylineConfig {
    type V = Map<Seq<char>, bool>;

    /// Each storyline id that was set, to whether it is enabled.
    closed spec fn view(&self) -> Map<Seq<char>, bool> {
        entries_map(self.storylines@)
    }
}

/// A storyline is disabled when it was set and set to disabled.
pub open spec fn disabled_in(m: Map<Seq<char>, bool>, id: Seq<char>) -> bool {
    m.dom().contains(id) && !m[id]
}

impl StorylineConfig {
    #[verifier::type_invariant]
    spec fn inv(self) -> bool {
        unique_keys(self.storylines@)
    }

    /// A config in which no storyline was set.
    pub fn new() -> (r: Self)
        ensures
            r@ == Map::<Seq<char>, bool>::empty(),
    {
        let r = StorylineConfig { storylines: Vec::new() };
        assert(r@ =~= Map::<Seq<char>, bool>::empty());
        r
    }

    /// Whether the storyline `id` was set to disabled.
    pub fn is_disabled(&self, id: &str) -> (r: bool)
        ensures
            r == disabled_in(self@, id@),
    {
        proof {
            use_type_invariant(self);
            lemma_entries_map(self.storylines@);
            lemma_key_index(self.storylines@, id@, 0);
        }
        match find_key(&self.storylines, id) {
            Some(i) => {
                assert(entries_map(self.storylines@).dom().contains(self.storylines@[i as int].0@));
                !self.storylines[i].1
            },
            None => {
                proof {
                    if entries_map(self.storylines@).dom().contains(id@) {
                        let j = choose|j: int| 0 <= j < self.storylines@.len() && self.storylines@[j].0@ == id@;
                        assert(self.storylines@[j].0@ != id@);
                    }
                }
                false
            },
        }
    }

    /// Sets whether the storyline `id` is enabled.
    pub fn set_enabled(&mut self, id: &str, enabled: bool)
        ensures
            final(self)@ == old(self)@.insert(id@, enabled),
    {
        proof {
            use_type_invariant(&*self);
            lemma_entries_map(self.storylines@);
            lemma_key_index(self.storylines@, id@, 0);
        }
        let ghost before = self.storylines@;
        let mut entries: Vec<(String, bool)> = Vec::new();
        std::mem::swap(&mut entries, &mut self.storylines);
        match find_key(&entries, id) {
            Some(i) => {
                let key = owned(id);
                let ghost after = before.update(i as int, (key, enabled));
                assert(unique_keys(after)) by {
                    assert forall|a: int, b: int| 0 <= a < b < after.len() implies after[a].0@ != after[b].0@ by {
                        if a != i && b != i {
                            assert(after[a] == before[a] && after[b] == before[b]);
                        } else if a == i {
                            assert(after[b] == before[b]);
                        } else {
                            assert(after[a] == before[a]);
                        }
                    }
                }
                proof {
                    lemma_entries_map(after);
                }
                entries.set(i, (key, enabled));
                assert(entries@ == after);
                assert(entries_map(after) =~= entries_map(before).insert(id@, enabled)) by {
                    assert forall|k: Seq<char>| #[trigger] entries_map(after).dom().contains(k) implies entries_map(before).insert(id@, enabled).dom().contains(k) by {
                        let j = choose|j: int| 0 <= j < after.len() && after[j].0@ == k;
                        if j != i {
                            assert(after[j] == before[j]);
                            assert(entries_map(before).dom().contains(before[j].0@));
                        }
                    }
                    assert forall|k: Seq<char>| #[trigger] entries_map(before).insert(id@, enabled).dom().contains(k) implies entries_map(after).dom().contains(k) && entries_map(after)[k] == entries_map(before).insert(id@, enabled)[k] by {
                        if k == id@ {
                            assert(after[i as int].0@ == k);
                            assert(entries_map(after).dom().contains(after[i as int].0@));
                        } else {
                            assert(entries_map(before).dom().contains(k));
                            let j = choose|j: int| 0 <= j < before.len() && before[j].0@ == k;
                            assert(j != i);
                            assert(after[j] == before[j]);
                            assert(entries_map(after).dom().contains(after[j].0@));
                            assert(entries_map(before).dom().contains(before[j].0@));
                        }
                    }
                }
            },
            None => {
                let key = owned(id);
                let ghost after = before.push((key, enabled));
                assert(unique_keys(after)) by {
                    assert forall|a: int, b: int| 0 <= a < b < after.len() implies after[a].0@ != after[b].0@ by {
                        if b == before.len() {
                            assert(after[a] == before[a]);
                        } else {
                            assert(after[a] == before[a] && after[b] == before[b]);
                        }
                    }
                }
                entries.push((key, enabled));
                assert(entries@ == after);
                assert(after.drop_last() =~= before);
            },
        }
        self.storylines = entries;
    }
}

impl Default for StorylineConfig {
    fn default() -> (r: Self)
        ensures
            r@ == Map::<Seq<char>, bool>::empty(),
    {
        StorylineConfig::new()
    }
}

/// Setting a storyline's flag is what a later query of that storyline sees:
/// it is disabled exactly when it was set to disabled; no other storyline changes.
pub proof fn law_set_enabled_read_back(m: Map<Seq<char>, bool>, id: Seq<char>, other: Seq<char>, enabled: bool)
    ensures
        disabled_in(m.insert(id, enabled), id) == !enabled,
        other != id ==> disabled_in(m.insert(id, enabled), other) == disabled_in(m, other),
{
}

/// A config in which nothing was set disables no storyline.
pub proof fn law_fresh_config_disables_nothing(id: Seq<char>)
    ensures
        !disabled_in(Map::<Seq<char>, bool>::empty(), id),
{
}

} // verus!
