//! The decisions behind the in-game overlay: the storyline panel's state
//! (definitions, which storylines are disabled, the mod's status) and the save
//! list, reload timing and headings of the party view.
use vstd::prelude::*;
use crate::ipc::{BlockedEvent, ModConfig, ModStatus};
use crate::error::SaveError;
use crate::export::{push_slot_debug, slot_debug};
use crate::models::{AbilityScores, Character, CharacterView, EquipmentSlotView, PartyData, PartyDataView, SaveInfo};
use crate::storylines::{disabled_in, StorylineCategory, StorylineConfig, StorylineDefinition};
use crate::text::{chars_of, decimal, find_from, find_in, owned, push_decimal, push_str, str_eq, string_from_chars};

verus! {

// ---------------------------------------------------------------------------
// The storyline panel
// ---------------------------------------------------------------------------

/// State of the storylines tab.
pub struct StorylinePanel {
    pub definitions: Vec<StorylineDefinition>,
    pub config: StorylineConfig,
    pub mod_status: Option<ModStatus>,
    /// When the mod's status was last read, in nanoseconds of a monotonic clock.
    pub last_status_check: Option<u64>,
    pub load_error: Option<String>,
    /// The definitions file the definitions came from; none for the built-in ones.
    pub storylines_path: Option<String>,
}

/// The view of an optional string.
pub open spec fn opt_text(o: Option<String>) -> Option<Seq<char>> {
    match o {
        Some(s) => Some(s@),
        None => None,
    }
}

/// The config after each of `ids` is set to disabled, in order.
pub open spec fn disable_all(m: Map<Seq<char>, bool>, ids: Seq<String>) -> Map<Seq<char>, bool>
    decreases ids.len(),
{
    if ids.len() == 0 {
        m
    } else {
        disable_all(m, ids.drop_last()).insert(ids.last()@, false)
    }
}

/// The config after each toggle (an id and whether it is now enabled) is set, in order.
pub open spec fn apply_toggles(m: Map<Seq<char>, bool>, toggles: Seq<(String, bool)>) -> Map<Seq<char>, bool>
    decreases toggles.len(),
{
    if toggles.len() == 0 {
        m
    } else {
        apply_toggles(m, toggles.drop_last()).insert(toggles.last().0@, toggles.last().1)
    }
}

/// The ids of the definitions that `m` disables, in definition order.
pub open spec fn disabled_ids(defs: Seq<StorylineDefinition>, m: Map<Seq<char>, bool>) -> Seq<Seq<char>>
    decreases defs.len(),
{
    if defs.len() == 0 {
        Seq::empty()
    } else {
        disabled_ids(defs.drop_last(), m) + if disabled_in(m, defs.last().id@) {
            seq![defs.last().id@]
        } else {
            Seq::empty()
        }
    }
}

/// The texts of a sequence of strings.
pub open spec fn texts(v: Seq<String>) -> Seq<Seq<char>>
    decreases v.len(),
{
    if v.len() == 0 {
        Seq::empty()
    } else {
        texts(v.drop_last()).push(v.last()@)
    }
}

/// The number of events blocked for the storyline `id`.
pub open spec fn blocked_count(events: Seq<BlockedEvent>, id: Seq<char>) -> nat
    decreases events.len(),
{
    if events.len() == 0 {
        0
    } else {
        blocked_count(events.drop_last(), id) + if events.last().storyline_id@ == id { 1nat } else { 0nat }
    }
}

/// The events the known status reports (none without a status).
pub open spec fn status_events(s: Option<ModStatus>) -> Seq<BlockedEvent> {
    match s {
        Some(st) => st.blocked_events@,
        None => Seq::empty(),
    }
}

/// The blocked events summed over the definitions, each counted under its storyline.
pub open spec fn blocked_total(defs: Seq<StorylineDefinition>, events: Seq<BlockedEvent>) -> nat
    decreases defs.len(),
{
    if defs.len() == 0 {
        0
    } else {
        blocked_total(defs.drop_last(), events) + blocked_count(events, defs.last().id@)
    }
}

/// A status read is due when none was made or the last is more than three
/// seconds old.
pub open spec fn status_check_due(last: Option<u64>, now: u64) -> bool {
    match last {
        None => true,
        Some(t) => (if now >= t { now - t } else { 0 }) > 3_000_000_000,
    }
}

/// What the panel shows about the mod.
#[derive(Debug, Clone, Copy, PartialEq, Eq)]
pub enum ModState {
    /// The mod reports that it is active; the number of events it blocked for
    /// the listed storylines.
    Connected { blocked: usize },
    /// The mod reports that it is not active.
    Inactive,
    /// No status was read.
    NotDetected,
}

impl StorylinePanel {
    /// The panel after its definitions are loaded: from the definitions file
    /// next to the program when it exists and loads (recording its path and
    /// clearing the error); otherwise from the built-in definitions, keeping the
    /// file's error if it had one.
    pub fn load_definitions(
        &mut self,
        exe_file: Option<(String, Result<Vec<StorylineDefinition>, String>)>,
        embedded: Result<Vec<StorylineDefinition>, String>,
    )
        ensures
            final(self).config@ == old(self).config@,
            final(self).mod_status == old(self).mod_status,
            final(self).last_status_check == old(self).last_status_check,
            match exe_file {
                Some((path, Ok(defs))) => {
                    &&& final(self).definitions@ == defs@
                    &&& opt_text(final(self).storylines_path) == Some(path@)
                    &&& final(self).load_error is None
                },
                _ => {
                    let file_error = match exe_file {
                        Some((_, Err(e))) => Some("Error loading storylines.toml: "@ + e@),
                        _ => opt_text(old(self).load_error),
                    };
                    &&& opt_text(final(self).storylines_path) == opt_text(old(self).storylines_path)
                    &&& match embedded {
                        Ok(defs) => final(self).definitions@ == defs@ && opt_text(final(self).load_error) == file_error,
                        Err(e) => final(self).definitions@ == old(self).definitions@
                            && opt_text(final(self).load_error) == Some("Error parsing embedded storylines: "@ + e@),
                    }
                },
            },
    {
        if let Some((path, result)) = exe_file {
            match result {
                Ok(defs) => {
                    self.storylines_path = Some(path);
                    self.definitions = defs;
                    self.load_error = None;
                    return;
                },
                Err(e) => {
                    let mut msg = chars_of("Error loading storylines.toml: ");
                    push_str(&mut msg, e.as_str());
                    self.load_error = Some(string_from_chars(msg));
                },
            }
        }
        match embedded {
            Ok(defs) => {
                self.definitions = defs;
            },
            Err(e) => {
                let mut msg = chars_of("Error parsing embedded storylines: ");
                push_str(&mut msg, e.as_str());
                self.load_error = Some(string_from_chars(msg));
            },
        }
    }

    /// Marks every storyline that a config written by the overlay disables.
    pub fn apply_ipc_config(&mut self, cfg: &ModConfig)
        ensures
            final(self).config@ == disable_all(old(self).config@, cfg.disabled_storylines@),
            final(self).definitions == old(self).definitions,
            final(self).mod_status == old(self).mod_status,
            final(self).last_status_check == old(self).last_status_check,
            final(self).load_error == old(self).load_error,
            final(self).storylines_path == old(self).storylines_path,
    {
        let ids = &cfg.disabled_storylines;
        let mut i: usize = 0;
        while i < ids.len()
            invariant
                i <= ids.len(),
                self.config@ == disable_all(old(self).config@, ids@.subrange(0, i as int)),
                self.definitions == old(self).definitions,
                self.mod_status == old(self).mod_status,
                self.last_status_check == old(self).last_status_check,
                self.load_error == old(self).load_error,
                self.storylines_path == old(self).storylines_path,
            decreases ids.len() - i,
        {
            assert(ids@.subrange(0, i + 1).drop_last() =~= ids@.subrange(0, i as int));
            self.config.set_enabled(ids[i].as_str(), false);
            i = i + 1;
        }
        assert(ids@.subrange(0, ids@.len() as int) =~= ids@);
    }

    /// The panel as it starts: definitions loaded as `load_definitions` does,
    /// then the storylines that the config read from the communication
    /// directory disables marked as disabled.
    pub fn new(
        exe_file: Option<(String, Result<Vec<StorylineDefinition>, String>)>,
        embedded: Result<Vec<StorylineDefinition>, String>,
        ipc_config: Option<ModConfig>,
    ) -> (r: Self)
        ensures
            r.mod_status is None,
            r.last_status_check is None,
            r.config@ == match ipc_config {
                Some(c) => disable_all(Map::empty(), c.disabled_storylines@),
                None => Map::empty(),
            },
            match exe_file {
                Some((path, Ok(defs))) => {
                    &&& r.definitions@ == defs@
                    &&& opt_text(r.storylines_path) == Some(path@)
                    &&& r.load_error is None
                },
                _ => {
                    let file_error = match exe_file {
                        Some((_, Err(e))) => Some("Error loading storylines.toml: "@ + e@),
                        _ => None,
                    };
                    &&& r.storylines_path is None
                    &&& match embedded {
                        Ok(defs) => r.definitions@ == defs@ && opt_text(r.load_error) == file_error,
                        Err(e) => r.definitions@.len() == 0
                            && opt_text(r.load_error) == Some("Error parsing embedded storylines: "@ + e@),
                    }
                },
            },
    {
        let mut panel = StorylinePanel {
            definitions: Vec::new(),
            config: StorylineConfig::new(),
            mod_status: None,
            last_status_check: None,
            load_error: None,
            storylines_path: None,
        };
        panel.load_definitions(exe_file, embedded);
        if let Some(cfg) = ipc_config {
            panel.apply_ipc_config(&cfg);
        } else {
            assert(panel.config@ == Map::<Seq<char>, bool>::empty());
        }
        panel
    }

    /// The config the overlay writes for the mod: the ids of the definitions
    /// that are disabled, in definition order.
    pub fn disabled_config(&self) -> (r: ModConfig)
        ensures
            texts(r.disabled_storylines@) == disabled_ids(self.definitions@, self.config@),
    {
        let mut disabled: Vec<String> = Vec::new();
        let mut i: usize = 0;
        while i < self.definitions.len()
            invariant
                i <= self.definitions.len(),
                texts(disabled@) == disabled_ids(self.definitions@.subrange(0, i as int), self.config@),
            decreases self.definitions.len() - i,
        {
            let d = &self.definitions[i];
            assert(self.definitions@.subrange(0, i + 1).drop_last() =~= self.definitions@.subrange(0, i as int));
            let ghost prev = disabled@;
            if self.config.is_disabled(d.id.as_str()) {
                disabled.push(d.id.clone());
                assert(disabled@.drop_last() =~= prev);
                assert(texts(disabled@) == texts(prev).push(d.id@));
            } else {
                assert(disabled@ == prev);
            }
            assert(texts(disabled@) =~= disabled_ids(self.definitions@.subrange(0, i + 1), self.config@));
            i = i + 1;
        }
        assert(self.definitions@.subrange(0, self.definitions@.len() as int) =~= self.definitions@);
        ModConfig { disabled_storylines: disabled }
    }

    /// Applies the checkbox changes of one frame, in order. When there was any,
    /// returns the config to write for the mod (written once, after all of them);
    /// otherwise nothing is written.
    pub fn toggle_storylines(&mut self, toggles: &Vec<(String, bool)>) -> (r: Option<ModConfig>)
        ensures
            final(self).config@ == apply_toggles(old(self).config@, toggles@),
            r is Some <==> toggles@.len() > 0,
            r matches Some(c) ==> texts(c.disabled_storylines@) == disabled_ids(final(self).definitions@, final(self).config@),
            final(self).definitions == old(self).definitions,
            final(self).mod_status == old(self).mod_status,
            final(self).last_status_check == old(self).last_status_check,
            final(self).load_error == old(self).load_error,
            final(self).storylines_path == old(self).storylines_path,
    {
        let mut i: usize = 0;
        while i < toggles.len()
            invariant
                i <= toggles.len(),
                self.config@ == apply_toggles(old(self).config@, toggles@.subrange(0, i as int)),
                self.definitions == old(self).definitions,
                self.mod_status == old(self).mod_status,
                self.last_status_check == old(self).last_status_check,
                self.load_error == old(self).load_error,
                self.storylines_path == old(self).storylines_path,
            decreases toggles.len() - i,
        {
            assert(toggles@.subrange(0, i + 1).drop_last() =~= toggles@.subrange(0, i as int));
            self.config.set_enabled(toggles[i].0.as_str(), toggles[i].1);
            i = i + 1;
        }
        assert(toggles@.subrange(0, toggles@.len() as int) =~= toggles@);
        if toggles.len() > 0 {
            Some(self.disabled_config())
        } else {
            None
        }
    }

    /// Whether the mod's status should be read again at time `now`.
    pub fn status_check_due(&self, now: u64) -> (r: bool)
        ensures
            r == status_check_due(self.last_status_check, now),
    {
        match self.last_status_check {
            None => true,
            Some(t) => now.saturating_sub(t) > 3_000_000_000,
        }
    }

    /// Records a status read at time `now` when a read was due; otherwise the
    /// panel is unchanged.
    pub fn check_mod_status(&mut self, now: u64, status: Option<ModStatus>)
        ensures
            status_check_due(old(self).last_status_check, now) ==> final(self).mod_status == status
                && final(self).last_status_check == Some(now),
            !status_check_due(old(self).last_status_check, now) ==> final(self).mod_status == old(self).mod_status
                && final(self).last_status_check == old(self).last_status_check,
            final(self).definitions == old(self).definitions,
            final(self).config@ == old(self).config@,
            final(self).load_error == old(self).load_error,
            final(self).storylines_path == old(self).storylines_path,
    {
        if self.status_check_due(now) {
            self.mod_status = status;
            self.last_status_check = Some(now);
        }
    }

    /// The number of blocked events the mod reported for the storyline.
    pub fn blocked_count_for(&self, storyline_id: &str) -> (r: usize)
        ensures
            r == blocked_count(status_events(self.mod_status), storyline_id@),
    {
        match &self.mod_status {
            Some(s) => {
                let events = &s.blocked_events;
                let mut count: usize = 0;
                let mut i: usize = 0;
                while i < events.len()
                    invariant
                        i <= events.len(),
                        count == blocked_count(events@.subrange(0, i as int), storyline_id@),
                        count <= i,
                    decreases events.len() - i,
                {
                    assert(events@.subrange(0, i + 1).drop_last() =~= events@.subrange(0, i as int));
                    if str_eq(events[i].storyline_id.as_str(), storyline_id) {
                        count = count + 1;
                    }
                    i = i + 1;
                }
                assert(events@.subrange(0, events@.len() as int) =~= events@);
                count
            },
            None => 0,
        }
    }

    /// The blocked events summed over the listed storylines.
    pub fn total_blocked(&self) -> (r: usize)
        requires
            blocked_total(self.definitions@, status_events(self.mod_status)) <= usize::MAX,
        ensures
            r == blocked_total(self.definitions@, status_events(self.mod_status)),
    {
        let mut total: usize = 0;
        let mut i: usize = 0;
        while i < self.definitions.len()
            invariant
                i <= self.definitions.len(),
                blocked_total(self.definitions@, status_events(self.mod_status)) <= usize::MAX,
                total == blocked_total(self.definitions@.subrange(0, i as int), status_events(self.mod_status)),
            decreases self.definitions.len() - i,
        {
            assert(self.definitions@.subrange(0, i + 1).drop_last() =~= self.definitions@.subrange(0, i as int));
            proof {
                lemma_blocked_total_prefix(self.definitions@, status_events(self.mod_status), i as int + 1);
            }
            let n = self.blocked_count_for(self.definitions[i].id.as_str());
            total = total + n;
            i = i + 1;
        }
        assert(self.definitions@.subrange(0, self.definitions@.len() as int) =~= self.definitions@);
        total
    }

    /// What the panel shows about the mod.
    pub fn mod_state(&self) -> (r: ModState)
        requires
            blocked_total(self.definitions@, status_events(self.mod_status)) <= usize::MAX,
        ensures
            match self.mod_status {
                Some(s) => if s.active {
                    r == ModState::Connected { blocked: blocked_total(self.definitions@, s.blocked_events@) as usize }
                } else {
                    r == ModState::Inactive
                },
                None => r == ModState::NotDetected,
            },
    {
        match &self.mod_status {
            Some(s) => if s.active {
                ModState::Connected { blocked: self.total_blocked() }
            } else {
                ModState::Inactive
            },
            None => ModState::NotDetected,
        }
    }

    /// The indices of the definitions in `category`, in order.
    pub fn definitions_in(&self, category: StorylineCategory) -> (r: Vec<usize>)
        ensures
            forall|k: int| 0 <= k < r@.len() ==> #[trigger] r@[k] < self.definitions@.len()
                && self.definitions@[r@[k] as int].category == category,
            forall|k: int, l: int| 0 <= k < l < r@.len() ==> r@[k] < r@[l],
            forall|j: int| 0 <= j < self.definitions@.len() && self.definitions@[j].category == category
                ==> exists|k: int| 0 <= k < r@.len() && #[trigger] r@[k] == j,
    {
        let mut out: Vec<usize> = Vec::new();
        let mut i: usize = 0;
        while i < self.definitions.len()
            invariant
                i <= self.definitions.len(),
                forall|k: int| 0 <= k < out@.len() ==> #[trigger] out@[k] < i
                    && self.definitions@[out@[k] as int].category == category,
                forall|k: int, l: int| 0 <= k < l < out@.len() ==> out@[k] < out@[l],
                forall|j: int| 0 <= j < i && self.definitions@[j].category == category
                    ==> exists|k: int| 0 <= k < out@.len() && #[trigger] out@[k] == j,
            decreases self.definitions.len() - i,
        {
            let ghost prev = out@;
            if self.definitions[i].category == category {
                out.push(i);
                assert(out@[out@.len() - 1] == i);
            }
            assert forall|j: int| 0 <= j < i + 1 && self.definitions@[j].category == category
                implies exists|k: int| 0 <= k < out@.len() && #[trigger] out@[k] == j by {
                if j < i {
                    let k = choose|k: int| 0 <= k < prev.len() && #[trigger] prev[k] == j;
                    assert(out@[k] == prev[k]);
                } else {
                    assert(out@[out@.len() - 1] == j);
                }
            }
            i = i + 1;
        }
        out
    }
}

/// A prefix of the definitions counts no more than all of them.
proof fn lemma_blocked_total_prefix(defs: Seq<StorylineDefinition>, events: Seq<BlockedEvent>, n: int)
    requires
        0 <= n <= defs.len(),
    ensures
        blocked_total(defs.subrange(0, n), events) <= blocked_total(defs, events),
    decreases defs.len() - n,
{
    if n < defs.len() {
        lemma_blocked_total_prefix(defs, events, n + 1);
        assert(defs.subrange(0, n + 1).drop_last() =~= defs.subrange(0, n));
    } else {
        assert(defs.subrange(0, n) =~= defs);
    }
}

/// The name of a storyline row: `<name> (blocked <n>)` for a disabled
/// storyline with blocked events, else the name.
pub open spec fn storyline_label_text(name: Seq<char>, enabled: bool, blocked: nat) -> Seq<char> {
    if !enabled && blocked > 0 {
        name + " (blocked "@ + decimal(blocked) + ")"@
    } else {
        name
    }
}

/// The text of a storyline row.
pub fn storyline_label(def: &StorylineDefinition, enabled: bool, blocked: usize) -> (r: String)
    ensures
        r@ == storyline_label_text(def.name@, enabled, blocked as nat),
{
    if !enabled && blocked > 0 {
        let mut out = chars_of(def.name.as_str());
        push_str(&mut out, " (blocked ");
        push_decimal(&mut out, blocked as u64);
        push_str(&mut out, ")");
        string_from_chars(out)
    } else {
        def.name.clone()
    }
}

// ---------------------------------------------------------------------------
// The party view and the save list
// ---------------------------------------------------------------------------

/// The companions' origin names.
pub open spec fn is_companion(name: Seq<char>) -> bool {
    ||| name == "Shadowheart"@
    ||| name == "Astarion"@
    ||| name == "Gale"@
    ||| name == "Karlach"@
    ||| name == "Wyll"@
    ||| name == "Halsin"@
    ||| name == "Minthara"@
    ||| name == "Jaheira"@
    ||| name == "Minsc"@
}

/// An ASCII capital letter.
pub open spec fn is_ascii_upper(c: char) -> bool {
    'A' <= c && c <= 'Z'
}

/// An ASCII small letter.
pub open spec fn is_ascii_lower(c: char) -> bool {
    'a' <= c && c <= 'z'
}

/// An internal name split into words: a space before each capital that follows
/// a small letter (`WoodElf` reads `Wood Elf`), and `_` read as a space.
pub open spec fn camel_words(s: Seq<char>) -> Seq<char>
    decreases s.len(),
{
    if s.len() == 0 {
        Seq::empty()
    } else {
        let c = s.last();
        camel_words(s.drop_last()) + if c == '_' {
            seq![' ']
        } else if s.len() >= 2 && is_ascii_upper(c) && is_ascii_lower(s[s.len() - 2]) {
            seq![' ', c]
        } else {
            seq![c]
        }
    }
}

/// `b` is a suffix of `v`.
pub open spec fn ends_with(v: Seq<char>, b: Seq<char>) -> bool {
    b.len() <= v.len() && v.subrange(v.len() - b.len(), v.len() as int) == b
}

/// The display form of an origin or race name: a companion's origin as it is;
/// an internal race name `<race>_<subrace>` as the subrace's words followed by
/// the race's words, unless the subrace already ends with them (`Gnome_Deep`
/// reads `Deep Gnome`, `Elf_WoodElf` reads `Wood Elf`); any other name as it is.
pub open spec fn friendly(name: Seq<char>) -> Seq<char> {
    if is_companion(name) {
        name
    } else {
        match find_from(name, "_"@, 0) {
            Some(i) => {
                let race = camel_words(name.subrange(0, i));
                let sub = camel_words(name.skip(i + 1));
                if ends_with(sub, race) {
                    sub
                } else {
                    sub + " "@ + race
                }
            },
            None => name,
        }
    }
}

fn is_companion_name(name: &str) -> (r: bool)
    ensures
        r == is_companion(name@),
{
    str_eq(name, "Shadowheart") || str_eq(name, "Astarion") || str_eq(name, "Gale") || str_eq(name, "Karlach")
        || str_eq(name, "Wyll") || str_eq(name, "Halsin") || str_eq(name, "Minthara") || str_eq(name, "Jaheira")
        || str_eq(name, "Minsc")
}

/// The words of `s[lo..hi]` (see `camel_words`).
fn camel_words_of(s: &Vec<char>, lo: usize, hi: usize) -> (r: Vec<char>)
    requires
        lo <= hi <= s.len(),
    ensures
        r@ == camel_words(s@.subrange(lo as int, hi as int)),
{
    let mut out: Vec<char> = Vec::new();
    let mut k: usize = lo;
    assert(s@.subrange(lo as int, lo as int) =~= Seq::<char>::empty());
    while k < hi
        invariant
            lo <= k <= hi <= s.len(),
            out@ == camel_words(s@.subrange(lo as int, k as int)),
        decreases hi - k,
    {
        let ghost next = s@.subrange(lo as int, k + 1);
        assert(next.drop_last() =~= s@.subrange(lo as int, k as int));
        assert(next.last() == s@[k as int]);
        let c = s[k];
        if c == '_' {
            out.push(' ');
        } else if k >= lo + 1 && 'A' <= c && c <= 'Z' && 'a' <= s[k - 1] && s[k - 1] <= 'z' {
            assert(next[next.len() - 2] == s@[k - 1]);
            out.push(' ');
            out.push(c);
        } else {
            proof {
                if next.len() >= 2 {
                    assert(next[next.len() - 2] == s@[k - 1]);
                }
            }
            out.push(c);
        }
        assert(out@ =~= camel_words(next));
        k = k + 1;
    }
    out
}

/// Whether `b` is a suffix of `v`.
fn ends_with_chars(v: &Vec<char>, b: &Vec<char>) -> (r: bool)
    ensures
        r == ends_with(v@, b@),
{
    if b.len() <= v.len() {
        crate::text::matches_at(v, b, v.len() - b.len())
    } else {
        false
    }
}

/// Convert internal origin/race names to friendly display names (see `friendly`).
pub fn friendly_name(name: &str) -> (r: String)
    ensures
        r@ == friendly(name@),
{
    if is_companion_name(name) {
        return owned(name);
    }
    let cs = chars_of(name);
    let us = chars_of("_");
    proof {
        reveal_strlit("_");
    }
    match find_in(&cs, &us, 0) {
        None => owned(name),
        Some(i) => {
            proof {
                crate::text::lemma_find_from_match(cs@, us@, 0);
            }
            let race = camel_words_of(&cs, 0, i);
            let sub = camel_words_of(&cs, i + 1, cs.len());
            assert(cs@.subrange(i + 1, cs@.len() as int) =~= cs@.skip(i + 1));
            if ends_with_chars(&sub, &race) {
                string_from_chars(sub)
            } else {
                let mut out = sub;
                out.push(' ');
                let mut r = race;
                out.append(&mut r);
                proof {
                    reveal_strlit(" ");
                }
                assert(out@ =~= friendly(name@));
                string_from_chars(out)
            }
        },
    }
}

/// The name shown for a party member: a companion by name; a custom character
/// by its race in display form (see `friendly`), or, where the race is empty or
/// `Unknown`, by its name in display form.
pub open spec fn header_name(c: CharacterView) -> Seq<char> {
    if is_companion(c.name) {
        c.name
    } else if c.race.len() > 0 && c.race != "Unknown"@ {
        friendly(c.race)
    } else {
        friendly(c.name)
    }
}

/// The heading of a party member in the party view:
/// `<shown name> - Lvl <level> <class>`, with ` *` for the player.
pub open spec fn character_header(c: CharacterView) -> Seq<char> {
    header_name(c) + " - Lvl "@ + decimal(c.level as nat) + " "@ + c.class + if c.is_player { " *"@ } else { Seq::empty() }
}

/// Format character header line with name for companions, race for custom chars.
pub fn format_character_header(ch: &Character) -> (r: String)
    ensures
        r@ == character_header(ch@),
{
    proof {
        reveal_strlit("Unknown");
    }
    let name_display = if is_companion_name(ch.name.as_str()) {
        owned(ch.name.as_str())
    } else if !ch.race.as_str().is_empty() && !str_eq(ch.race.as_str(), "Unknown") {
        friendly_name(ch.race.as_str())
    } else {
        friendly_name(ch.name.as_str())
    };
    let mut out = chars_of(name_display.as_str());
    push_str(&mut out, " - Lvl ");
    push_decimal(&mut out, ch.level as u64);
    push_str(&mut out, " ");
    push_str(&mut out, ch.class.as_str());
    if ch.is_player {
        push_str(&mut out, " *");
    }
    assert(out@ =~= character_header(ch@));
    string_from_chars(out)
}

/// A companion is always shown by name: for each companion origin, the header
/// of a character of that name starts with the name and ` - Lvl `, whatever
/// its race; and `friendly_name` keeps each companion origin as it is.
pub proof fn law_companions_shown_by_name(c: CharacterView)
    requires
        c.name == "Shadowheart"@ || c.name == "Astarion"@ || c.name == "Gale"@ || c.name == "Karlach"@
            || c.name == "Wyll"@ || c.name == "Halsin"@ || c.name == "Minthara"@ || c.name == "Jaheira"@
            || c.name == "Minsc"@,
    ensures
        character_header(c).subrange(0, (c.name.len() + 7) as int) == c.name + " - Lvl "@,
        friendly(c.name) == c.name,
{
    reveal_strlit(" - Lvl ");
    let head = c.name + " - Lvl "@;
    let rest = decimal(c.level as nat) + " "@ + c.class + if c.is_player { " *"@ } else { Seq::empty() };
    assert(character_header(c) =~= head + rest);
    assert((head + rest).subrange(0, head.len() as int) =~= head);
}

/// The label of a save in the save picker: `<character> - <save>`, followed by
/// `tag` for an honour-mode save.
pub open spec fn save_label_text(info: crate::models::SaveInfoView, tag: Seq<char>) -> Seq<char> {
    info.character_name + " - "@ + info.save_name + if info.is_honour_mode { tag } else { Seq::empty() }
}

/// The label of a save in the save picker or the header.
pub fn save_label(info: &SaveInfo, honour_tag: &str) -> (r: String)
    ensures
        r@ == save_label_text(info@, honour_tag@),
{
    let mut out = chars_of(info.character_name.as_str());
    push_str(&mut out, " - ");
    push_str(&mut out, info.save_name.as_str());
    if info.is_honour_mode {
        push_str(&mut out, honour_tag);
    }
    assert(out@ =~= save_label_text(info@, honour_tag@));
    string_from_chars(out)
}

/// A change to the save directory reloads the save unless the last load is
/// at most two seconds old.
pub open spec fn reload_due(change_seen: bool, since_last_load: Option<u64>) -> bool {
    change_seen && match since_last_load {
        None => true,
        Some(d) => d > 2_000_000_000,
    }
}

/// Whether to reload the save, given whether the watcher reported a change and
/// the nanoseconds since the last load.
pub fn should_reload(change_seen: bool, since_last_load: Option<u64>) -> (r: bool)
    ensures
        r == reload_due(change_seen, since_last_load),
{
    if change_seen {
        match since_last_load {
            None => true,
            Some(d) => d > 2_000_000_000,
        }
    } else {
        false
    }
}

/// `i` is the last of the saves with the greatest timestamp.
pub open spec fn is_most_recent(saves: Seq<SaveInfo>, i: int) -> bool {
    &&& 0 <= i < saves.len()
    &&& forall|j: int| 0 <= j < saves.len() ==> #[trigger] saves[j].timestamp <= saves[i].timestamp
    &&& forall|j: int| i < j < saves.len() ==> #[trigger] saves[j].timestamp < saves[i].timestamp
}

/// The most recent save: the index of the last save with the greatest timestamp.
pub fn most_recent_save(saves: &Vec<SaveInfo>) -> (r: Option<usize>)
    ensures
        r is None <==> saves@.len() == 0,
        r matches Some(i) ==> is_most_recent(saves@, i as int),
{
    if saves.len() == 0 {
        return None;
    }
    let mut best: usize = 0;
    let mut i: usize = 1;
    while i < saves.len()
        invariant
            1 <= i <= saves.len(),
            best < i,
            forall|j: int| 0 <= j < i ==> #[trigger] saves@[j].timestamp <= saves@[best as int].timestamp,
            forall|j: int| best < j < i ==> #[trigger] saves@[j].timestamp < saves@[best as int].timestamp,
        decreases saves.len() - i,
    {
        if saves[i].timestamp >= saves[best].timestamp {
            best = i;
        }
        i = i + 1;
    }
    Some(best)
}

/// The saves among the scan results, in order.
pub open spec fn successful_scans(scanned: Seq<Result<SaveInfo, String>>) -> Seq<SaveInfo>
    decreases scanned.len(),
{
    if scanned.len() == 0 {
        Seq::empty()
    } else {
        successful_scans(scanned.drop_last()) + match scanned.last() {
            Ok(info) => seq![info],
            Err(_) => Seq::empty(),
        }
    }
}

/// Where `x` goes in a list ordered newest first: after every save at least as
/// new as it.
pub open spec fn insert_pos(sorted: Seq<SaveInfo>, x: SaveInfo) -> int
    decreases sorted.len(),
{
    if sorted.len() == 0 {
        0
    } else if sorted.last().timestamp >= x.timestamp {
        sorted.len() as int
    } else {
        insert_pos(sorted.drop_last(), x)
    }
}

/// `saves` ordered newest first; saves with equal timestamps keep their order
/// (a stable sort by decreasing timestamp).
pub open spec fn newest_first(saves: Seq<SaveInfo>) -> Seq<SaveInfo>
    decreases saves.len(),
{
    if saves.len() == 0 {
        Seq::empty()
    } else {
        let sorted = newest_first(saves.drop_last());
        sorted.insert(insert_pos(sorted, saves.last()), saves.last())
    }
}

/// No save is newer than one before it.
pub open spec fn is_newest_first(saves: Seq<SaveInfo>) -> bool {
    forall|i: int, j: int| 0 <= i < j < saves.len() ==> #[trigger] saves[i].timestamp >= #[trigger] saves[j].timestamp
}

/// The insertion position lies within the list, after the saves at least as new
/// and before the older ones (for a list ordered newest first).
proof fn lemma_insert_pos(sorted: Seq<SaveInfo>, x: SaveInfo)
    requires
        is_newest_first(sorted),
    ensures
        0 <= insert_pos(sorted, x) <= sorted.len(),
        forall|k: int| 0 <= k < insert_pos(sorted, x) ==> #[trigger] sorted[k].timestamp >= x.timestamp,
        forall|k: int| insert_pos(sorted, x) <= k < sorted.len() ==> #[trigger] sorted[k].timestamp < x.timestamp,
    decreases sorted.len(),
{
    if sorted.len() > 0 {
        let p = sorted.drop_last();
        assert(is_newest_first(p));
        lemma_insert_pos(p, x);
        if sorted.last().timestamp >= x.timestamp {
        } else {
            assert forall|k: int| insert_pos(sorted, x) <= k < sorted.len() implies #[trigger] sorted[k].timestamp < x.timestamp by {
                if k < sorted.len() - 1 {
                    assert(p[k] == sorted[k]);
                }
            }
            assert forall|k: int| 0 <= k < insert_pos(sorted, x) implies #[trigger] sorted[k].timestamp >= x.timestamp by {
                assert(p[k] == sorted[k]);
            }
        }
    }
}

/// Ordering saves newest first gives a list that is ordered newest first and
/// holds the same saves.
pub proof fn law_newest_first_sorted_permutation(saves: Seq<SaveInfo>)
    ensures
        is_newest_first(newest_first(saves)),
        newest_first(saves).to_multiset() == saves.to_multiset(),
    decreases saves.len(),
{
    broadcast use vstd::seq_lib::group_to_multiset_ensures;
    if saves.len() > 0 {
        let p = saves.drop_last();
        let x = saves.last();
        law_newest_first_sorted_permutation(p);
        let sorted = newest_first(p);
        lemma_insert_pos(sorted, x);
        let pos = insert_pos(sorted, x);
        let r = sorted.insert(pos, x);
        assert forall|i: int, j: int| 0 <= i < j < r.len() implies #[trigger] r[i].timestamp >= #[trigger] r[j].timestamp by {
            if j < pos {
            } else if j == pos {
                assert(r[i] == sorted[i]);
            } else if i < pos {
                assert(r[j] == sorted[j - 1]);
            } else if i == pos {
                assert(r[j] == sorted[j - 1]);
            } else {
                assert(r[i] == sorted[i - 1] && r[j] == sorted[j - 1]);
            }
        }
        assert(saves == p.push(x));
    }
}

/// The successful scan results ordered newest first (`sort_by` on decreasing
/// timestamps, which is stable).
pub fn scan_all_saves(scanned: Vec<Result<SaveInfo, String>>) -> (r: Vec<SaveInfo>)
    ensures
        r@ == newest_first(successful_scans(scanned@)),
{
    let ghost input = scanned@;
    assert(input.len() == scanned.len());
    let mut sorted: Vec<SaveInfo> = Vec::new();
    let mut rest = scanned;
    let mut taken: usize = 0;
    while rest.len() > 0
        invariant
            taken <= input.len(),
            input.len() <= usize::MAX,
            rest@ == input.skip(taken as int),
            sorted@ == newest_first(successful_scans(input.subrange(0, taken as int))),
        decreases rest.len(),
    {
        let item = rest.remove(0);
        assert(item == input[taken as int]);
        assert(input.subrange(0, taken + 1).drop_last() =~= input.subrange(0, taken as int));
        let ghost before = successful_scans(input.subrange(0, taken as int));
        proof {
            law_newest_first_sorted_permutation(before);
        }
        match item {
            Ok(info) => {
                let ghost x = info;
                let mut pos = sorted.len();
                assert(sorted@.subrange(0, pos as int) =~= sorted@);
                while pos > 0 && sorted[pos - 1].timestamp < info.timestamp
                    invariant
                        pos <= sorted.len(),
                        insert_pos(sorted@, x) == insert_pos(sorted@.subrange(0, pos as int), x),
                        x == info,
                    decreases pos,
                {
                    assert(sorted@.subrange(0, pos as int).drop_last() =~= sorted@.subrange(0, pos - 1));
                    pos = pos - 1;
                }
                proof {
                    if pos > 0 {
                        assert(sorted@.subrange(0, pos as int).last() == sorted@[pos - 1]);
                    }
                }
                sorted.insert(pos, info);
                assert(before.push(x) =~= successful_scans(input.subrange(0, taken + 1)));
                assert(before.push(x).drop_last() =~= before);
            },
            Err(_) => {
                assert(before =~= successful_scans(input.subrange(0, taken + 1)));
            },
        }
        taken = taken + 1;
        assert(rest@ =~= input.skip(taken as int));
    }
    assert(input.subrange(0, input.len() as int) =~= input);
    sorted
}

// ---------------------------------------------------------------------------
// Laws of the panel's config
// ---------------------------------------------------------------------------

/// After the ids of a config are marked on a fresh panel, a storyline is
/// disabled exactly when the config lists it.
pub proof fn law_applied_config_disables_listed(ids: Seq<String>, k: Seq<char>)
    ensures
        disabled_in(disable_all(Map::empty(), ids), k) <==> texts(ids).contains(k),
    decreases ids.len(),
{
    if ids.len() > 0 {
        law_applied_config_disables_listed(ids.drop_last(), k);
        let t = texts(ids);
        let tp = texts(ids.drop_last());
        assert(t == tp.push(ids.last()@));
        if tp.contains(k) {
            let i = choose|i: int| 0 <= i < tp.len() && tp[i] == k;
            assert(t[i] == k);
        }
        if t.contains(k) && k != ids.last()@ {
            let i = choose|i: int| 0 <= i < t.len() && t[i] == k;
            assert(i < tp.len());
            assert(tp[i] == k);
        }
        if k == ids.last()@ {
            assert(t[t.len() - 1] == k);
        }
    }
}

/// Marking the ids of a config: a listed id ends up set to disabled; any other
/// id keeps what it had.
proof fn lemma_disable_all_at(m: Map<Seq<char>, bool>, ids: Seq<String>, k: Seq<char>)
    ensures
        texts(ids).contains(k) ==> disable_all(m, ids).dom().contains(k) && !disable_all(m, ids)[k],
        !texts(ids).contains(k) ==> (disable_all(m, ids).dom().contains(k) <==> m.dom().contains(k))
            && (m.dom().contains(k) ==> disable_all(m, ids)[k] == m[k]),
    decreases ids.len(),
{
    if ids.len() > 0 {
        let p = ids.drop_last();
        lemma_disable_all_at(m, p, k);
        let t = texts(ids);
        let tp = texts(p);
        assert(t == tp.push(ids.last()@));
        if tp.contains(k) {
            let i = choose|i: int| 0 <= i < tp.len() && tp[i] == k;
            assert(t[i] == k);
        }
        if t.contains(k) && k != ids.last()@ {
            let i = choose|i: int| 0 <= i < t.len() && t[i] == k;
            assert(tp[i] == k);
        }
        if k == ids.last()@ {
            assert(t[t.len() - 1] == k);
        }
    }
}

/// Marking the same config twice is marking it once: reading a config the
/// overlay already applied changes nothing.
pub proof fn law_apply_config_idempotent(m: Map<Seq<char>, bool>, ids: Seq<String>)
    ensures
        disable_all(disable_all(m, ids), ids) == disable_all(m, ids),
{
    let once = disable_all(m, ids);
    let twice = disable_all(once, ids);
    assert forall|k: Seq<char>| #[trigger] twice.dom().contains(k) <==> once.dom().contains(k) by {
        lemma_disable_all_at(m, ids, k);
        lemma_disable_all_at(once, ids, k);
    }
    assert forall|k: Seq<char>| #[trigger] twice.dom().contains(k) implies twice[k] == once[k] by {
        lemma_disable_all_at(m, ids, k);
        lemma_disable_all_at(once, ids, k);
    }
    assert(twice =~= once);
}

/// An id is listed among the disabled ids exactly when some definition has it
/// and the config disables it.
#[verifier::spinoff_prover]
proof fn lemma_disabled_ids_contains(defs: Seq<StorylineDefinition>, m: Map<Seq<char>, bool>, k: Seq<char>)
    ensures
        disabled_ids(defs, m).contains(k) <==> disabled_in(m, k) && exists|j: int| 0 <= j < defs.len() && #[trigger] defs[j].id@ == k,
    decreases defs.len(),
{
    if defs.len() > 0 {
        let p = defs.drop_last();
        lemma_disabled_ids_contains(p, m, k);
        let d = disabled_ids(defs, m);
        let dp = disabled_ids(p, m);
        let last = defs.last().id@;
        let tail: Seq<Seq<char>> = if disabled_in(m, last) { seq![last] } else { Seq::empty() };
        assert(d == dp + tail);
        assert(forall|i: int| 0 <= i < dp.len() ==> #[trigger] d[i] == dp[i]);
        assert(forall|i: int| 0 <= i < p.len() ==> #[trigger] p[i] == defs[i]);
        if dp.contains(k) {
            let i = choose|i: int| 0 <= i < dp.len() && dp[i] == k;
            assert(d[i] == k);
            let j = choose|j: int| 0 <= j < p.len() && #[trigger] p[j].id@ == k;
            assert(defs[j].id@ == k);
        }
        if d.contains(k) {
            let i = choose|i: int| 0 <= i < d.len() && d[i] == k;
            if i < dp.len() {
                assert(dp[i] == k);
            } else {
                assert(tail[i - dp.len()] == k);
                assert(defs[defs.len() - 1].id@ == k);
            }
        }
        if disabled_in(m, k) && exists|j: int| 0 <= j < defs.len() && #[trigger] defs[j].id@ == k {
            let j = choose|j: int| 0 <= j < defs.len() && #[trigger] defs[j].id@ == k;
            if j < defs.len() - 1 {
                assert(p[j].id@ == k);
                let i = choose|i: int| 0 <= i < dp.len() && dp[i] == k;
                assert(d[i] == k);
            } else {
                assert(last == k);
                assert(d[d.len() - 1] == k);
            }
        }
    }
}

/// What the overlay writes is what it reads back: a config whose ids are those
/// the panel disables, marked on a fresh panel, disables exactly the same
/// defined storylines.
pub proof fn law_config_round_trip(defs: Seq<StorylineDefinition>, m: Map<Seq<char>, bool>, written: Seq<String>, j: int)
    requires
        texts(written) == disabled_ids(defs, m),
        0 <= j < defs.len(),
    ensures
        disabled_in(disable_all(Map::empty(), written), defs[j].id@) == disabled_in(m, defs[j].id@),
{
    law_applied_config_disables_listed(written, defs[j].id@);
    lemma_disabled_ids_contains(defs, m, defs[j].id@);
}

// ---------------------------------------------------------------------------
// The party tab
// ---------------------------------------------------------------------------

/// The labels over the character list: the location, gold and day, each where known.
pub open spec fn party_summary_texts(p: PartyDataView) -> Seq<Seq<char>> {
    (match p.location {
        Some(l) => seq!["Location: "@ + l],
        None => Seq::empty(),
    }) + (match p.gold {
        Some(g) => seq!["Gold: "@ + decimal(g as nat)],
        None => Seq::empty(),
    }) + (match p.day {
        Some(d) => seq!["Day "@ + decimal(d as nat)],
        None => Seq::empty(),
    })
}

/// The texts of a sequence of strings, element by element.
proof fn lemma_texts(v: Seq<String>)
    ensures
        texts(v).len() == v.len(),
        forall|i: int| 0 <= i < v.len() ==> #[trigger] texts(v)[i] == v[i]@,
    decreases v.len(),
{
    if v.len() > 0 {
        lemma_texts(v.drop_last());
        assert forall|i: int| 0 <= i < v.len() implies #[trigger] texts(v)[i] == v[i]@ by {
            if i < v.len() - 1 {
                assert(v.drop_last()[i] == v[i]);
            }
        }
    }
}

/// `label` followed by the decimal digits of `n`.
fn labeled_number(label: &str, n: u64) -> (r: String)
    ensures
        r@ == label@ + decimal(n as nat),
{
    let mut out = chars_of(label);
    push_decimal(&mut out, n);
    string_from_chars(out)
}

/// The labels shown over the character list of a party.
pub fn party_summary_labels(party: &PartyData) -> (r: Vec<String>)
    ensures
        texts(r@) == party_summary_texts(party@),
{
    let mut out: Vec<String> = Vec::new();
    if let Some(loc) = &party.location {
        let mut t = chars_of("Location: ");
        push_str(&mut t, loc.as_str());
        out.push(string_from_chars(t));
    }
    if let Some(gold) = party.gold {
        out.push(labeled_number("Gold: ", gold));
    }
    if let Some(day) = party.day {
        out.push(labeled_number("Day ", day as u64));
    }
    proof {
        lemma_texts(out@);
    }
    assert(texts(out@) =~= party_summary_texts(party@));
    out
}

/// The score labels of an expanded party member: all six when strength is
/// above 0, none otherwise.
pub open spec fn detail_stats(a: AbilityScores) -> Seq<Seq<char>> {
    if a.strength > 0 {
        seq![
            "STR "@ + decimal(a.strength as nat),
            "DEX "@ + decimal(a.dexterity as nat),
            "CON "@ + decimal(a.constitution as nat),
            "INT "@ + decimal(a.intelligence as nat),
            "WIS "@ + decimal(a.wisdom as nat),
            "CHA "@ + decimal(a.charisma as nat),
        ]
    } else {
        Seq::empty()
    }
}

/// The label of an equipped item: its slot as `Debug` writes it, then its name.
pub open spec fn equipment_label(e: EquipmentSlotView) -> Seq<char> {
    slot_debug(e.slot) + ": "@ + e.item_name
}

/// What the party view shows for an expanded party member.
pub struct CharacterDetails {
    /// `<race> - <class>`.
    pub summary: String,
    /// `HP: <current>/<max>`, when the hit points are known.
    pub hp_text: Option<String>,
    /// The score labels (see `detail_stats`).
    pub stats: Vec<String>,
    /// One label per equipped item.
    pub equipment: Vec<String>,
}

/// The text of the hit-point bar.
pub open spec fn hp_label(hp: Option<(u32, u32)>) -> Option<Seq<char>> {
    match hp {
        Some((cur, max)) => Some("HP: "@ + decimal(cur as nat) + "/"@ + decimal(max as nat)),
        None => None,
    }
}

/// The details shown for an expanded party member.
pub fn character_details(ch: &Character) -> (r: CharacterDetails)
    ensures
        r.summary@ == ch.race@ + " - "@ + ch.class@,
        opt_text(r.hp_text) == hp_label(ch.hp),
        texts(r.stats@) == detail_stats(ch.abilities),
        r.equipment@.len() == ch.equipment@.len(),
        forall|i: int| 0 <= i < ch.equipment@.len() ==> (#[trigger] r.equipment@[i])@ == equipment_label(ch.equipment@[i]@),
{
    let mut summary = chars_of(ch.race.as_str());
    push_str(&mut summary, " - ");
    push_str(&mut summary, ch.class.as_str());
    let hp_text = match ch.hp {
        Some((cur, max)) => {
            let mut t = chars_of("HP: ");
            push_decimal(&mut t, cur as u64);
            push_str(&mut t, "/");
            push_decimal(&mut t, max as u64);
            Some(string_from_chars(t))
        },
        None => None,
    };
    let a = &ch.abilities;
    let mut stats: Vec<String> = Vec::new();
    if a.strength > 0 {
        stats.push(labeled_number("STR ", a.strength as u64));
        stats.push(labeled_number("DEX ", a.dexterity as u64));
        stats.push(labeled_number("CON ", a.constitution as u64));
        stats.push(labeled_number("INT ", a.intelligence as u64));
        stats.push(labeled_number("WIS ", a.wisdom as u64));
        stats.push(labeled_number("CHA ", a.charisma as u64));
    }
    proof {
        lemma_texts(stats@);
    }
    assert(texts(stats@) =~= detail_stats(ch.abilities));
    let mut equipment: Vec<String> = Vec::new();
    let mut i: usize = 0;
    while i < ch.equipment.len()
        invariant
            i <= ch.equipment.len(),
            equipment@.len() == i,
            forall|k: int| 0 <= k < i ==> (#[trigger] equipment@[k])@ == equipment_label(ch.equipment@[k]@),
        decreases ch.equipment.len() - i,
    {
        let mut t: Vec<char> = Vec::new();
        push_slot_debug(&mut t, &ch.equipment[i].slot);
        push_str(&mut t, ": ");
        push_str(&mut t, ch.equipment[i].item_name.as_str());
        assert(t@ =~= equipment_label(ch.equipment@[i as int]@));
        equipment.push(string_from_chars(t));
        i = i + 1;
    }
    CharacterDetails { summary: string_from_chars(summary), hp_text, stats, equipment }
}

/// The flags with the one at `i` flipped; unchanged when there is none at `i`.
pub open spec fn toggled(flags: Seq<bool>, i: int) -> Seq<bool> {
    if 0 <= i < flags.len() {
        flags.update(i, !flags[i])
    } else {
        flags
    }
}

/// Expanding a party member and clicking it again collapses it: toggling the
/// same flag twice restores the flags.
pub proof fn law_toggle_twice_restores(flags: Seq<bool>, i: int)
    ensures
        toggled(toggled(flags, i), i) == flags,
{
    assert(toggled(toggled(flags, i), i) =~= flags);
}

/// State of the party tab: the loaded save and party, the load error, which
/// characters are expanded, and when the save was last loaded.
pub struct PartyView {
    pub party: Option<PartyData>,
    pub save_path: Option<String>,
    pub save_info: Option<SaveInfo>,
    pub error: Option<String>,
    /// One flag per character of the loaded party.
    pub expanded_chars: Vec<bool>,
    /// When the save was last loaded, in nanoseconds of a monotonic clock.
    pub last_load: Option<u64>,
}

impl PartyView {
    /// Nothing loaded yet.
    pub fn new() -> (r: Self)
        ensures
            r.party is None,
            r.save_path is None,
            r.save_info is None,
            r.error is None,
            r.expanded_chars@.len() == 0,
            r.last_load is None,
    {
        PartyView { party: None, save_path: None, save_info: None, error: None, expanded_chars: Vec::new(), last_load: None }
    }

    /// The save to load first: the most recent of `saves` (see
    /// `most_recent_save`); without saves, nothing, and the error
    /// `No save files found`.
    pub fn pick_initial_save(&mut self, saves: &Vec<SaveInfo>) -> (r: Option<String>)
        ensures
            saves@.len() == 0 ==> r is None && opt_text(final(self).error) == Some("No save files found"@),
            saves@.len() > 0 ==> final(self).error == old(self).error && exists|i: int|
                #[trigger] is_most_recent(saves@, i) && (r matches Some(p) && p@ == saves@[i].path@),
            final(self).party == old(self).party,
            final(self).save_path == old(self).save_path,
            final(self).save_info == old(self).save_info,
            final(self).expanded_chars == old(self).expanded_chars,
            final(self).last_load == old(self).last_load,
    {
        match most_recent_save(saves) {
            Some(i) => Some(saves[i].path.clone()),
            None => {
                proof {
                    reveal_strlit("No save files found");
                }
                self.error = Some(owned("No save files found"));
                None
            },
        }
    }

    /// The state after loading the save at `path` at time `now`: its summary
    /// when it could be read; its party (all characters collapsed, error
    /// cleared) or the load error's message (keeping the previous party).
    pub fn load_save(&mut self, path: String, summary: Result<SaveInfo, String>, party: Result<PartyData, SaveError>, now: u64)
        ensures
            final(self).save_path == Some(path),
            final(self).last_load == Some(now),
            final(self).save_info == match summary {
                Ok(i) => Some(i),
                Err(_) => None::<SaveInfo>,
            },
            match party {
                Ok(p) => {
                    &&& final(self).party == Some(p)
                    &&& final(self).error is None
                    &&& final(self).expanded_chars@.len() == p.characters@.len()
                    &&& forall|i: int| 0 <= i < p.characters@.len() ==> !#[trigger] final(self).expanded_chars@[i]
                },
                Err(e) => {
                    &&& final(self).party == old(self).party
                    &&& final(self).expanded_chars == old(self).expanded_chars
                    &&& final(self).error is Some
                    &&& (e matches SaveError::Package(m) ==> final(self).error.unwrap()@ == m@)
                    &&& (e matches SaveError::Other(m) ==> final(self).error.unwrap()@ == m@)
                    &&& (e matches SaveError::FileNotFound(n) ==> final(self).error.unwrap()@
                        == "File '"@ + n@ + "' not found in package"@)
                },
            },
    {
        self.save_info = match summary {
            Ok(i) => Some(i),
            Err(_) => None,
        };
        match party {
            Ok(data) => {
                let n = data.characters.len();
                let mut flags: Vec<bool> = Vec::new();
                let mut i: usize = 0;
                while i < n
                    invariant
                        i <= n,
                        flags@.len() == i,
                        forall|k: int| 0 <= k < i ==> !#[trigger] flags@[k],
                    decreases n - i,
                {
                    flags.push(false);
                    i = i + 1;
                }
                self.expanded_chars = flags;
                self.party = Some(data);
                self.error = None;
            },
            Err(e) => {
                self.error = Some(e.message());
            },
        }
        self.save_path = Some(path);
        self.last_load = Some(now);
    }

    /// Flips whether character `i` is expanded; indices without a flag are ignored.
    pub fn toggle_expanded(&mut self, i: usize)
        ensures
            final(self).expanded_chars@ == toggled(old(self).expanded_chars@, i as int),
            final(self).party == old(self).party,
            final(self).error == old(self).error,
            final(self).save_path == old(self).save_path,
            final(self).save_info == old(self).save_info,
            final(self).last_load == old(self).last_load,
    {
        if i < self.expanded_chars.len() {
            let v = self.expanded_chars[i];
            self.expanded_chars.set(i, !v);
        }
    }

    /// Whether character `i` is shown expanded (not when it has no flag).
    pub fn is_expanded(&self, i: usize) -> (r: bool)
        ensures
            r == (i < self.expanded_chars@.len() && self.expanded_chars@[i as int]),
    {
        if i < self.expanded_chars.len() {
            self.expanded_chars[i]
        } else {
            false
        }
    }

    /// Whether a change reported by the watcher at time `now` calls for
    /// reloading the save: only with a save loaded, and not within two seconds
    /// of the last load.
    pub fn reload_wanted(&self, change_seen: bool, now: u64) -> (r: bool)
        ensures
            r == (self.save_path is Some && reload_due(change_seen, match self.last_load {
                Some(t) => Some(if now >= t { (now - t) as u64 } else { 0u64 }),
                None => None,
            })),
    {
        let since = match self.last_load {
            Some(t) => Some(now.saturating_sub(t)),
            None => None,
        };
        self.save_path.is_some() && should_reload(change_seen, since)
    }
}

// ---------------------------------------------------------------------------
// The overlay window
// ---------------------------------------------------------------------------

/// The tabs of the overlay window.
#[derive(Debug, Clone, Copy, PartialEq, Eq, Structural)]
pub enum Tab {
    Party,
    Storylines,
}

/// What the user did in the window's frame.
#[derive(Debug, Clone, Copy, PartialEq, Eq, Structural)]
pub enum WindowEvent {
    /// `Hide` was clicked.
    Hide,
    /// The small indicator shown while hidden was clicked.
    Show,
    /// `X` was clicked.
    Exit,
    /// `Saves` was clicked.
    ToggleSavePicker,
    /// A save was chosen in the picker.
    SaveChosen,
    /// A tab was chosen.
    SelectTab(Tab),
}

/// The window's own state: whether it is shown, whether the program should
/// end, the open tab and whether the save picker is open.
#[derive(Debug, Clone, Copy, PartialEq, Eq, Structural)]
pub struct WindowState {
    pub visible: bool,
    pub should_exit: bool,
    pub active_tab: Tab,
    pub show_save_picker: bool,
}

/// The window state after an event.
pub open spec fn window_step(w: WindowState, e: WindowEvent) -> WindowState {
    match e {
        WindowEvent::Hide => WindowState { visible: false, ..w },
        WindowEvent::Show => WindowState { visible: true, ..w },
        WindowEvent::Exit => WindowState { should_exit: true, ..w },
        WindowEvent::ToggleSavePicker => WindowState { show_save_picker: !w.show_save_picker, ..w },
        WindowEvent::SaveChosen => WindowState { show_save_picker: false, ..w },
        WindowEvent::SelectTab(t) => WindowState { active_tab: t, ..w },
    }
}

impl WindowState {
    /// The window as it opens: shown, on the party tab, picker closed.
    pub fn new() -> (r: Self)
        ensures
            r.visible && !r.should_exit && r.active_tab == Tab::Party && !r.show_save_picker,
    {
        WindowState { visible: true, should_exit: false, active_tab: Tab::Party, show_save_picker: false }
    }

    /// Applies one event of the frame.
    pub fn step(&mut self, e: WindowEvent)
        ensures
            *final(self) == window_step(*old(self), e),
    {
        match e {
            WindowEvent::Hide => self.visible = false,
            WindowEvent::Show => self.visible = true,
            WindowEvent::Exit => self.should_exit = true,
            WindowEvent::ToggleSavePicker => self.show_save_picker = !self.show_save_picker,
            WindowEvent::SaveChosen => self.show_save_picker = false,
            WindowEvent::SelectTab(t) => self.active_tab = t,
        }
    }
}

/// Once asked to end, the program stays asked: no event clears it.
pub proof fn law_exit_is_final(w: WindowState, e: WindowEvent)
    requires
        w.should_exit,
    ensures
        window_step(w, e).should_exit,
{
}

} // verus!
