//! Save discovery and summaries: where saves live, what a save's summary says
//! (from its `SaveInfo.json`, or from its directory name when that cannot be
//! read), and the party listed in `SaveInfo.json`.
use vstd::prelude::*;
use vstd::string::StringExecFns;
use vstd::utf8::{decode_utf8, valid_utf8};
use crate::error::utf8_error_text;
use crate::json::{
    array_in, deref_json, get_in, json_array, json_document, json_get, json_get_in, json_str,
    json_u64, parse_json, str_in, u64_in, JsonValue,
};
use crate::models::{
    characters_view, AbilityScores, Character, CharacterView, PartyData, PartyDataView, SaveInfo,
    SaveInfoView,
};
use crate::text::{
    lemma_join_keeps_plain, verbatim_like, before_first, chars_of, contains, contains_str, decimal, join_path, joined, last_split_item,
    owned, prefix_before, push_decimal, push_str, split_last, string_from_chars, str_eq,
    to_lower, lowercase, utf8_text, find_from,
};

verus! {

// ---------------------------------------------------------------------------
// Where saves live
// ---------------------------------------------------------------------------

/// The components below the local application-data directory that lead to the
/// story saves.
pub open spec fn save_dir_components() -> Seq<Seq<char>> {
    seq!["Larian Studios"@, "Baldur's Gate 3"@, "PlayerProfiles"@, "Public"@, "Savegames"@, "Story"@]
}

/// `r` is `base` with each of `names` joined on in turn.
pub open spec fn joined_all(base: Seq<char>, names: Seq<Seq<char>>, r: Seq<char>) -> bool
    decreases names.len(),
{
    if names.len() == 0 {
        r == base
    } else {
        exists|mid: Seq<char>| #[trigger] joined(base, names[0], mid) && joined_all(mid, names.drop_first(), r)
    }
}

/// The local application-data directory: `LOCALAPPDATA` when set, else
/// `AppData\Local` under `USERPROFILE`, else under `C:\Users\Default`.
pub open spec fn local_app_data_dir(local_app_data: Option<Seq<char>>, user_profile: Option<Seq<char>>) -> Seq<char> {
    match local_app_data {
        Some(l) => l,
        None => match user_profile {
            Some(h) => h + "\\AppData\\Local"@,
            None => "C:\\Users\\Default"@ + "\\AppData\\Local"@,
        },
    }
}

/// Appends `name` to `base` with `join_path`, extending a `joined_all` chain.
fn join_step(base: String, name: &str, Ghost(start): Ghost<Seq<char>>, Ghost(done): Ghost<Seq<Seq<char>>>) -> (r: String)
    requires
        crate::text::plain_component(name@),
        !verbatim_like(start) ==> joined_all(start, done, base@) && !verbatim_like(base@),
    ensures
        !verbatim_like(start) ==> joined_all(start, done.push(name@), r@) && !verbatim_like(r@),
{
    let r = join_path(base.as_str(), name);
    proof {
        if !verbatim_like(start) {
            lemma_joined_all_push(start, done, base@, name@, r@);
            lemma_join_keeps_plain(base@, name@, r@);
        }
    }
    r
}

/// Extending a chain of joins by one more join.
proof fn lemma_joined_all_push(start: Seq<char>, done: Seq<Seq<char>>, mid: Seq<char>, name: Seq<char>, r: Seq<char>)
    requires
        joined_all(start, done, mid),
        joined(mid, name, r),
    ensures
        joined_all(start, done.push(name), r),
    decreases done.len(),
{
    let pushed = done.push(name);
    if done.len() == 0 {
        assert(pushed.drop_first() =~= Seq::<Seq<char>>::empty());
        assert(pushed[0] == name);
        assert(joined(start, pushed[0], r) && joined_all(r, pushed.drop_first(), r));
    } else {
        let m = choose|m: Seq<char>| #[trigger] joined(start, done[0], m) && joined_all(m, done.drop_first(), mid);
        lemma_joined_all_push(m, done.drop_first(), mid, name, r);
        assert(done.drop_first().push(name) =~= pushed.drop_first());
        assert(pushed[0] == done[0]);
        assert(joined(start, pushed[0], m) && joined_all(m, pushed.drop_first(), r));
    }
}

/// The story-save directory under the given environment values
/// (`LOCALAPPDATA`, `USERPROFILE`); of a directory that may be a verbatim path
/// nothing is stated.
pub fn default_save_path(local_app_data: Option<String>, user_profile: Option<String>) -> (r: String)
    ensures
        !verbatim_like(local_app_data_dir(opt_text(local_app_data), opt_text(user_profile)))
            ==> joined_all(local_app_data_dir(opt_text(local_app_data), opt_text(user_profile)), save_dir_components(), r@),
{
    let base = match local_app_data {
        Some(l) => l,
        None => {
            let home = match user_profile {
                Some(h) => h,
                None => owned("C:\\Users\\Default"),
            };
            let mut v = chars_of(home.as_str());
            push_str(&mut v, "\\AppData\\Local");
            string_from_chars(v)
        },
    };
    let ghost start = base@;
    assert(joined_all(start, Seq::<Seq<char>>::empty(), base@));
    let ghost comps = save_dir_components();
    assert(comps.take(0) =~= Seq::<Seq<char>>::empty());
    proof {
        reveal_strlit("Larian Studios");
    }
    let p = join_step(base, "Larian Studios", Ghost(start), Ghost(comps.take(0)));
    assert(comps.take(0).push("Larian Studios"@) =~= comps.take(1));
    proof {
        reveal_strlit("Baldur's Gate 3");
    }
    let p = join_step(p, "Baldur's Gate 3", Ghost(start), Ghost(comps.take(1)));
    assert(comps.take(1).push("Baldur's Gate 3"@) =~= comps.take(2));
    proof {
        reveal_strlit("PlayerProfiles");
    }
    let p = join_step(p, "PlayerProfiles", Ghost(start), Ghost(comps.take(2)));
    assert(comps.take(2).push("PlayerProfiles"@) =~= comps.take(3));
    proof {
        reveal_strlit("Public");
    }
    let p = join_step(p, "Public", Ghost(start), Ghost(comps.take(3)));
    assert(comps.take(3).push("Public"@) =~= comps.take(4));
    proof {
        reveal_strlit("Savegames");
    }
    let p = join_step(p, "Savegames", Ghost(start), Ghost(comps.take(4)));
    assert(comps.take(4).push("Savegames"@) =~= comps.take(5));
    proof {
        reveal_strlit("Story");
    }
    let p = join_step(p, "Story", Ghost(start), Ghost(comps.take(5)));
    assert(comps.take(5).push("Story"@) =~= comps);
    p
}

/// The view of an optional string.
pub open spec fn opt_text(o: Option<String>) -> Option<Seq<char>> {
    match o {
        Some(s) => Some(s@),
        None => None,
    }
}

// ---------------------------------------------------------------------------
// The summary in SaveInfo.json
// ---------------------------------------------------------------------------

/// The text in `o`, or `d`.
pub open spec fn text_or(o: Option<Seq<char>>, d: Seq<char>) -> Seq<char> {
    match o {
        Some(s) => s,
        None => d,
    }
}

/// The player character's origin is `Generic` or `DarkUrge`.
pub open spec fn is_player_origin(origin: Seq<char>) -> bool {
    origin == "Generic"@ || origin == "DarkUrge"@
}

/// The member `key` of `c` as text, or `d`.
pub open spec fn member_text(c: JsonValue, key: Seq<char>, d: Seq<char>) -> Seq<char> {
    text_or(json_str(json_get(c, key)), d)
}

/// The entries of `/Active Party/Characters`, when that is an array.
pub open spec fn party_entries(doc: JsonValue) -> Option<Seq<JsonValue>> {
    json_array(json_get_in(json_get(doc, "Active Party"@), "Characters"@))
}

/// The first entry whose origin marks the player character.
pub open spec fn first_player(chars: Seq<JsonValue>) -> Option<JsonValue>
    decreases chars.len(),
{
    if chars.len() == 0 {
        None
    } else if is_player_origin(member_text(chars[0], "Origin"@, Seq::empty())) {
        Some(chars[0])
    } else {
        first_player(chars.drop_first())
    }
}

/// The entry the summary describes: the player character, else the first entry.
pub open spec fn summary_entry(chars: Seq<JsonValue>) -> Option<JsonValue> {
    match first_player(chars) {
        Some(c) => Some(c),
        None => if chars.len() > 0 {
            Some(chars[0])
        } else {
            None
        },
    }
}

/// The `Main` class of the first entry of `Classes`, as text.
pub open spec fn first_main_class(c: JsonValue) -> Option<Seq<char>> {
    match json_array(json_get(c, "Classes"@)) {
        Some(classes) => if classes.len() > 0 {
            json_str(json_get(classes[0], "Main"@))
        } else {
            None
        },
        None => None,
    }
}

/// How an entry is summarised: `<origin> Lvl<level> <race> <class>` for the
/// player character, `<origin> Lvl<level> <class>` for others.
pub open spec fn entry_summary(c: JsonValue) -> Seq<char> {
    let origin = member_text(c, "Origin"@, "Unknown"@);
    let race = member_text(c, "Race"@, "Unknown"@);
    let level = match json_u64(json_get(c, "Level"@)) {
        Some(v) => v,
        None => 0,
    };
    let class = text_or(first_main_class(c), "Unknown"@);
    if is_player_origin(origin) {
        origin + " Lvl"@ + decimal(level as nat) + " "@ + race + " "@ + class
    } else {
        origin + " Lvl"@ + decimal(level as nat) + " "@ + class
    }
}

/// The character name and save name a `SaveInfo.json` document gives.
pub open spec fn save_names_of(doc: JsonValue) -> (Seq<char>, Seq<char>) {
    let save_name = member_text(doc, "Save Name"@, "(unknown)"@);
    let character_name = match party_entries(doc) {
        Some(chars) => match summary_entry(chars) {
            Some(pc) => entry_summary(pc),
            None => "(no characters)"@,
        },
        None => "(no party data)"@,
    };
    (character_name, save_name)
}

/// The text of `Main`, with ` (<Sub>)` appended when `Sub` is non-empty text;
/// nothing when `Main` is not text.
pub open spec fn class_part(cls: JsonValue) -> Option<Seq<char>> {
    match json_str(json_get(cls, "Main"@)) {
        Some(main) => {
            let sub = member_text(cls, "Sub"@, Seq::empty());
            if sub.len() == 0 {
                Some(main)
            } else {
                Some(main + " ("@ + sub + ")"@)
            }
        },
        None => None,
    }
}

/// The class parts of the entries of `Classes`, skipping those without one.
pub open spec fn class_parts(classes: Seq<JsonValue>) -> Seq<Seq<char>>
    decreases classes.len(),
{
    if classes.len() == 0 {
        Seq::empty()
    } else {
        class_parts(classes.drop_last()) + match class_part(classes.last()) {
            Some(p) => seq![p],
            None => Seq::empty(),
        }
    }
}

/// `parts` joined with `sep` between neighbours.
pub open spec fn join(parts: Seq<Seq<char>>, sep: Seq<char>) -> Seq<char>
    decreases parts.len(),
{
    if parts.len() == 0 {
        Seq::empty()
    } else if parts.len() == 1 {
        parts[0]
    } else {
        join(parts.drop_last(), sep) + sep + parts.last()
    }
}

/// All classes of an entry joined by ` / `, or `Unknown` without a `Classes` array.
pub open spec fn class_text(c: JsonValue) -> Seq<char> {
    match json_array(json_get(c, "Classes"@)) {
        Some(classes) => join(class_parts(classes), " / "@),
        None => "Unknown"@,
    }
}

/// The party member an entry of `SaveInfo.json` describes; the name is its origin.
pub open spec fn save_info_character(c: JsonValue) -> CharacterView {
    let origin = member_text(c, "Origin"@, "Unknown"@);
    CharacterView {
        name: origin,
        class: class_text(c),
        level: match json_u64(json_get(c, "Level"@)) {
            Some(v) => v as u32,
            None => 0u32,
        },
        race: member_text(c, "Race"@, "Unknown"@),
        abilities: AbilityScores::zero(),
        hp: None,
        equipment: Seq::empty(),
        is_player: is_player_origin(origin),
    }
}

/// The party members the entries describe, in order.
pub open spec fn save_info_characters(chars: Seq<JsonValue>) -> Seq<CharacterView>
    decreases chars.len(),
{
    if chars.len() == 0 {
        Seq::empty()
    } else {
        save_info_characters(chars.drop_last()).push(save_info_character(chars.last()))
    }
}

/// The party data a `SaveInfo.json` document gives.
pub open spec fn save_info_party(doc: JsonValue) -> PartyDataView {
    PartyDataView {
        characters: match party_entries(doc) {
            Some(chars) => save_info_characters(chars),
            None => Seq::empty(),
        },
        gold: None,
        day: None,
        location: json_str(json_get(doc, "Current Level"@)),
    }
}

/// The text of a member, or `default`.
fn member_or(c: &JsonValue, key: &str, default: &str) -> (r: String)
    ensures
        r@ == member_text(*c, key@, default@),
{
    match c.get(key) {
        Some(v) => match v.as_str() {
            Some(s) => s.clone(),
            None => owned(default),
        },
        None => owned(default),
    }
}

fn is_player_origin_text(origin: &str) -> (r: bool)
    ensures
        r == is_player_origin(origin@),
{
    str_eq(origin, "Generic") || str_eq(origin, "DarkUrge")
}

fn summary_of_entry(pc: &JsonValue) -> (r: String)
    ensures
        r@ == entry_summary(*pc),
{
    let origin = member_or(pc, "Origin", "Unknown");
    let race = member_or(pc, "Race", "Unknown");
    let level = match u64_in(pc.get("Level")) {
        Some(v) => v,
        None => 0,
    };
    let classes = array_in(pc.get("Classes"));
    let main = match classes {
        Some(a) => if a.len() > 0 {
            str_in(a[0].get("Main"))
        } else {
            None
        },
        None => None,
    };
    let class = match main {
        Some(m) => m.clone(),
        None => owned("Unknown"),
    };
    let mut out = chars_of(origin.as_str());
    push_str(&mut out, " Lvl");
    push_decimal(&mut out, level);
    push_str(&mut out, " ");
    if is_player_origin_text(origin.as_str()) {
        push_str(&mut out, race.as_str());
        push_str(&mut out, " ");
    }
    push_str(&mut out, class.as_str());
    string_from_chars(out)
}

/// The character name and save name from a `SaveInfo.json` document.
pub fn save_names_from_doc(doc: &JsonValue) -> (r: (String, String))
    ensures
        r.0@ == save_names_of(*doc).0,
        r.1@ == save_names_of(*doc).1,
{
    let save_name = member_or(doc, "Save Name", "(unknown)");
    let chars = array_in(get_in(doc.get("Active Party"), "Characters"));
    let character_name = match chars {
        Some(cs) => {
            let mut found: Option<usize> = None;
            let mut i: usize = 0;
            assert(cs@.skip(0) =~= cs@);
            while i < cs.len()
                invariant_except_break
                    i <= cs.len(),
                    found is None,
                    first_player(cs@) == first_player(cs@.skip(i as int)),
                ensures
                    found matches Some(k) ==> k < cs.len() && first_player(cs@) == Some(cs@[k as int]),
                    found is None ==> first_player(cs@) is None,
                decreases cs.len() - i,
            {
                assert(cs@.skip(i as int).drop_first() =~= cs@.skip(i + 1));
                assert(cs@.skip(i as int)[0] == cs@[i as int]);
                proof {
                    reveal_strlit("");
                    assert(""@ =~= Seq::<char>::empty());
                }
                let origin = member_or(&cs[i], "Origin", "");
                if is_player_origin_text(origin.as_str()) {
                    found = Some(i);
                    break;
                }
                i = i + 1;
            }
            let pick = match found {
                Some(k) => Some(k),
                None => if cs.len() > 0 {
                    Some(0)
                } else {
                    None
                },
            };
            match pick {
                Some(k) => summary_of_entry(&cs[k]),
                None => owned("(no characters)"),
            }
        },
        None => owned("(no party data)"),
    };
    (character_name, save_name)
}

/// The class part of a `Classes` entry.
fn class_part_of(cls: &JsonValue) -> (r: Option<String>)
    ensures
        opt_text(r) == class_part(*cls),
{
    let main = match str_in(cls.get("Main")) {
        Some(m) => m,
        None => {
            return None;
        },
    };
    proof {
        reveal_strlit("");
        assert(""@ =~= Seq::<char>::empty());
    }
    let sub = member_or(cls, "Sub", "");
    if sub.as_str().is_empty() {
        Some(main.clone())
    } else {
        let mut out = chars_of(main.as_str());
        push_str(&mut out, " (");
        push_str(&mut out, sub.as_str());
        push_str(&mut out, ")");
        Some(string_from_chars(out))
    }
}

/// The classes of an entry joined by ` / `.
fn class_text_of(c: &JsonValue) -> (r: String)
    ensures
        r@ == class_text(*c),
{
    match array_in(c.get("Classes")) {
        Some(classes) => {
            let mut out: Vec<char> = Vec::new();
            let mut count: usize = 0;
            let mut i: usize = 0;
            while i < classes.len()
                invariant
                    i <= classes.len(),
                    count == class_parts(classes@.subrange(0, i as int)).len(),
                    count <= i,
                    out@ == join(class_parts(classes@.subrange(0, i as int)), " / "@),
                decreases classes.len() - i,
            {
                let ghost prev = class_parts(classes@.subrange(0, i as int));
                assert(classes@.subrange(0, i + 1).drop_last() =~= classes@.subrange(0, i as int));
                match class_part_of(&classes[i]) {
                    Some(part) => {
                        if count > 0 {
                            push_str(&mut out, " / ");
                        }
                        push_str(&mut out, part.as_str());
                        let ghost now = prev.push(part@);
                        assert(now.drop_last() =~= prev);
                        assert(class_parts(classes@.subrange(0, i + 1)) =~= now);
                        if count == 0 {
                            assert(out@ =~= join(now, " / "@));
                        }
                        count = count + 1;
                    },
                    None => {
                        assert(class_parts(classes@.subrange(0, i + 1)) =~= prev);
                    },
                }
                i = i + 1;
            }
            assert(classes@.subrange(0, classes@.len() as int) =~= classes@);
            string_from_chars(out)
        },
        None => owned("Unknown"),
    }
}

/// The party member an entry of `SaveInfo.json` describes.
fn character_from_entry(c: &JsonValue) -> (r: Character)
    ensures
        r@ == save_info_character(*c),
{
    let origin = member_or(c, "Origin", "Unknown");
    let race = member_or(c, "Race", "Unknown");
    let level: u32 = match u64_in(c.get("Level")) {
        Some(v) => v as u32,
        None => 0,
    };
    let class = class_text_of(c);
    let is_player = is_player_origin_text(origin.as_str());
    let name = origin.clone();
    let equipment: Vec<crate::models::EquipmentSlot> = Vec::new();
    let r = Character {
        name,
        class,
        level,
        race,
        abilities: AbilityScores::default(),
        hp: None,
        equipment,
        is_player,
    };
    assert(crate::models::equipment_view(r.equipment@) =~= Seq::empty());
    r
}

/// The party listed in a `SaveInfo.json` document: one character per entry of
/// `/Active Party/Characters` (named by its origin, with all its classes), and
/// the location from `Current Level`; no gold, day, ability scores, hit points
/// or equipment.
pub fn party_from_save_info(doc: &JsonValue) -> (r: PartyData)
    ensures
        r@ == save_info_party(*doc),
{
    let mut characters: Vec<Character> = Vec::new();
    assert(characters_view(characters@) =~= Seq::empty());
    match array_in(get_in(doc.get("Active Party"), "Characters")) {
        Some(chars) => {
            let mut i: usize = 0;
            while i < chars.len()
                invariant
                    i <= chars.len(),
                    characters_view(characters@) == save_info_characters(chars@.subrange(0, i as int)),
                decreases chars.len() - i,
            {
                assert(chars@.subrange(0, i + 1).drop_last() =~= chars@.subrange(0, i as int));
                let c = character_from_entry(&chars[i]);
                let ghost before = characters@;
                characters.push(c);
                assert(characters_view(characters@) =~= characters_view(before).push(c@));
                i = i + 1;
            }
            assert(chars@.subrange(0, chars@.len() as int) =~= chars@);
        },
        None => {},
    }
    let location = match str_in(doc.get("Current Level")) {
        Some(s) => Some(s.clone()),
        None => None,
    };
    PartyData { characters, gold: None, day: None, location }
}

/// Parse SaveInfo.json and return structured party data; the error is the
/// JSON reader's message when the text is not JSON.
pub fn parse_save_info_json(json_text: &str) -> (r: Result<PartyData, String>)
    ensures
        match json_document(json_text@) {
            Ok(doc) => r matches Ok(p) && p@ == save_info_party(doc),
            Err(m) => r matches Err(e) && e@ == m,
        },
{
    let doc = parse_json(json_text)?;
    Ok(party_from_save_info(&doc))
}

// ---------------------------------------------------------------------------
// Summaries of save files
// ---------------------------------------------------------------------------

/// A hexadecimal digit (either case).
pub open spec fn is_hex_char(c: char) -> bool {
    ('0' <= c && c <= '9') || ('a' <= c && c <= 'f') || ('A' <= c && c <= 'F')
}

/// A UUID in its hyphenated text form: 8-4-4-4-12 hexadecimal digits.
pub open spec fn is_uuid_text(s: Seq<char>) -> bool {
    &&& s.len() == 36
    &&& forall|i: int| 0 <= i < 36 ==> if i == 8 || i == 13 || i == 18 || i == 23 {
        s[i] == '-'
    } else {
        is_hex_char(#[trigger] s[i])
    }
}

/// The character name a save directory's name gives: the text before the
/// first `-` of the text before the first `__`; `(unknown)` when that is empty
/// or when the text before `__` is a UUID (Honour Mode directories carry no name).
pub open spec fn name_from_dir(dir_name: Seq<char>) -> Seq<char> {
    let prefix = before_first(dir_name, "__"@);
    let name = before_first(prefix, "-"@);
    if name.len() > 0 && !is_uuid_text(prefix) {
        name
    } else {
        "(unknown)"@
    }
}

fn is_hex(c: char) -> (r: bool)
    ensures
        r == is_hex_char(c),
{
    ('0' <= c && c <= '9') || ('a' <= c && c <= 'f') || ('A' <= c && c <= 'F')
}

/// Whether `s` is a UUID in its hyphenated text form.
fn is_uuid(s: &str) -> (r: bool)
    ensures
        r == is_uuid_text(s@),
{
    let cs = chars_of(s);
    if cs.len() != 36 {
        return false;
    }
    let mut i: usize = 0;
    while i < 36
        invariant
            i <= 36,
            cs@ == s@,
            cs.len() == 36,
            forall|k: int| 0 <= k < i ==> if k == 8 || k == 13 || k == 18 || k == 23 {
                cs@[k] == '-'
            } else {
                is_hex_char(#[trigger] cs@[k])
            },
        decreases 36 - i,
    {
        let ok = if i == 8 || i == 13 || i == 18 || i == 23 {
            cs[i] == '-'
        } else {
            is_hex(cs[i])
        };
        if !ok {
            assert(!is_uuid_text(s@)) by {
                assert(0 <= i < 36);
                if i == 8 || i == 13 || i == 18 || i == 23 {
                    assert(s@[i as int] != '-');
                } else {
                    assert(!is_hex_char(s@[i as int]));
                }
            }
            return false;
        }
        i = i + 1;
    }
    true
}

/// Extract character name from the directory name pattern "Name-numbers__SaveName".
pub fn extract_name_from_dir(dir_name: &str) -> (r: String)
    ensures
        r@ == name_from_dir(dir_name@),
{
    let prefix = prefix_before(dir_name, "__");
    let name = prefix_before(prefix.as_str(), "-");
    if !name.as_str().is_empty() && !is_uuid(prefix.as_str()) {
        name
    } else {
        owned("(unknown)")
    }
}

/// The code of a character with ASCII letters in lower case (what
/// `to_ascii_lowercase` maps it to).
pub open spec fn ascii_lower(c: char) -> u32 {
    if 'A' <= c && c <= 'Z' {
        (c as u32 + 32) as u32
    } else {
        c as u32
    }
}

/// Two texts are equal ignoring ASCII case (what `eq_ignore_ascii_case` decides).
pub open spec fn eq_ignoring_ascii_case(a: Seq<char>, b: Seq<char>) -> bool {
    a.len() == b.len() && forall|i: int| 0 <= i < a.len() ==> ascii_lower(#[trigger] a[i]) == ascii_lower(b[i])
}

fn ascii_lower_code(c: char) -> (r: u32)
    ensures
        r == ascii_lower(c),
{
    if 'A' <= c && c <= 'Z' {
        (c as u32) + 32
    } else {
        c as u32
    }
}

/// Whether a file's extension marks a save: `lsv`, ignoring ASCII case.
pub fn is_save_extension(ext: Option<&str>) -> (r: bool)
    ensures
        r == match ext {
            Some(e) => eq_ignoring_ascii_case(e@, "lsv"@),
            None => false,
        },
{
    let e = match ext {
        Some(e) => chars_of(e),
        None => {
            return false;
        },
    };
    let want = chars_of("lsv");
    proof {
        reveal_strlit("lsv");
    }
    if e.len() != want.len() {
        return false;
    }
    let mut i: usize = 0;
    while i < e.len()
        invariant
            i <= e.len(),
            e.len() == want.len(),
            want@ == "lsv"@,
            ext matches Some(x) && e@ == x@,
            forall|k: int| 0 <= k < i ==> ascii_lower(#[trigger] e@[k]) == ascii_lower(want@[k]),
        decreases e.len() - i,
    {
        if ascii_lower_code(e[i]) != ascii_lower_code(want[i]) {
            assert(ascii_lower(e@[i as int]) != ascii_lower(want@[i as int]));
            return false;
        }
        i = i + 1;
    }
    true
}

/// A separator on some platform (`/` everywhere, `\\` on Windows).
pub open spec fn is_separator(c: char) -> bool {
    c == '/' || c == '\\'
}

/// `path` plainly ends in a file named `<stem>.<e>`: `e` is not empty and holds no `.`,
/// separator or `:`, the character before the `.` is no separator or `:`
/// (so the stem is not empty), and the path does not start with two separators
/// (a network or device prefix on Windows). On every platform such a path's
/// last component is `<stem>.<e>`, and its extension is `e`.
pub open spec fn names_file_with_ext(path: Seq<char>, e: Seq<char>) -> bool {
    let n = path.len() as int;
    let m = n - e.len() - 1;
    &&& e.len() > 0
    &&& e.len() + 2 <= n
    &&& path[m] == '.'
    &&& path.subrange(m + 1, n) == e
    &&& forall|i: int| 0 <= i < e.len() ==> e[i] != '.' && !is_separator(e[i]) && e[i] != ':'
    &&& !is_separator(path[m - 1]) && path[m - 1] != ':'
    &&& !(is_separator(path[0]) && is_separator(path[1]))
}

/// The extension of a path that plainly ends in a file named `<stem>.<e>`: that `e`
/// (there is only one, the text after the last `.`); none for other paths.
pub open spec fn plain_extension(path: Seq<char>) -> Option<Seq<char>> {
    if exists|e: Seq<char>| #[trigger] names_file_with_ext(path, e) {
        Some(choose|e: Seq<char>| #[trigger] names_file_with_ext(path, e))
    } else {
        None
    }
}

/// A path that plainly ends in `<stem>.<e>` has that `e` as its plain extension
/// (the `e` is the text after the path's last `.`, so there is only one).
pub proof fn lemma_plain_extension(path: Seq<char>, e: Seq<char>)
    requires
        names_file_with_ext(path, e),
    ensures
        plain_extension(path) == Some(e),
{
    let c = choose|e: Seq<char>| #[trigger] names_file_with_ext(path, e);
    let n = path.len() as int;
    if c.len() < e.len() {
        let mc = n - c.len() - 1;
        let me = n - e.len() - 1;
        assert(path.subrange(me + 1, n)[mc - me - 1] == path[mc]);
        assert(e[mc - me - 1] == '.');
    } else if e.len() < c.len() {
        let mc = n - c.len() - 1;
        let me = n - e.len() - 1;
        assert(path.subrange(mc + 1, n)[me - mc - 1] == path[me]);
        assert(c[me - mc - 1] == '.');
    }
    assert(c == e);
}

/// The extension of the last component of a path: std's `Path::extension`, as
/// text (the part of the file name after its last `.`, none for a name that
/// only begins with `.`). What separates components depends on the platform
/// (and trailing separators are skipped), so this is stated: an extension holds
/// no `.` and follows a `.` somewhere in the path; a path without a `.` has
/// none; a path that plainly ends in `<stem>.<e>` has the extension `e`.
#[verifier::external_body]
fn path_extension(path: &str) -> (r: Option<String>)
    ensures
        r matches Some(e) ==> contains(path@, "."@ + e@) && !contains(e@, "."@),
        !contains(path@, "."@) ==> r is None,
        plain_extension(path@) is Some ==> r is Some && r.unwrap()@ == plain_extension(path@).unwrap(),
{
    std::path::Path::new(path).extension().map(|e| e.to_string_lossy().into_owned())
}

/// Whether the file at `path` is a save: its extension is `lsv`, ignoring
/// ASCII case. A path that plainly ends in `<stem>.<ext>` is one exactly when
/// `ext` is `lsv` (so `a.LSV` is, `a.lsv.bak` is not); a path without `.` is not.
pub fn is_save_file(path: &str) -> (r: bool)
    ensures
        r ==> exists|e: Seq<char>| #[trigger] eq_ignoring_ascii_case(e, "lsv"@) && contains(path@, "."@ + e),
        plain_extension(path@) matches Some(e) ==> (r <==> eq_ignoring_ascii_case(e, "lsv"@)),
        !contains(path@, "."@) ==> !r,
{
    let ext = path_extension(path);
    match &ext {
        Some(e) => {
            let r = is_save_extension(Some(e.as_str()));
            assert(r ==> eq_ignoring_ascii_case(e@, "lsv"@));
            r
        },
        None => false,
    }
}

/// What was read from one save file for its summary.
pub struct SaveFileFacts {
    /// Location of the `.lsv` file.
    pub path: String,
    /// Name of the directory holding the file.
    pub dir_name: String,
    /// Modification time in nanoseconds since the Unix epoch (0 where unknown).
    pub timestamp: u128,
    /// The package: the error text when it could not be opened; otherwise its
    /// `SaveInfo.json` entry, if it has one, as bytes or as the error reading them.
    pub save_info: Result<Option<Result<Vec<u8>, String>>, String>,
}

/// The names `SaveInfo.json` gives, when the entry exists, reads, is UTF-8 and
/// is a JSON document.
pub open spec fn save_info_names(entry: Option<Result<Vec<u8>, String>>) -> Option<(Seq<char>, Seq<char>)> {
    match entry {
        Some(Ok(bytes)) => if valid_utf8(bytes@) {
            match json_document(decode_utf8(bytes@)) {
                Ok(doc) => Some(save_names_of(doc)),
                Err(_) => None,
            }
        } else {
            None
        },
        _ => None,
    }
}

/// The summary of a save file: its names from `SaveInfo.json`, or else the
/// character name from the directory name and the save name from the text after
/// its last `__`; honour mode when the directory name holds `HonourMode`.
/// A package that cannot be opened gives its error.
pub open spec fn save_summary(f: SaveFileFacts) -> Result<SaveInfoView, Seq<char>> {
    match f.save_info {
        Err(e) => Err(e@),
        Ok(entry) => {
            let names = match save_info_names(entry) {
                Some(n) => n,
                None => (name_from_dir(f.dir_name@), split_last(f.dir_name@, "__"@)),
            };
            Ok(SaveInfoView {
                path: f.path@,
                character_name: names.0,
                save_name: names.1,
                timestamp: f.timestamp,
                is_honour_mode: contains(f.dir_name@, "HonourMode"@),
            })
        },
    }
}

/// Extract character info from the SaveInfo.json entry of a save package.
/// Without the entry the error is `SaveInfo.json not found`; an entry that
/// could not be read, is not UTF-8 or is not JSON gives the text of that error.
fn extract_from_save_info(entry: Option<Result<Vec<u8>, String>>) -> (r: Result<(String, String), String>)
    ensures
        match save_info_names(entry) {
            Some(n) => r matches Ok(p) && p.0@ == n.0 && p.1@ == n.1,
            None => r is Err,
        },
        entry is None ==> (r matches Err(m) && m@ == "SaveInfo.json not found"@),
        entry matches Some(Err(e)) ==> (r matches Err(m) && m@ == e@),
        entry matches Some(Ok(b)) ==> (valid_utf8(b@) ==> (json_document(decode_utf8(b@)) matches Err(msg)
            ==> (r matches Err(m) && m@ == msg))),
{
    let data = match entry {
        Some(Ok(bytes)) => bytes,
        Some(Err(e)) => {
            return Err(e);
        },
        None => {
            proof {
                reveal_strlit("SaveInfo.json not found");
            }
            return Err(owned("SaveInfo.json not found"));
        },
    };
    let text = match utf8_text(data) {
        Ok(t) => t,
        Err(e) => {
            return Err(utf8_error_text(&e));
        },
    };
    let doc = parse_json(text.as_str())?;
    Ok(save_names_from_doc(&doc))
}

/// The view of a summary result.
pub open spec fn summary_view(r: Result<SaveInfo, String>) -> Result<SaveInfoView, Seq<char>> {
    match r {
        Ok(i) => Ok(i@),
        Err(e) => Err(e@),
    }
}

/// Finds `.lsv` saves below a root directory and summarises them.
pub struct SaveScanner {
    save_root: String,
}

impl SaveScanner {
    /// The directory searched for saves.
    pub closed spec fn root(&self) -> Seq<char> {
        self.save_root@
    }

    /// A scanner for the saves below `save_root`.
    pub fn new(save_root: String) -> (r: Self)
        ensures
            r.root() == save_root@,
    {
        Self { save_root }
    }

    /// A scanner for the standard story-save directory under the given
    /// environment values (`LOCALAPPDATA`, `USERPROFILE`).
    pub fn default(local_app_data: Option<String>, user_profile: Option<String>) -> (r: Self)
        ensures
            !verbatim_like(local_app_data_dir(opt_text(local_app_data), opt_text(user_profile)))
                ==> joined_all(local_app_data_dir(opt_text(local_app_data), opt_text(user_profile)), save_dir_components(), r.root()),
    {
        Self::new(default_save_path(local_app_data, user_profile))
    }

    /// The directory searched for saves.
    pub fn save_root(&self) -> (r: &str)
        ensures
            r@ == self.root(),
    {
        self.save_root.as_str()
    }

    /// The summary of one save file.
    pub fn scan_save(&self, file: SaveFileFacts) -> (r: Result<SaveInfo, String>)
        ensures
            summary_view(r) == save_summary(file),
    {
        let ghost f = file;
        let SaveFileFacts { path, dir_name, timestamp, save_info } = file;
        let entry = match save_info {
            Ok(e) => e,
            Err(e) => {
                return Err(e);
            },
        };
        let is_honour_mode = contains_str(dir_name.as_str(), "HonourMode");
        let (character_name, save_name) = match extract_from_save_info(entry) {
            Ok(names) => names,
            Err(_) => {
                let name = extract_name_from_dir(dir_name.as_str());
                let sname = last_split_item(dir_name.as_str(), "__");
                (name, sname)
            },
        };
        Ok(SaveInfo { path, character_name, save_name, timestamp, is_honour_mode })
    }

    /// The summaries of the given save files, in order.
    pub fn scan_all(&self, files: Vec<SaveFileFacts>) -> (r: Vec<Result<SaveInfo, String>>)
        ensures
            r@.len() == files@.len(),
            forall|i: int| 0 <= i < files@.len() ==> summary_view(#[trigger] r@[i]) == save_summary(files@[i]),
    {
        let ghost input = files@;
        let mut out: Vec<Result<SaveInfo, String>> = Vec::new();
        let mut rest = files;
        while rest.len() > 0
            invariant
                rest@ == input.skip(out@.len() as int),
                out@.len() <= input.len(),
                forall|i: int| 0 <= i < out@.len() ==> summary_view(#[trigger] out@[i]) == save_summary(input[i]),
            decreases rest.len(),
        {
            let ghost k = out@.len() as int;
            let f = rest.remove(0);
            assert(f == input[k]);
            let r = self.scan_save(f);
            out.push(r);
            assert(rest@ =~= input.skip(out@.len() as int));
        }
        out
    }
}

// ---------------------------------------------------------------------------
// Laws
// ---------------------------------------------------------------------------

/// The first player entry lies at the first index whose origin is `Generic`
/// or `DarkUrge`; without such an index there is none.
proof fn lemma_first_player(chars: Seq<JsonValue>, k: int)
    requires
        0 <= k <= chars.len(),
        forall|j: int| 0 <= j < k ==> !is_player_origin(#[trigger] member_text(chars[j], "Origin"@, Seq::empty())),
        k < chars.len() ==> is_player_origin(member_text(chars[k], "Origin"@, Seq::empty())),
    ensures
        k < chars.len() ==> first_player(chars) == Some(chars[k]),
        k == chars.len() ==> first_player(chars) is None,
    decreases k,
{
    if chars.len() > 0 && k > 0 {
        let rest = chars.drop_first();
        assert forall|j: int| 0 <= j < k - 1 implies !is_player_origin(#[trigger] member_text(rest[j], "Origin"@, Seq::empty())) by {
            assert(rest[j] == chars[j + 1]);
        }
        assert(!is_player_origin(member_text(chars[0], "Origin"@, Seq::empty())));
        if k < chars.len() {
            assert(rest[k - 1] == chars[k]);
        }
        lemma_first_player(rest, k - 1);
    }
}

/// The character name of a save is the summary of its player character: of
/// the first party entry whose origin is `Generic` or `DarkUrge`; and when no
/// entry has such an origin, of the first entry. Entries after the one chosen
/// have no say.
pub proof fn law_summary_names_player_or_first(doc: JsonValue, chars: Seq<JsonValue>, k: int)
    requires
        party_entries(doc) == Some(chars),
        0 <= k <= chars.len(),
        forall|j: int| 0 <= j < k ==> {
            let o = #[trigger] member_text(chars[j], "Origin"@, Seq::empty());
            o != "Generic"@ && o != "DarkUrge"@
        },
        k < chars.len() ==> ({
            let o = member_text(chars[k], "Origin"@, Seq::empty());
            o == "Generic"@ || o == "DarkUrge"@
        }),
    ensures
        k < chars.len() ==> save_names_of(doc).0 == entry_summary(chars[k]),
        k == chars.len() && chars.len() > 0 ==> save_names_of(doc).0 == entry_summary(chars[0]),
{
    lemma_first_player(chars, k);
}

/// The default scanner's root is the story-save directory joined below
/// `LOCALAPPDATA` when it is set; else below `AppData\Local` under
/// `USERPROFILE`; else below `C:\Users\Default\AppData\Local`.
pub proof fn law_default_root(local_app_data: Option<Seq<char>>, user_profile: Option<Seq<char>>, root: Seq<char>)
    requires
        joined_all(local_app_data_dir(local_app_data, user_profile), save_dir_components(), root),
    ensures
        local_app_data matches Some(l) ==> joined_all(l, save_dir_components(), root),
        local_app_data is None ==> (user_profile matches Some(h) ==> joined_all(h + "\\AppData\\Local"@,
            save_dir_components(), root)),
        (local_app_data is None && user_profile is None) ==> joined_all("C:\\Users\\Default\\AppData\\Local"@,
            save_dir_components(), root),
{
    reveal_strlit("C:\\Users\\Default");
    reveal_strlit("\\AppData\\Local");
    reveal_strlit("C:\\Users\\Default\\AppData\\Local");
    assert("C:\\Users\\Default"@ + "\\AppData\\Local"@ =~= "C:\\Users\\Default\\AppData\\Local"@);
}

/// A save's directory always yields a non-empty character name.
pub proof fn law_name_from_dir_not_empty(dir_name: Seq<char>)
    ensures
        name_from_dir(dir_name).len() > 0,
{
    reveal_strlit("(unknown)");
}

/// `SaveInfo.json` gives one party member per entry of `/Active Party/Characters`,
/// in order, each named by its origin.
pub proof fn law_one_character_per_entry(chars: Seq<JsonValue>)
    ensures
        save_info_characters(chars).len() == chars.len(),
        forall|i: int| 0 <= i < chars.len() ==> #[trigger] save_info_characters(chars)[i] == save_info_character(chars[i]),
    decreases chars.len(),
{
    if chars.len() > 0 {
        law_one_character_per_entry(chars.drop_last());
        assert forall|i: int| 0 <= i < chars.len() implies #[trigger] save_info_characters(chars)[i] == save_info_character(chars[i]) by {
            if i < chars.len() - 1 {
                assert(chars.drop_last()[i] == chars[i]);
            }
        }
    }
}

} // verus!
