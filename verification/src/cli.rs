//! The texts the save explorer prints: the scan table, party details, file
//! lists, tree dumps and extracted entries.
use vstd::prelude::*;
use vstd::utf8::{decode_utf8, valid_utf8};
use crate::export::slot_debug;
use crate::export::push_slot_debug;
use crate::lsf::{dump_roots, dump_tree, nodes_at, region_indices, Resource};
use crate::models::{characters_view, equipment_view, Character, CharacterView, EquipmentSlotView, PartyData, PartyDataView, SaveInfo, SaveInfoView};
use crate::text::{
    chars_of, decimal, hex2, push_decimal, push_hex2, push_repeat, push_str, repeat, string_from_chars, utf8_text,
};

verus! {

// ---------------------------------------------------------------------------
// Party details
// ---------------------------------------------------------------------------

/// The equipment lines of the party listing.
pub open spec fn listing_equipment(eqs: Seq<EquipmentSlotView>) -> Seq<char>
    decreases eqs.len(),
{
    if eqs.len() == 0 {
        Seq::empty()
    } else {
        listing_equipment(eqs.drop_last()) + "      "@ + slot_debug(eqs.last().slot) + ": "@ + eqs.last().item_name + "\n"@
    }
}

/// The summary line of a party member in the listing.
pub open spec fn listing_summary(c: CharacterView) -> Seq<char> {
    "  "@ + c.name + " - Lvl "@ + decimal(c.level as nat) + " "@ + c.race + " "@ + c.class + " "@
        + (if c.is_player { "(Player)"@ } else { Seq::empty() }) + "\n"@
}

/// The score line of the listing, when strength is above 0.
pub open spec fn listing_stats(c: CharacterView) -> Seq<char> {
    let a = c.abilities;
    if a.strength > 0 {
        "    STR:"@ + decimal(a.strength as nat) + " DEX:"@ + decimal(a.dexterity as nat) + " CON:"@
            + decimal(a.constitution as nat) + " INT:"@ + decimal(a.intelligence as nat) + " WIS:"@
            + decimal(a.wisdom as nat) + " CHA:"@ + decimal(a.charisma as nat) + "\n"@
    } else {
        Seq::empty()
    }
}

/// The hit-point line of the listing, when known.
pub open spec fn listing_hp(c: CharacterView) -> Seq<char> {
    match c.hp {
        Some((cur, max)) => "    HP: "@ + decimal(cur as nat) + "/"@ + decimal(max as nat) + "\n"@,
        None => Seq::empty(),
    }
}

/// The equipment block of the listing, when there is equipment.
pub open spec fn listing_equipment_block(c: CharacterView) -> Seq<char> {
    if c.equipment.len() > 0 {
        "    Equipment:\n"@ + listing_equipment(c.equipment)
    } else {
        Seq::empty()
    }
}

/// One party member in the listing: a summary line, the scores when strength
/// is above 0, hit points when known, equipment when there is any, then an
/// empty line.
#[verifier::opaque]
pub open spec fn listing_character(c: CharacterView) -> Seq<char> {
    listing_summary(c) + listing_stats(c) + listing_hp(c) + listing_equipment_block(c) + "\n"@
}

/// The members of the party listing, in order.
pub open spec fn listing_characters(cs: Seq<CharacterView>) -> Seq<char>
    decreases cs.len(),
{
    if cs.len() == 0 {
        Seq::empty()
    } else {
        listing_characters(cs.drop_last()) + listing_character(cs.last())
    }
}

/// The listing of two groups of party members is the listing of the first
/// followed by the listing of the second.
pub proof fn law_listing_concatenates(a: Seq<CharacterView>, b: Seq<CharacterView>)
    ensures
        listing_characters(a + b) == listing_characters(a) + listing_characters(b),
    decreases b.len(),
{
    if b.len() == 0 {
        assert(a + b =~= a);
    } else {
        law_listing_concatenates(a, b.drop_last());
        assert((a + b).drop_last() =~= a + b.drop_last());
        assert((a + b).last() == b.last());
        assert(listing_characters(a + b) =~= listing_characters(a) + listing_characters(b));
    }
}

proof fn lemma_listing_single(c: CharacterView)
    ensures
        listing_characters(seq![c]) == listing_character(c),
{
    assert(seq![c].drop_last() =~= Seq::<CharacterView>::empty());
    assert(seq![c].last() == c);
    assert(listing_characters(Seq::<CharacterView>::empty()) == Seq::<char>::empty());
    assert(listing_characters(seq![c]) =~= listing_character(c));
}

proof fn lemma_section_row(c: CharacterView)
    ensures
        listing_character(c).subrange(0, (c.name.len() + 9) as int) == "  "@ + c.name + " - Lvl "@,
{
    reveal(listing_character);
    reveal_strlit("  ");
    reveal_strlit(" - Lvl ");
    let head = "  "@ + c.name + " - Lvl "@;
    let rest = decimal(c.level as nat) + " "@ + c.race + " "@ + c.class + " "@
        + (if c.is_player { "(Player)"@ } else { Seq::empty() }) + "\n"@ + listing_stats(c) + listing_hp(c)
        + listing_equipment_block(c) + "\n"@;
    assert(listing_character(c) =~= head + rest);
    assert((head + rest).subrange(0, head.len() as int) =~= head);
}

/// The listing has one section per party member, in order: the listing of a
/// single member is that member's section, each section starts with the
/// member's own row (`  <name> - Lvl `), and the listing of all members is
/// those before the `i`-th, then the `i`-th member's section, then those after.
pub proof fn law_listing_one_section_each(c: CharacterView, cs: Seq<CharacterView>, i: int)
    requires
        0 <= i < cs.len(),
    ensures
        listing_characters(seq![c]) == listing_character(c),
        listing_character(c).subrange(0, (c.name.len() + 9) as int) == "  "@ + c.name + " - Lvl "@,
        listing_characters(cs) == listing_characters(cs.take(i)) + listing_character(cs[i])
            + listing_characters(cs.skip(i + 1)),
{
    lemma_listing_single(c);
    lemma_section_row(c);
    lemma_listing_single(cs[i]);
    law_listing_concatenates(cs.take(i), cs.skip(i));
    assert(cs.take(i) + cs.skip(i) =~= cs);
    law_listing_concatenates(seq![cs[i]], cs.skip(i + 1));
    assert(seq![cs[i]] + cs.skip(i + 1) =~= cs.skip(i));
}

/// The lines on the party as a whole: location, gold and day where known.
pub open spec fn listing_party_lines(p: PartyDataView) -> Seq<char> {
    let loc = match p.location {
        Some(l) => "Location: "@ + l + "\n"@,
        None => Seq::empty(),
    };
    let gold = match p.gold {
        Some(g) => "Gold: "@ + decimal(g as nat) + "\n"@,
        None => Seq::empty(),
    };
    let day = match p.day {
        Some(d) => "Day: "@ + decimal(d as nat) + "\n"@,
        None => Seq::empty(),
    };
    loc + gold + day
}

/// The party listing: a title, the location, gold and day where known, the
/// number of characters, each character, and a note when there is none.
pub open spec fn party_listing(p: PartyDataView) -> Seq<char> {
    "=== Party Data ===\n\n"@ + listing_party_lines(p)
        + ("\n--- Characters ("@ + decimal(p.characters.len()) + ") ---\n\n"@)
        + listing_characters(p.characters)
        + (if p.characters.len() == 0 { "  No characters found.\n"@ } else { Seq::empty() })
}

fn push_listing_summary(out: &mut Vec<char>, ch: &Character)
    ensures
        final(out)@ == old(out)@ + listing_summary(ch@),
{
    broadcast use crate::text::lemma_add_assoc;
    push_str(out, "  ");
    push_str(out, ch.name.as_str());
    push_str(out, " - Lvl ");
    push_decimal(out, ch.level as u64);
    push_str(out, " ");
    push_str(out, ch.race.as_str());
    push_str(out, " ");
    push_str(out, ch.class.as_str());
    push_str(out, " ");
    if ch.is_player {
        push_str(out, "(Player)");
    } else {
        assert(out@ + Seq::<char>::empty() =~= out@);
    }
    push_str(out, "\n");
}

fn push_listing_stats(out: &mut Vec<char>, ch: &Character)
    ensures
        final(out)@ == old(out)@ + listing_stats(ch@),
{
    broadcast use crate::text::lemma_add_assoc;
    let a = &ch.abilities;
    if a.strength > 0 {
        push_str(out, "    STR:");
        push_decimal(out, a.strength as u64);
        push_str(out, " DEX:");
        push_decimal(out, a.dexterity as u64);
        push_str(out, " CON:");
        push_decimal(out, a.constitution as u64);
        push_str(out, " INT:");
        push_decimal(out, a.intelligence as u64);
        push_str(out, " WIS:");
        push_decimal(out, a.wisdom as u64);
        push_str(out, " CHA:");
        push_decimal(out, a.charisma as u64);
        push_str(out, "\n");
    } else {
        assert(out@ + Seq::<char>::empty() =~= out@);
    }
}

fn push_listing_hp(out: &mut Vec<char>, ch: &Character)
    ensures
        final(out)@ == old(out)@ + listing_hp(ch@),
{
    broadcast use crate::text::lemma_add_assoc;
    if let Some((cur, max)) = ch.hp {
        push_str(out, "    HP: ");
        push_decimal(out, cur as u64);
        push_str(out, "/");
        push_decimal(out, max as u64);
        push_str(out, "\n");
    } else {
        assert(out@ + Seq::<char>::empty() =~= out@);
    }
}

fn push_listing_equipment(out: &mut Vec<char>, ch: &Character)
    ensures
        final(out)@ == old(out)@ + listing_equipment_block(ch@),
{
    broadcast use crate::text::lemma_add_assoc;
    if ch.equipment.len() > 0 {
        push_str(out, "    Equipment:\n");
        let eqs = &ch.equipment;
        let ghost l4 = out@;
        let mut i: usize = 0;
        assert(equipment_view(eqs@.subrange(0, 0)) =~= Seq::empty());
        assert(out@ + Seq::<char>::empty() =~= out@);
        while i < eqs.len()
            invariant
                i <= eqs.len(),
                out@ == l4 + listing_equipment(equipment_view(eqs@.subrange(0, i as int))),
            decreases eqs.len() - i,
        {
            assert(equipment_view(eqs@.subrange(0, i + 1)).drop_last() =~= equipment_view(eqs@.subrange(0, i as int)));
            assert(equipment_view(eqs@.subrange(0, i + 1)).last() == eqs@[i as int]@);
            push_str(out, "      ");
            push_slot_debug(out, &eqs[i].slot);
            push_str(out, ": ");
            push_str(out, eqs[i].item_name.as_str());
            push_str(out, "\n");
            i = i + 1;
        }
        assert(eqs@.subrange(0, eqs@.len() as int) =~= eqs@);
    } else {
        assert(out@ + Seq::<char>::empty() =~= out@);
    }
}

fn push_listing_character(out: &mut Vec<char>, ch: &Character)
    ensures
        final(out)@ == old(out)@ + listing_character(ch@),
{
    broadcast use crate::text::lemma_add_assoc;
    reveal(listing_character);
    push_listing_summary(out, ch);
    push_listing_stats(out, ch);
    push_listing_hp(out, ch);
    push_listing_equipment(out, ch);
    push_str(out, "\n");
}

fn push_listing_party_lines(out: &mut Vec<char>, data: &PartyData)
    ensures
        final(out)@ == old(out)@ + listing_party_lines(data@),
{
    broadcast use crate::text::lemma_add_assoc;
    let ghost start = out@;
    if let Some(loc) = &data.location {
        push_str(out, "Location: ");
        push_str(out, loc.as_str());
        push_str(out, "\n");
    }
    if let Some(gold) = data.gold {
        push_str(out, "Gold: ");
        push_decimal(out, gold);
        push_str(out, "\n");
    }
    if let Some(day) = data.day {
        push_str(out, "Day: ");
        push_decimal(out, day as u64);
        push_str(out, "\n");
    }
    assert(out@ =~= start + listing_party_lines(data@));
}

fn push_listing_characters(out: &mut Vec<char>, cs: &Vec<Character>)
    ensures
        final(out)@ == old(out)@ + listing_characters(characters_view(cs@)),
{
    let mut i: usize = 0;
    assert(characters_view(cs@.subrange(0, 0)) =~= Seq::empty());
    assert(out@ + Seq::<char>::empty() =~= out@);
    while i < cs.len()
        invariant
            i <= cs.len(),
            out@ == old(out)@ + listing_characters(characters_view(cs@.subrange(0, i as int))),
        decreases cs.len() - i,
    {
        broadcast use crate::text::lemma_add_assoc;
        assert(characters_view(cs@.subrange(0, i + 1)).drop_last() =~= characters_view(cs@.subrange(0, i as int)));
        assert(characters_view(cs@.subrange(0, i + 1)).last() == cs@[i as int]@);
        push_listing_character(out, &cs[i]);
        i = i + 1;
    }
    assert(cs@.subrange(0, cs@.len() as int) =~= cs@);
}

/// The party listing the explorer prints for a save.
pub fn party_report(data: &PartyData) -> (r: String)
    ensures
        r@ == party_listing(data@),
{
    broadcast use crate::text::lemma_add_assoc;
    let mut out: Vec<char> = Vec::new();
    push_str(&mut out, "=== Party Data ===\n\n");
    push_listing_party_lines(&mut out, data);
    let ghost before_count = out@;
    push_str(&mut out, "\n--- Characters (");
    push_decimal(&mut out, data.characters.len() as u64);
    push_str(&mut out, ") ---\n\n");
    assert(out@ == before_count + ("\n--- Characters ("@ + decimal(data@.characters.len()) + ") ---\n\n"@));
    push_listing_characters(&mut out, &data.characters);
    if data.characters.len() == 0 {
        push_str(&mut out, "  No characters found.\n");
    } else {
        assert(out@ + Seq::<char>::empty() =~= out@);
    }
    string_from_chars(out)
}

// ---------------------------------------------------------------------------
// Extracted entries
// ---------------------------------------------------------------------------

/// The hex dump of the first `n` bytes: each byte as two hex digits and a
/// space, sixteen to a line.
pub open spec fn hex_dump(b: Seq<u8>, n: int) -> Seq<char>
    decreases n,
{
    if n <= 0 {
        Seq::empty()
    } else {
        hex_dump(b, n - 1) + (if (n - 1) % 16 == 0 && n - 1 > 0 { "\n"@ } else { Seq::empty() }) + hex2(b[n - 1]) + " "@
    }
}

/// The smaller of two numbers.
pub open spec fn min(a: int, b: int) -> int {
    if a < b { a } else { b }
}

/// What the explorer prints for an extracted entry: the text when it is
/// UTF-8; otherwise its size and a hex dump of its first 256 bytes.
pub open spec fn extracted_text(data: Seq<u8>) -> Seq<char> {
    if valid_utf8(data) {
        decode_utf8(data) + "\n"@
    } else {
        "Binary data ("@ + decimal(data.len()) + " bytes), first 256 bytes:\n"@ + hex_dump(data, min(data.len() as int, 256))
            + "\n"@
    }
}

/// The text the explorer prints for an extracted entry.
pub fn extracted_entry_text(data: Vec<u8>) -> (r: String)
    ensures
        r@ == extracted_text(data@),
{
    broadcast use crate::text::lemma_add_assoc;
    let ghost bytes = data@;
    let len = data.len();
    let mut copy: Vec<u8> = Vec::new();
    let mut k: usize = 0;
    while k < data.len()
        invariant
            k <= data.len(),
            copy@ == data@.subrange(0, k as int),
        decreases data.len() - k,
    {
        copy.push(data[k]);
        k = k + 1;
    }
    assert(copy@ =~= bytes);
    match utf8_text(data) {
        Ok(text) => {
            let mut out = chars_of(text.as_str());
            push_str(&mut out, "\n");
            string_from_chars(out)
        },
        Err(_) => {
            let mut out = chars_of("Binary data (");
            push_decimal(&mut out, len as u64);
            push_str(&mut out, " bytes), first 256 bytes:\n");
            let ghost head = out@;
            let n = if len < 256 { len } else { 256 };
            let mut i: usize = 0;
            assert(out@ + Seq::<char>::empty() =~= out@);
            while i < n
                invariant
                    i <= n,
                    n <= copy.len(),
                    copy@ == bytes,
                    out@ == head + hex_dump(bytes, i as int),
                decreases n - i,
            {
                if i % 16 == 0 && i > 0 {
                    push_str(&mut out, "\n");
                } else {
                    assert(out@ + Seq::<char>::empty() =~= out@);
                }
                push_hex2(&mut out, copy[i]);
                push_str(&mut out, " ");
                i = i + 1;
            }
            push_str(&mut out, "\n");
            string_from_chars(out)
        },
    }
}

// ---------------------------------------------------------------------------
// Tables and lists
// ---------------------------------------------------------------------------

/// `s` padded with spaces on the right to `width` characters (what `{:<width}` writes).
pub open spec fn pad_right(s: Seq<char>, width: nat) -> Seq<char> {
    if s.len() < width {
        s + repeat(" "@, (width - s.len()) as nat)
    } else {
        s
    }
}

fn push_padded(out: &mut Vec<char>, s: &str, width: usize)
    ensures
        final(out)@ == old(out)@ + pad_right(s@, width as nat),
{
    broadcast use crate::text::lemma_add_assoc;
    let cs = chars_of(s);
    let n = cs.len();
    push_str(out, s);
    if n < width {
        push_repeat(out, " ", width - n);
    } else {
        assert(out@ =~= old(out)@ + pad_right(s@, width as nat));
    }
}

/// The heading of the scan table: the number of saves, the column titles and a rule.
pub open spec fn scan_heading_text(count: nat) -> Seq<char> {
    "Found "@ + decimal(count) + " save files\n\n"@
        + pad_right("PATH"@, 60) + " "@ + pad_right("CHARACTER"@, 20) + " "@ + pad_right("TYPE"@, 15) + " SAVE NAME\n"@
        + repeat("-"@, 110) + "\n"@
}

/// The heading of the scan table.
pub fn scan_heading(count: usize) -> (r: String)
    ensures
        r@ == scan_heading_text(count as nat),
{
    broadcast use crate::text::lemma_add_assoc;
    let mut out = chars_of("Found ");
    push_decimal(&mut out, count as u64);
    push_str(&mut out, " save files\n\n");
    push_padded(&mut out, "PATH", 60);
    push_str(&mut out, " ");
    push_padded(&mut out, "CHARACTER", 20);
    push_str(&mut out, " ");
    push_padded(&mut out, "TYPE", 15);
    push_str(&mut out, " SAVE NAME\n");
    push_repeat(&mut out, "-", 110);
    push_str(&mut out, "\n");
    string_from_chars(out)
}

/// A row of the scan table: the shortened path, the character, the mode
/// (`Honour` or `Normal`) and the save name.
pub open spec fn scan_row_text(display_path: Seq<char>, info: SaveInfoView) -> Seq<char> {
    pad_right(display_path, 60) + " "@ + pad_right(info.character_name, 20) + " "@
        + pad_right(if info.is_honour_mode { "Honour"@ } else { "Normal"@ }, 15) + " "@ + info.save_name + "\n"@
}

/// A row of the scan table.
pub fn scan_row(display_path: &str, info: &SaveInfo) -> (r: String)
    ensures
        r@ == scan_row_text(display_path@, info@),
{
    broadcast use crate::text::lemma_add_assoc;
    let mut out: Vec<char> = Vec::new();
    push_padded(&mut out, display_path, 60);
    push_str(&mut out, " ");
    push_padded(&mut out, info.character_name.as_str(), 20);
    push_str(&mut out, " ");
    if info.is_honour_mode {
        push_padded(&mut out, "Honour", 15);
    } else {
        push_padded(&mut out, "Normal", 15);
    }
    push_str(&mut out, " ");
    push_str(&mut out, info.save_name.as_str());
    push_str(&mut out, "\n");
    assert(out@ =~= scan_row_text(display_path@, info@));
    string_from_chars(out)
}

/// A row of the scan table for a save that could not be summarised.
pub open spec fn scan_error_row_text(display_path: Seq<char>, error: Seq<char>) -> Seq<char> {
    pad_right(display_path, 60) + " ERROR: "@ + error + "\n"@
}

/// A row of the scan table for a save that could not be summarised.
pub fn scan_error_row(display_path: &str, error: &str) -> (r: String)
    ensures
        r@ == scan_error_row_text(display_path@, error@),
{
    broadcast use crate::text::lemma_add_assoc;
    let mut out: Vec<char> = Vec::new();
    push_padded(&mut out, display_path, 60);
    push_str(&mut out, " ERROR: ");
    push_str(&mut out, error);
    push_str(&mut out, "\n");
    assert(out@ =~= scan_error_row_text(display_path@, error@));
    string_from_chars(out)
}

/// The names of a package's entries, one per line, indented.
pub open spec fn file_lines(names: Seq<String>) -> Seq<char>
    decreases names.len(),
{
    if names.len() == 0 {
        Seq::empty()
    } else {
        file_lines(names.drop_last()) + "  "@ + names.last()@ + "\n"@
    }
}

/// The listing of a package's entries under a heading line.
pub fn files_listing(heading: &str, names: &Vec<String>) -> (r: String)
    ensures
        r@ == heading@ + file_lines(names@),
{
    broadcast use crate::text::lemma_add_assoc;
    let mut out = chars_of(heading);
    let mut i: usize = 0;
    assert(out@ + Seq::<char>::empty() =~= out@);
    while i < names.len()
        invariant
            i <= names.len(),
            out@ == heading@ + file_lines(names@.subrange(0, i as int)),
        decreases names.len() - i,
    {
        assert(names@.subrange(0, i + 1).drop_last() =~= names@.subrange(0, i as int));
        push_str(&mut out, "  ");
        push_str(&mut out, names[i].as_str());
        push_str(&mut out, "\n");
        i = i + 1;
    }
    assert(names@.subrange(0, names@.len() as int) =~= names@);
    string_from_chars(out)
}

/// The heading of the file listing: `Files in save (<n>):` and an empty line.
pub open spec fn files_heading_text(count: nat) -> Seq<char> {
    "Files in save ("@ + decimal(count) + "):\n\n"@
}

/// The file listing of a package.
pub fn files_report(names: &Vec<String>) -> (r: String)
    ensures
        r@ == files_heading_text(names@.len()) + file_lines(names@),
{
    broadcast use crate::text::lemma_add_assoc;
    let mut h = chars_of("Files in save (");
    push_decimal(&mut h, names.len() as u64);
    push_str(&mut h, "):\n\n");
    let heading = string_from_chars(h);
    files_listing(heading.as_str(), names)
}

/// The tree dump of an LSF file under a heading with the file name, the depth,
/// and the numbers of regions and nodes.
pub open spec fn dump_report_text(file: Seq<char>, depth: nat, resource: Resource) -> Seq<char> {
    let arena = resource.regions;
    "=== "@ + file + " tree (depth "@ + decimal(depth) + ") ===\n\n"@
        + "Regions: "@ + decimal(arena.regions_indices@.len()) + " | Total nodes: "@ + decimal(arena.node_instances@.len()) + "\n\n"@
        + dump_roots(arena, nodes_at(arena, region_indices(arena.regions_indices@)), depth)
}

/// The dump the explorer prints for an LSF file.
pub fn dump_report(file: &str, depth: usize, resource: &Resource) -> (r: String)
    ensures
        r@ == dump_report_text(file@, depth as nat, *resource),
{
    broadcast use crate::text::lemma_add_assoc;
    let mut out = chars_of("=== ");
    push_str(&mut out, file);
    push_str(&mut out, " tree (depth ");
    push_decimal(&mut out, depth as u64);
    push_str(&mut out, ") ===\n\n");
    push_str(&mut out, "Regions: ");
    push_decimal(&mut out, resource.regions.region_count() as u64);
    push_str(&mut out, " | Total nodes: ");
    push_decimal(&mut out, resource.regions.node_instances.len() as u64);
    push_str(&mut out, "\n\n");
    let tree = dump_tree(&resource.regions, depth);
    push_str(&mut out, tree.as_str());
    string_from_chars(out)
}

} // verus!
