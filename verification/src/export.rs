//! Export of party data as markdown text.
use vstd::prelude::*;
use crate::models::{
    CharacterView, EquipmentSlot, EquipmentSlotView, PartyData, PartyDataView, SaveInfo,
    SaveInfoView, SlotType, SlotTypeView, Character, characters_view, equipment_view,
};
use crate::text::{debug_quoted, debug_str, decimal, push_decimal, push_str, string_from_chars};

verus! {

/// What `Debug` writes for a slot.
pub open spec fn slot_debug(s: SlotTypeView) -> Seq<char> {
    match s {
        SlotTypeView::Head => "Head"@,
        SlotTypeView::Chest => "Chest"@,
        SlotTypeView::Hands => "Hands"@,
        SlotTypeView::Feet => "Feet"@,
        SlotTypeView::MainHand => "MainHand"@,
        SlotTypeView::OffHand => "OffHand"@,
        SlotTypeView::Amulet => "Amulet"@,
        SlotTypeView::Ring1 => "Ring1"@,
        SlotTypeView::Ring2 => "Ring2"@,
        SlotTypeView::Cloak => "Cloak"@,
        SlotTypeView::Ranged => "Ranged"@,
        SlotTypeView::Other(t) => "Other("@ + debug_quoted(t) + ")"@,
    }
}

/// One line per item: `  - <slot>: <item>`.
pub open spec fn equipment_lines(eqs: Seq<EquipmentSlotView>) -> Seq<char>
    decreases eqs.len(),
{
    if eqs.len() == 0 {
        Seq::empty()
    } else {
        equipment_lines(eqs.drop_last()) + "  - "@ + slot_debug(eqs.last().slot) + ": "@ + eqs.last().item_name + "\n"@
    }
}

/// The heading of a party member's section.
pub open spec fn heading_line(c: CharacterView) -> Seq<char> {
    "### "@ + c.name + " "@ + (if c.is_player { "(Player)"@ } else { Seq::empty() }) + "\n"@
}

/// The class, level and race line.
pub open spec fn class_line(c: CharacterView) -> Seq<char> {
    "- **Class**: "@ + c.class + " | **Level**: "@ + decimal(c.level as nat) + " | **Race**: "@ + c.race + "\n"@
}

/// The hit-point line, when hit points are known.
pub open spec fn hp_line(c: CharacterView) -> Seq<char> {
    match c.hp {
        Some((cur, max)) => "- **HP**: "@ + decimal(cur as nat) + "/"@ + decimal(max as nat) + "\n"@,
        None => Seq::empty(),
    }
}

/// The ability-score line, when strength or dexterity is above 0.
pub open spec fn stats_line(c: CharacterView) -> Seq<char> {
    let a = c.abilities;
    if a.strength > 0 || a.dexterity > 0 {
        "- **Stats**: STR "@ + decimal(a.strength as nat) + " | DEX "@ + decimal(a.dexterity as nat)
            + " | CON "@ + decimal(a.constitution as nat) + " | INT "@ + decimal(a.intelligence as nat)
            + " | WIS "@ + decimal(a.wisdom as nat) + " | CHA "@ + decimal(a.charisma as nat) + "\n"@
    } else {
        Seq::empty()
    }
}

/// The equipment list, when there is any equipment.
pub open spec fn equipment_block(c: CharacterView) -> Seq<char> {
    if c.equipment.len() > 0 {
        "- **Equipment**:\n"@ + equipment_lines(c.equipment)
    } else {
        Seq::empty()
    }
}

/// The markdown section of one party member: a heading with the name (and
/// `(Player)` for the player), class, level and race; hit points when known;
/// the six scores when strength or dexterity is above 0; the equipment when
/// there is any; then an empty line.
pub open spec fn character_markdown(c: CharacterView) -> Seq<char> {
    heading_line(c) + class_line(c) + hp_line(c) + stats_line(c) + equipment_block(c) + "\n"@
}

/// The sections of the party members, in order.
pub open spec fn characters_markdown(cs: Seq<CharacterView>) -> Seq<char>
    decreases cs.len(),
{
    if cs.len() == 0 {
        Seq::empty()
    } else {
        characters_markdown(cs.drop_last()) + character_markdown(cs.last())
    }
}

/// The lines on the save: its name, the player, the mode.
pub open spec fn save_lines(info: SaveInfoView) -> Seq<char> {
    "# BG3 Save: "@ + info.save_name + "\n\n"@
        + "- **Player**: "@ + info.character_name + "\n"@
        + "- **Mode**: "@ + (if info.is_honour_mode { "Honour Mode"@ } else { "Normal"@ }) + "\n"@
}

/// The lines on the party: location, gold and day where known.
pub open spec fn party_lines(party: PartyDataView) -> Seq<char> {
    let loc = match party.location {
        Some(loc) => "- **Location**: "@ + loc + "\n"@,
        None => Seq::empty(),
    };
    let gold = match party.gold {
        Some(g) => "- **Gold**: "@ + decimal(g as nat) + "\n"@,
        None => Seq::empty(),
    };
    let day = match party.day {
        Some(d) => "- **Day**: "@ + decimal(d as nat) + "\n"@,
        None => Seq::empty(),
    };
    loc + gold + day
}

/// The markdown export: a heading with the save name, the player, the mode,
/// the location, gold and day where known, then a section per party member.
pub open spec fn markdown(info: SaveInfoView, party: PartyDataView) -> Seq<char> {
    save_lines(info) + party_lines(party) + "\n## Party Members\n\n"@ + characters_markdown(party.characters)
}

fn push_save_lines(md: &mut Vec<char>, save_info: &SaveInfo)
    ensures
        final(md)@ == old(md)@ + save_lines(save_info@),
{
    broadcast use crate::text::lemma_add_assoc;
    push_str(md, "# BG3 Save: ");
    push_str(md, save_info.save_name.as_str());
    push_str(md, "\n\n");
    push_str(md, "- **Player**: ");
    push_str(md, save_info.character_name.as_str());
    push_str(md, "\n");
    push_str(md, "- **Mode**: ");
    if save_info.is_honour_mode {
        push_str(md, "Honour Mode");
    } else {
        push_str(md, "Normal");
    }
    push_str(md, "\n");
}

fn push_party_lines(md: &mut Vec<char>, party: &PartyData)
    ensures
        final(md)@ == old(md)@ + party_lines(party@),
{
    broadcast use crate::text::lemma_add_assoc;
    let ghost start = md@;
    if let Some(loc) = &party.location {
        push_str(md, "- **Location**: ");
        push_str(md, loc.as_str());
        push_str(md, "\n");
    }
    let ghost a = md@;
    if let Some(gold) = party.gold {
        push_str(md, "- **Gold**: ");
        push_decimal(md, gold);
        push_str(md, "\n");
    }
    let ghost b = md@;
    if let Some(day) = party.day {
        push_str(md, "- **Day**: ");
        push_decimal(md, day as u64);
        push_str(md, "\n");
    }
    assert(md@ =~= start + party_lines(party@));
}

/// Appends what `Debug` writes for a slot.
pub fn push_slot_debug(out: &mut Vec<char>, slot: &SlotType)
    ensures
        final(out)@ == old(out)@ + slot_debug(slot@),
{
    match slot {
        SlotType::Head => push_str(out, "Head"),
        SlotType::Chest => push_str(out, "Chest"),
        SlotType::Hands => push_str(out, "Hands"),
        SlotType::Feet => push_str(out, "Feet"),
        SlotType::MainHand => push_str(out, "MainHand"),
        SlotType::OffHand => push_str(out, "OffHand"),
        SlotType::Amulet => push_str(out, "Amulet"),
        SlotType::Ring1 => push_str(out, "Ring1"),
        SlotType::Ring2 => push_str(out, "Ring2"),
        SlotType::Cloak => push_str(out, "Cloak"),
        SlotType::Ranged => push_str(out, "Ranged"),
        SlotType::Other(t) => {
            push_str(out, "Other(");
            let q = debug_str(t.as_str());
            push_str(out, q.as_str());
            push_str(out, ")");
            assert(out@ =~= old(out)@ + slot_debug(slot@));
        },
    }
}

fn push_equipment_lines(out: &mut Vec<char>, eqs: &Vec<EquipmentSlot>)
    ensures
        final(out)@ == old(out)@ + equipment_lines(equipment_view(eqs@)),
{
    let mut i: usize = 0;
    while i < eqs.len()
        invariant
            i <= eqs.len(),
            out@ == old(out)@ + equipment_lines(equipment_view(eqs@.subrange(0, i as int))),
        decreases eqs.len() - i,
    {
        let ghost before = out@;
        let eq = &eqs[i];
        push_str(out, "  - ");
        push_slot_debug(out, &eq.slot);
        push_str(out, ": ");
        push_str(out, eq.item_name.as_str());
        push_str(out, "\n");
        assert(equipment_view(eqs@.subrange(0, i + 1)).drop_last() =~= equipment_view(eqs@.subrange(0, i as int)));
        assert(equipment_view(eqs@.subrange(0, i + 1)).last() == eq@);
        assert(out@ =~= old(out)@ + equipment_lines(equipment_view(eqs@.subrange(0, i + 1))));
        i = i + 1;
    }
    assert(eqs@.subrange(0, eqs@.len() as int) =~= eqs@);
}

fn push_heading(md: &mut Vec<char>, c: &Character)
    ensures
        final(md)@ == old(md)@ + heading_line(c@),
{
    broadcast use crate::text::lemma_add_assoc;
    push_str(md, "### ");
    push_str(md, c.name.as_str());
    push_str(md, " ");
    if c.is_player {
        push_str(md, "(Player)");
    } else {
        assert(md@ + Seq::<char>::empty() =~= md@);
    }
    push_str(md, "\n");
}

fn push_class_line(md: &mut Vec<char>, c: &Character)
    ensures
        final(md)@ == old(md)@ + class_line(c@),
{
    broadcast use crate::text::lemma_add_assoc;
    push_str(md, "- **Class**: ");
    push_str(md, c.class.as_str());
    push_str(md, " | **Level**: ");
    push_decimal(md, c.level as u64);
    push_str(md, " | **Race**: ");
    push_str(md, c.race.as_str());
    push_str(md, "\n");
}

fn push_hp_line(md: &mut Vec<char>, c: &Character)
    ensures
        final(md)@ == old(md)@ + hp_line(c@),
{
    broadcast use crate::text::lemma_add_assoc;
    if let Some((cur, max)) = c.hp {
        push_str(md, "- **HP**: ");
        push_decimal(md, cur as u64);
        push_str(md, "/");
        push_decimal(md, max as u64);
        push_str(md, "\n");
    } else {
        assert(md@ + Seq::<char>::empty() =~= md@);
    }
}

fn push_stats_line(md: &mut Vec<char>, c: &Character)
    ensures
        final(md)@ == old(md)@ + stats_line(c@),
{
    broadcast use crate::text::lemma_add_assoc;
    let a = &c.abilities;
    if a.strength > 0 || a.dexterity > 0 {
        push_str(md, "- **Stats**: STR ");
        push_decimal(md, a.strength as u64);
        push_str(md, " | DEX ");
        push_decimal(md, a.dexterity as u64);
        push_str(md, " | CON ");
        push_decimal(md, a.constitution as u64);
        push_str(md, " | INT ");
        push_decimal(md, a.intelligence as u64);
        push_str(md, " | WIS ");
        push_decimal(md, a.wisdom as u64);
        push_str(md, " | CHA ");
        push_decimal(md, a.charisma as u64);
        push_str(md, "\n");
    } else {
        assert(md@ + Seq::<char>::empty() =~= md@);
    }
}

fn push_equipment_block(md: &mut Vec<char>, c: &Character)
    ensures
        final(md)@ == old(md)@ + equipment_block(c@),
{
    broadcast use crate::text::lemma_add_assoc;
    if c.equipment.len() > 0 {
        push_str(md, "- **Equipment**:\n");
        push_equipment_lines(md, &c.equipment);
    } else {
        assert(md@ + Seq::<char>::empty() =~= md@);
    }
}

fn format_character(md: &mut Vec<char>, c: &Character)
    ensures
        final(md)@ == old(md)@ + character_markdown(c@),
{
    broadcast use crate::text::lemma_add_assoc;
    reveal(character_markdown);
    push_heading(md, c);
    push_class_line(md, c);
    push_hp_line(md, c);
    push_stats_line(md, c);
    push_equipment_block(md, c);
    push_str(md, "\n");
}

fn push_characters(md: &mut Vec<char>, characters: &Vec<Character>)
    ensures
        final(md)@ == old(md)@ + characters_markdown(characters_view(characters@)),
{
    let mut i: usize = 0;
    assert(characters_view(characters@.subrange(0, 0)) =~= Seq::empty());
    assert(md@ =~= old(md)@ + characters_markdown(characters_view(characters@.subrange(0, 0))));
    while i < characters.len()
        invariant
            i <= characters.len(),
            md@ == old(md)@ + characters_markdown(characters_view(characters@.subrange(0, i as int))),
        decreases characters.len() - i,
    {
        broadcast use crate::text::lemma_add_assoc;
        format_character(md, &characters[i]);
        assert(characters_view(characters@.subrange(0, i + 1)).drop_last() =~= characters_view(characters@.subrange(0, i as int)));
        assert(characters_view(characters@.subrange(0, i + 1)).last() == characters@[i as int]@);
        i = i + 1;
    }
    assert(characters@.subrange(0, characters@.len() as int) =~= characters@);
}

/// Export party data as a markdown-formatted string optimized for LLM context.
pub fn to_markdown(save_info: &SaveInfo, party: &PartyData) -> (r: String)
    ensures
        r@ == markdown(save_info@, party@),
{
    broadcast use crate::text::lemma_add_assoc;
    let mut md: Vec<char> = Vec::new();
    push_save_lines(&mut md, save_info);
    push_party_lines(&mut md, party);
    push_str(&mut md, "\n## Party Members\n\n");
    push_characters(&mut md, &party.characters);
    string_from_chars(md)
}

/// The slot text of every slot starts with its own letters: a named slot is
/// written as its variant's name, and an `Other` slot as `Other(` and a quoted
/// text; so two different slots, unless both are `Other`, are written differently.
pub proof fn law_slot_texts_distinct(a: SlotTypeView, b: SlotTypeView)
    requires
        a != b,
        !(a is Other && b is Other),
    ensures
        slot_debug(a) != slot_debug(b),
{
    reveal_strlit("Head");
    reveal_strlit("Chest");
    reveal_strlit("Hands");
    reveal_strlit("Feet");
    reveal_strlit("MainHand");
    reveal_strlit("OffHand");
    reveal_strlit("Amulet");
    reveal_strlit("Ring1");
    reveal_strlit("Ring2");
    reveal_strlit("Cloak");
    reveal_strlit("Ranged");
    reveal_strlit("Other(");
    reveal_strlit(")");
    let ta = slot_debug(a);
    let tb = slot_debug(b);
    if ta == tb {
        assert(ta.len() == tb.len());
        assert(ta[0] == tb[0]);
        if ta.len() > 1 {
            assert(ta[1] == tb[1]);
        }
        if ta.len() > 4 {
            assert(ta[4] == tb[4]);
        }
        assert(ta[ta.len() - 1] == tb[tb.len() - 1]);
    }
}

/// The named slots are written as their variants' names.
pub proof fn law_named_slot_texts()
    ensures
        slot_debug(SlotTypeView::Head) == "Head"@,
        slot_debug(SlotTypeView::Chest) == "Chest"@,
        slot_debug(SlotTypeView::Hands) == "Hands"@,
        slot_debug(SlotTypeView::Feet) == "Feet"@,
        slot_debug(SlotTypeView::MainHand) == "MainHand"@,
        slot_debug(SlotTypeView::OffHand) == "OffHand"@,
        slot_debug(SlotTypeView::Amulet) == "Amulet"@,
        slot_debug(SlotTypeView::Ring1) == "Ring1"@,
        slot_debug(SlotTypeView::Ring2) == "Ring2"@,
        slot_debug(SlotTypeView::Cloak) == "Cloak"@,
        slot_debug(SlotTypeView::Ranged) == "Ranged"@,
{
}

} // verus!
