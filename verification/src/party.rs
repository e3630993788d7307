//! Party extraction from the node tree of `globals.lsf`: characters, their
//! ability scores, hit points and equipment, and the party's gold, day and location.
use vstd::prelude::*;
use vstd::string::StringExecFns;
use crate::lsf::{
    bool_attr, get_bool_attr, get_int_attr, get_string_attr, get_translated_string_attr,
    get_uint64_attr, get_uint_attr, get_uuid_attr, int_attr,
    string_attr, translated_string_attr, uint64_attr, uint_attr, uuid_attr, Node, RegionArena,
    Resource,
};
use crate::keyed::{find_key, lemma_key_index, lookup};
use crate::models::{
    characters_view, equipment_view, AbilityScores, Character, CharacterView, EquipmentSlot,
    EquipmentSlotView, PartyData, PartyDataView, SlotType, SlotTypeView,
};
use crate::text::str_eq;

verus! {

// ---------------------------------------------------------------------------
// What the extraction finds, stated over the tree
// ---------------------------------------------------------------------------

/// `a` if present, else `b`.
pub open spec fn first_some<T>(a: Option<T>, b: Option<T>) -> Option<T> {
    match a {
        Some(x) => Some(x),
        None => b,
    }
}

/// The text in `o`, or `d`.
pub open spec fn text_or(o: Option<Seq<char>>, d: Seq<char>) -> Seq<char> {
    match o {
        Some(s) => s,
        None => d,
    }
}

/// The number in `o`, or `d`.
pub open spec fn u32_or(o: Option<u32>, d: u32) -> u32 {
    match o {
        Some(v) => v,
        None => d,
    }
}

/// A signed value reinterpreted as unsigned, as `as u32` does.
pub open spec fn as_u32(o: Option<i32>) -> Option<u32> {
    match o {
        Some(v) => Some(v as u32),
        None => None,
    }
}

/// The elements of `o` as a sequence of zero or one elements.
pub open spec fn opt_seq<T>(o: Option<T>) -> Seq<T> {
    match o {
        Some(x) => seq![x],
        None => Seq::empty(),
    }
}

/// The name of a character node: the first of `Name`, `CustomName` and
/// `DisplayName` present, each read as a string and then as a translated string.
pub open spec fn character_name_of(node: Node) -> Option<Seq<char>> {
    first_some(string_attr(node, "Name"@),
    first_some(translated_string_attr(node, "Name"@),
    first_some(string_attr(node, "CustomName"@),
    first_some(translated_string_attr(node, "CustomName"@),
    first_some(string_attr(node, "DisplayName"@),
    translated_string_attr(node, "DisplayName"@))))))
}

/// The level: `Level` as unsigned, else as signed, else 0.
pub open spec fn level_of(node: Node) -> u32 {
    u32_or(first_some(uint_attr(node, "Level"@), as_u32(int_attr(node, "Level"@))), 0)
}

/// A node is the player's: `IsPlayer` is true, or the string `True` or `1`.
pub open spec fn is_player_of(node: Node) -> bool {
    bool_attr(node, "IsPlayer"@) == Some(true) || match string_attr(node, "IsPlayer"@) {
        Some(s) => s == "True"@ || s == "1"@,
        None => false,
    }
}

/// The scores held directly as attributes of the node.
pub open spec fn direct_abilities(node: Node) -> AbilityScores {
    AbilityScores {
        strength: u32_or(uint_attr(node, "Strength"@), 0),
        dexterity: u32_or(uint_attr(node, "Dexterity"@), 0),
        constitution: u32_or(uint_attr(node, "Constitution"@), 0),
        intelligence: u32_or(uint_attr(node, "Intelligence"@), 0),
        wisdom: u32_or(uint_attr(node, "Wisdom"@), 0),
        charisma: u32_or(uint_attr(node, "Charisma"@), 0),
    }
}

/// `s` with the score named `id` set to `v`; other names leave it unchanged.
pub open spec fn with_ability(s: AbilityScores, id: Seq<char>, v: u32) -> AbilityScores {
    if id == "Strength"@ {
        AbilityScores { strength: v, ..s }
    } else if id == "Dexterity"@ {
        AbilityScores { dexterity: v, ..s }
    } else if id == "Constitution"@ {
        AbilityScores { constitution: v, ..s }
    } else if id == "Intelligence"@ {
        AbilityScores { intelligence: v, ..s }
    } else if id == "Wisdom"@ {
        AbilityScores { wisdom: v, ..s }
    } else if id == "Charisma"@ {
        AbilityScores { charisma: v, ..s }
    } else {
        s
    }
}

/// The ability named by the node at `idx` (`Id`, else `Name`) and its score
/// (`Value`, else `Base`), when the node exists and both are present.
pub open spec fn ability_entry(arena: RegionArena, idx: usize) -> Option<(Seq<char>, u32)> {
    match arena.node_at(idx as int) {
        Some(n) => match (first_some(string_attr(n, "Id"@), string_attr(n, "Name"@)),
            first_some(uint_attr(n, "Value"@), uint_attr(n, "Base"@))) {
            (Some(id), Some(v)) => Some((id, v)),
            _ => None,
        },
        None => None,
    }
}

/// `s` after the ability nodes at `idxs` are applied in order.
pub open spec fn fold_abilities(arena: RegionArena, s: AbilityScores, idxs: Seq<usize>) -> AbilityScores
    decreases idxs.len(),
{
    if idxs.len() == 0 {
        s
    } else {
        let prev = fold_abilities(arena, s, idxs.drop_last());
        match ability_entry(arena, idxs.last()) {
            Some((id, v)) => with_ability(prev, id, v),
            None => prev,
        }
    }
}

/// The ability scores of a character node: its direct attributes, then the
/// nodes of its `Abilities` child list.
pub open spec fn abilities_of(arena: RegionArena, node: Node) -> AbilityScores {
    match lookup(node.children@, "Abilities"@) {
        Some(idxs) => fold_abilities(arena, direct_abilities(node), idxs@),
        None => direct_abilities(node),
    }
}

/// Hit points: `CurrentHP` (unsigned, else signed) and `MaxHP` likewise,
/// the maximum defaulting to the current value; none without a current value.
pub open spec fn hp_of(node: Node) -> Option<(u32, u32)> {
    match first_some(uint_attr(node, "CurrentHP"@), as_u32(int_attr(node, "CurrentHP"@))) {
        Some(cur) => Some((cur, u32_or(first_some(uint_attr(node, "MaxHP"@), as_u32(int_attr(node, "MaxHP"@))), cur))),
        None => None,
    }
}

/// The slot a slot name denotes.
pub open spec fn slot_of_name(s: Seq<char>) -> SlotTypeView {
    if s == "Helmet"@ || s == "Head"@ {
        SlotTypeView::Head
    } else if s == "Breast"@ || s == "Chest"@ || s == "Body"@ {
        SlotTypeView::Chest
    } else if s == "Gloves"@ || s == "Hands"@ {
        SlotTypeView::Hands
    } else if s == "Boots"@ || s == "Feet"@ {
        SlotTypeView::Feet
    } else if s == "Melee Main Weapon"@ || s == "MainHand"@ {
        SlotTypeView::MainHand
    } else if s == "Melee Off-Hand Weapon"@ || s == "OffHand"@ {
        SlotTypeView::OffHand
    } else if s == "Amulet"@ {
        SlotTypeView::Amulet
    } else if s == "Ring"@ || s == "Ring1"@ {
        SlotTypeView::Ring1
    } else if s == "Ring2"@ {
        SlotTypeView::Ring2
    } else if s == "Cloak"@ {
        SlotTypeView::Cloak
    } else if s == "Ranged Main Weapon"@ || s == "Ranged"@ {
        SlotTypeView::Ranged
    } else {
        SlotTypeView::Other(s)
    }
}

/// The item a node describes: named by `Name`, `ItemName` or the translated
/// `DisplayName`; its slot from `Slot` or `SlotName` (default `Other`); its
/// template from `TemplateName`, `MapKey` or `TemplateID` (default empty).
pub open spec fn equipment_slot_of(node: Node) -> Option<EquipmentSlotView> {
    match first_some(string_attr(node, "Name"@), first_some(string_attr(node, "ItemName"@),
        translated_string_attr(node, "DisplayName"@))) {
        Some(item) => Some(EquipmentSlotView {
            slot: slot_of_name(text_or(first_some(string_attr(node, "Slot"@), string_attr(node, "SlotName"@)), "Other"@)),
            item_name: item,
            template_id: text_or(first_some(string_attr(node, "TemplateName"@),
                first_some(uuid_attr(node, "MapKey"@), uuid_attr(node, "TemplateID"@))), Seq::empty()),
        }),
        None => None,
    }
}

/// The items described by the nodes at `idxs`.
pub open spec fn leaf_slots(arena: RegionArena, idxs: Seq<usize>) -> Seq<EquipmentSlotView>
    decreases idxs.len(),
{
    if idxs.len() == 0 {
        Seq::empty()
    } else {
        leaf_slots(arena, idxs.drop_last()) + match arena.node_at(idxs.last() as int) {
            Some(n) => opt_seq(equipment_slot_of(n)),
            None => Seq::empty(),
        }
    }
}

/// The items described by the nodes of each child list, list after list.
pub open spec fn child_list_slots(arena: RegionArena, lists: Seq<(String, Vec<usize>)>) -> Seq<EquipmentSlotView>
    decreases lists.len(),
{
    if lists.len() == 0 {
        Seq::empty()
    } else {
        child_list_slots(arena, lists.drop_last()) + leaf_slots(arena, lists.last().1@)
    }
}

/// For each equipment container at `idxs`: the item it describes itself, then
/// the items described by its children.
pub open spec fn container_slots(arena: RegionArena, idxs: Seq<usize>) -> Seq<EquipmentSlotView>
    decreases idxs.len(),
{
    if idxs.len() == 0 {
        Seq::empty()
    } else {
        container_slots(arena, idxs.drop_last()) + match arena.node_at(idxs.last() as int) {
            Some(n) => opt_seq(equipment_slot_of(n)) + child_list_slots(arena, n.children@),
            None => Seq::empty(),
        }
    }
}

/// The items under the child list `key` of a character node.
pub open spec fn keyed_slots(arena: RegionArena, node: Node, key: Seq<char>) -> Seq<EquipmentSlotView> {
    match lookup(node.children@, key) {
        Some(idxs) => container_slots(arena, idxs@),
        None => Seq::empty(),
    }
}

/// The equipment of a character node, from its `Equipment`, `EquippedItems`
/// and `Equipments` child lists in that order.
pub open spec fn equipment_of(arena: RegionArena, node: Node) -> Seq<EquipmentSlotView> {
    keyed_slots(arena, node, "Equipment"@) + keyed_slots(arena, node, "EquippedItems"@)
        + keyed_slots(arena, node, "Equipments"@)
}

/// The character a node describes, if it has a non-empty name.
pub open spec fn character_of(arena: RegionArena, node: Node) -> Option<CharacterView> {
    match character_name_of(node) {
        Some(name) => if name.len() == 0 {
            None
        } else {
            Some(CharacterView {
                name: name,
                class: text_or(first_some(string_attr(node, "ClassId"@), string_attr(node, "Class"@)), "Unknown"@),
                level: level_of(node),
                race: text_or(first_some(string_attr(node, "Race"@), string_attr(node, "RaceId"@)), "Unknown"@),
                abilities: abilities_of(arena, node),
                hp: hp_of(node),
                equipment: equipment_of(arena, node),
                is_player: is_player_of(node),
            })
        },
        None => None,
    }
}

/// Nodes named `Character` or `PlayerCustomData` (or, for `members`,
/// `PartyMember` or `PartyMembers`) are candidates.
pub open spec fn is_candidate(node: Node, members: bool) -> bool {
    if members {
        node.name@ == "PartyMember"@ || node.name@ == "PartyMembers"@
    } else {
        node.name@ == "Character"@ || node.name@ == "PlayerCustomData"@
    }
}

/// The characters described by the candidate nodes among `nodes`, in order.
pub open spec fn characters_among(arena: RegionArena, nodes: Seq<Node>, members: bool) -> Seq<CharacterView>
    decreases nodes.len(),
{
    if nodes.len() == 0 {
        Seq::empty()
    } else {
        characters_among(arena, nodes.drop_last(), members) + if is_candidate(nodes.last(), members) {
            opt_seq(character_of(arena, nodes.last()))
        } else {
            Seq::empty()
        }
    }
}

/// The characters of the tree: those of the character nodes, or, when there
/// are none, those of the party-member nodes.
pub open spec fn characters_of(arena: RegionArena) -> Seq<CharacterView> {
    let first = characters_among(arena, arena.node_instances@, false);
    if first.len() > 0 {
        first
    } else {
        characters_among(arena, arena.node_instances@, true)
    }
}

/// The gold of the first node among `nodes` that holds gold.
pub open spec fn first_gold(nodes: Seq<Node>) -> Option<u64>
    decreases nodes.len(),
{
    if nodes.len() == 0 {
        None
    } else {
        first_some(node_gold(nodes[0]), first_gold(nodes.drop_first()))
    }
}

/// The day of the first node among `nodes` that holds a day.
pub open spec fn first_day(nodes: Seq<Node>) -> Option<u32>
    decreases nodes.len(),
{
    if nodes.len() == 0 {
        None
    } else {
        first_some(node_day(nodes[0]), first_day(nodes.drop_first()))
    }
}

/// The location of the first node among `nodes` that holds a location.
pub open spec fn first_location(nodes: Seq<Node>) -> Option<Seq<char>>
    decreases nodes.len(),
{
    if nodes.len() == 0 {
        None
    } else {
        first_some(node_location(nodes[0]), first_location(nodes.drop_first()))
    }
}

/// Gold held by a `PartyInfo` or `Party` node (`Gold` as 64-bit, else 32-bit).
pub open spec fn node_gold(n: Node) -> Option<u64> {
    if n.name@ == "PartyInfo"@ || n.name@ == "Party"@ {
        first_some(uint64_attr(n, "Gold"@), match uint_attr(n, "Gold"@) {
            Some(v) => Some(v as u64),
            None => None,
        })
    } else {
        None
    }
}

/// The in-game day held by a node (`GameDay`, else `Day`).
pub open spec fn node_day(n: Node) -> Option<u32> {
    first_some(uint_attr(n, "GameDay"@), uint_attr(n, "Day"@))
}

/// The location held by a node (`LevelName`, else `CurrentLevel`).
pub open spec fn node_location(n: Node) -> Option<Seq<char>> {
    first_some(string_attr(n, "LevelName"@), string_attr(n, "CurrentLevel"@))
}

/// The party data of a resource.
pub open spec fn party_of(arena: RegionArena) -> PartyDataView {
    PartyDataView {
        characters: characters_of(arena),
        gold: first_gold(arena.node_instances@),
        day: first_day(arena.node_instances@),
        location: first_location(arena.node_instances@),
    }
}

// ---------------------------------------------------------------------------
// The extraction
// ---------------------------------------------------------------------------

/// The view of an optional string.
pub open spec fn text_view(o: Option<String>) -> Option<Seq<char>> {
    match o {
        Some(s) => Some(s@),
        None => None,
    }
}

fn character_name(node: &Node) -> (r: Option<String>)
    ensures
        text_view(r) == character_name_of(*node),
{
    let mut name = get_string_attr(node, "Name");
    if name.is_none() {
        name = get_translated_string_attr(node, "Name");
    }
    if name.is_none() {
        name = get_string_attr(node, "CustomName");
    }
    if name.is_none() {
        name = get_translated_string_attr(node, "CustomName");
    }
    if name.is_none() {
        name = get_string_attr(node, "DisplayName");
    }
    if name.is_none() {
        name = get_translated_string_attr(node, "DisplayName");
    }
    name
}

/// The first of two string attributes present, else `default`.
fn string_attr_or(node: &Node, first: &str, second: &str, default: &str) -> (r: String)
    ensures
        r@ == text_or(first_some(string_attr(*node, first@), string_attr(*node, second@)), default@),
{
    match get_string_attr(node, first) {
        Some(s) => s,
        None => match get_string_attr(node, second) {
            Some(s) => s,
            None => String::from_str(default),
        },
    }
}

/// An unsigned attribute, else the signed attribute of that name reinterpreted.
fn count_attr(node: &Node, name: &str) -> (r: Option<u32>)
    ensures
        r == first_some(uint_attr(*node, name@), as_u32(int_attr(*node, name@))),
{
    match get_uint_attr(node, name) {
        Some(v) => Some(v),
        None => match get_int_attr(node, name) {
            Some(v) => Some(v as u32),
            None => None,
        },
    }
}

fn is_player(node: &Node) -> (r: bool)
    ensures
        r == is_player_of(*node),
{
    let flag = match get_bool_attr(node, "IsPlayer") {
        Some(b) => b,
        None => false,
    };
    if flag {
        return true;
    }
    match get_string_attr(node, "IsPlayer") {
        Some(s) => str_eq(s.as_str(), "True") || str_eq(s.as_str(), "1"),
        None => false,
    }
}

fn uint_or_zero(node: &Node, name: &str) -> (r: u32)
    ensures
        r == u32_or(uint_attr(*node, name@), 0),
{
    match get_uint_attr(node, name) {
        Some(v) => v,
        None => 0,
    }
}

fn set_ability(scores: &mut AbilityScores, id: &str, val: u32)
    ensures
        *final(scores) == with_ability(*old(scores), id@, val),
{
    if str_eq(id, "Strength") {
        scores.strength = val;
    } else if str_eq(id, "Dexterity") {
        scores.dexterity = val;
    } else if str_eq(id, "Constitution") {
        scores.constitution = val;
    } else if str_eq(id, "Intelligence") {
        scores.intelligence = val;
    } else if str_eq(id, "Wisdom") {
        scores.wisdom = val;
    } else if str_eq(id, "Charisma") {
        scores.charisma = val;
    }
}

/// Extract ability scores from a character node or its children.
fn extract_abilities(arena: &RegionArena, node: &Node) -> (r: AbilityScores)
    ensures
        r == abilities_of(*arena, *node),
{
    let mut scores = AbilityScores {
        strength: uint_or_zero(node, "Strength"),
        dexterity: uint_or_zero(node, "Dexterity"),
        constitution: uint_or_zero(node, "Constitution"),
        intelligence: uint_or_zero(node, "Intelligence"),
        wisdom: uint_or_zero(node, "Wisdom"),
        charisma: uint_or_zero(node, "Charisma"),
    };
    proof {
        lemma_key_index(node.children@, "Abilities"@, 0);
    }
    match find_key(&node.children, "Abilities") {
        Some(k) => {
            let ability_indices = &node.children[k].1;
            let ghost base = scores;
            let mut i: usize = 0;
            while i < ability_indices.len()
                invariant
                    i <= ability_indices.len(),
                    scores == fold_abilities(*arena, base, ability_indices@.subrange(0, i as int)),
                decreases ability_indices.len() - i,
            {
                let idx = ability_indices[i];
                assert(ability_indices@.subrange(0, i + 1).drop_last() =~= ability_indices@.subrange(0, i as int));
                if let Some(ability_node) = arena.get_node(idx) {
                    let id = match get_string_attr(ability_node, "Id") {
                        Some(s) => Some(s),
                        None => get_string_attr(ability_node, "Name"),
                    };
                    let val = match get_uint_attr(ability_node, "Value") {
                        Some(v) => Some(v),
                        None => get_uint_attr(ability_node, "Base"),
                    };
                    if let (Some(id), Some(val)) = (id, val) {
                        set_ability(&mut scores, id.as_str(), val);
                    }
                }
                i = i + 1;
            }
            assert(ability_indices@.subrange(0, ability_indices@.len() as int) =~= ability_indices@);
        },
        None => {},
    }
    scores
}

/// Extract HP from a character node.
fn extract_hp(node: &Node) -> (r: Option<(u32, u32)>)
    ensures
        r == hp_of(*node),
{
    let current = match count_attr(node, "CurrentHP") {
        Some(c) => c,
        None => {
            return None;
        },
    };
    let max = match count_attr(node, "MaxHP") {
        Some(m) => m,
        None => current,
    };
    Some((current, max))
}

/// The view of an optional item.
pub open spec fn slot_view(o: Option<EquipmentSlot>) -> Option<EquipmentSlotView> {
    match o {
        Some(e) => Some(e@),
        None => None,
    }
}

fn slot_from_name(name: String) -> (r: SlotType)
    ensures
        r@ == slot_of_name(name@),
{
    let s = name.as_str();
    if str_eq(s, "Helmet") || str_eq(s, "Head") {
        SlotType::Head
    } else if str_eq(s, "Breast") || str_eq(s, "Chest") || str_eq(s, "Body") {
        SlotType::Chest
    } else if str_eq(s, "Gloves") || str_eq(s, "Hands") {
        SlotType::Hands
    } else if str_eq(s, "Boots") || str_eq(s, "Feet") {
        SlotType::Feet
    } else if str_eq(s, "Melee Main Weapon") || str_eq(s, "MainHand") {
        SlotType::MainHand
    } else if str_eq(s, "Melee Off-Hand Weapon") || str_eq(s, "OffHand") {
        SlotType::OffHand
    } else if str_eq(s, "Amulet") {
        SlotType::Amulet
    } else if str_eq(s, "Ring") || str_eq(s, "Ring1") {
        SlotType::Ring1
    } else if str_eq(s, "Ring2") {
        SlotType::Ring2
    } else if str_eq(s, "Cloak") {
        SlotType::Cloak
    } else if str_eq(s, "Ranged Main Weapon") || str_eq(s, "Ranged") {
        SlotType::Ranged
    } else {
        SlotType::Other(name)
    }
}

fn try_extract_equipment_slot(node: &Node) -> (r: Option<EquipmentSlot>)
    ensures
        slot_view(r) == equipment_slot_of(*node),
{
    let item_name = match get_string_attr(node, "Name") {
        Some(s) => s,
        None => match get_string_attr(node, "ItemName") {
            Some(s) => s,
            None => match get_translated_string_attr(node, "DisplayName") {
                Some(s) => s,
                None => {
                    return None;
                },
            },
        },
    };
    let slot_name = string_attr_or(node, "Slot", "SlotName", "Other");
    let template_id = match get_string_attr(node, "TemplateName") {
        Some(s) => s,
        None => match get_uuid_attr(node, "MapKey") {
            Some(s) => s,
            None => match get_uuid_attr(node, "TemplateID") {
                Some(s) => s,
                None => String::new(),
            },
        },
    };
    let slot = slot_from_name(slot_name);
    Some(EquipmentSlot { slot, item_name, template_id })
}

/// Appends the item a node describes, if any.
fn push_slot_of(node: &Node, out: &mut Vec<EquipmentSlot>)
    ensures
        equipment_view(final(out)@) == equipment_view(old(out)@) + opt_seq(equipment_slot_of(*node)),
{
    let ghost before = equipment_view(out@);
    if let Some(slot) = try_extract_equipment_slot(node) {
        out.push(slot);
        assert(equipment_view(out@) =~= before + opt_seq(equipment_slot_of(*node)));
    } else {
        assert(equipment_view(out@) =~= before + opt_seq(equipment_slot_of(*node)));
    }
}

/// Appends the items described by the nodes at `idxs`.
fn push_leaf_slots(arena: &RegionArena, idxs: &Vec<usize>, out: &mut Vec<EquipmentSlot>)
    ensures
        equipment_view(final(out)@) == equipment_view(old(out)@) + leaf_slots(*arena, idxs@),
{
    let mut i: usize = 0;
    while i < idxs.len()
        invariant
            i <= idxs.len(),
            equipment_view(out@) == equipment_view(old(out)@) + leaf_slots(*arena, idxs@.subrange(0, i as int)),
        decreases idxs.len() - i,
    {
        assert(idxs@.subrange(0, i + 1).drop_last() =~= idxs@.subrange(0, i as int));
        let ghost prev = equipment_view(out@);
        if let Some(child) = arena.get_node(idxs[i]) {
            push_slot_of(child, out);
        }
        assert(equipment_view(out@) =~= equipment_view(old(out)@) + leaf_slots(*arena, idxs@.subrange(0, i + 1)));
        i = i + 1;
    }
    assert(idxs@.subrange(0, idxs@.len() as int) =~= idxs@);
}

/// Appends the items described by the children of an equipment container.
fn push_child_list_slots(arena: &RegionArena, lists: &Vec<(String, Vec<usize>)>, out: &mut Vec<EquipmentSlot>)
    ensures
        equipment_view(final(out)@) == equipment_view(old(out)@) + child_list_slots(*arena, lists@),
{
    let mut i: usize = 0;
    while i < lists.len()
        invariant
            i <= lists.len(),
            equipment_view(out@) == equipment_view(old(out)@) + child_list_slots(*arena, lists@.subrange(0, i as int)),
        decreases lists.len() - i,
    {
        assert(lists@.subrange(0, i + 1).drop_last() =~= lists@.subrange(0, i as int));
        push_leaf_slots(arena, &lists[i].1, out);
        assert(equipment_view(out@) =~= equipment_view(old(out)@) + child_list_slots(*arena, lists@.subrange(0, i + 1)));
        i = i + 1;
    }
    assert(lists@.subrange(0, lists@.len() as int) =~= lists@);
}

/// Appends the items under the equipment containers at `idxs`.
fn push_container_slots(arena: &RegionArena, idxs: &Vec<usize>, out: &mut Vec<EquipmentSlot>)
    ensures
        equipment_view(final(out)@) == equipment_view(old(out)@) + container_slots(*arena, idxs@),
{
    let mut i: usize = 0;
    while i < idxs.len()
        invariant
            i <= idxs.len(),
            equipment_view(out@) == equipment_view(old(out)@) + container_slots(*arena, idxs@.subrange(0, i as int)),
        decreases idxs.len() - i,
    {
        assert(idxs@.subrange(0, i + 1).drop_last() =~= idxs@.subrange(0, i as int));
        if let Some(equip_node) = arena.get_node(idxs[i]) {
            push_slot_of(equip_node, out);
            push_child_list_slots(arena, &equip_node.children, out);
        }
        assert(equipment_view(out@) =~= equipment_view(old(out)@) + container_slots(*arena, idxs@.subrange(0, i + 1)));
        i = i + 1;
    }
    assert(idxs@.subrange(0, idxs@.len() as int) =~= idxs@);
}

/// Appends the items under the child list `key` of a character node.
fn push_keyed_slots(arena: &RegionArena, node: &Node, key: &str, out: &mut Vec<EquipmentSlot>)
    ensures
        equipment_view(final(out)@) == equipment_view(old(out)@) + keyed_slots(*arena, *node, key@),
{
    proof {
        lemma_key_index(node.children@, key@, 0);
    }
    match find_key(&node.children, key) {
        Some(k) => push_container_slots(arena, &node.children[k].1, out),
        None => {
            assert(equipment_view(out@) =~= equipment_view(old(out)@) + keyed_slots(*arena, *node, key@));
        },
    }
}

/// Extract equipment from a character node's children.
fn extract_equipment(arena: &RegionArena, node: &Node) -> (r: Vec<EquipmentSlot>)
    ensures
        equipment_view(r@) == equipment_of(*arena, *node),
{
    let mut equipment: Vec<EquipmentSlot> = Vec::new();
    assert(equipment_view(equipment@) =~= Seq::empty());
    push_keyed_slots(arena, node, "Equipment", &mut equipment);
    push_keyed_slots(arena, node, "EquippedItems", &mut equipment);
    push_keyed_slots(arena, node, "Equipments", &mut equipment);
    assert(equipment_view(equipment@) =~= equipment_of(*arena, *node));
    equipment
}

/// The view of an optional character.
pub open spec fn character_view(o: Option<Character>) -> Option<CharacterView> {
    match o {
        Some(c) => Some(c@),
        None => None,
    }
}

/// Try to extract a Character from a node that might contain character data.
fn try_extract_character(arena: &RegionArena, node: &Node) -> (r: Option<Character>)
    ensures
        character_view(r) == character_of(*arena, *node),
{
    let name = match character_name(node) {
        Some(n) => n,
        None => {
            return None;
        },
    };
    if name.as_str().is_empty() {
        return None;
    }
    let class = string_attr_or(node, "ClassId", "Class", "Unknown");
    let level = match count_attr(node, "Level") {
        Some(v) => v,
        None => 0,
    };
    let race = string_attr_or(node, "Race", "RaceId", "Unknown");
    let is_player = is_player(node);
    let abilities = extract_abilities(arena, node);
    let hp = extract_hp(node);
    let equipment = extract_equipment(arena, node);
    Some(Character { name, class, level, race, abilities, hp, equipment, is_player })
}

fn is_candidate_node(node: &Node, members: bool) -> (r: bool)
    ensures
        r == is_candidate(*node, members),
{
    let name = node.name.as_str();
    if members {
        str_eq(name, "PartyMember") || str_eq(name, "PartyMembers")
    } else {
        str_eq(name, "Character") || str_eq(name, "PlayerCustomData")
    }
}

fn characters_from(arena: &RegionArena, members: bool) -> (r: Vec<Character>)
    ensures
        characters_view(r@) == characters_among(*arena, arena.node_instances@, members),
{
    let nodes = &arena.node_instances;
    let mut characters: Vec<Character> = Vec::new();
    let mut i: usize = 0;
    while i < nodes.len()
        invariant
            i <= nodes.len(),
            nodes == &arena.node_instances,
            characters_view(characters@) == characters_among(*arena, nodes@.subrange(0, i as int), members),
        decreases nodes.len() - i,
    {
        assert(nodes@.subrange(0, i + 1).drop_last() =~= nodes@.subrange(0, i as int));
        let node = &nodes[i];
        let ghost prev = characters_view(characters@);
        if is_candidate_node(node, members) {
            if let Some(c) = try_extract_character(arena, node) {
                characters.push(c);
            }
        }
        assert(characters_view(characters@) =~= characters_among(*arena, nodes@.subrange(0, i + 1), members));
        i = i + 1;
    }
    assert(nodes@.subrange(0, nodes@.len() as int) =~= nodes@);
    characters
}

/// Extract character data from the globals LSF tree.
fn extract_characters(arena: &RegionArena) -> (r: Vec<Character>)
    ensures
        characters_view(r@) == characters_of(*arena),
{
    let characters = characters_from(arena, false);
    if characters.len() == 0 {
        characters_from(arena, true)
    } else {
        characters
    }
}

fn gold_of(n: &Node) -> (r: Option<u64>)
    ensures
        r == node_gold(*n),
{
    let name = n.name.as_str();
    if str_eq(name, "PartyInfo") || str_eq(name, "Party") {
        if let Some(gold) = get_uint64_attr(n, "Gold") {
            return Some(gold);
        }
        if let Some(gold) = get_uint_attr(n, "Gold") {
            return Some(gold as u64);
        }
    }
    None
}

/// Attempt to extract gold amount from the globals tree.
fn extract_gold(arena: &RegionArena) -> (r: Option<u64>)
    ensures
        r == first_gold(arena.node_instances@),
{
    let nodes = &arena.node_instances;
    let mut i: usize = 0;
    assert(nodes@.skip(0) =~= nodes@);
    while i < nodes.len()
        invariant
            i <= nodes.len(),
            nodes@ == arena.node_instances@,
            first_gold(nodes@) == first_gold(nodes@.skip(i as int)),
        decreases nodes.len() - i,
    {
        assert(nodes@.skip(i as int).drop_first() =~= nodes@.skip(i + 1));
        assert(nodes@.skip(i as int)[0] == nodes@[i as int]);
        if let Some(g) = gold_of(&nodes[i]) {
            return Some(g);
        }
        i = i + 1;
    }
    None
}

/// Attempt to extract in-game day.
fn extract_day(arena: &RegionArena) -> (r: Option<u32>)
    ensures
        r == first_day(arena.node_instances@),
{
    let nodes = &arena.node_instances;
    let mut i: usize = 0;
    assert(nodes@.skip(0) =~= nodes@);
    while i < nodes.len()
        invariant
            i <= nodes.len(),
            nodes@ == arena.node_instances@,
            first_day(nodes@) == first_day(nodes@.skip(i as int)),
        decreases nodes.len() - i,
    {
        assert(nodes@.skip(i as int).drop_first() =~= nodes@.skip(i + 1));
        assert(nodes@.skip(i as int)[0] == nodes@[i as int]);
        if let Some(day) = get_uint_attr(&nodes[i], "GameDay") {
            return Some(day);
        }
        if let Some(day) = get_uint_attr(&nodes[i], "Day") {
            return Some(day);
        }
        i = i + 1;
    }
    None
}

/// Attempt to extract current location name.
fn extract_location(arena: &RegionArena) -> (r: Option<String>)
    ensures
        text_view(r) == first_location(arena.node_instances@),
{
    let nodes = &arena.node_instances;
    let mut i: usize = 0;
    assert(nodes@.skip(0) =~= nodes@);
    while i < nodes.len()
        invariant
            i <= nodes.len(),
            nodes@ == arena.node_instances@,
            first_location(nodes@) == first_location(nodes@.skip(i as int)),
        decreases nodes.len() - i,
    {
        assert(nodes@.skip(i as int).drop_first() =~= nodes@.skip(i + 1));
        assert(nodes@.skip(i as int)[0] == nodes@[i as int]);
        if let Some(loc) = get_string_attr(&nodes[i], "LevelName") {
            return Some(loc);
        }
        if let Some(loc) = get_string_attr(&nodes[i], "CurrentLevel") {
            return Some(loc);
        }
        i = i + 1;
    }
    None
}

/// Extract party data from a parsed globals.lsf resource. Every node named
/// `Character` or `PlayerCustomData` that has a non-empty name yields a party
/// member (or, when there is none, every such `PartyMember`/`PartyMembers`
/// node); gold, day and location come from the first node that holds them.
/// The extraction does not fail.
pub fn extract_party(resource: &Resource) -> (r: Result<PartyData, String>)
    ensures
        r matches Ok(p) && p@ == party_of(resource.regions),
{
    let arena = &resource.regions;
    let characters = extract_characters(arena);
    Ok(PartyData {
        characters,
        gold: extract_gold(arena),
        day: extract_day(arena),
        location: extract_location(arena),
    })
}

// ---------------------------------------------------------------------------
// Laws
// ---------------------------------------------------------------------------

/// Every party member taken from candidate nodes has a non-empty name.
proof fn lemma_characters_among_named(arena: RegionArena, nodes: Seq<Node>, members: bool)
    ensures
        forall|i: int| 0 <= i < characters_among(arena, nodes, members).len()
            ==> #[trigger] characters_among(arena, nodes, members)[i].name.len() > 0,
    decreases nodes.len(),
{
    if nodes.len() > 0 {
        lemma_characters_among_named(arena, nodes.drop_last(), members);
        let prev = characters_among(arena, nodes.drop_last(), members);
        let all = characters_among(arena, nodes, members);
        assert forall|i: int| 0 <= i < all.len() implies #[trigger] all[i].name.len() > 0 by {
            if i < prev.len() {
                assert(all[i] == prev[i]);
            }
        }
    }
}

/// Every extracted party member has a non-empty name.
pub proof fn law_extracted_characters_are_named(arena: RegionArena)
    ensures
        forall|i: int| 0 <= i < characters_of(arena).len() ==> #[trigger] characters_of(arena)[i].name.len() > 0,
{
    lemma_characters_among_named(arena, arena.node_instances@, false);
    lemma_characters_among_named(arena, arena.node_instances@, true);
}

/// Without a maximum, a character's maximum hit points are its current ones.
pub proof fn law_max_hp_defaults_to_current(node: Node)
    requires
        uint_attr(node, "MaxHP"@) is None,
        int_attr(node, "MaxHP"@) is None,
    ensures
        hp_of(node) matches Some((cur, max)) ==> max == cur,
{
}

/// One of the six ability names.
pub open spec fn is_ability_name(name: Seq<char>) -> bool {
    ||| name == "Strength"@
    ||| name == "Dexterity"@
    ||| name == "Constitution"@
    ||| name == "Intelligence"@
    ||| name == "Wisdom"@
    ||| name == "Charisma"@
}

/// The score of `a` for an ability name (used in the proofs below).
spec fn score_for(a: AbilityScores, name: Seq<char>) -> u32 {
    if name == "Strength"@ {
        a.strength
    } else if name == "Dexterity"@ {
        a.dexterity
    } else if name == "Constitution"@ {
        a.constitution
    } else if name == "Intelligence"@ {
        a.intelligence
    } else if name == "Wisdom"@ {
        a.wisdom
    } else {
        a.charisma
    }
}

proof fn lemma_ability_names_distinct()
    ensures
        "Strength"@ != "Dexterity"@, "Strength"@ != "Constitution"@, "Strength"@ != "Intelligence"@,
        "Strength"@ != "Wisdom"@, "Strength"@ != "Charisma"@, "Dexterity"@ != "Constitution"@,
        "Dexterity"@ != "Intelligence"@, "Dexterity"@ != "Wisdom"@, "Dexterity"@ != "Charisma"@,
        "Constitution"@ != "Intelligence"@, "Constitution"@ != "Wisdom"@, "Constitution"@ != "Charisma"@,
        "Intelligence"@ != "Wisdom"@, "Intelligence"@ != "Charisma"@, "Wisdom"@ != "Charisma"@,
{
    reveal_strlit("Strength");
    reveal_strlit("Dexterity");
    reveal_strlit("Constitution");
    reveal_strlit("Intelligence");
    reveal_strlit("Wisdom");
    reveal_strlit("Charisma");
    assert("Strength"@[0] != "Dexterity"@[0]);
    assert("Strength"@[0] != "Constitution"@[0]);
    assert("Strength"@[0] != "Intelligence"@[0]);
    assert("Strength"@[0] != "Wisdom"@[0]);
    assert("Strength"@[0] != "Charisma"@[0]);
    assert("Dexterity"@[0] != "Constitution"@[0]);
    assert("Dexterity"@[0] != "Intelligence"@[0]);
    assert("Dexterity"@[0] != "Wisdom"@[0]);
    assert("Dexterity"@[0] != "Charisma"@[0]);
    assert("Constitution"@[0] != "Intelligence"@[0]);
    assert("Constitution"@[0] != "Wisdom"@[0]);
    assert("Constitution"@[1] != "Charisma"@[1]);
    assert("Intelligence"@[0] != "Wisdom"@[0]);
    assert("Intelligence"@[0] != "Charisma"@[0]);
    assert("Wisdom"@[0] != "Charisma"@[0]);
}

/// Past the entry at `k`, the entries of the list leave the score named `name` at `v`.
proof fn lemma_fold_keeps_score(arena: RegionArena, s: AbilityScores, idxs: Seq<usize>, k: int, name: Seq<char>, v: u32, n: int)
    requires
        is_ability_name(name),
        0 <= k < n <= idxs.len(),
        score_for(fold_abilities(arena, s, idxs.take(k + 1)), name) == v,
        forall|j: int| k < j < idxs.len() ==> (#[trigger] ability_entry(arena, idxs[j]) matches Some((id, w)) ==> id != name),
    ensures
        score_for(fold_abilities(arena, s, idxs.take(n)), name) == v,
    decreases n - k,
{
    lemma_ability_names_distinct();
    if n > k + 1 {
        lemma_fold_keeps_score(arena, s, idxs, k, name, v, n - 1);
        assert(idxs.take(n).drop_last() =~= idxs.take(n - 1));
        assert(idxs.take(n).last() == idxs[n - 1]);
        let _ = ability_entry(arena, idxs[n - 1]);
    }
}

/// An entry of a character's `Abilities` list sets the score it names: when the
/// entry at `k` is named (`Id`, else `Name`) after one of the six abilities and
/// holds a score (`Value`, else `Base`), and no later entry names the same
/// ability, the extracted character has that score for that ability.
pub proof fn law_ability_entry_sets_score(arena: RegionArena, node: Node, idxs: Seq<usize>, k: int, name: Seq<char>, v: u32)
    requires
        lookup(node.children@, "Abilities"@) matches Some(l) && l@ == idxs,
        0 <= k < idxs.len(),
        arena.node_at(idxs[k] as int) matches Some(n) && first_some(string_attr(n, "Id"@), string_attr(n, "Name"@))
            == Some(name) && first_some(uint_attr(n, "Value"@), uint_attr(n, "Base"@)) == Some(v),
        forall|j: int| k < j < idxs.len() ==> (arena.node_at(#[trigger] idxs[j] as int) matches Some(m)
            ==> first_some(string_attr(m, "Id"@), string_attr(m, "Name"@)) != Some(name)),
        name == "Strength"@ || name == "Dexterity"@ || name == "Constitution"@ || name == "Intelligence"@
            || name == "Wisdom"@ || name == "Charisma"@,
    ensures
        name == "Strength"@ ==> abilities_of(arena, node).strength == v,
        name == "Dexterity"@ ==> abilities_of(arena, node).dexterity == v,
        name == "Constitution"@ ==> abilities_of(arena, node).constitution == v,
        name == "Intelligence"@ ==> abilities_of(arena, node).intelligence == v,
        name == "Wisdom"@ ==> abilities_of(arena, node).wisdom == v,
        name == "Charisma"@ ==> abilities_of(arena, node).charisma == v,
        character_of(arena, node) matches Some(c) ==> c.abilities == abilities_of(arena, node),
{
    lemma_ability_names_distinct();
    let s0 = direct_abilities(node);
    assert(idxs.take(k + 1).drop_last() =~= idxs.take(k));
    assert(idxs.take(k + 1).last() == idxs[k]);
    assert(ability_entry(arena, idxs[k]) == Some((name, v)));
    assert(score_for(fold_abilities(arena, s0, idxs.take(k + 1)), name) == v);
    assert forall|j: int| k < j < idxs.len() implies (#[trigger] ability_entry(arena, idxs[j]) matches Some((id, w)) ==> id != name) by {
        let _ = arena.node_at(idxs[j] as int);
    }
    lemma_fold_keeps_score(arena, s0, idxs, k, name, v, idxs.len() as int);
    assert(idxs.take(idxs.len() as int) =~= idxs);
}

} // verus!
