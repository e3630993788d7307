//! The save data that the library extracts and reports: save summaries,
//! party members, ability scores and equipment, each with a mathematical view.
use vstd::prelude::*;

verus! {

/// Summary of one save file.
#[derive(Debug, Clone, PartialEq, Eq)]
pub struct SaveInfo {
    /// Location of the `.lsv` file.
    pub path: String,
    pub character_name: String,
    pub save_name: String,
    /// Modification time of the file, in nanoseconds since the Unix epoch
    /// (0 where the file system gave none).
    pub timestamp: u128,
    pub is_honour_mode: bool,
}

/// Party data found in a save.
#[derive(Debug, Clone, PartialEq, Eq)]
pub struct PartyData {
    pub characters: Vec<Character>,
    pub gold: Option<u64>,
    pub day: Option<u32>,
    pub location: Option<String>,
}

/// One party member.
#[derive(Debug, Clone, PartialEq, Eq)]
pub struct Character {
    pub name: String,
    pub class: String,
    pub level: u32,
    pub race: String,
    pub abilities: AbilityScores,
    /// Current and maximum hit points.
    pub hp: Option<(u32, u32)>,
    pub equipment: Vec<EquipmentSlot>,
    pub is_player: bool,
}

/// The six ability scores; 0 where a score is unknown.
#[derive(Debug, Clone, Copy, PartialEq, Eq)]
pub struct AbilityScores {
    pub strength: u32,
    pub dexterity: u32,
    pub constitution: u32,
    pub intelligence: u32,
    pub wisdom: u32,
    pub charisma: u32,
}

/// An equipped item.
#[derive(Debug, Clone, PartialEq, Eq)]
pub struct EquipmentSlot {
    pub slot: SlotType,
    pub item_name: String,
    pub template_id: String,
}

/// Where an item is worn.
#[derive(Debug, Clone, PartialEq, Eq)]
pub enum SlotType {
    Head,
    Chest,
    Hands,
    Feet,
    MainHand,
    OffHand,
    Amulet,
    Ring1,
    Ring2,
    Cloak,
    Ranged,
    Other(String),
}

impl AbilityScores {
    /// All six scores at 0.
    pub open spec fn zero() -> AbilityScores {
        AbilityScores {
            strength: 0,
            dexterity: 0,
            constitution: 0,
            intelligence: 0,
            wisdom: 0,
            charisma: 0,
        }
    }
}

impl Default for AbilityScores {
    fn default() -> (r: AbilityScores)
        ensures
            r == AbilityScores::zero(),
    {
        AbilityScores {
            strength: 0,
            dexterity: 0,
            constitution: 0,
            intelligence: 0,
            wisdom: 0,
            charisma: 0,
        }
    }
}

/// The mathematical value of a `SlotType`.
pub enum SlotTypeView {
    Head,
    Chest,
    Hands,
    Feet,
    MainHand,
    OffHand,
    Amulet,
    Ring1,
    Ring2,
    Cloak,
    Ranged,
    Other(Seq<char>),
}

/// The mathematical value of an `EquipmentSlot`.
pub struct EquipmentSlotView {
    pub slot: SlotTypeView,
    pub item_name: Seq<char>,
    pub template_id: Seq<char>,
}

/// The mathematical value of a `Character`.
pub struct CharacterView {
    pub name: Seq<char>,
    pub class: Seq<char>,
    pub level: u32,
    pub race: Seq<char>,
    pub abilities: AbilityScores,
    pub hp: Option<(u32, u32)>,
    pub equipment: Seq<EquipmentSlotView>,
    pub is_player: bool,
}

/// The mathematical value of a `PartyData`.
pub struct PartyDataView {
    pub characters: Seq<CharacterView>,
    pub gold: Option<u64>,
    pub day: Option<u32>,
    pub location: Option<Seq<char>>,
}

/// The mathematical value of a `SaveInfo`.
pub struct SaveInfoView {
    pub path: Seq<char>,
    pub character_name: Seq<char>,
    pub save_name: Seq<char>,
    pub timestamp: u128,
    pub is_honour_mode: bool,
}

impl View for SlotType {
    type V = SlotTypeView;

    open spec fn view(&self) -> SlotTypeView {
        match self {
            SlotType::Head => SlotTypeView::Head,
            SlotType::Chest => SlotTypeView::Chest,
            SlotType::Hands => SlotTypeView::Hands,
            SlotType::Feet => SlotTypeView::Feet,
            SlotType::MainHand => SlotTypeView::MainHand,
            SlotType::OffHand => SlotTypeView::OffHand,
            SlotType::Amulet => SlotTypeView::Amulet,
            SlotType::Ring1 => SlotTypeView::Ring1,
            SlotType::Ring2 => SlotTypeView::Ring2,
            SlotType::Cloak => SlotTypeView::Cloak,
            SlotType::Ranged => SlotTypeView::Ranged,
            SlotType::Other(s) => SlotTypeView::Other(s@),
        }
    }
}

impl View for EquipmentSlot {
    type V = EquipmentSlotView;

    open spec fn view(&self) -> EquipmentSlotView {
        EquipmentSlotView { slot: self.slot@, item_name: self.item_name@, template_id: self.template_id@ }
    }
}

/// The views of a sequence of equipment slots.
pub open spec fn equipment_view(s: Seq<EquipmentSlot>) -> Seq<EquipmentSlotView> {
    s.map_values(|e: EquipmentSlot| e@)
}

impl View for Character {
    type V = CharacterView;

    open spec fn view(&self) -> CharacterView {
        CharacterView {
            name: self.name@,
            class: self.class@,
            level: self.level,
            race: self.race@,
            abilities: self.abilities,
            hp: self.hp,
            equipment: equipment_view(self.equipment@),
            is_player: self.is_player,
        }
    }
}

/// The views of a sequence of characters.
pub open spec fn characters_view(s: Seq<Character>) -> Seq<CharacterView> {
    s.map_values(|c: Character| c@)
}

/// The view of an optional string.
pub open spec fn opt_text(o: Option<String>) -> Option<Seq<char>> {
    match o {
        Some(s) => Some(s@),
        None => None,
    }
}

impl View for PartyData {
    type V = PartyDataView;

    open spec fn view(&self) -> PartyDataView {
        PartyDataView {
            characters: characters_view(self.characters@),
            gold: self.gold,
            day: self.day,
            location: opt_text(self.location),
        }
    }
}

impl View for SaveInfo {
    type V = SaveInfoView;

    open spec fn view(&self) -> SaveInfoView {
        SaveInfoView {
            path: self.path@,
            character_name: self.character_name@,
            save_name: self.save_name@,
            timestamp: self.timestamp,
            is_honour_mode: self.is_honour_mode,
        }
    }
}

} // verus!
