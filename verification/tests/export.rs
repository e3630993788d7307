use bg3_save::export::to_markdown;
use bg3_save::models::{AbilityScores, Character, EquipmentSlot, PartyData, SaveInfo, SlotType};

fn save(honour: bool) -> SaveInfo {
    SaveInfo {
        path: "/saves/x.lsv".to_string(),
        character_name: "Tav".to_string(),
        save_name: "Quick".to_string(),
        timestamp: 0,
        is_honour_mode: honour,
    }
}

fn character(name: &str, player: bool) -> Character {
    Character {
        name: name.to_string(),
        class: "Wizard".to_string(),
        level: 5,
        race: "Elf".to_string(),
        abilities: AbilityScores::default(),
        hp: None,
        equipment: vec![],
        is_player: player,
    }
}

#[test]
fn markdown_of_an_empty_party() {
    let party = PartyData { characters: vec![], gold: None, day: None, location: None };
    assert_eq!(
        to_markdown(&save(false), &party),
        "# BG3 Save: Quick\n\n- **Player**: Tav\n- **Mode**: Normal\n\n## Party Members\n\n"
    );
}

#[test]
fn markdown_of_a_full_party() {
    let mut tav = character("Tav", true);
    tav.hp = Some((20, 31));
    tav.abilities = AbilityScores { strength: 8, dexterity: 14, constitution: 12, intelligence: 17, wisdom: 10, charisma: 9 };
    tav.equipment = vec![
        EquipmentSlot { slot: SlotType::MainHand, item_name: "Staff".to_string(), template_id: "t".to_string() },
        EquipmentSlot { slot: SlotType::Other("Odd \"one\"".to_string()), item_name: "Sock".to_string(), template_id: String::new() },
    ];
    let gale = character("Gale", false);
    let party = PartyData {
        characters: vec![tav, gale],
        gold: Some(1234),
        day: Some(7),
        location: Some("WLD_Main_A".to_string()),
    };
    let expected = [
        "# BG3 Save: Quick\n\n",
        "- **Player**: Tav\n",
        "- **Mode**: Honour Mode\n",
        "- **Location**: WLD_Main_A\n",
        "- **Gold**: 1234\n",
        "- **Day**: 7\n",
        "\n## Party Members\n\n",
        "### Tav (Player)\n",
        "- **Class**: Wizard | **Level**: 5 | **Race**: Elf\n",
        "- **HP**: 20/31\n",
        "- **Stats**: STR 8 | DEX 14 | CON 12 | INT 17 | WIS 10 | CHA 9\n",
        "- **Equipment**:\n",
        "  - MainHand: Staff\n",
        "  - Other(\"Odd \\\"one\\\"\"): Sock\n",
        "\n",
        "### Gale \n",
        "- **Class**: Wizard | **Level**: 5 | **Race**: Elf\n",
        "\n",
    ]
    .concat();
    assert_eq!(to_markdown(&save(true), &party), expected);
}

#[test]
fn stats_line_needs_strength_or_dexterity() {
    let mut c = character("Lae'zel", false);
    c.abilities = AbilityScores { strength: 0, dexterity: 0, constitution: 15, intelligence: 0, wisdom: 0, charisma: 0 };
    let party = PartyData { characters: vec![c], gold: None, day: None, location: None };
    let md = to_markdown(&save(false), &party);
    assert!(!md.contains("**Stats**"));
    let mut c = character("Lae'zel", false);
    c.abilities.dexterity = 1;
    let party = PartyData { characters: vec![c], gold: None, day: None, location: None };
    let md = to_markdown(&save(false), &party);
    assert!(md.contains("- **Stats**: STR 0 | DEX 1 | CON 0 | INT 0 | WIS 0 | CHA 0\n"));
}
