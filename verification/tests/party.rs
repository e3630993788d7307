use bg3_save::lsf::{Node, NodeAttribute, NodeAttributeValue, NodeKind, RegionArena, Resource};
use bg3_save::models::{AbilityScores, SlotType};
use bg3_save::party::extract_party;

fn attr(name: &str, value: NodeAttributeValue) -> (String, NodeAttribute) {
    (name.to_string(), NodeAttribute { ty: "T".to_string(), value })
}

fn s(v: &str) -> NodeAttributeValue {
    NodeAttributeValue::String(v.to_string())
}

fn node(name: &str, attributes: Vec<(String, NodeAttribute)>, children: Vec<(String, Vec<usize>)>) -> Node {
    Node { name: name.to_string(), kind: NodeKind::Node, attributes, children }
}

fn resource(nodes: Vec<Node>) -> Resource {
    Resource { regions: RegionArena { node_instances: nodes, regions_indices: vec![] } }
}

#[test]
fn extracts_a_full_character() {
    let res = resource(vec![
        node(
            "Character",
            vec![
                attr("Name", s("Tav")),
                attr("ClassId", s("Wizard")),
                attr("Level", NodeAttributeValue::UInt(5)),
                attr("Race", s("Elf")),
                attr("IsPlayer", NodeAttributeValue::Bool(true)),
                attr("Strength", NodeAttributeValue::UInt(8)),
                attr("CurrentHP", NodeAttributeValue::Int(20)),
                attr("MaxHP", NodeAttributeValue::UInt(31)),
            ],
            vec![("Abilities".to_string(), vec![1, 2]), ("Equipment".to_string(), vec![3])],
        ),
        node("Ability", vec![attr("Id", s("Intelligence")), attr("Value", NodeAttributeValue::UInt(17))], vec![]),
        node("Ability", vec![attr("Name", s("Strength")), attr("Base", NodeAttributeValue::Byte(10))], vec![]),
        node(
            "Item",
            vec![attr("Name", s("Staff")), attr("Slot", s("Melee Main Weapon")), attr("TemplateName", s("tpl-1"))],
            vec![("Contents".to_string(), vec![4])],
        ),
        node(
            "Item",
            vec![
                attr("ItemName", s("Hat")),
                attr("SlotName", s("Helmet")),
                attr("MapKey", NodeAttributeValue::Uuid("u-1".into())),
            ],
            vec![],
        ),
        node("PartyInfo", vec![attr("Gold", NodeAttributeValue::UInt64(1234))], vec![]),
        node("Clock", vec![attr("GameDay", NodeAttributeValue::UInt(3))], vec![]),
        node("Level", vec![attr("LevelName", s("WLD_Main_A"))], vec![]),
    ]);
    let party = extract_party(&res).unwrap();
    assert_eq!(party.gold, Some(1234));
    assert_eq!(party.day, Some(3));
    assert_eq!(party.location, Some("WLD_Main_A".to_string()));
    assert_eq!(party.characters.len(), 1);
    let c = &party.characters[0];
    assert_eq!(c.name, "Tav");
    assert_eq!(c.class, "Wizard");
    assert_eq!(c.level, 5);
    assert_eq!(c.race, "Elf");
    assert!(c.is_player);
    assert_eq!(c.hp, Some((20, 31)));
    assert_eq!(
        c.abilities,
        AbilityScores { strength: 10, dexterity: 0, constitution: 0, intelligence: 17, wisdom: 0, charisma: 0 }
    );
    assert_eq!(c.equipment.len(), 2);
    assert_eq!(c.equipment[0].slot, SlotType::MainHand);
    assert_eq!(c.equipment[0].item_name, "Staff");
    assert_eq!(c.equipment[0].template_id, "tpl-1");
    assert_eq!(c.equipment[1].slot, SlotType::Head);
    assert_eq!(c.equipment[1].item_name, "Hat");
    assert_eq!(c.equipment[1].template_id, "u-1");
}

#[test]
fn defaults_when_attributes_are_missing() {
    let res = resource(vec![node(
        "PlayerCustomData",
        vec![
            attr("CustomName", NodeAttributeValue::TranslatedString("Karlach".into())),
            attr("IsPlayer", s("1")),
            attr("CurrentHP", NodeAttributeValue::UInt(12)),
        ],
        vec![],
    )]);
    let party = extract_party(&res).unwrap();
    assert_eq!(party.gold, None);
    assert_eq!(party.day, None);
    assert_eq!(party.location, None);
    let c = &party.characters[0];
    assert_eq!(c.name, "Karlach");
    assert_eq!(c.class, "Unknown");
    assert_eq!(c.race, "Unknown");
    assert_eq!(c.level, 0);
    assert!(c.is_player);
    assert_eq!(c.hp, Some((12, 12)));
    assert_eq!(c.abilities, AbilityScores::default());
    assert!(c.equipment.is_empty());
}

#[test]
fn nameless_characters_are_skipped_and_party_members_are_a_fallback() {
    let res = resource(vec![
        node("Character", vec![attr("Name", s(""))], vec![]),
        node("Character", vec![attr("Level", NodeAttributeValue::UInt(2))], vec![]),
        node("PartyMember", vec![attr("DisplayName", s("Gale")), attr("Level", NodeAttributeValue::Int(4))], vec![]),
    ]);
    let party = extract_party(&res).unwrap();
    assert_eq!(party.characters.len(), 1);
    assert_eq!(party.characters[0].name, "Gale");
    assert_eq!(party.characters[0].level, 4);
    assert!(!party.characters[0].is_player);
    assert_eq!(party.characters[0].hp, None);
}

#[test]
fn party_members_ignored_when_characters_exist() {
    let res = resource(vec![
        node("PartyMember", vec![attr("Name", s("Gale"))], vec![]),
        node("Character", vec![attr("Name", s("Tav")), attr("IsPlayer", s("True"))], vec![]),
    ]);
    let party = extract_party(&res).unwrap();
    assert_eq!(party.characters.len(), 1);
    assert_eq!(party.characters[0].name, "Tav");
    assert!(party.characters[0].is_player);
}

#[test]
fn gold_day_and_location_come_from_the_first_holder() {
    let res = resource(vec![
        node("Other", vec![attr("Gold", NodeAttributeValue::UInt(5))], vec![]),
        node("Party", vec![attr("Gold", NodeAttributeValue::UInt(77))], vec![]),
        node("PartyInfo", vec![attr("Gold", NodeAttributeValue::UInt64(99))], vec![]),
        node("A", vec![attr("Day", NodeAttributeValue::UInt(9))], vec![]),
        node("B", vec![attr("GameDay", NodeAttributeValue::UInt(10))], vec![]),
        node("C", vec![attr("CurrentLevel", s("SCL_Main_A"))], vec![]),
        node("D", vec![attr("LevelName", s("BGO_Main_A"))], vec![]),
    ]);
    let party = extract_party(&res).unwrap();
    assert_eq!(party.gold, Some(77));
    assert_eq!(party.day, Some(9));
    assert_eq!(party.location, Some("SCL_Main_A".to_string()));
    assert!(party.characters.is_empty());
}

#[test]
fn slot_names_map_to_slots() {
    let names = [
        ("Breast", SlotType::Chest),
        ("Gloves", SlotType::Hands),
        ("Boots", SlotType::Feet),
        ("Melee Off-Hand Weapon", SlotType::OffHand),
        ("Amulet", SlotType::Amulet),
        ("Ring", SlotType::Ring1),
        ("Ring2", SlotType::Ring2),
        ("Cloak", SlotType::Cloak),
        ("Ranged Main Weapon", SlotType::Ranged),
        ("Underwear", SlotType::Other("Underwear".to_string())),
    ];
    for (slot_name, expected) in names {
        let res = resource(vec![
            node("Character", vec![attr("Name", s("Tav"))], vec![("EquippedItems".to_string(), vec![1])]),
            node("Item", vec![attr("Name", s("Thing")), attr("Slot", s(slot_name))], vec![]),
        ]);
        let party = extract_party(&res).unwrap();
        assert_eq!(party.characters[0].equipment[0].slot, expected);
        assert_eq!(party.characters[0].equipment[0].template_id, "");
    }
    let res = resource(vec![
        node("Character", vec![attr("Name", s("Tav"))], vec![("Equipments".to_string(), vec![1])]),
        node("Item", vec![attr("Name", s("Thing"))], vec![]),
    ]);
    let party = extract_party(&res).unwrap();
    assert_eq!(party.characters[0].equipment[0].slot, SlotType::Other("Other".to_string()));
}
