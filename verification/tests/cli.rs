use bg3_save::cli::{
    dump_report, extracted_entry_text, files_listing, files_report, party_report, scan_error_row, scan_heading, scan_row,
};
use bg3_save::lsf::{Node, NodeKind, RegionArena, Resource};
use bg3_save::models::{AbilityScores, Character, EquipmentSlot, PartyData, SaveInfo, SlotType};

#[test]
fn party_report_lists_everything() {
    let party = PartyData {
        characters: vec![Character {
            name: "Tav".to_string(),
            class: "Wizard".to_string(),
            level: 5,
            race: "Elf".to_string(),
            abilities: AbilityScores { strength: 8, dexterity: 14, constitution: 12, intelligence: 17, wisdom: 10, charisma: 9 },
            hp: Some((20, 31)),
            equipment: vec![EquipmentSlot { slot: SlotType::Cloak, item_name: "Cape".to_string(), template_id: String::new() }],
            is_player: true,
        }],
        gold: Some(50),
        day: Some(2),
        location: Some("WLD".to_string()),
    };
    let expected = [
        "=== Party Data ===\n\n",
        "Location: WLD\n",
        "Gold: 50\n",
        "Day: 2\n",
        "\n--- Characters (1) ---\n\n",
        "  Tav - Lvl 5 Elf Wizard (Player)\n",
        "    STR:8 DEX:14 CON:12 INT:17 WIS:10 CHA:9\n",
        "    HP: 20/31\n",
        "    Equipment:\n",
        "      Cloak: Cape\n",
        "\n",
    ]
    .concat();
    assert_eq!(party_report(&party), expected);
}

#[test]
fn party_report_without_characters() {
    let party = PartyData { characters: vec![], gold: None, day: None, location: None };
    assert_eq!(
        party_report(&party),
        "=== Party Data ===\n\n\n--- Characters (0) ---\n\n  No characters found.\n"
    );
}

#[test]
fn extracted_text_or_hex_dump() {
    assert_eq!(extracted_entry_text(b"{\"a\": 1}".to_vec()), "{\"a\": 1}\n");
    assert_eq!(extracted_entry_text(vec![0xff, 0x00, 0x10]), "Binary data (3 bytes), first 256 bytes:\nff 00 10 \n");
    let mut bytes = vec![0xffu8];
    bytes.extend(1u8..=17);
    let dump = extracted_entry_text(bytes);
    assert_eq!(
        dump,
        "Binary data (18 bytes), first 256 bytes:\nff 01 02 03 04 05 06 07 08 09 0a 0b 0c 0d 0e 0f \n10 11 \n"
    );
    let long = vec![0xfeu8; 300];
    let dump = extracted_entry_text(long);
    assert!(dump.starts_with("Binary data (300 bytes), first 256 bytes:\n"));
    assert_eq!(dump.matches("fe ").count(), 256);
    assert_eq!(dump.lines().count(), 17);
}

#[test]
fn scan_table_lines() {
    let heading = scan_heading(2);
    let expected = format!(
        "Found 2 save files\n\n{:<60} {:<20} {:<15} SAVE NAME\n{}\n",
        "PATH",
        "CHARACTER",
        "TYPE",
        "-".repeat(110)
    );
    assert_eq!(heading, expected);
    let info = SaveInfo {
        path: "/s/Tav__Q/Q.lsv".to_string(),
        character_name: "Tav".to_string(),
        save_name: "Q".to_string(),
        timestamp: 0,
        is_honour_mode: true,
    };
    assert_eq!(scan_row("Tav__Q/Q.lsv", &info), format!("{:<60} {:<20} {:<15} {}\n", "Tav__Q/Q.lsv", "Tav", "Honour", "Q"));
    let long = "x".repeat(70);
    assert_eq!(scan_row(&long, &info), format!("{} {:<20} {:<15} Q\n", long, "Tav", "Honour"));
    assert_eq!(scan_error_row("Q.lsv", "bad"), format!("{:<60} ERROR: bad\n", "Q.lsv"));
}

#[test]
fn file_listings() {
    let names = vec!["meta.lsf".to_string(), "SaveInfo.json".to_string()];
    assert_eq!(files_report(&names), "Files in save (2):\n\n  meta.lsf\n  SaveInfo.json\n");
    assert_eq!(files_listing("Available:\n", &names), "Available:\n  meta.lsf\n  SaveInfo.json\n");
    assert_eq!(files_report(&vec![]), "Files in save (0):\n\n");
}

#[test]
fn dump_report_heading_and_tree() {
    let resource = Resource {
        regions: RegionArena {
            node_instances: vec![
                Node { name: "MetaData".to_string(), kind: NodeKind::Region { name: "MetaData".to_string() }, attributes: vec![], children: vec![] },
                Node { name: "Loose".to_string(), kind: NodeKind::Node, attributes: vec![], children: vec![] },
            ],
            regions_indices: vec![("MetaData".to_string(), 0)],
        },
    };
    assert_eq!(
        dump_report("meta.lsf", 5, &resource),
        "=== meta.lsf tree (depth 5) ===\n\nRegions: 1 | Total nodes: 2\n\nMetaData [Region: MetaData]\n"
    );
}
