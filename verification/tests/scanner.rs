use bg3_save::scanner::{
    default_save_path, extract_name_from_dir, is_save_extension, is_save_file, parse_save_info_json, SaveFileFacts,
    SaveScanner,
};

const SAVE_INFO: &str = r#"{
  "Save Name": "Whispering Depths",
  "Current Level": "WLD_Main_A",
  "Active Party": {
    "Characters": [
      {"Origin": "Astarion", "Race": "Elf", "Level": 5, "Classes": [{"Main": "Rogue", "Sub": "Thief"}]},
      {"Origin": "DarkUrge", "Race": "Dragonborn", "Level": 6,
       "Classes": [{"Main": "Sorcerer", "Sub": ""}, {"Main": "Warlock", "Sub": "Fiend"}, {"Sub": "Lost"}]},
      {"Race": "Human"}
    ]
  }
}"#;

fn facts(dir_name: &str, save_info: Result<Option<Result<Vec<u8>, String>>, String>) -> SaveFileFacts {
    SaveFileFacts {
        path: format!("/saves/{}/save.lsv", dir_name),
        dir_name: dir_name.to_string(),
        timestamp: 42,
        save_info,
    }
}

#[test]
fn name_from_directory_pattern() {
    assert_eq!(extract_name_from_dir("Mrugge-212312515227__Whispering Depths"), "Mrugge");
    assert_eq!(extract_name_from_dir("Tav__Quick"), "Tav");
    assert_eq!(extract_name_from_dir("Solo"), "Solo");
    assert_eq!(extract_name_from_dir("-123__x"), "(unknown)");
    assert_eq!(extract_name_from_dir("__HonourMode"), "(unknown)");
    assert_eq!(extract_name_from_dir(""), "(unknown)");
    assert_eq!(extract_name_from_dir("8a3f1c2e-5b7d-4e9a-b1c2-d3e4f5a6b7c8"), "(unknown)");
    assert_eq!(extract_name_from_dir("8A3F1C2E-5B7D-4E9A-B1C2-D3E4F5A6B7C8__HonourMode"), "(unknown)");
    assert_eq!(extract_name_from_dir("8a3f1c2e-5b7d-4e9a-b1c2-d3e4f5a6b7cz"), "8a3f1c2e");
}

#[test]
fn save_info_json_gives_one_member_per_entry() {
    let party = parse_save_info_json(SAVE_INFO).unwrap();
    assert_eq!(party.location, Some("WLD_Main_A".to_string()));
    assert_eq!(party.gold, None);
    assert_eq!(party.day, None);
    assert_eq!(party.characters.len(), 3);
    let a = &party.characters[0];
    assert_eq!(a.name, "Astarion");
    assert_eq!(a.class, "Rogue (Thief)");
    assert_eq!(a.level, 5);
    assert_eq!(a.race, "Elf");
    assert!(!a.is_player);
    assert_eq!(a.hp, None);
    assert!(a.equipment.is_empty());
    let u = &party.characters[1];
    assert_eq!(u.name, "DarkUrge");
    assert_eq!(u.class, "Sorcerer / Warlock (Fiend)");
    assert!(u.is_player);
    let h = &party.characters[2];
    assert_eq!(h.name, "Unknown");
    assert_eq!(h.class, "Unknown");
    assert_eq!(h.level, 0);
    assert_eq!(h.race, "Human");
}

#[test]
fn save_info_json_without_party() {
    let party = parse_save_info_json("{}").unwrap();
    assert!(party.characters.is_empty());
    assert_eq!(party.location, None);
    let party = parse_save_info_json(r#"{"Active Party": {"Characters": 3}}"#).unwrap();
    assert!(party.characters.is_empty());
}

#[test]
fn save_info_json_rejects_non_json() {
    let err = parse_save_info_json("not json").unwrap_err();
    let expected = serde_json::from_str::<serde_json::Value>("not json").unwrap_err().to_string();
    assert_eq!(err, expected);
}

#[test]
fn scan_reads_names_from_save_info() {
    let scanner = SaveScanner::new("/saves".to_string());
    assert_eq!(scanner.save_root(), "/saves");
    let info = scanner
        .scan_save(facts("Mrugge-1__HonourMode", Ok(Some(Ok(SAVE_INFO.as_bytes().to_vec())))))
        .unwrap();
    assert_eq!(info.save_name, "Whispering Depths");
    assert_eq!(info.character_name, "DarkUrge Lvl6 Dragonborn Sorcerer");
    assert!(info.is_honour_mode);
    assert_eq!(info.timestamp, 42);
    assert_eq!(info.path, "/saves/Mrugge-1__HonourMode/save.lsv");
}

#[test]
fn scan_names_companion_when_no_player() {
    let json = r#"{"Active Party": {"Characters": [{"Origin": "Gale", "Level": 2, "Classes": [{"Main": "Wizard"}]}]}}"#;
    let scanner = SaveScanner::new("/saves".to_string());
    let info = scanner.scan_save(facts("Gale-1__Camp", Ok(Some(Ok(json.as_bytes().to_vec()))))).unwrap();
    assert_eq!(info.character_name, "Gale Lvl2 Wizard");
    assert_eq!(info.save_name, "(unknown)");
    assert!(!info.is_honour_mode);

    let json = r#"{"Save Name": "S", "Active Party": {"Characters": []}}"#;
    let info = scanner.scan_save(facts("X", Ok(Some(Ok(json.as_bytes().to_vec()))))).unwrap();
    assert_eq!(info.character_name, "(no characters)");
    let info = scanner.scan_save(facts("X", Ok(Some(Ok(b"{}".to_vec()))))).unwrap();
    assert_eq!(info.character_name, "(no party data)");
}

#[test]
fn scan_falls_back_to_directory_name() {
    let scanner = SaveScanner::new("/saves".to_string());
    for entry in [None, Some(Err("decompress failed".to_string())), Some(Ok(vec![0xff, 0xfe])), Some(Ok(b"nope".to_vec()))] {
        let info = scanner.scan_save(facts("Mrugge-212312515227__Whispering Depths", Ok(entry))).unwrap();
        assert_eq!(info.character_name, "Mrugge");
        assert_eq!(info.save_name, "Whispering Depths");
        assert!(!info.is_honour_mode);
    }
    let info = scanner.scan_save(facts("a__b__c", Ok(None))).unwrap();
    assert_eq!(info.save_name, "c");
    let info = scanner.scan_save(facts("plain", Ok(None))).unwrap();
    assert_eq!(info.save_name, "plain");
}

#[test]
fn scan_reports_unopenable_packages() {
    let scanner = SaveScanner::new("/saves".to_string());
    let r = scanner.scan_save(facts("x", Err("bad package".to_string())));
    assert_eq!(r.unwrap_err(), "bad package");
}

#[test]
fn scan_all_keeps_order() {
    let scanner = SaveScanner::new("/saves".to_string());
    let results = scanner.scan_all(vec![
        facts("A-1__One", Ok(None)),
        facts("B", Err("broken".to_string())),
        facts("C-3__Three", Ok(None)),
    ]);
    assert_eq!(results.len(), 3);
    assert_eq!(results[0].as_ref().unwrap().save_name, "One");
    assert_eq!(results[1].as_ref().unwrap_err(), "broken");
    assert_eq!(results[2].as_ref().unwrap().character_name, "C");
}

#[test]
fn default_path_under_local_app_data() {
    let sep = std::path::MAIN_SEPARATOR;
    let p = default_save_path(Some("/data".to_string()), None);
    let expected = ["/data", "Larian Studios", "Baldur's Gate 3", "PlayerProfiles", "Public", "Savegames", "Story"]
        .join(&sep.to_string());
    assert_eq!(p, expected);
    let scanner = SaveScanner::default(Some("/data".to_string()), Some("/home".to_string()));
    assert_eq!(scanner.save_root(), expected);
}

#[test]
fn default_path_falls_back_to_user_profile() {
    let sep = std::path::MAIN_SEPARATOR.to_string();
    let p = default_save_path(None, Some("/home/u".to_string()));
    assert!(p.starts_with("/home/u\\AppData\\Local"));
    assert!(p.ends_with(&format!("Savegames{}Story", sep)));
    let p = default_save_path(None, None);
    assert!(p.starts_with("C:\\Users\\Default\\AppData\\Local"));
}

#[test]
fn save_files_by_extension() {
    assert!(is_save_extension(Some("lsv")));
    assert!(is_save_extension(Some("LsV")));
    assert!(!is_save_extension(Some("lsx")));
    assert!(!is_save_extension(Some("lsvx")));
    assert!(!is_save_extension(None));
    assert!(is_save_file("/saves/Tav-1__Quick/Quick.lsv"));
    assert!(is_save_file("/saves/Tav-1__Quick/Quick.LSV"));
    assert!(!is_save_file("/saves/Tav-1__Quick/Quick.webp"));
    assert!(!is_save_file("/saves/Tav-1__Quick"));
    assert!(!is_save_file("/saves/.lsv"));
    assert!(is_save_file("Quick.lsv"));
    assert!(is_save_file("C:\\Saves\\Story\\Tav__Q\\Q.Lsv"));
    assert!(!is_save_file("/saves/Quick.lsv.bak"));
    assert!(!is_save_file(".."));
    assert!(is_save_file("saves/..lsv"));
}
