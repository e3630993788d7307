use bg3_save::error::SaveError;
use bg3_save::lsf::{Node, NodeAttribute, NodeAttributeValue, NodeKind, RegionArena, Resource};
use bg3_save::models::PartyData;
use bg3_save::package::{extract_party_from_save_info, find_lsf_entry, find_package_file, load_party_from_save};

fn names() -> Vec<String> {
    vec!["meta.lsf".to_string(), "Globals.LSF".to_string(), "SaveInfo.json".to_string(), "Globals.lsf.bak".to_string()]
}

fn globals() -> Resource {
    Resource {
        regions: RegionArena {
            node_instances: vec![Node {
                name: "Character".to_string(),
                kind: NodeKind::Node,
                attributes: vec![(
                    "Name".to_string(),
                    NodeAttribute { ty: "LSString".to_string(), value: NodeAttributeValue::String("Tav".to_string()) },
                )],
                children: vec![],
            }],
            regions_indices: vec![],
        },
    }
}

#[test]
fn entries_are_found_ignoring_case() {
    assert_eq!(find_package_file(&names(), "saveinfo.json"), Some(2));
    assert_eq!(find_package_file(&names(), "GLOBALS.lsf"), Some(1));
    assert_eq!(find_package_file(&names(), "lsf"), Some(0));
    assert_eq!(find_package_file(&names(), "missing.lsf"), None);
    assert_eq!(find_package_file(&vec![], "meta.lsf"), None);
}

#[test]
fn lsf_entry_or_file_not_found() {
    assert!(matches!(find_lsf_entry(&names(), "globals.lsf"), Ok(1)));
    match find_lsf_entry(&names(), "story.lsf") {
        Err(SaveError::FileNotFound(n)) => assert_eq!(n, "story.lsf"),
        other => panic!("unexpected {:?}", other),
    }
}

#[test]
fn save_info_entry_outcomes() {
    match extract_party_from_save_info(None) {
        Err(SaveError::FileNotFound(n)) => assert_eq!(n, "SaveInfo.json"),
        other => panic!("unexpected {:?}", other),
    }
    match extract_party_from_save_info(Some(Err("cannot decompress".to_string()))) {
        Err(SaveError::Package(m)) => assert_eq!(m, "cannot decompress"),
        other => panic!("unexpected {:?}", other),
    }
    assert!(matches!(extract_party_from_save_info(Some(Ok(vec![0xc3, 0x28]))), Err(SaveError::Utf8(_))));
    match extract_party_from_save_info(Some(Ok(b"{oops".to_vec()))) {
        Err(SaveError::Other(m)) => {
            let expected = serde_json::from_str::<serde_json::Value>("{oops").unwrap_err().to_string();
            assert_eq!(m, expected);
        },
        other => panic!("unexpected {:?}", other),
    }
    let json = br#"{"Current Level": "WLD", "Active Party": {"Characters": [{"Origin": "Generic", "Race": "Human"}]}}"#;
    let party = extract_party_from_save_info(Some(Ok(json.to_vec()))).unwrap();
    assert_eq!(party.location, Some("WLD".to_string()));
    assert_eq!(party.characters[0].name, "Generic");
    assert!(party.characters[0].is_player);
}

#[test]
fn globals_are_the_fallback() {
    let primary = PartyData { characters: vec![], gold: Some(1), day: None, location: None };
    assert_eq!(load_party_from_save(Ok(primary.clone()), None).unwrap(), primary);
    let from_globals = load_party_from_save(Err(SaveError::Other("no json".to_string())), Some(Ok(globals()))).unwrap();
    assert_eq!(from_globals.characters[0].name, "Tav");
    match load_party_from_save(Err(SaveError::Other("no json".to_string())), Some(Err(SaveError::Package("broken".to_string())))) {
        Err(SaveError::Package(m)) => assert_eq!(m, "broken"),
        other => panic!("unexpected {:?}", other),
    }
    match load_party_from_save(Err(SaveError::Other("no json".to_string())), None) {
        Err(SaveError::Other(m)) => assert_eq!(m, "globals.lsf was not loaded"),
        other => panic!("unexpected {:?}", other),
    }
}
