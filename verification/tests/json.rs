use bg3_save::json::{array_in, get_in, str_in, u64_in, JsonValue};
use bg3_save::keyed::find_key;
use bg3_save::scanner::{party_from_save_info, save_names_from_doc};

fn obj(members: Vec<(&str, JsonValue)>) -> JsonValue {
    JsonValue::Object(members.into_iter().map(|(k, v)| (k.to_string(), v)).collect())
}

fn text(s: &str) -> JsonValue {
    JsonValue::String(s.to_string())
}

#[test]
fn accessors_follow_the_document() {
    let doc = obj(vec![
        ("name", text("Tav")),
        ("level", JsonValue::Number(Some(7))),
        ("neg", JsonValue::Number(None)),
        ("list", JsonValue::Array(vec![JsonValue::Null, JsonValue::Bool(true)])),
    ]);
    assert_eq!(str_in(doc.get("name")).map(|s| s.as_str()), Some("Tav"));
    assert_eq!(u64_in(doc.get("level")), Some(7));
    assert_eq!(u64_in(doc.get("neg")), None);
    assert_eq!(array_in(doc.get("list")).map(|a| a.len()), Some(2));
    assert!(doc.get("missing").is_none());
    assert!(get_in(doc.get("name"), "x").is_none());
    assert!(get_in(None, "x").is_none());
    assert!(text("x").get("x").is_none());
    assert_eq!(text("x").as_str().map(|s| s.as_str()), Some("x"));
    assert!(JsonValue::Bool(true).as_u64().is_none());
    assert!(JsonValue::Null.as_array().is_none());
}

#[test]
fn first_key_wins() {
    let entries = vec![("a".to_string(), 1), ("b".to_string(), 2), ("a".to_string(), 3)];
    assert_eq!(find_key(&entries, "a"), Some(0));
    assert_eq!(find_key(&entries, "b"), Some(1));
    assert_eq!(find_key(&entries, "c"), None);
}

#[test]
fn documents_built_by_hand() {
    let doc = obj(vec![
        ("Save Name", text("Camp")),
        (
            "Active Party",
            obj(vec![(
                "Characters",
                JsonValue::Array(vec![obj(vec![
                    ("Origin", text("Generic")),
                    ("Race", text("Gnome")),
                    ("Level", JsonValue::Number(Some(3))),
                    ("Classes", JsonValue::Array(vec![obj(vec![("Main", text("Bard")), ("Sub", text("Lore"))])])),
                ])]),
            )]),
        ),
    ]);
    let (character, save) = save_names_from_doc(&doc);
    assert_eq!(character, "Generic Lvl3 Gnome Bard");
    assert_eq!(save, "Camp");
    let party = party_from_save_info(&doc);
    assert_eq!(party.characters.len(), 1);
    assert_eq!(party.characters[0].class, "Bard (Lore)");
    assert_eq!(party.characters[0].level, 3);
    assert_eq!(party.location, None);
}
