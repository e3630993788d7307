use bg3_save::error::SaveError;
use bg3_save::ipc::{BlockedEvent, ModConfig, ModStatus};
use bg3_save::models::{AbilityScores, Character, PartyData, SaveInfo};
use bg3_save::models::{EquipmentSlot, SlotType};
use bg3_save::overlay::{
    character_details, format_character_header, friendly_name, most_recent_save, party_summary_labels, save_label,
    scan_all_saves, should_reload, storyline_label, ModState, PartyView, StorylinePanel, Tab, WindowEvent, WindowState,
};
use bg3_save::storylines::{StorylineCategory, StorylineDefinition};

fn def(id: &str, category: StorylineCategory) -> StorylineDefinition {
    StorylineDefinition {
        id: id.to_string(),
        name: format!("Name of {}", id),
        description: String::new(),
        category,
        hooks: vec![],
    }
}

fn defs() -> Vec<StorylineDefinition> {
    vec![
        def("goblins", StorylineCategory::MainQuest),
        def("karlach", StorylineCategory::CompanionQuest),
        def("owlbear", StorylineCategory::SideQuest),
        def("tadpole", StorylineCategory::MainQuest),
    ]
}

fn info(name: &str, ts: u128) -> SaveInfo {
    SaveInfo {
        path: format!("/saves/{}.lsv", name),
        character_name: "Tav".to_string(),
        save_name: name.to_string(),
        timestamp: ts,
        is_honour_mode: false,
    }
}

fn event(id: &str) -> BlockedEvent {
    BlockedEvent { storyline_id: id.to_string(), description: "blocked".to_string(), timestamp: 1 }
}

#[test]
fn panel_prefers_the_file_next_to_the_program() {
    let panel = StorylinePanel::new(Some(("/exe/storylines.toml".to_string(), Ok(defs()))), Ok(vec![]), None);
    assert_eq!(panel.definitions.len(), 4);
    assert_eq!(panel.storylines_path, Some("/exe/storylines.toml".to_string()));
    assert_eq!(panel.load_error, None);
    assert!(panel.mod_status.is_none());
    assert!(panel.last_status_check.is_none());
}

#[test]
fn panel_falls_back_to_embedded_definitions() {
    let panel = StorylinePanel::new(Some(("/exe/storylines.toml".to_string(), Err("bad toml".to_string()))), Ok(defs()), None);
    assert_eq!(panel.definitions.len(), 4);
    assert_eq!(panel.storylines_path, None);
    assert_eq!(panel.load_error, Some("Error loading storylines.toml: bad toml".to_string()));

    let panel = StorylinePanel::new(None, Err("oops".to_string()), None);
    assert!(panel.definitions.is_empty());
    assert_eq!(panel.load_error, Some("Error parsing embedded storylines: oops".to_string()));

    let panel = StorylinePanel::new(None, Ok(defs()), None);
    assert_eq!(panel.load_error, None);
    assert_eq!(panel.definitions[3].id, "tadpole");
}

#[test]
fn config_round_trip_through_the_panel() {
    let cfg = ModConfig { disabled_storylines: vec!["owlbear".to_string(), "goblins".to_string(), "unknown".to_string()] };
    let panel = StorylinePanel::new(None, Ok(defs()), Some(cfg));
    assert!(panel.config.is_disabled("owlbear"));
    assert!(panel.config.is_disabled("goblins"));
    assert!(!panel.config.is_disabled("karlach"));
    let written = panel.disabled_config();
    assert_eq!(written.disabled_storylines, vec!["goblins".to_string(), "owlbear".to_string()]);
    let again = StorylinePanel::new(None, Ok(defs()), Some(written.clone()));
    assert_eq!(again.disabled_config(), written);
}

#[test]
fn toggling_in_the_panel_changes_the_written_config() {
    let mut panel = StorylinePanel::new(None, Ok(defs()), None);
    assert!(panel.disabled_config().disabled_storylines.is_empty());
    panel.config.set_enabled("tadpole", false);
    panel.config.set_enabled("karlach", false);
    assert_eq!(panel.disabled_config().disabled_storylines, vec!["karlach".to_string(), "tadpole".to_string()]);
    panel.apply_ipc_config(&ModConfig { disabled_storylines: vec!["goblins".to_string()] });
    assert_eq!(panel.disabled_config().disabled_storylines.len(), 3);
}

#[test]
fn status_is_read_at_most_every_three_seconds() {
    let mut panel = StorylinePanel::new(None, Ok(defs()), None);
    assert!(panel.status_check_due(0));
    let status = ModStatus { active: true, last_update: 10, blocked_events: vec![event("goblins")] };
    panel.check_mod_status(1_000, Some(status.clone()));
    assert_eq!(panel.mod_status, Some(status.clone()));
    assert_eq!(panel.last_status_check, Some(1_000));
    assert!(!panel.status_check_due(3_000_001_000));
    panel.check_mod_status(3_000_001_000, None);
    assert_eq!(panel.mod_status, Some(status));
    assert!(panel.status_check_due(3_000_001_001));
    panel.check_mod_status(3_000_001_001, None);
    assert_eq!(panel.mod_status, None);
    assert!(!panel.status_check_due(0));
}

#[test]
fn blocked_counts_and_mod_state() {
    let mut panel = StorylinePanel::new(None, Ok(defs()), None);
    assert_eq!(panel.mod_state(), ModState::NotDetected);
    assert_eq!(panel.blocked_count_for("goblins"), 0);
    let status = ModStatus {
        active: true,
        last_update: 10,
        blocked_events: vec![event("goblins"), event("other"), event("goblins"), event("owlbear")],
    };
    panel.check_mod_status(0, Some(status));
    assert_eq!(panel.blocked_count_for("goblins"), 2);
    assert_eq!(panel.blocked_count_for("other"), 1);
    assert_eq!(panel.total_blocked(), 3);
    assert_eq!(panel.mod_state(), ModState::Connected { blocked: 3 });
    panel.mod_status = Some(ModStatus { active: false, last_update: 0, blocked_events: vec![] });
    assert_eq!(panel.mod_state(), ModState::Inactive);
}

#[test]
fn definitions_by_category() {
    let panel = StorylinePanel::new(None, Ok(defs()), None);
    assert_eq!(panel.definitions_in(StorylineCategory::MainQuest), vec![0, 3]);
    assert_eq!(panel.definitions_in(StorylineCategory::CompanionQuest), vec![1]);
    assert!(panel.definitions_in(StorylineCategory::WorldEvent).is_empty());
}

#[test]
fn storyline_labels() {
    let d = def("goblins", StorylineCategory::MainQuest);
    assert_eq!(storyline_label(&d, false, 3), "Name of goblins (blocked 3)");
    assert_eq!(storyline_label(&d, false, 0), "Name of goblins");
    assert_eq!(storyline_label(&d, true, 3), "Name of goblins");
}

#[test]
fn character_headers_and_names() {
    assert_eq!(friendly_name("Shadowheart"), "Shadowheart");
    assert_eq!(friendly_name("Gnome_Deep"), "Deep Gnome");
    assert_eq!(friendly_name("Elf_WoodElf"), "Wood Elf");
    assert_eq!(friendly_name("Dwarf_Gold"), "Gold Dwarf");
    assert_eq!(friendly_name("HalfElf_High"), "High Half Elf");
    assert_eq!(friendly_name("Tav"), "Tav");
    assert_eq!(friendly_name("Human"), "Human");
    let mut c = Character {
        name: "Astarion".to_string(),
        class: "Rogue (Thief)".to_string(),
        level: 7,
        race: "Elf".to_string(),
        abilities: AbilityScores::default(),
        hp: None,
        equipment: vec![],
        is_player: false,
    };
    assert_eq!(format_character_header(&c), "Astarion - Lvl 7 Rogue (Thief)");
    c.is_player = true;
    assert_eq!(format_character_header(&c), "Astarion - Lvl 7 Rogue (Thief) *");
    let custom = Character {
        name: "Generic".to_string(),
        class: "Fighter".to_string(),
        level: 5,
        race: "Human".to_string(),
        abilities: AbilityScores::default(),
        hp: None,
        equipment: vec![],
        is_player: true,
    };
    assert_eq!(format_character_header(&custom), "Human - Lvl 5 Fighter *");
    let mut gnome = custom.clone();
    gnome.race = "Gnome_Deep".to_string();
    gnome.is_player = false;
    assert_eq!(format_character_header(&gnome), "Deep Gnome - Lvl 5 Fighter");
    let mut unknown = custom.clone();
    unknown.name = "Tav".to_string();
    unknown.race = "Unknown".to_string();
    assert_eq!(format_character_header(&unknown), "Tav - Lvl 5 Fighter *");
    let shadowheart = Character {
        name: "Shadowheart".to_string(),
        class: "Cleric".to_string(),
        level: 4,
        race: "Human".to_string(),
        abilities: AbilityScores::default(),
        hp: None,
        equipment: vec![],
        is_player: false,
    };
    assert_eq!(format_character_header(&shadowheart), "Shadowheart - Lvl 4 Cleric");
}

#[test]
fn save_labels() {
    let mut i = info("Quick", 0);
    assert_eq!(save_label(&i, " [Honour]"), "Tav - Quick");
    i.is_honour_mode = true;
    assert_eq!(save_label(&i, " [Honour]"), "Tav - Quick [Honour]");
    assert_eq!(save_label(&i, " [H]"), "Tav - Quick [H]");
}

#[test]
fn reload_debounce() {
    assert!(!should_reload(false, None));
    assert!(should_reload(true, None));
    assert!(!should_reload(true, Some(2_000_000_000)));
    assert!(should_reload(true, Some(2_000_000_001)));
}

#[test]
fn most_recent_save_takes_the_last_newest() {
    assert_eq!(most_recent_save(&vec![]), None);
    let saves = vec![info("a", 5), info("b", 9), info("c", 9), info("d", 1)];
    assert_eq!(most_recent_save(&saves), Some(2));
}

#[test]
fn saves_sorted_newest_first_and_stable() {
    let scanned = vec![
        Ok(info("a", 5)),
        Err("broken".to_string()),
        Ok(info("b", 9)),
        Ok(info("c", 5)),
        Ok(info("d", 12)),
    ];
    let sorted = scan_all_saves(scanned);
    let names: Vec<&str> = sorted.iter().map(|s| s.save_name.as_str()).collect();
    assert_eq!(names, vec!["d", "b", "a", "c"]);
    assert!(scan_all_saves(vec![]).is_empty());
}

#[test]
fn party_view_loads_and_toggles() {
    let mut view = PartyView::new();
    assert!(!view.reload_wanted(true, 10_000_000_000));
    let party = PartyData {
        characters: vec![
            Character {
                name: "Tav".to_string(),
                class: "Wizard".to_string(),
                level: 1,
                race: "Elf".to_string(),
                abilities: AbilityScores::default(),
                hp: None,
                equipment: vec![],
                is_player: true,
            };
            2
        ],
        gold: None,
        day: None,
        location: None,
    };
    view.load_save("/saves/a.lsv".to_string(), Ok(info("a", 1)), Ok(party.clone()), 1_000);
    assert_eq!(view.party, Some(party.clone()));
    assert_eq!(view.expanded_chars, vec![false, false]);
    assert_eq!(view.error, None);
    assert_eq!(view.save_info, Some(info("a", 1)));
    view.toggle_expanded(1);
    view.toggle_expanded(5);
    assert!(view.is_expanded(1));
    assert!(!view.is_expanded(0));
    assert!(!view.is_expanded(5));
    assert!(!view.reload_wanted(true, 2_000_001_000));
    assert!(view.reload_wanted(true, 2_000_001_001));
    assert!(!view.reload_wanted(false, 9_000_000_000));

    view.load_save(
        "/saves/b.lsv".to_string(),
        Err("unreadable".to_string()),
        Err(SaveError::FileNotFound("globals.lsf".to_string())),
        5_000,
    );
    assert_eq!(view.party, Some(party));
    assert_eq!(view.expanded_chars, vec![false, true]);
    assert_eq!(view.error, Some("File 'globals.lsf' not found in package".to_string()));
    assert_eq!(view.save_info, None);
    assert_eq!(view.save_path, Some("/saves/b.lsv".to_string()));
    assert_eq!(view.last_load, Some(5_000));
}

#[test]
fn details_of_an_expanded_character() {
    let c = Character {
        name: "Karlach".to_string(),
        class: "Barbarian".to_string(),
        level: 4,
        race: "Tiefling".to_string(),
        abilities: AbilityScores { strength: 17, dexterity: 13, constitution: 15, intelligence: 8, wisdom: 12, charisma: 10 },
        hp: Some((30, 45)),
        equipment: vec![
            EquipmentSlot { slot: SlotType::MainHand, item_name: "Greataxe".to_string(), template_id: String::new() },
            EquipmentSlot { slot: SlotType::Other("Tail".to_string()), item_name: "Ribbon".to_string(), template_id: String::new() },
        ],
        is_player: false,
    };
    let d = character_details(&c);
    assert_eq!(d.summary, "Tiefling - Barbarian");
    assert_eq!(d.hp_text, Some("HP: 30/45".to_string()));
    assert_eq!(d.stats, vec!["STR 17", "DEX 13", "CON 15", "INT 8", "WIS 12", "CHA 10"]);
    assert_eq!(d.equipment, vec!["MainHand: Greataxe".to_string(), "Other(\"Tail\"): Ribbon".to_string()]);

    let mut weak = c.clone();
    weak.abilities.strength = 0;
    weak.hp = None;
    weak.equipment.clear();
    let d = character_details(&weak);
    assert!(d.stats.is_empty());
    assert_eq!(d.hp_text, None);
    assert!(d.equipment.is_empty());
}

#[test]
fn party_summary_shows_what_is_known() {
    let mut party = PartyData { characters: vec![], gold: Some(12), day: Some(3), location: Some("Camp".to_string()) };
    assert_eq!(party_summary_labels(&party), vec!["Location: Camp", "Gold: 12", "Day 3"]);
    party.location = None;
    assert_eq!(party_summary_labels(&party), vec!["Gold: 12", "Day 3"]);
    party.gold = None;
    party.day = None;
    assert!(party_summary_labels(&party).is_empty());
}

#[test]
fn initial_save_is_the_most_recent() {
    let mut view = PartyView::new();
    assert_eq!(view.pick_initial_save(&vec![info("a", 3), info("b", 8), info("c", 1)]), Some("/saves/b.lsv".to_string()));
    assert_eq!(view.error, None);
    assert_eq!(view.pick_initial_save(&vec![]), None);
    assert_eq!(view.error, Some("No save files found".to_string()));
}

#[test]
fn toggling_twice_restores_and_config_applies_once() {
    let mut view = PartyView::new();
    view.expanded_chars = vec![false, true, false];
    view.toggle_expanded(2);
    view.toggle_expanded(2);
    assert_eq!(view.expanded_chars, vec![false, true, false]);

    let cfg = ModConfig { disabled_storylines: vec!["karlach".to_string(), "owlbear".to_string()] };
    let mut panel = StorylinePanel::new(None, Ok(defs()), Some(cfg.clone()));
    let once = panel.disabled_config();
    panel.apply_ipc_config(&cfg);
    assert_eq!(panel.disabled_config(), once);
}

#[test]
fn toggles_of_a_frame_are_written_once() {
    let mut panel = StorylinePanel::new(None, Ok(defs()), None);
    assert_eq!(panel.toggle_storylines(&vec![]), None);
    let written = panel.toggle_storylines(&vec![
        ("owlbear".to_string(), false),
        ("goblins".to_string(), false),
        ("owlbear".to_string(), true),
    ]);
    assert_eq!(written, Some(ModConfig { disabled_storylines: vec!["goblins".to_string()] }));
    assert!(panel.config.is_disabled("goblins"));
    assert!(!panel.config.is_disabled("owlbear"));
}

#[test]
fn window_events() {
    let mut w = WindowState::new();
    assert!(w.visible && !w.should_exit && !w.show_save_picker);
    assert_eq!(w.active_tab, Tab::Party);
    w.step(WindowEvent::ToggleSavePicker);
    assert!(w.show_save_picker);
    w.step(WindowEvent::SaveChosen);
    assert!(!w.show_save_picker);
    w.step(WindowEvent::SelectTab(Tab::Storylines));
    assert_eq!(w.active_tab, Tab::Storylines);
    w.step(WindowEvent::Hide);
    assert!(!w.visible);
    w.step(WindowEvent::Show);
    assert!(w.visible);
    w.step(WindowEvent::Exit);
    w.step(WindowEvent::Show);
    assert!(w.should_exit);
}
