use bg3_save::storylines::{StorylineCategory, StorylineConfig};

#[test]
fn category_labels() {
    assert_eq!(StorylineCategory::MainQuest.label(), "Main Quest");
    assert_eq!(StorylineCategory::CompanionQuest.label(), "Companion Quest");
    assert_eq!(StorylineCategory::SideQuest.label(), "Side Quest");
    assert_eq!(StorylineCategory::WorldEvent.label(), "World Event");
}

#[test]
fn fresh_config_disables_nothing() {
    let cfg = StorylineConfig::new();
    assert!(!cfg.is_disabled("act1_goblins"));
    assert!(!cfg.is_disabled(""));
    let cfg = StorylineConfig::default();
    assert!(!cfg.is_disabled("act1_goblins"));
}

#[test]
fn set_enabled_reads_back() {
    let mut cfg = StorylineConfig::new();
    cfg.set_enabled("karlach_engine", false);
    assert!(cfg.is_disabled("karlach_engine"));
    assert!(!cfg.is_disabled("other"));
    cfg.set_enabled("other", false);
    cfg.set_enabled("karlach_engine", true);
    assert!(!cfg.is_disabled("karlach_engine"));
    assert!(cfg.is_disabled("other"));
    cfg.set_enabled("karlach_engine", false);
    cfg.set_enabled("karlach_engine", false);
    assert!(cfg.is_disabled("karlach_engine"));
}
