use bg3_save::ipc::{config_path, ipc_dir, status_path, ModConfig, ModStatus};

fn joined(parts: &[&str]) -> String {
    let mut p = std::path::PathBuf::from(parts[0]);
    for part in &parts[1..] {
        p = p.join(part);
    }
    p.to_string_lossy().into_owned()
}

#[test]
fn ipc_paths_below_local_app_data() {
    let base = "/tmp/appdata";
    assert_eq!(
        ipc_dir(Some(base.to_string())),
        Some(joined(&[base, "Larian Studios", "Baldur's Gate 3", "Script Extender", "perfect-run"]))
    );
    assert_eq!(
        config_path(Some(base.to_string())),
        Some(joined(&[base, "Larian Studios", "Baldur's Gate 3", "Script Extender", "perfect-run", "config.json"]))
    );
    assert_eq!(
        status_path(Some(base.to_string())),
        Some(joined(&[base, "Larian Studios", "Baldur's Gate 3", "Script Extender", "perfect-run", "status.json"]))
    );
}

#[test]
fn no_ipc_paths_without_local_app_data() {
    assert_eq!(ipc_dir(None), None);
    assert_eq!(config_path(None), None);
    assert_eq!(status_path(None), None);
}

#[test]
fn defaults_are_empty() {
    assert!(ModConfig::default().disabled_storylines.is_empty());
    let s = ModStatus::default();
    assert!(!s.active);
    assert_eq!(s.last_update, 0);
    assert!(s.blocked_events.is_empty());
}
