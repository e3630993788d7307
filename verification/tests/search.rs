use bg3_save::search::{extension_matches, in_hint_dir, search_heading, search_summary, SearchState};

fn strings(v: &[&str]) -> Vec<String> {
    v.iter().map(|s| s.to_string()).collect()
}

#[test]
fn pattern_is_lowercased() {
    let s = SearchState::new("GoBLin");
    assert_eq!(s.pattern_lower, "goblin");
    assert_eq!(s.match_count, 0);
    assert!(!s.stopped);
}

#[test]
fn matching_lines_are_printed_with_numbers() {
    let mut s = SearchState::new("goblin");
    let content = "first line\r\n  A GOBLIN camp  \nnothing\nGoblin\n";
    let out = s.search_file("Flags/x.lsx", true, content);
    assert_eq!(out, "* Flags/x.lsx:2: A GOBLIN camp\n* Flags/x.lsx:4: Goblin\n");
    assert_eq!(s.match_count, 2);
    assert!(!s.stopped);
    let out = s.search_file("other.lsx", false, "goblins everywhere");
    assert_eq!(out, "  other.lsx:1: goblins everywhere\n");
    assert_eq!(s.match_count, 3);
    assert_eq!(s.search_file("none.lsx", false, "no match here"), "");
    assert_eq!(s.match_count, 3);
}

#[test]
fn search_stops_past_five_hundred_matches() {
    let mut s = SearchState::new("x");
    let content = "x\n".repeat(600);
    let out = s.search_file("f.txt", false, &content);
    assert!(s.stopped);
    assert_eq!(s.match_count, 501);
    assert!(out.ends_with("  f.txt:501: x\n\n... truncated (>500 matches). Refine your search pattern.\n"));
    assert_eq!(out.lines().filter(|l| l.starts_with("  f.txt:")).count(), 501);
}

#[test]
fn extensions_and_hints() {
    let exts = strings(&["lsx", "lsf.lsx"]);
    assert!(extension_matches(Some("LSX"), &exts));
    assert!(!extension_matches(Some("lsj"), &exts));
    assert!(!extension_matches(None, &exts));
    let hints = strings(&["Dialogs", "Dialog"]);
    assert!(in_hint_dir("/game/Public/DIALOGS/a.lsj", &hints));
    assert!(!in_hint_dir("/game/Public/Flags/a.lsx", &hints));
    assert!(!in_hint_dir("/anything", &vec![]));
}

#[test]
fn heading_and_summary() {
    assert_eq!(search_heading("goblin", "/game"), "Searching for \"goblin\" in /game ...\n\n");
    let exts = strings(&["txt", "div"]);
    let hints = strings(&["Goals", "Story"]);
    assert_eq!(
        search_summary(0, &exts, &hints),
        "No matches found.\nSearched extensions: [\"txt\", \"div\"]\nHint subdirectories: [\"Goals\", \"Story\"]\n"
    );
    assert_eq!(
        search_summary(12, &exts, &hints),
        "\n12 matching lines found.\nLines prefixed with * are in priority directories ([\"Goals\", \"Story\"]).\n"
    );
    assert_eq!(search_summary(0, &vec![], &vec![]), "No matches found.\nSearched extensions: []\nHint subdirectories: []\n");
}

#[test]
fn matching_lines_are_trimmed_of_unicode_white_space() {
    let mut s = SearchState::new("goblin");
    let line = "\u{3000}\t A goblin\u{a0}\u{2009} ";
    let out = s.search_file("f.txt", false, line);
    assert_eq!(out, format!("  f.txt:1: {}\n", line.trim()));
    assert_eq!(out, "  f.txt:1: A goblin\n");
}
