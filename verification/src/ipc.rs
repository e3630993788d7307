//! The files through which the overlay and the in-game mod talk: where they
//! live and what they hold.
use vstd::prelude::*;
use crate::text::{join_path, joined, lemma_join_keeps_plain, plain_component, verbatim_like};

verus! {

/// Config written by the overlay, read by the mod.
#[derive(Debug, Clone, PartialEq, Eq)]
pub struct ModConfig {
    /// Ids of the storylines that should be blocked.
    pub disabled_storylines: Vec<String>,
}

/// Status written by the mod, read by the overlay.
#[derive(Debug, Clone, PartialEq, Eq)]
pub struct ModStatus {
    /// Whether the mod is currently active and polling.
    pub active: bool,
    /// Unix epoch seconds of the last status update.
    pub last_update: u64,
    /// Recently blocked events.
    pub blocked_events: Vec<BlockedEvent>,
}

/// A single event that was blocked by the mod.
#[derive(Debug, Clone, PartialEq, Eq)]
pub struct BlockedEvent {
    /// Which storyline triggered this block.
    pub storyline_id: String,
    /// Human-readable description of what was blocked.
    pub description: String,
    /// Unix epoch seconds when the event was blocked.
    pub timestamp: u64,
}

impl Default for ModConfig {
    fn default() -> (r: Self)
        ensures
            r.disabled_storylines@.len() == 0,
    {
        ModConfig { disabled_storylines: Vec::new() }
    }
}

impl Default for ModStatus {
    fn default() -> (r: Self)
        ensures
            !r.active,
            r.last_update == 0,
            r.blocked_events@.len() == 0,
    {
        ModStatus { active: false, last_update: 0, blocked_events: Vec::new() }
    }
}

/// `r` is `base` joined with `a`, then `b`, then `c`, then `d`.
pub open spec fn joined4(base: Seq<char>, a: Seq<char>, b: Seq<char>, c: Seq<char>, d: Seq<char>, r: Seq<char>) -> bool {
    exists|x: Seq<char>, y: Seq<char>, z: Seq<char>|
        #![trigger joined(base, a, x), joined(x, b, y), joined(y, c, z)]
        joined(base, a, x) && joined(x, b, y) && joined(y, c, z) && joined(z, d, r)
}

/// The directory for overlay/mod communication, below the local
/// application-data directory (`LOCALAPPDATA`): `Larian Studios`,
/// `Baldur's Gate 3`, `Script Extender`, `perfect-run`. None without it.
pub fn ipc_dir(local_app_data: Option<String>) -> (r: Option<String>)
    ensures
        r is Some <==> local_app_data is Some,
        r matches Some(d) ==> !verbatim_like(local_app_data.unwrap()@) ==> joined4(local_app_data.unwrap()@,
            "Larian Studios"@, "Baldur's Gate 3"@, "Script Extender"@, "perfect-run"@, d@) && !verbatim_like(d@),
{
    let base = match local_app_data {
        Some(b) => b,
        None => {
            return None;
        },
    };
    proof {
        reveal_strlit("Larian Studios");
        reveal_strlit("Baldur's Gate 3");
        reveal_strlit("Script Extender");
        reveal_strlit("perfect-run");
    }
    let x = join_path(base.as_str(), "Larian Studios");
    let y = join_path(x.as_str(), "Baldur's Gate 3");
    let z = join_path(y.as_str(), "Script Extender");
    let d = join_path(z.as_str(), "perfect-run");
    proof {
        if !verbatim_like(base@) {
            lemma_join_keeps_plain(base@, "Larian Studios"@, x@);
            lemma_join_keeps_plain(x@, "Baldur's Gate 3"@, y@);
            lemma_join_keeps_plain(y@, "Script Extender"@, z@);
            lemma_join_keeps_plain(z@, "perfect-run"@, d@);
            assert(joined(base@, "Larian Studios"@, x@) && joined(x@, "Baldur's Gate 3"@, y@)
                && joined(y@, "Script Extender"@, z@));
        }
    }
    Some(d)
}

/// `p` is the file `name` in the communication directory below `base` (of a
/// base that may be a verbatim path, nothing is said).
pub open spec fn ipc_file_path(base: Seq<char>, name: Seq<char>, p: Seq<char>) -> bool {
    !verbatim_like(base) ==> exists|d: Seq<char>| #[trigger] joined(d, name, p) && joined4(base, "Larian Studios"@,
        "Baldur's Gate 3"@, "Script Extender"@, "perfect-run"@, d)
}

/// The file in the communication directory named `name`.
fn ipc_file(local_app_data: Option<String>, name: &str) -> (r: Option<String>)
    requires
        plain_component(name@),
    ensures
        r is Some <==> local_app_data is Some,
        r matches Some(p) ==> ipc_file_path(local_app_data.unwrap()@, name@, p@),
{
    let ghost input = local_app_data;
    match ipc_dir(local_app_data) {
        Some(d) => {
            let p = join_path(d.as_str(), name);
            proof {
                if !verbatim_like(input.unwrap()@) {
                    assert(joined(d@, name@, p@));
                }
            }
            assert(ipc_file_path(input.unwrap()@, name@, p@));
            Some(p)
        },
        None => None,
    }
}

/// Path to the config file the overlay writes and the mod reads:
/// `config.json` in the communication directory.
pub fn config_path(local_app_data: Option<String>) -> (r: Option<String>)
    ensures
        r is Some <==> local_app_data is Some,
        r matches Some(p) ==> ipc_file_path(local_app_data.unwrap()@, "config.json"@, p@),
{
    proof {
        reveal_strlit("config.json");
    }
    ipc_file(local_app_data, "config.json")
}

/// Path to the status file the mod writes and the overlay reads:
/// `status.json` in the communication directory.
pub fn status_path(local_app_data: Option<String>) -> (r: Option<String>)
    ensures
        r is Some <==> local_app_data is Some,
        r matches Some(p) ==> ipc_file_path(local_app_data.unwrap()@, "status.json"@, p@),
{
    proof {
        reveal_strlit("status.json");
    }
    ipc_file(local_app_data, "status.json")
}

/// `s` ends with `t`.
pub open spec fn ends_with_text(s: Seq<char>, t: Seq<char>) -> bool {
    t.len() <= s.len() && s.subrange(s.len() - t.len(), s.len() as int) == t
}

/// Joining a name onto a directory gives a path that starts with the directory
/// and ends with the name.
proof fn lemma_joined_ends(d: Seq<char>, name: Seq<char>, p: Seq<char>)
    requires
        joined(d, name, p),
    ensures
        ends_with_text(p, name),
        d.len() <= p.len() && p.subrange(0, d.len() as int) == d,
{
    if p == d + name {
        assert(p.subrange(p.len() - name.len(), p.len() as int) =~= name);
        assert(p.subrange(0, d.len() as int) =~= d);
    } else if p == d + seq!['/'] + name {
        assert(p.subrange(p.len() - name.len(), p.len() as int) =~= name);
        assert(p.subrange(0, d.len() as int) =~= d);
    } else {
        assert(p.subrange(p.len() - name.len(), p.len() as int) =~= name);
        assert(p.subrange(0, d.len() as int) =~= d);
    }
}

/// The config and status files are two different files of the communication
/// directory: each path ends with its file name, and the two paths differ.
pub proof fn law_config_and_status_differ(base: Seq<char>, config: Seq<char>, status: Seq<char>)
    requires
        !verbatim_like(base),
        ipc_file_path(base, "config.json"@, config),
        ipc_file_path(base, "status.json"@, status),
    ensures
        ends_with_text(config, "config.json"@),
        ends_with_text(status, "status.json"@),
        config != status,
{
    reveal_strlit("config.json");
    reveal_strlit("status.json");
    let d1 = choose|d: Seq<char>| #[trigger] joined(d, "config.json"@, config) && joined4(base, "Larian Studios"@,
        "Baldur's Gate 3"@, "Script Extender"@, "perfect-run"@, d);
    let d2 = choose|d: Seq<char>| #[trigger] joined(d, "status.json"@, status) && joined4(base, "Larian Studios"@,
        "Baldur's Gate 3"@, "Script Extender"@, "perfect-run"@, d);
    lemma_joined_ends(d1, "config.json"@, config);
    lemma_joined_ends(d2, "status.json"@, status);
    if config == status {
        assert(config.subrange(config.len() - 11, config.len() as int)[0] == 'c');
        assert(status.subrange(status.len() - 11, status.len() as int)[0] == 's');
    }
}

/// Files joined onto one communication directory share it: both paths start
/// with the directory, and the config and status paths differ.
pub proof fn law_ipc_files_share_dir(dir: Seq<char>, config: Seq<char>, status: Seq<char>)
    requires
        joined(dir, "config.json"@, config),
        joined(dir, "status.json"@, status),
    ensures
        config.subrange(0, dir.len() as int) == dir,
        status.subrange(0, dir.len() as int) == dir,
        config != status,
{
    reveal_strlit("config.json");
    reveal_strlit("status.json");
    lemma_joined_ends(dir, "config.json"@, config);
    lemma_joined_ends(dir, "status.json"@, status);
    if config == status {
        assert(config.subrange(config.len() - 11, config.len() as int)[0] == 'c');
        assert(status.subrange(status.len() - 11, status.len() as int)[0] == 's');
    }
}

} // verus!
