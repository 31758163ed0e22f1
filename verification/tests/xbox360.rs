use chd_studio::settings::Settings;
use chd_studio::xbox360::{args, build_args, extract_args, is_mode, probe_args, tool_for};

fn settings(trim: bool, skip: bool, threads: u32) -> Settings {
    Settings {
        preset: String::new(),
        threads,
        overwrite: false,
        verify_after: false,
        delete_source: false,
        parallel: 1,
        xbox_trim: trim,
        xbox_skip_update: skip,
        chdman_path: None,
    }
}

fn strs(v: &[&str]) -> Vec<String> {
    v.iter().map(|s| s.to_string()).collect()
}

#[test]
fn xbox_modes_and_tools() {
    assert!(is_mode("iso2god"));
    assert!(is_mode("iso2folder"));
    assert!(is_mode("folder2iso"));
    assert!(!is_mode("iso2cso"));
    assert_eq!(tool_for("iso2god"), Some("iso2god"));
    assert_eq!(tool_for("iso2folder"), Some("xiso"));
    assert_eq!(tool_for("folder2iso"), Some("xiso"));
    assert_eq!(tool_for("createcd"), None);
}

#[test]
fn xbox_god_args() {
    assert_eq!(args("g.iso", "out", &settings(false, false, 0)), strs(&["g.iso", "out"]));
    assert_eq!(
        args("g.iso", "out", &settings(true, false, 8)),
        strs(&["--trim", "-j", "8", "g.iso", "out"])
    );
    assert_eq!(args("g.iso", "out", &settings(false, true, 3)), strs(&["-j", "3", "g.iso", "out"]));
}

#[test]
fn xbox_probe_args() {
    assert_eq!(probe_args("g.iso"), strs(&["--dry-run", "g.iso", "."]));
}

#[test]
fn xbox_extract_args() {
    assert_eq!(
        extract_args("g.iso", "dir", &settings(false, false, 4)),
        strs(&["-x", "-d", "dir", "g.iso"])
    );
    assert_eq!(
        extract_args("g.iso", "dir", &settings(false, true, 0)),
        strs(&["-x", "-s", "-d", "dir", "g.iso"])
    );
}

#[test]
fn xbox_build_args() {
    assert_eq!(build_args("dir", "g.iso"), strs(&["-c", "dir", "g.iso"]));
}

#[test]
fn xbox_and_psp_modes_do_not_overlap() {
    for m in ["iso2god", "iso2folder", "folder2iso", "iso2cso", "iso2zso", "iso2dax", "cso2iso"] {
        assert!(!(is_mode(m) && chd_studio::psp::is_mode(m)), "{m}");
    }
}

#[test]
fn default_settings_trim_xbox_discs() {
    let d = Settings::default();
    assert!(d.xbox_trim);
    assert_eq!(d.preset, "balanced");
    assert_eq!(d.threads, 0);
    assert_eq!(d.parallel, 1);
    assert!(!d.verify_after && !d.delete_source && !d.overwrite && !d.xbox_skip_update);
    assert_eq!(d.chdman_path, None);
    assert_eq!(args("game.iso", "out", &d), vec!["--trim", "game.iso", "out"]);
}
