use chd_studio::psp::{args, is_mode, is_psp_ext, measure_args, output_ext, suggest_mode};
use chd_studio::settings::Settings;

fn settings(preset: &str, threads: u32) -> Settings {
    Settings {
        preset: preset.to_string(),
        threads,
        overwrite: false,
        verify_after: false,
        delete_source: false,
        parallel: 1,
        xbox_trim: false,
        xbox_skip_update: false,
        chdman_path: None,
    }
}

fn strs(v: &[&str]) -> Vec<String> {
    v.iter().map(|s| s.to_string()).collect()
}

#[test]
fn psp_modes_are_known() {
    for m in ["iso2cso", "iso2zso", "iso2dax", "cso2iso"] {
        assert!(is_mode(m), "{m}");
        assert!(output_ext(m).is_some());
    }
    assert!(!is_mode("iso2god"));
    assert!(!is_mode(""));
    assert_eq!(output_ext("createcd"), None);
}

#[test]
fn psp_output_extensions() {
    assert_eq!(output_ext("iso2cso"), Some("cso"));
    assert_eq!(output_ext("iso2zso"), Some("zso"));
    assert_eq!(output_ext("iso2dax"), Some("dax"));
    assert_eq!(output_ext("cso2iso"), Some("iso"));
}

#[test]
fn psp_extensions_and_suggestion() {
    for e in ["iso", "cso", "zso", "dax"] {
        assert!(is_psp_ext(e));
    }
    assert!(!is_psp_ext("ISO"));
    assert!(!is_psp_ext("chd"));
    assert_eq!(suggest_mode("iso"), "iso2cso");
    assert_eq!(suggest_mode("cso"), "cso2iso");
    assert_eq!(suggest_mode("zso"), "cso2iso");
    // the suggested mode is always a PSP mode
    for e in ["iso", "dax", "whatever", ""] {
        assert!(is_mode(suggest_mode(e)));
    }
}

#[test]
fn psp_args_compress_fast_with_threads() {
    assert_eq!(
        args("iso2cso", "juego.iso", "juego.cso", &settings("fast", 4)),
        strs(&["--format=cso1", "--fast", "--threads=4", "juego.iso", "-o", "juego.cso"])
    );
}

#[test]
fn psp_args_compress_max() {
    assert_eq!(
        args("iso2zso", "a.iso", "a.zso", &settings("max", 0)),
        strs(&[
            "--format=zso",
            "--use-zopfli",
            "--use-7zdeflate",
            "--use-libdeflate",
            "a.iso",
            "-o",
            "a.zso"
        ])
    );
}

#[test]
fn psp_args_balanced_preset_adds_nothing() {
    assert_eq!(
        args("iso2dax", "a.iso", "a.dax", &settings("balanced", 12)),
        strs(&["--format=dax", "--threads=12", "a.iso", "-o", "a.dax"])
    );
}

#[test]
fn psp_args_decompress_ignores_preset() {
    assert_eq!(
        args("cso2iso", "a.cso", "a.iso", &settings("max", 2)),
        strs(&["--decompress", "--threads=2", "a.cso", "-o", "a.iso"])
    );
}

#[test]
fn psp_args_unknown_mode_only_files() {
    assert_eq!(args("raro", "a", "b", &settings("fast", 0)), strs(&["a", "-o", "b"]));
}

#[test]
fn psp_measure_args() {
    assert_eq!(measure_args("a.iso", "iso2cso"), strs(&["--measure", "--format=cso1", "a.iso"]));
    assert_eq!(measure_args("a.cso", "cso2iso"), strs(&["--measure", "a.cso"]));
    assert_eq!(measure_args("a.iso", "iso2zso"), strs(&["--measure", "--format=zso", "a.iso"]));
}
