use chd_studio::tools::{
    external_candidates, external_match, external_prefix, installable, join_path_exec, locate_plan, pick_python,
    python_status_from, same_name, sibling_plan, spec, status_from, tools, tools_dir, venv_dir,
    version_arg, version_line, Layout, Probe, Source, ToolKind,
};

fn unix() -> Layout {
    Layout { config: "/home/u/.config/chd-studio".to_string(), sep: '/' }
}

fn windows() -> Layout {
    Layout { config: "C:\\Users\\u\\AppData\\Roaming\\chd-studio".to_string(), sep: '\\' }
}

#[test]
fn registry_has_every_tool_once() {
    let all = tools();
    assert_eq!(all.len(), 14);
    for t in &all {
        assert_eq!(spec(t.id), Some(*t));
        assert_eq!(all.iter().filter(|u| u.id == t.id).count(), 1);
    }
    assert_eq!(all[0].id, "chdman");
    assert_eq!(all[13].id, "wit");
}

#[test]
fn spec_finds_by_id() {
    let t = spec("ctrtool").unwrap();
    assert_eq!(t.name, "ctrtool");
    assert_eq!(
        t.kind,
        ToolKind::Github { repo: "3DSGuy/Project_CTR", asset: "win_x64", tag: "ctrtool" }
    );
    assert_eq!(spec("ps3iso").unwrap().exe, "extractps3iso");
    assert_eq!(spec("nsz").unwrap().kind, ToolKind::Python { package: "nsz" });
    assert_eq!(spec("desconocida"), None);
    assert_eq!(spec("CHDMAN"), None);
}

#[test]
fn installable_kinds() {
    assert!(!installable(&ToolKind::Bundled));
    assert!(!installable(&ToolKind::External { site: "x" }));
    assert!(installable(&ToolKind::Python { package: "nsz" }));
    assert!(installable(&spec("wit").unwrap().kind));
    assert!(installable(&spec("maxcso").unwrap().kind));
}

#[test]
fn layout_folders_unix() {
    let l = unix();
    assert_eq!(l.venv_dir(), "/home/u/.config/chd-studio/pyenv");
    assert_eq!(l.venv_bin(), "/home/u/.config/chd-studio/pyenv/bin");
    assert_eq!(l.tools_dir(), "/home/u/.config/chd-studio/tools");
    assert_eq!(l.exe_name("nsz"), "nsz");
}

#[test]
fn layout_folders_windows() {
    let l = windows();
    assert_eq!(l.venv_dir(), "C:\\Users\\u\\AppData\\Roaming\\chd-studio\\pyenv");
    assert_eq!(l.venv_bin(), "C:\\Users\\u\\AppData\\Roaming\\chd-studio\\pyenv\\Scripts");
    assert_eq!(l.exe_name("nsz"), "nsz.exe");
}

#[test]
fn join_adds_a_separator_only_when_missing() {
    assert_eq!(join_path_exec("a", "b", '/'), "a/b");
    assert_eq!(join_path_exec("a/", "b", '/'), "a/b");
    assert_eq!(join_path_exec("", "b", '/'), "b");
    assert_eq!(join_path_exec("a", "b", '\\'), "a\\b");
    assert_eq!(join_path_exec("a/", "b", '\\'), "a/b");
    assert_eq!(join_path_exec("a\\", "b", '/'), "a\\/b");
}

#[test]
fn app_folders_of_this_machine() {
    // the separator comes from the platform; on this machine it is '/'
    let l = Layout::current();
    assert_eq!(l.sep, std::path::MAIN_SEPARATOR);
    assert!(l.config.ends_with("/chd-studio"));
    assert!(venv_dir().ends_with("/chd-studio/pyenv"));
    assert!(tools_dir().ends_with("/chd-studio/tools"));
    assert_eq!(venv_dir(), l.venv_dir());
}

#[test]
fn locate_plan_for_a_github_tool() {
    let l = unix();
    let plan = locate_plan("maxcso", Some("/opt/maxcso".to_string()), None, &l);
    assert_eq!(
        plan,
        vec![
            Probe::File { path: "/opt/maxcso".to_string(), source: Source::Manual },
            Probe::File { path: "/home/u/.config/chd-studio/pyenv/bin/maxcso".to_string(), source: Source::Venv },
            Probe::Bundled { name: "maxcso".to_string() },
            Probe::File { path: "/home/u/.config/chd-studio/tools/maxcso/maxcso".to_string(), source: Source::Tools },
            Probe::Search { dir: "/home/u/.config/chd-studio/tools/maxcso".to_string(), name: "maxcso".to_string() },
            Probe::Which { exe: "maxcso".to_string() },
        ]
    );
}

#[test]
fn locate_plan_for_an_outside_tool_on_windows() {
    let l = windows();
    let plan = locate_plan("dolphintool", None, None, &l);
    assert_eq!(plan.len(), 6);
    assert_eq!(plan[0], Probe::File {
        path: "C:\\Users\\u\\AppData\\Roaming\\chd-studio\\pyenv\\Scripts\\DolphinTool.exe".to_string(),
        source: Source::Venv,
    });
    assert_eq!(plan[4], Probe::Which { exe: "DolphinTool".to_string() });
    assert_eq!(plan[5], Probe::External { id: "dolphintool".to_string(), name: "DolphinTool.exe".to_string() });
}

#[test]
fn locate_plan_for_chdman_and_unknown() {
    let l = unix();
    assert_eq!(
        locate_plan("chdman", Some("/x".to_string()), Some("/mame/chdman".to_string()), &l),
        vec![
            Probe::File { path: "/mame/chdman".to_string(), source: Source::Manual },
            Probe::File { path: "/home/u/.config/chd-studio/bin/chdman".to_string(), source: Source::App },
            Probe::Bundled { name: "chdman".to_string() },
            Probe::Which { exe: "chdman".to_string() },
            Probe::Mame { name: "chdman".to_string() },
        ]
    );
    let w = windows();
    let plan = locate_plan("chdman", None, None, &w);
    assert_eq!(plan.len(), 4);
    assert_eq!(plan[0], Probe::File {
        path: "C:\\Users\\u\\AppData\\Roaming\\chd-studio\\bin\\chdman.exe".to_string(),
        source: Source::App,
    });
    assert_eq!(plan[3], Probe::Mame { name: "chdman.exe".to_string() });
    assert!(locate_plan("nada", Some("/x".to_string()), None, &l).is_empty());
}

#[test]
fn sibling_plan_looks_in_the_download() {
    let l = unix();
    assert_eq!(
        sibling_plan("ps3iso", "makeps3iso", &l),
        vec![
            Probe::File { path: "/home/u/.config/chd-studio/tools/ps3iso/makeps3iso".to_string(), source: Source::Tools },
            Probe::Search { dir: "/home/u/.config/chd-studio/tools/ps3iso".to_string(), name: "makeps3iso".to_string() },
            Probe::Bundled { name: "makeps3iso".to_string() },
            Probe::Which { exe: "makeps3iso".to_string() },
        ]
    );
}

#[test]
fn names_compare_ignoring_ascii_case() {
    assert!(same_name("DolphinTool.EXE", "dolphintool.exe"));
    assert!(!same_name("dolphintool.ex", "dolphintool.exe"));
    assert!(!same_name("ñ", "Ñ"));
}

#[test]
fn outside_program_folders() {
    assert_eq!(external_prefix("dolphintool"), Some("dolphin"));
    assert_eq!(external_prefix("wit"), None);
    assert!(external_match("Dolphin-x64", "dolphin"));
    assert!(external_match("dolphin", "dolphin"));
    assert!(!external_match("Dolphi", "dolphin"));
    assert!(!external_match("my dolphin", "dolphin"));
}

#[test]
fn status_of_found_tool() {
    let t = spec("iso2god").unwrap();
    let st = status_from(
        t,
        Some(("/t/iso2god".to_string(), Source::Tools)),
        Some("iso2god 1.5".to_string()),
    );
    assert!(st.found);
    assert_eq!(st.id, "iso2god");
    assert_eq!(st.family, "xbox360");
    assert_eq!(st.path.as_deref(), Some("/t/iso2god"));
    assert_eq!(st.source.as_deref(), Some("tools"));
    assert_eq!(st.version.as_deref(), Some("iso2god 1.5"));
    assert!(st.installable);
}

#[test]
fn status_of_missing_tool() {
    let t = spec("chdman").unwrap();
    let st = status_from(t, None, Some("ignorada".to_string()));
    assert!(!st.found);
    assert_eq!(st.path, None);
    assert_eq!(st.source, None);
    assert_eq!(st.version, None);
    assert!(!st.installable);
}

#[test]
fn version_arguments() {
    assert_eq!(version_arg("z3ds"), "--help");
    assert_eq!(version_arg("4nxci"), "--help");
    assert_eq!(version_arg("ps3iso"), "--help");
    assert_eq!(version_arg("dolphintool"), "--help");
    assert_eq!(version_arg("chdman"), "--version");
}

#[test]
fn version_lines() {
    assert_eq!(version_line("\n  \r\n  maxcso v1.13.0  \nmore"), Some("maxcso v1.13.0".to_string()));
    assert_eq!(version_line("Usage: tool [options]"), None);
    assert_eq!(version_line("   USAGE tool"), None);
    assert_eq!(version_line(""), None);
    assert_eq!(version_line(" \n\t\n"), None);
    let long = "v".repeat(120);
    assert_eq!(version_line(&long), Some("v".repeat(90)));
    // characters, not bytes, are counted
    let wide = "é".repeat(100);
    assert_eq!(version_line(&wide).unwrap().chars().count(), 90);
}

#[test]
fn python_status() {
    let st = python_status_from(Some("/usr/bin/python3".to_string()), Some("Python 3.12.1\n".to_string()), true);
    assert!(st.found);
    assert_eq!(st.version.as_deref(), Some("Python 3.12.1"));
    assert!(st.venv_ready);
    let none = python_status_from(None, Some("x".to_string()), false);
    assert!(!none.found);
    assert_eq!(none.version, None);
}

#[test]
fn python_choice_follows_the_documented_order() {
    let alias = Some("C:\\Users\\u\\AppData\\Local\\Microsoft\\WindowsApps\\python.exe".to_string());
    let real = Some("C:\\Python312\\python.exe".to_string());
    let py = Some("C:\\Windows\\py.exe".to_string());
    assert_eq!(pick_python(real.clone(), py.clone()), real);
    assert_eq!(pick_python(alias.clone(), py.clone()), py);
    assert_eq!(pick_python(None, py.clone()), py);
    assert_eq!(pick_python(Some("/usr/bin/python".to_string()), None), Some("/usr/bin/python".to_string()));
    assert_eq!(pick_python(alias, None), None);
    assert_eq!(pick_python(None, None), None);
}

#[test]
fn sources_have_documented_names() {
    let names: Vec<&str> = [Source::Bundled, Source::Manual, Source::App, Source::Venv, Source::Tools, Source::Path]
        .iter()
        .map(|s| s.as_str())
        .collect();
    assert_eq!(names, vec!["bundled", "manual", "app", "venv", "tools", "path"]);
    assert_eq!(Probe::Which { exe: "x".into() }.source(), Source::Path);
    assert_eq!(Probe::External { id: "d".into(), name: "D".into() }.source(), Source::Path);
    assert_eq!(Probe::Mame { name: "chdman".into() }.source(), Source::Path);
    assert_eq!(Probe::Search { dir: "d".into(), name: "n".into() }.source(), Source::Tools);
    assert_eq!(Probe::Bundled { name: "n".into() }.source(), Source::Bundled);
    assert_eq!(Probe::File { path: "p".into(), source: Source::Venv }.source(), Source::Venv);
    let st = status_from(spec("wit").unwrap(), Some(("/usr/bin/wit".into(), Source::Path)), None);
    assert_eq!(st.source.as_deref(), Some("path"));
}

#[test]
fn layout_from_the_user_folder() {
    let l = Layout::from_base(Some("/home/u/.config".to_string()), '/');
    assert_eq!(l.config, "/home/u/.config/chd-studio");
    assert_eq!(l.sep, '/');
    let w = Layout::from_base(Some("C:\\Users\\u\\AppData\\Roaming".to_string()), '\\');
    assert_eq!(w.config, "C:\\Users\\u\\AppData\\Roaming\\chd-studio");
    assert_eq!(w.venv_dir(), "C:\\Users\\u\\AppData\\Roaming\\chd-studio\\pyenv");
    let none = Layout::from_base(None, '/');
    assert_eq!(none.config, "./chd-studio");
    assert_eq!(none.tools_dir(), "./chd-studio/tools");
}

#[test]
fn this_machine_uses_its_config_folder() {
    let l = Layout::current();
    let expected = match dirs::config_dir() {
        Some(b) => Layout::from_base(Some(b.to_string_lossy().into_owned()), std::path::MAIN_SEPARATOR),
        None => Layout::from_base(None, std::path::MAIN_SEPARATOR),
    };
    assert_eq!(l.config, expected.config);
    assert_eq!(venv_dir(), expected.venv_dir());
    assert_eq!(tools_dir(), expected.tools_dir());
    assert_ne!(venv_dir(), tools_dir());
}

#[test]
fn install_button_matches_status() {
    for t in tools() {
        let st = status_from(t, None, None);
        assert_eq!(st.installable, chd_studio::install::install_action(t.id).is_ok(), "{}", t.id);
    }
}

#[test]
fn every_mode_tool_is_registered() {
    for m in ["iso2god", "iso2folder", "folder2iso"] {
        assert!(spec(chd_studio::xbox360::tool_for(m).unwrap()).is_some());
    }
    assert!(spec("maxcso").is_some());
    assert!(spec("chdman").is_some());
}

#[test]
fn external_candidates_try_bin_then_the_folder() {
    let found = vec![
        ("C:\\Dolphin-x64".to_string(), "Dolphin-x64".to_string()),
        ("C:\\Games".to_string(), "Games".to_string()),
        ("C:\\dolphin-emu".to_string(), "dolphin-emu".to_string()),
    ];
    assert_eq!(
        external_candidates(&found, "dolphin", '\\'),
        vec!["C:\\Dolphin-x64\\bin", "C:\\Dolphin-x64", "C:\\dolphin-emu\\bin", "C:\\dolphin-emu"]
    );
    assert!(external_candidates(&found, "pcsx2", '\\').is_empty());
    assert!(external_candidates(&vec![], "dolphin", '\\').is_empty());
}
