use chd_studio::install::{
    archive_kind, download_name, find_link, install_action, install_done_message, is_tarball_name,
    no_asset_message, no_link_message, no_release_message, pick_asset, pick_release,
    pip_failure_message, pip_install_args, releases_url, resolve_link, seven_zip_failure_message,
    tar_extract_args, temp_archive_name, url_file_name, venv_create_args, venv_failure_message,
    first_containing_exec, ArchiveKind, InstallAction,
};
use chd_studio::tools::Layout;

fn strs(v: &[&str]) -> Vec<String> {
    v.iter().map(|s| s.to_string()).collect()
}

#[test]
fn install_refuses_unknown_bundled_and_outside_tools() {
    assert_eq!(install_action("foo"), Err("Herramienta desconocida: foo".to_string()));
    assert_eq!(
        install_action("chdman"),
        Err("chdman ya viene incluida con CHD Studio".to_string())
    );
    assert_eq!(
        install_action("dolphintool"),
        Err("DolphinTool viene dentro de otro programa y hay que instalarlo aparte: https://dolphin-emu.org/download/".to_string())
    );
}

#[test]
fn install_actions_of_installable_tools() {
    assert_eq!(install_action("nsz"), Ok(InstallAction::Python { package: "nsz" }));
    assert_eq!(
        install_action("makerom"),
        Ok(InstallAction::Github { repo: "3DSGuy/Project_CTR", asset: "win_x86_64", tag: "makerom" })
    );
    assert_eq!(
        install_action("wit"),
        Ok(InstallAction::Web {
            page: "https://wit.wiimm.de/download.html",
            base: "https://wit.wiimm.de",
            contains: "cygwin64.zip"
        })
    );
}

#[test]
fn install_messages() {
    let py = InstallAction::Python { package: "nsz" };
    assert_eq!(install_done_message("nsz", &py, ""), "nsz instalado con pip");
    let gh = InstallAction::Github { repo: "r", asset: "a", tag: "" };
    assert_eq!(install_done_message("maxcso", &gh, "v1.13.0"), "maxcso v1.13.0 descargado");
    let web = InstallAction::Web { page: "p", base: "b", contains: "c" };
    assert_eq!(
        install_done_message("Wiimms ISO Tools", &web, "wit-v3.05a.zip"),
        "Wiimms ISO Tools descargado (wit-v3.05a.zip)"
    );
}

#[test]
fn pip_arguments_and_failures() {
    assert_eq!(
        pip_install_args("nsz"),
        strs(&["install", "--upgrade", "--disable-pip-version-check", "nsz"])
    );
    assert_eq!(pip_failure_message("a\nb\nc\nd\ne\nf\n"), "pip fallo: c d e f");
    assert_eq!(pip_failure_message("solo una"), "pip fallo: solo una");
    assert_eq!(pip_failure_message(""), "pip fallo: ");
    assert_eq!(venv_create_args("/c/pyenv"), strs(&["-m", "venv", "/c/pyenv"]));
    assert_eq!(
        venv_failure_message("  Error: sin permiso \n"),
        "No se pudo crear el entorno de Python: Error: sin permiso"
    );
}

#[test]
fn release_urls() {
    assert_eq!(
        releases_url("unknownbrackets/maxcso", ""),
        "https://api.github.com/repos/unknownbrackets/maxcso/releases/latest"
    );
    assert_eq!(
        releases_url("3DSGuy/Project_CTR", "ctrtool"),
        "https://api.github.com/repos/3DSGuy/Project_CTR/releases?per_page=100"
    );
}

#[test]
fn release_picked_by_tag_prefix() {
    let tags = strs(&["makerom-v0.19.0", "ctrtool-v1.2.1", "ctrtool-v1.2.0"]);
    assert_eq!(pick_release(&tags, "ctrtool"), Some(1));
    assert_eq!(pick_release(&tags, "makerom"), Some(0));
    assert_eq!(pick_release(&tags, "3dstool"), None);
    assert_eq!(pick_release(&tags, ""), Some(0));
    assert_eq!(pick_release(&vec![], "x"), None);
    assert_eq!(
        no_release_message("3DSGuy/Project_CTR", "x"),
        "3DSGuy/Project_CTR no tiene ninguna release que empiece por «x»"
    );
}

#[test]
fn asset_picked_ignoring_case() {
    let names = strs(&["maxcso_v1.13.0_windows-32bit.7z", "maxcso_v1.13.0_Windows.7z", "src.zip"]);
    assert_eq!(pick_asset(&names, "windows.7z"), Some(1));
    assert_eq!(pick_asset(&names, "WINDOWS"), Some(0));
    assert_eq!(pick_asset(&names, "linux"), None);
    // lower-casing follows Unicode, not just ASCII
    let accented = strs(&["setup.exe", "É.zip"]);
    assert_eq!(pick_asset(&accented, "é"), Some(1));
    assert_eq!(pick_asset(&strs(&["ΣΟΦΙΑ.7z"]), "σοφια"), Some(0));
    assert_eq!(
        no_asset_message("v1", "a/b", "linux"),
        "La release v1 de a/b no trae ningun archivo que contenga «linux»"
    );
}

#[test]
fn archive_kinds() {
    assert_eq!(archive_kind("tool.ZIP"), ArchiveKind::Zip);
    assert_eq!(archive_kind("tool-1.0.tar.gz"), ArchiveKind::TarGz);
    assert_eq!(archive_kind("tool.TGZ"), ArchiveKind::TarGz);
    assert_eq!(archive_kind("maxcso_windows.7z"), ArchiveKind::SevenZip);
    assert_eq!(archive_kind("iso2god-x86_64-windows.exe"), ArchiveKind::Plain);
    assert_eq!(archive_kind("zip"), ArchiveKind::Plain);
    assert!(is_tarball_name("ps3iso-utils.tar.gz"));
    assert!(is_tarball_name("X.TGZ"));
    assert!(!is_tarball_name("x.tar"));
}

#[test]
fn plain_download_names() {
    let win = Layout { config: "C:\\c".to_string(), sep: '\\' };
    let unix = Layout { config: "/c".to_string(), sep: '/' };
    assert_eq!(download_name("iso2god", "iso2god-x86_64-windows.exe", &win), "iso2god.exe");
    assert_eq!(download_name("iso2god", "iso2god-x86_64-windows.exe", &unix), "iso2god");
    assert_eq!(download_name("otra", "descarga.bin", &unix), "descarga.bin");
}

#[test]
fn seven_zip_helpers() {
    assert_eq!(temp_archive_name("maxcso.7z"), "chd-studio-maxcso.7z");
    assert_eq!(tar_extract_args("/tmp/a.7z", "/d"), strs(&["-xf", "/tmp/a.7z", "-C", "/d"]));
    assert_eq!(
        seven_zip_failure_message("\ntar: bad\n"),
        "No se pudo descomprimir el .7z: tar: bad"
    );
}

#[test]
fn first_matching_link_of_a_page() {
    let html = r#"<a href="/x/wit-v3.05a-r8638-cygwin64.zip">new</a> <a href="/x/wit-v3.04-cygwin64.zip">old</a>"#;
    assert_eq!(find_link(html, "cygwin64.zip"), Some("/x/wit-v3.05a-r8638-cygwin64.zip".to_string()));
    assert_eq!(find_link(html, "v3.04"), Some("/x/wit-v3.04-cygwin64.zip".to_string()));
    assert_eq!(find_link(html, "mac"), None);
    assert_eq!(find_link("no links here", ""), None);
    // a target without a closing quote ends where the next href starts
    assert_eq!(find_link(r#"href="abc href="def""#, "ab"), Some("abc ".to_string()));
    assert_eq!(find_link(r#"href="abc href="def""#, "de"), Some("def".to_string()));
    assert_eq!(find_link(r#"x href="tail"#, "tai"), Some("tail".to_string()));
    assert_eq!(no_link_message("c.zip", "https://p"), "No se encontro ningun enlace con «c.zip» en https://p");
}

#[test]
fn links_are_resolved_against_the_site() {
    assert_eq!(resolve_link("https://a/b.zip", "https://site"), "https://a/b.zip");
    assert_eq!(resolve_link("/dl/b.zip", "https://site"), "https://site/dl/b.zip");
    assert_eq!(resolve_link("dl/b.zip", "https://site"), "https://site/dl/b.zip");
}

#[test]
fn file_names_of_addresses() {
    assert_eq!(url_file_name("https://wit.wiimm.de/download/wit-v3.05a.zip"), "wit-v3.05a.zip");
    assert_eq!(url_file_name("noslash"), "noslash");
    assert_eq!(url_file_name("https://a/"), "");
    assert_eq!(url_file_name(""), "");
}

#[test]
fn file_names_hold_no_slash() {
    for u in ["a/b/c.zip", "/", "x", "https://h/p/q?x=1/2"] {
        assert!(!url_file_name(u).contains('/'));
    }
    assert_eq!(url_file_name("https://h/p/q?x=1/2"), "2");
}

#[test]
fn first_text_containing_a_needle() {
    let hays = strs(&["abc", "xbcx", "bc"]);
    assert_eq!(first_containing_exec(&hays, "bc"), Some(0));
    assert_eq!(first_containing_exec(&hays, "x"), Some(1));
    assert_eq!(first_containing_exec(&hays, "BC"), None);
    assert_eq!(first_containing_exec(&hays, ""), Some(0));
}
