//! Registry of the outside tools that CHD Studio drives.
//!
//! Each console needs its own executable and each one is obtained in a
//! different way: chdman travels inside the installer, `nsz` is a Python
//! package and `4nxci` is a binary published on GitHub. This module unifies
//! how they are found and installed so that the interface treats them alike.
use vstd::prelude::*;
use crate::text::{cat, eq_str, is_ws, lines, lower, starts_with, trim, trim_str};
use crate::text::{chars_of, lines_exec, lower_chars, starts_with_exec, string_of_range};
use crate::text::{push_arg, trim_bounds, views};

verus! {

/// How a tool is obtained.
#[derive(Clone, Copy, Debug, PartialEq, Eq)]
pub enum ToolKind {
    /// Travels inside the CHD Studio installer.
    Bundled,
    /// Installed with pip inside the app's private environment.
    Python { package: &'static str },
    /// Downloaded from the latest release of a GitHub repository.
    Github {
        repo: &'static str,
        /// Fragment that the asset's name must contain.
        asset: &'static str,
        /// Prefix of the release tag, for repositories that publish several
        /// tools separately; empty means simply the latest release.
        tag: &'static str,
    },
    /// Has to be obtained separately; the app looks where it is usually
    /// installed and lets the user point at it.
    External { site: &'static str },
    /// Downloaded from an ordinary web page, through the first link that
    /// contains some text.
    Web {
        /// Page with the list of downloads
        page: &'static str,
        /// Root for relative links
        base: &'static str,
        /// Fragment that the link must contain
        contains: &'static str,
    },
}

/// One registered tool.
#[derive(Clone, Copy, Debug, PartialEq, Eq)]
pub struct ToolSpec {
    pub id: &'static str,
    pub name: &'static str,
    /// Name of the executable, without extension.
    pub exe: &'static str,
    pub kind: ToolKind,
    /// What it is for, in one line.
    pub purpose: &'static str,
    /// Platform it belongs to: chd | switch | 3ds | ps3 | xbox360 | psp | wii
    pub family: &'static str,
    /// License, to show it in the interface.
    pub license: &'static str,
}

/// Whether CHD Studio can install a tool of this kind by itself.
pub open spec fn kind_installable(kind: ToolKind) -> bool {
    !(kind is Bundled || kind is External)
}

/// The registered tools, in the order the interface lists them.
pub open spec fn tool_table() -> Seq<ToolSpec> {
    seq![
        ToolSpec {
            id: "chdman",
            name: "chdman",
            exe: "chdman",
            kind: ToolKind::Bundled,
            purpose: "Crea y extrae archivos CHD",
            family: "chd",
            license: "GPL-2.0-or-later (MAME)",
        },
        ToolSpec {
            id: "nsz",
            name: "nsz",
            exe: "nsz",
            kind: ToolKind::Python { package: "nsz" },
            purpose: "Comprime y descomprime NSP/NSZ y XCI/XCZ",
            family: "switch",
            license: "MIT",
        },
        ToolSpec {
            id: "4nxci",
            name: "4NXCI",
            exe: "4nxci",
            kind: ToolKind::Github { repo: "tetj/4NXCI-2026", asset: ".exe", tag: "" },
            purpose: "Convierte cartuchos XCI a NSP",
            family: "switch",
            license: "ISC",
        },
        ToolSpec {
            id: "z3ds",
            name: "z3ds_compressor",
            exe: "z3ds_compressor",
            kind: ToolKind::Github { repo: "energeticokay/z3ds_compress", asset: "windows", tag: "" },
            purpose: "Comprime ROMs al formato Z3DS que lee Azahar",
            family: "3ds",
            license: "GPL-2.0",
        },
        ToolSpec {
            id: "3dsconv",
            name: "3dsconv",
            exe: "3dsconv",
            kind: ToolKind::Github { repo: "ihaveamac/3dsconv", asset: ".exe", tag: "" },
            purpose: "Convierte CCI/.3ds a CIA instalable",
            family: "3ds",
            license: "MIT",
        },
        ToolSpec {
            id: "3dstool",
            name: "3dstool",
            exe: "3dstool",
            kind: ToolKind::Github { repo: "dnasdw/3dstool", asset: "3dstool.zip", tag: "" },
            purpose: "Reconstruye el contenido de 3DS ya descifrado",
            family: "3ds",
            license: "MIT",
        },
        ToolSpec {
            id: "ctrtool",
            name: "ctrtool",
            exe: "ctrtool",
            kind: ToolKind::Github { repo: "3DSGuy/Project_CTR", asset: "win_x64", tag: "ctrtool" },
            purpose: "Extrae el contenido de un CIA (paso 1 de CIA → CCI)",
            family: "3ds",
            license: "MIT",
        },
        ToolSpec {
            id: "makerom",
            name: "makerom",
            exe: "makerom",
            kind: ToolKind::Github {
                repo: "3DSGuy/Project_CTR",
                asset: "win_x86_64",
                tag: "makerom",
            },
            purpose: "Reconstruye el CCI desde el contenido (paso 2 de CIA → CCI)",
            family: "3ds",
            license: "MIT",
        },
        ToolSpec {
            id: "iso2god",
            name: "iso2god",
            exe: "iso2god",
            kind: ToolKind::Github { repo: "iliazeus/iso2god-rs", asset: "windows", tag: "" },
            purpose: "Convierte ISOs de Xbox 360 y Xbox al formato GOD",
            family: "xbox360",
            license: "MIT",
        },
        ToolSpec {
            id: "xiso",
            name: "extract-xiso",
            exe: "extract-xiso",
            kind: ToolKind::Github { repo: "XboxDev/extract-xiso", asset: "Win64_Release", tag: "" },
            purpose: "Extrae ISOs de Xbox 360 a carpeta con default.xex",
            family: "xbox360",
            license: "Ver repositorio",
        },
        ToolSpec {
            id: "ps3iso",
            name: "ps3iso-utils",
            exe: "extractps3iso",
            kind: ToolKind::Github { repo: "bucanero/ps3iso-utils", asset: "Win64", tag: "" },
            purpose: "Extrae, reconstruye y parte ISOs de PS3",
            family: "ps3",
            license: "GPL-3.0",
        },
        ToolSpec {
            id: "maxcso",
            name: "maxcso",
            exe: "maxcso",
            kind: ToolKind::Github { repo: "unknownbrackets/maxcso", asset: "windows.7z", tag: "" },
            purpose: "Comprime ISOs de PSP a CSO, ZSO o DAX",
            family: "psp",
            license: "ISC",
        },
        ToolSpec {
            id: "dolphintool",
            name: "DolphinTool",
            exe: "DolphinTool",
            kind: ToolKind::External { site: "https://dolphin-emu.org/download/" },
            purpose: "Convierte discos de Wii y GameCube a RVZ",
            family: "wii",
            license: "GPL-2.0 (Dolphin)",
        },
        ToolSpec {
            id: "wit",
            name: "Wiimms ISO Tools",
            exe: "wit",
            kind: ToolKind::Web {
                page: "https://wit.wiimm.de/download.html",
                base: "https://wit.wiimm.de",
                contains: "cygwin64.zip",
            },
            purpose: "Crea WBFS para cargadores USB de Wii",
            family: "wii",
            license: "GPL-2.0",
        },
    ]
}

/// The first entry of `table` at or after `i` whose id is `id`.
pub open spec fn lookup_from(table: Seq<ToolSpec>, id: Seq<char>, i: int) -> Option<ToolSpec>
    decreases table.len() - i,
{
    if i < 0 || i >= table.len() {
        None
    } else if table[i].id@ == id {
        Some(table[i])
    } else {
        lookup_from(table, id, i + 1)
    }
}

/// The registered tool with a given id.
pub open spec fn lookup(id: Seq<char>) -> Option<ToolSpec> {
    lookup_from(tool_table(), id, 0)
}

/// The registered tools, in the order the interface lists them.
pub fn tools() -> (v: Vec<ToolSpec>)
    ensures
        v@ == tool_table(),
{
    let mut v: Vec<ToolSpec> = Vec::new();
    v.push(
        ToolSpec {
            id: "chdman",
            name: "chdman",
            exe: "chdman",
            kind: ToolKind::Bundled,
            purpose: "Crea y extrae archivos CHD",
            family: "chd",
            license: "GPL-2.0-or-later (MAME)",
        },
    );
    v.push(
        ToolSpec {
            id: "nsz",
            name: "nsz",
            exe: "nsz",
            kind: ToolKind::Python { package: "nsz" },
            purpose: "Comprime y descomprime NSP/NSZ y XCI/XCZ",
            family: "switch",
            license: "MIT",
        },
    );
    v.push(
        ToolSpec {
            id: "4nxci",
            name: "4NXCI",
            exe: "4nxci",
            // The only asset is called `4nxci.exe`, without a platform in the name
            kind: ToolKind::Github { repo: "tetj/4NXCI-2026", asset: ".exe", tag: "" },
            purpose: "Convierte cartuchos XCI a NSP",
            family: "switch",
            license: "ISC",
        },
    );
    v.push(
        ToolSpec {
            id: "z3ds",
            name: "z3ds_compressor",
            exe: "z3ds_compressor",
            kind: ToolKind::Github { repo: "energeticokay/z3ds_compress", asset: "windows", tag: "" },
            purpose: "Comprime ROMs al formato Z3DS que lee Azahar",
            family: "3ds",
            license: "GPL-2.0",
        },
    );
    v.push(
        ToolSpec {
            id: "3dsconv",
            name: "3dsconv",
            exe: "3dsconv",
            kind: ToolKind::Github { repo: "ihaveamac/3dsconv", asset: ".exe", tag: "" },
            purpose: "Convierte CCI/.3ds a CIA instalable",
            family: "3ds",
            license: "MIT",
        },
    );
    v.push(
        ToolSpec {
            id: "3dstool",
            name: "3dstool",
            exe: "3dstool",
            kind: ToolKind::Github { repo: "dnasdw/3dstool", asset: "3dstool.zip", tag: "" },
            purpose: "Reconstruye el contenido de 3DS ya descifrado",
            family: "3ds",
            license: "MIT",
        },
    );
    v.push(
        ToolSpec {
            id: "ctrtool",
            name: "ctrtool",
            exe: "ctrtool",
            // Project_CTR publishes each tool under its own tag prefix
            kind: ToolKind::Github { repo: "3DSGuy/Project_CTR", asset: "win_x64", tag: "ctrtool" },
            purpose: "Extrae el contenido de un CIA (paso 1 de CIA → CCI)",
            family: "3ds",
            license: "MIT",
        },
    );
    v.push(
        ToolSpec {
            id: "makerom",
            name: "makerom",
            exe: "makerom",
            kind: ToolKind::Github {
                repo: "3DSGuy/Project_CTR",
                asset: "win_x86_64",
                tag: "makerom",
            },
            purpose: "Reconstruye el CCI desde el contenido (paso 2 de CIA → CCI)",
            family: "3ds",
            license: "MIT",
        },
    );
    v.push(
        ToolSpec {
            id: "iso2god",
            name: "iso2god",
            exe: "iso2god",
            kind: ToolKind::Github { repo: "iliazeus/iso2god-rs", asset: "windows", tag: "" },
            purpose: "Convierte ISOs de Xbox 360 y Xbox al formato GOD",
            family: "xbox360",
            license: "MIT",
        },
    );
    v.push(
        ToolSpec {
            id: "xiso",
            name: "extract-xiso",
            exe: "extract-xiso",
            kind: ToolKind::Github { repo: "XboxDev/extract-xiso", asset: "Win64_Release", tag: "" },
            purpose: "Extrae ISOs de Xbox 360 a carpeta con default.xex",
            family: "xbox360",
            license: "Ver repositorio",
        },
    );
    v.push(
        ToolSpec {
            id: "ps3iso",
            name: "ps3iso-utils",
            exe: "extractps3iso",
            kind: ToolKind::Github { repo: "bucanero/ps3iso-utils", asset: "Win64", tag: "" },
            purpose: "Extrae, reconstruye y parte ISOs de PS3",
            family: "ps3",
            license: "GPL-3.0",
        },
    );
    v.push(
        ToolSpec {
            id: "maxcso",
            name: "maxcso",
            exe: "maxcso",
            // "windows.7z" tells the 64-bit build from "windows-32bit.7z"
            kind: ToolKind::Github { repo: "unknownbrackets/maxcso", asset: "windows.7z", tag: "" },
            purpose: "Comprime ISOs de PSP a CSO, ZSO o DAX",
            family: "psp",
            license: "ISC",
        },
    );
    v.push(
        ToolSpec {
            id: "dolphintool",
            name: "DolphinTool",
            exe: "DolphinTool",
            kind: ToolKind::External { site: "https://dolphin-emu.org/download/" },
            purpose: "Convierte discos de Wii y GameCube a RVZ",
            family: "wii",
            license: "GPL-2.0 (Dolphin)",
        },
    );
    v.push(
        ToolSpec {
            id: "wit",
            name: "Wiimms ISO Tools",
            exe: "wit",
            // The page lists the versions from newest to oldest
            kind: ToolKind::Web {
                page: "https://wit.wiimm.de/download.html",
                base: "https://wit.wiimm.de",
                contains: "cygwin64.zip",
            },
            purpose: "Crea WBFS para cargadores USB de Wii",
            family: "wii",
            license: "GPL-2.0",
        },
    );
    assert(v@ =~= tool_table());
    v
}

/// The registered tool with a given id.
pub fn spec(id: &str) -> (r: Option<ToolSpec>)
    ensures
        r == lookup(id@),
{
    let table = tools();
    let mut i: usize = 0;
    while i < table.len()
        invariant
            table@ == tool_table(),
            i <= table.len(),
            lookup(id@) == lookup_from(tool_table(), id@, i as int),
        decreases table.len() - i,
    {
        if eq_str(table[i].id, id) {
            return Some(table[i]);
        }
        i += 1;
    }
    None
}

/// Every registered tool is found by its own id: no two tools share one.
pub proof fn lemma_lookup_own_id(i: int)
    requires
        0 <= i < tool_table().len(),
    ensures
        lookup(tool_table()[i].id@) == Some(tool_table()[i]),
{
    reveal_strlit("chdman");
    reveal_strlit("nsz");
    reveal_strlit("4nxci");
    reveal_strlit("z3ds");
    reveal_strlit("3dsconv");
    reveal_strlit("3dstool");
    reveal_strlit("ctrtool");
    reveal_strlit("makerom");
    reveal_strlit("iso2god");
    reveal_strlit("xiso");
    reveal_strlit("ps3iso");
    reveal_strlit("maxcso");
    reveal_strlit("dolphintool");
    reveal_strlit("wit");
    let t = tool_table();
    if i == 1 {
        assert(t[0].id@.len() != t[1].id@.len());
    } else if i == 2 {
        assert(t[0].id@.len() != t[2].id@.len());
        assert(t[1].id@.len() != t[2].id@.len());
    } else if i == 3 {
        assert(t[0].id@.len() != t[3].id@.len());
        assert(t[1].id@.len() != t[3].id@.len());
        assert(t[2].id@.len() != t[3].id@.len());
    } else if i == 4 {
        assert(t[0].id@.len() != t[4].id@.len());
        assert(t[1].id@.len() != t[4].id@.len());
        assert(t[2].id@.len() != t[4].id@.len());
        assert(t[3].id@.len() != t[4].id@.len());
    } else if i == 5 {
        assert(t[0].id@.len() != t[5].id@.len());
        assert(t[1].id@.len() != t[5].id@.len());
        assert(t[2].id@.len() != t[5].id@.len());
        assert(t[3].id@.len() != t[5].id@.len());
        assert(t[4].id@[3] != t[5].id@[3]);
    } else if i == 6 {
        assert(t[0].id@.len() != t[6].id@.len());
        assert(t[1].id@.len() != t[6].id@.len());
        assert(t[2].id@.len() != t[6].id@.len());
        assert(t[3].id@.len() != t[6].id@.len());
        assert(t[4].id@[0] != t[6].id@[0]);
        assert(t[5].id@[0] != t[6].id@[0]);
    } else if i == 7 {
        assert(t[0].id@.len() != t[7].id@.len());
        assert(t[1].id@.len() != t[7].id@.len());
        assert(t[2].id@.len() != t[7].id@.len());
        assert(t[3].id@.len() != t[7].id@.len());
        assert(t[4].id@[0] != t[7].id@[0]);
        assert(t[5].id@[0] != t[7].id@[0]);
        assert(t[6].id@[0] != t[7].id@[0]);
    } else if i == 8 {
        assert(t[0].id@.len() != t[8].id@.len());
        assert(t[1].id@.len() != t[8].id@.len());
        assert(t[2].id@.len() != t[8].id@.len());
        assert(t[3].id@.len() != t[8].id@.len());
        assert(t[4].id@[0] != t[8].id@[0]);
        assert(t[5].id@[0] != t[8].id@[0]);
        assert(t[6].id@[0] != t[8].id@[0]);
        assert(t[7].id@[0] != t[8].id@[0]);
    } else if i == 9 {
        assert(t[0].id@.len() != t[9].id@.len());
        assert(t[1].id@.len() != t[9].id@.len());
        assert(t[2].id@.len() != t[9].id@.len());
        assert(t[3].id@[0] != t[9].id@[0]);
        assert(t[4].id@.len() != t[9].id@.len());
        assert(t[5].id@.len() != t[9].id@.len());
        assert(t[6].id@.len() != t[9].id@.len());
        assert(t[7].id@.len() != t[9].id@.len());
        assert(t[8].id@.len() != t[9].id@.len());
    } else if i == 10 {
        assert(t[0].id@[0] != t[10].id@[0]);
        assert(t[1].id@.len() != t[10].id@.len());
        assert(t[2].id@.len() != t[10].id@.len());
        assert(t[3].id@.len() != t[10].id@.len());
        assert(t[4].id@.len() != t[10].id@.len());
        assert(t[5].id@.len() != t[10].id@.len());
        assert(t[6].id@.len() != t[10].id@.len());
        assert(t[7].id@.len() != t[10].id@.len());
        assert(t[8].id@.len() != t[10].id@.len());
        assert(t[9].id@.len() != t[10].id@.len());
    } else if i == 11 {
        assert(t[0].id@[0] != t[11].id@[0]);
        assert(t[1].id@.len() != t[11].id@.len());
        assert(t[2].id@.len() != t[11].id@.len());
        assert(t[3].id@.len() != t[11].id@.len());
        assert(t[4].id@.len() != t[11].id@.len());
        assert(t[5].id@.len() != t[11].id@.len());
        assert(t[6].id@.len() != t[11].id@.len());
        assert(t[7].id@.len() != t[11].id@.len());
        assert(t[8].id@.len() != t[11].id@.len());
        assert(t[9].id@.len() != t[11].id@.len());
        assert(t[10].id@[0] != t[11].id@[0]);
    } else if i == 12 {
        assert(t[0].id@.len() != t[12].id@.len());
        assert(t[1].id@.len() != t[12].id@.len());
        assert(t[2].id@.len() != t[12].id@.len());
        assert(t[3].id@.len() != t[12].id@.len());
        assert(t[4].id@.len() != t[12].id@.len());
        assert(t[5].id@.len() != t[12].id@.len());
        assert(t[6].id@.len() != t[12].id@.len());
        assert(t[7].id@.len() != t[12].id@.len());
        assert(t[8].id@.len() != t[12].id@.len());
        assert(t[9].id@.len() != t[12].id@.len());
        assert(t[10].id@.len() != t[12].id@.len());
        assert(t[11].id@.len() != t[12].id@.len());
    } else if i == 13 {
        assert(t[0].id@.len() != t[13].id@.len());
        assert(t[1].id@[0] != t[13].id@[0]);
        assert(t[2].id@.len() != t[13].id@.len());
        assert(t[3].id@.len() != t[13].id@.len());
        assert(t[4].id@.len() != t[13].id@.len());
        assert(t[5].id@.len() != t[13].id@.len());
        assert(t[6].id@.len() != t[13].id@.len());
        assert(t[7].id@.len() != t[13].id@.len());
        assert(t[8].id@.len() != t[13].id@.len());
        assert(t[9].id@.len() != t[13].id@.len());
        assert(t[10].id@.len() != t[13].id@.len());
        assert(t[11].id@.len() != t[13].id@.len());
        assert(t[12].id@.len() != t[13].id@.len());
    }
    lemma_lookup_skip(t, t[i].id@, 0, i);
}

proof fn lemma_lookup_skip(table: Seq<ToolSpec>, id: Seq<char>, from: int, i: int)
    requires
        0 <= from <= i < table.len(),
        table[i].id@ == id,
        forall|j: int| from <= j < i ==> table[j].id@ != id,
    ensures
        lookup_from(table, id, from) == Some(table[i]),
    decreases i - from,
{
    if from < i {
        lemma_lookup_skip(table, id, from + 1, i);
    }
}

} // verus!

verus! {

// ------------------------------------------------------------------ folders

/// Whether `c` separates path components on a platform whose main separator
/// is `sep` (`/` is accepted everywhere).
pub open spec fn is_sep(c: char, sep: char) -> bool {
    c == sep || c == '/'
}

/// `base` with the relative component `part` appended, the way
/// `Path::join` adds a separator only where one is missing.
pub open spec fn join_path(base: Seq<char>, part: Seq<char>, sep: char) -> Seq<char> {
    if base.len() == 0 || is_sep(base.last(), sep) {
        base + part
    } else {
        base.push(sep) + part
    }
}

/// Appends a relative path component.
pub fn join_path_exec(base: &str, part: &str, sep: char) -> (r: String)
    ensures
        r@ == join_path(base@, part@, sep),
{
    let v = chars_of(base);
    let mut r = base.to_owned();
    if v.len() > 0 && v[v.len() - 1] != sep && v[v.len() - 1] != '/' {
        r.push(sep);
    }
    r.append(part);
    r
}

/// Where the app keeps its own files on this machine.
#[derive(Debug)]
pub struct Layout {
    /// The app's configuration folder.
    pub config: String,
    /// The main path separator of the platform.
    pub sep: char,
}

/// The user's configuration folder, through `dirs::config_dir`.
///
/// The value depends on the environment (`%APPDATA%` on Windows,
/// `$XDG_CONFIG_HOME` or `~/.config` on Linux, ...), so nothing is stated of
/// it, not even that it is present.
#[verifier::external_body]
fn user_config_dir() -> (r: Option<String>) {
    dirs::config_dir().map(|p| p.to_string_lossy().into_owned())
}

/// `std::path::MAIN_SEPARATOR`, which the documentation gives as `\` on
/// Windows and `/` on Unix.
#[verifier::external_body]
fn main_separator() -> (c: char)
    ensures
        c == '/' || c == '\\',
{
    std::path::MAIN_SEPARATOR
}

/// The folder in which the app's folder is made: the user's configuration
/// folder, or the working folder (`.`) when there is none.
pub open spec fn config_base(base: Option<Seq<char>>) -> Seq<char> {
    match base {
        Some(b) => b,
        None => "."@,
    }
}

pub open spec fn venv_dir_of(l: Layout) -> Seq<char> {
    join_path(l.config@, "pyenv"@, l.sep)
}

pub open spec fn venv_bin_of(l: Layout) -> Seq<char> {
    join_path(
        venv_dir_of(l),
        if l.is_windows() {
            "Scripts"@
        } else {
            "bin"@
        },
        l.sep,
    )
}

pub open spec fn tools_dir_of(l: Layout) -> Seq<char> {
    join_path(l.config@, "tools"@, l.sep)
}

pub open spec fn exe_name_of(l: Layout, base: Seq<char>) -> Seq<char> {
    if l.is_windows() {
        base + ".exe"@
    } else {
        base
    }
}

impl Layout {
    /// Windows is the platform whose main separator is `\`.
    pub open spec fn is_windows(&self) -> bool {
        self.sep == '\\'
    }

    /// The layout for a user configuration folder (none when it cannot be
    /// determined) and a main separator: the app keeps its files in a
    /// `chd-studio` folder inside the configuration folder, or inside the
    /// working folder when there is none.
    pub fn from_base(base: Option<String>, sep: char) -> (r: Layout)
        ensures
            r.sep == sep,
            r.config@ == join_path(config_base(opt_view(base)), "chd-studio"@, sep),
    {
        let config = match base {
            Some(b) => join_path_exec(b.as_str(), "chd-studio", sep),
            None => join_path_exec(".", "chd-studio", sep),
        };
        Layout { config, sep }
    }

    /// The layout of this machine, from the user's configuration folder and
    /// the platform's main separator.
    pub fn current() -> (r: Layout)
        ensures
            r.sep == '/' || r.sep == '\\',
            exists|base: Option<Seq<char>>|
                r.config@ == #[trigger] join_path(config_base(base), "chd-studio"@, r.sep),
    {
        let base = user_config_dir();
        let sep = main_separator();
        let ghost b = opt_view(base);
        let r = Layout::from_base(base, sep);
        assert(r.config@ == join_path(config_base(b), "chd-studio"@, r.sep));
        r
    }

    /// The app's private Python environment, so as not to touch the
    /// system's.
    pub fn venv_dir(&self) -> (r: String)
        ensures
            r@ == venv_dir_of(*self),
    {
        join_path_exec(self.config.as_str(), "pyenv", self.sep)
    }

    /// Folder of the executables inside the private Python environment.
    pub fn venv_bin(&self) -> (r: String)
        ensures
            r@ == venv_bin_of(*self),
    {
        let dir = self.venv_dir();
        if self.sep == '\\' {
            join_path_exec(dir.as_str(), "Scripts", self.sep)
        } else {
            join_path_exec(dir.as_str(), "bin", self.sep)
        }
    }

    /// Folder where the binaries downloaded from GitHub are left.
    pub fn tools_dir(&self) -> (r: String)
        ensures
            r@ == tools_dir_of(*self),
    {
        join_path_exec(self.config.as_str(), "tools", self.sep)
    }

    /// File name of an executable on this platform.
    pub fn exe_name(&self, base: &str) -> (r: String)
        ensures
            r@ == exe_name_of(*self, base@),
    {
        if self.sep == '\\' {
            cat(base, ".exe")
        } else {
            base.to_owned()
        }
    }
}

/// The app's private Python environment on this machine: `pyenv` in the
/// app's `chd-studio` folder.
pub fn venv_dir() -> (r: String)
    ensures
        exists|base: Option<Seq<char>>, sep: char|
            (sep == '/' || sep == '\\') && r@ == #[trigger] join_path(
                join_path(config_base(base), "chd-studio"@, sep),
                "pyenv"@,
                sep,
            ),
{
    let l = Layout::current();
    let r = l.venv_dir();
    let ghost base = choose|base: Option<Seq<char>>|
        l.config@ == #[trigger] join_path(config_base(base), "chd-studio"@, l.sep);
    assert(r@ == join_path(join_path(config_base(base), "chd-studio"@, l.sep), "pyenv"@, l.sep));
    r
}

/// Folder of this machine where downloaded tools are left: `tools` in the
/// app's `chd-studio` folder.
pub fn tools_dir() -> (r: String)
    ensures
        exists|base: Option<Seq<char>>, sep: char|
            (sep == '/' || sep == '\\') && r@ == #[trigger] join_path(
                join_path(config_base(base), "chd-studio"@, sep),
                "tools"@,
                sep,
            ),
{
    let l = Layout::current();
    let r = l.tools_dir();
    let ghost base = choose|base: Option<Seq<char>>|
        l.config@ == #[trigger] join_path(config_base(base), "chd-studio"@, l.sep);
    assert(r@ == join_path(join_path(config_base(base), "chd-studio"@, l.sep), "tools"@, l.sep));
    r
}

// ------------------------------------------------------------------ locating

/// Where a tool was found, as the tool screen names it.
#[derive(PartialEq, Eq, Structural, Clone, Copy, Debug)]
pub enum Source {
    /// Shipped with the installer.
    Bundled,
    /// The path chosen by hand in the settings.
    Manual,
    /// The app's internal folder.
    App,
    /// The app's private Python environment.
    Venv,
    /// The app's download folder.
    Tools,
    /// Found on the system: in the `PATH`, or in the usual install folders
    /// of the program that carries the tool.
    Path,
}

/// The name of a source on the tool screen.
pub open spec fn source_name(s: Source) -> Seq<char> {
    match s {
        Source::Bundled => "bundled"@,
        Source::Manual => "manual"@,
        Source::App => "app"@,
        Source::Venv => "venv"@,
        Source::Tools => "tools"@,
        Source::Path => "path"@,
    }
}

/// The sources the tool screen knows: bundled | manual | app | venv |
/// tools | path.
pub open spec fn is_documented_source(name: Seq<char>) -> bool {
    name == "bundled"@ || name == "manual"@ || name == "app"@ || name == "venv"@ || name
        == "tools"@ || name == "path"@
}

impl Source {
    /// The name of the source on the tool screen.
    pub fn as_str(&self) -> (r: &'static str)
        ensures
            r@ == source_name(*self),
    {
        match self {
            Source::Bundled => "bundled",
            Source::Manual => "manual",
            Source::App => "app",
            Source::Venv => "venv",
            Source::Tools => "tools",
            Source::Path => "path",
        }
    }
}

/// Every source has one of the names the tool screen documents.
pub proof fn lemma_sources_documented(s: Source)
    ensures
        is_documented_source(source_name(s)),
{
}

/// One place to look for an executable.
#[derive(Debug, PartialEq, Eq)]
pub enum Probe {
    /// The folders where MAME is usually installed, each joined with
    /// `name` (chdman comes with MAME).
    Mame { name: String },
    /// A file path to test; `source` tells where it came from.
    File { path: String, source: Source },
    /// The folders shipped with the installer, each joined with `name`.
    Bundled { name: String },
    /// A search of `dir` and its subfolders (three levels down) for a file
    /// named `name`, ignoring ASCII case.
    Search { dir: String, name: String },
    /// A lookup of `exe` in the `PATH`.
    Which { exe: String },
    /// The folders where the program that carries tool `id` is usually
    /// installed, each joined with `name`.
    External { id: String, name: String },
}

/// A [`Probe`] with its strings seen as character sequences.
pub enum ProbeView {
    Mame { name: Seq<char> },
    File { path: Seq<char>, source: Source },
    Bundled { name: Seq<char> },
    Search { dir: Seq<char>, name: Seq<char> },
    Which { exe: Seq<char> },
    External { id: Seq<char>, name: Seq<char> },
}

pub open spec fn opt_view(o: Option<String>) -> Option<Seq<char>> {
    match o {
        Some(s) => Some(s@),
        None => None,
    }
}

impl View for Probe {
    type V = ProbeView;

    open spec fn view(&self) -> ProbeView {
        match self {
            Probe::Mame { name } => ProbeView::Mame { name: name@ },
            Probe::File { path, source } => ProbeView::File { path: path@, source: *source },
            Probe::Bundled { name } => ProbeView::Bundled { name: name@ },
            Probe::Search { dir, name } => ProbeView::Search { dir: dir@, name: name@ },
            Probe::Which { exe } => ProbeView::Which { exe: exe@ },
            Probe::External { id, name } => ProbeView::External { id: id@, name: name@ },
        }
    }
}

pub open spec fn probe_views(v: Seq<Probe>) -> Seq<ProbeView> {
    v.map_values(|p: Probe| p@)
}

/// Where a hit of a probe counts as found.
pub open spec fn probe_source(p: ProbeView) -> Source {
    match p {
        ProbeView::Mame { .. } => Source::Path,
        ProbeView::File { source, .. } => source,
        ProbeView::Bundled { .. } => Source::Bundled,
        ProbeView::Search { .. } => Source::Tools,
        ProbeView::Which { .. } => Source::Path,
        ProbeView::External { .. } => Source::Path,
    }
}

impl Probe {
    /// Where a hit of this probe counts as found: the installer's folders
    /// are `bundled`, the download folder `tools`, the `PATH` and the usual
    /// install folders of MAME or of a carrying program `path`.
    pub fn source(&self) -> (r: Source)
        ensures
            r == probe_source(self@),
    {
        match self {
            Probe::Mame { .. } => Source::Path,
            Probe::File { source, .. } => *source,
            Probe::Bundled { .. } => Source::Bundled,
            Probe::Search { .. } => Source::Tools,
            Probe::Which { .. } => Source::Path,
            Probe::External { .. } => Source::Path,
        }
    }
}

/// Where to look for chdman, in order: the path chosen in the settings,
/// the app's internal folder (`bin` in its configuration folder), the copy
/// shipped with the installer, the `PATH`, and the usual MAME installs.
pub open spec fn chdman_plan_spec(chdman_path: Option<Seq<char>>, l: Layout) -> Seq<ProbeView> {
    let name = exe_name_of(l, "chdman"@);
    (match chdman_path {
        Some(p) => seq![ProbeView::File { path: p, source: Source::Manual }],
        None => seq![],
    }) + seq![
        ProbeView::File {
            path: join_path(join_path(l.config@, "bin"@, l.sep), name, l.sep),
            source: Source::App,
        },
        ProbeView::Bundled { name: name },
        ProbeView::Which { exe: "chdman"@ },
        ProbeView::Mame { name: name },
    ]
}

/// Where to look for a tool, in order of preference: the path chosen by
/// hand, the private Python environment, the installer's folders, the
/// download folder (directly, then its subfolders), the `PATH`, and for
/// outside tools the usual install folders of the program that carries them.
/// chdman keeps its own search.
pub open spec fn locate_plan_spec(
    id: Seq<char>,
    manual: Option<Seq<char>>,
    chdman_path: Option<Seq<char>>,
    l: Layout,
) -> Seq<ProbeView> {
    match lookup(id) {
        None => seq![],
        Some(t) => if id == "chdman"@ {
            chdman_plan_spec(chdman_path, l)
        } else {
            let name = exe_name_of(l, t.exe@);
            let own = join_path(tools_dir_of(l), id, l.sep);
            (match manual {
                Some(p) => seq![ProbeView::File { path: p, source: Source::Manual }],
                None => seq![],
            }) + seq![
                ProbeView::File { path: join_path(venv_bin_of(l), name, l.sep), source: Source::Venv },
                ProbeView::Bundled { name: name },
                ProbeView::File { path: join_path(own, name, l.sep), source: Source::Tools },
                ProbeView::Search { dir: own, name: name },
                ProbeView::Which { exe: t.exe@ },
            ] + (if t.kind is External {
                seq![ProbeView::External { id: id, name: name }]
            } else {
                seq![]
            })
        },
    }
}

fn push_probe(v: &mut Vec<Probe>, p: Probe)
    ensures
        probe_views(final(v)@) == probe_views(old(v)@).push(p@),
{
    let ghost before = probe_views(v@);
    v.push(p);
    assert(probe_views(v@) =~= before.push(p@));
}

/// The places to look for chdman, in order.
pub fn chdman_plan(chdman_path: Option<String>, l: &Layout) -> (r: Vec<Probe>)
    ensures
        probe_views(r@) == chdman_plan_spec(opt_view(chdman_path), *l),
{
    let mut v: Vec<Probe> = Vec::new();
    let ghost first: Seq<ProbeView>;
    match chdman_path {
        Some(p) => {
            push_probe(&mut v, Probe::File { path: p, source: Source::Manual });
            proof {
                first = seq![ProbeView::File { path: p@, source: Source::Manual }];
            }
        },
        None => {
            proof {
                first = seq![];
            }
        },
    }
    assert(probe_views(v@) =~= first);
    let name = l.exe_name("chdman");
    let bin = join_path_exec(l.config.as_str(), "bin", l.sep);
    push_probe(&mut v, Probe::File { path: join_path_exec(bin.as_str(), name.as_str(), l.sep), source: Source::App });
    push_probe(&mut v, Probe::Bundled { name: name.clone() });
    push_probe(&mut v, Probe::Which { exe: "chdman".to_owned() });
    push_probe(&mut v, Probe::Mame { name });
    assert(probe_views(v@) =~= chdman_plan_spec(opt_view(chdman_path), *l));
    v
}

/// The places to look for tool `id`, in order; the first that holds the
/// executable wins. `manual` is the path chosen by hand for this tool and
/// `chdman_path` the one chosen for chdman.
pub fn locate_plan(id: &str, manual: Option<String>, chdman_path: Option<String>, l: &Layout) -> (r:
    Vec<Probe>)
    ensures
        probe_views(r@) == locate_plan_spec(id@, opt_view(manual), opt_view(chdman_path), *l),
{
    let mut v: Vec<Probe> = Vec::new();
    let t = match spec(id) {
        Some(t) => t,
        None => {
            assert(probe_views(v@) =~= Seq::<ProbeView>::empty());
            return v;
        },
    };
    if eq_str(id, "chdman") {
        return chdman_plan(chdman_path, l);
    }
    let ghost first: Seq<ProbeView>;
    match manual {
        Some(p) => {
            push_probe(&mut v, Probe::File { path: p, source: Source::Manual });
            proof {
                first = seq![ProbeView::File { path: p@, source: Source::Manual }];
            }
        },
        None => {
            proof {
                first = seq![];
            }
        },
    }
    assert(probe_views(v@) =~= first);
    let name = l.exe_name(t.exe);
    let tools = l.tools_dir();
    let own = join_path_exec(tools.as_str(), id, l.sep);
    let bin = l.venv_bin();
    push_probe(&mut v, Probe::File { path: join_path_exec(bin.as_str(), name.as_str(), l.sep), source: Source::Venv });
    push_probe(&mut v, Probe::Bundled { name: name.clone() });
    push_probe(&mut v, Probe::File { path: join_path_exec(own.as_str(), name.as_str(), l.sep), source: Source::Tools });
    push_probe(&mut v, Probe::Search { dir: own, name: name.clone() });
    push_probe(&mut v, Probe::Which { exe: t.exe.to_owned() });
    if let ToolKind::External { .. } = t.kind {
        push_probe(&mut v, Probe::External { id: id.to_owned(), name });
    }
    assert(probe_views(v@) =~= locate_plan_spec(id@, opt_view(manual), opt_view(chdman_path), *l));
    v
}

/// Where to look for another executable `exe` that comes in the same
/// download as tool `id` (ps3iso-utils ships four programs, each in its own
/// subfolder): the download folder directly, its subfolders, the
/// installer's folders and the `PATH`.
pub open spec fn sibling_plan_spec(id: Seq<char>, exe: Seq<char>, l: Layout) -> Seq<ProbeView> {
    let name = exe_name_of(l, exe);
    let own = join_path(tools_dir_of(l), id, l.sep);
    seq![
        ProbeView::File { path: join_path(own, name, l.sep), source: Source::Tools },
        ProbeView::Search { dir: own, name: name },
        ProbeView::Bundled { name: name },
        ProbeView::Which { exe: exe },
    ]
}

/// The places to look for executable `exe` of the download of tool `id`.
pub fn sibling_plan(id: &str, exe: &str, l: &Layout) -> (r: Vec<Probe>)
    ensures
        probe_views(r@) == sibling_plan_spec(id@, exe@, *l),
{
    let name = l.exe_name(exe);
    let tools = l.tools_dir();
    let own = join_path_exec(tools.as_str(), id, l.sep);
    let mut v: Vec<Probe> = Vec::new();
    push_probe(&mut v, Probe::File { path: join_path_exec(own.as_str(), name.as_str(), l.sep), source: Source::Tools });
    push_probe(&mut v, Probe::Search { dir: own, name: name.clone() });
    push_probe(&mut v, Probe::Bundled { name });
    push_probe(&mut v, Probe::Which { exe: exe.to_owned() });
    assert(probe_views(v@) =~= sibling_plan_spec(id@, exe@, *l));
    v
}

/// File names compared the way `eq_ignore_ascii_case` does.
pub fn same_name(a: &str, b: &str) -> (r: bool)
    ensures
        r == (lower(a@) == lower(b@)),
{
    let la = lower_chars(&chars_of(a));
    let lb = lower_chars(&chars_of(b));
    crate::text::eq_chars(&la, &lb)
}

/// Folder-name prefix of the program that carries an outside tool.
pub fn external_prefix(id: &str) -> (r: Option<&'static str>)
    ensures
        r matches Some(p) ==> id@ == "dolphintool"@ && p@ == "dolphin"@,
        r is None ==> id@ != "dolphintool"@,
{
    if eq_str(id, "dolphintool") {
        Some("dolphin")
    } else {
        None
    }
}

/// Whether an installed program's folder name starts with `prefix`,
/// ignoring ASCII case. ASCII folding suffices because the prefixes are
/// ASCII lower case, and no character outside ASCII lower-cases to an ASCII
/// letter other than `K` (Kelvin sign) and `İ`, whose lower-case forms
/// (`k`, `i` + combining dot) cannot complete the word `dolphin`.
pub fn external_match(dir_name: &str, prefix: &str) -> (r: bool)
    ensures
        r == starts_with(lower(dir_name@), prefix@),
{
    starts_with_exec(&lower_chars(&chars_of(dir_name)), &chars_of(prefix))
}

/// Folders of a listing, each as its path and its name.
pub open spec fn entry_views(v: Seq<(String, String)>) -> Seq<(Seq<char>, Seq<char>)> {
    v.map_values(|e: (String, String)| (e.0@, e.1@))
}

/// The folders to try for a tool that comes inside another program: for each
/// folder of the listing whose name starts with the program's (ASCII case
/// ignored), in the listing's order, its `bin` folder and then the folder
/// itself.
pub open spec fn external_candidates_spec(
    entries: Seq<(Seq<char>, Seq<char>)>,
    prefix: Seq<char>,
    sep: char,
) -> Seq<Seq<char>>
    decreases entries.len(),
{
    if entries.len() == 0 {
        seq![]
    } else {
        let rest = external_candidates_spec(entries.drop_last(), prefix, sep);
        let (path, name) = entries.last();
        if starts_with(lower(name), prefix) {
            rest + seq![join_path(path, "bin"@, sep), path]
        } else {
            rest
        }
    }
}

/// The folders to try for a tool that comes inside another program, from the
/// folders found in the places where such programs get installed.
pub fn external_candidates(entries: &Vec<(String, String)>, prefix: &str, sep: char) -> (r: Vec<
    String,
>)
    ensures
        views(r@) == external_candidates_spec(entry_views(entries@), prefix@, sep),
{
    let ghost ev = entry_views(entries@);
    let mut r: Vec<String> = Vec::new();
    let mut i: usize = 0;
    while i < entries.len()
        invariant
            i <= entries.len(),
            ev == entry_views(entries@),
            ev.len() == entries.len(),
            views(r@) == external_candidates_spec(ev.take(i as int), prefix@, sep),
        decreases entries.len() - i,
    {
        let path = &entries[i].0;
        let name = &entries[i].1;
        proof {
            assert(ev.take(i + 1).drop_last() =~= ev.take(i as int));
            assert(ev.take(i + 1).last() == (path@, name@));
        }
        if external_match(name.as_str(), prefix) {
            let ghost before = views(r@);
            push_arg(&mut r, join_path_exec(path.as_str(), "bin", sep));
            push_arg(&mut r, path.clone());
            assert(views(r@) =~= before + seq![join_path(path@, "bin"@, sep), path@]);
        }
        i += 1;
    }
    assert(ev.take(entries.len() as int) =~= ev);
    r
}

// ------------------------------------------------------------------ status

/// What the interface shows of one tool.
#[derive(Debug)]
pub struct ToolStatus {
    pub id: &'static str,
    pub name: &'static str,
    pub purpose: &'static str,
    pub family: &'static str,
    pub license: &'static str,
    pub kind: ToolKind,
    pub found: bool,
    pub path: Option<String>,
    pub version: Option<String>,
    /// bundled | manual | app | venv | tools | path
    pub source: Option<String>,
    /// true when CHD Studio can install it by itself
    pub installable: bool,
}

/// Whether CHD Studio can install a tool of this kind by itself.
pub fn installable(kind: &ToolKind) -> (r: bool)
    ensures
        r == kind_installable(*kind),
{
    match kind {
        ToolKind::Bundled => false,
        ToolKind::External { .. } => false,
        _ => true,
    }
}

/// The status of tool `t`, given where it was found (path and source) and
/// the version line it reported, if any.
pub fn status_from(t: ToolSpec, located: Option<(String, Source)>, version: Option<String>) -> (r:
    ToolStatus)
    ensures
        r.id == t.id,
        r.name == t.name,
        r.purpose == t.purpose,
        r.family == t.family,
        r.license == t.license,
        r.kind == t.kind,
        r.found == (located is Some),
        r.path == (match located {
            Some((p, _)) => Some(p),
            None => None,
        }),
        opt_view(r.source) == (match located {
            Some((_, s)) => Some(source_name(s)),
            None => None,
        }),
        r.version == (if located is Some {
            version
        } else {
            None
        }),
        r.source matches Some(x) ==> is_documented_source(x@),
        r.installable == kind_installable(t.kind),
{
    let (found, path, source, version) = match located {
        Some((p, s)) => (true, Some(p), Some(s.as_str().to_owned()), version),
        None => (false, None, None, None),
    };
    ToolStatus {
        id: t.id,
        name: t.name,
        purpose: t.purpose,
        family: t.family,
        license: t.license,
        kind: t.kind,
        found,
        path,
        source,
        version,
        installable: installable(&t.kind),
    }
}

/// Argument that makes a tool print its version. The PS3 tools enter an
/// interactive mode on arguments they do not know, so those get the one they
/// document.
pub fn version_arg(id: &str) -> (r: &'static str)
    ensures
        r@ == (if id@ == "z3ds"@ || id@ == "4nxci"@ || id@ == "ps3iso"@ || id@ == "dolphintool"@ {
            "--help"@
        } else {
            "--version"@
        }),
{
    if eq_str(id, "z3ds") || eq_str(id, "4nxci") || eq_str(id, "ps3iso") || eq_str(
        id,
        "dolphintool",
    ) {
        "--help"
    } else {
        "--version"
    }
}

/// The first line of `ls` that is not blank, trimmed.
pub open spec fn first_nonblank(ls: Seq<Seq<char>>) -> Option<Seq<char>>
    decreases ls.len(),
{
    if ls.len() == 0 {
        None
    } else if trim(ls[0]).len() > 0 {
        Some(trim(ls[0]))
    } else {
        first_nonblank(ls.drop_first())
    }
}

/// The version a tool reported: its first non-blank line, trimmed and cut
/// to 90 characters, unless it is a usage message.
pub open spec fn version_line_spec(text: Seq<char>) -> Option<Seq<char>> {
    match first_nonblank(lines(text)) {
        None => None,
        Some(l) => if starts_with(lower(l), "usage"@) {
            None
        } else if l.len() <= 90 {
            Some(l)
        } else {
            Some(l.take(90))
        },
    }
}

/// Picks the version line out of what a tool printed. Several tools have no
/// version flag and print their usage instead; nothing is shown then.
/// ASCII folding suffices for the `usage` test: no character outside ASCII
/// lower-cases to one of its letters.
pub fn version_line(text: &str) -> (r: Option<String>)
    ensures
        opt_view(r) == version_line_spec(text@),
{
    let tv = chars_of(text);
    let ls = lines_exec(&tv);
    let mut i: usize = 0;
    assert(views(ls@).skip(0) =~= views(ls@));
    while i < ls.len()
        invariant
            i <= ls.len(),
            views(ls@) == lines(text@),
            first_nonblank(lines(text@)) == first_nonblank(views(ls@).skip(i as int)),
        decreases ls.len() - i,
    {
        let lv = chars_of(ls[i].as_str());
        let (a, b) = trim_bounds(&lv);
        assert(views(ls@).skip(i as int).drop_first() =~= views(ls@).skip(i + 1));
        assert(views(ls@).skip(i as int)[0] == ls@[i as int]@);
        if a < b {
            let t = crate::text::string_of_range(&lv, a, b);
            let tl = chars_of(t.as_str());
            let lowt = lower_chars(&tl);
            let usage = chars_of("usage");
            if starts_with_exec(&lowt, &usage) {
                return None;
            }
            if tl.len() <= 90 {
                return Some(t);
            } else {
                return Some(string_of_range(&tl, 0, 90));
            }
        }
        i += 1;
    }
    None
}

// ------------------------------------------------------------------ python

/// What the interface shows of the Python installation.
#[derive(Debug)]
pub struct PythonStatus {
    pub found: bool,
    pub path: Option<String>,
    pub version: Option<String>,
    pub venv_ready: bool,
}

/// The Python status, given the interpreter found (if any), what it printed
/// for `--version` and whether the private environment already has pip.
pub fn python_status_from(path: Option<String>, version_output: Option<String>, venv_ready: bool) -> (r:
    PythonStatus)
    ensures
        r.found == (path is Some),
        r.path == path,
        r.venv_ready == venv_ready,
        opt_view(r.version) == (match (path, version_output) {
            (Some(_), Some(o)) => Some(trim(o@)),
            _ => None,
        }),
{
    let version = match (&path, &version_output) {
        (Some(_), Some(o)) => Some(trim_str(o.as_str())),
        _ => None,
    };
    PythonStatus { found: path.is_some(), path, version, venv_ready }
}

/// Whether an interpreter found in the `PATH` can be used: the Windows
/// Store alias lives under `WindowsApps` and runs nothing.
pub open spec fn usable_python(p: Option<String>) -> bool {
    match p {
        Some(s) => !crate::text::contains(s@, "WindowsApps"@),
        None => false,
    }
}

/// Picks the interpreter as documented: first `python` (skipping the Store
/// alias), then the `py` launcher.
pub fn pick_python(python: Option<String>, py: Option<String>) -> (r: Option<String>)
    ensures
        r == (if usable_python(python) {
            python
        } else {
            py
        }),
{
    if let Some(p) = &python {
        if !crate::text::str_contains(p.as_str(), "WindowsApps") {
            return python;
        }
    }
    py
}

/// The private Python environment and the download folder are two
/// different folders, both directly inside the app's own folder.
pub proof fn lemma_app_folders(l: Layout)
    ensures
        venv_dir_of(l) == join_path(l.config@, "pyenv"@, l.sep),
        tools_dir_of(l) == join_path(l.config@, "tools"@, l.sep),
        venv_dir_of(l) != tools_dir_of(l),
{
    reveal_strlit("pyenv");
    reveal_strlit("tools");
    assert(venv_dir_of(l).last() == 'v');
    assert(tools_dir_of(l).last() == 's');
}

/// For every registered tool but chdman, the plan looks in the folder the
/// installer unpacks that tool into, `tools/<id>` in the app's folder:
/// for the executable directly in it, then through its subfolders; and no
/// probe of the plan reads any other part of the download folder.
pub proof fn lemma_plan_reads_install_folder(
    id: Seq<char>,
    manual: Option<Seq<char>>,
    chdman_path: Option<Seq<char>>,
    l: Layout,
)
    requires
        lookup(id) is Some,
        id != "chdman"@,
    ensures
        ({
            let plan = locate_plan_spec(id, manual, chdman_path, l);
            let dir = join_path(join_path(l.config@, "tools"@, l.sep), id, l.sep);
            let name = exe_name_of(l, lookup(id).unwrap().exe@);
            &&& exists|i: int|
                0 <= i < plan.len() && #[trigger] plan[i] == (ProbeView::File {
                    path: join_path(dir, name, l.sep),
                    source: Source::Tools,
                })
            &&& exists|i: int|
                0 <= i < plan.len() && #[trigger] plan[i] == (ProbeView::Search { dir: dir, name: name })
            &&& forall|i: int|
                0 <= i < plan.len() && #[trigger] plan[i] is File && plan[i]->File_source
                    == Source::Tools ==> plan[i]->File_path == join_path(dir, name, l.sep)
            &&& forall|i: int|
                0 <= i < plan.len() && #[trigger] plan[i] is Search ==> plan[i]->Search_dir
                    == dir
        }),
{
    let t = lookup(id).unwrap();
    let plan = locate_plan_spec(id, manual, chdman_path, l);
    let dir = join_path(tools_dir_of(l), id, l.sep);
    let name = exe_name_of(l, t.exe@);
    let m: Seq<ProbeView> = match manual {
        Some(p) => seq![ProbeView::File { path: p, source: Source::Manual }],
        None => seq![],
    };
    let five = seq![
        ProbeView::File { path: join_path(venv_bin_of(l), name, l.sep), source: Source::Venv },
        ProbeView::Bundled { name: name },
        ProbeView::File { path: join_path(dir, name, l.sep), source: Source::Tools },
        ProbeView::Search { dir: dir, name: name },
        ProbeView::Which { exe: t.exe@ },
    ];
    let e: Seq<ProbeView> = if t.kind is External {
        seq![ProbeView::External { id: id, name: name }]
    } else {
        seq![]
    };
    assert(plan =~= m + five + e);
    let off = m.len() as int;
    assert(plan[off + 2] == five[2]);
    assert(plan[off + 3] == five[3]);
    assert forall|i: int|
        0 <= i < plan.len() && #[trigger] plan[i] is File && plan[i]->File_source
            == Source::Tools implies plan[i]->File_path == join_path(dir, name, l.sep) by {
        if i < off {
            assert(plan[i] == m[i]);
        } else if i < off + 5 {
            assert(plan[i] == five[i - off]);
        } else {
            assert(plan[i] == e[i - off - 5]);
        }
    }
    assert forall|i: int|
        0 <= i < plan.len() && #[trigger] plan[i] is Search implies plan[i]->Search_dir
            == dir by {
        if i < off {
            assert(plan[i] == m[i]);
        } else if i < off + 5 {
            assert(plan[i] == five[i - off]);
        } else {
            assert(plan[i] == e[i - off - 5]);
        }
    }
}

} // verus!
