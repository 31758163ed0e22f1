//! Xbox 360 (and the first Xbox) ISOs converted to GOD or extracted to a
//! folder.
//!
//! GOD stands for Games On Demand: the format the console itself uses for
//! games bought in the store. Instead of one file it is a folder with the
//! content cut in 1 GB parts, so it also fits on a FAT32 drive.
//!
//! `iso2god` does the conversion and can also trim the empty area of the
//! ISO: Xbox 360 discs carry a huge padding zone that is not needed.
use vstd::prelude::*;
use crate::settings::Settings;
use crate::text::{dec, eq_str, push_arg, push_str, views, with_dec};

verus! {

/// The modes this module handles and the tool that runs each of them.
/// Extracting to a folder leaves `default.xex` and every game file, which is
/// what launchers such as Aurora or Freestyle Dash ask for.
pub open spec fn mode_tool(mode: Seq<char>) -> Option<Seq<char>> {
    if mode == "iso2god"@ {
        Some("iso2god"@)
    } else if mode == "iso2folder"@ {
        Some("xiso"@)
    } else if mode == "folder2iso"@ {
        Some("xiso"@)
    } else {
        None
    }
}

/// `iso2god [--trim] [-j N] <iso> <dest folder>`
pub open spec fn args_spec(input: Seq<char>, dest_dir: Seq<char>, trim: bool, threads: u32) -> Seq<
    Seq<char>,
> {
    (if trim {
        seq!["--trim"@]
    } else {
        seq![]
    }) + (if threads > 0 {
        seq!["-j"@, dec(threads as nat)]
    } else {
        seq![]
    }) + seq![input, dest_dir]
}

/// `extract-xiso -x [-s] -d <folder> <iso>`
pub open spec fn extract_args_spec(input: Seq<char>, dest: Seq<char>, skip_update: bool) -> Seq<
    Seq<char>,
> {
    seq!["-x"@] + (if skip_update {
        seq!["-s"@]
    } else {
        seq![]
    }) + seq!["-d"@, dest, input]
}

/// Whether `mode` is one of the Xbox modes.
pub fn is_mode(mode: &str) -> (r: bool)
    ensures
        r == (mode_tool(mode@) is Some),
{
    eq_str(mode, "iso2god") || eq_str(mode, "iso2folder") || eq_str(mode, "folder2iso")
}

/// The tool that runs a mode.
pub fn tool_for(mode: &str) -> (r: Option<&'static str>)
    ensures
        match mode_tool(mode@) {
            Some(t) => r is Some && r.unwrap()@ == t,
            None => r is None,
        },
{
    if eq_str(mode, "iso2god") {
        Some("iso2god")
    } else if eq_str(mode, "iso2folder") || eq_str(mode, "folder2iso") {
        Some("xiso")
    } else {
        None
    }
}

/// Command line of iso2god.
pub fn args(input: &str, dest_dir: &str, s: &Settings) -> (r: Vec<String>)
    ensures
        views(r@) == args_spec(input@, dest_dir@, s.xbox_trim, s.threads),
{
    let mut a: Vec<String> = Vec::new();
    if s.xbox_trim {
        push_str(&mut a, "--trim");
    }
    if s.threads > 0 {
        push_str(&mut a, "-j");
        push_arg(&mut a, with_dec("", s.threads as u64));
    }
    push_str(&mut a, input);
    push_str(&mut a, dest_dir);
    assert(""@ + dec(s.threads as nat) =~= dec(s.threads as nat)) by {
        reveal_strlit("");
    }
    assert(views(a@) =~= args_spec(input@, dest_dir@, s.xbox_trim, s.threads));
    a
}

/// Arguments that read the game's details without converting anything.
pub fn probe_args(input: &str) -> (r: Vec<String>)
    ensures
        views(r@) == seq!["--dry-run"@, input@, "."@],
{
    let mut a: Vec<String> = Vec::new();
    push_str(&mut a, "--dry-run");
    push_str(&mut a, input);
    push_str(&mut a, ".");
    assert(views(a@) =~= seq!["--dry-run"@, input@, "."@]);
    a
}

/// Command line of extract-xiso to unpack an ISO into a folder.
///
/// extract-xiso knows the three Xbox disc formats (XGD1, XGD2 and XGD3), so
/// it serves both the first Xbox and the 360.
pub fn extract_args(input: &str, dest: &str, s: &Settings) -> (r: Vec<String>)
    ensures
        views(r@) == extract_args_spec(input@, dest@, s.xbox_skip_update),
{
    let mut a: Vec<String> = Vec::new();
    push_str(&mut a, "-x");
    if s.xbox_skip_update {
        // $SystemUpdate is the disc's updater: not needed to play
        push_str(&mut a, "-s");
    }
    push_str(&mut a, "-d");
    push_str(&mut a, dest);
    push_str(&mut a, input);
    assert(views(a@) =~= extract_args_spec(input@, dest@, s.xbox_skip_update));
    a
}

/// Command line of extract-xiso to build an ISO from a folder.
pub fn build_args(dir: &str, output: &str) -> (r: Vec<String>)
    ensures
        views(r@) == seq!["-c"@, dir@, output@],
{
    let mut a: Vec<String> = Vec::new();
    push_str(&mut a, "-c");
    push_str(&mut a, dir);
    push_str(&mut a, output);
    assert(views(a@) =~= seq!["-c"@, dir@, output@]);
    a
}

/// No mode is both a PSP mode and an Xbox mode, so the order in which a
/// front end asks the two modules does not matter.
pub proof fn lemma_modes_disjoint(mode: Seq<char>)
    ensures
        !(crate::psp::mode_entry(mode) is Some && mode_tool(mode) is Some),
{
    reveal_strlit("iso2cso");
    reveal_strlit("iso2zso");
    reveal_strlit("iso2dax");
    reveal_strlit("cso2iso");
    reveal_strlit("iso2god");
    reveal_strlit("iso2folder");
    reveal_strlit("folder2iso");
    if crate::psp::mode_entry(mode) is Some && mode_tool(mode) is Some {
        assert(mode.len() == 7);
        assert(mode[4] == 'c' || mode[4] == 'z' || mode[4] == 'd' || mode[4] == 'i');
        assert(mode[4] == 'g');
    }
}

/// With the settings of a fresh install, iso2god trims the padding of the
/// disc: its command line is `--trim`, the ISO and the destination folder.
pub proof fn lemma_trim_by_default(input: Seq<char>, dest_dir: Seq<char>, s: Settings)
    requires
        crate::settings::is_default(s),
    ensures
        args_spec(input, dest_dir, s.xbox_trim, s.threads) == seq!["--trim"@, input, dest_dir],
{
    assert(args_spec(input, dest_dir, s.xbox_trim, s.threads) =~= seq!["--trim"@, input, dest_dir]);
}

} // verus!
