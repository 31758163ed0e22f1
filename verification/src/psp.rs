//! PSP disc images compressed with `maxcso`.
//!
//! A UMD dumped to ISO can be stored compressed without loss, and both a
//! console with custom firmware and PPSSPP read it as it is:
//!
//!   * **CSO** - the classic format that everything understands.
//!   * **ZSO** - compressed with zstd: much faster to decompress.
//!   * **DAX** - an old format, only for old custom firmware.
//!
//! maxcso marks ZSO and DAX as experimental; CSO is the safe choice.
use vstd::prelude::*;
use crate::settings::Settings;
use crate::text::{cat, dec, eq_str, push_arg, push_str, views, with_dec};

verus! {

/// The modes this module handles: for each, the extension of its output and
/// the value handed to `--format` (empty when none is passed).
pub open spec fn mode_entry(mode: Seq<char>) -> Option<(Seq<char>, Seq<char>)> {
    if mode == "iso2cso"@ {
        Some(("cso"@, "cso1"@))
    } else if mode == "iso2zso"@ {
        Some(("zso"@, "zso"@))
    } else if mode == "iso2dax"@ {
        Some(("dax"@, "dax"@))
    } else if mode == "cso2iso"@ {
        Some(("iso"@, ""@))
    } else {
        None
    }
}

/// The `--format` value of a mode, when it has a non-empty one.
pub open spec fn format_of(mode: Seq<char>) -> Option<Seq<char>> {
    match mode_entry(mode) {
        Some((_, f)) => if f.len() > 0 {
            Some(f)
        } else {
            None
        },
        None => None,
    }
}

/// Extra compression flags chosen by the general preset.
pub open spec fn effort_flags(preset: Seq<char>) -> Seq<Seq<char>> {
    if preset == "fast"@ {
        seq!["--fast"@]
    } else if preset == "max"@ {
        seq!["--use-zopfli"@, "--use-7zdeflate"@, "--use-libdeflate"@]
    } else {
        seq![]
    }
}

/// `maxcso [--format=X] [--fast|--use-zopfli ...] [--threads=N] <in> -o <out>`
pub open spec fn args_spec(
    mode: Seq<char>,
    input: Seq<char>,
    output: Seq<char>,
    preset: Seq<char>,
    threads: u32,
) -> Seq<Seq<char>> {
    let head = if mode == "cso2iso"@ {
        seq!["--decompress"@]
    } else {
        match format_of(mode) {
            Some(f) => seq!["--format="@ + f] + effort_flags(preset),
            None => seq![],
        }
    };
    let thread_arg = if threads > 0 {
        seq!["--threads="@ + dec(threads as nat)]
    } else {
        seq![]
    };
    head + thread_arg + seq![input, "-o"@, output]
}

/// `maxcso --measure [--format=X] <in>`
pub open spec fn measure_args_spec(input: Seq<char>, mode: Seq<char>) -> Seq<Seq<char>> {
    match format_of(mode) {
        Some(f) => seq!["--measure"@, "--format="@ + f, input],
        None => seq!["--measure"@, input],
    }
}

/// Whether `mode` is one of the PSP modes.
pub fn is_mode(mode: &str) -> (r: bool)
    ensures
        r == (mode_entry(mode@) is Some),
{
    eq_str(mode, "iso2cso") || eq_str(mode, "iso2zso") || eq_str(mode, "iso2dax") || eq_str(
        mode,
        "cso2iso",
    )
}

/// Extension of the file that a mode writes.
pub fn output_ext(mode: &str) -> (r: Option<&'static str>)
    ensures
        match mode_entry(mode@) {
            Some((ext, _)) => r is Some && r.unwrap()@ == ext,
            None => r is None,
        },
{
    if eq_str(mode, "iso2cso") {
        Some("cso")
    } else if eq_str(mode, "iso2zso") {
        Some("zso")
    } else if eq_str(mode, "iso2dax") {
        Some("dax")
    } else if eq_str(mode, "cso2iso") {
        Some("iso")
    } else {
        None
    }
}

/// The `--format` value of a mode, if it passes one.
fn formato(mode: &str) -> (r: Option<&'static str>)
    ensures
        match format_of(mode@) {
            Some(f) => r is Some && r.unwrap()@ == f,
            None => r is None,
        },
{
    proof {
        reveal_strlit("cso1");
        reveal_strlit("zso");
        reveal_strlit("dax");
        reveal_strlit("");
    }
    if eq_str(mode, "iso2cso") {
        Some("cso1")
    } else if eq_str(mode, "iso2zso") {
        Some("zso")
    } else if eq_str(mode, "iso2dax") {
        Some("dax")
    } else {
        None
    }
}

/// Whether an extension belongs to a PSP image.
pub fn is_psp_ext(ext: &str) -> (r: bool)
    ensures
        r == (ext@ == "iso"@ || ext@ == "cso"@ || ext@ == "zso"@ || ext@ == "dax"@),
{
    eq_str(ext, "iso") || eq_str(ext, "cso") || eq_str(ext, "zso") || eq_str(ext, "dax")
}

/// Mode suggested for a dropped file: an ISO is compressed, anything else
/// is expanded.
pub fn suggest_mode(ext: &str) -> (r: &'static str)
    ensures
        r@ == (if ext@ == "iso"@ {
            "iso2cso"@
        } else {
            "cso2iso"@
        }),
{
    if eq_str(ext, "iso") {
        "iso2cso"
    } else {
        "cso2iso"
    }
}

/// Command line of maxcso for one conversion.
pub fn args(mode: &str, input: &str, output: &str, s: &Settings) -> (r: Vec<String>)
    ensures
        views(r@) == args_spec(mode@, input@, output@, s.preset@, s.threads),
{
    let mut a: Vec<String> = Vec::new();
    let ghost head: Seq<Seq<char>>;
    if eq_str(mode, "cso2iso") {
        push_str(&mut a, "--decompress");
        proof {
            head = seq!["--decompress"@];
        }
    } else if let Some(f) = formato(mode) {
        push_arg(&mut a, cat("--format=", f));
        if eq_str(s.preset.as_str(), "fast") {
            push_str(&mut a, "--fast");
        } else if eq_str(s.preset.as_str(), "max") {
            // Zopfli squeezes harder than zlib at the cost of much more time
            push_str(&mut a, "--use-zopfli");
            push_str(&mut a, "--use-7zdeflate");
            push_str(&mut a, "--use-libdeflate");
        }
        proof {
            head = seq!["--format="@ + f@] + effort_flags(s.preset@);
        }
    } else {
        proof {
            head = seq![];
        }
    }
    assert(views(a@) =~= head);
    if s.threads > 0 {
        push_arg(&mut a, with_dec("--threads=", s.threads as u64));
    }
    push_str(&mut a, input);
    push_str(&mut a, "-o");
    push_str(&mut a, output);
    assert(views(a@) =~= args_spec(mode@, input@, output@, s.preset@, s.threads));
    a
}

/// Arguments that make maxcso report the compressed size without writing.
pub fn measure_args(input: &str, mode: &str) -> (r: Vec<String>)
    ensures
        views(r@) == measure_args_spec(input@, mode@),
{
    let mut a: Vec<String> = Vec::new();
    push_str(&mut a, "--measure");
    if let Some(f) = formato(mode) {
        push_arg(&mut a, cat("--format=", f));
    }
    push_str(&mut a, input);
    assert(views(a@) =~= measure_args_spec(input@, mode@));
    a
}

/// The PSP modes hang together: a mode that passes a `--format` is a mode,
/// every mode writes a PSP image, and the mode suggested for any dropped
/// file is a mode.
pub proof fn lemma_modes_consistent(mode: Seq<char>, ext: Seq<char>)
    ensures
        format_of(mode) is Some ==> mode_entry(mode) is Some,
        mode_entry(mode) matches Some((e, _)) ==> (e == "iso"@ || e == "cso"@ || e == "zso"@ || e
            == "dax"@),
        mode_entry(
            if ext == "iso"@ {
                "iso2cso"@
            } else {
                "cso2iso"@
            },
        ) is Some,
{
}

/// Every maxcso command line ends with `<in> -o <out>`; in mode `cso2iso`
/// it starts with `--decompress` and passes no compression flag.
pub proof fn lemma_args_shape(
    mode: Seq<char>,
    input: Seq<char>,
    output: Seq<char>,
    preset: Seq<char>,
    threads: u32,
)
    ensures
        ({
            let a = args_spec(mode, input, output, preset, threads);
            &&& a.len() >= 3
            &&& a[a.len() - 3] == input
            &&& a[a.len() - 2] == "-o"@
            &&& a[a.len() - 1] == output
            &&& mode == "cso2iso"@ ==> a[0] == "--decompress"@ && a.len() == (if threads > 0 {
                5int
            } else {
                4int
            })
        }),
{
}

} // verus!
