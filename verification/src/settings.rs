//! The user settings that the command builders and the queue read.
use vstd::prelude::*;

verus! {

/// Preferences chosen in the settings screen.
#[derive(Debug)]
pub struct Settings {
    /// General effort preset: `fast`, `max`, or anything else for the
    /// balanced default.
    pub preset: String,
    /// Worker threads handed to the tools; 0 lets each tool decide.
    pub threads: u32,
    /// Let chdman overwrite an existing output file.
    pub overwrite: bool,
    /// Run `chdman verify` on every CHD that was just created.
    pub verify_after: bool,
    /// Delete the source once a compressed copy has been produced.
    pub delete_source: bool,
    /// How many jobs may run at the same time (0 counts as 1).
    pub parallel: usize,
    /// Have iso2god trim the padding area of Xbox 360 discs.
    pub xbox_trim: bool,
    /// Have extract-xiso skip the `$SystemUpdate` folder.
    pub xbox_skip_update: bool,
    /// A chdman executable chosen by hand, if any.
    pub chdman_path: Option<String>,
}

/// The settings of a fresh install: the balanced preset, one job at a
/// time, each tool choosing its threads, nothing overwritten, checked or
/// deleted, and the Xbox 360 padding trimmed.
pub open spec fn is_default(s: Settings) -> bool {
    &&& s.preset@ == "balanced"@
    &&& s.threads == 0
    &&& !s.overwrite
    &&& !s.verify_after
    &&& !s.delete_source
    &&& s.parallel == 1
    &&& s.xbox_trim
    &&& !s.xbox_skip_update
    &&& s.chdman_path is None
}

impl Default for Settings {
    fn default() -> (r: Settings)
        ensures
            is_default(r),
    {
        Settings {
            preset: "balanced".to_owned(),
            threads: 0,
            overwrite: false,
            verify_after: false,
            delete_source: false,
            parallel: 1,
            xbox_trim: true,
            xbox_skip_update: false,
            chdman_path: None,
        }
    }
}

} // verus!
