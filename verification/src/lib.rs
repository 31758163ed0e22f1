//! Decision logic of CHD Studio: command lines for the disc-image tools it
//! drives, the registry of those tools, the parsers of their output and the
//! rules of the conversion queue.
use vstd::prelude::*;

pub mod text;
pub mod settings;
pub mod psp;
pub mod xbox360;
pub mod tools;
pub mod install;
pub mod jobs;
pub mod progress;
pub mod sources;

verus! {

/// `String::push` appends one character.
pub assume_specification[ String::push ](s: &mut String, ch: char)
    ensures
        final(s)@ == old(s)@.push(ch),
;

} // verus!
