// A templated source-file generator.
//
// The macro expansion engine (`expand`, `script`) turns a template into text:
// a language script may replace `$TOKEN$` macros first, until a whole pass
// replaces nothing, then the built-in macros apply, then runs of blank lines
// collapse. `generator` decides what a generation request produces and where;
// `laws` states what holds of expansion in general. The rest are the helpers
// on names, paths, language descriptors and command lines that those use.
use vstd::prelude::*;

pub mod cli;
pub mod clock;
pub mod data;
pub mod envpath;
pub mod error;
pub mod expand;
pub mod flags;
pub mod generator;
pub mod help;
pub mod language;
pub mod laws;
pub mod name;
pub mod paths;
pub mod script;
pub mod text;
pub mod version;

verus! {

} // verus!
