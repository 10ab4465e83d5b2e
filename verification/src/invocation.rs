//! The parsed-invocation tree the compiler consumes: one node per command
//! level, carrying usage text, the chosen subcommand (if any) and the
//! per-argument occurrence data, in insertion order.

use vstd::prelude::*;

verus! {

/// What was recorded for one argument of one command level.
pub struct ArgumentResult {
    /// How many times the flag or option appeared.
    pub occurs: u64,
    /// The argv position of each occurrence, in order.
    pub indices: Vec<u64>,
    /// The recorded values, in order. `None` stands for a value that is not
    /// representable as text; rendering it is a hard error.
    pub vals: Vec<Option<String>>,
}

/// The subcommand chosen at some level, with the parse results of
/// everything below it.
pub struct Subcommand {
    /// The subcommand's name as it was invoked.
    pub name: String,
    /// The parse results of the subcommand's own level.
    pub matches: Box<Invocation>,
}

/// One level of a parsed invocation: the root command or one nested
/// subcommand along the invoked chain.
pub struct Invocation {
    /// The usage text of this level, if the parser recorded one.
    pub usage: Option<String>,
    /// The subcommand invoked at this level, if any. Each level has at most
    /// one: the chain of levels is a list, not a tree.
    pub subcommand: Option<Subcommand>,
    /// The arguments of this level, keyed by argument name, in insertion
    /// order.
    pub args: Vec<(String, ArgumentResult)>,
}

/// Whether every recorded value is representable as text.
pub open spec fn all_text(vals: Seq<Option<String>>) -> bool {
    forall|i: int| 0 <= i < vals.len() ==> vals[i] is Some
}

/// The view of one recorded value; the empty sequence for a non-text one.
pub open spec fn val_str(v: Option<String>) -> Seq<char> {
    match v {
        Some(s) => s@,
        None => Seq::<char>::empty(),
    }
}

/// The views of a sequence of recorded values; meaningful when `all_text`
/// holds of it.
pub open spec fn vals_strs(vals: Seq<Option<String>>) -> Seq<Seq<char>> {
    vals.map_values(|v: Option<String>| val_str(v))
}

} // verus!
