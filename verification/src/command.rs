//! A process to start, described as plain values.
use vstd::prelude::*;

verus! {

/// A program to run, with the environment variables to set, its arguments, and
/// whether its standard output and error are discarded.
#[derive(Debug)]
pub struct LaunchCommand {
    pub program: String,
    pub envs: Vec<(String, String)>,
    pub args: Vec<String>,
    pub discard_output: bool,
}

/// The views of the strings in `v`.
pub open spec fn string_views(v: Seq<String>) -> Seq<Seq<char>> {
    Seq::new(v.len(), |k: int| v[k]@)
}

/// A pair of owned strings from two string slices.
pub fn env_pair(name: &str, value: &str) -> (p: (String, String))
    ensures
        p.0@ == name@,
        p.1@ == value@,
{
    (name.to_string(), value.to_string())
}

} // verus!
