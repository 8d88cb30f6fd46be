//! Where the log goes.

use vstd::prelude::*;
use crate::text::str_eq;

verus! {

/// The sink of the log.
#[derive(Debug)]
pub enum LogOutput {
    Stdout,
    File(String),
}

pub open spec fn default_output() -> Seq<char> {
    "/dev/stdout"@
}

/// The sink for the configured `output`: the standard output where it is
/// empty or names the standard output, the file of that path otherwise.
pub open spec fn output_for(output: Seq<char>) -> Option<Seq<char>> {
    if output.len() == 0 || output == default_output() {
        None
    } else {
        Some(output)
    }
}

/// The sink for the configured `output`.
pub fn log_output(output: &String) -> (sink: LogOutput)
    ensures
        match sink {
            LogOutput::Stdout => output_for(output@) is None,
            LogOutput::File(path) => output_for(output@) == Some(path@),
        },
{
    if output.as_str().is_empty() || str_eq(output.as_str(), "/dev/stdout") {
        LogOutput::Stdout
    } else {
        LogOutput::File(output.clone())
    }
}

} // verus!
