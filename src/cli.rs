//! What the command-line front end asks of the library and how it fails.

use vstd::prelude::*;
use crate::result_analyser::AnalyseError;
use crate::result_analyser_group::CreateAnalyserGroupError;

verus! {

/// Which result files to analyse.
#[derive(Clone, Debug, PartialEq, Eq)]
pub struct AnalyseFilesArgs {
    /// Pattern that the paths of the result files match.
    pub pattern: String,
    /// Report each file that was read.
    pub debug: bool,
}

/// Why the analysis of a set of runs could not be reported.
#[derive(Clone, Copy, Debug, PartialEq, Eq, Structural)]
pub enum PrintAnalysisError {
    CreateAnalyserGroupError(CreateAnalyserGroupError),
    AnalyseError(AnalyseError),
}

} // verus!
