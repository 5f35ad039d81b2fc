//! Command-line facing data and its validation rules.
//!
//! Argument parsing itself happens outside the library; the parsed
//! values are handed over as plain data and validated here.

use vstd::prelude::*;

verus! {

/// The document format to produce.
#[derive(Clone, Copy, Debug, PartialEq, Eq, Structural)]
pub enum OutputType {
    PDF,
    HTML,
}

/// Which rendering backend to use.
#[derive(Clone, Copy, Debug, PartialEq, Eq, Structural)]
pub enum BackendType {
    Inhouse,
    Chromium,
}

/// The available subcommands.
#[derive(Clone, Copy, Debug, PartialEq, Eq, Structural)]
pub enum Commands {
    Render {},
}

/// The reason a set of arguments is rejected.
#[derive(Clone, Copy, Debug, PartialEq, Eq, Structural)]
pub enum ArgsError {
    /// More than one input file combined with a single explicit
    /// output target.
    ConflictingOutput,
}

/// The parsed command-line arguments.
#[derive(Debug)]
pub struct Arguments {
    pub custom_css: Option<String>,
    pub watch: bool,
    pub stdout: bool,
    pub output_type: Option<OutputType>,
    pub output_path: Option<String>,
    pub backend: BackendType,
    pub file_paths: Vec<String>,
    pub command: Option<Commands>,
}

impl Arguments {
    /// More than one input file cannot share one explicit output
    /// target (a single output path or the standard output stream).
    pub open spec fn output_conflict(&self) -> bool {
        self.file_paths@.len() > 1 && (self.stdout || self.output_path is Some)
    }

    /// Validates the arguments: rejects exactly the combinations where
    /// several input files compete for one output target, and passes
    /// everything else through unchanged.
    pub fn validate_args(self) -> (r: Result<Arguments, ArgsError>)
        ensures
            self.output_conflict() ==> r == Err::<Arguments, ArgsError>(
                ArgsError::ConflictingOutput,
            ),
            !self.output_conflict() ==> r == Ok::<Arguments, ArgsError>(self),
    {
        if self.file_paths.len() > 1 && (self.stdout || self.output_path.is_some()) {
            Err(ArgsError::ConflictingOutput)
        } else {
            Ok(self)
        }
    }
}

/// Creating the configuration directory is not implemented yet on any
/// platform; this stands in for the platform-specific step.
pub fn try_create_config_dir_linux() {
}

} // verus!
