//! What can make a pipeline fail.
use vstd::prelude::*;

verus! {

/// The failures of a pipeline run. Each names the operation and what it
/// acted on; none is retried.
#[derive(Debug)]
pub enum BuildError {
    /// The configuration file could not be read.
    ConfigReadFailed { path: String },
    /// The configuration file is not a valid pipeline description.
    ConfigParseFailed { path: String },
    /// No source file survived exclusion and classification.
    NoSourceFiles,
    /// A compiler process could not be started.
    CompileSpawnFailed { compiler: String, file: String },
    /// A compiler process exited unsuccessfully.
    CompileNonZeroExit { compiler: String, file: String },
    /// The linker process could not be started.
    LinkSpawnFailed { linker: String, output: String },
    /// The linker process exited unsuccessfully.
    LinkNonZeroExit { linker: String, output: String },
    /// The compiler could not be started to link the executable.
    ExecutableSpawnFailed { compiler: String, executable: String },
    /// The compiler exited unsuccessfully while linking the executable.
    ExecutableNonZeroExit { compiler: String, executable: String },
    /// A directory could not be created, read or canonicalized.
    FilesystemError { path: String },
    /// The post-build script could not be run; this is reported, not fatal.
    PostScriptFailed { stage: String },
    /// The command exists but does nothing yet.
    NotImplemented { command: String },
}

} // verus!
