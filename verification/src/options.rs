//! What the compiler is asked to do.

use vstd::prelude::*;

verus! {

/// `std::path::PathBuf`: a path, which is carried and never looked into.
#[verifier::external_type_specification]
#[verifier::external_body]
pub struct ExPathBuf(std::path::PathBuf);

/// The settings of one run of the compiler.
#[derive(Debug)]
pub struct Options {
    /// The script of the plugin: a single file.
    pub input_js: std::path::PathBuf,
    /// The declaration file that describes the plugin's interface.
    pub interface_file: std::path::PathBuf,
    /// Where the module is written.
    pub output: std::path::PathBuf,
    /// Build the engine with the script read from standard input, instead
    /// of a plugin.
    pub core: bool,
    /// Leave out the last optimization pass.
    pub skip_opt: bool,
}

} // verus!
