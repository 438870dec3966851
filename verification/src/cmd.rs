//! The settings of the two commands, `compile` and `watch`.

use vstd::prelude::*;
use vstd::string::*;

verus! {

/// The source root where none is given: the current directory.
pub const DEFAULT_ROOT_DIR: &'static str = ".";

/// The output file where none is given.
pub const DEFAULT_OUT_FILE: &'static str = "pack.zip";

/// The settings of a command as plain values.
pub struct CmdView {
    pub root_dir: Seq<char>,
    pub out_file: Seq<char>,
    pub validate: bool,
}

/// The settings of a command that was given no arguments.
pub open spec fn default_settings() -> CmdView {
    CmdView { root_dir: DEFAULT_ROOT_DIR@, out_file: DEFAULT_OUT_FILE@, validate: false }
}

/// Compiles the given directory to a pack.
#[derive(Clone, Debug, PartialEq, Eq)]
pub struct CompileCmd {
    /// Root directory to build.
    pub root_dir: String,
    /// The output file.
    pub out_file: String,
    /// Whether to validate JSON and strip comments.
    pub validate: bool,
}

/// Watches the given directory for changes and compiles the pack anew.
#[derive(Clone, Debug, PartialEq, Eq)]
pub struct WatchCmd {
    /// Root directory to watch.
    pub root_dir: String,
    /// The output file.
    pub out_file: String,
    /// Whether to validate JSON and strip comments.
    pub validate: bool,
}

impl View for CompileCmd {
    type V = CmdView;

    open spec fn view(&self) -> CmdView {
        CmdView { root_dir: self.root_dir@, out_file: self.out_file@, validate: self.validate }
    }
}

impl View for WatchCmd {
    type V = CmdView;

    open spec fn view(&self) -> CmdView {
        CmdView { root_dir: self.root_dir@, out_file: self.out_file@, validate: self.validate }
    }
}

impl Default for CompileCmd {
    fn default() -> (cmd: Self)
        ensures
            cmd@ == default_settings(),
    {
        CompileCmd {
            root_dir: DEFAULT_ROOT_DIR.to_owned(),
            out_file: DEFAULT_OUT_FILE.to_owned(),
            validate: false,
        }
    }
}

impl Default for WatchCmd {
    fn default() -> (cmd: Self)
        ensures
            cmd@ == default_settings(),
    {
        WatchCmd {
            root_dir: DEFAULT_ROOT_DIR.to_owned(),
            out_file: DEFAULT_OUT_FILE.to_owned(),
            validate: false,
        }
    }
}

impl WatchCmd {
    /// The compile that every relevant change asks for: the same root, the
    /// same output file and the same validation.
    pub fn compile_cmd(&self) -> (cmd: CompileCmd)
        ensures
            cmd@ == self@,
    {
        CompileCmd {
            root_dir: self.root_dir.clone(),
            out_file: self.out_file.clone(),
            validate: self.validate,
        }
    }
}

} // verus!
