//! What the command line asks for.

use std::path::PathBuf;
use vstd::prelude::*;

verus! {

/// A path of the file system, of which nothing but its identity is known here.
#[verifier::external_type_specification]
#[verifier::external_body]
pub struct ExPathBuf(PathBuf);

/// Trusted: calls `PathBuf::clone` of the standard library. The contract
/// claims that the copy is the same path.
#[verifier::external_body]
fn clone_path(path: &PathBuf) -> (copy: PathBuf)
    ensures
        copy == *path,
{
    path.clone()
}

/// How much of what happens is logged.
#[derive(Debug, Clone, Copy, PartialEq, Eq)]
pub enum Verbosity {
    /// Errors only.
    Error,
    /// Errors and the course of the work.
    Info,
    /// Everything.
    Trace,
}

/// Where the configuration file is looked for when the command line names none.
#[derive(Debug, Clone, Copy, PartialEq, Eq)]
pub enum ConfigPlace {
    /// Below the user's configuration directory.
    UserConfig,
    /// Below the configuration directory in the user's home.
    Home,
    /// Below the configuration directory of the system.
    System,
}

/// The name of the configuration file.
pub const CONFIG_FILE: &'static str = "config.toml";

/// The directory of the configuration file, below the user's configuration directory.
pub const USER_CONFIG_DIR: &'static str = "atomblocks";

/// The directory of the configuration file, below the user's home.
pub const HOME_DIR: &'static str = ".config/atomblocks";

/// The directory of the configuration file in the system.
pub const SYSTEM_DIR: &'static str = "/etc/atomblocks";

/// The place of the configuration file: the user's configuration directory
/// where one is known, else the user's home where that is known, else the system.
pub fn config_place(has_user_config: bool, has_home: bool) -> (place: ConfigPlace)
    ensures
        place == if has_user_config {
            ConfigPlace::UserConfig
        } else if has_home {
            ConfigPlace::Home
        } else {
            ConfigPlace::System
        },
{
    if has_user_config {
        ConfigPlace::UserConfig
    } else if has_home {
        ConfigPlace::Home
    } else {
        ConfigPlace::System
    }
}

/// The command line as a whole.
#[derive(PartialEq, Debug)]
pub struct AtomBlocksCli {
    action: Option<CliActions>,
    verbose: bool,
    trace: bool,
    version: bool,
}

/// What is to be done.
#[derive(PartialEq, Debug)]
pub enum CliActions {
    /// Run the status line.
    Run(CliActionRun),
    /// Ask the running status line to refresh one block.
    Hit(CliActionHit),
}

/// Run the status line.
#[derive(PartialEq, Debug)]
pub struct CliActionRun {
    config: Option<PathBuf>,
}

/// Ask the running status line to refresh the block with the given index.
#[derive(PartialEq, Debug)]
pub struct CliActionHit {
    id: u32,
}

impl AtomBlocksCli {
    pub closed spec fn spec_action(&self) -> Option<CliActions> {
        self.action
    }

    pub closed spec fn spec_verbose(&self) -> bool {
        self.verbose
    }

    pub closed spec fn spec_trace(&self) -> bool {
        self.trace
    }

    pub closed spec fn spec_version(&self) -> bool {
        self.version
    }

    /// The command line with the given action and switches.
    pub fn new(action: Option<CliActions>, verbose: bool, trace: bool, version: bool) -> (cli: Self)
        ensures
            cli.spec_action() == action,
            cli.spec_verbose() == verbose,
            cli.spec_trace() == trace,
            cli.spec_version() == version,
    {
        AtomBlocksCli { action, verbose, trace, version }
    }

    /// Whether the course of the work is to be logged.
    pub fn verbose(&self) -> (verbose: bool)
        ensures
            verbose == self.spec_verbose(),
    {
        self.verbose
    }

    /// Whether everything is to be logged.
    pub fn trace(&self) -> (trace: bool)
        ensures
            trace == self.spec_trace(),
    {
        self.trace
    }

    /// What is to be done, if anything was asked for.
    pub fn action(&self) -> (action: Option<&CliActions>)
        ensures
            action == match self.spec_action() {
                Some(a) => Some(&a),
                None => None,
            },
    {
        self.action.as_ref()
    }

    /// Whether the version is asked for.
    pub fn version(&self) -> (version: bool)
        ensures
            version == self.spec_version(),
    {
        self.version
    }

    /// How much is to be logged: everything with the trace switch, the course
    /// of the work with the verbose switch alone, and else errors only.
    pub fn verbosity(&self) -> (level: Verbosity)
        ensures
            level == if self.spec_trace() {
                Verbosity::Trace
            } else if self.spec_verbose() {
                Verbosity::Info
            } else {
                Verbosity::Error
            },
    {
        if self.trace {
            Verbosity::Trace
        } else if self.verbose {
            Verbosity::Info
        } else {
            Verbosity::Error
        }
    }
}

impl CliActionRun {
    pub closed spec fn spec_config(&self) -> Option<PathBuf> {
        self.config
    }

    /// The action that runs the status line with the configuration file at
    /// `config`, or with the one at the usual place.
    pub fn new(config: Option<PathBuf>) -> (run: Self)
        ensures
            run.spec_config() == config,
    {
        CliActionRun { config }
    }

    /// The path of the configuration file, if one was given.
    pub fn config(&self) -> (config: Option<PathBuf>)
        ensures
            config == self.spec_config(),
    {
        match &self.config {
            Some(path) => Some(clone_path(path)),
            None => None,
        }
    }
}

impl CliActionHit {
    pub closed spec fn spec_id(&self) -> u32 {
        self.id
    }

    /// The action that hits the block with index `id`.
    pub fn new(id: u32) -> (hit: Self)
        ensures
            hit.spec_id() == id,
    {
        CliActionHit { id }
    }

    /// The index of the block to refresh.
    pub fn id(&self) -> (id: u32)
        ensures
            id == self.spec_id(),
    {
        self.id
    }
}

} // verus!
