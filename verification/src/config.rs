//! Loading the display configuration, as far as it is decided rather
//! than done: which step comes next after each outcome of the work on
//! the configuration file, and what is used where loading fails. Finding
//! the directory, touching the file and reading its format are the
//! caller's.

use crate::listing::{Failure, FailureView};
use crate::projection::DisplayConf;
use vstd::prelude::*;
use vstd::string::StringExecFns;

verus! {

/// What the operator is told where loading failed.
pub const DEFAULTS_NOTE: &'static str = "using default configuration";

/// What is to be done next with the configuration file.
pub enum ConfigStep {
    /// Find the directory that holds the configuration of the program.
    FindDirectory,
    /// Create the directory that holds the file, with all that leads to
    /// it.
    CreateDirectory,
    /// See whether the file exists.
    CheckFile,
    /// Write the default configuration to the file.
    WriteDefaults,
    /// Read the file.
    ReadFile,
    /// Read the configuration out of the file's content.
    Parse,
    /// Use what was read.
    Done,
    /// Give up with this failure.
    Failed(Failure),
}

/// The mathematical value of a [`ConfigStep`].
pub enum ConfigStepView {
    FindDirectory,
    CreateDirectory,
    CheckFile,
    WriteDefaults,
    ReadFile,
    Parse,
    Done,
    Failed(FailureView),
}

impl View for ConfigStep {
    type V = ConfigStepView;

    open spec fn view(&self) -> ConfigStepView {
        match self {
            ConfigStep::FindDirectory => ConfigStepView::FindDirectory,
            ConfigStep::CreateDirectory => ConfigStepView::CreateDirectory,
            ConfigStep::CheckFile => ConfigStepView::CheckFile,
            ConfigStep::WriteDefaults => ConfigStepView::WriteDefaults,
            ConfigStep::ReadFile => ConfigStepView::ReadFile,
            ConfigStep::Parse => ConfigStepView::Parse,
            ConfigStep::Done => ConfigStepView::Done,
            ConfigStep::Failed(failure) => ConfigStepView::Failed(failure@),
        }
    }
}

/// How a step went.
pub enum ConfigEvent {
    /// The directory was found; the path of the file in it has a parent
    /// or has none.
    DirectoryFound { has_parent: bool },
    /// There is no such directory.
    DirectoryMissing,
    /// The file exists or does not.
    FileExists(bool),
    /// The work on the file system went through.
    Succeeded,
    /// The work on the file system failed.
    IoFailed(Failure),
    /// The content is a configuration.
    Parsed,
    /// The content is no configuration.
    Unparsable,
}

/// The mathematical value of a [`ConfigEvent`].
pub enum ConfigEventView {
    DirectoryFound { has_parent: bool },
    DirectoryMissing,
    FileExists(bool),
    Succeeded,
    IoFailed(FailureView),
    Parsed,
    Unparsable,
}

impl View for ConfigEvent {
    type V = ConfigEventView;

    open spec fn view(&self) -> ConfigEventView {
        match self {
            ConfigEvent::DirectoryFound { has_parent } => ConfigEventView::DirectoryFound {
                has_parent: *has_parent,
            },
            ConfigEvent::DirectoryMissing => ConfigEventView::DirectoryMissing,
            ConfigEvent::FileExists(exists) => ConfigEventView::FileExists(*exists),
            ConfigEvent::Succeeded => ConfigEventView::Succeeded,
            ConfigEvent::IoFailed(failure) => ConfigEventView::IoFailed(failure@),
            ConfigEvent::Parsed => ConfigEventView::Parsed,
            ConfigEvent::Unparsable => ConfigEventView::Unparsable,
        }
    }
}

/// The failure of a step that is no failure of the file system.
pub open spec fn other_failure(message: Seq<char>) -> FailureView {
    FailureView { kind: "other error"@, message }
}

/// The failure of finding no directory.
pub open spec fn no_directory() -> FailureView {
    other_failure("could not find the config default directory"@)
}

/// The failure of reading no configuration out of the file.
pub open spec fn no_parse() -> FailureView {
    other_failure("could not parse the contents of the config file"@)
}

/// Whether `step` is one at which loading has ended.
pub open spec fn is_final(step: ConfigStepView) -> bool {
    step is Done || step is Failed
}

/// The step after `step` on `event`. The directory is created where the
/// file's path has a parent, the defaults are written where the file
/// does not exist, and the first failure ends loading. An event that is
/// no outcome of `step` changes nothing.
pub open spec fn config_next(step: ConfigStepView, event: ConfigEventView) -> ConfigStepView {
    match (step, event) {
        (ConfigStepView::FindDirectory, ConfigEventView::DirectoryFound { has_parent }) => {
            if has_parent {
                ConfigStepView::CreateDirectory
            } else {
                ConfigStepView::CheckFile
            }
        },
        (ConfigStepView::FindDirectory, ConfigEventView::DirectoryMissing) => {
            ConfigStepView::Failed(no_directory())
        },
        (ConfigStepView::CreateDirectory, ConfigEventView::Succeeded) => ConfigStepView::CheckFile,
        (ConfigStepView::CreateDirectory, ConfigEventView::IoFailed(failure)) => {
            ConfigStepView::Failed(failure)
        },
        (ConfigStepView::CheckFile, ConfigEventView::FileExists(exists)) => {
            if exists {
                ConfigStepView::ReadFile
            } else {
                ConfigStepView::WriteDefaults
            }
        },
        (ConfigStepView::WriteDefaults, ConfigEventView::Succeeded) => ConfigStepView::ReadFile,
        (ConfigStepView::WriteDefaults, ConfigEventView::IoFailed(failure)) => {
            ConfigStepView::Failed(failure)
        },
        (ConfigStepView::ReadFile, ConfigEventView::Succeeded) => ConfigStepView::Parse,
        (ConfigStepView::ReadFile, ConfigEventView::IoFailed(failure)) => ConfigStepView::Failed(
            failure,
        ),
        (ConfigStepView::Parse, ConfigEventView::Parsed) => ConfigStepView::Done,
        (ConfigStepView::Parse, ConfigEventView::Unparsable) => ConfigStepView::Failed(no_parse()),
        _ => step,
    }
}

fn failure_of(message: &str) -> (failure: Failure)
    ensures
        failure@ == other_failure(message@),
{
    Failure { kind: String::from_str("other error"), message: String::from_str(message) }
}

/// The step with which loading starts.
pub fn first_step() -> (step: ConfigStep)
    ensures
        step@ == ConfigStepView::FindDirectory,
{
    ConfigStep::FindDirectory
}

/// The step after `step` on `event`.
pub fn config_step(step: ConfigStep, event: ConfigEvent) -> (next: ConfigStep)
    ensures
        next@ == config_next(step@, event@),
{
    match (step, event) {
        (ConfigStep::FindDirectory, ConfigEvent::DirectoryFound { has_parent }) => {
            if has_parent {
                ConfigStep::CreateDirectory
            } else {
                ConfigStep::CheckFile
            }
        },
        (ConfigStep::FindDirectory, ConfigEvent::DirectoryMissing) => ConfigStep::Failed(
            failure_of("could not find the config default directory"),
        ),
        (ConfigStep::CreateDirectory, ConfigEvent::Succeeded) => ConfigStep::CheckFile,
        (ConfigStep::CreateDirectory, ConfigEvent::IoFailed(failure)) => ConfigStep::Failed(failure),
        (ConfigStep::CheckFile, ConfigEvent::FileExists(exists)) => {
            if exists {
                ConfigStep::ReadFile
            } else {
                ConfigStep::WriteDefaults
            }
        },
        (ConfigStep::WriteDefaults, ConfigEvent::Succeeded) => ConfigStep::ReadFile,
        (ConfigStep::WriteDefaults, ConfigEvent::IoFailed(failure)) => ConfigStep::Failed(failure),
        (ConfigStep::ReadFile, ConfigEvent::Succeeded) => ConfigStep::Parse,
        (ConfigStep::ReadFile, ConfigEvent::IoFailed(failure)) => ConfigStep::Failed(failure),
        (ConfigStep::Parse, ConfigEvent::Parsed) => ConfigStep::Done,
        (ConfigStep::Parse, ConfigEvent::Unparsable) => ConfigStep::Failed(
            failure_of("could not parse the contents of the config file"),
        ),
        (step, _) => step,
    }
}

/// What is written to a new configuration file: the defaults in the
/// file's format, or nothing where they could not be put into it.
pub fn default_content(formatted: Option<String>) -> (content: String)
    ensures
        content@ == match formatted {
            Some(text) => text@,
            None => Seq::<char>::empty(),
        },
{
    match formatted {
        Some(text) => text,
        None => String::new(),
    }
}

/// The configuration in use, and what to tell the operator of a failed
/// load.
pub struct Loaded {
    pub config: DisplayConf,
    /// The failure to report, before the warning that the defaults are
    /// in use.
    pub failure: Option<Failure>,
}

/// The configuration in use after loading: what was loaded, or the
/// defaults with the failure to report where loading failed.
pub fn config_or_default(loaded: Result<DisplayConf, Failure>, defaults: DisplayConf) -> (used: Loaded)
    ensures
        match loaded {
            Ok(config) => used.config@ == config@ && used.failure is None,
            Err(failure) => used.failure matches Some(reported) && reported@ == failure@
                && used.config@ == defaults@,
        },
{
    match loaded {
        Ok(config) => Loaded { config, failure: None },
        Err(failure) => Loaded { config: defaults, failure: Some(failure) },
    }
}

/// Loading ends where it has ended: at the last step no event changes
/// anything.
pub proof fn lemma_final_stays(step: ConfigStepView, event: ConfigEventView)
    requires
        is_final(step),
    ensures
        config_next(step, event) == step,
{
}

/// A failure of the file system ends loading with that failure, at
/// every step that works on the file system.
pub proof fn lemma_io_failure_ends(step: ConfigStepView, failure: FailureView)
    requires
        step is CreateDirectory || step is WriteDefaults || step is ReadFile,
    ensures
        config_next(step, ConfigEventView::IoFailed(failure)) == ConfigStepView::Failed(failure),
{
}

} // verus!
