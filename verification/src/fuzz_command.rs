//! The decisions of the `fuzz` command: which workspace root to use and
//! which fuzzer run a subcommand asks for.
use vstd::prelude::*;

verus! {

/// The name of the configuration file that marks an initialized workspace.
pub const TRDELNIK_TOML: &'static str = "Trdelnik.toml";

/// The subcommands of `fuzz`.
#[allow(non_camel_case_types)]
pub enum FuzzCommand {
    /// Run fuzz target; with `with_exit_code`, the run fails when crash
    /// files are found before or after it.
    Run { target: String, with_exit_code: bool },
    /// Debug fuzz target with crash file.
    Run_Debug { target: String, crash_file_path: String },
}

/// A fuzzer run in the workspace at `root`.
pub enum FuzzAction {
    RunFuzzer { target: String, root: String },
    RunFuzzerWithExitCode { target: String, root: String },
    RunFuzzerDebug { target: String, crash_file_path: String, root: String },
}

/// Why the command cannot run.
pub enum FuzzError {
    /// No root was given and no parent directory holds the configuration
    /// file.
    NotInitialized,
}

impl FuzzError {
    /// The message shown to the user.
    pub fn message(&self) -> (m: String)
        ensures
            m@ == not_initialized_message(),
    {
        String::from_str(
            "It does not seem that Trdelnik is initialized because the Trdelnik.toml file was not found in any parent directory!",
        )
    }
}

pub open spec fn not_initialized_message() -> Seq<char> {
    "It does not seem that Trdelnik is initialized because the Trdelnik.toml file was not found in any parent directory!"@
}

/// The root to work in: the given one, else the directory found to hold
/// the configuration file (looked up only when no root is given).
pub open spec fn chosen_root(root: Option<String>, discovered: Option<String>) -> Option<Seq<char>> {
    match root {
        Some(r) => Some(r@),
        None => match discovered {
            Some(d) => Some(d@),
            None => None,
        },
    }
}

pub fn resolve_root(root: Option<String>, discovered: Option<String>) -> (r: Result<
    String,
    FuzzError,
>)
    ensures
        match r {
            Ok(s) => chosen_root(root, discovered) == Some(s@),
            Err(_) => chosen_root(root, discovered) is None,
        },
{
    match root {
        Some(r) => Ok(r),
        None => match discovered {
            Some(d) => Ok(d),
            None => Err(FuzzError::NotInitialized),
        },
    }
}

/// The run that a subcommand asks for in the workspace at `root`.
pub open spec fn action_for(root: Seq<char>, subcmd: FuzzCommand) -> (Seq<char>, Seq<char>, u8, Seq<
    char,
>) {
    match subcmd {
        FuzzCommand::Run { target, with_exit_code } => if with_exit_code {
            (target@, root, 1u8, Seq::empty())
        } else {
            (target@, root, 0u8, Seq::empty())
        },
        FuzzCommand::Run_Debug { target, crash_file_path } => (
            target@,
            root,
            2u8,
            crash_file_path@,
        ),
    }
}

/// The action as `(target, root, kind, crash file)`, where the kind is 0
/// for a plain run, 1 for a run that reports crashes by its exit code and
/// 2 for a debug run.
pub open spec fn action_view(a: FuzzAction) -> (Seq<char>, Seq<char>, u8, Seq<char>) {
    match a {
        FuzzAction::RunFuzzer { target, root } => (target@, root@, 0u8, Seq::empty()),
        FuzzAction::RunFuzzerWithExitCode { target, root } => (target@, root@, 1u8, Seq::empty()),
        FuzzAction::RunFuzzerDebug { target, crash_file_path, root } => (
            target@,
            root@,
            2u8,
            crash_file_path@,
        ),
    }
}

/// Decides the fuzzer run: `root` is the root given on the command line,
/// `discovered` the directory found to hold the configuration file when
/// none was given.
pub fn fuzz(root: Option<String>, discovered: Option<String>, subcmd: FuzzCommand) -> (r: Result<
    FuzzAction,
    FuzzError,
>)
    ensures
        match r {
            Ok(a) => chosen_root(root, discovered) is Some && action_view(a) == action_for(
                chosen_root(root, discovered)->0,
                subcmd,
            ),
            Err(_) => chosen_root(root, discovered) is None,
        },
{
    let root = match resolve_root(root, discovered) {
        Ok(r) => r,
        Err(e) => {
            return Err(e);
        },
    };
    match subcmd {
        FuzzCommand::Run { target, with_exit_code } => {
            if with_exit_code {
                Ok(FuzzAction::RunFuzzerWithExitCode { target, root })
            } else {
                Ok(FuzzAction::RunFuzzer { target, root })
            }
        },
        FuzzCommand::Run_Debug { target, crash_file_path } => Ok(
            FuzzAction::RunFuzzerDebug { target, crash_file_path, root },
        ),
    }
}

/// When the crash folder of a target is looked at, in a run that reports
/// crashes by its exit code.
pub enum CrashCheck {
    BeforeRun,
    AfterRun,
}

/// What follows a look at the crash folder.
pub enum CrashCheckOutcome {
    /// Start the fuzzer.
    RunFuzzer,
    /// End the command with this exit code.
    Exit { code: u8 },
}

/// A run that reports crashes by its exit code ends with 1 as soon as the
/// crash folder holds crash files, before or after the fuzzer runs;
/// otherwise the fuzzer runs, and then the command ends with 0.
pub fn after_crash_check(when: CrashCheck, crash_files: usize) -> (o: CrashCheckOutcome)
    ensures
        crash_files > 0 ==> o == (CrashCheckOutcome::Exit { code: 1 }),
        crash_files == 0 && when is BeforeRun ==> o == CrashCheckOutcome::RunFuzzer,
        crash_files == 0 && when is AfterRun ==> o == (CrashCheckOutcome::Exit { code: 0 }),
{
    if crash_files > 0 {
        CrashCheckOutcome::Exit { code: 1 }
    } else {
        match when {
            CrashCheck::BeforeRun => CrashCheckOutcome::RunFuzzer,
            CrashCheck::AfterRun => CrashCheckOutcome::Exit { code: 0 },
        }
    }
}

} // verus!
