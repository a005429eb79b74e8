//! The checks and error handling around sending a confirmed signal to a process.
//!
//! Looking the process up and sending the signal are system calls the event loop makes;
//! every decision between them is here.
use vstd::prelude::*;

use crate::model::{ActionKind, ConfirmedAction};
use crate::text::concat;

verus! {

/// POSIX `EPERM`: the caller may not signal the process.
pub const EPERM: i32 = 1;

/// POSIX `ESRCH`: no such process.
pub const ESRCH: i32 = 3;

/// POSIX `EACCES`: permission denied.
pub const EACCES: i32 = 13;

#[derive(Clone, Debug, PartialEq, Eq)]
pub enum ActionError {
    PermissionDenied,
    ProcessNotFound,
    SelectionChanged,
    SelfTarget,
    OsFailure(String),
}

/// The message the user sees for an error.
pub open spec fn user_message(e: ActionError) -> Seq<char> {
    match e {
        ActionError::PermissionDenied => "Process permission denied."@,
        ActionError::ProcessNotFound => "The process is no longer running."@,
        ActionError::SelectionChanged => "The selected process changed; select it again."@,
        ActionError::SelfTarget => "Filiz cannot send a signal to itself."@,
        ActionError::OsFailure(reason) => "Process action failed: "@ + reason@,
    }
}

impl ActionError {
    pub fn to_user_message(&self) -> (r: String)
        ensures
            r@ == user_message(*self),
    {
        match self {
            ActionError::PermissionDenied => "Process permission denied.".to_owned(),
            ActionError::ProcessNotFound => "The process is no longer running.".to_owned(),
            ActionError::SelectionChanged => "The selected process changed; select it again.".to_owned(),
            ActionError::SelfTarget => "Filiz cannot send a signal to itself.".to_owned(),
            ActionError::OsFailure(reason) => concat("Process action failed: ", reason.as_str()),
        }
    }
}

/// Executes confirmed process actions.
pub struct ProcessAction;

impl ProcessAction {
    /// The first check of a confirmed action, made before the process is looked up:
    /// Filiz never signals itself.
    pub fn check_target(action: &ConfirmedAction, own_pid: u32) -> (r: Result<(), ActionError>)
        ensures
            r == (if action.identity_spec().pid == own_pid {
                Err::<(), ActionError>(ActionError::SelfTarget)
            } else {
                Ok(())
            }),
    {
        if action.identity().pid == own_pid {
            Err(ActionError::SelfTarget)
        } else {
            Ok(())
        }
    }

    /// The check after the lookup: the process must still run, with the start time it
    /// had when it was selected. Gives the signal to send.
    pub fn check_identity(action: &ConfirmedAction, current_start_time: Option<u64>) -> (r: Result<
        ActionKind,
        ActionError,
    >)
        ensures
            r == (match current_start_time {
                None => Err(ActionError::ProcessNotFound),
                Some(t) => if t != action.identity_spec().start_time {
                    Err(ActionError::SelectionChanged)
                } else {
                    Ok(action.kind_spec())
                },
            }),
    {
        match current_start_time {
            None => Err(ActionError::ProcessNotFound),
            Some(t) => {
                if t != action.identity().start_time {
                    Err(ActionError::SelectionChanged)
                } else {
                    Ok(action.kind())
                }
            },
        }
    }

    /// The PID `kill` is called with: never Filiz itself, and only a positive value
    /// that fits the system's signed PID type.
    pub fn signal_pid(pid: u32, own_pid: u32) -> (r: Result<i32, ActionError>)
        ensures
            r == (if pid == own_pid {
                Err::<i32, ActionError>(ActionError::SelfTarget)
            } else if pid > i32::MAX || pid == 0 {
                Err(ActionError::ProcessNotFound)
            } else {
                Ok(pid as i32)
            }),
    {
        if pid == own_pid {
            return Err(ActionError::SelfTarget);
        }
        if pid > 0x7fff_ffff || pid == 0 {
            return Err(ActionError::ProcessNotFound);
        }
        Ok(pid as i32)
    }
}

/// The error for a failed `kill`, from the OS error code and its description.
pub fn map_os_error(code: Option<i32>, description: String) -> (r: ActionError)
    ensures
        match code {
            Some(c) => if c == EPERM || c == EACCES {
                r == ActionError::PermissionDenied
            } else if c == ESRCH {
                r == ActionError::ProcessNotFound
            } else {
                r matches ActionError::OsFailure(d) && d@ == description@
            },
            None => r matches ActionError::OsFailure(d) && d@ == description@,
        },
{
    match code {
        Some(c) => {
            if c == EPERM || c == EACCES {
                ActionError::PermissionDenied
            } else if c == ESRCH {
                ActionError::ProcessNotFound
            } else {
                ActionError::OsFailure(description)
            }
        },
        None => ActionError::OsFailure(description),
    }
}

} // verus!
