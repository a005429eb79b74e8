use filiz::actions::{map_os_error, ActionError, ProcessAction, EACCES, EPERM, ESRCH};
use filiz::model::{ActionKind, PendingAction, ProcessIdentity};

const OWN_PID: u32 = 4_000_001;

fn selected() -> ProcessIdentity {
    ProcessIdentity {
        pid: 42,
        start_time: 100,
    }
}

#[test]
fn action_requires_an_explicit_confirmation_transition() {
    let pending = PendingAction::new(selected(), ActionKind::Terminate);
    assert_eq!(pending.identity(), selected());
    assert_eq!(pending.kind(), ActionKind::Terminate);
    let confirmed = pending.confirm();
    assert_eq!(confirmed.identity(), selected());
    assert_eq!(confirmed.kind(), ActionKind::Terminate);
}

#[test]
fn cancelled_action_has_no_executable_result() {
    let pending = PendingAction::new(selected(), ActionKind::Kill);
    let cancelled = pending.cancel();
    assert_eq!(cancelled.identity(), selected());
    assert_eq!(cancelled.kind(), ActionKind::Kill);
}

#[test]
fn action_errors_have_readable_messages() {
    assert!(ActionError::PermissionDenied
        .to_user_message()
        .contains("permission"));
    assert!(ActionError::ProcessNotFound
        .to_user_message()
        .contains("no longer"));
    assert!(ActionError::SelectionChanged
        .to_user_message()
        .contains("changed"));
    assert!(ActionError::OsFailure("failure".to_owned())
        .to_user_message()
        .contains("failure"));
}

#[test]
fn confirmed_action_rejects_a_missing_process_without_signalling() {
    let confirmed = PendingAction::new(
        ProcessIdentity {
            pid: u32::MAX,
            start_time: 1,
        },
        ActionKind::Terminate,
    )
    .confirm();
    assert_eq!(ProcessAction::check_target(&confirmed, OWN_PID), Ok(()));
    assert_eq!(
        ProcessAction::check_identity(&confirmed, None),
        Err(ActionError::ProcessNotFound)
    );
}

#[test]
fn confirmed_action_rejects_self_target_before_identity_lookup() {
    let confirmed = PendingAction::new(
        ProcessIdentity {
            pid: OWN_PID,
            start_time: 0,
        },
        ActionKind::Kill,
    )
    .confirm();
    assert_eq!(
        ProcessAction::check_target(&confirmed, OWN_PID),
        Err(ActionError::SelfTarget)
    );
}

#[test]
fn invalid_pid_is_a_typed_error_without_signalling() {
    assert_eq!(
        ProcessAction::signal_pid(0, OWN_PID),
        Err(ActionError::ProcessNotFound)
    );
    assert_eq!(
        ProcessAction::signal_pid(u32::MAX, OWN_PID),
        Err(ActionError::ProcessNotFound)
    );
}

#[test]
fn self_targeted_actions_return_a_typed_error_without_signalling() {
    for kind in [ActionKind::Terminate, ActionKind::Kill] {
        let confirmed = PendingAction::new(
            ProcessIdentity {
                pid: OWN_PID,
                start_time: 0,
            },
            kind,
        )
        .confirm();
        assert_eq!(
            ProcessAction::check_target(&confirmed, OWN_PID),
            Err(ActionError::SelfTarget)
        );
    }
    assert_eq!(
        ProcessAction::signal_pid(OWN_PID, OWN_PID),
        Err(ActionError::SelfTarget)
    );
    assert!(ActionError::SelfTarget.to_user_message().contains("itself"));
}

#[test]
fn identity_check_compares_start_times_and_passes_the_kind_on() {
    let confirmed = PendingAction::new(selected(), ActionKind::Kill).confirm();
    assert_eq!(
        ProcessAction::check_identity(&confirmed, Some(101)),
        Err(ActionError::SelectionChanged)
    );
    assert_eq!(
        ProcessAction::check_identity(&confirmed, Some(100)),
        Ok(ActionKind::Kill)
    );
}

#[test]
fn signal_pid_accepts_positive_pids_that_fit_the_signed_type() {
    assert_eq!(ProcessAction::signal_pid(42, OWN_PID), Ok(42));
    assert_eq!(
        ProcessAction::signal_pid(0x7fff_ffff, OWN_PID),
        Ok(0x7fff_ffff)
    );
    assert_eq!(
        ProcessAction::signal_pid(0x8000_0000, OWN_PID),
        Err(ActionError::ProcessNotFound)
    );
}

#[test]
fn os_errors_map_to_typed_errors() {
    assert_eq!(EPERM, libc::EPERM);
    assert_eq!(EACCES, libc::EACCES);
    assert_eq!(ESRCH, libc::ESRCH);
    assert_eq!(
        map_os_error(Some(EPERM), "x".to_owned()),
        ActionError::PermissionDenied
    );
    assert_eq!(
        map_os_error(Some(EACCES), "x".to_owned()),
        ActionError::PermissionDenied
    );
    assert_eq!(
        map_os_error(Some(ESRCH), "x".to_owned()),
        ActionError::ProcessNotFound
    );
    assert_eq!(
        map_os_error(Some(22), "Invalid argument".to_owned()),
        ActionError::OsFailure("Invalid argument".to_owned())
    );
    assert_eq!(
        map_os_error(None, "unknown".to_owned()),
        ActionError::OsFailure("unknown".to_owned())
    );
}

#[test]
fn user_messages_are_exact() {
    assert_eq!(
        ActionError::PermissionDenied.to_user_message(),
        "Process permission denied."
    );
    assert_eq!(
        ActionError::ProcessNotFound.to_user_message(),
        "The process is no longer running."
    );
    assert_eq!(
        ActionError::SelectionChanged.to_user_message(),
        "The selected process changed; select it again."
    );
    assert_eq!(
        ActionError::SelfTarget.to_user_message(),
        "Filiz cannot send a signal to itself."
    );
    assert_eq!(
        ActionError::OsFailure("No such file".to_owned()).to_user_message(),
        "Process action failed: No such file"
    );
}
