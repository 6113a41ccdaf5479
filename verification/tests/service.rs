//! Running as a service.

use windows_event_log::service::{
    handle_request, stop_wait_hint, ControlAction, RunAction, RunEvent, RunStage, ServiceAnswer,
    ServiceCall, ServiceControl, ServiceExitCode, ServiceNotice, ServiceReply, ServiceRequest,
    ServiceRights, ServiceRun, ServiceState, StopProgress, ERROR, FIRST_STOP_CHECKPOINT, NO_ERROR,
    STOP_WAIT_HINT_MARGIN_SECS, UNBOUNDED_STOP_WAIT_HINT_SECS,
};
use windows_event_log::time::Span;

fn test_wait_hint() -> Span {
    Span::from_secs(13)
}

#[test]
fn reports_stop_pending_with_an_advancing_checkpoint() {
    let mut progress = StopProgress::new(test_wait_hint());
    let mut statuses = vec![progress.begin().unwrap()];
    for _ in 0..2 {
        statuses.push(progress.advance_stop_checkpoints(true).unwrap());
    }
    assert!(progress.finish());

    assert!(statuses.len() >= 3, "no checkpoints advanced: {statuses:?}");
    for (index, status) in statuses.iter().enumerate() {
        assert_eq!(status.current_state, ServiceState::StopPending);
        assert!(!status.accepts_stop);
        assert_eq!(status.wait_hint, test_wait_hint());
        assert_eq!(status.checkpoint, FIRST_STOP_CHECKPOINT + index as u32);
        assert_eq!(status.exit_code, ServiceExitCode::Win32(NO_ERROR));
    }
}

#[test]
fn stops_reporting_once_the_drain_is_over() {
    let mut progress = StopProgress::new(test_wait_hint());
    progress.begin();
    assert!(progress.advance_stop_checkpoints(true).is_some());
    assert!(progress.advance_stop_checkpoints(false).is_none());
    assert!(progress.finish());
    assert!(progress.advance_stop_checkpoints(true).is_none());
    assert!(!progress.finish());

    // Without a stop there is no timer to end.
    assert!(!StopProgress::new(test_wait_hint()).finish());
}

#[test]
fn a_repeat_stop_control_does_not_restart_the_checkpoint() {
    let mut progress = StopProgress::new(test_wait_hint());
    let mut checkpoints = vec![progress.begin().unwrap().checkpoint];
    checkpoints.push(progress.advance_stop_checkpoints(true).unwrap().checkpoint);
    assert!(progress.begin().is_none());
    checkpoints.push(progress.advance_stop_checkpoints(true).unwrap().checkpoint);
    progress.finish();

    let restarts = checkpoints
        .iter()
        .filter(|checkpoint| **checkpoint == FIRST_STOP_CHECKPOINT)
        .count();
    assert_eq!(restarts, 1, "checkpoint restarted: {checkpoints:?}");
    assert_eq!(checkpoints, vec![1, 2, 3]);
}

#[test]
fn the_wait_hint_covers_the_graceful_shutdown_limit() {
    let margin = Span::from_secs(STOP_WAIT_HINT_MARGIN_SECS);
    assert_eq!(
        stop_wait_hint(Some(Span::from_secs(8))),
        Span::from_secs(8).saturating_add(margin)
    );
    assert_eq!(
        stop_wait_hint(None),
        Span::from_secs(UNBOUNDED_STOP_WAIT_HINT_SECS).saturating_add(margin)
    );
    assert_eq!(stop_wait_hint(Some(Span::from_secs(8))), Span::from_secs(13));
    assert_eq!(stop_wait_hint(None), Span::from_secs(65));
}

#[test]
fn options_name_actions() {
    let ten = Span::from_secs(10);
    assert_eq!(
        ControlAction::from_str("install"),
        Ok(ControlAction::Install)
    );
    assert_eq!(
        ControlAction::from_str("uninstall"),
        Ok(ControlAction::Uninstall { stop_timeout: ten })
    );
    assert_eq!(ControlAction::from_str("start"), Ok(ControlAction::Start));
    assert_eq!(
        ControlAction::from_str("stop"),
        Ok(ControlAction::Stop { stop_timeout: ten })
    );
    for option in ["restart", "", "Start"] {
        assert_eq!(
            ControlAction::from_str(option),
            Err(format!("invalid option {option} for ControlAction"))
        );
    }
}

/// Carry an action out against a service in a sequence of states. Returns the
/// calls made and what was said.
fn carry_out(
    action: ControlAction,
    states: &[ServiceState],
    exit_code: ServiceExitCode,
) -> (Vec<ServiceCall>, Vec<ServiceNotice>) {
    let (mut control, first) = ServiceControl::control(action);
    let mut call = first;
    let mut calls = vec![first];
    let mut notices = Vec::new();
    let mut looks = 0;
    while !matches!(
        call,
        ServiceCall::Done | ServiceCall::Failed | ServiceCall::TimedOut(_)
    ) {
        let reply = match call {
            ServiceCall::Query => {
                let state = states[looks.min(states.len() - 1)];
                looks += 1;
                ServiceReply::Status { state, exit_code }
            }
            _ => ServiceReply::Accepted,
        };
        call = control.advance(reply, &mut notices);
        calls.push(call);
    }
    (calls, notices)
}

const ENDED_WELL: ServiceExitCode = ServiceExitCode::Win32(0);

fn rights(start: bool, stop: bool, delete: bool) -> ServiceCall {
    ServiceCall::Open(ServiceRights {
        start,
        stop,
        delete,
    })
}

#[test]
fn a_service_is_started_unless_it_runs() {
    let (calls, notices) = carry_out(ControlAction::Start, &[ServiceState::Stopped], ENDED_WELL);
    assert_eq!(
        calls,
        vec![
            rights(true, false, false),
            ServiceCall::Query,
            ServiceCall::Start,
            ServiceCall::Done
        ]
    );
    assert_eq!(
        notices,
        vec![ServiceNotice::Started {
            already_started: false
        }]
    );
    for state in [ServiceState::StartPending, ServiceState::Running] {
        let (calls, notices) = carry_out(ControlAction::Start, &[state], ENDED_WELL);
        assert!(!calls.contains(&ServiceCall::Start));
        assert_eq!(
            notices,
            vec![ServiceNotice::Started {
                already_started: true
            }]
        );
    }
}

#[test]
fn a_stop_waits_for_the_service() {
    let stop = ControlAction::Stop {
        stop_timeout: Span::from_secs(10),
    };
    let (calls, notices) = carry_out(
        stop,
        &[
            ServiceState::Running,
            ServiceState::StopPending,
            ServiceState::Stopped,
        ],
        ServiceExitCode::Win32(121),
    );
    assert_eq!(
        calls,
        vec![
            rights(false, true, false),
            ServiceCall::Query,
            ServiceCall::Stop,
            ServiceCall::Query,
            ServiceCall::Sleep,
            ServiceCall::Query,
            ServiceCall::Done
        ]
    );
    assert_eq!(
        notices,
        vec![
            ServiceNotice::StoppedWithError(121),
            ServiceNotice::Stopped {
                already_stopped: false
            }
        ]
    );

    // One that is stopping is not stopped again, and one that has stopped is
    // left alone.
    let (calls, _) = carry_out(
        stop,
        &[ServiceState::StopPending, ServiceState::Stopped],
        ENDED_WELL,
    );
    assert!(!calls.contains(&ServiceCall::Stop));
    let (calls, notices) = carry_out(stop, &[ServiceState::Stopped], ENDED_WELL);
    assert_eq!(calls.len(), 3);
    assert_eq!(
        notices,
        vec![ServiceNotice::Stopped {
            already_stopped: true
        }]
    );
}

#[test]
fn a_service_that_does_not_stop_is_given_up() {
    let stop = ControlAction::Stop {
        stop_timeout: Span::from_secs(10),
    };
    let (calls, _) = carry_out(stop, &[ServiceState::Running], ENDED_WELL);
    assert_eq!(
        calls.last(),
        Some(&ServiceCall::TimedOut(ServiceState::Running))
    );
    let sleeps = calls
        .iter()
        .filter(|call| **call == ServiceCall::Sleep)
        .count();
    assert_eq!(sleeps, 9);
}

#[test]
fn a_restart_starts_only_what_has_stopped() {
    let restart = ControlAction::Restart {
        stop_timeout: Span::from_secs(3),
    };
    let (calls, notices) = carry_out(
        restart,
        &[ServiceState::Running, ServiceState::Stopped],
        ServiceExitCode::ServiceSpecific(0),
    );
    assert_eq!(
        calls,
        vec![
            rights(true, true, false),
            ServiceCall::Query,
            ServiceCall::Stop,
            ServiceCall::Query,
            ServiceCall::Start,
            ServiceCall::Done
        ]
    );
    assert_eq!(
        notices,
        vec![
            ServiceNotice::StoppedWithError(0),
            ServiceNotice::Restarted
        ]
    );
    let (calls, _) = carry_out(restart, &[ServiceState::Paused], ENDED_WELL);
    assert!(!calls.contains(&ServiceCall::Start));
}

#[test]
fn an_uninstall_deletes_only_what_has_stopped() {
    let uninstall = ControlAction::Uninstall {
        stop_timeout: Span::from_secs(3),
    };
    let (calls, notices) = carry_out(
        uninstall,
        &[ServiceState::Running, ServiceState::Stopped],
        ENDED_WELL,
    );
    assert_eq!(
        calls,
        vec![
            rights(false, true, true),
            ServiceCall::Query,
            ServiceCall::Stop,
            ServiceCall::Query,
            ServiceCall::Delete,
            ServiceCall::Done
        ]
    );
    assert_eq!(
        notices,
        vec![
            ServiceNotice::Stopped {
                already_stopped: false
            },
            ServiceNotice::Uninstalled
        ]
    );
    let (calls, notices) = carry_out(ControlAction::Install, &[ServiceState::Stopped], ENDED_WELL);
    assert_eq!(calls, vec![ServiceCall::Create, ServiceCall::Done]);
    assert_eq!(notices, vec![ServiceNotice::Installed]);
}

#[test]
fn a_failed_call_ends_the_action() {
    let (mut control, _) = ServiceControl::control(ControlAction::Start);
    let mut notices = Vec::new();
    assert_eq!(
        control.advance(ServiceReply::Refused, &mut notices),
        ServiceCall::Failed
    );
    assert_eq!(notices, vec![ServiceNotice::DoesNotExist]);

    // That the manager cannot be reached says nothing about the service.
    let (mut control, _) = ServiceControl::control(ControlAction::Start);
    notices.clear();
    assert_eq!(
        control.advance(ServiceReply::Unreachable, &mut notices),
        ServiceCall::Failed
    );
    assert!(notices.is_empty());
}

#[test]
fn requests_are_answered() {
    let mut progress = StopProgress::new(test_wait_hint());
    let handling = handle_request(ServiceRequest::Interrogate, &mut progress);
    assert_eq!(handling.answer, ServiceAnswer::NoError);
    assert!(!handling.shut_down);
    let handling = handle_request(ServiceRequest::Unknown, &mut progress);
    assert_eq!(handling.answer, ServiceAnswer::NotImplemented);
    assert!(!progress.started);
    let handling = handle_request(ServiceRequest::Stop, &mut progress);
    assert_eq!(handling.answer, ServiceAnswer::NoError);
    assert!(handling.shut_down);
    assert_eq!(handling.report.unwrap().checkpoint, 1);
    let handling = handle_request(ServiceRequest::Stop, &mut progress);
    assert!(handling.shut_down);
    assert!(handling.report.is_none());
}

#[test]
fn a_run_ends_with_a_stopped_report() {
    for (success, code) in [(true, NO_ERROR), (false, ERROR)] {
        let mut run = ServiceRun::run_service();
        assert_eq!(
            run.advance(RunEvent::Prepared(None)),
            RunAction::Register
        );
        match run.advance(RunEvent::Called(true)) {
            RunAction::Report(status) => {
                assert_eq!(status.current_state, ServiceState::Running);
                assert!(status.accepts_stop);
            }
            other => panic!("{other:?}"),
        }
        assert_eq!(
            run.advance(RunEvent::Called(true)),
            RunAction::RunApplication
        );
        assert_eq!(
            run.advance(RunEvent::Completed(success)),
            RunAction::FinishStop
        );
        match run.advance(RunEvent::Finished) {
            RunAction::Report(status) => {
                assert_eq!(status.current_state, ServiceState::Stopped);
                assert_eq!(status.exit_code, ServiceExitCode::Win32(code));
                assert!(!status.accepts_stop);
            }
            other => panic!("{other:?}"),
        }
        assert_eq!(run.advance(RunEvent::Called(true)), RunAction::Done);
        assert_eq!(run.stage, RunStage::Over);
    }
}

/// A service whose application cannot be started still says that it has stopped.
#[test]
fn a_failed_start_is_reported_with_its_code() {
    for (code, size) in [(78, 78), (-1, 1), (i32::MIN, 2_147_483_648)] {
        let mut run = ServiceRun::run_service();
        assert_eq!(
            run.advance(RunEvent::Prepared(Some(code))),
            RunAction::Register
        );
        match run.advance(RunEvent::Called(true)) {
            RunAction::Report(status) => {
                assert_eq!(status.current_state, ServiceState::Stopped);
                assert_eq!(status.exit_code, ServiceExitCode::ServiceSpecific(size));
            }
            other => panic!("{other:?}"),
        }
    }
    let mut run = ServiceRun::run_service();
    run.advance(RunEvent::Prepared(None));
    assert_eq!(run.advance(RunEvent::Called(false)), RunAction::Failed);
}
