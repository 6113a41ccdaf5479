//! What the control command and the running service do.

use vstd::prelude::*;

use crate::service::{
    ControlAction, ControlStage, RequestHandling, RunAction, RunEvent, RunStage, ServiceAnswer,
    ServiceCall, ServiceControl, ServiceExitCode, ServiceNotice, ServiceReply, ServiceRequest,
    ServiceState, ServiceStatus, StopEvent, StopProgress,
};
use crate::time::Span;

verus! {

// ---------------------------------------------------------------------------
// The control command
// ---------------------------------------------------------------------------
/// Four options name actions, of which those that stop give the service ten seconds;
/// every other option is refused by name.
pub proof fn options_name_actions(option: &str, action: Result<ControlAction, String>)
    requires
        call_ensures(ControlAction::from_str, (option,), action),
    ensures
        option@ == "install"@ ==> action matches Ok(ControlAction::Install),
        option@ == "start"@ ==> action matches Ok(ControlAction::Start),
        option@ == "stop"@ ==> (action matches Ok(ControlAction::Stop { stop_timeout })
            && stop_timeout@ == 10_000_000_000),
        option@ == "uninstall"@ ==> (action matches Ok(ControlAction::Uninstall { stop_timeout })
            && stop_timeout@ == 10_000_000_000),
        option@ != "install"@ && option@ != "start"@ && option@ != "stop"@ && option@
            != "uninstall"@ ==> (action matches Err(message) && message@ == "invalid option "@
            + option@ + " for ControlAction"@),
{
    reveal_strlit("install");
    reveal_strlit("uninstall");
    reveal_strlit("start");
    reveal_strlit("stop");
    assert("install"@.len() == 7 && "uninstall"@.len() == 9 && "start"@.len() == 5
        && "stop"@.len() == 4);
}

/// A command begins by registering the service, or by opening it with the rights
/// that it will need and no others.
pub proof fn commands_ask_for_what_they_need(
    action: ControlAction,
    begun: (ServiceControl, ServiceCall),
)
    requires
        call_ensures(ServiceControl::control, (action,), begun),
    ensures
        action is Install <==> begun.1 == ServiceCall::Create,
        !(action is Install) ==> (begun.1 matches ServiceCall::Open(rights) && {
            &&& rights.start <==> action is Start || action is Restart
            &&& rights.stop <==> action is Stop || action is Restart || action is Uninstall
            &&& rights.delete <==> action is Uninstall
        }),
        begun.0.action == action,
        begun.0.waited == 0,
{
}

/// What the first look leads to. Starting: nothing where the service is up or coming
/// up, else a start. Stopping: nothing where it is stopped, a wait where it is on its
/// way, else a stop. Restarting: a stop where it is up or coming up, else a wait.
/// Uninstalling: a stop unless it is stopped.
pub proof fn first_looks_lead_on(control: ServiceControl, state: ServiceState, code: u32)
    requires
        control.stage == ControlStage::Querying,
    ensures
        ({
            let next = control.after(
                ServiceReply::Status { state, exit_code: ServiceExitCode::Win32(code) },
            );
            let up = state == ServiceState::Running || state == ServiceState::StartPending;
            let down = state == ServiceState::Stopped;
            let going = state == ServiceState::StopPending;
            &&& control.action is Start && up ==> next.call == ServiceCall::Done && next.notices
                == seq![ServiceNotice::Started { already_started: true }]
            &&& control.action is Start && !up ==> next.call == ServiceCall::Start
            &&& control.action is Stop && down ==> next.call == ServiceCall::Done && next.notices
                == seq![ServiceNotice::Stopped { already_stopped: true }]
            &&& control.action is Stop && going ==> next.call == ServiceCall::Query
            &&& control.action is Stop && !down && !going ==> next.call == ServiceCall::Stop
            &&& control.action is Restart && up ==> next.call == ServiceCall::Stop
            &&& control.action is Restart && !up ==> next.call == ServiceCall::Query
            &&& control.action is Uninstall && !down ==> next.call == ServiceCall::Stop
            &&& control.action is Uninstall && down ==> next.call == ServiceCall::Query
            &&& next.control.waited == control.waited
            &&& next.control.action == control.action
        }),
{
}

/// Once the service is seen stopped, how it ended is told where that was not well,
/// and the command goes on: a stop is over, a restart starts, an uninstall deletes.
pub proof fn stopped_services_are_gone_on_with(
    control: ServiceControl,
    code: u32,
    specific: bool,
)
    requires
        control.stage == ControlStage::Polling,
    ensures
        ({
            let exit_code = if specific {
                ServiceExitCode::ServiceSpecific(code)
            } else {
                ServiceExitCode::Win32(code)
            };
            let next = control.after(
                ServiceReply::Status { state: ServiceState::Stopped, exit_code },
            );
            let told = ServiceNotice::StoppedWithError(code);
            &&& control.action is Stop ==> next.call == ServiceCall::Done && next.notices.last()
                == (ServiceNotice::Stopped { already_stopped: false })
            &&& control.action is Restart ==> next.call == ServiceCall::Start
            &&& control.action is Uninstall ==> next.call == ServiceCall::Delete
            &&& (specific || code != 0) ==> next.notices.len() > 0 && next.notices[0] == told
            &&& !specific && code == 0 ==> !next.notices.contains(told)
        }),
{
}

/// A service that has not stopped is looked at again after a second, until its time
/// is up.
pub proof fn stops_are_waited_for(
    control: ServiceControl,
    state: ServiceState,
    exit_code: ServiceExitCode,
)
    requires
        control.stage == ControlStage::Polling,
        state != ServiceState::Stopped,
        control.waited <= 18_446_744_073_709_551_615_999_999_999,
    ensures
        ({
            let next = control.after(ServiceReply::Status { state, exit_code });
            let limit = match control.action {
                ControlAction::Stop { stop_timeout } => stop_timeout@,
                ControlAction::Restart { stop_timeout } => stop_timeout@,
                ControlAction::Uninstall { stop_timeout } => stop_timeout@,
                _ => 0,
            };
            &&& next.control.waited == control.waited + 1_000_000_000
            &&& next.notices.len() == 0
            &&& next.control.waited < limit ==> next.call == ServiceCall::Sleep
                && next.control.after(ServiceReply::Accepted).call == ServiceCall::Query
            &&& next.control.waited >= limit ==> next.call == ServiceCall::TimedOut(state)
        }),
{
}

/// A call that is carried out is told of: a start, a restart, an installation, an
/// uninstall with the stop before it.
pub proof fn carried_out_calls_are_told_of(control: ServiceControl)
    ensures
        ({
            let next = control.after(ServiceReply::Accepted);
            &&& control.stage == ControlStage::Creating ==> next.call == ServiceCall::Done
                && next.notices == seq![ServiceNotice::Installed]
            &&& control.stage == ControlStage::Opening ==> next.call == ServiceCall::Query
                && next.notices.len() == 0
            &&& control.stage == ControlStage::Stopping ==> next.call == ServiceCall::Query
            &&& control.stage == ControlStage::Stopping && control.action is Uninstall
                ==> next.notices == seq![ServiceNotice::Stopped { already_stopped: false }]
            &&& control.stage == ControlStage::Stopping && !(control.action is Uninstall)
                ==> next.notices.len() == 0
            &&& control.stage == ControlStage::Starting ==> next.call == ServiceCall::Done
            &&& control.stage == ControlStage::Starting && control.action is Restart
                ==> next.notices == seq![ServiceNotice::Restarted]
            &&& control.stage == ControlStage::Starting && !(control.action is Restart)
                ==> next.notices == seq![ServiceNotice::Started { already_started: false }]
            &&& control.stage == ControlStage::Deleting ==> next.call == ServiceCall::Done
                && next.notices == seq![ServiceNotice::Uninstalled]
        }),
{
}

/// A refused or unreachable call fails the command at every stage; only a service
/// that cannot be opened is said not to exist.
pub proof fn refused_calls_fail(control: ServiceControl)
    ensures
        control.after(ServiceReply::Refused).call == ServiceCall::Failed,
        control.after(ServiceReply::Unreachable).call == ServiceCall::Failed,
        control.after(ServiceReply::Unreachable).notices.len() == 0,
        control.stage == ControlStage::Opening ==> control.after(ServiceReply::Refused).notices
            == seq![ServiceNotice::DoesNotExist],
        control.stage != ControlStage::Opening ==> control.after(
            ServiceReply::Refused,
        ).notices.len() == 0,
        control.after(ServiceReply::Refused).control.stage == ControlStage::Over,
        control.after(ServiceReply::Unreachable).control.stage == ControlStage::Over,
{
}

// ---------------------------------------------------------------------------
// Reports
// ---------------------------------------------------------------------------
/// A stop is accepted while the service runs, and at no other time.
pub proof fn reports_say_the_state(
    checkpoint: u32,
    hint: Span,
    exit_code: ServiceExitCode,
    pending: ServiceStatus,
    running: ServiceStatus,
    stopped: ServiceStatus,
)
    requires
        call_ensures(crate::service::stop_pending_status, (checkpoint, hint), pending),
        call_ensures(crate::service::running_status, (), running),
        call_ensures(crate::service::stopped_status, (exit_code,), stopped),
    ensures
        pending.current_state == ServiceState::StopPending,
        !pending.accepts_stop,
        pending.checkpoint == checkpoint,
        pending.wait_hint@ == hint@,
        pending.exit_code == ServiceExitCode::Win32(0),
        running.current_state == ServiceState::Running,
        running.accepts_stop,
        running.checkpoint == 0,
        running.wait_hint@ == 0,
        running.exit_code == ServiceExitCode::Win32(0),
        stopped.current_state == ServiceState::Stopped,
        !stopped.accepts_stop,
        stopped.checkpoint == 0,
        stopped.wait_hint@ == 0,
        stopped.exit_code == exit_code,
{
    assert(pending@.checkpoint == pending.checkpoint && pending@.current_state
        == pending.current_state && pending@.accepts_stop == pending.accepts_stop
        && pending@.exit_code == pending.exit_code && pending@.wait_hint == pending.wait_hint@);
    assert(running@.checkpoint == running.checkpoint && running@.current_state
        == running.current_state && running@.accepts_stop == running.accepts_stop
        && running@.exit_code == running.exit_code && running@.wait_hint == running.wait_hint@);
    assert(stopped@.checkpoint == stopped.checkpoint && stopped@.current_state
        == stopped.current_state && stopped@.accepts_stop == stopped.accepts_stop
        && stopped@.exit_code == stopped.exit_code && stopped@.wait_hint == stopped.wait_hint@);
}

/// A stop is said to take five seconds more than its limit, and sixty five where it
/// has none.
pub proof fn stops_have_a_margin(limit: Option<Span>, hint: Span)
    requires
        call_ensures(crate::service::stop_wait_hint, (limit,), hint),
    ensures
        limit is None ==> hint@ == 65_000_000_000,
        limit matches Some(span) ==> span@ + 5_000_000_000
            <= 18_446_744_073_709_551_615_999_999_999 ==> hint@ == span@ + 5_000_000_000,
        limit matches Some(span) ==> span@ + 5_000_000_000
            > 18_446_744_073_709_551_615_999_999_999 ==> hint@
            == 18_446_744_073_709_551_615_999_999_999,
{
}

/// The first request to stop is reported with checkpoint one, a later one with
/// nothing; each tick before the end is reported with the next checkpoint; being
/// woken reports nothing, and after the end nothing is reported.
pub proof fn stops_are_reported_step_by_step(progress: StopProgress)
    ensures
        !progress.started ==> crate::service::reported(progress, StopEvent::Request) == Some(1u32),
        progress.started ==> crate::service::reported(progress, StopEvent::Request) is None,
        !progress.drained && progress.checkpoint < u32::MAX ==> crate::service::reported(
            progress,
            StopEvent::Tick,
        ) == Some((progress.checkpoint + 1) as u32),
        progress.drained ==> crate::service::reported(progress, StopEvent::Tick) is None,
        crate::service::reported(progress, StopEvent::Woken) is None,
        crate::service::reported(progress, StopEvent::Finish) is None,
        crate::service::timer_event(true) == StopEvent::Tick,
        crate::service::timer_event(false) == StopEvent::Woken,
        crate::service::stepped(progress, StopEvent::Request).started,
        crate::service::stepped(progress, StopEvent::Request).checkpoint == progress.checkpoint,
        !progress.drained && progress.checkpoint < u32::MAX ==> crate::service::stepped(
            progress,
            StopEvent::Tick,
        ).checkpoint == progress.checkpoint + 1,
        progress.started ==> crate::service::stepped(progress, StopEvent::Finish).drained,
        !progress.started ==> crate::service::stepped(progress, StopEvent::Finish) == progress,
        crate::service::stepped(progress, StopEvent::Woken) == progress,
        !progress.drained && progress.checkpoint == u32::MAX ==> crate::service::reported(
            progress,
            StopEvent::Tick,
        ) == Some(u32::MAX) && crate::service::stepped(progress, StopEvent::Tick) == progress,
        progress.drained ==> crate::service::stepped(progress, StopEvent::Tick) == progress,
{
}

/// The timer reports where it ran out by itself before the end, with a checkpoint
/// that is one further on up to the largest there is, and the wait that the
/// manager was told of; otherwise it changes nothing.
pub proof fn ticks_move_the_checkpoint(
    progress: &mut StopProgress,
    timed_out: bool,
    report: Option<ServiceStatus>,
)
    requires
        call_ensures(StopProgress::advance_stop_checkpoints, (progress, timed_out), report),
    ensures
        report is Some <==> timed_out && !old(progress).drained,
        report matches Some(status) ==> {
            &&& status@.current_state == ServiceState::StopPending
            &&& status@.checkpoint == final(progress).checkpoint
            &&& status@.wait_hint == old(progress).wait_hint@
            &&& old(progress).checkpoint < u32::MAX ==> final(progress).checkpoint == old(
                progress,
            ).checkpoint + 1
            &&& old(progress).checkpoint == u32::MAX ==> final(progress).checkpoint == u32::MAX
        },
        report is None ==> *final(progress) == *old(progress),
        final(progress).wait_hint == old(progress).wait_hint,
        final(progress).started == old(progress).started,
        final(progress).drained == old(progress).drained,
{
}

/// The end stops the timer where a stop was asked for and had not ended before; a
/// stop that was asked for is over then, and no checkpoint moves.
pub proof fn the_end_stops_the_timer(progress: &mut StopProgress, timer: bool)
    requires
        call_ensures(StopProgress::finish, (progress,), timer),
    ensures
        timer <==> old(progress).started && !old(progress).drained,
        timer ==> final(progress).drained,
        !timer ==> *final(progress) == *old(progress),
        final(progress).started == old(progress).started,
        final(progress).checkpoint == old(progress).checkpoint,
        final(progress).wait_hint == old(progress).wait_hint,
{
}

/// A request to stop shuts the service down, after the first such request is
/// reported; a question is answered; anything else is not implemented and changes
/// nothing.
pub proof fn requests_are_handled(
    request: ServiceRequest,
    progress: &mut StopProgress,
    handling: RequestHandling,
)
    requires
        call_ensures(crate::service::handle_request, (request, progress), handling),
    ensures
        handling.shut_down <==> request == ServiceRequest::Stop,
        handling.answer == ServiceAnswer::NotImplemented <==> request == ServiceRequest::Unknown,
        handling.report is Some <==> request == ServiceRequest::Stop && !old(progress).started,
        handling.report matches Some(status) ==> status@.current_state == ServiceState::StopPending
            && status@.checkpoint == 1 && status@.wait_hint == old(progress).wait_hint@,
        request == ServiceRequest::Stop ==> final(progress).started,
        request != ServiceRequest::Stop ==> *final(progress) == *old(progress),
{
}

/// A service that could be started is registered, reported as running, run, and
/// reported as stopped: with no error where it ended well, with 121 where not.
pub proof fn services_run(run: RunStage, event: RunEvent, action: RunAction, success: bool)
    requires
        crate::service::is_next_action(run, event, action),
    ensures
        run == RunStage::Preparing && event == RunEvent::Prepared(None) ==> action
            == RunAction::Register && crate::service::next_stage(run, event)
            == RunStage::Registering,
        run == RunStage::Registering && event == RunEvent::Called(true) ==> (action matches
            RunAction::Report(status) && status@.current_state == ServiceState::Running)
            && crate::service::next_stage(run, event) == RunStage::ReportingRunning,
        run == RunStage::ReportingRunning && event == RunEvent::Called(true) ==> action
            == RunAction::RunApplication && crate::service::next_stage(run, event)
            == RunStage::RunningApplication,
        run == RunStage::RunningApplication && event == RunEvent::Completed(success) ==> action
            == RunAction::FinishStop && crate::service::next_stage(run, event)
            == RunStage::Finishing(success),
        run == RunStage::Finishing(success) && event == RunEvent::Finished ==> (action matches
            RunAction::Report(status) && status@.current_state == ServiceState::Stopped
            && status@.exit_code == ServiceExitCode::Win32(
            if success {
                0u32
            } else {
                121u32
            },
        )) && crate::service::next_stage(run, event) == RunStage::ReportingStopped,
        run == RunStage::ReportingStopped && event == RunEvent::Called(true) ==> action
            == RunAction::Done && crate::service::next_stage(run, event) == RunStage::Over,
{
}

/// A call that the manager refuses ends the run with a failure, whatever the stage,
/// and a run that is over does nothing more.
pub proof fn refused_runs_are_over(run: RunStage, event: RunEvent, action: RunAction)
    requires
        crate::service::is_next_action(run, event, action),
        event == RunEvent::Called(false) || run == RunStage::Over,
    ensures
        action == RunAction::Failed,
        crate::service::next_stage(run, event) == RunStage::Over,
{
}

/// A service that could not be started is registered and reported as stopped too,
/// with the size of its exit code as its own error.
pub proof fn failed_starts_are_reported(code: i32, event: RunEvent, action: RunAction)
    requires
        crate::service::is_next_action(RunStage::RegisteringFailure(code), event, action),
    ensures
        crate::service::next_stage(RunStage::Preparing, RunEvent::Prepared(Some(code)))
            == RunStage::RegisteringFailure(code),
        event == RunEvent::Called(true) ==> (action matches RunAction::Report(status)
            && status@.current_state == ServiceState::Stopped && (
        status@.exit_code matches ServiceExitCode::ServiceSpecific(size) && (size == code || size
            == -code))),
        event == RunEvent::Called(true) ==> crate::service::next_stage(
            RunStage::RegisteringFailure(code),
            event,
        ) == RunStage::ReportingStopped,
        event == RunEvent::Called(false) ==> action == RunAction::Failed,
{
}

} // verus!
