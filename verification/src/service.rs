//! Running as a service: the actions of the control command, the reports to the
//! service manager, and the progress of a stop.

use vstd::prelude::*;

use crate::text::text_eq;
use crate::time::Span;

verus! {

/// The exit code of a service that ended well.
pub const NO_ERROR: u32 = 0;

/// The exit code of a service that did not stop in time.
pub const ERROR: u32 = 121;

/// The checkpoint of the first report of a stop. Each later report adds one.
pub const FIRST_STOP_CHECKPOINT: u32 = 1;

/// How often the checkpoint advances during a stop.
pub const STOP_CHECKPOINT_INTERVAL_SECS: u64 = 1;

/// Added to the limit of a graceful stop when its length is reported, so that a
/// stop that runs to the limit is not taken for a hung one.
pub const STOP_WAIT_HINT_MARGIN_SECS: u64 = 5;

/// Stands in for the limit of a graceful stop where there is none.
pub const UNBOUNDED_STOP_WAIT_HINT_SECS: u64 = 60;

/// How long the control command waits between two looks at a service.
pub const POLL_INTERVAL_SECS: u64 = 1;

/// How long the control command waits for a service to stop.
pub const DEFAULT_STOP_TIMEOUT_SECS: u64 = 10;

/// One second, in nanoseconds.
pub const POLL_INTERVAL_NANOS: u128 = 1_000_000_000;

// ---------------------------------------------------------------------------
// The control command
// ---------------------------------------------------------------------------
/// What the control command does to a service.
#[derive(Debug, Clone, Copy, PartialEq, Eq, Structural)]
pub enum ControlAction {
    Install,
    Uninstall { stop_timeout: Span },
    Start,
    Stop { stop_timeout: Span },
    Restart { stop_timeout: Span },
}

/// Whether an option names an action.
pub open spec fn is_option(option: Seq<char>) -> bool {
    option == "install"@ || option == "uninstall"@ || option == "start"@ || option == "stop"@
}

/// Whether an action is the one that an option names.
pub open spec fn is_action(option: Seq<char>, action: ControlAction) -> bool {
    match action {
        ControlAction::Install => option == "install"@,
        ControlAction::Uninstall { stop_timeout } => option == "uninstall"@ && stop_timeout@
            == DEFAULT_STOP_TIMEOUT_SECS * 1_000_000_000,
        ControlAction::Start => option == "start"@,
        ControlAction::Stop { stop_timeout } => option == "stop"@ && stop_timeout@
            == DEFAULT_STOP_TIMEOUT_SECS * 1_000_000_000,
        ControlAction::Restart { .. } => false,
    }
}

impl ControlAction {
    /// The action that an option names.
    pub fn from_str(option: &str) -> (action: Result<ControlAction, String>)
        ensures
            match action {
                Ok(a) => is_action(option@, a),
                Err(message) => {
                    &&& !is_option(option@)
                    &&& message@ == "invalid option "@ + option@ + " for ControlAction"@
                },
            },
            action is Ok <==> is_option(option@),
    {
        let stop_timeout = Span::from_secs(DEFAULT_STOP_TIMEOUT_SECS);
        if text_eq(option, "install") {
            Ok(ControlAction::Install)
        } else if text_eq(option, "uninstall") {
            Ok(ControlAction::Uninstall { stop_timeout })
        } else if text_eq(option, "start") {
            Ok(ControlAction::Start)
        } else if text_eq(option, "stop") {
            Ok(ControlAction::Stop { stop_timeout })
        } else {
            let mut message = "invalid option ".to_owned();
            message.append(option);
            message.append(" for ControlAction");
            Err(message)
        }
    }
}

/// The state of a service.
#[derive(Debug, Clone, Copy, PartialEq, Eq, Structural)]
pub enum ServiceState {
    Stopped,
    StartPending,
    StopPending,
    Running,
    ContinuePending,
    PausePending,
    Paused,
}

/// How a service ended.
#[derive(Debug, Clone, Copy, PartialEq, Eq, Structural)]
pub enum ServiceExitCode {
    Win32(u32),
    ServiceSpecific(u32),
}

/// The rights to ask for when a service is opened, beside looking at it.
#[derive(Debug, Clone, Copy, PartialEq, Eq, Structural)]
pub struct ServiceRights {
    pub start: bool,
    pub stop: bool,
    pub delete: bool,
}

/// The next call to the service manager.
#[derive(Debug, Clone, Copy, PartialEq, Eq, Structural)]
pub enum ServiceCall {
    /// Register a new service.
    Create,
    /// Open the service.
    Open(ServiceRights),
    /// Look at its state.
    Query,
    Start,
    Stop,
    Delete,
    /// Wait for the poll interval.
    Sleep,
    /// Nothing: the action was carried out.
    Done,
    /// Nothing: a call failed.
    Failed,
    /// Nothing: the service did not stop in time.
    TimedOut(ServiceState),
}

/// How a call went.
#[derive(Debug, Clone, Copy, PartialEq, Eq, Structural)]
pub enum ServiceReply {
    /// It was carried out.
    Accepted,
    /// It failed.
    Refused,
    /// It was not made: the service manager could not be reached.
    Unreachable,
    /// The state of the service, and how it last ended.
    Status { state: ServiceState, exit_code: ServiceExitCode },
}

/// Something to tell the operator.
#[derive(Debug, Clone, Copy, PartialEq, Eq, Structural)]
pub enum ServiceNotice {
    Installed,
    Uninstalled,
    Started { already_started: bool },
    Stopped { already_stopped: bool },
    Restarted,
    DoesNotExist,
    /// The service ended with an error.
    StoppedWithError(u32),
}

/// Where the control command stands.
#[derive(Debug, Clone, Copy, PartialEq, Eq, Structural)]
pub enum ControlStage {
    Creating,
    Opening,
    Querying,
    Stopping,
    Polling,
    Sleeping,
    Starting,
    Deleting,
    Over,
}

/// A control command in progress.
#[derive(Debug, Clone, Copy, PartialEq, Eq, Structural)]
pub struct ServiceControl {
    pub action: ControlAction,
    pub stage: ControlStage,
    /// How long the service has been given to stop, in nanoseconds.
    pub waited: u128,
}

/// What a reply leads to.
#[verifier::ext_equal]
pub struct ControlNext {
    pub control: ServiceControl,
    pub notices: Seq<ServiceNotice>,
    pub call: ServiceCall,
}

/// What is said about how a service ended: nothing where it ended well.
pub open spec fn exit_notices(exit_code: ServiceExitCode) -> Seq<ServiceNotice> {
    match exit_code {
        ServiceExitCode::Win32(code) => if code != NO_ERROR {
            seq![ServiceNotice::StoppedWithError(code)]
        } else {
            Seq::empty()
        },
        ServiceExitCode::ServiceSpecific(code) => seq![ServiceNotice::StoppedWithError(code)],
    }
}

impl ServiceControl {
    /// How long the service is given to stop.
    pub open spec fn timeout(self) -> nat {
        match self.action {
            ControlAction::Stop { stop_timeout } => stop_timeout@,
            ControlAction::Restart { stop_timeout } => stop_timeout@,
            ControlAction::Uninstall { stop_timeout } => stop_timeout@,
            _ => 0,
        }
    }

    /// The rights that the action needs.
    pub open spec fn rights(self) -> ServiceRights {
        ServiceRights {
            start: self.action is Start || self.action is Restart,
            stop: self.action is Stop || self.action is Restart || self.action is Uninstall,
            delete: self.action is Uninstall,
        }
    }

    /// At a stage, with a call to make.
    pub open spec fn to(self, stage: ControlStage, notices: Seq<ServiceNotice>, call: ServiceCall)
        -> ControlNext {
        ControlNext { control: ServiceControl { stage, ..self }, notices, call }
    }

    /// Over, with a last notice.
    pub open spec fn over(self, notices: Seq<ServiceNotice>) -> ControlNext {
        self.to(ControlStage::Over, notices, ServiceCall::Done)
    }

    /// A call failed.
    pub open spec fn failed(self, notices: Seq<ServiceNotice>) -> ControlNext {
        self.to(ControlStage::Over, notices, ServiceCall::Failed)
    }

    /// Look whether the service has stopped.
    pub open spec fn poll(self, notices: Seq<ServiceNotice>) -> ControlNext {
        self.to(ControlStage::Polling, notices, ServiceCall::Query)
    }

    /// After the first look at the service.
    pub open spec fn on_first_look(self, state: ServiceState) -> ControlNext {
        let up = state == ServiceState::StartPending || state == ServiceState::Running;
        let stop = self.to(ControlStage::Stopping, Seq::empty(), ServiceCall::Stop);
        match self.action {
            ControlAction::Start => if up {
                self.over(seq![ServiceNotice::Started { already_started: true }])
            } else {
                self.to(ControlStage::Starting, Seq::empty(), ServiceCall::Start)
            },
            ControlAction::Stop { .. } => if state == ServiceState::Stopped {
                self.over(seq![ServiceNotice::Stopped { already_stopped: true }])
            } else if state == ServiceState::StopPending {
                self.poll(Seq::empty())
            } else {
                stop
            },
            ControlAction::Restart { .. } => if up {
                stop
            } else {
                self.poll(Seq::empty())
            },
            ControlAction::Uninstall { .. } => if state != ServiceState::Stopped {
                stop
            } else {
                self.poll(Seq::empty())
            },
            ControlAction::Install => self.failed(Seq::empty()),
        }
    }

    /// After the service was seen stopped.
    pub open spec fn on_stopped(self, exit_code: ServiceExitCode) -> ControlNext {
        let ended = exit_notices(exit_code);
        match self.action {
            ControlAction::Stop { .. } => self.over(
                ended.push(ServiceNotice::Stopped { already_stopped: false }),
            ),
            ControlAction::Restart { .. } => self.to(
                ControlStage::Starting,
                ended,
                ServiceCall::Start,
            ),
            ControlAction::Uninstall { .. } => self.to(
                ControlStage::Deleting,
                ended,
                ServiceCall::Delete,
            ),
            _ => self.failed(ended),
        }
    }

    /// After the service was seen not stopped yet: it is given up once the time
    /// is up.
    pub open spec fn on_not_stopped(self, state: ServiceState) -> ControlNext {
        let waited = ServiceControl { waited: (self.waited + POLL_INTERVAL_NANOS) as u128, ..self };
        if waited.waited >= self.timeout() {
            waited.to(ControlStage::Over, Seq::empty(), ServiceCall::TimedOut(state))
        } else {
            waited.to(ControlStage::Sleeping, Seq::empty(), ServiceCall::Sleep)
        }
    }

    /// After a reply.
    pub open spec fn after(self, reply: ServiceReply) -> ControlNext {
        match (self.stage, reply) {
            (ControlStage::Creating, ServiceReply::Accepted) => self.over(
                seq![ServiceNotice::Installed],
            ),
            (ControlStage::Opening, ServiceReply::Accepted) => self.to(
                ControlStage::Querying,
                Seq::empty(),
                ServiceCall::Query,
            ),
            (ControlStage::Opening, ServiceReply::Refused) => self.failed(
                seq![ServiceNotice::DoesNotExist],
            ),
            (ControlStage::Querying, ServiceReply::Status { state, .. }) => self.on_first_look(
                state,
            ),
            (ControlStage::Stopping, ServiceReply::Accepted) => self.poll(
                if self.action is Uninstall {
                    seq![ServiceNotice::Stopped { already_stopped: false }]
                } else {
                    Seq::empty()
                },
            ),
            (ControlStage::Polling, ServiceReply::Status { state, exit_code }) => if state
                == ServiceState::Stopped {
                self.on_stopped(exit_code)
            } else {
                self.on_not_stopped(state)
            },
            (ControlStage::Sleeping, ServiceReply::Accepted) => self.poll(Seq::empty()),
            (ControlStage::Starting, ServiceReply::Accepted) => self.over(
                if self.action is Restart {
                    seq![ServiceNotice::Restarted]
                } else {
                    seq![ServiceNotice::Started { already_started: false }]
                },
            ),
            (ControlStage::Deleting, ServiceReply::Accepted) => self.over(
                seq![ServiceNotice::Uninstalled],
            ),
            _ => self.failed(Seq::empty()),
        }
    }

    /// Before the time is up.
    pub open spec fn wf(self) -> bool {
        self.waited <= crate::time::MAX_SPAN_NANOS
    }

    /// Begin an action. Returns the first call.
    pub fn control(action: ControlAction) -> (begun: (ServiceControl, ServiceCall))
        ensures
            begun.0.action == action,
            begun.0.waited == 0,
            begun.0.wf(),
            action is Install ==> begun.0.stage == ControlStage::Creating && begun.1
                == ServiceCall::Create,
            !(action is Install) ==> begun.0.stage == ControlStage::Opening && begun.1
                == ServiceCall::Open(begun.0.rights()),
    {
        let none = ServiceRights { start: false, stop: false, delete: false };
        let rights = match action {
            ControlAction::Install => {
                return (
                    ServiceControl { action, stage: ControlStage::Creating, waited: 0 },
                    ServiceCall::Create,
                );
            },
            ControlAction::Start => ServiceRights { start: true, ..none },
            ControlAction::Stop { .. } => ServiceRights { stop: true, ..none },
            ControlAction::Restart { .. } => ServiceRights { start: true, stop: true, ..none },
            ControlAction::Uninstall { .. } => ServiceRights { stop: true, delete: true, ..none },
        };
        (
            ServiceControl { action, stage: ControlStage::Opening, waited: 0 },
            ServiceCall::Open(rights),
        )
    }

    fn go(&mut self, stage: ControlStage, call: ServiceCall) -> (next: ServiceCall)
        ensures
            *final(self) == (ServiceControl { stage, ..*old(self) }),
            next == call,
    {
        self.stage = stage;
        call
    }

    fn stop_timeout(&self) -> (nanos: u128)
        ensures
            nanos == self.timeout(),
            nanos <= crate::time::MAX_SPAN_NANOS,
    {
        match self.action {
            ControlAction::Stop { stop_timeout } => stop_timeout.as_nanos(),
            ControlAction::Restart { stop_timeout } => stop_timeout.as_nanos(),
            ControlAction::Uninstall { stop_timeout } => stop_timeout.as_nanos(),
            _ => 0,
        }
    }

    fn first_look(&mut self, state: ServiceState, notices: &mut Vec<ServiceNotice>) -> (call:
        ServiceCall)
        ensures
            ({
                let next = old(self).on_first_look(state);
                &&& *final(self) == next.control
                &&& final(notices)@ == old(notices)@ + next.notices
                &&& call == next.call
            }),
    {
        let ghost start = *self;
        let ghost before = notices@;
        let up = state == ServiceState::StartPending || state == ServiceState::Running;
        let call = match self.action {
            ControlAction::Start => {
                if up {
                    notices.push(ServiceNotice::Started { already_started: true });
                    self.go(ControlStage::Over, ServiceCall::Done)
                } else {
                    self.go(ControlStage::Starting, ServiceCall::Start)
                }
            },
            ControlAction::Stop { .. } => {
                if state == ServiceState::Stopped {
                    notices.push(ServiceNotice::Stopped { already_stopped: true });
                    self.go(ControlStage::Over, ServiceCall::Done)
                } else if state == ServiceState::StopPending {
                    self.go(ControlStage::Polling, ServiceCall::Query)
                } else {
                    self.go(ControlStage::Stopping, ServiceCall::Stop)
                }
            },
            ControlAction::Restart { .. } => {
                if up {
                    self.go(ControlStage::Stopping, ServiceCall::Stop)
                } else {
                    self.go(ControlStage::Polling, ServiceCall::Query)
                }
            },
            ControlAction::Uninstall { .. } => {
                if state != ServiceState::Stopped {
                    self.go(ControlStage::Stopping, ServiceCall::Stop)
                } else {
                    self.go(ControlStage::Polling, ServiceCall::Query)
                }
            },
            ControlAction::Install => self.go(ControlStage::Over, ServiceCall::Failed),
        };
        assert(notices@ =~= before + start.on_first_look(state).notices);
        call
    }

    /// Say how a service ended, where that was not well.
    fn handle_service_exit_code(exit_code: ServiceExitCode, notices: &mut Vec<ServiceNotice>)
        ensures
            final(notices)@ == old(notices)@ + exit_notices(exit_code),
    {
        match exit_code {
            ServiceExitCode::Win32(code) => {
                if code != NO_ERROR {
                    notices.push(ServiceNotice::StoppedWithError(code));
                }
            },
            ServiceExitCode::ServiceSpecific(code) => {
                notices.push(ServiceNotice::StoppedWithError(code));
            },
        }
        assert(notices@ =~= old(notices)@ + exit_notices(exit_code));
    }

    fn poll_state(
        &mut self,
        state: ServiceState,
        exit_code: ServiceExitCode,
        notices: &mut Vec<ServiceNotice>,
    ) -> (call: ServiceCall)
        requires
            old(self).wf(),
        ensures
            ({
                let next = if state == ServiceState::Stopped {
                    old(self).on_stopped(exit_code)
                } else {
                    old(self).on_not_stopped(state)
                };
                &&& *final(self) == next.control
                &&& final(notices)@ == old(notices)@ + next.notices
                &&& call == next.call
            }),
            call == ServiceCall::Sleep ==> final(self).wf(),
    {
        let ghost start = *self;
        let ghost before = notices@;
        if state == ServiceState::Stopped {
            ServiceControl::handle_service_exit_code(exit_code, notices);
            let call = match self.action {
                ControlAction::Stop { .. } => {
                    notices.push(ServiceNotice::Stopped { already_stopped: false });
                    self.go(ControlStage::Over, ServiceCall::Done)
                },
                ControlAction::Restart { .. } => self.go(ControlStage::Starting, ServiceCall::Start),
                ControlAction::Uninstall { .. } => self.go(
                    ControlStage::Deleting,
                    ServiceCall::Delete,
                ),
                _ => self.go(ControlStage::Over, ServiceCall::Failed),
            };
            assert(notices@ =~= before + start.on_stopped(exit_code).notices);
            call
        } else {
            assert(notices@ =~= before + start.on_not_stopped(state).notices);
            self.waited = self.waited + POLL_INTERVAL_NANOS;
            if self.waited >= self.stop_timeout() {
                self.go(ControlStage::Over, ServiceCall::TimedOut(state))
            } else {
                self.go(ControlStage::Sleeping, ServiceCall::Sleep)
            }
        }
    }

    /// Move on after a reply. Returns the next call, and adds what to tell the
    /// operator.
    pub fn advance(&mut self, reply: ServiceReply, notices: &mut Vec<ServiceNotice>) -> (call:
        ServiceCall)
        requires
            old(self).wf(),
        ensures
            ({
                let next = old(self).after(reply);
                &&& *final(self) == next.control
                &&& final(notices)@ == old(notices)@ + next.notices
                &&& call == next.call
            }),
            !(final(self).stage == ControlStage::Over) ==> final(self).wf(),
    {
        let ghost start = *self;
        let ghost before = notices@;
        match (self.stage, reply) {
            (ControlStage::Querying, ServiceReply::Status { state, .. }) => {
                return self.first_look(state, notices);
            },
            (ControlStage::Polling, ServiceReply::Status { state, exit_code }) => {
                return self.poll_state(state, exit_code, notices);
            },
            _ => {},
        }
        let call = match (self.stage, reply) {
            (ControlStage::Creating, ServiceReply::Accepted) => {
                notices.push(ServiceNotice::Installed);
                self.go(ControlStage::Over, ServiceCall::Done)
            },
            (ControlStage::Opening, ServiceReply::Accepted) => self.go(
                ControlStage::Querying,
                ServiceCall::Query,
            ),
            (ControlStage::Opening, ServiceReply::Refused) => {
                notices.push(ServiceNotice::DoesNotExist);
                self.go(ControlStage::Over, ServiceCall::Failed)
            },
            (ControlStage::Stopping, ServiceReply::Accepted) => {
                if let ControlAction::Uninstall { .. } = self.action {
                    notices.push(ServiceNotice::Stopped { already_stopped: false });
                }
                self.go(ControlStage::Polling, ServiceCall::Query)
            },
            (ControlStage::Sleeping, ServiceReply::Accepted) => self.go(
                ControlStage::Polling,
                ServiceCall::Query,
            ),
            (ControlStage::Starting, ServiceReply::Accepted) => {
                if let ControlAction::Restart { .. } = self.action {
                    notices.push(ServiceNotice::Restarted);
                } else {
                    notices.push(ServiceNotice::Started { already_started: false });
                }
                self.go(ControlStage::Over, ServiceCall::Done)
            },
            (ControlStage::Deleting, ServiceReply::Accepted) => {
                notices.push(ServiceNotice::Uninstalled);
                self.go(ControlStage::Over, ServiceCall::Done)
            },
            _ => self.go(ControlStage::Over, ServiceCall::Failed),
        };
        assert(notices@ =~= before + start.after(reply).notices);
        call
    }
}

// ---------------------------------------------------------------------------
// Reports to the service manager
// ---------------------------------------------------------------------------
/// A report of the service's state.
#[derive(Debug, Clone, Copy, PartialEq, Eq, Structural)]
pub struct ServiceStatus {
    pub current_state: ServiceState,
    /// Whether a stop is accepted; nothing else ever is.
    pub accepts_stop: bool,
    pub exit_code: ServiceExitCode,
    pub checkpoint: u32,
    pub wait_hint: Span,
}

/// The contents of a report.
pub struct StatusView {
    pub current_state: ServiceState,
    pub accepts_stop: bool,
    pub exit_code: ServiceExitCode,
    pub checkpoint: u32,
    pub wait_hint: nat,
}

impl View for ServiceStatus {
    type V = StatusView;

    open spec fn view(&self) -> StatusView {
        StatusView {
            current_state: self.current_state,
            accepts_stop: self.accepts_stop,
            exit_code: self.exit_code,
            checkpoint: self.checkpoint,
            wait_hint: self.wait_hint@,
        }
    }
}

impl StatusView {
    /// A stop in progress. A service that has begun stopping accepts nothing.
    pub open spec fn stop_pending(checkpoint: u32, wait_hint: nat) -> StatusView {
        StatusView {
            current_state: ServiceState::StopPending,
            accepts_stop: false,
            exit_code: ServiceExitCode::Win32(NO_ERROR),
            checkpoint,
            wait_hint,
        }
    }

    /// The service runs.
    pub open spec fn running() -> StatusView {
        StatusView {
            current_state: ServiceState::Running,
            accepts_stop: true,
            exit_code: ServiceExitCode::Win32(NO_ERROR),
            checkpoint: 0,
            wait_hint: 0,
        }
    }

    /// The service has ended.
    pub open spec fn stopped(exit_code: ServiceExitCode) -> StatusView {
        StatusView {
            current_state: ServiceState::Stopped,
            accepts_stop: false,
            exit_code,
            checkpoint: 0,
            wait_hint: 0,
        }
    }
}

/// A report of a stop in progress.
pub fn stop_pending_status(checkpoint: u32, wait_hint: Span) -> (status: ServiceStatus)
    ensures
        status@ == StatusView::stop_pending(checkpoint, wait_hint@),
{
    ServiceStatus {
        current_state: ServiceState::StopPending,
        accepts_stop: false,
        exit_code: ServiceExitCode::Win32(NO_ERROR),
        checkpoint,
        wait_hint,
    }
}

/// A report that the service runs.
pub fn running_status() -> (status: ServiceStatus)
    ensures
        status@ == StatusView::running(),
{
    ServiceStatus {
        current_state: ServiceState::Running,
        accepts_stop: true,
        exit_code: ServiceExitCode::Win32(NO_ERROR),
        checkpoint: 0,
        wait_hint: Span::from_secs(0),
    }
}

/// A report that the service has ended.
pub fn stopped_status(exit_code: ServiceExitCode) -> (status: ServiceStatus)
    ensures
        status@ == StatusView::stopped(exit_code),
{
    ServiceStatus {
        current_state: ServiceState::Stopped,
        accepts_stop: false,
        exit_code,
        checkpoint: 0,
        wait_hint: Span::from_secs(0),
    }
}

/// How long a stop may take, in nanoseconds: the limit of a graceful stop and a
/// margin.
pub open spec fn stop_hint(limit: Option<Span>) -> nat {
    let base = match limit {
        Some(span) => span@,
        None => (UNBOUNDED_STOP_WAIT_HINT_SECS * 1_000_000_000) as nat,
    };
    let sum = base + (STOP_WAIT_HINT_MARGIN_SECS * 1_000_000_000) as nat;
    if sum <= crate::time::MAX_SPAN_NANOS {
        sum
    } else {
        crate::time::MAX_SPAN_NANOS as nat
    }
}

/// How long a stop may take, given the limit of a graceful stop.
pub fn stop_wait_hint(graceful_shutdown_duration: Option<Span>) -> (hint: Span)
    ensures
        hint@ == stop_hint(graceful_shutdown_duration),
{
    let base: Span = match graceful_shutdown_duration {
        Some(span) => span,
        None => Span::from_secs(UNBOUNDED_STOP_WAIT_HINT_SECS),
    };
    base.saturating_add(Span::from_secs(STOP_WAIT_HINT_MARGIN_SECS))
}

/// The progress of a stop, as it is reported. The first report goes out when the
/// stop is asked for, and the checkpoint advances on a timer until all is
/// drained.
#[derive(Debug, Clone, Copy, PartialEq, Eq, Structural)]
pub struct StopProgress {
    pub wait_hint: Span,
    pub started: bool,
    /// The stop is over: nothing more is reported.
    pub drained: bool,
    /// The checkpoint of the last report.
    pub checkpoint: u32,
}

/// What happens to a stop.
#[derive(Debug, Clone, Copy, PartialEq, Eq, Structural)]
pub enum StopEvent {
    /// The manager asks for a stop.
    Request,
    /// The timer ticks.
    Tick,
    /// The timer is woken before its time.
    Woken,
    /// All is drained.
    Finish,
}

/// The progress after one event.
pub open spec fn stepped(progress: StopProgress, event: StopEvent) -> StopProgress {
    match event {
        StopEvent::Request => StopProgress { started: true, ..progress },
        StopEvent::Tick => if progress.drained {
            progress
        } else {
            StopProgress { checkpoint: progress.next_checkpoint(), ..progress }
        },
        StopEvent::Woken => progress,
        StopEvent::Finish => StopProgress {
            drained: progress.drained || progress.started,
            ..progress
        },
    }
}

/// The checkpoint that one event has reported, if it has any.
pub open spec fn reported(progress: StopProgress, event: StopEvent) -> Option<u32> {
    match event {
        StopEvent::Request => if progress.started {
            None
        } else {
            Some(FIRST_STOP_CHECKPOINT)
        },
        StopEvent::Tick => if progress.drained {
            None
        } else {
            Some(progress.next_checkpoint())
        },
        _ => None,
    }
}

/// How the timer woke up.
pub open spec fn timer_event(timed_out: bool) -> StopEvent {
    if timed_out {
        StopEvent::Tick
    } else {
        StopEvent::Woken
    }
}

impl StopProgress {
    /// No stop yet.
    pub fn new(wait_hint: Span) -> (progress: StopProgress)
        ensures
            progress == (StopProgress {
                wait_hint,
                started: false,
                drained: false,
                checkpoint: FIRST_STOP_CHECKPOINT,
            }),
    {
        StopProgress {
            wait_hint,
            started: false,
            drained: false,
            checkpoint: FIRST_STOP_CHECKPOINT,
        }
    }

    /// The checkpoint after the next report.
    pub open spec fn next_checkpoint(self) -> u32 {
        if self.checkpoint < u32::MAX {
            (self.checkpoint + 1) as u32
        } else {
            u32::MAX
        }
    }

    /// A stop was asked for. The first time, returns the report to make, after
    /// which the timer starts. A repeated request changes nothing: the
    /// checkpoint has to keep moving forward.
    pub fn begin(&mut self) -> (report: Option<ServiceStatus>)
        ensures
            *final(self) == stepped(*old(self), StopEvent::Request),
            report is Some <==> reported(*old(self), StopEvent::Request) is Some,
            report matches Some(status) ==> status@ == StatusView::stop_pending(
                reported(*old(self), StopEvent::Request)->0,
                old(self).wait_hint@,
            ),
    {
        if self.started {
            return None;
        }
        self.started = true;
        Some(stop_pending_status(FIRST_STOP_CHECKPOINT, self.wait_hint))
    }

    /// The timer woke up, by itself or because it was woken. Returns the report
    /// to make; once all is drained there is none.
    pub fn advance_stop_checkpoints(&mut self, timed_out: bool) -> (report: Option<ServiceStatus>)
        ensures
            *final(self) == stepped(*old(self), timer_event(timed_out)),
            report is Some <==> reported(*old(self), timer_event(timed_out)) is Some,
            report matches Some(status) ==> status@ == StatusView::stop_pending(
                reported(*old(self), timer_event(timed_out))->0,
                old(self).wait_hint@,
            ),
    {
        if self.drained || !timed_out {
            return None;
        }
        if self.checkpoint < u32::MAX {
            self.checkpoint = self.checkpoint + 1;
        }
        Some(stop_pending_status(self.checkpoint, self.wait_hint))
    }

    /// All is drained. Tells whether there is a timer to end, which there is
    /// only where a stop was asked for.
    pub fn finish(&mut self) -> (timer: bool)
        ensures
            timer == (old(self).started && !old(self).drained),
            *final(self) == stepped(*old(self), StopEvent::Finish),
    {
        if self.started && !self.drained {
            self.drained = true;
            true
        } else {
            false
        }
    }
}

/// A request of the service manager.
#[derive(Debug, Clone, Copy, PartialEq, Eq, Structural)]
pub enum ServiceRequest {
    Interrogate,
    Stop,
    /// Anything else.
    Unknown,
}

/// The answer to a request.
#[derive(Debug, Clone, Copy, PartialEq, Eq, Structural)]
pub enum ServiceAnswer {
    NoError,
    NotImplemented,
}

/// What a request leads to.
#[derive(Debug, Clone, Copy, PartialEq, Eq, Structural)]
pub struct RequestHandling {
    /// The report to make first.
    pub report: Option<ServiceStatus>,
    /// Whether the shutdown is then signalled.
    pub shut_down: bool,
    pub answer: ServiceAnswer,
}

/// Handle a request of the service manager. The pending stop is reported before
/// the shutdown is signalled: until it is, the service still reads as running.
pub fn handle_request(request: ServiceRequest, progress: &mut StopProgress) -> (handling:
    RequestHandling)
    ensures
        handling.answer == if request == ServiceRequest::Unknown {
            ServiceAnswer::NotImplemented
        } else {
            ServiceAnswer::NoError
        },
        handling.shut_down == (request == ServiceRequest::Stop),
        handling.report is Some <==> request == ServiceRequest::Stop && !old(progress).started,
        handling.report matches Some(status) ==> status@ == StatusView::stop_pending(
            FIRST_STOP_CHECKPOINT,
            old(progress).wait_hint@,
        ),
        *final(progress) == if request == ServiceRequest::Stop {
            stepped(*old(progress), StopEvent::Request)
        } else {
            *old(progress)
        },
{
    match request {
        ServiceRequest::Interrogate => RequestHandling {
            report: None,
            shut_down: false,
            answer: ServiceAnswer::NoError,
        },
        ServiceRequest::Stop => {
            let report = progress.begin();
            RequestHandling { report, shut_down: true, answer: ServiceAnswer::NoError }
        },
        ServiceRequest::Unknown => RequestHandling {
            report: None,
            shut_down: false,
            answer: ServiceAnswer::NotImplemented,
        },
    }
}

/// The next thing to do to run the service.
#[derive(Debug, Clone, Copy, PartialEq, Eq, Structural)]
pub enum RunAction {
    /// Start the application.
    Prepare,
    /// Register with the service manager.
    Register,
    /// Report a state.
    Report(ServiceStatus),
    /// Run the application to its end.
    RunApplication,
    /// End the reports of a stop.
    FinishStop,
    /// Nothing: the service has ended, and the manager knows.
    Done,
    /// Nothing: the manager could not be reached.
    Failed,
}

/// How it went.
#[derive(Debug, Clone, Copy, PartialEq, Eq, Structural)]
pub enum RunEvent {
    /// The application was started, or could not be, with this exit code.
    Prepared(Option<i32>),
    /// A call to the manager was made, or failed.
    Called(bool),
    /// The application ended, well or not.
    Completed(bool),
    /// The reports of a stop were ended.
    Finished,
}

/// Where the service stands.
#[derive(Debug, Clone, Copy, PartialEq, Eq, Structural)]
pub enum RunStage {
    Preparing,
    Registering,
    ReportingRunning,
    RunningApplication,
    /// The application ended, well or not.
    Finishing(bool),
    /// It could not be started, with this exit code.
    RegisteringFailure(i32),
    ReportingStopped,
    Over,
}

/// The size of a number.
pub open spec fn magnitude(n: i32) -> u32 {
    if n < 0 {
        (-n) as u32
    } else {
        n as u32
    }
}

fn unsigned_abs(n: i32) -> (size: u32)
    ensures
        size == magnitude(n),
{
    if n < 0 {
        (-(n as i64)) as u32
    } else {
        n as u32
    }
}

/// The exit code of an application that ended, well or not.
pub open spec fn completion_code(success: bool) -> ServiceExitCode {
    if success {
        ServiceExitCode::Win32(NO_ERROR)
    } else {
        ServiceExitCode::Win32(ERROR)
    }
}

/// The stage that follows.
pub open spec fn next_stage(stage: RunStage, event: RunEvent) -> RunStage {
    match (stage, event) {
        (RunStage::Preparing, RunEvent::Prepared(None)) => RunStage::Registering,
        (RunStage::Preparing, RunEvent::Prepared(Some(code))) => RunStage::RegisteringFailure(code),
        (RunStage::Registering, RunEvent::Called(true)) => RunStage::ReportingRunning,
        (RunStage::ReportingRunning, RunEvent::Called(true)) => RunStage::RunningApplication,
        (RunStage::RunningApplication, RunEvent::Completed(success)) => RunStage::Finishing(
            success,
        ),
        (RunStage::Finishing(_), RunEvent::Finished) => RunStage::ReportingStopped,
        (RunStage::RegisteringFailure(_), RunEvent::Called(true)) => RunStage::ReportingStopped,
        _ => RunStage::Over,
    }
}

/// Whether an action is the one that follows.
pub open spec fn is_next_action(stage: RunStage, event: RunEvent, action: RunAction) -> bool {
    match (stage, event) {
        (RunStage::Preparing, RunEvent::Prepared(_)) => action == RunAction::Register,
        (RunStage::Registering, RunEvent::Called(true)) => action matches RunAction::Report(status)
            && status@ == StatusView::running(),
        (RunStage::ReportingRunning, RunEvent::Called(true)) => action
            == RunAction::RunApplication,
        (RunStage::RunningApplication, RunEvent::Completed(_)) => action == RunAction::FinishStop,
        (RunStage::Finishing(success), RunEvent::Finished) => action matches RunAction::Report(
            status,
        ) && status@ == StatusView::stopped(completion_code(success)),
        (RunStage::RegisteringFailure(code), RunEvent::Called(true)) => action
            matches RunAction::Report(status) && status@ == StatusView::stopped(
            ServiceExitCode::ServiceSpecific(magnitude(code)),
        ),
        (RunStage::ReportingStopped, RunEvent::Called(true)) => action == RunAction::Done,
        _ => action == RunAction::Failed,
    }
}

/// A service being run.
#[derive(Debug, Clone, Copy, PartialEq, Eq, Structural)]
pub struct ServiceRun {
    pub stage: RunStage,
}

impl ServiceRun {
    /// Begin. The first thing to do is to start the application.
    pub fn run_service() -> (run: ServiceRun)
        ensures
            run.stage == RunStage::Preparing,
    {
        ServiceRun { stage: RunStage::Preparing }
    }

    /// Move on. Returns the next thing to do. A failed start is registered and
    /// reported too: a service that never reports is stuck while starting, and
    /// its recovery never runs.
    pub fn advance(&mut self, event: RunEvent) -> (action: RunAction)
        ensures
            final(self).stage == next_stage(old(self).stage, event),
            is_next_action(old(self).stage, event, action),
    {
        let (stage, action) = match (self.stage, event) {
            (RunStage::Preparing, RunEvent::Prepared(None)) => (
                RunStage::Registering,
                RunAction::Register,
            ),
            (RunStage::Preparing, RunEvent::Prepared(Some(code))) => (
                RunStage::RegisteringFailure(code),
                RunAction::Register,
            ),
            (RunStage::Registering, RunEvent::Called(true)) => (
                RunStage::ReportingRunning,
                RunAction::Report(running_status()),
            ),
            (RunStage::ReportingRunning, RunEvent::Called(true)) => (
                RunStage::RunningApplication,
                RunAction::RunApplication,
            ),
            (RunStage::RunningApplication, RunEvent::Completed(success)) => (
                RunStage::Finishing(success),
                RunAction::FinishStop,
            ),
            (RunStage::Finishing(success), RunEvent::Finished) => {
                let code = if success {
                    ServiceExitCode::Win32(NO_ERROR)
                } else {
                    ServiceExitCode::Win32(ERROR)
                };
                (RunStage::ReportingStopped, RunAction::Report(stopped_status(code)))
            },
            (RunStage::RegisteringFailure(code), RunEvent::Called(true)) => (
                RunStage::ReportingStopped,
                RunAction::Report(
                    stopped_status(ServiceExitCode::ServiceSpecific(unsigned_abs(code))),
                ),
            ),
            (RunStage::ReportingStopped, RunEvent::Called(true)) => (
                RunStage::Over,
                RunAction::Done,
            ),
            _ => (RunStage::Over, RunAction::Failed),
        };
        self.stage = stage;
        action
    }
}

// ---------------------------------------------------------------------------
// Laws
// ---------------------------------------------------------------------------
/// Whether a look at the service found it stopped.
pub open spec fn saw_stopped(reply: ServiceReply) -> bool {
    match reply {
        ServiceReply::Status { state, .. } => state == ServiceState::Stopped,
        _ => false,
    }
}

/// A service is deleted, or started again, only after it was seen stopped; and
/// it is stopped only where the action calls for that.
pub proof fn services_are_deleted_and_restarted_only_when_stopped(
    control: ServiceControl,
    reply: ServiceReply,
)
    ensures
        control.after(reply).call == ServiceCall::Delete ==> saw_stopped(reply)
            && control.action is Uninstall,
        control.after(reply).call == ServiceCall::Start && control.action is Restart
            ==> saw_stopped(reply),
        control.after(reply).call == ServiceCall::Stop ==> control.action is Stop
            || control.action is Restart || control.action is Uninstall,
{
}

/// Waiting for a stop ends: each look at a service that has not stopped uses one
/// second of the timeout up, and the look that uses up the last gives up.
pub proof fn waiting_for_a_stop_ends(
    control: ServiceControl,
    state: ServiceState,
    exit_code: ServiceExitCode,
)
    requires
        control.wf(),
        control.stage == ControlStage::Polling,
        state != ServiceState::Stopped,
    ensures
        ({
            let next = control.after(ServiceReply::Status { state, exit_code });
            &&& next.control.waited == control.waited + POLL_INTERVAL_NANOS
            &&& next.call == ServiceCall::TimedOut(state) <==> control.waited
                + POLL_INTERVAL_NANOS >= control.timeout()
            &&& next.call == ServiceCall::Sleep <==> control.waited + POLL_INTERVAL_NANOS
                < control.timeout()
        }),
{
}

/// The reported length of a stop covers the limit of a graceful stop.
pub proof fn the_hint_covers_the_limit(limit: Span)
    requires
        limit@ <= crate::time::MAX_SPAN_NANOS,
    ensures
        stop_hint(Some(limit)) >= limit@,
        limit@ + STOP_WAIT_HINT_MARGIN_SECS * 1_000_000_000 <= crate::time::MAX_SPAN_NANOS
            ==> stop_hint(Some(limit)) == limit@ + STOP_WAIT_HINT_MARGIN_SECS * 1_000_000_000,
{
}

/// The progress after a run of events.
pub open spec fn progressed(progress: StopProgress, events: Seq<StopEvent>) -> StopProgress
    decreases events.len(),
{
    if events.len() == 0 {
        progress
    } else {
        stepped(progressed(progress, events.drop_last()), events.last())
    }
}

/// The checkpoints that a run of events has reported, in order.
pub open spec fn reports(progress: StopProgress, events: Seq<StopEvent>) -> Seq<u32>
    decreases events.len(),
{
    if events.len() == 0 {
        Seq::empty()
    } else {
        let before = reports(progress, events.drop_last());
        match reported(progressed(progress, events.drop_last()), events.last()) {
            Some(checkpoint) => before.push(checkpoint),
            None => before,
        }
    }
}

/// The number of timer ticks until all is drained.
pub open spec fn ticks(progress: StopProgress, events: Seq<StopEvent>) -> nat
    decreases events.len(),
{
    if events.len() == 0 {
        0
    } else {
        ticks(progress, events.drop_last()) + if events.last() == StopEvent::Tick && !progressed(
            progress,
            events.drop_last(),
        ).drained {
            1nat
        } else {
            0
        }
    }
}

/// Whether the timer runs only once a stop was asked for, as it is started then.
pub open spec fn timer_follows_request(events: Seq<StopEvent>) -> bool
    decreases events.len(),
{
    events.len() > 0 ==> timer_follows_request(events.drop_last()) && (events.last()
        == StopEvent::Tick ==> events.drop_last().contains(StopEvent::Request))
}

/// Requests to stop never set the checkpoint back: it counts the timer's ticks,
/// however many requests come in between.
pub proof fn repeated_stops_never_set_the_checkpoint_back(
    progress: StopProgress,
    events: Seq<StopEvent>,
)
    requires
        progress.checkpoint + events.len() <= u32::MAX,
    ensures
        progressed(progress, events).checkpoint == progress.checkpoint + ticks(progress, events),
        ticks(progress, events) <= events.len(),
    decreases events.len(),
{
    if events.len() > 0 {
        repeated_stops_never_set_the_checkpoint_back(progress, events.drop_last());
    }
}

/// A stop was asked for exactly where the progress says so.
proof fn lemma_started(progress: StopProgress, events: Seq<StopEvent>)
    requires
        !progress.started,
    ensures
        progressed(progress, events).started == events.contains(StopEvent::Request),
    decreases events.len(),
{
    if events.len() > 0 {
        let rest = events.drop_last();
        lemma_started(progress, rest);
        if rest.contains(StopEvent::Request) {
            let i = choose|i: int| 0 <= i < rest.len() && rest[i] == StopEvent::Request;
            assert(events[i] == StopEvent::Request);
        }
        if events.last() == StopEvent::Request {
            assert(events[events.len() - 1] == StopEvent::Request);
        }
        if events.contains(StopEvent::Request) && events.last() != StopEvent::Request {
            let i = choose|i: int| 0 <= i < events.len() && events[i] == StopEvent::Request;
            assert(rest[i] == StopEvent::Request);
        }
    }
}

/// The reports of a stop carry the checkpoints 1, 2, and so on without a gap: one
/// for the first request and one for each tick of the timer, until all is
/// drained.
pub proof fn stop_reports_count_up(progress: StopProgress, events: Seq<StopEvent>)
    requires
        !progress.started,
        !progress.drained,
        progress.checkpoint == FIRST_STOP_CHECKPOINT,
        timer_follows_request(events),
        FIRST_STOP_CHECKPOINT + events.len() <= u32::MAX,
    ensures
        reports(progress, events).len() == if events.contains(StopEvent::Request) {
            1 + ticks(progress, events)
        } else {
            0
        },
        forall|i: int|
            0 <= i < reports(progress, events).len() ==> #[trigger] reports(progress, events)[i]
                == FIRST_STOP_CHECKPOINT + i,
    decreases events.len(),
{
    lemma_started(progress, events);
    repeated_stops_never_set_the_checkpoint_back(progress, events);
    if events.len() > 0 {
        let rest = events.drop_last();
        stop_reports_count_up(progress, rest);
        lemma_started(progress, rest);
        repeated_stops_never_set_the_checkpoint_back(progress, rest);
        if !rest.contains(StopEvent::Request) {
            lemma_no_ticks_before_the_request(progress, rest);
        }
    }
}

proof fn lemma_no_ticks_before_the_request(progress: StopProgress, events: Seq<StopEvent>)
    requires
        timer_follows_request(events),
        !events.contains(StopEvent::Request),
    ensures
        ticks(progress, events) == 0,
    decreases events.len(),
{
    if events.len() > 0 {
        let rest = events.drop_last();
        assert(!rest.contains(StopEvent::Request)) by {
            if rest.contains(StopEvent::Request) {
                let i = choose|i: int| 0 <= i < rest.len() && rest[i] == StopEvent::Request;
                assert(events[i] == StopEvent::Request);
            }
        }
        lemma_no_ticks_before_the_request(progress, rest);
    }
}

/// Once all is drained after a request to stop, nothing more is reported, whatever
/// comes.
pub proof fn stop_reports_end_with_finish(
    progress: StopProgress,
    events: Seq<StopEvent>,
    more: Seq<StopEvent>,
)
    requires
        progressed(progress, events).started,
    ensures
        ({
            let finished = events.push(StopEvent::Finish);
            &&& progressed(progress, finished + more).drained
            &&& reports(progress, finished + more) == reports(progress, events)
        }),
    decreases more.len(),
{
    let finished = events.push(StopEvent::Finish);
    assert(finished.drop_last() =~= events);
    if more.len() == 0 {
        assert(finished + more =~= finished);
    } else {
        stop_reports_end_with_finish(progress, events, more.drop_last());
        assert((finished + more.drop_last()).take(events.len() as int) =~= events);
        lemma_stays_started(progress, finished + more.drop_last(), events.len() as int);
        assert((finished + more).drop_last() =~= finished + more.drop_last());
    }
}

/// A stop that was asked for stays so.
proof fn lemma_stays_started(progress: StopProgress, events: Seq<StopEvent>, n: int)
    requires
        0 <= n <= events.len(),
        progressed(progress, events.take(n)).started,
    ensures
        progressed(progress, events).started,
    decreases events.len(),
{
    if n == events.len() {
        assert(events.take(n) =~= events);
    } else {
        assert(events.drop_last().take(n) =~= events.take(n));
        lemma_stays_started(progress, events.drop_last(), n);
    }
}

/// The stage after a run of events.
pub open spec fn stage_at(events: Seq<RunEvent>) -> RunStage
    decreases events.len(),
{
    if events.len() == 0 {
        RunStage::Preparing
    } else {
        next_stage(stage_at(events.drop_last()), events.last())
    }
}

/// A service whose calls to the manager all go through ends with a report that it
/// has stopped, whether its application could be started or not.
pub proof fn every_run_ends_with_a_stopped_report(code: Option<i32>, success: bool)
    ensures
        code matches Some(c) ==> stage_at(
            seq![RunEvent::Prepared(code), RunEvent::Called(true)],
        ) == RunStage::ReportingStopped,
        code is None ==> stage_at(
            seq![
                RunEvent::Prepared(code),
                RunEvent::Called(true),
                RunEvent::Called(true),
                RunEvent::Completed(success),
                RunEvent::Finished,
            ],
        ) == RunStage::ReportingStopped,
{
    reveal_with_fuel(stage_at, 6);
    let prepared = seq![RunEvent::Prepared(code)];
    let registered = prepared.push(RunEvent::Called(true));
    let running = registered.push(RunEvent::Called(true));
    let completed = running.push(RunEvent::Completed(success));
    let finished = completed.push(RunEvent::Finished);
    assert(prepared.drop_last() =~= Seq::empty());
    assert(registered.drop_last() =~= prepared);
    assert(running.drop_last() =~= registered);
    assert(completed.drop_last() =~= running);
    assert(finished.drop_last() =~= completed);
    assert(seq![RunEvent::Prepared(code), RunEvent::Called(true)] =~= registered);
    assert(seq![
        RunEvent::Prepared(code),
        RunEvent::Called(true),
        RunEvent::Called(true),
        RunEvent::Completed(success),
        RunEvent::Finished,
    ] =~= finished);
}

} // verus!
