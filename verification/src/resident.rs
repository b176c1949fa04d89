//! Starting, finding and refreshing the resident process.

use vstd::prelude::*;

verus! {

pub const ACK_READY: usize = 0x5354_5201;

pub const ACK_REFRESHED: usize = 0x5354_5202;

pub const ACK_REJECTED: usize = 0x5354_52ff;

/// How long a starting resident is waited for, in nanoseconds.
pub const RESIDENT_READY_TIMEOUT: u64 = 5_000_000_000;

pub const RESIDENT_MESSAGE_TIMEOUT_MS: u32 = 1_500;

/// How long to sleep between two looks at a starting resident, in milliseconds.
pub const RESIDENT_POLL_MS: u64 = 40;

#[derive(Clone, Copy, Debug, PartialEq, Eq, Structural)]
pub enum ResidentStartOutcome {
    AlreadyRunning,
    Started,
    Unavailable,
}

/// What became of a request to refresh.
#[derive(Clone, Copy, Debug, PartialEq, Eq, Structural)]
pub enum RefreshOutcome {
    Acknowledged,
    ResidentAbsent,
    Unacknowledged,
    Rejected,
}

#[derive(Clone, Copy, Debug, PartialEq, Eq, Structural)]
pub enum ResidentStartPlan {
    UseReadyResident,
    WaitForStartingResident,
    LaunchSibling,
}

/// A resident that answers is used, one that exists is waited for, and only
/// without either another one is launched.
pub open spec fn start_plan(ready: bool, resident_mutex_present: bool) -> ResidentStartPlan {
    if ready {
        ResidentStartPlan::UseReadyResident
    } else if resident_mutex_present {
        ResidentStartPlan::WaitForStartingResident
    } else {
        ResidentStartPlan::LaunchSibling
    }
}

pub fn plan_resident_start(ready: bool, resident_mutex_present: bool) -> (plan: ResidentStartPlan)
    ensures
        plan == start_plan(ready, resident_mutex_present),
{
    if ready {
        ResidentStartPlan::UseReadyResident
    } else if resident_mutex_present {
        ResidentStartPlan::WaitForStartingResident
    } else {
        ResidentStartPlan::LaunchSibling
    }
}

/// What ensuring that the resident runs does next.
#[derive(Clone, Copy, Debug, PartialEq, Eq, Structural)]
pub enum StartStep {
    /// Ask whether a resident answers.
    Probe,
    /// Take the lock that serializes managers.
    Lock,
    /// Ask again, and look for the resident's mutex.
    Inspect,
    /// Launch the resident.
    Launch,
    /// Wait until a resident answers.
    Wait { launched: bool },
    Done(ResidentStartOutcome),
}

/// What a step reported: whether it succeeded and, where the resident was
/// inspected, whether its mutex exists.
#[derive(Clone, Copy, Debug, PartialEq, Eq, Structural)]
pub struct StartReport {
    pub succeeded: bool,
    pub mutex_present: bool,
}

pub open spec fn start_next(step: StartStep, report: StartReport) -> StartStep {
    match step {
        StartStep::Probe => if report.succeeded {
            StartStep::Done(ResidentStartOutcome::AlreadyRunning)
        } else {
            StartStep::Lock
        },
        StartStep::Lock => if report.succeeded {
            StartStep::Inspect
        } else {
            StartStep::Done(ResidentStartOutcome::Unavailable)
        },
        StartStep::Inspect => match start_plan(report.succeeded, report.mutex_present) {
            ResidentStartPlan::UseReadyResident => StartStep::Done(
                ResidentStartOutcome::AlreadyRunning,
            ),
            ResidentStartPlan::WaitForStartingResident => StartStep::Wait { launched: false },
            ResidentStartPlan::LaunchSibling => StartStep::Launch,
        },
        StartStep::Launch => if report.succeeded {
            StartStep::Wait { launched: true }
        } else {
            StartStep::Done(ResidentStartOutcome::Unavailable)
        },
        StartStep::Wait { launched } => StartStep::Done(
            if !report.succeeded {
                ResidentStartOutcome::Unavailable
            } else if launched {
                ResidentStartOutcome::Started
            } else {
                ResidentStartOutcome::AlreadyRunning
            },
        ),
        StartStep::Done(outcome) => StartStep::Done(outcome),
    }
}

/// Advances ensuring that the resident runs past `step`.
pub fn ensure_resident_running(step: StartStep, report: StartReport) -> (next: StartStep)
    ensures
        next == start_next(step, report),
{
    match step {
        StartStep::Probe => if report.succeeded {
            StartStep::Done(ResidentStartOutcome::AlreadyRunning)
        } else {
            StartStep::Lock
        },
        StartStep::Lock => if report.succeeded {
            StartStep::Inspect
        } else {
            StartStep::Done(ResidentStartOutcome::Unavailable)
        },
        StartStep::Inspect => match plan_resident_start(report.succeeded, report.mutex_present) {
            ResidentStartPlan::UseReadyResident => StartStep::Done(
                ResidentStartOutcome::AlreadyRunning,
            ),
            ResidentStartPlan::WaitForStartingResident => StartStep::Wait { launched: false },
            ResidentStartPlan::LaunchSibling => StartStep::Launch,
        },
        StartStep::Launch => if report.succeeded {
            StartStep::Wait { launched: true }
        } else {
            StartStep::Done(ResidentStartOutcome::Unavailable)
        },
        StartStep::Wait { launched } => StartStep::Done(
            if !report.succeeded {
                ResidentStartOutcome::Unavailable
            } else if launched {
                ResidentStartOutcome::Started
            } else {
                ResidentStartOutcome::AlreadyRunning
            },
        ),
        StartStep::Done(outcome) => StartStep::Done(outcome),
    }
}

/// A second resident is launched only under the lock, and only where none
/// answered and none exists.
pub proof fn lemma_resident_is_launched_only_without_another(step: StartStep, report: StartReport)
    ensures
        step != StartStep::Launch && start_next(step, report) == StartStep::Launch ==> step
            == StartStep::Inspect && !report.succeeded && !report.mutex_present,
        start_next(step, report) == StartStep::Inspect ==> step == StartStep::Lock
            && report.succeeded,
{
}

/// What a look at a starting resident means.
#[derive(Clone, Copy, Debug, PartialEq, Eq, Structural)]
pub enum WaitStep {
    Ready,
    GiveUp,
    Sleep,
}

/// A resident is waited for until it answers, its process has ended, or the
/// deadline is reached.
pub fn wait_for_resident(ready: bool, child_exited: bool, now: u64, deadline: u64) -> (step:
    WaitStep)
    ensures
        step == if ready {
            WaitStep::Ready
        } else if child_exited || now >= deadline {
            WaitStep::GiveUp
        } else {
            WaitStep::Sleep
        },
{
    if ready {
        WaitStep::Ready
    } else if child_exited || now >= deadline {
        WaitStep::GiveUp
    } else {
        WaitStep::Sleep
    }
}

/// What a reply of the resident means. Only its own acknowledgements count: no
/// other reply, and no silence, is taken for one.
pub open spec fn refresh_outcome(response: Result<usize, RefreshOutcome>) -> RefreshOutcome {
    match response {
        Ok(reply) => if reply == ACK_REFRESHED {
            RefreshOutcome::Acknowledged
        } else if reply == ACK_REJECTED {
            RefreshOutcome::Rejected
        } else {
            RefreshOutcome::Unacknowledged
        },
        Err(outcome) => outcome,
    }
}

pub fn decode_refresh_response(response: Result<usize, RefreshOutcome>) -> (outcome: RefreshOutcome)
    ensures
        outcome == refresh_outcome(response),
{
    match response {
        Ok(reply) => if reply == ACK_REFRESHED {
            RefreshOutcome::Acknowledged
        } else if reply == ACK_REJECTED {
            RefreshOutcome::Rejected
        } else {
            RefreshOutcome::Unacknowledged
        },
        Err(outcome) => outcome,
    }
}

/// What sending a message to the resident came to: `reply` is missing where the
/// resident did not answer in time.
pub open spec fn message_response(resident_found: bool, reply: Option<usize>) -> Result<
    usize,
    RefreshOutcome,
> {
    if !resident_found {
        Err(RefreshOutcome::ResidentAbsent)
    } else {
        match reply {
            Some(value) => Ok(value),
            None => Err(RefreshOutcome::Unacknowledged),
        }
    }
}

pub fn resident_response(resident_found: bool, reply: Option<usize>) -> (response: Result<
    usize,
    RefreshOutcome,
>)
    ensures
        response == message_response(resident_found, reply),
{
    if !resident_found {
        return Err(RefreshOutcome::ResidentAbsent);
    }
    match reply {
        Some(value) => Ok(value),
        None => Err(RefreshOutcome::Unacknowledged),
    }
}

/// The outcome of asking the resident to load its configuration again.
pub fn notify_config_changed(resident_found: bool, reply: Option<usize>) -> (outcome:
    RefreshOutcome)
    ensures
        outcome == refresh_outcome(message_response(resident_found, reply)),
{
    decode_refresh_response(resident_response(resident_found, reply))
}

/// The outcome of asking the resident to read its credential again.
pub fn notify_credentials_changed(resident_found: bool, reply: Option<usize>) -> (outcome:
    RefreshOutcome)
    ensures
        outcome == refresh_outcome(message_response(resident_found, reply)),
{
    decode_refresh_response(resident_response(resident_found, reply))
}

/// The resident answered that it is ready.
pub fn resident_ready(resident_found: bool, reply: Option<usize>) -> (ready: bool)
    ensures
        ready == (message_response(resident_found, reply) == Ok::<usize, RefreshOutcome>(
            ACK_READY,
        )),
{
    match resident_response(resident_found, reply) {
        Ok(value) => value == ACK_READY,
        Err(_) => false,
    }
}

/// A refresh counts as acknowledged exactly where a resident was found and
/// answered so; a missing and a silent resident are told apart.
pub proof fn lemma_acknowledgement_is_never_assumed(resident_found: bool, reply: Option<usize>)
    ensures
        refresh_outcome(message_response(resident_found, reply)) == RefreshOutcome::Acknowledged
            <==> resident_found && reply == Some(ACK_REFRESHED),
        refresh_outcome(message_response(resident_found, reply)) == RefreshOutcome::ResidentAbsent
            <==> !resident_found,
{
}

// Diagnostics.

#[derive(Clone, Copy, Debug, PartialEq, Eq, Structural)]
pub enum ResidentDiagnostic {
    FatalStartup,
    ManualHotkeyUnavailable,
    ResultWindowUnavailable,
}

#[derive(Clone, Copy, Debug, PartialEq, Eq, Structural)]
pub enum DiagnosticIcon {
    Error,
    Warning,
}

impl ResidentDiagnostic {
    pub open spec fn text(self) -> Seq<char> {
        match self {
            ResidentDiagnostic::FatalStartup => {
                "Selection Translate could not start. Restart the app; if the problem continues, reinstall this package."@
            },
            ResidentDiagnostic::ManualHotkeyUnavailable => {
                "Manual translation shortcut Ctrl+Alt+T is already in use. Close the conflicting app, then restart Selection Translate."@
            },
            ResidentDiagnostic::ResultWindowUnavailable => {
                "The translation result window could not be opened. No provider request was sent."@
            },
        }
    }

    /// The diagnostic in fixed words.
    pub fn message(self) -> (message: &'static str)
        ensures
            message@ == self.text(),
    {
        match self {
            ResidentDiagnostic::FatalStartup => {
                "Selection Translate could not start. Restart the app; if the problem continues, reinstall this package."
            },
            ResidentDiagnostic::ManualHotkeyUnavailable => {
                "Manual translation shortcut Ctrl+Alt+T is already in use. Close the conflicting app, then restart Selection Translate."
            },
            ResidentDiagnostic::ResultWindowUnavailable => {
                "The translation result window could not be opened. No provider request was sent."
            },
        }
    }

    pub fn icon(self) -> (icon: DiagnosticIcon)
        ensures
            icon == if self == ResidentDiagnostic::FatalStartup {
                DiagnosticIcon::Error
            } else {
                DiagnosticIcon::Warning
            },
    {
        match self {
            ResidentDiagnostic::FatalStartup => DiagnosticIcon::Error,
            _ => DiagnosticIcon::Warning,
        }
    }
}

/// What is shown when the resident cannot start.
pub fn show_resident_startup_failure() -> (diagnostic: ResidentDiagnostic)
    ensures
        diagnostic == ResidentDiagnostic::FatalStartup,
{
    ResidentDiagnostic::FatalStartup
}

// The life of the resident.

/// A system service that the resident initializes.
#[derive(Clone, Copy, Debug, PartialEq, Eq, Structural)]
pub enum RuntimeService {
    Com,
    WinRt,
}

/// The services that are initialized.
#[derive(Clone, Copy, Debug, PartialEq, Eq, Structural)]
pub struct RuntimeGuard {
    pub com: bool,
    pub winrt: bool,
}

impl RuntimeGuard {
    /// The services after COM, then the Windows Runtime, were initialized; the
    /// second is tried only after the first. On failure, what is to be released
    /// again.
    pub fn initialize(com: bool, winrt: bool) -> (guard: Result<RuntimeGuard, RuntimeGuard>)
        ensures
            guard == if com && winrt {
                Ok(RuntimeGuard { com: true, winrt: true })
            } else {
                Err(RuntimeGuard { com, winrt: false })
            },
    {
        if com && winrt {
            Ok(RuntimeGuard { com: true, winrt: true })
        } else {
            Err(RuntimeGuard { com, winrt: false })
        }
    }

    /// The services to release, last initialized first.
    pub fn release(&self) -> (services: Vec<RuntimeService>)
        ensures
            services@ == (if self.winrt {
                seq![RuntimeService::WinRt]
            } else {
                seq![]
            }) + (if self.com {
                seq![RuntimeService::Com]
            } else {
                seq![]
            }),
    {
        let mut services: Vec<RuntimeService> = Vec::new();
        if self.winrt {
            services.push(RuntimeService::WinRt);
        }
        if self.com {
            services.push(RuntimeService::Com);
        }
        proof {
            assert(services@ =~= (if self.winrt {
                seq![RuntimeService::WinRt]
            } else {
                seq![]
            }) + (if self.com {
                seq![RuntimeService::Com]
            } else {
                seq![]
            }));
        }
        services
    }
}

/// The steps of a starting resident, in order.
#[derive(Clone, Copy, Debug, PartialEq, Eq, Structural)]
pub enum StartupStep {
    InitializeServices,
    /// Become the only resident.
    AcquireInstance,
    RegisterClass,
    CreateWindow,
    AddTrayIcon,
    /// Hotkeys and the configuration watcher: their failures are not fatal.
    RegisterInputs,
    InstallMouseHook,
    InstallForegroundHook,
    /// Run the message loop.
    RunLoop,
    /// Cancel the work, release the hotkeys, dismiss the popups, drop the
    /// state and destroy the window.
    ShutDown,
}

/// What a step of a starting resident reported.
#[derive(Clone, Copy, Debug, PartialEq, Eq, Structural)]
pub enum StartupReport {
    Succeeded,
    Failed,
    /// Another resident already runs.
    Taken,
}

/// What follows a step of a starting resident.
#[derive(Clone, Copy, Debug, PartialEq, Eq, Structural)]
pub enum StartupNext {
    Perform(StartupStep),
    /// The resident ends; its window is destroyed first where it has one.
    End { failed: bool, destroy_window: bool },
}

/// The window exists once its step has succeeded.
pub open spec fn has_window(step: StartupStep) -> bool {
    match step {
        StartupStep::InitializeServices | StartupStep::AcquireInstance
        | StartupStep::RegisterClass | StartupStep::CreateWindow => false,
        _ => true,
    }
}

pub open spec fn startup_after(step: StartupStep, report: StartupReport) -> StartupNext {
    if step == StartupStep::RunLoop {
        StartupNext::Perform(StartupStep::ShutDown)
    } else if step == StartupStep::ShutDown {
        StartupNext::End { failed: report != StartupReport::Succeeded, destroy_window: true }
    } else if step == StartupStep::AcquireInstance && report == StartupReport::Taken {
        StartupNext::End { failed: false, destroy_window: false }
    } else if step != StartupStep::RegisterInputs && report != StartupReport::Succeeded {
        StartupNext::End { failed: true, destroy_window: has_window(step) }
    } else {
        StartupNext::Perform(
            match step {
                StartupStep::InitializeServices => StartupStep::AcquireInstance,
                StartupStep::AcquireInstance => StartupStep::RegisterClass,
                StartupStep::RegisterClass => StartupStep::CreateWindow,
                StartupStep::CreateWindow => StartupStep::AddTrayIcon,
                StartupStep::AddTrayIcon => StartupStep::RegisterInputs,
                StartupStep::RegisterInputs => StartupStep::InstallMouseHook,
                StartupStep::InstallMouseHook => StartupStep::InstallForegroundHook,
                _ => StartupStep::RunLoop,
            },
        )
    }
}

/// Starts a resident where the system supports one.
pub fn run(supported: bool) -> (first: Result<StartupStep, &'static str>)
    ensures
        first == if supported {
            Ok(StartupStep::InitializeServices)
        } else {
            Err("the resident shell requires Windows")
        },
{
    if supported {
        Ok(StartupStep::InitializeServices)
    } else {
        Err("the resident shell requires Windows")
    }
}

/// Advances a resident past `step`. For the last step the report is that of
/// the message loop.
pub fn startup_step(step: StartupStep, report: StartupReport) -> (next: StartupNext)
    ensures
        next == startup_after(step, report),
{
    let failed: bool = report != StartupReport::Succeeded;
    match step {
        StartupStep::InitializeServices => if failed {
            StartupNext::End { failed: true, destroy_window: false }
        } else {
            StartupNext::Perform(StartupStep::AcquireInstance)
        },
        StartupStep::AcquireInstance => match report {
            StartupReport::Succeeded => StartupNext::Perform(StartupStep::RegisterClass),
            StartupReport::Taken => StartupNext::End { failed: false, destroy_window: false },
            StartupReport::Failed => StartupNext::End { failed: true, destroy_window: false },
        },
        StartupStep::RegisterClass => if failed {
            StartupNext::End { failed: true, destroy_window: false }
        } else {
            StartupNext::Perform(StartupStep::CreateWindow)
        },
        StartupStep::CreateWindow => if failed {
            StartupNext::End { failed: true, destroy_window: false }
        } else {
            StartupNext::Perform(StartupStep::AddTrayIcon)
        },
        StartupStep::AddTrayIcon => if failed {
            StartupNext::End { failed: true, destroy_window: true }
        } else {
            StartupNext::Perform(StartupStep::RegisterInputs)
        },
        StartupStep::RegisterInputs => StartupNext::Perform(StartupStep::InstallMouseHook),
        StartupStep::InstallMouseHook => if failed {
            StartupNext::End { failed: true, destroy_window: true }
        } else {
            StartupNext::Perform(StartupStep::InstallForegroundHook)
        },
        StartupStep::InstallForegroundHook => if failed {
            StartupNext::End { failed: true, destroy_window: true }
        } else {
            StartupNext::Perform(StartupStep::RunLoop)
        },
        StartupStep::RunLoop => StartupNext::Perform(StartupStep::ShutDown),
        StartupStep::ShutDown => StartupNext::End { failed, destroy_window: true },
    }
}

/// A resident that ends destroys its window exactly where it has one, and one
/// that finds another resident ends without a failure.
pub proof fn lemma_startup_leaves_no_window(step: StartupStep, report: StartupReport)
    ensures
        startup_after(step, report) matches StartupNext::End { failed, destroy_window } ==> {
            &&& destroy_window == has_window(step)
            &&& step == StartupStep::AcquireInstance && report == StartupReport::Taken ==> !failed
        },
{
}

/// What the result of waiting for a message means: minus one is an error, zero
/// is the end.
#[derive(Clone, Copy, Debug, PartialEq, Eq, Structural)]
pub enum LoopStep {
    Dispatch,
    Quit,
    Fail,
}

pub fn message_loop_step(result: i32) -> (step: LoopStep)
    ensures
        step == if result == -1 {
            LoopStep::Fail
        } else if result == 0 {
            LoopStep::Quit
        } else {
            LoopStep::Dispatch
        },
{
    if result == -1 {
        LoopStep::Fail
    } else if result == 0 {
        LoopStep::Quit
    } else {
        LoopStep::Dispatch
    }
}

// What the rules above are for.

/// A resident that answers is used, one that is starting is waited for, and
/// only without either is one launched.
pub proof fn lemma_how_a_resident_is_started(ready: bool, present: bool)
    ensures
        start_plan(true, present) == ResidentStartPlan::UseReadyResident,
        start_plan(false, true) == ResidentStartPlan::WaitForStartingResident,
        start_plan(false, false) == ResidentStartPlan::LaunchSibling,
{
}

/// A start goes through in order: a resident that answers ends it at once,
/// also behind the lock; a launched one counts as started once it answers, one
/// that somebody else launched as running; whatever fails leaves none.
pub proof fn lemma_a_start_goes_in_order(mutex: bool)
    ensures
        ({
            let yes = StartReport { succeeded: true, mutex_present: mutex };
            let no = StartReport { succeeded: false, mutex_present: mutex };
            let running = StartStep::Done(ResidentStartOutcome::AlreadyRunning);
            let started = StartStep::Done(ResidentStartOutcome::Started);
            let none = StartStep::Done(ResidentStartOutcome::Unavailable);
            &&& start_next(StartStep::Probe, yes) == running
            &&& start_next(StartStep::Probe, no) == StartStep::Lock
            &&& start_next(StartStep::Lock, yes) == StartStep::Inspect
            &&& start_next(StartStep::Lock, no) == none
            &&& start_next(StartStep::Inspect, yes) == running
            &&& mutex ==> start_next(StartStep::Inspect, no) == (StartStep::Wait {
                launched: false,
            })
            &&& !mutex ==> start_next(StartStep::Inspect, no) == StartStep::Launch
            &&& start_next(StartStep::Launch, yes) == (StartStep::Wait { launched: true })
            &&& start_next(StartStep::Launch, no) == none
            &&& start_next(StartStep::Wait { launched: true }, yes) == started
            &&& start_next(StartStep::Wait { launched: false }, yes) == running
            &&& start_next(StartStep::Wait { launched: true }, no) == none
            &&& start_next(StartStep::Wait { launched: false }, no) == none
        }),
{
}

/// A start is waited for until the resident answers, its process is gone or
/// the time is up.
pub proof fn lemma_a_start_is_waited_for(
    ready: bool,
    exited: bool,
    now: u64,
    deadline: u64,
    step: WaitStep,
)
    requires
        call_ensures(wait_for_resident, (ready, exited, now, deadline), step),
    ensures
        step == WaitStep::Ready <==> ready,
        step == WaitStep::Sleep <==> !ready && !exited && now < deadline,
        step == WaitStep::GiveUp <==> !ready && (exited || now >= deadline),
{
}

/// A change counts as taken over only where the resident says so; where it
/// refuses, is silent or is not there, that is told apart.
pub proof fn lemma_what_a_reply_means(
    found: bool,
    reply: usize,
    changed: RefreshOutcome,
    silent: RefreshOutcome,
    credentials: RefreshOutcome,
    ready: bool,
)
    requires
        call_ensures(notify_config_changed, (found, Some(reply)), changed),
        call_ensures(notify_config_changed, (found, None), silent),
        call_ensures(notify_credentials_changed, (found, Some(reply)), credentials),
        call_ensures(resident_ready, (found, Some(reply)), ready),
    ensures
        !found ==> changed == RefreshOutcome::ResidentAbsent && silent
            == RefreshOutcome::ResidentAbsent && !ready,
        found ==> silent == RefreshOutcome::Unacknowledged,
        found && reply == 0x5354_5202 ==> changed == RefreshOutcome::Acknowledged,
        found && reply == 0x5354_52ff ==> changed == RefreshOutcome::Rejected,
        found && reply != 0x5354_5202 && reply != 0x5354_52ff ==> changed
            == RefreshOutcome::Unacknowledged,
        credentials == changed,
        ready <==> found && reply == 0x5354_5201,
{
}

/// The services that were had are released, the later one first; where one is
/// missing the resident has neither.
pub proof fn lemma_services_are_released_in_reverse(
    com: bool,
    winrt: bool,
    guard: Result<RuntimeGuard, RuntimeGuard>,
    held: RuntimeGuard,
    services: Vec<RuntimeService>,
)
    requires
        call_ensures(RuntimeGuard::initialize, (com, winrt), guard),
        call_ensures(RuntimeGuard::release, (&held,), services),
    ensures
        guard is Ok <==> com && winrt,
        guard matches Ok(both) ==> both.com && both.winrt,
        guard matches Err(part) ==> part.com == com && !part.winrt,
        held.com && held.winrt ==> services@ == seq![RuntimeService::WinRt, RuntimeService::Com],
        held.com && !held.winrt ==> services@ == seq![RuntimeService::Com],
        !held.com && !held.winrt ==> services@.len() == 0,
{
}

/// The resident comes up in order, and shuts down after its loop however that
/// ended. Only the hotkeys and the watcher may fail; a second resident leaves
/// without a failure.
pub proof fn lemma_the_resident_comes_up_in_order(report: StartupReport, step: StartupStep)
    ensures
        startup_after(StartupStep::InitializeServices, StartupReport::Succeeded)
            == StartupNext::Perform(StartupStep::AcquireInstance),
        startup_after(StartupStep::AcquireInstance, StartupReport::Succeeded)
            == StartupNext::Perform(StartupStep::RegisterClass),
        startup_after(StartupStep::RegisterClass, StartupReport::Succeeded)
            == StartupNext::Perform(StartupStep::CreateWindow),
        startup_after(StartupStep::CreateWindow, StartupReport::Succeeded) == StartupNext::Perform(
            StartupStep::AddTrayIcon,
        ),
        startup_after(StartupStep::AddTrayIcon, StartupReport::Succeeded) == StartupNext::Perform(
            StartupStep::RegisterInputs,
        ),
        startup_after(StartupStep::RegisterInputs, report) == StartupNext::Perform(
            StartupStep::InstallMouseHook,
        ),
        startup_after(StartupStep::InstallMouseHook, StartupReport::Succeeded)
            == StartupNext::Perform(StartupStep::InstallForegroundHook),
        startup_after(StartupStep::InstallForegroundHook, StartupReport::Succeeded)
            == StartupNext::Perform(StartupStep::RunLoop),
        startup_after(StartupStep::RunLoop, report) == StartupNext::Perform(StartupStep::ShutDown),
        startup_after(StartupStep::ShutDown, StartupReport::Succeeded) == (StartupNext::End {
            failed: false,
            destroy_window: true,
        }),
        startup_after(StartupStep::AcquireInstance, StartupReport::Taken) == (StartupNext::End {
            failed: false,
            destroy_window: false,
        }),
        step != StartupStep::RegisterInputs && step != StartupStep::RunLoop ==> (startup_after(
            step,
            StartupReport::Failed,
        ) matches StartupNext::End { failed, .. } && failed),
        startup_after(StartupStep::CreateWindow, StartupReport::Failed) == (StartupNext::End {
            failed: true,
            destroy_window: false,
        }),
        startup_after(StartupStep::AddTrayIcon, StartupReport::Failed) == (StartupNext::End {
            failed: true,
            destroy_window: true,
        }),
{
}

/// A message is passed on until there are no more; an error is no message.
pub proof fn lemma_when_the_loop_ends(result: i32, step: LoopStep)
    requires
        call_ensures(message_loop_step, (result,), step),
    ensures
        result == 0 <==> step == LoopStep::Quit,
        result == -1 <==> step == LoopStep::Fail,
        result > 0 ==> step == LoopStep::Dispatch,
{
}

/// A failed start is an error, everything else a warning.
pub proof fn lemma_only_a_failed_start_is_an_error(
    diagnostic: ResidentDiagnostic,
    icon: DiagnosticIcon,
)
    requires
        call_ensures(ResidentDiagnostic::icon, (diagnostic,), icon),
    ensures
        icon == DiagnosticIcon::Error <==> diagnostic == ResidentDiagnostic::FatalStartup,
{
}

/// The starts of the resident and of its manager move by the steps of the
/// model; off Windows there is none.
pub proof fn lemma_the_starts_move_by_the_model(
    step: StartStep,
    report: StartReport,
    next: StartStep,
    stage: StartupStep,
    outcome: StartupReport,
    following: StartupNext,
    supported: bool,
    first: Result<StartupStep, &'static str>,
)
    requires
        call_ensures(ensure_resident_running, (step, report), next),
        call_ensures(startup_step, (stage, outcome), following),
        call_ensures(run, (supported,), first),
    ensures
        next == start_next(step, report),
        following == startup_after(stage, outcome),
        supported ==> first == Ok::<StartupStep, &'static str>(StartupStep::InitializeServices),
        !supported ==> first is Err,
{
}

} // verus!
