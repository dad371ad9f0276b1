//! The decision logic of the four supervisor tasks, as explicit state
//! machines: per-service supervision with restart and TERM/KILL
//! stopping, the broadcast shutdown pump, the child reaper, and the
//! signal handler. The surrounding runtime performs each returned
//! action (spawning, waiting, signalling, sleeping) and feeds the
//! observed event back in.

use vstd::prelude::*;

use crate::config::{views_of, Command, MAX_TERM_WAIT_TIME_SECS};
use crate::cron::SpawnPlan;
use crate::error::WingmateInitError;

verus! {

/// The error code with which a wait reports that no children exist.
pub const ECHILD_ERRNO: i32 = 10;

/// How a failed wait on a child is reported: an operating-system error
/// code, or an error that carried none.
#[derive(Debug, Clone, Copy, PartialEq, Eq)]
pub enum WaitError {
    Os { errno: i32 },
    Unknown,
}

/// A wait result that supervision treats as a normal child exit: a
/// clean status, or the report that the child was already consumed by
/// the reaper.
pub open spec fn spec_wait_benign(w: Option<WaitError>) -> bool {
    match w {
        None => true,
        Some(WaitError::Os { errno }) => errno == ECHILD_ERRNO,
        Some(WaitError::Unknown) => false,
    }
}

/// Whether a wait result counts as a normal child exit.
pub fn wait_benign(w: &Option<WaitError>) -> (r: bool)
    ensures
        r == spec_wait_benign(*w),
{
    match w {
        None => true,
        Some(WaitError::Os { errno }) => *errno == ECHILD_ERRNO,
        Some(WaitError::Unknown) => false,
    }
}

/// The error code a wait error stands for, if it carried one.
pub open spec fn spec_wait_errno(w: Option<WaitError>) -> Option<i32> {
    match w {
        Some(WaitError::Os { errno }) => Some(errno),
        _ => None,
    }
}

/// Classify a finished wait on a child: a benign result is a normal
/// exit, anything else surfaces as a child-exit error carrying the
/// code the wait reported.
pub fn classify_wait(w: &Option<WaitError>) -> (r: Result<(), WingmateInitError>)
    ensures
        (match r {
            Ok(_) => spec_wait_benign(*w),
            Err(e) => !spec_wait_benign(*w) && (e matches WingmateInitError::ChildExit { errno }
                && errno == spec_wait_errno(*w)),
        }),
{
    match w {
        None => Ok(()),
        Some(WaitError::Os { errno }) => {
            if *errno == ECHILD_ERRNO {
                Ok(())
            } else {
                Err(WingmateInitError::ChildExit { errno: Some(*errno) })
            }
        },
        Some(WaitError::Unknown) => Err(WingmateInitError::ChildExit { errno: None }),
    }
}

/// Per-service supervision states.
#[derive(Debug, Clone, Copy, PartialEq, Eq)]
pub enum ServiceState {
    /// About to spawn the service.
    Starting,
    /// The child runs; its pid is recorded as the runtime reported it.
    Running { pid: Option<u32> },
    /// Cancellation was observed; TERM is about to be sent to `pid`.
    Stopping { pid: u32 },
    /// TERM was sent; waiting for the child against the grace timer.
    TermWait { pid: u32 },
    /// The task is done.
    Terminated,
}

/// What the supervision task observes between steps.
#[derive(Debug, Clone, Copy, PartialEq, Eq)]
pub enum ServiceEvent {
    /// The spawn succeeded; the runtime reported this pid.
    Spawned { pid: Option<u32> },
    /// The spawn failed.
    SpawnFailed,
    /// The child terminated; `wait_err` is the error of the wait, if any.
    ChildExited { wait_err: Option<WaitError> },
    /// Cancellation was observed.
    Cancelled,
    /// TERM was delivered.
    TermSent,
    /// TERM failed; `esrch` says whether with "no such process".
    TermFailed { esrch: bool },
    /// The awaited child terminated within the grace period.
    WaitCompleted { wait_err: Option<WaitError> },
    /// The grace timer won against the wait.
    GraceExpired,
}

/// What the supervision task must do next.
#[derive(Debug, Clone, Copy, PartialEq, Eq)]
pub enum ServiceAction {
    /// Spawn the service command.
    Spawn,
    /// Await the child's exit or cancellation, whichever comes first.
    AwaitChildOrCancel,
    /// Send TERM to the recorded pid.
    SendTerm,
    /// Race the child's wait against the grace timer.
    AwaitWaitOrTimer,
    /// Send an unconditional KILL; the task is done.
    Kill,
    /// Leave the loop; the task is done.
    Stop,
    /// Leave the loop; the spawn failed (only this service's loop ends).
    FailSpawn,
    /// Leave the loop; the wait failed (only this service's loop ends).
    FailChildExit { errno: Option<i32> },
    /// Leave the loop; TERM failed unexpectedly (only this service's loop ends).
    FailChildNotFound,
}

/// The supervision transition function. A child that exits while no
/// shutdown was requested is respawned; once cancellation is observed
/// the child is TERMed, awaited for the grace period, and KILLed if it
/// overstays. An event that cannot occur in a state terminates the
/// task.
pub open spec fn spec_service_step(s: ServiceState, e: ServiceEvent) -> (ServiceState,
    ServiceAction) {
    match (s, e) {
        (ServiceState::Starting, ServiceEvent::Spawned { pid }) => (
            ServiceState::Running { pid },
            ServiceAction::AwaitChildOrCancel,
        ),
        (ServiceState::Starting, ServiceEvent::SpawnFailed) => (
            ServiceState::Terminated,
            ServiceAction::FailSpawn,
        ),
        (ServiceState::Starting, ServiceEvent::Cancelled) => (
            ServiceState::Terminated,
            ServiceAction::Stop,
        ),
        (ServiceState::Running { .. }, ServiceEvent::ChildExited { wait_err }) => {
            if spec_wait_benign(wait_err) {
                (ServiceState::Starting, ServiceAction::Spawn)
            } else {
                (
                    ServiceState::Terminated,
                    ServiceAction::FailChildExit {
                        errno: (match wait_err {
                            Some(WaitError::Os { errno }) => Some(errno),
                            _ => None,
                        }),
                    },
                )
            }
        },
        (ServiceState::Running { pid }, ServiceEvent::Cancelled) => {
            match pid {
                Some(p) => (ServiceState::Stopping { pid: p }, ServiceAction::SendTerm),
                None => (ServiceState::Terminated, ServiceAction::Stop),
            }
        },
        (ServiceState::Stopping { pid }, ServiceEvent::TermSent) => (
            ServiceState::TermWait { pid },
            ServiceAction::AwaitWaitOrTimer,
        ),
        (ServiceState::Stopping { .. }, ServiceEvent::TermFailed { esrch }) => {
            if esrch {
                (ServiceState::Terminated, ServiceAction::Stop)
            } else {
                (ServiceState::Terminated, ServiceAction::FailChildNotFound)
            }
        },
        (ServiceState::TermWait { .. }, ServiceEvent::WaitCompleted { wait_err }) => {
            if spec_wait_benign(wait_err) {
                (ServiceState::Terminated, ServiceAction::Stop)
            } else {
                (
                    ServiceState::Terminated,
                    ServiceAction::FailChildExit {
                        errno: (match wait_err {
                            Some(WaitError::Os { errno }) => Some(errno),
                            _ => None,
                        }),
                    },
                )
            }
        },
        (ServiceState::TermWait { .. }, ServiceEvent::GraceExpired) => (
            ServiceState::Terminated,
            ServiceAction::Kill,
        ),
        _ => (ServiceState::Terminated, ServiceAction::Stop),
    }
}

/// One supervision step.
pub fn service_step(s: ServiceState, e: ServiceEvent) -> (r: (ServiceState, ServiceAction))
    ensures
        r == spec_service_step(s, e),
{
    match (s, e) {
        (ServiceState::Starting, ServiceEvent::Spawned { pid }) => (
            ServiceState::Running { pid },
            ServiceAction::AwaitChildOrCancel,
        ),
        (ServiceState::Starting, ServiceEvent::SpawnFailed) => (
            ServiceState::Terminated,
            ServiceAction::FailSpawn,
        ),
        (ServiceState::Starting, ServiceEvent::Cancelled) => (
            ServiceState::Terminated,
            ServiceAction::Stop,
        ),
        (ServiceState::Running { .. }, ServiceEvent::ChildExited { wait_err }) => {
            match wait_err {
                None => (ServiceState::Starting, ServiceAction::Spawn),
                Some(WaitError::Os { errno }) => {
                    if errno == ECHILD_ERRNO {
                        (ServiceState::Starting, ServiceAction::Spawn)
                    } else {
                        (
                            ServiceState::Terminated,
                            ServiceAction::FailChildExit { errno: Some(errno) },
                        )
                    }
                },
                Some(WaitError::Unknown) => (
                    ServiceState::Terminated,
                    ServiceAction::FailChildExit { errno: None },
                ),
            }
        },
        (ServiceState::Running { pid }, ServiceEvent::Cancelled) => {
            match pid {
                Some(p) => (ServiceState::Stopping { pid: p }, ServiceAction::SendTerm),
                None => (ServiceState::Terminated, ServiceAction::Stop),
            }
        },
        (ServiceState::Stopping { pid }, ServiceEvent::TermSent) => (
            ServiceState::TermWait { pid },
            ServiceAction::AwaitWaitOrTimer,
        ),
        (ServiceState::Stopping { .. }, ServiceEvent::TermFailed { esrch }) => {
            if esrch {
                (ServiceState::Terminated, ServiceAction::Stop)
            } else {
                (ServiceState::Terminated, ServiceAction::FailChildNotFound)
            }
        },
        (ServiceState::TermWait { .. }, ServiceEvent::WaitCompleted { wait_err }) => {
            match wait_err {
                None => (ServiceState::Terminated, ServiceAction::Stop),
                Some(WaitError::Os { errno }) => {
                    if errno == ECHILD_ERRNO {
                        (ServiceState::Terminated, ServiceAction::Stop)
                    } else {
                        (
                            ServiceState::Terminated,
                            ServiceAction::FailChildExit { errno: Some(errno) },
                        )
                    }
                },
                Some(WaitError::Unknown) => (
                    ServiceState::Terminated,
                    ServiceAction::FailChildExit { errno: None },
                ),
            }
        },
        (ServiceState::TermWait { .. }, ServiceEvent::GraceExpired) => (
            ServiceState::Terminated,
            ServiceAction::Kill,
        ),
        _ => (ServiceState::Terminated, ServiceAction::Stop),
    }
}

/// Law: a service whose child exits normally while no shutdown has
/// been requested is respawned, whatever pid was recorded.
pub proof fn lemma_service_restarts(pid: Option<u32>, w: Option<WaitError>)
    requires
        spec_wait_benign(w),
    ensures
        spec_service_step(ServiceState::Running { pid }, ServiceEvent::ChildExited { wait_err: w })
            == (ServiceState::Starting, ServiceAction::Spawn),
{
}

/// Law: once a service task has observed cancellation — it is stopping,
/// waiting out the grace period, or done — no event makes it spawn
/// again.
pub proof fn lemma_no_spawn_after_cancel(s: ServiceState, e: ServiceEvent)
    requires
        s is Stopping || s is TermWait || s is Terminated,
    ensures
        !(spec_service_step(s, e).1 is Spawn),
{
}

/// The spawn plan for a configured service: a direct command runs as
/// itself with no arguments; a shell-prefixed command runs the resolved
/// shell with the file as its single argument, and fails when no shell
/// was resolved.
pub fn service_spawn_plan(svc: &Command, shell: Option<&String>) -> (r: Result<
    SpawnPlan,
    WingmateInitError,
>)
    ensures
        (match r {
            Ok(plan) => (match *svc {
                Command::Direct(p) => plan.program@ == p@ && plan.args@.len() == 0,
                Command::ShellPrefixed(sp) => shell matches Some(sh) && plan.program@ == sh@
                    && plan.args@.len() == 1 && plan.args@[0]@ == sp@,
            }),
            Err(e) => e is NoShellAvailable && svc is ShellPrefixed && shell is None,
        }),
{
    match svc {
        Command::Direct(p) => Ok(SpawnPlan { program: p.clone(), args: Vec::new() }),
        Command::ShellPrefixed(sp) => {
            match shell {
                Some(sh) => {
                    let mut args: Vec<String> = Vec::new();
                    args.push(sp.clone());
                    Ok(SpawnPlan { program: sh.clone(), args })
                },
                None => Err(WingmateInitError::NoShellAvailable),
            }
        },
    }
}

/// The words after the first of a command line, each preceded by one
/// space.
pub open spec fn spec_rest_join(ws: Seq<Seq<char>>) -> Seq<char>
    decreases ws.len(),
{
    if ws.len() == 0 {
        Seq::empty()
    } else {
        seq![' '] + ws[0] + spec_rest_join(ws.drop_first())
    }
}

/// The command line a spawn plan stands for: the program and its
/// arguments joined by single spaces.
pub open spec fn spec_plan_message(plan: SpawnPlan) -> Seq<char> {
    plan.program@ + spec_rest_join(views_of(plan.args@))
}

/// Render the command line of a plan, for the message of a spawn
/// failure.
pub fn spawn_message(plan: &SpawnPlan) -> (r: String)
    ensures
        r@ == spec_plan_message(*plan),
{
    let ghost ws = views_of(plan.args@);
    let mut msg = plan.program.clone();
    let mut i: usize = 0;
    proof {
        reveal_strlit(" ");
        assert(" "@ =~= seq![' ']);
        assert(ws.skip(0) =~= ws);
    }
    while i < plan.args.len()
        invariant
            i <= plan.args@.len(),
            ws == views_of(plan.args@),
            " "@ == seq![' '],
            msg@ + spec_rest_join(ws.skip(i as int)) == spec_plan_message(*plan),
        decreases plan.args@.len() - i,
    {
        proof {
            assert(ws.skip(i as int)[0] == ws[i as int]);
            assert(ws.skip(i as int).drop_first() =~= ws.skip(i + 1));
            assert(spec_rest_join(ws.skip(i as int)) == seq![' '] + ws[i as int] + spec_rest_join(
                ws.skip(i + 1),
            ));
        }
        msg.append(" ");
        msg.append(plan.args[i].as_str());
        i = i + 1;
    }
    proof {
        assert(ws.skip(plan.args@.len() as int) =~= Seq::<Seq<char>>::empty());
    }
    msg
}

/// The two broadcast modes of the shutdown pump.
#[derive(Debug, Clone, Copy, PartialEq, Eq, Structural)]
pub enum PumpMode {
    /// Broadcasting TERM every 100 ms.
    Term,
    /// Broadcasting KILL every 10 ms.
    Kill,
}

/// One step of the armed shutdown pump: the signal to broadcast to the
/// whole process group, the mode for the next step, and the delay in
/// milliseconds before it. The pump broadcasts its current mode's
/// signal; once the grace period has elapsed it escalates to KILL and
/// never de-escalates.
pub open spec fn spec_pump_step(mode: PumpMode, elapsed_secs: u64) -> (PumpMode, PumpMode, u64) {
    let next = if mode is Term && elapsed_secs >= MAX_TERM_WAIT_TIME_SECS {
        PumpMode::Kill
    } else {
        mode
    };
    let delay: u64 = if next is Kill {
        10
    } else {
        100
    };
    (mode, next, delay)
}

/// One pump step.
pub fn pump_step(mode: PumpMode, elapsed_secs: u64) -> (r: (PumpMode, PumpMode, u64))
    ensures
        r == spec_pump_step(mode, elapsed_secs),
{
    let next = (match mode {
        PumpMode::Term => {
            if elapsed_secs >= MAX_TERM_WAIT_TIME_SECS {
                PumpMode::Kill
            } else {
                PumpMode::Term
            }
        },
        PumpMode::Kill => PumpMode::Kill,
    });
    let delay: u64 = (match next {
        PumpMode::Kill => 10,
        PumpMode::Term => 100,
    });
    (mode, next, delay)
}

/// Law: bounded shutdown. Before the grace period ends the pump
/// broadcasts TERM at a 100 ms period; at any step taken once the
/// grace period has elapsed, and at every step after a KILL, the mode
/// is KILL — escalation is permanent.
pub proof fn lemma_pump_escalates(mode: PumpMode, elapsed_secs: u64)
    ensures
        mode is Term && elapsed_secs < MAX_TERM_WAIT_TIME_SECS ==> spec_pump_step(
            mode,
            elapsed_secs,
        ) == (PumpMode::Term, PumpMode::Term, 100u64),
        elapsed_secs >= MAX_TERM_WAIT_TIME_SECS ==> spec_pump_step(mode, elapsed_secs).1
            is Kill,
        mode is Kill ==> spec_pump_step(mode, elapsed_secs) == (
            PumpMode::Kill,
            PumpMode::Kill,
            10u64,
        ),
{
}

/// What one blocking wait on any child reported.
#[derive(Debug, Clone, Copy, PartialEq, Eq)]
pub enum WaitOutcome {
    /// A child exited with a status.
    Exited { pid: i32, status: i32 },
    /// A child was killed by a signal.
    Signaled { pid: i32, signal: i32 },
    /// Any other wait status.
    OtherStatus,
    /// No children exist right now.
    NoChildren,
    /// The wait itself failed with this error code.
    WaitFailed { errno: i32 },
}

/// What the reaper does with one outcome.
#[derive(Debug, Clone, Copy, PartialEq, Eq, Structural)]
pub enum ReaperAction {
    /// Keep waiting (statuses are logged, stray errors ignored).
    Continue,
    /// No children, but no shutdown requested: sleep briefly and retry.
    SleepAndRetry,
    /// No children and shutdown requested: release the signal handler
    /// and leave.
    StopReaping,
}

/// The reaper's decision: it consumes statuses until no children
/// remain, and only leaves once that happens during a shutdown.
pub open spec fn spec_reaper_step(o: WaitOutcome, shutdown: bool) -> ReaperAction {
    match o {
        WaitOutcome::NoChildren => if shutdown {
            ReaperAction::StopReaping
        } else {
            ReaperAction::SleepAndRetry
        },
        _ => ReaperAction::Continue,
    }
}

/// One reaper step.
pub fn reaper_step(o: &WaitOutcome, shutdown: bool) -> (r: ReaperAction)
    ensures
        r == spec_reaper_step(*o, shutdown),
{
    match o {
        WaitOutcome::NoChildren => {
            if shutdown {
                ReaperAction::StopReaping
            } else {
                ReaperAction::SleepAndRetry
            }
        },
        _ => ReaperAction::Continue,
    }
}

/// Law: with shutdown requested, the reaper consumes every queued exit
/// status and stops exactly at the first report that no children
/// remain.
pub proof fn lemma_reaper_drains(tr: Seq<WaitOutcome>, n: int)
    requires
        0 <= n < tr.len(),
        forall|i: int| 0 <= i < n ==> (#[trigger] tr[i]) is Exited || tr[i] is Signaled,
        tr[n] is NoChildren,
    ensures
        forall|i: int|
            0 <= i < n ==> spec_reaper_step(#[trigger] tr[i], true) == ReaperAction::Continue,
        spec_reaper_step(tr[n], true) == ReaperAction::StopReaping,
{
}

/// The shared shutdown bookkeeping: the flag the reaper consults, and
/// the two cancellation tokens.
#[derive(Debug, Clone, Copy, PartialEq, Eq, Structural)]
pub struct ShutdownState {
    /// Set once an interrupt or terminate signal arrives.
    pub shutdown_flag: bool,
    /// Cancels every service supervisor and cron runner, and arms the
    /// shutdown pump.
    pub services_cancelled: bool,
    /// Makes the signal handler leave its loop, which in turn disarms
    /// the pump.
    pub sighandler_exit: bool,
}

impl ShutdownState {
    /// The state before any signal has arrived.
    pub open spec fn spec_initial() -> ShutdownState {
        ShutdownState { shutdown_flag: false, services_cancelled: false, sighandler_exit: false }
    }

    /// The initial state.
    pub fn initial() -> (r: ShutdownState)
        ensures
            r == ShutdownState::spec_initial(),
    {
        ShutdownState { shutdown_flag: false, services_cancelled: false, sighandler_exit: false }
    }
}

/// Shutdown initiation: set the flag and cancel the services, leaving
/// the signal handler running to absorb further signals.
pub open spec fn spec_initiate_stop(s: ShutdownState) -> ShutdownState {
    ShutdownState { shutdown_flag: true, services_cancelled: true, sighandler_exit: s.sighandler_exit }
}

/// Flip the system into shutdown mode.
pub fn initiate_stop(st: &mut ShutdownState)
    ensures
        *final(st) == spec_initiate_stop(*old(st)),
{
    st.shutdown_flag = true;
    st.services_cancelled = true;
}

/// Law: shutdown initiation is idempotent — an interrupt after the
/// first changes nothing.
pub proof fn lemma_initiate_stop_idempotent(s: ShutdownState)
    ensures
        spec_initiate_stop(spec_initiate_stop(s)) == spec_initiate_stop(s),
{
}

/// What the signal handler observes.
#[derive(Debug, Clone, Copy, PartialEq, Eq, Structural)]
pub enum SignalEvent {
    Interrupt,
    Terminate,
    ChildSignal,
    ExitRequested,
}

/// What the signal handler does with one observation.
#[derive(Debug, Clone, Copy, PartialEq, Eq, Structural)]
pub enum SignalAction {
    /// Initiate the shutdown and stay in the loop.
    InitiateStop,
    /// Absorb the signal and stay in the loop.
    Ignore,
    /// Leave the loop.
    ExitLoop,
}

/// The signal handler's decision: interrupt and terminate initiate the
/// shutdown; child-exit signals are absorbed (the reaper does the
/// reaping); the exit token ends the task.
pub open spec fn spec_sighandler_step(e: SignalEvent) -> SignalAction {
    match e {
        SignalEvent::Interrupt => SignalAction::InitiateStop,
        SignalEvent::Terminate => SignalAction::InitiateStop,
        SignalEvent::ChildSignal => SignalAction::Ignore,
        SignalEvent::ExitRequested => SignalAction::ExitLoop,
    }
}

/// One signal-handler step.
pub fn sighandler_step(e: &SignalEvent) -> (r: SignalAction)
    ensures
        r == spec_sighandler_step(*e),
{
    match e {
        SignalEvent::Interrupt => SignalAction::InitiateStop,
        SignalEvent::Terminate => SignalAction::InitiateStop,
        SignalEvent::ChildSignal => SignalAction::Ignore,
        SignalEvent::ExitRequested => SignalAction::ExitLoop,
    }
}

} // verus!
