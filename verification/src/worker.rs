//! Decisions of the kernel plumbing: the worker that owns a kernel's
//! channels, the connection retries, and the headless smoke test. The
//! caller does the I/O and hands each outcome back.

use vstd::prelude::*;
use crate::session::ExecState;
use crate::text::{push_str, str_eq};

verus! {

/// What the app asks of a kernel's worker (the message itself stays with
/// the caller).
#[derive(Debug, Clone, Copy, PartialEq, Eq, Structural)]
pub enum CommandKind {
    /// Send a message on the shell channel.
    Shell,
    /// Send a message on the control channel.
    Control,
    /// Shut the kernel down gracefully.
    Shutdown,
}

/// What happened next for the worker.
#[derive(Debug, Clone, Copy, PartialEq, Eq, Structural)]
pub enum WorkerInput {
    /// The kernel process ended with this exit code.
    ChildExited(Option<i32>),
    /// A command arrived; `None` when the app dropped its sender.
    Command(Option<CommandKind>),
}

/// What the worker does about it.
#[derive(Debug, Clone, Copy, PartialEq, Eq, Structural)]
pub enum WorkerAction {
    SendShell,
    SendControl,
    /// Send shutdown_request on control, wait for the process (killing it
    /// after the grace period), then report its exit.
    Shutdown,
    /// Report that the kernel exited with this code.
    ReportExit(Option<i32>),
}

/// One step of the worker loop: the action, and whether the loop ends.
pub fn worker_step(input: WorkerInput) -> (res: (WorkerAction, bool))
    ensures
        res == match input {
            WorkerInput::ChildExited(code) => (WorkerAction::ReportExit(code), true),
            WorkerInput::Command(Some(CommandKind::Shell)) => (WorkerAction::SendShell, false),
            WorkerInput::Command(Some(CommandKind::Control)) => (WorkerAction::SendControl, false),
            WorkerInput::Command(_) => (WorkerAction::Shutdown, true),
        },
{
    match input {
        WorkerInput::ChildExited(code) => (WorkerAction::ReportExit(code), true),
        WorkerInput::Command(Some(CommandKind::Shell)) => (WorkerAction::SendShell, false),
        WorkerInput::Command(Some(CommandKind::Control)) => (WorkerAction::SendControl, false),
        WorkerInput::Command(_) => (WorkerAction::Shutdown, true),
    }
}

/// Seconds a kernel is given to exit after shutdown_request.
pub const SHUTDOWN_GRACE_SECS: u64 = 5;

/// After shutdown_request: `waited` is the exit code if the process ended
/// within the grace period, `None` if the wait timed out. Says whether to
/// kill the process, and the exit code to report.
pub fn after_shutdown_wait(waited: Option<Option<i32>>) -> (res: (bool, Option<i32>))
    ensures
        res == match waited {
            Some(code) => (false, code),
            None => (true, None::<i32>),
        },
{
    match waited {
        Some(code) => (false, code),
        None => (true, None),
    }
}

/// How many times connecting to a kernel channel is tried.
pub const CONNECT_ATTEMPTS: u32 = 100;

/// Milliseconds between connection attempts.
pub const CONNECT_RETRY_MS: u64 = 200;

/// After attempt number `attempt` (counting from 0) failed: whether to try
/// again.
pub fn retry_connect(attempt: u32) -> (res: bool)
    ensures
        res == (attempt + 1 < CONNECT_ATTEMPTS),
{
    attempt < CONNECT_ATTEMPTS - 1
}

/// The name of a kernel's connection file in the runtime directory.
pub fn connection_file_name(session_id: &str) -> (res: String)
    ensures
        res@ == "kernel-rustlab-"@ + session_id@ + ".json"@,
{
    let mut res = "kernel-rustlab-".to_owned();
    push_str(&mut res, session_id);
    push_str(&mut res, ".json");
    res
}

// ------------------------------------------------------------------------
// Headless smoke test
// ------------------------------------------------------------------------

/// What the smoke test hears from the kernel (or from its clock).
#[derive(Debug, Clone)]
pub enum HeadlessEvent {
    Status { parent: Option<String>, state: ExecState },
    ExecuteResult,
    Stream,
    ErrorOutput,
    OtherIoPub,
    /// The reply to a kernel_info_request.
    InfoReply,
    /// Any other reply on the shell channel.
    ShellReply,
    /// A while passed without any message.
    Tick,
    Exited(Option<i32>),
}

/// How far the smoke test has come.
#[derive(Debug, Clone, Copy, PartialEq, Eq, Structural)]
pub struct HeadlessProgress {
    /// The kernel answered a kernel_info_request (the handshake is done and
    /// the execute request has been sent).
    pub info_replied: bool,
    /// The execute_result arrived.
    pub got_result: bool,
}

/// What the smoke test does after an event.
#[derive(Debug, Clone, Copy, PartialEq, Eq, Structural)]
pub enum HeadlessStep {
    Continue,
    /// Send (another) kernel_info_request: the kernel has not answered yet.
    RequestInfo,
    /// The handshake is done: send the execute request.
    SendExecute,
    /// The result arrived and the kernel went idle for the request.
    Finished,
    /// The kernel exited before the test finished.
    KernelDied(Option<i32>),
}

/// The smoke test at its start: kernel_info_request sent, nothing heard.
pub fn headless_start() -> (p: HeadlessProgress)
    ensures
        p == (HeadlessProgress { info_replied: false, got_result: false }),
{
    HeadlessProgress { info_replied: false, got_result: false }
}

/// One event of the smoke test, as a function: the progress after it and
/// what to do.
pub open spec fn headless_next(p: HeadlessProgress, exec_msg_id: Seq<char>, e: HeadlessEvent) -> (HeadlessProgress, HeadlessStep) {
    match e {
        HeadlessEvent::Status { parent, state } => (p, if p.info_replied && p.got_result
            && (parent matches Some(id) && id@ == exec_msg_id) && state == ExecState::Idle {
            HeadlessStep::Finished
        } else {
            HeadlessStep::Continue
        }),
        HeadlessEvent::ExecuteResult => (HeadlessProgress { got_result: true, ..p }, HeadlessStep::Continue),
        HeadlessEvent::InfoReply => (
            HeadlessProgress { info_replied: true, ..p },
            if p.info_replied { HeadlessStep::Continue } else { HeadlessStep::SendExecute },
        ),
        HeadlessEvent::Tick => (p, if p.info_replied { HeadlessStep::Continue } else { HeadlessStep::RequestInfo }),
        HeadlessEvent::Exited(code) => (p, HeadlessStep::KernelDied(code)),
        _ => (p, HeadlessStep::Continue),
    }
}

/// One event of the smoke test. Handshake: until the kernel replies to a
/// kernel_info_request, the request is repeated at every tick; its first
/// reply sends the execute request. A result is remembered; the test is
/// done when, after the handshake and the result, the kernel reports idle
/// for the execute request; a kernel exit fails it.
pub fn headless_step(progress: &mut HeadlessProgress, exec_msg_id: &str, event: &HeadlessEvent) -> (res: HeadlessStep)
    ensures
        (*final(progress), res) == headless_next(*old(progress), exec_msg_id@, *event),
{
    match event {
        HeadlessEvent::Status { parent, state } => {
            let for_request = match parent {
                Some(p) => str_eq(p.as_str(), exec_msg_id),
                None => false,
            };
            if progress.info_replied && progress.got_result && for_request && *state == ExecState::Idle {
                HeadlessStep::Finished
            } else {
                HeadlessStep::Continue
            }
        },
        HeadlessEvent::ExecuteResult => {
            progress.got_result = true;
            HeadlessStep::Continue
        },
        HeadlessEvent::InfoReply => {
            if progress.info_replied {
                HeadlessStep::Continue
            } else {
                progress.info_replied = true;
                HeadlessStep::SendExecute
            }
        },
        HeadlessEvent::Tick => {
            if progress.info_replied {
                HeadlessStep::Continue
            } else {
                HeadlessStep::RequestInfo
            }
        },
        HeadlessEvent::Exited(code) => HeadlessStep::KernelDied(*code),
        _ => HeadlessStep::Continue,
    }
}

/// The smoke test over a run of events: the progress at the end and the
/// step taken at each event.
pub open spec fn headless_run(p: HeadlessProgress, exec_msg_id: Seq<char>, events: Seq<HeadlessEvent>) -> (HeadlessProgress, Seq<HeadlessStep>)
    decreases events.len(),
{
    if events.len() == 0 {
        (p, Seq::empty())
    } else {
        let before = headless_run(p, exec_msg_id, events.drop_last());
        let after = headless_next(before.0, exec_msg_id, events.last());
        (after.0, before.1.push(after.1))
    }
}

/// The handshake of the smoke test: from its start, the execute request is
/// sent at most once, and only in answer to a kernel_info reply; the info
/// request is repeated only before that; and the test finishes only after
/// the execute request was sent.
pub proof fn law_headless_handshake(exec_msg_id: Seq<char>, events: Seq<HeadlessEvent>)
    ensures
        headless_from_start(exec_msg_id, events).1.len() == events.len(),
        forall|k: int| 0 <= k < events.len() && headless_from_start(exec_msg_id, events).1[k] == HeadlessStep::SendExecute ==>
            (#[trigger] events[k]) is InfoReply && !sent_execute(headless_from_start(exec_msg_id, events).1, k),
        forall|k: int| 0 <= k < events.len() && headless_from_start(exec_msg_id, events).1[k] == HeadlessStep::SendExecute ==>
            forall|j: int| k < j < events.len() ==> #[trigger] headless_from_start(exec_msg_id, events).1[j] != HeadlessStep::SendExecute,
        forall|k: int| 0 <= k < events.len() && sent_execute(headless_from_start(exec_msg_id, events).1, k) ==>
            #[trigger] headless_from_start(exec_msg_id, events).1[k] != HeadlessStep::RequestInfo,
        forall|k: int| 0 <= k < events.len() && #[trigger] headless_from_start(exec_msg_id, events).1[k] == HeadlessStep::Finished ==>
            sent_execute(headless_from_start(exec_msg_id, events).1, k),
{
    lemma_headless_sent(exec_msg_id, events);
}

/// The smoke test run from its start.
pub open spec fn headless_from_start(exec_msg_id: Seq<char>, events: Seq<HeadlessEvent>) -> (HeadlessProgress, Seq<HeadlessStep>) {
    headless_run(HeadlessProgress { info_replied: false, got_result: false }, exec_msg_id, events)
}

pub open spec fn sent_execute(steps: Seq<HeadlessStep>, before: int) -> bool {
    exists|j: int| 0 <= j < before && steps[j] == HeadlessStep::SendExecute
}

proof fn lemma_headless_sent(exec_msg_id: Seq<char>, events: Seq<HeadlessEvent>)
    ensures
        headless_from_start(exec_msg_id, events).1.len() == events.len(),
        headless_from_start(exec_msg_id, events).0.info_replied
            <==> sent_execute(headless_from_start(exec_msg_id, events).1, events.len() as int),
        forall|k: int| 0 <= k < events.len() && headless_from_start(exec_msg_id, events).1[k] == HeadlessStep::SendExecute ==>
            (#[trigger] events[k]) is InfoReply && !sent_execute(headless_from_start(exec_msg_id, events).1, k),
        forall|k: int| 0 <= k < events.len() && headless_from_start(exec_msg_id, events).1[k] == HeadlessStep::SendExecute ==>
            forall|j: int| k < j < events.len() ==> #[trigger] headless_from_start(exec_msg_id, events).1[j] != HeadlessStep::SendExecute,
        forall|k: int| 0 <= k < events.len() && sent_execute(headless_from_start(exec_msg_id, events).1, k) ==>
            #[trigger] headless_from_start(exec_msg_id, events).1[k] != HeadlessStep::RequestInfo,
        forall|k: int| 0 <= k < events.len() && #[trigger] headless_from_start(exec_msg_id, events).1[k] == HeadlessStep::Finished ==>
            sent_execute(headless_from_start(exec_msg_id, events).1, k),
    decreases events.len(),
{
    if events.len() > 0 {
        let prev = events.drop_last();
        lemma_headless_sent(exec_msg_id, prev);
        let before = headless_from_start(exec_msg_id, prev);
        let after = headless_next(before.0, exec_msg_id, events.last());
        let steps = headless_from_start(exec_msg_id, events).1;
        let n = prev.len() as int;
        assert(steps == before.1.push(after.1));
        assert(headless_from_start(exec_msg_id, events).0 == after.0);
        assert forall|k: int| 0 <= k < n implies #[trigger] events[k] == prev[k] by {}
        assert forall|k: int| 0 <= k < n implies #[trigger] steps[k] == before.1[k] by {}
        assert forall|k: int| 0 <= k <= n implies sent_execute(steps, k) == sent_execute(before.1, k) || k == n by {
            if sent_execute(steps, k) {
                let j = choose|j: int| 0 <= j < k && steps[j] == HeadlessStep::SendExecute;
                assert(before.1[j] == HeadlessStep::SendExecute);
            }
            if sent_execute(before.1, k) {
                let j = choose|j: int| 0 <= j < k && before.1[j] == HeadlessStep::SendExecute;
                assert(steps[j] == HeadlessStep::SendExecute);
            }
        }
        // the prefix before the last event
        assert(sent_execute(steps, n) == sent_execute(before.1, n)) by {
            if sent_execute(steps, n) {
                let j = choose|j: int| 0 <= j < n && steps[j] == HeadlessStep::SendExecute;
                assert(before.1[j] == HeadlessStep::SendExecute);
            }
            if sent_execute(before.1, n) {
                let j = choose|j: int| 0 <= j < n && before.1[j] == HeadlessStep::SendExecute;
                assert(steps[j] == HeadlessStep::SendExecute);
            }
        }
        if after.1 == HeadlessStep::SendExecute {
            assert(steps[n] == HeadlessStep::SendExecute);
            assert(sent_execute(steps, n + 1));
        } else if sent_execute(steps, n) {
            let j = choose|j: int| 0 <= j < n && steps[j] == HeadlessStep::SendExecute;
            assert(sent_execute(steps, n + 1));
        } else {
            assert(!sent_execute(steps, n + 1)) by {
                if sent_execute(steps, n + 1) {
                    let j = choose|j: int| 0 <= j < n + 1 && steps[j] == HeadlessStep::SendExecute;
                    assert(j < n);
                }
            }
        }
        assert forall|k: int| 0 <= k < events.len() && steps[k] == HeadlessStep::SendExecute implies
            (#[trigger] events[k]) is InfoReply && !sent_execute(steps, k) by {
            if k < n {
                assert(before.1[k] == HeadlessStep::SendExecute);
                assert(sent_execute(steps, k) == sent_execute(before.1, k));
            }
        }
        assert forall|k: int| 0 <= k < events.len() && steps[k] == HeadlessStep::SendExecute implies
            forall|j: int| k < j < events.len() ==> #[trigger] steps[j] != HeadlessStep::SendExecute by {
            if k < n {
                assert(before.1[k] == HeadlessStep::SendExecute);
                assert(sent_execute(steps, n)) by {
                    assert(steps[k] == HeadlessStep::SendExecute);
                }
                assert forall|j: int| k < j < events.len() implies #[trigger] steps[j] != HeadlessStep::SendExecute by {
                    if j < n {
                        assert(before.1[j] == steps[j]);
                    }
                }
            }
        }
        assert forall|k: int| 0 <= k < events.len() && sent_execute(steps, k) implies
            #[trigger] steps[k] != HeadlessStep::RequestInfo by {
            if k < n {
                assert(sent_execute(before.1, k));
                assert(before.1[k] == steps[k]);
            } else {
                assert(sent_execute(before.1, n));
            }
        }
        assert forall|k: int| 0 <= k < events.len() && #[trigger] steps[k] == HeadlessStep::Finished implies
            sent_execute(steps, k) by {
            if k < n {
                assert(before.1[k] == HeadlessStep::Finished);
                assert(sent_execute(before.1, k));
            }
        }
    }
}

} // verus!
