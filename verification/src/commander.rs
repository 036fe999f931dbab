//! The control channel of a running server: the messages exchanged over
//! its datagram socket, and the decisions taken while talking to it.
use vstd::prelude::*;

use crate::error::ErrorType;

verus! {

/// A command sent to the server.
#[derive(Debug, Clone)]
pub struct ControlCommand {
    pub command: String,
    pub id: String,
    pub message: Option<String>,
}

/// The server's answer to a command.
#[derive(Debug, Clone)]
pub struct ControlResponder {
    pub command: String,
    pub id: String,
    pub status: u32,
    pub message: String,
}

/// The kinds of connection failure after which the cached socket is
/// dropped, so that the next command connects afresh.
pub open spec fn drops_socket(kind: ErrorType) -> bool {
    match kind {
        ErrorType::PermissionDenied | ErrorType::ConnectionRefused | ErrorType::ConnectionReset
        | ErrorType::HostUnreachable | ErrorType::NetworkUnreachable
        | ErrorType::ConnectionAborted | ErrorType::NotConnected => true,
        _ => false,
    }
}

/// Whether a failed connection attempt of this kind drops the cached
/// socket.
pub fn closes_socket_on(kind: ErrorType) -> (r: bool)
    ensures
        r == drops_socket(kind),
{
    match kind {
        ErrorType::PermissionDenied | ErrorType::ConnectionRefused | ErrorType::ConnectionReset
        | ErrorType::HostUnreachable | ErrorType::NetworkUnreachable
        | ErrorType::ConnectionAborted | ErrorType::NotConnected => true,
        _ => false,
    }
}

/// Where the command loop stands: whether it was told to stop, and
/// whether a spawned task is being waited for.
#[derive(Debug, Clone, Copy, PartialEq, Eq, Structural)]
pub struct LoopState {
    pub stop: bool,
    pub waiting: bool,
}

/// What the command loop does next.
#[derive(Debug, Clone, Copy, PartialEq, Eq, Structural)]
pub enum LoopAction {
    /// The loop ends.
    Finish,
    /// A task is spawned, then the loop sleeps one tick.
    Spawn,
    /// The loop sleeps one more tick.
    Sleep,
    /// The loop decides again at once.
    Check,
}

/// The command loop before anything ran.
pub fn loop_start() -> (r: LoopState)
    ensures
        r == (LoopState { stop: false, waiting: false }),
{
    LoopState { stop: false, waiting: false }
}

/// One decision of the command loop, from what it sees: whether the socket
/// is still there and whether the spawned task is done. Not waiting, it
/// ends when told to stop or when the socket is gone, and else spawns a
/// task. Waiting, it goes back to deciding when the task is done or it was
/// told to stop; otherwise it marks itself stopped, and goes back to
/// deciding when the socket is gone or else sleeps again.
pub open spec fn loop_next(state: LoopState, has_socket: bool, done: bool) -> (LoopState, LoopAction) {
    if !state.waiting {
        if state.stop || !has_socket {
            (state, LoopAction::Finish)
        } else {
            (LoopState { stop: state.stop, waiting: true }, LoopAction::Spawn)
        }
    } else if done || state.stop {
        (LoopState { stop: state.stop, waiting: false }, LoopAction::Check)
    } else if !has_socket {
        (LoopState { stop: true, waiting: false }, LoopAction::Check)
    } else {
        (LoopState { stop: true, waiting: true }, LoopAction::Sleep)
    }
}

/// One decision of the command loop, as `loop_next` says.
pub fn loop_step(state: LoopState, has_socket: bool, done: bool) -> (r: (LoopState, LoopAction))
    ensures
        r == loop_next(state, has_socket, done),
{
    if !state.waiting {
        if state.stop || !has_socket {
            (state, LoopAction::Finish)
        } else {
            (LoopState { stop: state.stop, waiting: true }, LoopAction::Spawn)
        }
    } else if done || state.stop {
        (LoopState { stop: state.stop, waiting: false }, LoopAction::Check)
    } else if !has_socket {
        (LoopState { stop: true, waiting: false }, LoopAction::Check)
    } else {
        (LoopState { stop: true, waiting: true }, LoopAction::Sleep)
    }
}

/// A stopped loop stays stopped and never spawns another task; a tick in
/// which the spawned task is not done stops the loop.
pub proof fn lemma_loop_stop_sticky(state: LoopState, has_socket: bool, done: bool)
    ensures
        state.stop ==> loop_next(state, has_socket, done).0.stop,
        state.stop ==> loop_next(state, has_socket, done).1 != LoopAction::Spawn,
        state.waiting && !done ==> loop_next(state, has_socket, done).0.stop,
{
}

/// A stopped loop ends within two decisions, whatever it sees.
pub proof fn lemma_stopped_loop_ends(state: LoopState, sock1: bool, done1: bool, sock2: bool, done2: bool)
    requires
        state.stop,
    ensures
        loop_next(state, sock1, done1).1 == LoopAction::Finish || loop_next(
            loop_next(state, sock1, done1).0,
            sock2,
            done2,
        ).1 == LoopAction::Finish,
{
}

} // verus!
