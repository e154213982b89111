//! The control logic of the TLS listener: two nested loops, rebuilding
//! the certificate snapshot on an idle timer and accepting connections
//! between rebuilds.  The loop body outside reports what happened; the
//! step function here answers the next state and the action to take,
//! so every decision of the listener is this one function.

use vstd::prelude::*;

verus! {

/// Where the TLS listener stands.
#[derive(PartialEq, Eq, Structural, Debug, Clone, Copy)]
pub enum TlsListenerState {
    /// At a rebuild boundary: a fresh identity snapshot is being loaded.
    Rebuilding,
    /// Accepting connections under the current snapshot.
    Accepting,
    /// The listener task has ended.
    Stopped,
}

/// What the world reports to the listener.
#[derive(PartialEq, Eq, Structural, Debug, Clone, Copy)]
pub enum TlsListenerEvent {
    /// The identity snapshot was loaded completely.
    IdentitiesLoaded,
    /// Some certificate or key could not be read or parsed.
    IdentityLoadFailed,
    /// No connection arrived for a whole rebuild period.
    IdleTimeout,
    /// A TCP connection was accepted.
    ConnectionAccepted,
    /// Accepting failed on the socket itself.
    AcceptFailed,
    /// A connection's TLS handshake failed.
    HandshakeFailed,
    /// A connection's handler returned, well or badly.
    HandlerFinished,
    /// A connection's handler overran its processing timeout.
    HandlerTimedOut,
}

/// What the listener does next.
#[derive(PartialEq, Eq, Structural, Debug, Clone, Copy)]
pub enum TlsListenerAction {
    /// Load the identity snapshot and build a fresh acceptor from it.
    LoadIdentities,
    /// Wait for a connection or the idle timer, whichever comes first.
    AwaitConnection,
    /// Hand the accepted connection to a concurrent handler.
    SpawnHandler,
    /// Drop the one connection; the listener is unaffected.
    DropConnection,
    /// Close the one TLS session gracefully and flush it.
    CloseSession,
    /// Report the fatal error; the listener task ends with it.
    ReportFatal,
}

/// The listener's whole behaviour, one event at a time.
///
/// A failed identity load at a rebuild boundary is the single fatal
/// event: the task ends rather than serving a stale snapshot.  Every
/// per-connection failure leaves the listener accepting.
pub open spec fn spec_listener_step(s: TlsListenerState, e: TlsListenerEvent) -> (
    TlsListenerState,
    TlsListenerAction,
) {
    match s {
        TlsListenerState::Rebuilding => match e {
            TlsListenerEvent::IdentitiesLoaded => (
                TlsListenerState::Accepting,
                TlsListenerAction::AwaitConnection,
            ),
            TlsListenerEvent::IdentityLoadFailed => (
                TlsListenerState::Stopped,
                TlsListenerAction::ReportFatal,
            ),
            _ => (TlsListenerState::Rebuilding, TlsListenerAction::LoadIdentities),
        },
        TlsListenerState::Accepting => match e {
            TlsListenerEvent::IdleTimeout => (
                TlsListenerState::Rebuilding,
                TlsListenerAction::LoadIdentities,
            ),
            TlsListenerEvent::ConnectionAccepted => (
                TlsListenerState::Accepting,
                TlsListenerAction::SpawnHandler,
            ),
            TlsListenerEvent::AcceptFailed => (
                TlsListenerState::Stopped,
                TlsListenerAction::ReportFatal,
            ),
            TlsListenerEvent::HandshakeFailed => (
                TlsListenerState::Accepting,
                TlsListenerAction::DropConnection,
            ),
            TlsListenerEvent::HandlerFinished => (
                TlsListenerState::Accepting,
                TlsListenerAction::CloseSession,
            ),
            TlsListenerEvent::HandlerTimedOut => (
                TlsListenerState::Accepting,
                TlsListenerAction::CloseSession,
            ),
            _ => (TlsListenerState::Accepting, TlsListenerAction::AwaitConnection),
        },
        TlsListenerState::Stopped => (TlsListenerState::Stopped, TlsListenerAction::ReportFatal),
    }
}

/// Advances the listener by one reported event.
pub fn tls_listener_step(s: TlsListenerState, e: TlsListenerEvent) -> (r: (
    TlsListenerState,
    TlsListenerAction,
))
    ensures
        r == spec_listener_step(s, e),
{
    match s {
        TlsListenerState::Rebuilding => match e {
            TlsListenerEvent::IdentitiesLoaded => (
                TlsListenerState::Accepting,
                TlsListenerAction::AwaitConnection,
            ),
            TlsListenerEvent::IdentityLoadFailed => (
                TlsListenerState::Stopped,
                TlsListenerAction::ReportFatal,
            ),
            _ => (TlsListenerState::Rebuilding, TlsListenerAction::LoadIdentities),
        },
        TlsListenerState::Accepting => match e {
            TlsListenerEvent::IdleTimeout => (
                TlsListenerState::Rebuilding,
                TlsListenerAction::LoadIdentities,
            ),
            TlsListenerEvent::ConnectionAccepted => (
                TlsListenerState::Accepting,
                TlsListenerAction::SpawnHandler,
            ),
            TlsListenerEvent::AcceptFailed => (
                TlsListenerState::Stopped,
                TlsListenerAction::ReportFatal,
            ),
            TlsListenerEvent::HandshakeFailed => (
                TlsListenerState::Accepting,
                TlsListenerAction::DropConnection,
            ),
            TlsListenerEvent::HandlerFinished => (
                TlsListenerState::Accepting,
                TlsListenerAction::CloseSession,
            ),
            TlsListenerEvent::HandlerTimedOut => (
                TlsListenerState::Accepting,
                TlsListenerAction::CloseSession,
            ),
            _ => (TlsListenerState::Accepting, TlsListenerAction::AwaitConnection),
        },
        TlsListenerState::Stopped => (TlsListenerState::Stopped, TlsListenerAction::ReportFatal),
    }
}

/// Law: a failed identity load at a rebuild boundary ends the listener
/// with the error reported; it never goes on accepting with the stale
/// certificate set.
pub proof fn lemma_identity_failure_is_fatal()
    ensures
        spec_listener_step(TlsListenerState::Rebuilding, TlsListenerEvent::IdentityLoadFailed) == (
            TlsListenerState::Stopped,
            TlsListenerAction::ReportFatal,
        ),
{
}

/// Law: whatever one connection's fate — handshake failure, a finished
/// handler, or a handler cut off by its timeout — the listener stays
/// accepting; only the one session is touched.
pub proof fn lemma_connection_fate_is_local(e: TlsListenerEvent)
    requires
        e == TlsListenerEvent::HandshakeFailed || e == TlsListenerEvent::HandlerFinished || e
            == TlsListenerEvent::HandlerTimedOut,
    ensures
        spec_listener_step(TlsListenerState::Accepting, e).0 == TlsListenerState::Accepting,
        spec_listener_step(TlsListenerState::Accepting, e).1 != TlsListenerAction::ReportFatal,
        spec_listener_step(TlsListenerState::Accepting, e).1 != TlsListenerAction::LoadIdentities,
{
}

} // verus!
