use crate::relay::Relay3;
use vstd::prelude::*;

verus! {

/// Where a worker's connection stands.
#[derive(Debug, Clone, Copy, PartialEq, Eq, Structural)]
pub enum MinionState {
    /// Not connected, and not asked to connect.
    Idle,
    /// Waiting for the user to allow a connection.
    AwaitingConnectApproval,
    /// The transport handshake is under way.
    Connecting,
    /// The handshake succeeded.
    Connected,
    /// Waiting for the user to allow an authentication.
    AwaitingAuthApproval,
    /// Answering the relay's authentication challenge.
    Authenticating,
    /// Executing jobs.
    Active,
    /// The connection is gone; a point to retry from.
    Disconnected,
    /// The user dropped the relay: no further transitions.
    Dropped,
}

/// What happens to a worker.
#[derive(Debug, Clone, Copy, PartialEq, Eq, Structural)]
pub enum MinionEvent {
    /// The coordinator addresses the worker with work.
    Engage,
    /// The user allowed the connection.
    ConnectApproved,
    /// The user declined the connection.
    ConnectDeclined,
    /// The transport handshake succeeded.
    HandshakeSucceeded,
    /// The transport handshake failed or timed out.
    HandshakeFailed,
    /// The relay asked for authentication.
    AuthChallenge,
    /// The user allowed the authentication.
    AuthApproved,
    /// The user declined the authentication.
    AuthDeclined,
    /// The authentication finished.
    AuthFinished,
    /// Jobs are queued for the worker.
    JobsQueued,
    /// The transport failed or the relay closed the connection.
    ConnectionLost,
    /// The coordinator told the worker to shut down.
    Shutdown,
    /// The user dropped the relay.
    DropRelay,
}

/// What the worker or the coordinator does on a transition.
#[derive(Debug, Clone, Copy, PartialEq, Eq, Structural)]
pub enum MinionAction {
    /// Nothing.
    Nothing,
    /// Ask the user whether to connect.
    AskConnect,
    /// Open the transport connection.
    OpenConnection,
    /// Count a success and note the time of connection.
    RecordSuccess,
    /// Count a failure.
    RecordFailure,
    /// Ask the user whether to authenticate.
    AskAuth,
    /// Answer the authentication challenge.
    Authenticate,
    /// Start executing the queued jobs.
    RunJobs,
    /// Count a failure and schedule a reconnection, for persistent jobs.
    RecordFailureAndReconnect,
    /// Count a failure and release the relay.
    RecordFailureAndRelease,
    /// Schedule a reconnection, for persistent jobs.
    Reconnect,
    /// Close the connection and release the relay.
    Release,
}

/// The policy `None` means ask, `Some(false)` never, `Some(true)` always.
/// The next state and action of a worker in `state` on `event`, under the
/// relay's connection and authentication policies, where `persistent` tells
/// whether the relay holds persistent jobs.
pub open spec fn transition(
    state: MinionState,
    event: MinionEvent,
    allow_connect: Option<bool>,
    allow_auth: Option<bool>,
    persistent: bool,
) -> (MinionState, MinionAction) {
    match (state, event) {
        (MinionState::Dropped, _) => (MinionState::Dropped, MinionAction::Nothing),
        (_, MinionEvent::DropRelay) => (MinionState::Dropped, MinionAction::Release),
        (MinionState::Idle, MinionEvent::Engage) | (MinionState::Disconnected, MinionEvent::Engage) =>
            match allow_connect {
            Some(true) => (MinionState::Connecting, MinionAction::OpenConnection),
            Some(false) => (state, MinionAction::Nothing),
            None => (MinionState::AwaitingConnectApproval, MinionAction::AskConnect),
        },
        (MinionState::AwaitingConnectApproval, MinionEvent::ConnectApproved) => (
            MinionState::Connecting,
            MinionAction::OpenConnection,
        ),
        (MinionState::AwaitingConnectApproval, MinionEvent::ConnectDeclined) => (
            MinionState::Idle,
            MinionAction::Nothing,
        ),
        (MinionState::Connecting, MinionEvent::HandshakeSucceeded) => (
            MinionState::Connected,
            MinionAction::RecordSuccess,
        ),
        (MinionState::Connecting, MinionEvent::HandshakeFailed) => (
            MinionState::Disconnected,
            MinionAction::RecordFailure,
        ),
        (MinionState::Connected, MinionEvent::AuthChallenge) | (
            MinionState::Active,
            MinionEvent::AuthChallenge,
        ) => match allow_auth {
            Some(true) => (MinionState::Authenticating, MinionAction::Authenticate),
            Some(false) => (state, MinionAction::Nothing),
            None => (MinionState::AwaitingAuthApproval, MinionAction::AskAuth),
        },
        (MinionState::AwaitingAuthApproval, MinionEvent::AuthApproved) => (
            MinionState::Authenticating,
            MinionAction::Authenticate,
        ),
        (MinionState::AwaitingAuthApproval, MinionEvent::AuthDeclined) => (
            MinionState::Disconnected,
            MinionAction::Release,
        ),
        (MinionState::Authenticating, MinionEvent::AuthFinished) => (
            MinionState::Active,
            MinionAction::RunJobs,
        ),
        (MinionState::Connected, MinionEvent::JobsQueued) => (
            MinionState::Active,
            MinionAction::RunJobs,
        ),
        (MinionState::Connected, MinionEvent::ConnectionLost) | (
            MinionState::AwaitingAuthApproval,
            MinionEvent::ConnectionLost,
        ) | (MinionState::Authenticating, MinionEvent::ConnectionLost) | (
            MinionState::Active,
            MinionEvent::ConnectionLost,
        ) => if persistent {
            (MinionState::Disconnected, MinionAction::RecordFailureAndReconnect)
        } else {
            (MinionState::Disconnected, MinionAction::RecordFailureAndRelease)
        },
        (MinionState::Connecting, MinionEvent::Shutdown) | (
            MinionState::Connected,
            MinionEvent::Shutdown,
        ) | (MinionState::AwaitingAuthApproval, MinionEvent::Shutdown) | (
            MinionState::Authenticating,
            MinionEvent::Shutdown,
        ) | (MinionState::Active, MinionEvent::Shutdown) => if persistent {
            (MinionState::Disconnected, MinionAction::Reconnect)
        } else {
            (MinionState::Disconnected, MinionAction::Release)
        },
        _ => (state, MinionAction::Nothing),
    }
}

impl MinionState {
    /// The next state, and the action to perform, on `event`.
    pub fn next(
        self,
        event: MinionEvent,
        allow_connect: Option<bool>,
        allow_auth: Option<bool>,
        persistent: bool,
    ) -> (r: (MinionState, MinionAction))
        ensures
            r == transition(self, event, allow_connect, allow_auth, persistent),
    {
        match (self, event) {
            (MinionState::Dropped, _) => (MinionState::Dropped, MinionAction::Nothing),
            (_, MinionEvent::DropRelay) => (MinionState::Dropped, MinionAction::Release),
            (MinionState::Idle, MinionEvent::Engage) | (
                MinionState::Disconnected,
                MinionEvent::Engage,
            ) => match allow_connect {
                Some(true) => (MinionState::Connecting, MinionAction::OpenConnection),
                Some(false) => (self, MinionAction::Nothing),
                None => (MinionState::AwaitingConnectApproval, MinionAction::AskConnect),
            },
            (MinionState::AwaitingConnectApproval, MinionEvent::ConnectApproved) => (
                MinionState::Connecting,
                MinionAction::OpenConnection,
            ),
            (MinionState::AwaitingConnectApproval, MinionEvent::ConnectDeclined) => (
                MinionState::Idle,
                MinionAction::Nothing,
            ),
            (MinionState::Connecting, MinionEvent::HandshakeSucceeded) => (
                MinionState::Connected,
                MinionAction::RecordSuccess,
            ),
            (MinionState::Connecting, MinionEvent::HandshakeFailed) => (
                MinionState::Disconnected,
                MinionAction::RecordFailure,
            ),
            (MinionState::Connected, MinionEvent::AuthChallenge) | (
                MinionState::Active,
                MinionEvent::AuthChallenge,
            ) => match allow_auth {
                Some(true) => (MinionState::Authenticating, MinionAction::Authenticate),
                Some(false) => (self, MinionAction::Nothing),
                None => (MinionState::AwaitingAuthApproval, MinionAction::AskAuth),
            },
            (MinionState::AwaitingAuthApproval, MinionEvent::AuthApproved) => (
                MinionState::Authenticating,
                MinionAction::Authenticate,
            ),
            (MinionState::AwaitingAuthApproval, MinionEvent::AuthDeclined) => (
                MinionState::Disconnected,
                MinionAction::Release,
            ),
            (MinionState::Authenticating, MinionEvent::AuthFinished) => (
                MinionState::Active,
                MinionAction::RunJobs,
            ),
            (MinionState::Connected, MinionEvent::JobsQueued) => (
                MinionState::Active,
                MinionAction::RunJobs,
            ),
            (MinionState::Connected, MinionEvent::ConnectionLost) | (
                MinionState::AwaitingAuthApproval,
                MinionEvent::ConnectionLost,
            ) | (MinionState::Authenticating, MinionEvent::ConnectionLost) | (
                MinionState::Active,
                MinionEvent::ConnectionLost,
            ) => if persistent {
                (MinionState::Disconnected, MinionAction::RecordFailureAndReconnect)
            } else {
                (MinionState::Disconnected, MinionAction::RecordFailureAndRelease)
            },
            (MinionState::Connecting, MinionEvent::Shutdown) | (
                MinionState::Connected,
                MinionEvent::Shutdown,
            ) | (MinionState::AwaitingAuthApproval, MinionEvent::Shutdown) | (
                MinionState::Authenticating,
                MinionEvent::Shutdown,
            ) | (MinionState::Active, MinionEvent::Shutdown) => if persistent {
                (MinionState::Disconnected, MinionAction::Reconnect)
            } else {
                (MinionState::Disconnected, MinionAction::Release)
            },
            _ => (self, MinionAction::Nothing),
        }
    }
}

/// Whether `action` counts a success.
pub open spec fn counts_success(action: MinionAction) -> bool {
    action == MinionAction::RecordSuccess
}

/// Whether `action` counts a failure.
pub open spec fn counts_failure(action: MinionAction) -> bool {
    action == MinionAction::RecordFailure || action == MinionAction::RecordFailureAndReconnect
        || action == MinionAction::RecordFailureAndRelease
}

/// A count raised by one, where it is not at its largest value.
pub open spec fn bumped(n: u64) -> u64 {
    if n < u64::MAX {
        (n + 1) as u64
    } else {
        n
    }
}

impl Relay3 {
    /// Records a successful connection at time `now`: one more success
    /// (the count stops at its largest value) and the time of connection.
    pub fn record_success(&mut self, now: u64)
        ensures
            final(self).success_count == bumped(old(self).success_count),
            final(self).last_connected_at == Some(now),
            *final(self) == (Relay3 {
                success_count: final(self).success_count,
                last_connected_at: final(self).last_connected_at,
                ..*old(self)
            }),
    {
        if self.success_count < u64::MAX {
            self.success_count = self.success_count + 1;
        }
        self.last_connected_at = Some(now);
    }

    /// Records a failed connection, or a connection that the relay dropped:
    /// one more failure (the count stops at its largest value).
    pub fn record_failure(&mut self)
        ensures
            final(self).failure_count == bumped(old(self).failure_count),
            *final(self) == (Relay3 { failure_count: final(self).failure_count, ..*old(self) }),
    {
        if self.failure_count < u64::MAX {
            self.failure_count = self.failure_count + 1;
        }
    }

    /// Applies to the record what `action` counts, at time `now`.
    pub fn apply_action(&mut self, action: MinionAction, now: u64)
        ensures
            counts_success(action) ==> *final(self) == (Relay3 {
                success_count: bumped(old(self).success_count),
                last_connected_at: Some(now),
                ..*old(self)
            }),
            counts_failure(action) ==> *final(self) == (Relay3 {
                failure_count: bumped(old(self).failure_count),
                ..*old(self)
            }),
            !counts_success(action) && !counts_failure(action) ==> *final(self) == *old(self),
    {
        match action {
            MinionAction::RecordSuccess => self.record_success(now),
            MinionAction::RecordFailure | MinionAction::RecordFailureAndReconnect
            | MinionAction::RecordFailureAndRelease => self.record_failure(),
            _ => {},
        }
    }
}

} // verus!
