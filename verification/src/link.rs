//! The decisions of a streaming connection's life: when to connect, back
//! off or stop, what each received frame means for the read session, and
//! how a finished session is followed up. The socket, the timers and the
//! sleeping are the caller's; this module only decides.
use crate::errors::ExchangeError;
use crate::text::to_owned_string;
use vstd::prelude::*;

verus! {

/// What the connection loop does next.
#[derive(Debug, Clone, Copy, PartialEq, Eq, Structural)]
pub enum LinkAction {
    /// Leave the loop.
    Exit,
    /// Nothing to subscribe to yet: wait and ask again.
    WaitForSymbols,
    /// Sleep for the backoff of this reconnection attempt, then ask
    /// `after_backoff`.
    Backoff { attempt: u64 },
    /// Open the connection.
    Connect,
}

/// The next action for a loop in the given state: stop when no longer
/// running, wait while there is nothing to subscribe to, back off after
/// a failure, connect otherwise.
pub open spec fn plan_spec(attempt: nat, running: bool, has_symbols: bool) -> LinkAction {
    if !running {
        LinkAction::Exit
    } else if !has_symbols {
        LinkAction::WaitForSymbols
    } else if attempt > 0 {
        LinkAction::Backoff { attempt: attempt as u64 }
    } else {
        LinkAction::Connect
    }
}

/// Whether a finished read session is followed by a reconnection: only
/// when the stream ended or the socket failed.
pub open spec fn is_transient(end: Result<(), ExchangeError>) -> bool {
    match end {
        Err(ExchangeError::StreamEnded) => true,
        Err(ExchangeError::WebSocket(_)) => true,
        _ => false,
    }
}

/// Connection state: consecutive failed attempts and whether the socket
/// is up.
pub struct LinkState {
    attempt: u64,
    connected: bool,
}

impl LinkState {
    /// Consecutive failures since the last successful connection.
    pub closed spec fn attempts(&self) -> nat {
        self.attempt as nat
    }

    /// Whether the socket is up.
    pub closed spec fn is_connected(&self) -> bool {
        self.connected
    }

    /// A fresh loop: no failures, not connected.
    pub fn new() -> (s: Self)
        ensures
            s.attempts() == 0,
            !s.is_connected(),
    {
        LinkState { attempt: 0, connected: false }
    }

    /// Consecutive failures since the last successful connection.
    pub fn attempt(&self) -> (a: u64)
        ensures
            a == self.attempts(),
    {
        self.attempt
    }

    /// Whether the socket is up.
    pub fn connected(&self) -> (b: bool)
        ensures
            b == self.is_connected(),
    {
        self.connected
    }

    /// What to do next (see `plan_spec`).
    pub fn plan(&self, running: bool, has_symbols: bool) -> (a: LinkAction)
        ensures
            a == plan_spec(self.attempts(), running, has_symbols),
    {
        if !running {
            LinkAction::Exit
        } else if !has_symbols {
            LinkAction::WaitForSymbols
        } else if self.attempt > 0 {
            LinkAction::Backoff { attempt: self.attempt }
        } else {
            LinkAction::Connect
        }
    }

    /// After the backoff sleep: connect, unless told to stop meanwhile.
    pub fn after_backoff(&self, running: bool) -> (a: LinkAction)
        ensures
            a == (if running { LinkAction::Connect } else { LinkAction::Exit }),
    {
        if running {
            LinkAction::Connect
        } else {
            LinkAction::Exit
        }
    }

    /// The connection is up: the failure count starts over.
    pub fn on_connected(&mut self)
        ensures
            final(self).attempts() == 0,
            final(self).is_connected(),
    {
        self.attempt = 0;
        self.connected = true;
    }

    /// An attempt failed (connecting, or renewing what the connection
    /// needs): one more failure, not connected.
    pub fn on_failure(&mut self)
        requires
            old(self).attempts() < u64::MAX,
        ensures
            final(self).attempts() == old(self).attempts() + 1,
            !final(self).is_connected(),
    {
        self.attempt = self.attempt + 1;
        self.connected = false;
    }

    /// A read session finished with `end`: the socket is down; returns
    /// whether to reconnect, which counts as one more failure.
    pub fn on_read_end(&mut self, end: &Result<(), ExchangeError>) -> (again: bool)
        requires
            old(self).attempts() < u64::MAX,
        ensures
            !final(self).is_connected(),
            again == is_transient(*end),
            final(self).attempts() == (if again { old(self).attempts() + 1 } else { old(self).attempts() }),
    {
        self.connected = false;
        let again = match end {
            Err(ExchangeError::StreamEnded) => true,
            Err(ExchangeError::WebSocket(_)) => true,
            _ => false,
        };
        if again {
            self.attempt = self.attempt + 1;
        }
        again
    }

    /// The loop is left: the socket is down.
    pub fn on_exit(&mut self)
        ensures
            !final(self).is_connected(),
            final(self).attempts() == old(self).attempts(),
    {
        self.connected = false;
    }
}

// ── Read sessions ───────────────────────────────────────────────────────

/// What a read session receives.
#[derive(Debug, Clone, PartialEq, Eq)]
pub enum Frame {
    /// A text message.
    Text,
    Ping,
    Pong,
    Binary,
    /// The peer closed the connection.
    Close,
    /// Reading failed with this message.
    Failed(String),
    /// The stream has no more frames.
    Ended,
    /// No frame arrived for the health-check interval.
    Quiet,
    /// The keep-alive timer fired.
    KeepaliveDue,
}

/// What to do with a frame: whether to decode it as a message, whether
/// to send a keep-alive, and whether (and how) the session ends.
#[derive(Debug, Clone, PartialEq, Eq)]
pub struct FrameStep {
    pub dispatch: bool,
    pub keepalive: bool,
    pub end: Option<Result<(), ExchangeError>>,
}

/// The session ends with `StreamEnded` when the peer closes, the stream
/// runs dry, or a quiet interval finds the link marked down; with
/// `WebSocket` when reading fails; otherwise it ends cleanly once the
/// loop is no longer running.
pub open spec fn frame_end_ok(frame: Frame, running: bool, connected: bool, end: Option<Result<(), ExchangeError>>) -> bool {
    match frame {
        Frame::Close => end == Some(Err::<(), ExchangeError>(ExchangeError::StreamEnded)),
        Frame::Ended => end == Some(Err::<(), ExchangeError>(ExchangeError::StreamEnded)),
        Frame::Failed(m) => end matches Some(Err(ExchangeError::WebSocket(x))) && x@ == m@,
        Frame::Quiet => if !connected {
            end == Some(Err::<(), ExchangeError>(ExchangeError::StreamEnded))
        } else if !running {
            end == Some(Ok::<(), ExchangeError>(()))
        } else {
            end is None
        },
        _ => if !running {
            end == Some(Ok::<(), ExchangeError>(()))
        } else {
            end is None
        },
    }
}

/// Decide what a frame means for the read session (see `frame_end_ok`);
/// text is decoded, a keep-alive tick sends a keep-alive.
pub fn read_step(frame: &Frame, running: bool, connected: bool) -> (s: FrameStep)
    ensures
        s.dispatch == (*frame == Frame::Text),
        s.keepalive == (*frame == Frame::KeepaliveDue),
        frame_end_ok(*frame, running, connected, s.end),
{
    let stop: Option<Result<(), ExchangeError>> = if running { None } else { Some(Ok(())) };
    match frame {
        Frame::Text => FrameStep { dispatch: true, keepalive: false, end: stop },
        Frame::Ping | Frame::Pong | Frame::Binary => FrameStep { dispatch: false, keepalive: false, end: stop },
        Frame::KeepaliveDue => FrameStep { dispatch: false, keepalive: true, end: stop },
        Frame::Close | Frame::Ended => FrameStep {
            dispatch: false,
            keepalive: false,
            end: Some(Err(ExchangeError::StreamEnded)),
        },
        Frame::Failed(m) => FrameStep {
            dispatch: false,
            keepalive: false,
            end: Some(Err(ExchangeError::WebSocket(m.clone()))),
        },
        Frame::Quiet => {
            if !connected {
                FrameStep { dispatch: false, keepalive: false, end: Some(Err(ExchangeError::StreamEnded)) }
            } else {
                FrameStep { dispatch: false, keepalive: false, end: stop }
            }
        },
    }
}

/// Starting the account stream is refused while it runs, and without
/// credentials.
pub fn check_stream_start(running: bool, has_client: bool) -> (r: Result<(), ExchangeError>)
    ensures
        running ==> (r matches Err(ExchangeError::Exchange(m)) && m@ == "User data stream is already running"@),
        !running && !has_client ==> r == Err::<(), ExchangeError>(ExchangeError::ApiKeyNotConfigured),
        !running && has_client ==> r is Ok,
{
    if running {
        Err(ExchangeError::Exchange(to_owned_string("User data stream is already running")))
    } else if !has_client {
        Err(ExchangeError::ApiKeyNotConfigured)
    } else {
        Ok(())
    }
}

// ── Laws ────────────────────────────────────────────────────────────────

/// A stop request is always obeyed first, whatever the state.
pub proof fn law_stop_wins(attempt: nat, has_symbols: bool)
    ensures
        plan_spec(attempt, false, has_symbols) == LinkAction::Exit,
{
}

/// Right after a successful connection there is no backoff: a running
/// loop with symbols connects at once.
pub proof fn law_no_backoff_after_success()
    ensures
        plan_spec(0, true, true) == LinkAction::Connect,
{
}

/// After `n` consecutive failures a running loop backs off for attempt
/// `n`, and a transient end of a session adds one failure.
pub proof fn law_backoff_counts_failures(n: nat)
    requires
        0 < n <= u64::MAX,
    ensures
        plan_spec(n, true, true) == (LinkAction::Backoff { attempt: n as u64 }),
        is_transient(Err(ExchangeError::StreamEnded)),
        !is_transient(Ok(())),
{
}

} // verus!
