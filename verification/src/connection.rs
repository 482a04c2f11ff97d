//! A connection that is independent of any interactive SSH tab: it is made by a
//! private SSH master, and made again, later and later, when it is lost. Giving it
//! up closes the local transport only, never a remote workspace.

use crate::bytes;
use crate::local::{refuse, LocalError};
use crate::number::{hex, hex_text, lemma_hex16_injective, lemma_hex_shape};
use crate::paths::{join, path_in};
use crate::text;
use crate::transport::run::Connection;
use vstd::prelude::*;
use vstd::string::*;

pub mod laws;

verus! {

// ---------------------------------------------------------------------------
// The client of a connection
// ---------------------------------------------------------------------------

/// A replaceable client that terminals and completions share. Replacing it never
/// changes the remote workspace's incarnation.
#[derive(Debug)]
pub struct ConnectionSlot<C> {
    epoch: u64,
    client: Option<C>,
}

impl<C> ConnectionSlot<C> {
    pub closed spec fn epoch(&self) -> u64 {
        self.epoch
    }

    pub closed spec fn client(&self) -> Option<C> {
        self.client
    }

    pub fn new() -> (slot: Self)
        ensures
            slot.epoch() == 0,
            slot.client() is None,
    {
        ConnectionSlot { epoch: 0, client: None }
    }

    /// Puts another client in place, or none. The owner of the connection calls this
    /// only after the client was authenticated.
    pub fn replace(&mut self, client: Option<C>)
        requires
            old(self).epoch() < u64::MAX,
        ensures
            final(self).epoch() == old(self).epoch() + 1,
            final(self).client() == client,
    {
        self.epoch = self.epoch + 1;
        self.client = client;
    }

    /// The client, if there is one.
    pub fn current(&self) -> (client: Option<&C>)
        ensures
            match (client, self.client()) {
                (Some(found), Some(held)) => *found == held,
                (None, None) => true,
                _ => false,
            },
    {
        match &self.client {
            Some(client) => Some(client),
            None => None,
        }
    }

    /// The connection at this moment; a client may have been disconnected already.
    pub fn snapshot(&self, disconnected: bool) -> (connection: Connection)
        ensures
            connection == (Connection {
                epoch: self.epoch(),
                connected: self.client() is Some && !disconnected,
            }),
    {
        Connection { epoch: self.epoch, connected: self.client.is_some() && !disconnected }
    }
}

// ---------------------------------------------------------------------------
// The owner of a connection
// ---------------------------------------------------------------------------

#[derive(Debug)]
pub enum ConnectionStatus {
    Connecting,
    Connected,
    Reconnecting { attempt: u32, error: String },
}

pub enum ConnectionStatusView {
    Connecting,
    Connected,
    Reconnecting { attempt: u32, error: Seq<char> },
}

impl DeepView for ConnectionStatus {
    type V = ConnectionStatusView;

    open spec fn deep_view(&self) -> ConnectionStatusView {
        match *self {
            ConnectionStatus::Connecting => ConnectionStatusView::Connecting,
            ConnectionStatus::Connected => ConnectionStatusView::Connected,
            ConnectionStatus::Reconnecting { attempt, error } =>
                ConnectionStatusView::Reconnecting { attempt, error: error@ },
        }
    }
}

/// The seconds before an attempt: twice as many as before the last one, up to thirty.
pub open spec fn delay_before(attempt: int) -> u64
    decreases attempt,
{
    if attempt <= 1 {
        1
    } else if attempt >= 6 {
        30
    } else {
        (2 * delay_before(attempt - 1)) as u64
    }
}

/// The seconds before an attempt.
pub fn retry_delay(attempt: u32) -> (seconds: u64)
    ensures
        seconds == delay_before(attempt as int),
        1 <= seconds <= 30,
{
    proof {
        reveal_with_fuel(delay_before, 6);
    }
    if attempt <= 1 {
        1
    } else if attempt == 2 {
        2
    } else if attempt == 3 {
        4
    } else if attempt == 4 {
        8
    } else if attempt == 5 {
        16
    } else {
        30
    }
}

/// The state of a connection's owner; times are in nanoseconds.
#[derive(Debug)]
pub struct ConnectionOwner {
    session_id: u64,
    status: ConnectionStatus,
    retry_at: Option<u64>,
    attempts: u32,
}

#[verifier::ext_equal]
pub struct OwnerView {
    pub session_id: u64,
    pub status: ConnectionStatusView,
    pub retry_at: Option<u64>,
    pub attempts: u32,
}

impl DeepView for ConnectionOwner {
    type V = OwnerView;

    closed spec fn deep_view(&self) -> OwnerView {
        OwnerView {
            session_id: self.session_id,
            status: self.status.deep_view(),
            retry_at: self.retry_at,
            attempts: self.attempts,
        }
    }
}

/// What happens to the sessions of the daemon's clients, or to the master.
#[derive(Debug)]
pub enum OwnerEvent {
    /// A session was connected; its client may be gone already.
    Connected { session_id: u64, has_client: bool },
    Reconnected { session_id: u64 },
    Disconnected { session_id: u64 },
    Failed { session_id: u64, error: String, cancelled: bool },
    /// The master of an attempt is ready.
    MasterReady { session_id: u64 },
    /// The master of an attempt could not be started.
    MasterFailed { session_id: u64, error: String },
    /// A second is over. The master is gone or not; the client is gone or not.
    Tick { master_gone: bool, client_gone: bool },
}

pub enum OwnerEventView {
    Connected { session_id: u64, has_client: bool },
    Reconnected { session_id: u64 },
    Disconnected { session_id: u64 },
    Failed { session_id: u64, error: Seq<char>, cancelled: bool },
    MasterReady { session_id: u64 },
    MasterFailed { session_id: u64, error: Seq<char> },
    Tick { master_gone: bool, client_gone: bool },
}

impl DeepView for OwnerEvent {
    type V = OwnerEventView;

    open spec fn deep_view(&self) -> OwnerEventView {
        match *self {
            OwnerEvent::Connected { session_id, has_client } => OwnerEventView::Connected {
                session_id,
                has_client,
            },
            OwnerEvent::Reconnected { session_id } => OwnerEventView::Reconnected { session_id },
            OwnerEvent::Disconnected { session_id } => OwnerEventView::Disconnected { session_id },
            OwnerEvent::Failed { session_id, error, cancelled } => OwnerEventView::Failed {
                session_id,
                error: error@,
                cancelled,
            },
            OwnerEvent::MasterReady { session_id } => OwnerEventView::MasterReady { session_id },
            OwnerEvent::MasterFailed { session_id, error } => OwnerEventView::MasterFailed {
                session_id,
                error: error@,
            },
            OwnerEvent::Tick { master_gone, client_gone } => OwnerEventView::Tick {
                master_gone,
                client_gone,
            },
        }
    }
}

/// What the owner does after an event.
#[derive(Clone, Copy, PartialEq, Eq, Structural, Debug)]
pub enum OwnerAction {
    Nothing,
    /// Put the session's client in place.
    UseClient,
    /// Take the client away.
    DropClient,
    /// Keep the master, and connect the session through it.
    ConnectSession,
    /// Begin another attempt.
    Connect,
}

/// The connection is lost, or could not be made: the client goes, and another
/// attempt is due after a while. While one is due, further failures count nothing.
pub open spec fn lost(owner: OwnerView, error: Seq<char>, now: u64) -> (OwnerView, OwnerAction) {
    if owner.retry_at is Some {
        (owner, OwnerAction::Nothing)
    } else {
        let attempts = if owner.attempts == u32::MAX {
            owner.attempts
        } else {
            (owner.attempts + 1) as u32
        };
        (
            OwnerView {
                attempts,
                status: ConnectionStatusView::Reconnecting { attempt: attempts, error },
                retry_at: Some(
                    crate::workspace::command::deadline_after(
                        now,
                        (delay_before(attempts as int) * 1_000_000_000) as u64,
                    ),
                ),
                ..owner
            },
            OwnerAction::DropClient,
        )
    }
}

pub open spec fn interrupted() -> Seq<char> {
    "SSH connection was interrupted"@
}

/// What an event makes of the owner, at a moment. Events of other attempts count
/// nothing: every attempt has a session of its own.
pub open spec fn owned(owner: OwnerView, event: OwnerEventView, now: u64) -> (
    OwnerView,
    OwnerAction,
) {
    match event {
        OwnerEventView::Connected { session_id, has_client } => if session_id == owner.session_id
            && has_client {
            (
                OwnerView {
                    status: ConnectionStatusView::Connected,
                    attempts: 0,
                    retry_at: None,
                    ..owner
                },
                OwnerAction::UseClient,
            )
        } else {
            (owner, OwnerAction::Nothing)
        },
        OwnerEventView::Reconnected { session_id } => if session_id == owner.session_id
            && owner.retry_at is None {
            (
                OwnerView { status: ConnectionStatusView::Connected, attempts: 0, ..owner },
                OwnerAction::UseClient,
            )
        } else {
            (owner, OwnerAction::Nothing)
        },
        OwnerEventView::Disconnected { session_id } => if session_id == owner.session_id {
            lost(owner, interrupted(), now)
        } else {
            (owner, OwnerAction::Nothing)
        },
        OwnerEventView::Failed { session_id, error, cancelled } => if session_id
            == owner.session_id && !cancelled {
            lost(owner, error, now)
        } else {
            (owner, OwnerAction::Nothing)
        },
        OwnerEventView::MasterReady { session_id } => if session_id == owner.session_id {
            (owner, OwnerAction::ConnectSession)
        } else {
            (owner, OwnerAction::Nothing)
        },
        OwnerEventView::MasterFailed { session_id, error } => if session_id == owner.session_id {
            lost(owner, error, now)
        } else {
            (owner, OwnerAction::Nothing)
        },
        OwnerEventView::Tick { master_gone, client_gone } => match owner.retry_at {
            Some(due) if now >= due => (owner, OwnerAction::Connect),
            _ => if owner.status is Connected && (master_gone || client_gone) {
                lost(owner, interrupted(), now)
            } else {
                (owner, OwnerAction::Nothing)
            },
        },
    }
}

/// `rand::random::<u64>()`: some number; nothing is promised of it.
#[verifier::external_body]
fn random_session() -> (id: u64)
{
    rand::random::<u64>()
}

impl ConnectionOwner {
    /// An owner that has made no attempt yet.
    pub fn new() -> (owner: ConnectionOwner)
        ensures
            owner.deep_view() == (OwnerView {
                session_id: 0,
                status: ConnectionStatusView::Connecting,
                retry_at: None,
                attempts: 0,
            }),
    {
        ConnectionOwner {
            session_id: 0,
            status: ConnectionStatus::Connecting,
            retry_at: None,
            attempts: 0,
        }
    }

    pub fn session_id(&self) -> (id: u64)
        ensures
            id == self.deep_view().session_id,
    {
        self.session_id
    }

    pub fn status(&self) -> (status: &ConnectionStatus)
        ensures
            status.deep_view() == self.deep_view().status,
    {
        &self.status
    }

    /// The control socket of this attempt's master. A master unlinks its socket when
    /// it exits; an older one must never remove the socket of its replacement.
    pub fn socket_path(&self, directory: &str) -> (path: String)
        ensures
            path@ == attempt_socket(directory@, self.deep_view().session_id),
    {
        join(directory, hex(self.session_id, 16).as_str())
    }

    /// Begins an attempt, under a random session.
    pub fn connect(&mut self)
        ensures
            exists|id: u64|
                final(self).deep_view() == #[trigger] attempt(old(self).deep_view(), id),
    {
        let id = random_session();
        self.connect_as(id);
        assert(self.deep_view() == attempt(old(self).deep_view(), id));
    }

    /// Begins an attempt under this session.
    pub fn connect_as(&mut self, session_id: u64)
        ensures
            final(self).deep_view() == attempt(old(self).deep_view(), session_id),
    {
        self.retry_at = None;
        self.session_id = session_id;
    }

    fn lose(&mut self, error: String, now: u64) -> (action: OwnerAction)
        ensures
            (final(self).deep_view(), action) == lost(old(self).deep_view(), error@, now),
    {
        if self.retry_at.is_some() {
            return OwnerAction::Nothing;
        }
        self.attempts = self.attempts.saturating_add(1);
        self.status = ConnectionStatus::Reconnecting { attempt: self.attempts, error };
        self.retry_at = Some(now.saturating_add(retry_delay(self.attempts) * 1_000_000_000));
        OwnerAction::DropClient
    }

    /// Decides what follows an event.
    pub fn handle(&mut self, event: OwnerEvent, now: u64) -> (action: OwnerAction)
        ensures
            (final(self).deep_view(), action) == owned(
                old(self).deep_view(),
                event.deep_view(),
                now,
            ),
    {
        match event {
            OwnerEvent::Connected { session_id, has_client } => {
                if session_id != self.session_id || !has_client {
                    return OwnerAction::Nothing;
                }
                self.status = ConnectionStatus::Connected;
                self.attempts = 0;
                self.retry_at = None;
                OwnerAction::UseClient
            },
            OwnerEvent::Reconnected { session_id } => {
                if session_id != self.session_id || self.retry_at.is_some() {
                    return OwnerAction::Nothing;
                }
                self.status = ConnectionStatus::Connected;
                self.attempts = 0;
                OwnerAction::UseClient
            },
            OwnerEvent::Disconnected { session_id } => {
                if session_id != self.session_id {
                    return OwnerAction::Nothing;
                }
                self.lose("SSH connection was interrupted".to_owned(), now)
            },
            OwnerEvent::Failed { session_id, error, cancelled } => {
                if session_id != self.session_id || cancelled {
                    return OwnerAction::Nothing;
                }
                self.lose(error, now)
            },
            OwnerEvent::MasterReady { session_id } => {
                if session_id != self.session_id {
                    return OwnerAction::Nothing;
                }
                OwnerAction::ConnectSession
            },
            OwnerEvent::MasterFailed { session_id, error } => {
                if session_id != self.session_id {
                    return OwnerAction::Nothing;
                }
                self.lose(error, now)
            },
            OwnerEvent::Tick { master_gone, client_gone } => {
                if let Some(due) = self.retry_at {
                    if now >= due {
                        return OwnerAction::Connect;
                    }
                }
                let connected = match &self.status {
                    ConnectionStatus::Connected => true,
                    _ => false,
                };
                if connected && (master_gone || client_gone) {
                    return self.lose("SSH connection was interrupted".to_owned(), now);
                }
                OwnerAction::Nothing
            },
        }
    }
}

/// An attempt under a session.
pub open spec fn attempt(owner: OwnerView, session_id: u64) -> OwnerView {
    OwnerView { session_id, retry_at: None, ..owner }
}

/// The control socket of an attempt's master.
pub open spec fn attempt_socket(directory: Seq<char>, session_id: u64) -> Seq<char> {
    path_in(directory, hex_text(session_id as nat, 16))
}

// ---------------------------------------------------------------------------
// Waiting for a master
// ---------------------------------------------------------------------------

/// How much of a master's diagnostics is kept.
pub const TAIL_BYTES: usize = 8192;

/// The last bytes of a stream.
pub open spec fn tail_of(bytes: Seq<u8>) -> Seq<u8> {
    if bytes.len() <= TAIL_BYTES {
        bytes
    } else {
        bytes.skip(bytes.len() - TAIL_BYTES)
    }
}

/// Adds bytes to the last bytes of a stream.
pub fn keep_tail(tail: &mut Vec<u8>, more: &Vec<u8>)
    ensures
        final(tail)@ == tail_of(old(tail)@ + more@),
{
    let ghost before = tail@;
    bytes::append(tail, more.as_slice(), 0, more.len());
    assert(tail@ =~= before + more@);
    if tail.len() > TAIL_BYTES {
        let kept = bytes::slice(tail.as_slice(), tail.len() - TAIL_BYTES, tail.len());
        assert(kept@ =~= tail@.skip(tail@.len() - TAIL_BYTES));
        *tail = kept;
    }
}

/// What is known of a master that is being started.
#[derive(Debug)]
pub struct MasterState {
    /// How it exited, if it did.
    pub exit: Option<String>,
    /// Whether its control socket is there and it answers on it.
    pub answers: bool,
}

/// What follows while a master is being started.
#[derive(Debug)]
pub enum MasterStep {
    Ready,
    /// Look again after so many milliseconds.
    Wait(u64),
    Failed(LocalError),
}

pub enum MasterStepView {
    Ready,
    Wait(u64),
    Failed(Seq<char>),
}

impl DeepView for MasterStep {
    type V = MasterStepView;

    open spec fn deep_view(&self) -> MasterStepView {
        match *self {
            MasterStep::Ready => MasterStepView::Ready,
            MasterStep::Wait(delay) => MasterStepView::Wait(delay),
            MasterStep::Failed(error) => MasterStepView::Failed(error.deep_view()),
        }
    }
}

/// What follows from the state of a master, the last bytes of its diagnostics and
/// the time. Its exit counts before its answer, and its answer before the deadline.
pub open spec fn awaited_master(
    exit: Option<Seq<char>>,
    answers: bool,
    tail: Seq<u8>,
    now: u64,
    deadline: u64,
) -> MasterStepView {
    match exit {
        Some(status) => MasterStepView::Failed(
            "SSH authentication/connection failed ("@ + status + "): "@ + text::trimmed(
                bytes::readable_text(tail),
            ),
        ),
        None => if answers {
            MasterStepView::Ready
        } else if now >= deadline {
            MasterStepView::Failed("Timed out establishing a private SSH connection"@)
        } else {
            MasterStepView::Wait(150)
        },
    }
}

/// What follows while a master is being started.
pub fn await_master(
    state: &MasterState,
    tail: &Vec<u8>,
    now: u64,
    deadline: u64,
) -> (step: MasterStep)
    ensures
        step.deep_view() == awaited_master(
            state.exit.deep_view(),
            state.answers,
            tail@,
            now,
            deadline,
        ),
{
    match &state.exit {
        Some(status) => {
            let mut message = "SSH authentication/connection failed (".to_owned();
            message.append(status.as_str());
            message.append("): ");
            let diagnostics = bytes::readable(tail.as_slice());
            message.append(text::trim(diagnostics.as_str()).as_str());
            MasterStep::Failed(LocalError { message })
        },
        None => {
            if state.answers {
                MasterStep::Ready
            } else if now >= deadline {
                MasterStep::Failed(refuse("Timed out establishing a private SSH connection"))
            } else {
                MasterStep::Wait(150)
            }
        },
    }
}

// ---------------------------------------------------------------------------
// Laws
// ---------------------------------------------------------------------------

/// The time between attempts never shrinks, and never exceeds thirty seconds.
pub proof fn backoff_is_bounded(attempt: int)
    ensures
        1 <= delay_before(attempt) <= delay_before(attempt + 1) <= 30,
{
    reveal_with_fuel(delay_before, 6);
}

/// Two attempts never share a control socket.
pub proof fn attempts_have_their_own_sockets(directory: Seq<char>, a: u64, b: u64)
    requires
        attempt_socket(directory, a) == attempt_socket(directory, b),
    ensures
        a == b,
{
    lemma_socket_name(directory, a);
    lemma_socket_name(directory, b);
    lemma_hex16_injective(a, b);
}

/// The name of a socket is at the end of its path.
proof fn lemma_socket_name(directory: Seq<char>, id: u64)
    ensures
        ({
            let path = attempt_socket(directory, id);
            path.len() >= 16 && path.skip(path.len() - 16) == hex_text(id as nat, 16)
        }),
{
    let name = hex_text(id as nat, 16);
    let path = attempt_socket(directory, id);
    lemma_hex_shape(id as nat, 16);
    assert(path.skip(path.len() - 16) =~= name);
}

/// What another attempt's session reports changes nothing.
pub proof fn other_attempts_count_nothing(owner: OwnerView, event: OwnerEventView, now: u64)
    requires
        match event {
            OwnerEventView::Connected { session_id, .. } => session_id != owner.session_id,
            OwnerEventView::Reconnected { session_id } => session_id != owner.session_id,
            OwnerEventView::Disconnected { session_id } => session_id != owner.session_id,
            OwnerEventView::Failed { session_id, .. } => session_id != owner.session_id,
            OwnerEventView::MasterReady { session_id } => session_id != owner.session_id,
            OwnerEventView::MasterFailed { session_id, .. } => session_id != owner.session_id,
            OwnerEventView::Tick { .. } => false,
        },
    ensures
        owned(owner, event, now) == (owner, OwnerAction::Nothing),
{
}

} // verus!
