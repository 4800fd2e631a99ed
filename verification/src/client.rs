use vstd::prelude::*;

use crate::registry::ClickEvent;
use crate::scheduler::PlaybackRequest;
use crate::scheduler::RequestSpec;

verus! {

/// First wait after a failed connection attempt, in milliseconds.
pub const INITIAL_BACKOFF_MS: u64 = 500;

/// The longest the client ever waits between attempts, in milliseconds.
pub const MAX_BACKOFF_MS: u64 = 30_000;

/// Phase of the listener client's connect/receive loop.
#[derive(Debug, PartialEq, Eq, Structural, Clone, Copy)]
pub enum ClientPhase {
    Connecting,
    Streaming,
    Retrying,
    Closed,
}

/// What the surrounding loop observed: the connection came up or failed,
/// an event or a keepalive arrived, a read failed, the retry wait elapsed,
/// or the user cancelled the client.
#[derive(Debug)]
pub enum ClientEvent {
    Connected,
    ConnectFailed,
    EventReceived(ClickEvent),
    KeepaliveReceived,
    ReadError,
    RetryElapsed,
    Cancelled,
}

/// What the surrounding loop must do next: nothing, attempt a connection,
/// hand a request to the playback scheduler, answer the host's keepalive,
/// wait the given number of milliseconds before reconnecting, or stop for
/// good.
#[derive(Debug)]
pub enum ClientAction {
    Idle,
    Connect,
    Play(PlaybackRequest),
    AnswerKeepalive,
    Wait(u64),
    Stop,
}

/// Mathematical shape of a `ClientAction`.
pub enum ActionSpec {
    Idle,
    Connect,
    Play(RequestSpec),
    AnswerKeepalive,
    Wait(u64),
    Stop,
}

impl View for ClientAction {
    type V = ActionSpec;

    open spec fn view(&self) -> ActionSpec {
        match self {
            ClientAction::Idle => ActionSpec::Idle,
            ClientAction::Connect => ActionSpec::Connect,
            ClientAction::Play(r) => ActionSpec::Play(r@),
            ClientAction::AnswerKeepalive => ActionSpec::AnswerKeepalive,
            ClientAction::Wait(ms) => ActionSpec::Wait(*ms),
            ClientAction::Stop => ActionSpec::Stop,
        }
    }
}

/// The next backoff after another failure: doubled, but never beyond the
/// bounded maximum.
pub open spec fn spec_next_backoff(b: u64) -> u64 {
    if 2 * b > MAX_BACKOFF_MS {
        MAX_BACKOFF_MS
    } else {
        (2 * b) as u64
    }
}

/// The listener client's loop state: its phase, the room it belongs to for
/// the whole of its life, the configured volume (thousandths), and the wait
/// before the next connection attempt.
#[derive(Debug)]
pub struct ClientLoop {
    pub phase: ClientPhase,
    pub room_id: String,
    pub volume_millis: u32,
    pub backoff_ms: u64,
}

impl ClientLoop {
    /// The backoff always lies between its initial value and its bounded
    /// maximum, so a disconnected client retries within bounded time.
    pub open spec fn wf(self) -> bool {
        INITIAL_BACKOFF_MS <= self.backoff_ms <= MAX_BACKOFF_MS
    }

    /// A client about to make its first connection attempt to its room.
    pub fn new(room_id: String, volume_millis: u32) -> (c: ClientLoop)
        ensures
            c.wf(),
            c.phase == ClientPhase::Connecting,
            c.room_id@ == room_id@,
            c.volume_millis == volume_millis,
            c.backoff_ms == INITIAL_BACKOFF_MS,
    {
        ClientLoop {
            phase: ClientPhase::Connecting,
            room_id,
            volume_millis,
            backoff_ms: INITIAL_BACKOFF_MS,
        }
    }

    /// Advance on one observation and say what to do next. The room id
    /// never changes: after any loss of connection the client reconnects to
    /// the room it was started with, and events broadcast while it was away
    /// are simply not replayed - there is no buffer to replay them from.
    pub fn step(&mut self, ev: ClientEvent) -> (action: ClientAction)
        requires
            old(self).wf(),
        ensures
            final(self).wf(),
            final(self).room_id == old(self).room_id,
            final(self).volume_millis == old(self).volume_millis,
            old(self).phase == ClientPhase::Closed ==> final(self).phase == ClientPhase::Closed
                && action@ == ActionSpec::Stop,
            ev matches ClientEvent::Cancelled ==> final(self).phase == ClientPhase::Closed
                && action@ == ActionSpec::Stop,
            old(self).phase == ClientPhase::Connecting && (ev matches ClientEvent::Connected)
                ==> final(self).phase == ClientPhase::Streaming && final(self).backoff_ms
                == INITIAL_BACKOFF_MS && action@ == ActionSpec::Idle,
            old(self).phase == ClientPhase::Connecting && (ev matches ClientEvent::ConnectFailed)
                ==> final(self).phase == ClientPhase::Retrying && action@ == ActionSpec::Wait(
                old(self).backoff_ms,
            ) && final(self).backoff_ms == spec_next_backoff(old(self).backoff_ms),
            old(self).phase == ClientPhase::Streaming ==> (ev matches ClientEvent::EventReceived(e)
                ==> final(self).phase == ClientPhase::Streaming && action@ == ActionSpec::Play(
                RequestSpec { sound: e@.sound, volume_millis: old(self).volume_millis },
            )),
            old(self).phase == ClientPhase::Streaming && (ev matches
                ClientEvent::KeepaliveReceived) ==> final(self).phase == ClientPhase::Streaming
                && action@ == ActionSpec::AnswerKeepalive,
            old(self).phase == ClientPhase::Streaming && (ev matches ClientEvent::ReadError)
                ==> final(self).phase == ClientPhase::Retrying && action@ == ActionSpec::Wait(
                old(self).backoff_ms,
            ) && final(self).backoff_ms == spec_next_backoff(old(self).backoff_ms),
            old(self).phase == ClientPhase::Retrying && (ev matches ClientEvent::RetryElapsed)
                ==> final(self).phase == ClientPhase::Connecting && action@ == ActionSpec::Connect,
    {
        if matches!(self.phase, ClientPhase::Closed) {
            return ClientAction::Stop;
        }
        match ev {
            ClientEvent::Cancelled => {
                self.phase = ClientPhase::Closed;
                ClientAction::Stop
            },
            ClientEvent::Connected => {
                if matches!(self.phase, ClientPhase::Connecting) {
                    self.phase = ClientPhase::Streaming;
                    self.backoff_ms = INITIAL_BACKOFF_MS;
                }
                ClientAction::Idle
            },
            ClientEvent::ConnectFailed => {
                if matches!(self.phase, ClientPhase::Connecting) {
                    self.phase = ClientPhase::Retrying;
                    let wait = self.backoff_ms;
                    self.backoff_ms = next_backoff(self.backoff_ms);
                    ClientAction::Wait(wait)
                } else {
                    ClientAction::Idle
                }
            },
            ClientEvent::EventReceived(e) => {
                if matches!(self.phase, ClientPhase::Streaming) {
                    ClientAction::Play(
                        PlaybackRequest { sound: e.sound, volume_millis: self.volume_millis },
                    )
                } else {
                    ClientAction::Idle
                }
            },
            ClientEvent::KeepaliveReceived => {
                ClientAction::AnswerKeepalive
            },
            ClientEvent::ReadError => {
                if matches!(self.phase, ClientPhase::Streaming) {
                    self.phase = ClientPhase::Retrying;
                    let wait = self.backoff_ms;
                    self.backoff_ms = next_backoff(self.backoff_ms);
                    ClientAction::Wait(wait)
                } else {
                    ClientAction::Idle
                }
            },
            ClientEvent::RetryElapsed => {
                if matches!(self.phase, ClientPhase::Retrying) {
                    self.phase = ClientPhase::Connecting;
                    ClientAction::Connect
                } else {
                    ClientAction::Idle
                }
            },
        }
    }
}

/// Double the backoff, capped at the bounded maximum.
fn next_backoff(b: u64) -> (r: u64)
    requires
        b <= MAX_BACKOFF_MS,
    ensures
        r == spec_next_backoff(b),
        r <= MAX_BACKOFF_MS,
{
    if b > MAX_BACKOFF_MS / 2 {
        MAX_BACKOFF_MS
    } else {
        2 * b
    }
}

} // verus!
