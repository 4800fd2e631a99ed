use vstd::prelude::*;

use crate::sound::SoundRef;
use crate::sound::SoundSpec;

verus! {

/// One request the receive loop hands the scheduler: which cue to play and
/// at what volume, in thousandths of full volume.
#[derive(Debug)]
pub struct PlaybackRequest {
    pub sound: SoundRef,
    pub volume_millis: u32,
}

/// Mathematical shape of a `PlaybackRequest`.
#[verifier::ext_equal]
pub struct RequestSpec {
    pub sound: SoundSpec,
    pub volume_millis: u32,
}

impl View for PlaybackRequest {
    type V = RequestSpec;

    open spec fn view(&self) -> RequestSpec {
        RequestSpec { sound: self.sound@, volume_millis: self.volume_millis }
    }
}

/// Serializes a stream of playback requests into non-overlapping plays: at
/// most one play runs at a time, at most one request waits, and a burst of
/// clicks collapses to its most recent request rather than queuing every
/// click.
#[derive(Debug)]
pub struct Scheduler {
    pub playing: bool,
    pub pending: Option<PlaybackRequest>,
}

/// An idle scheduler never holds a pending request: a request only waits
/// while a play is running.
pub open spec fn scheduler_wf(s: Scheduler) -> bool {
    s.pending is Some ==> s.playing
}

impl Scheduler {
    /// An idle scheduler with nothing pending.
    pub fn new() -> (s: Scheduler)
        ensures
            scheduler_wf(s),
            !s.playing,
            s.pending is None,
    {
        Scheduler { playing: false, pending: None }
    }

    /// Offer one request. When idle, it starts at once: the caller receives
    /// it back to play. When a play is already running, the request only
    /// replaces whatever was pending, so however many clicks arrive within
    /// one play, at most one - the most recent - is still to come.
    pub fn offer(&mut self, req: PlaybackRequest) -> (start: Option<PlaybackRequest>)
        requires
            scheduler_wf(*old(self)),
        ensures
            scheduler_wf(*final(self)),
            final(self).playing,
            old(self).playing ==> start is None && final(self).pending == Some(req),
            !old(self).playing ==> start == Some(req) && final(self).pending is None,
    {
        if self.playing {
            self.pending = Some(req);
            None
        } else {
            self.playing = true;
            Some(req)
        }
    }

    /// The running play has completed: hand back the pending request to play
    /// next, if any, and fall idle otherwise.
    pub fn on_play_done(&mut self) -> (start: Option<PlaybackRequest>)
        requires
            scheduler_wf(*old(self)),
            old(self).playing,
        ensures
            scheduler_wf(*final(self)),
            final(self).pending is None,
            start == old(self).pending,
            final(self).playing <==> old(self).pending is Some,
    {
        let next = self.pending.take();
        match next {
            Some(p) => {
                Some(p)
            },
            None => {
                self.playing = false;
                None
            },
        }
    }
}

} // verus!
