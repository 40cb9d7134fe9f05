//! The network session's decisions: the handshake, which frames go out and
//! come in, the counters, and when a statistics message is due.
use crate::config::AudioConfig;
use vstd::prelude::*;

verus! {

/// Milliseconds between statistics messages.
pub const STATS_PERIOD_MS: u64 = 1000;

/// The handshake, sent once when the socket opens.
pub struct InitMessage {
    pub kind: &'static str,
    pub sample_rate: u32,
    pub channels: u16,
    pub format: &'static str,
    pub frame_size: u32,
}

/// A statistics message: time since the main loop began, and what has
/// been sent so far.
#[derive(Clone, Copy, Debug, PartialEq, Eq, Structural)]
pub struct StatsMessage {
    pub elapsed_ms: u64,
    pub frames: u64,
    pub bytes: u64,
}

/// One message the client has put on the wire.
#[derive(Clone, Copy, Debug, PartialEq, Eq, Structural)]
pub enum Sent {
    Init,
    Frame(usize),
    Stats(u64),
}

#[derive(Clone, Copy, Debug, PartialEq, Eq, Structural)]
pub enum Phase {
    /// Connected, handshake not yet sent.
    Handshake,
    /// Handshake sent; frames and statistics flow.
    Streaming,
    /// Stopped, or a send failed.
    Closed,
}

/// State of one network session.
pub struct Session {
    config: AudioConfig,
    frame_bytes: usize,
    phase: Phase,
    frames: u64,
    bytes: u64,
    start_ms: u64,
    clock_ms: u64,
    last_stats_ms: u64,
    sent: Ghost<Seq<Sent>>,
}

impl Session {
    /// Everything the session has put on the wire, in order.
    pub closed spec fn log(&self) -> Seq<Sent> {
        self.sent@
    }

    pub closed spec fn spec_phase(&self) -> Phase {
        self.phase
    }

    pub closed spec fn spec_config(&self) -> AudioConfig {
        self.config
    }

    pub closed spec fn spec_frames(&self) -> u64 {
        self.frames
    }

    pub closed spec fn spec_bytes(&self) -> u64 {
        self.bytes
    }

    /// The latest clock reading seen, in milliseconds.
    pub closed spec fn clock(&self) -> int {
        self.clock_ms as int
    }

    /// The clock reading at which the main loop began.
    pub closed spec fn loop_start(&self) -> int {
        self.start_ms as int
    }

    /// The clock reading of the latest statistics message, or of the start.
    pub closed spec fn last_stats(&self) -> int {
        self.last_stats_ms as int
    }

    pub closed spec fn wf(&self) -> bool {
        let log = self.sent@;
        &&& self.config.wf()
        &&& self.frame_bytes == self.config.spec_frame_bytes()
        &&& self.phase == Phase::Handshake ==> log.len() == 0
        &&& self.phase == Phase::Streaming ==> log.len() > 0
        &&& self.start_ms <= self.last_stats_ms <= self.clock_ms
        &&& log.len() > 0 ==> log[0] == Sent::Init
        &&& forall|i: int| 0 < i < log.len() ==> #[trigger] log[i] != Sent::Init
        &&& forall|i: int|
            0 <= i < log.len() && (#[trigger] log[i] is Frame) ==> log[i]->Frame_0
                == self.frame_bytes
        &&& forall|i: int|
            0 <= i < log.len() && (#[trigger] log[i] is Stats) ==> log[i]->Stats_0
                <= self.last_stats_ms - self.start_ms
        &&& forall|i: int, j: int|
            0 <= i < j < log.len() && (#[trigger] log[i] is Stats) && (#[trigger] log[j] is Stats)
                ==> log[i]->Stats_0 + STATS_PERIOD_MS <= log[j]->Stats_0
    }

    /// A session for `cfg`, connected and waiting to send its handshake.
    pub fn new(cfg: &AudioConfig) -> (r: Session)
        requires
            cfg.wf(),
        ensures
            r.wf(),
            r.spec_phase() == Phase::Handshake,
            r.spec_config() == *cfg,
            r.log() == Seq::<Sent>::empty(),
    {
        Session {
            config: *cfg,
            frame_bytes: cfg.frame_bytes(),
            phase: Phase::Handshake,
            frames: 0,
            bytes: 0,
            start_ms: 0,
            clock_ms: 0,
            last_stats_ms: 0,
            sent: Ghost(Seq::empty()),
        }
    }

    /// Sends the handshake and starts the main loop at `now_ms`.
    pub fn open(&mut self, now_ms: u64) -> (r: InitMessage)
        requires
            old(self).wf(),
            old(self).spec_phase() == Phase::Handshake,
        ensures
            final(self).wf(),
            final(self).spec_phase() == Phase::Streaming,
            final(self).spec_config() == old(self).spec_config(),
            final(self).log() == seq![Sent::Init],
            final(self).spec_frames() == 0,
            final(self).spec_bytes() == 0,
            final(self).loop_start() == now_ms,
            final(self).clock() == now_ms,
            final(self).last_stats() == now_ms,
            r.kind@ == "init"@,
            r.format@ == "S16LE"@,
            r.sample_rate == old(self).spec_config().sample_rate,
            r.channels == old(self).spec_config().channels,
            r.frame_size == old(self).spec_config().frame_size,
    {
        self.phase = Phase::Streaming;
        self.frames = 0;
        self.bytes = 0;
        self.start_ms = now_ms;
        self.clock_ms = now_ms;
        self.last_stats_ms = now_ms;
        self.sent = Ghost(Seq::empty().push(Sent::Init));
        proof {
            reveal_strlit("init");
            reveal_strlit("S16LE");
        }
        InitMessage {
            kind: "init",
            sample_rate: self.config.sample_rate,
            channels: self.config.channels,
            format: "S16LE",
            frame_size: self.config.frame_size,
        }
    }

    /// Whether an outbound frame goes on the wire: only one of exactly the
    /// configured size does, and then it is counted.
    pub fn outbound(&mut self, frame: &[u8]) -> (r: bool)
        requires
            old(self).wf(),
            old(self).spec_phase() == Phase::Streaming,
        ensures
            final(self).wf(),
            final(self).spec_phase() == Phase::Streaming,
            final(self).spec_config() == old(self).spec_config(),
            final(self).clock() == old(self).clock(),
            final(self).loop_start() == old(self).loop_start(),
            final(self).last_stats() == old(self).last_stats(),
            r == (frame@.len() == old(self).spec_config().spec_frame_bytes()),
            r ==> final(self).log() == old(self).log().push(Sent::Frame(frame@.len() as usize)),
            r ==> final(self).spec_frames() == if old(self).spec_frames() < u64::MAX {
                (old(self).spec_frames() + 1) as u64
            } else {
                u64::MAX
            },
            r ==> final(self).spec_bytes() == if old(self).spec_bytes() + frame@.len()
                <= u64::MAX {
                (old(self).spec_bytes() + frame@.len()) as u64
            } else {
                u64::MAX
            },
            !r ==> final(self).log() == old(self).log(),
            !r ==> final(self).spec_frames() == old(self).spec_frames(),
            !r ==> final(self).spec_bytes() == old(self).spec_bytes(),
    {
        let n: usize = frame.len();
        if n != self.frame_bytes {
            return false;
        }
        self.frames = self.frames.saturating_add(1);
        self.bytes = self.bytes.saturating_add(n as u64);
        let ghost old_log = self.sent@;
        self.sent = Ghost(self.sent@.push(Sent::Frame(n)));
        proof {
            let log = self.sent@;
            assert forall|i: int| 0 <= i < log.len() && (#[trigger] log[i] is Stats) implies log[i]->Stats_0
                <= self.last_stats_ms - self.start_ms by {
                assert(i < old_log.len());
                assert(log[i] == old_log[i]);
            }
            assert forall|i: int, j: int|
                0 <= i < j < log.len() && (#[trigger] log[i] is Stats) && (
                #[trigger] log[j] is Stats) implies log[i]->Stats_0 + STATS_PERIOD_MS
                <= log[j]->Stats_0 by {
                assert(j < old_log.len());
                assert(log[i] == old_log[i]);
                assert(log[j] == old_log[j]);
            }
        }
        true
    }

    /// The timer fired at `now_ms`: returns the statistics message if one
    /// is due, that is if a full period has passed since the last one (or
    /// since the main loop began). A clock reading earlier than one already
    /// seen counts as the one seen.
    pub fn tick(&mut self, now_ms: u64) -> (r: Option<StatsMessage>)
        requires
            old(self).wf(),
            old(self).spec_phase() == Phase::Streaming,
        ensures
            final(self).wf(),
            final(self).spec_phase() == Phase::Streaming,
            final(self).spec_config() == old(self).spec_config(),
            final(self).spec_frames() == old(self).spec_frames(),
            final(self).spec_bytes() == old(self).spec_bytes(),
            final(self).loop_start() == old(self).loop_start(),
            final(self).clock() == (if now_ms > old(self).clock() {
                now_ms as int
            } else {
                old(self).clock()
            }),
            r.is_some() == (final(self).clock() - old(self).last_stats() >= STATS_PERIOD_MS),
            r.is_some() ==> r.unwrap() == (StatsMessage {
                elapsed_ms: (final(self).clock() - final(self).loop_start()) as u64,
                frames: old(self).spec_frames(),
                bytes: old(self).spec_bytes(),
            }),
            r.is_some() ==> final(self).last_stats() == final(self).clock(),
            r.is_some() ==> final(self).log() == old(self).log().push(
                Sent::Stats(r.unwrap().elapsed_ms),
            ),
            r.is_none() ==> final(self).last_stats() == old(self).last_stats(),
            r.is_none() ==> final(self).log() == old(self).log(),
    {
        if now_ms > self.clock_ms {
            self.clock_ms = now_ms;
        }
        if self.clock_ms - self.last_stats_ms < STATS_PERIOD_MS {
            return None;
        }
        let elapsed: u64 = self.clock_ms - self.start_ms;
        let ghost old_log = self.sent@;
        let ghost old_last = self.last_stats_ms;
        self.last_stats_ms = self.clock_ms;
        self.sent = Ghost(self.sent@.push(Sent::Stats(elapsed)));
        proof {
            let log = self.sent@;
            assert forall|i: int| 0 <= i < log.len() && (#[trigger] log[i] is Stats) implies log[i]->Stats_0
                <= self.last_stats_ms - self.start_ms by {
                if i < old_log.len() {
                    assert(log[i] == old_log[i]);
                }
            }
            assert forall|i: int, j: int|
                0 <= i < j < log.len() && (#[trigger] log[i] is Stats) && (
                #[trigger] log[j] is Stats) implies log[i]->Stats_0 + STATS_PERIOD_MS
                <= log[j]->Stats_0 by {
                assert(log[i] == old_log[i]);
                if j < old_log.len() {
                    assert(log[j] == old_log[j]);
                } else {
                    assert(log[i]->Stats_0 <= old_last - self.start_ms);
                }
            }
            assert(forall|i: int| 0 < i < log.len() ==> #[trigger] log[i] != Sent::Init);
        }
        Some(StatsMessage { elapsed_ms: elapsed, frames: self.frames, bytes: self.bytes })
    }

    /// The stop signal was raised, or a send failed: the session ends.
    pub fn close(&mut self)
        requires
            old(self).wf(),
        ensures
            final(self).wf(),
            final(self).spec_phase() == Phase::Closed,
            final(self).log() == old(self).log(),
            final(self).spec_config() == old(self).spec_config(),
            final(self).spec_frames() == old(self).spec_frames(),
            final(self).spec_bytes() == old(self).spec_bytes(),
    {
        self.phase = Phase::Closed;
    }

    pub fn phase(&self) -> (r: Phase)
        ensures
            r == self.spec_phase(),
    {
        self.phase
    }

    pub fn frames_sent(&self) -> (r: u64)
        ensures
            r == self.spec_frames(),
    {
        self.frames
    }

    pub fn bytes_sent(&self) -> (r: u64)
        ensures
            r == self.spec_bytes(),
    {
        self.bytes
    }

    pub fn config(&self) -> (r: AudioConfig)
        ensures
            r == self.spec_config(),
    {
        self.config
    }
}

/// Whether an inbound binary frame is played: only one of exactly the
/// configured size is; others are dropped.
pub fn inbound_playable(cfg: &AudioConfig, frame: &[u8]) -> (r: bool)
    requires
        cfg.wf(),
    ensures
        r == (frame@.len() == cfg.spec_frame_bytes()),
{
    frame.len() == cfg.frame_bytes()
}

/// The handshake is the first message of every session, and is sent once.
pub proof fn lemma_handshake_first(s: &Session)
    requires
        s.wf(),
    ensures
        s.log().len() > 0 ==> s.log()[0] == Sent::Init,
        forall|i: int| 0 < i < s.log().len() ==> #[trigger] s.log()[i] != Sent::Init,
        s.spec_phase() == Phase::Handshake ==> s.log().len() == 0,
        s.spec_phase() == Phase::Streaming ==> s.log().len() > 0,
{
}

/// Every binary message sent holds exactly `frame_size * channels * 2` bytes.
pub proof fn lemma_frames_exact_size(s: &Session, i: int)
    requires
        s.wf(),
        0 <= i < s.log().len(),
        s.log()[i] is Frame,
    ensures
        s.log()[i]->Frame_0 == s.spec_config().frame_size * s.spec_config().channels * 2,
{
}

/// Statistics messages are at least one period apart, so the elapsed time
/// they report never decreases.
pub proof fn lemma_stats_spaced_and_monotone(s: &Session, i: int, j: int)
    requires
        s.wf(),
        0 <= i < j < s.log().len(),
        s.log()[i] is Stats,
        s.log()[j] is Stats,
    ensures
        s.log()[i]->Stats_0 + STATS_PERIOD_MS <= s.log()[j]->Stats_0,
        s.log()[i]->Stats_0 <= s.log()[j]->Stats_0,
{
}

} // verus!
