//! The playback path: fill a device buffer from the inbound queue,
//! duplicating each mono sample into every device channel, with silence
//! when the queue runs dry.
use crate::pcm::{decode_le, encode_le, lemma_round_trip, read_sample};
use crate::queue::FrameQueue;
use vstd::prelude::*;

verus! {

/// Mono samples written to every one of `channels` interleaved channels.
pub open spec fn upmix(samples: Seq<i16>, channels: nat) -> Seq<i16> {
    Seq::new(samples.len() * channels, |i: int| samples[i / channels as int])
}

/// What one inbound frame puts into a device buffer.
pub open spec fn frame_output(frame: Seq<u8>, channels: nat) -> Seq<i16> {
    upmix(decode_le(frame), channels)
}

/// The `need` samples written to a device buffer from the frames `q`:
/// frames in order, the last one cut where the buffer is full, then
/// silence if the frames run out.
pub open spec fn render(need: nat, q: Seq<Seq<u8>>, channels: nat) -> Seq<i16>
    decreases q.len(),
{
    if need == 0 {
        Seq::empty()
    } else if q.len() == 0 {
        Seq::new(need, |i: int| 0i16)
    } else {
        let s = frame_output(q[0], channels);
        if s.len() >= need {
            s.take(need as int)
        } else {
            s + render((need - s.len()) as nat, q.drop_first(), channels)
        }
    }
}

/// How many frames of `q` filling `need` samples takes off the queue.
pub open spec fn consumed(need: nat, q: Seq<Seq<u8>>, channels: nat) -> nat
    decreases q.len(),
{
    if need == 0 || q.len() == 0 {
        0
    } else {
        let s = frame_output(q[0], channels);
        if s.len() >= need {
            1
        } else {
            1 + consumed((need - s.len()) as nat, q.drop_first(), channels)
        }
    }
}

proof fn lemma_upmix_index(n: int, ch: int, t: int)
    requires
        n >= 0,
        ch >= 1,
        t >= 0,
    ensures
        (t < n * ch) == (t / ch < n),
{
    assert((t < n * ch) == (t / ch < n)) by (nonlinear_arith)
        requires
            n >= 0,
            ch >= 1,
            t >= 0,
    ;
}

/// Fills the whole of `out` as `render` states, taking the frames it uses
/// off `queue`; a frame cut short by the end of the buffer is not kept.
pub fn fill(out: &mut [i16], queue: &mut FrameQueue, channels: usize)
    requires
        old(queue).wf(),
        channels >= 1,
    ensures
        final(out)@ == render(old(out)@.len(), old(queue)@, channels as nat),
        final(queue)@ == old(queue)@.skip(
            consumed(old(out)@.len(), old(queue)@, channels as nat) as int,
        ),
        final(queue).wf(),
        final(queue).cap() == old(queue).cap(),
{
    let ghost q0 = queue@;
    let ghost ch = channels as nat;
    let len: usize = out.len();
    let mut idx: usize = 0;
    let ghost mut used: int = 0;
    proof {
        assert(q0.skip(0) =~= q0);
        assert(out@.subrange(0, 0) + render(len as nat, q0, ch) =~= render(len as nat, q0, ch));
    }
    while idx < len
        invariant
            len == out@.len(),
            idx <= len,
            queue.wf(),
            queue.cap() == old(queue).cap(),
            q0 == old(queue)@,
            ch == channels,
            ch >= 1,
            0 <= used <= q0.len(),
            queue@ == q0.skip(used),
            out@.subrange(0, idx as int) + render((len - idx) as nat, queue@, ch) == render(
                len as nat,
                q0,
                ch,
            ),
            consumed(len as nat, q0, ch) == used + consumed((len - idx) as nat, queue@, ch),
        decreases queue@.len() + (len - idx),
    {
        let ghost q = queue@;
        let ghost need = (len - idx) as nat;
        let ghost idx0 = idx;
        let ghost prefix = out@.subrange(0, idx as int);
        match queue.take() {
            None => {
                while idx < len
                    invariant
                        len == out@.len(),
                        idx0 <= idx <= len,
                        out@.subrange(0, idx0 as int) == prefix,
                        forall|i: int| idx0 <= i < idx ==> out@[i] == 0i16,
                    decreases len - idx,
                {
                    out[idx] = 0;
                    idx = idx + 1;
                }
                proof {
                    assert(out@.subrange(0, idx0 as int) =~= prefix);
                    assert(out@.subrange(0, len as int) =~= prefix + render(need, q, ch));
                    assert(render(0, queue@, ch) =~= Seq::<i16>::empty());
                    assert(out@.subrange(0, len as int) + render(0, queue@, ch) =~= out@.subrange(
                        0,
                        len as int,
                    ));
                }
            },
            Some(f) => {
                let ghost s = frame_output(f@, ch);
                let flen: usize = f.len();
                let nsamp: usize = flen / 2;
                let mut t: usize = 0;
                proof {
                    assert(s.len() == nsamp * ch);
                }
                while idx < len && t / channels < nsamp
                    invariant
                        len == out@.len(),
                        idx0 <= idx <= len,
                        idx == idx0 + t,
                        ch == channels,
                        ch >= 1,
                        nsamp == f@.len() / 2,
                        flen == f@.len(),
                        2 * nsamp <= flen,
                        s == frame_output(f@, ch),
                        s.len() == nsamp * ch,
                        t <= s.len(),
                        out@.subrange(0, idx0 as int) == prefix,
                        out@.subrange(idx0 as int, idx as int) =~= s.subrange(0, t as int),
                    decreases len - idx,
                {
                    proof {
                        lemma_upmix_index(nsamp as int, ch as int, t as int);
                    }
                    let j: usize = t / channels;
                    let v = read_sample(f[2 * j], f[2 * j + 1]);
                    assert(v == s[t as int]);
                    out[idx] = v;
                    idx = idx + 1;
                    t = t + 1;
                }
                proof {
                    lemma_upmix_index(nsamp as int, ch as int, t as int);
                    let rest = q.drop_first();
                    assert(queue@ == q0.skip(used + 1)) by {
                        assert(q0.skip(used + 1) =~= q0.skip(used).drop_first());
                    }
                    if idx < len {
                        assert(t == s.len());
                        assert(s.len() < need);
                        assert(render(need, q, ch) == s + render(
                            (need - s.len()) as nat,
                            rest,
                            ch,
                        ));
                        assert(s.subrange(0, t as int) =~= s);
                        assert(out@.subrange(0, idx as int) =~= out@.subrange(0, idx0 as int)
                            + out@.subrange(idx0 as int, idx as int));
                        assert(out@.subrange(0, idx as int) =~= prefix + s);
                    } else {
                        assert(t == need);
                        assert(s.len() >= need);
                        assert(s.subrange(0, t as int) =~= s.take(need as int));
                        assert(out@.subrange(0, idx as int) =~= out@.subrange(0, idx0 as int)
                            + out@.subrange(idx0 as int, idx as int));
                        assert(out@.subrange(0, idx as int) =~= prefix + s.take(need as int));
                        assert(render(0, queue@, ch) =~= Seq::<i16>::empty());
                    }
                    used = used + 1;
                }
            },
        }
    }
}

/// With no inbound frame at hand, the buffer is all silence and nothing is
/// taken off the queue: no earlier frame is replayed.
pub proof fn lemma_starvation_is_silence(need: nat, channels: nat)
    ensures
        render(need, Seq::empty(), channels).len() == need,
        forall|i: int| 0 <= i < need ==> render(need, Seq::empty(), channels)[i] == 0i16,
        consumed(need, Seq::empty(), channels) == 0,
{
}

/// Each sample of the next inbound frame lands, unchanged, in every channel
/// of its device frame, as far as the buffer reaches.
pub proof fn lemma_frame_samples_reach_every_channel(
    need: nat,
    q: Seq<Seq<u8>>,
    channels: nat,
    j: int,
    c: int,
)
    requires
        q.len() > 0,
        channels >= 1,
        0 <= j < decode_le(q[0]).len(),
        0 <= c < channels,
        j * channels + c < need,
    ensures
        render(need, q, channels)[j * channels + c] == decode_le(q[0])[j],
{
    let s = frame_output(q[0], channels);
    let n = decode_le(q[0]).len() as int;
    let ch = channels as int;
    let t = j * ch + c;
    assert(t < n * ch && t / ch == j && t >= 0) by (nonlinear_arith)
        requires
            0 <= j < n,
            0 <= c < ch,
            t == j * ch + c,
    ;
    assert(s[t] == decode_le(q[0])[j]);
    if s.len() >= need {
        assert(render(need, q, channels) == s.take(need as int));
    } else {
        assert(render(need, q, channels) == s + render(
            (need - s.len()) as nat,
            q.drop_first(),
            channels,
        ));
    }
}

/// A frame captured from mono samples, echoed back and played on a mono
/// device of the same buffer size, gives the samples back.
pub proof fn lemma_echo_plays_captured_samples(samples: Seq<i16>)
    requires
        samples.len() > 0,
    ensures
        render(samples.len(), seq![encode_le(samples)], 1) == samples,
{
    lemma_round_trip(samples);
    let s = frame_output(encode_le(samples), 1);
    assert(s =~= samples);
    assert(s.take(samples.len() as int) =~= samples);
}

} // verus!
