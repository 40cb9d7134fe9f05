//! The capture path: down-mix device samples to mono and cut them into
//! fixed-size frames.
use crate::config::AudioConfig;
use crate::pcm::{encode_le, encode_range};
use vstd::prelude::*;

verus! {

/// Sum of a sequence of samples.
pub open spec fn sum_of(s: Seq<i16>) -> int
    decreases s.len(),
{
    if s.len() == 0 {
        0
    } else {
        sum_of(s.drop_last()) + s.last()
    }
}

/// Division that rounds toward zero, as integer division of machine words.
pub open spec fn div_toward_zero(a: int, n: int) -> int {
    if a >= 0 {
        a / n
    } else {
        -((-a) / n)
    }
}

/// `v` held to the range of a 16-bit sample.
pub open spec fn clamp_i16(v: int) -> i16 {
    if v < -32768 {
        -32768i16
    } else if v > 32767 {
        32767i16
    } else {
        v as i16
    }
}

/// One interleaved device frame mixed down to a mono sample: the mean of its
/// samples over the device's channel count, rounded toward zero and clamped.
pub open spec fn mix_chunk(chunk: Seq<i16>, channels: nat) -> i16 {
    clamp_i16(div_toward_zero(sum_of(chunk), channels as int))
}

/// Interleaved samples of a multi-channel device mixed down to mono, one
/// sample per device frame; a trailing partial frame gives one sample too.
pub open spec fn mix_down(d: Seq<i16>, channels: nat) -> Seq<i16>
    decreases d.len(),
{
    if d.len() == 0 || channels == 0 {
        Seq::empty()
    } else {
        let m = if d.len() < channels {
            d.len() as int
        } else {
            channels as int
        };
        seq![mix_chunk(d.take(m), channels)] + mix_down(d.skip(m), channels)
    }
}

/// What the capture path appends for one device callback: the samples as
/// they are for a mono device, else their down-mix.
pub open spec fn to_mono(d: Seq<i16>, channels: nat) -> Seq<i16> {
    if channels == 1 {
        d
    } else {
        mix_down(d, channels)
    }
}

proof fn lemma_sum_bounds(s: Seq<i16>)
    ensures
        -32768 * s.len() <= sum_of(s) <= 32767 * s.len(),
    decreases s.len(),
{
    if s.len() > 0 {
        lemma_sum_bounds(s.drop_last());
    }
}

/// Mean of `data[start..end]` over `channels`, rounded toward zero and
/// clamped to a sample.
fn mix_range(data: &[i16], start: usize, end: usize, channels: u16) -> (r: i16)
    requires
        start <= end <= data@.len(),
        end - start <= channels,
        channels >= 1,
    ensures
        r == mix_chunk(data@.subrange(start as int, end as int), channels as nat),
{
    let mut sum: i64 = 0;
    let mut j: usize = start;
    while j < end
        invariant
            start <= j <= end <= data@.len(),
            end - start <= channels,
            sum == sum_of(data@.subrange(start as int, j as int)),
            -32768 * (j - start) <= sum <= 32767 * (j - start),
        decreases end - j,
    {
        proof {
            assert(data@.subrange(start as int, j + 1).drop_last() =~= data@.subrange(
                start as int,
                j as int,
            ));
        }
        sum = sum + data[j] as i64;
        j = j + 1;
    }
    let c: u64 = channels as u64;
    let q: i64 = if sum >= 0 {
        ((sum as u64) / c) as i64
    } else {
        -(((-sum) as u64 / c) as i64)
    };
    if q < -32768 {
        -32768
    } else if q > 32767 {
        32767
    } else {
        q as i16
    }
}

/// The samples a device callback contributes, as `to_mono` states.
pub fn mix_to_mono(data: &[i16], channels: u16) -> (r: Vec<i16>)
    requires
        channels >= 1,
    ensures
        r@ == to_mono(data@, channels as nat),
{
    let len: usize = data.len();
    let mut out: Vec<i16> = Vec::new();
    if channels == 1 {
        let mut i: usize = 0;
        while i < len
            invariant
                len == data@.len(),
                i <= len,
                out@ =~= data@.subrange(0, i as int),
            decreases len - i,
        {
            out.push(data[i]);
            i = i + 1;
        }
        return out;
    }
    let ch: usize = channels as usize;
    let mut start: usize = 0;
    proof {
        assert(data@.skip(0) =~= data@);
        assert(out@ + mix_down(data@, ch as nat) =~= mix_down(data@, ch as nat));
    }
    while start < len
        invariant
            len == data@.len(),
            start <= len,
            ch == channels,
            ch >= 1,
            out@ + mix_down(data@.skip(start as int), ch as nat) == mix_down(data@, ch as nat),
        decreases len - start,
    {
        let end: usize = if len - start >= ch {
            start + ch
        } else {
            len
        };
        let s = mix_range(data, start, end, channels);
        proof {
            let rest = data@.skip(start as int);
            let m = end - start;
            assert(rest.take(m as int) =~= data@.subrange(start as int, end as int));
            assert(rest.skip(m as int) =~= data@.skip(end as int));
            assert(mix_down(rest, ch as nat) == seq![s] + mix_down(
                data@.skip(end as int),
                ch as nat,
            ));
            assert(out@.push(s) + mix_down(data@.skip(end as int), ch as nat) =~= out@ + mix_down(
                rest,
                ch as nat,
            ));
        }
        out.push(s);
        start = end;
    }
    proof {
        assert(data@.skip(len as int) =~= Seq::<i16>::empty());
        assert(out@ + Seq::<i16>::empty() =~= out@);
    }
    out
}

/// Per-stream capture state: the mono samples not yet framed.
pub struct Capture {
    accum: Vec<i16>,
    in_channels: u16,
    samples_per_frame: usize,
}

impl Capture {
    /// Mono samples waiting for a full frame.
    pub closed spec fn pending(&self) -> Seq<i16> {
        self.accum@
    }

    /// Channels of the input device.
    pub closed spec fn device_channels(&self) -> nat {
        self.in_channels as nat
    }

    /// Samples in one outbound frame.
    pub closed spec fn frame_len(&self) -> nat {
        self.samples_per_frame as nat
    }

    pub closed spec fn wf(&self) -> bool {
        &&& self.in_channels >= 1
        &&& self.samples_per_frame >= 1
        &&& self.accum@.len() < self.samples_per_frame
    }

    /// Capture for an input device with `in_channels` channels, framing as
    /// `cfg` says.
    pub fn new(cfg: &AudioConfig, in_channels: u16) -> (r: Capture)
        requires
            cfg.wf(),
            in_channels >= 1,
        ensures
            r.wf(),
            r.pending() == Seq::<i16>::empty(),
            r.device_channels() == in_channels,
            r.frame_len() == cfg.spec_samples_per_frame(),
    {
        proof {
            let f = cfg.frame_size as int;
            let c = cfg.channels as int;
            assert(f * c >= 1) by (nonlinear_arith)
                requires
                    f >= 1,
                    c >= 1,
            ;
        }
        Capture {
            accum: Vec::new(),
            in_channels,
            samples_per_frame: cfg.samples_per_frame(),
        }
    }

    /// Takes one device callback's samples and returns the frames now
    /// complete, oldest first, each as little-endian bytes; what is left
    /// over waits for the next call.
    pub fn push(&mut self, data: &[i16]) -> (frames: Vec<Vec<u8>>)
        requires
            old(self).wf(),
        ensures
            final(self).wf(),
            final(self).device_channels() == old(self).device_channels(),
            final(self).frame_len() == old(self).frame_len(),
            ({
                let all = old(self).pending() + to_mono(data@, old(self).device_channels());
                let n = old(self).frame_len() as int;
                let k = all.len() as int / n;
                &&& frames@.len() == k
                &&& forall|i: int|
                    0 <= i < k ==> (#[trigger] frames@[i])@ == encode_le(
                        all.subrange(i * n, i * n + n),
                    )
                &&& forall|i: int| 0 <= i < k ==> (#[trigger] frames@[i])@.len() == 2 * n
                &&& final(self).pending() == all.skip(k * n)
            }),
    {
        let mixed = mix_to_mono(data, self.in_channels);
        let ghost all = self.accum@ + mixed@;
        let ghost n = self.samples_per_frame as int;
        let mut buf: Vec<i16> = Vec::new();
        let mut i: usize = 0;
        while i < self.accum.len()
            invariant
                i <= self.accum@.len(),
                buf@ =~= self.accum@.subrange(0, i as int),
            decreases self.accum@.len() - i,
        {
            buf.push(self.accum[i]);
            i = i + 1;
        }
        let mut j: usize = 0;
        while j < mixed.len()
            invariant
                j <= mixed@.len(),
                buf@ =~= self.accum@ + mixed@.subrange(0, j as int),
            decreases mixed@.len() - j,
        {
            buf.push(mixed[j]);
            j = j + 1;
        }
        assert(buf@ =~= all);
        let spf: usize = self.samples_per_frame;
        let len: usize = buf.len();
        let mut frames: Vec<Vec<u8>> = Vec::new();
        let mut start: usize = 0;
        let ghost mut k: int = 0;
        while len - start >= spf
            invariant
                spf == n,
                n >= 1,
                len == buf@.len(),
                buf@ == all,
                start <= len,
                0 <= k,
                start == k * n,
                frames@.len() == k,
                forall|i: int|
                    0 <= i < k ==> (#[trigger] frames@[i])@ == encode_le(
                        all.subrange(i * n, i * n + n),
                    ),
            decreases len - start,
        {
            let f = encode_range(buf.as_slice(), start, start + spf);
            frames.push(f);
            proof {
                assert((k + 1) * n == k * n + n) by (nonlinear_arith);
                k = k + 1;
            }
            start = start + spf;
        }
        proof {
            assert(k == len as int / n) by (nonlinear_arith)
                requires
                    start == k * n,
                    start <= len,
                    len - start < n,
                    n >= 1,
                    k >= 0,
            ;
            assert forall|i: int| 0 <= i < k implies (#[trigger] frames@[i])@.len() == 2 * n by {
                assert(i * n + n <= k * n) by (nonlinear_arith)
                    requires
                        i < k,
                        n >= 1,
                ;
                assert(0 <= i * n) by (nonlinear_arith)
                    requires
                        i >= 0,
                        n >= 1,
                ;
            }
        }
        let mut rest: Vec<i16> = Vec::new();
        let mut t: usize = start;
        while t < len
            invariant
                start <= t <= len,
                len == buf@.len(),
                rest@ =~= buf@.subrange(start as int, t as int),
            decreases len - t,
        {
            rest.push(buf[t]);
            t = t + 1;
        }
        assert(rest@ =~= all.skip(start as int));
        self.accum = rest;
        frames
    }
}

} // verus!
