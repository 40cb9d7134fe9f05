//! Signed 16-bit little-endian PCM, the wire's only sample encoding.
use vstd::prelude::*;

verus! {

/// The sample read as an unsigned 16-bit word (two's complement).
pub open spec fn word_of(s: i16) -> int {
    if s < 0 {
        s as int + 65536
    } else {
        s as int
    }
}

/// Low byte of a sample.
pub open spec fn lo_byte(s: i16) -> u8 {
    (word_of(s) % 256) as u8
}

/// High byte of a sample.
pub open spec fn hi_byte(s: i16) -> u8 {
    (word_of(s) / 256) as u8
}

/// The sample whose low and high bytes are given.
pub open spec fn sample_of(lo: u8, hi: u8) -> i16 {
    let w = lo as int + 256 * hi as int;
    if w >= 32768 {
        (w - 65536) as i16
    } else {
        w as i16
    }
}

/// Samples laid out as bytes, two per sample, low byte first.
pub open spec fn encode_le(samples: Seq<i16>) -> Seq<u8> {
    Seq::new(
        2 * samples.len(),
        |i: int|
            if i % 2 == 0 {
                lo_byte(samples[i / 2])
            } else {
                hi_byte(samples[i / 2])
            },
    )
}

/// Bytes read as samples, two per sample; an odd trailing byte is ignored.
pub open spec fn decode_le(bytes: Seq<u8>) -> Seq<i16> {
    Seq::new(bytes.len() / 2, |i: int| sample_of(bytes[2 * i], bytes[2 * i + 1]))
}

/// Decoding a sample's two bytes gives the sample back.
pub proof fn lemma_sample_round_trip(s: i16)
    ensures
        sample_of(lo_byte(s), hi_byte(s)) == s,
{
}

/// Decoding what was encoded gives the samples back.
pub proof fn lemma_round_trip(samples: Seq<i16>)
    ensures
        decode_le(encode_le(samples)) == samples,
{
    let d = decode_le(encode_le(samples));
    assert forall|i: int| 0 <= i < samples.len() implies d[i] == samples[i] by {
        lemma_sample_round_trip(samples[i]);
    }
    assert(d =~= samples);
}

/// One sample's two bytes, low byte first.
pub fn sample_bytes(s: i16) -> (r: (u8, u8))
    ensures
        r.0 == lo_byte(s),
        r.1 == hi_byte(s),
{
    let w: i32 = if s < 0 {
        s as i32 + 65536
    } else {
        s as i32
    };
    ((w % 256) as u8, (w / 256) as u8)
}

/// The sample made of a low and a high byte.
pub fn read_sample(lo: u8, hi: u8) -> (r: i16)
    ensures
        r == sample_of(lo, hi),
{
    let w: i32 = lo as i32 + 256 * (hi as i32);
    if w >= 32768 {
        (w - 65536) as i16
    } else {
        w as i16
    }
}

/// Encodes `samples[lo..hi]` as little-endian bytes.
pub fn encode_range(samples: &[i16], lo: usize, hi: usize) -> (r: Vec<u8>)
    requires
        lo <= hi <= samples@.len(),
    ensures
        r@ == encode_le(samples@.subrange(lo as int, hi as int)),
{
    let ghost part = samples@.subrange(lo as int, hi as int);
    let mut out: Vec<u8> = Vec::new();
    let mut i: usize = lo;
    while i < hi
        invariant
            lo <= i <= hi <= samples@.len(),
            part == samples@.subrange(lo as int, hi as int),
            out@ =~= encode_le(part).subrange(0, 2 * (i - lo)),
        decreases hi - i,
    {
        let (a, b) = sample_bytes(samples[i]);
        out.push(a);
        out.push(b);
        i = i + 1;
    }
    assert(out@ =~= encode_le(part));
    out
}

/// Encodes samples as little-endian bytes.
pub fn encode_samples(samples: &[i16]) -> (r: Vec<u8>)
    ensures
        r@ == encode_le(samples@),
{
    assert(samples@.subrange(0, samples@.len() as int) =~= samples@);
    encode_range(samples, 0, samples.len())
}

/// Decodes little-endian bytes as samples.
pub fn decode_samples(bytes: &[u8]) -> (r: Vec<i16>)
    ensures
        r@ == decode_le(bytes@),
{
    let len: usize = bytes.len();
    let n: usize = len / 2;
    let mut out: Vec<i16> = Vec::new();
    let mut i: usize = 0;
    while i < n
        invariant
            n == bytes@.len() / 2,
            len == bytes@.len(),
            2 * n <= len,
            i <= n,
            out@ =~= decode_le(bytes@).subrange(0, i as int),
        decreases n - i,
    {
        out.push(read_sample(bytes[2 * i], bytes[2 * i + 1]));
        i = i + 1;
    }
    out
}

} // verus!
