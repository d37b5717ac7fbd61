//! Framing of samples on the byte channel, and the decisions of its two ends.
use vstd::prelude::*;

verus! {

/// Bytes taken by one serialized sample.
pub const SAMPLE_BYTES: usize = 4;

/// Silence past which an underrun is reported, in milliseconds.
pub const UNDERRUN_WARN_MS: u64 = 100;

/// The four little-endian bytes of `x`.
pub open spec fn le_bytes(x: u32) -> Seq<u8> {
    seq![
        (x % 256) as u8,
        (x / 256 % 256) as u8,
        (x / 256 / 256 % 256) as u8,
        (x / 256 / 256 / 256) as u8,
    ]
}

/// The value of the first four bytes of `b`, read little-endian.
pub open spec fn le_value(b: Seq<u8>) -> u32 {
    (b[0] as int + 256 * (b[1] as int + 256 * (b[2] as int + 256 * b[3] as int))) as u32
}

/// The byte stream of a sequence of samples, each in four little-endian bytes.
pub open spec fn encode_all(xs: Seq<u32>) -> Seq<u8>
    decreases xs.len(),
{
    if xs.len() == 0 {
        Seq::empty()
    } else {
        encode_all(xs.drop_last()) + le_bytes(xs.last())
    }
}

/// The samples a reader takes from a byte stream, four bytes at a time from
/// the front; a trailing group of fewer than four bytes gives none.
pub open spec fn decode_all(b: Seq<u8>) -> Seq<u32>
    decreases b.len(),
{
    if b.len() < 4 {
        Seq::empty()
    } else {
        seq![le_value(b.subrange(0, 4))] + decode_all(b.subrange(4, b.len() as int))
    }
}

/// Reading back the bytes of a sample gives the sample.
pub proof fn lemma_le_round_trip(x: u32)
    ensures
        le_bytes(x).len() == 4,
        le_value(le_bytes(x)) == x,
{
    let a = x as int / 256;
    let b = a / 256;
    let c = b / 256;
    vstd::arithmetic::div_mod::lemma_fundamental_div_mod(x as int, 256);
    vstd::arithmetic::div_mod::lemma_fundamental_div_mod(a, 256);
    vstd::arithmetic::div_mod::lemma_fundamental_div_mod(b, 256);
    vstd::arithmetic::div_mod::lemma_div_pos_is_pos(x as int, 256);
    vstd::arithmetic::div_mod::lemma_div_pos_is_pos(a, 256);
    vstd::arithmetic::div_mod::lemma_div_pos_is_pos(b, 256);
    vstd::arithmetic::div_mod::lemma_mod_bound(x as int, 256);
    vstd::arithmetic::div_mod::lemma_mod_bound(a, 256);
    vstd::arithmetic::div_mod::lemma_mod_bound(b, 256);
    assert(c < 256) by (nonlinear_arith)
        requires
            c == b / 256,
            b == a / 256,
            a == x as int / 256,
            x <= 0xffff_ffff,
    ;
}

proof fn lemma_decode_append(a: Seq<u8>, x: u32)
    requires
        a.len() % 4 == 0,
    ensures
        decode_all(a + le_bytes(x)) == decode_all(a).push(x),
    decreases a.len(),
{
    lemma_le_round_trip(x);
    let l = le_bytes(x);
    if a.len() == 0 {
        assert(a + l =~= l);
        assert(l.subrange(0, 4) =~= l);
        assert(decode_all(l.subrange(4, 4)) =~= Seq::<u32>::empty());
        assert(le_value(l.subrange(0, 4)) == x);
        assert(decode_all(l) =~= seq![x]);
        assert(decode_all(a) =~= Seq::<u32>::empty());
    } else {
        let rest = a.subrange(4, a.len() as int);
        lemma_decode_append(rest, x);
        assert((a + l).subrange(0, 4) =~= a.subrange(0, 4));
        assert((a + l).subrange(4, (a + l).len() as int) =~= rest + l);
        assert(decode_all(a + l) =~= decode_all(a).push(x));
    }
}

/// Channel round trip: a sequence of samples written in order is read back in
/// the same order, each sample with the same bits.
pub proof fn lemma_channel_round_trip(xs: Seq<u32>)
    ensures
        encode_all(xs).len() == 4 * xs.len(),
        decode_all(encode_all(xs)) == xs,
    decreases xs.len(),
{
    if xs.len() > 0 {
        let init = xs.drop_last();
        lemma_channel_round_trip(init);
        lemma_le_round_trip(xs.last());
        lemma_decode_append(encode_all(init), xs.last());
        assert(init.push(xs.last()) =~= xs);
    }
}

/// Appends the four little-endian bytes of `x` to `out`.
pub fn push_sample(out: &mut Vec<u8>, x: u32)
    ensures
        final(out)@ == old(out)@ + le_bytes(x),
{
    out.push((x % 256) as u8);
    out.push((x / 256 % 256) as u8);
    out.push((x / 256 / 256 % 256) as u8);
    out.push((x / 256 / 256 / 256) as u8);
    assert(final(out)@ =~= old(out)@ + le_bytes(x));
}

/// The bytes to put on the channel for `xs`, in order.
pub fn encode_samples(xs: &Vec<u32>) -> (r: Vec<u8>)
    requires
        4 * xs@.len() <= usize::MAX,
    ensures
        r@ == encode_all(xs@),
{
    let mut out: Vec<u8> = Vec::with_capacity(4 * xs.len());
    let n = xs.len();
    let mut i: usize = 0;
    while i < n
        invariant
            n == xs@.len(),
            i <= n,
            out@ == encode_all(xs@.subrange(0, i as int)),
        decreases n - i,
    {
        push_sample(&mut out, xs[i]);
        assert(xs@.subrange(0, i + 1).drop_last() =~= xs@.subrange(0, i as int));
        i += 1;
    }
    assert(xs@.subrange(0, n as int) =~= xs@);
    out
}

/// The sample held by the first four bytes of `b`.
pub fn decode_sample(b: &[u8]) -> (r: u32)
    requires
        b@.len() >= 4,
    ensures
        r == le_value(b@),
{
    let v = b[0] as u32 + 256 * (b[1] as u32 + 256 * (b[2] as u32 + 256 * b[3] as u32));
    v
}

/// What the producer does with a write grant of some length.
#[derive(Clone, Copy, Debug, PartialEq, Eq, Structural)]
pub enum WritePlan {
    /// Less than one sample fits: wait a little and ask again.
    Backoff,
    /// Write `samples` samples, then commit `commit` bytes.
    Fill { samples: usize, commit: usize },
}

/// The producer's decision for a grant of `granted` bytes: as many whole
/// samples as fit, committed exactly, or a back-off when none fits.
pub fn plan_write(granted: usize) -> (r: WritePlan)
    ensures
        granted < SAMPLE_BYTES ==> r == WritePlan::Backoff,
        granted >= SAMPLE_BYTES ==> r == (WritePlan::Fill {
            samples: granted / 4,
            commit: (4 * (granted / 4)) as usize,
        }),
{
    if granted < SAMPLE_BYTES {
        WritePlan::Backoff
    } else {
        let samples = granted / SAMPLE_BYTES;
        WritePlan::Fill { samples, commit: SAMPLE_BYTES * samples }
    }
}

/// The sample index that follows `n`, wrapping on overflow.
pub fn next_tick(n: usize) -> (r: usize)
    ensures
        n < usize::MAX ==> r == n + 1,
        n == usize::MAX ==> r == 0,
{
    if n == usize::MAX {
        0
    } else {
        n + 1
    }
}

/// Whether silence since `last_ok` has lasted long enough at `now` to report.
/// A clock that reads earlier than `last_ok` reports nothing.
pub open spec fn starved_too_long(last_ok: u64, now: u64) -> bool {
    now >= last_ok && now - last_ok >= UNDERRUN_WARN_MS
}

/// What one pull of the consumer gave: the sample (an `f32` bit pattern), the
/// bytes to release from the channel, and whether to report an underrun.
#[derive(Clone, Copy, Debug, PartialEq, Eq, Structural)]
pub struct Pull {
    pub sample: u32,
    pub release: usize,
    pub warn: bool,
}

/// The consumer's memory: when, in milliseconds on its own clock, it last
/// read a sample (or started).
#[derive(Clone, Copy, Debug, PartialEq, Eq, Structural)]
pub struct ConsumerState {
    pub last_ok_ms: u64,
}

impl ConsumerState {
    /// A consumer that starts at `now_ms`.
    pub fn new(now_ms: u64) -> (r: ConsumerState)
        ensures
            r.last_ok_ms == now_ms,
    {
        ConsumerState { last_ok_ms: now_ms }
    }

    /// One pull at `now_ms`, given the bytes the channel has ready. With a whole
    /// sample ready it is read and its four bytes released; otherwise the pull
    /// gives silence (bits 0, that is 0.0), releases nothing and never waits,
    /// and reports the underrun once the silence has lasted long enough.
    pub fn pull(&mut self, available: &[u8], now_ms: u64) -> (r: Pull)
        ensures
            available@.len() >= 4 ==> {
                &&& r.sample == le_value(available@)
                &&& r.release == 4
                &&& !r.warn
                &&& final(self).last_ok_ms == now_ms
            },
            available@.len() < 4 ==> {
                &&& r.sample == 0
                &&& r.release == 0
                &&& r.warn == starved_too_long(old(self).last_ok_ms, now_ms)
                &&& *final(self) == *old(self)
            },
    {
        if available.len() >= SAMPLE_BYTES {
            let sample = decode_sample(available);
            self.last_ok_ms = now_ms;
            Pull { sample, release: SAMPLE_BYTES, warn: false }
        } else {
            let warn = now_ms >= self.last_ok_ms && now_ms - self.last_ok_ms >= UNDERRUN_WARN_MS;
            Pull { sample: 0, release: 0, warn }
        }
    }
}

} // verus!
