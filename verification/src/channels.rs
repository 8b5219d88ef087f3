use vstd::prelude::*;
use vstd::arithmetic::div_mod::{lemma_fundamental_div_mod, lemma_fundamental_div_mod_converse};

verus! {

/// How many samples of an interleaved buffer of length `len` with `ch`
/// channels belong to channel `c`: the indices `c, c + ch, c + 2ch, ...`
/// below `len`.
pub open spec fn channel_len(len: int, ch: int, c: int) -> int {
    if c < len { (len - c - 1) / ch + 1 } else { 0 }
}

/// One sequence per channel: channel `c` holds samples `c, c + ch, ...`.
pub open spec fn spec_deinterleave<T>(s: Seq<T>, ch: int) -> Seq<Seq<T>> {
    Seq::new(ch as nat, |c: int| Seq::new(channel_len(s.len() as int, ch, c) as nat, |k: int| s[k * ch + c]))
}

/// Frame after frame, one sample of each channel, for as many frames as
/// the first channel holds.
pub open spec fn spec_interleave<T>(chans: Seq<Seq<T>>) -> Seq<T> {
    let n = chans.len() as int;
    let frames = chans[0].len() as int;
    Seq::new((frames * n) as nat, |i: int| chans[i % n][i / n])
}

/// A mono buffer turned into stereo frames with both sides equal.
pub open spec fn spec_mono_to_stereo<T>(s: Seq<T>) -> Seq<T> {
    Seq::new(2 * s.len(), |j: int| s[j / 2])
}

/// The frame after `f` in a sample of `n` frames, wrapping to the first.
pub open spec fn next_frame(f: int, n: int) -> int {
    if f + 1 < n { f + 1 } else { 0 }
}

proof fn lemma_div_of_range(x: int, d: int, q: int)
    requires
        d > 0,
        q * d <= x < q * d + d,
    ensures
        x / d == q,
        x % d == x - q * d,
{
    lemma_fundamental_div_mod_converse(x, d, q, x - q * d);
}

/// Splits an interleaved buffer into one buffer per channel.
pub fn deinterleave<T: Copy>(samples: &Vec<T>, channels: usize) -> (chans: Vec<Vec<T>>)
    requires
        channels > 0,
        samples@.len() + channels <= usize::MAX,
    ensures
        chans@.len() == channels,
        forall|c: int| 0 <= c < channels ==> (#[trigger] chans@[c])@ == spec_deinterleave(samples@, channels as int)[c],
{
    let len = samples.len();
    let mut chans: Vec<Vec<T>> = Vec::new();
    let mut c: usize = 0;
    while c < channels
        invariant
            c <= channels,
            len == samples@.len(),
            len + channels <= usize::MAX,
            chans@.len() == c,
            forall|j: int| 0 <= j < c ==> (#[trigger] chans@[j])@ == spec_deinterleave(samples@, channels as int)[j],
        decreases channels - c,
    {
        let mut v: Vec<T> = Vec::new();
        let mut i: usize = c;
        proof {
            assert(v@.len() * channels == 0) by (nonlinear_arith) requires v@.len() == 0;
        }
        while i < len
            invariant
                c < channels,
                i <= len + channels,
                len == samples@.len(),
                len + channels <= usize::MAX,
                i == v@.len() * channels + c,
                v@.len() > 0 ==> (v@.len() - 1) * channels + c < len,
                forall|j: int| 0 <= j < v@.len() ==> #[trigger] v@[j] == samples@[j * channels + c],
            decreases len + channels - i,
        {
            v.push(samples[i]);
            proof {
                let k = v@.len() - 1;
                assert((k + 1) * channels == k * channels + channels) by (nonlinear_arith);
            }
            i = i + channels;
        }
        proof {
            let k = v@.len() as int;
            let ch = channels as int;
            if c < len {
                assert(k > 0) by {
                    if k == 0 {
                        assert(k * ch == 0) by (nonlinear_arith) requires k == 0;
                    }
                }
                assert((k - 1) * ch + ch == k * ch) by (nonlinear_arith);
                lemma_div_of_range(len - c - 1, ch, k - 1);
            }
            assert(v@ =~= spec_deinterleave(samples@, ch)[c as int]);
        }
        chans.push(v);
        c = c + 1;
    }
    chans
}

/// Joins one buffer per channel into an interleaved buffer, as many frames
/// as the first channel holds.
pub fn interleave<T: Copy>(chans: &Vec<Vec<T>>) -> (out: Vec<T>)
    requires
        chans@.len() > 0,
        forall|c: int| 0 <= c < chans@.len() ==> (#[trigger] chans@[c])@.len() >= chans@[0]@.len(),
        chans@[0]@.len() * chans@.len() <= usize::MAX,
    ensures
        out@ == spec_interleave(chans@.map_values(|v: Vec<T>| v@)),
{
    let n = chans.len();
    let frames = chans[0].len();
    let ghost cv = chans@.map_values(|v: Vec<T>| v@);
    let mut out: Vec<T> = Vec::new();
    let mut f: usize = 0;
    while f < frames
        invariant
            n == chans@.len(),
            n > 0,
            frames == chans@[0]@.len(),
            frames * n <= usize::MAX,
            f <= frames,
            forall|c: int| 0 <= c < chans@.len() ==> (#[trigger] chans@[c])@.len() >= frames,
            cv == chans@.map_values(|v: Vec<T>| v@),
            out@.len() == f * n,
            forall|i: int| 0 <= i < out@.len() ==> #[trigger] out@[i] == cv[i % n as int][i / n as int],
        decreases frames - f,
    {
        let mut c: usize = 0;
        while c < n
            invariant
                n == chans@.len(),
                n > 0,
                frames == chans@[0]@.len(),
                frames * n <= usize::MAX,
                f < frames,
                c <= n,
                forall|c2: int| 0 <= c2 < chans@.len() ==> (#[trigger] chans@[c2])@.len() >= frames,
                cv == chans@.map_values(|v: Vec<T>| v@),
                out@.len() == f * n + c,
                forall|i: int| 0 <= i < out@.len() ==> #[trigger] out@[i] == cv[i % n as int][i / n as int],
            decreases n - c,
        {
            proof {
                assert((f + 1) * n <= frames * n) by (nonlinear_arith) requires f < frames, n > 0;
                assert((f + 1) * n == f * n + n) by (nonlinear_arith);
                lemma_div_of_range((f * n + c) as int, n as int, f as int);
            }
            out.push(chans[c][f]);
            c = c + 1;
        }
        proof {
            assert((f + 1) * n == f * n + n) by (nonlinear_arith);
        }
        f = f + 1;
    }
    assert(out@ =~= spec_interleave(cv));
    out
}

/// Duplicates every sample of a mono buffer into a stereo frame.
pub fn mono_to_stereo<T: Copy>(samples: &Vec<T>) -> (out: Vec<T>)
    requires
        2 * samples@.len() <= usize::MAX,
    ensures
        out@ == spec_mono_to_stereo(samples@),
{
    let mut out: Vec<T> = Vec::new();
    let mut i: usize = 0;
    while i < samples.len()
        invariant
            i <= samples@.len(),
            2 * samples@.len() <= usize::MAX,
            out@.len() == 2 * i,
            forall|j: int| 0 <= j < out@.len() ==> #[trigger] out@[j] == samples@[j / 2],
        decreases samples@.len() - i,
    {
        out.push(samples[i]);
        out.push(samples[i]);
        i = i + 1;
    }
    assert(out@ =~= spec_mono_to_stereo(samples@));
    out
}

/// Number of whole stereo frames in an interleaved stereo buffer.
pub fn stereo_frame_count(len: usize) -> (n: usize)
    ensures
        n == len / 2,
        2 * n <= len,
{
    len / 2
}

/// The buffer indices of the two frames that playback interpolates
/// between: the left samples of frame `frame` and of the frame after it
/// (the first frame after the last). Both stereo pairs lie inside a buffer
/// of `n_frames` stereo frames.
pub fn interpolation_indices(frame: usize, n_frames: usize) -> (idx: (usize, usize))
    requires
        frame < n_frames,
        2 * n_frames <= usize::MAX,
    ensures
        idx.0 == 2 * frame,
        idx.1 == 2 * next_frame(frame as int, n_frames as int),
        idx.0 + 1 < 2 * n_frames,
        idx.1 + 1 < 2 * n_frames,
{
    let next = if frame + 1 < n_frames { frame + 1 } else { 0 };
    (2 * frame, 2 * next)
}

/// Splitting an interleaved buffer of whole frames into channels and joining
/// the channels again gives the buffer back.
pub proof fn lemma_interleave_roundtrip<T>(s: Seq<T>, ch: int)
    requires
        ch > 0,
        (s.len() as int) % ch == 0,
    ensures
        spec_interleave(spec_deinterleave(s, ch)) == s,
{
    let len = s.len() as int;
    let d = spec_deinterleave(s, ch);
    lemma_fundamental_div_mod(len, ch);
    let m = len / ch;
    assert(len == m * ch) by (nonlinear_arith) requires len == ch * m + 0;
    assert forall|c: int| 0 <= c < ch implies channel_len(len, ch, c) == m by {
        if m > 0 {
            assert(len - c - 1 == (m - 1) * ch + (ch - c - 1)) by (nonlinear_arith) requires len == m * ch;
            lemma_div_of_range(len - c - 1, ch, m - 1);
            assert(c < len) by (nonlinear_arith) requires len == m * ch, m > 0, 0 <= c < ch;
        } else {
            assert(len == 0) by (nonlinear_arith) requires len == m * ch, m == 0;
        }
    }
    assert(m >= 0) by (nonlinear_arith) requires len == m * ch, len >= 0, ch > 0;
    let r = spec_interleave(d);
    assert(d[0].len() == m);
    assert(r.len() == len);
    assert forall|i: int| 0 <= i < len implies r[i] == s[i] by {
        lemma_fundamental_div_mod(i, ch);
        let q = i / ch;
        let c = i % ch;
        assert(0 <= c < ch);
        assert(q * ch + c == i) by (nonlinear_arith) requires i == ch * q + c;
        assert(0 <= q < m) by (nonlinear_arith) requires q * ch + c == i, 0 <= c < ch, i < m * ch, i >= 0, ch > 0;
    }
    assert(r =~= s);
}

} // verus!
