//! Splitting an interleaved sample stream into one sequence per channel.
use vstd::prelude::*;

verus! {

/// The samples of channel `c` in the interleaved stream `s` of `n` channels:
/// `s[c], s[c + n], s[c + 2n], ...`, one per complete frame.
pub open spec fn channel_of<T>(s: Seq<T>, n: nat, c: nat) -> Seq<T>
    recommends
        n > 0,
        c < n,
{
    Seq::new(s.len() / n, |j: int| s[j * n + c])
}

proof fn lemma_frame_index(j: int, n: int, c: int, len: int)
    requires
        n > 0,
        0 <= c < n,
        0 <= j < len / n,
        len >= 0,
    ensures
        j * n + c < len,
{
    assert((len / n) * n <= len) by (nonlinear_arith)
        requires n > 0, len >= 0;
    assert((j + 1) * n <= (len / n) * n) by (nonlinear_arith)
        requires n > 0, j + 1 <= len / n;
    assert(j * n + c < (j + 1) * n) by (nonlinear_arith)
        requires c < n;
}

/// Splits `samples`, interleaved by channel, into `channels` sequences.
/// A trailing incomplete frame is dropped.
pub fn split_channels<T: Copy>(samples: &Vec<T>, channels: u16) -> (r: Vec<Vec<T>>)
    requires
        channels >= 1,
    ensures
        r.len() == channels,
        forall|c: int| 0 <= c < channels ==> r[c]@ == channel_of(samples@, channels as nat, c as nat),
{
    let n = channels as usize;
    let frames = samples.len() / n;
    let mut result: Vec<Vec<T>> = Vec::new();
    let mut c: usize = 0;
    while c < n
        invariant
            n == channels,
            n >= 1,
            c <= n,
            frames == samples.len() / n,
            result.len() == c,
            forall|k: int| 0 <= k < c ==> result[k]@ == channel_of(samples@, n as nat, k as nat),
        decreases n - c,
    {
        let mut ch: Vec<T> = Vec::new();
        let mut j: usize = 0;
        while j < frames
            invariant
                n == channels,
                n >= 1,
                c < n,
                j <= frames,
                frames == samples.len() / n,
                ch.len() == j,
                forall|i: int| 0 <= i < j ==> ch[i] == samples@[i * n + c],
            decreases frames - j,
        {
            proof {
                lemma_frame_index(j as int, n as int, c as int, samples.len() as int);
            }
            ch.push(samples[j * n + c]);
            j = j + 1;
        }
        assert(ch@ =~= channel_of(samples@, n as nat, c as nat));
        result.push(ch);
        c = c + 1;
    }
    result
}

} // verus!
