//! Dividing the analysed time range into one equal slice per piano key, and
//! cutting those slices out of each channel.
use vstd::prelude::*;

verus! {

use vstd::arithmetic::div_mod::{lemma_fundamental_div_mod, lemma_fundamental_div_mod_converse};

/// Number of keys of the piano, hence of slices and of curve values.
pub const KEYS: usize = 88;

/// Microseconds per second: times are given in whole microseconds.
pub const MICROS_PER_SECOND: u128 = 1_000_000;

/// Why no slice table, or no set of slice windows, could be made.
#[derive(PartialEq, Eq, Structural, Debug, Clone, Copy)]
pub enum SliceError {
    /// The end of the analysed range lies before its start.
    EndBeforeStart,
    /// A slice would end past the largest index that `usize` can hold.
    TooLong,
    /// A slice reaches past the end of a channel's samples.
    OutOfRange,
}

/// Samples per slice: the slice duration `(end - start) / KEYS` seconds
/// times the sample rate, rounded down.
pub open spec fn slice_length(start_us: int, end_us: int, rate: int) -> int {
    ((end_us - start_us) * rate) / (KEYS * MICROS_PER_SECOND)
}

/// First sample of slice `i`: its start time `start + i * (end - start) / KEYS`
/// seconds times the sample rate, rounded to the nearest integer, halves up.
pub open spec fn slice_offset(start_us: int, end_us: int, rate: int, i: int) -> int {
    let num = (start_us * KEYS + i * (end_us - start_us)) * rate;
    let den = KEYS * MICROS_PER_SECOND;
    (2 * num + den) / (2 * den)
}

/// Every slice ends at an index that `usize` can hold.
pub open spec fn slices_fit(start_us: int, end_us: int, rate: int) -> bool {
    forall|i: int|
        0 <= i < KEYS ==> #[trigger] slice_offset(start_us, end_us, rate, i) + slice_length(
            start_us,
            end_us,
            rate,
        ) <= usize::MAX
}

/// When the range starts on a whole sample and each slice spans a whole
/// number of samples, no rounding happens: slice `i` starts exactly `i`
/// slice lengths after slice 0.
pub proof fn lemma_whole_sample_offsets(start_us: int, end_us: int, rate: int, i: int)
    requires
        0 <= start_us <= end_us,
        0 <= rate,
        0 <= i,
        (start_us * rate) % (MICROS_PER_SECOND as int) == 0,
        ((end_us - start_us) * rate) % (KEYS * MICROS_PER_SECOND) == 0,
    ensures
        slice_offset(start_us, end_us, rate, i) == slice_offset(start_us, end_us, rate, 0) + i
            * slice_length(start_us, end_us, rate),
        slice_offset(start_us, end_us, rate, 0) == (start_us * rate) / (MICROS_PER_SECOND as int),
{
    let m = MICROS_PER_SECOND as int;
    let den = KEYS * MICROS_PER_SECOND;
    let first = (start_us * rate) / m;
    let len = slice_length(start_us, end_us, rate);
    lemma_fundamental_div_mod(start_us * rate, m);
    lemma_fundamental_div_mod((end_us - start_us) * rate, den);
    assert(start_us * rate == m * first);
    assert((end_us - start_us) * rate == den * len);
    let num_i = (start_us * KEYS + i * (end_us - start_us)) * rate;
    let num_0 = (start_us * KEYS + 0 * (end_us - start_us)) * rate;
    assert(num_i == KEYS * (start_us * rate) + i * ((end_us - start_us) * rate)) by (nonlinear_arith)
        requires
            num_i == (start_us * KEYS + i * (end_us - start_us)) * rate,
    ;
    assert(num_0 == KEYS * (start_us * rate)) by (nonlinear_arith)
        requires
            num_0 == (start_us * KEYS + 0 * (end_us - start_us)) * rate,
    ;
    assert(2 * num_i + den == (first + i * len) * (2 * den) + den) by (nonlinear_arith)
        requires
            num_i == KEYS * (start_us * rate) + i * ((end_us - start_us) * rate),
            start_us * rate == m * first,
            (end_us - start_us) * rate == den * len,
            den == KEYS * m,
    ;
    assert(2 * num_0 + den == first * (2 * den) + den) by (nonlinear_arith)
        requires
            num_0 == KEYS * (start_us * rate),
            start_us * rate == m * first,
            den == KEYS * m,
    ;
    lemma_fundamental_div_mod_converse(2 * num_i + den, 2 * den, first + i * len, den);
    lemma_fundamental_div_mod_converse(2 * num_0 + den, 2 * den, first, den);
}

/// Where each key's slice starts, in samples, and the length shared by all.
pub struct SliceTable {
    pub offsets: Vec<usize>,
    pub length: usize,
}

/// Some slice of the table reaches past the end of some channel.
pub open spec fn some_slice_outside<T>(offsets: Seq<usize>, length: usize, channels: Seq<Vec<T>>) -> bool {
    exists|i: int, c: int|
        #![trigger offsets[i], channels[c]]
        0 <= i < offsets.len() && 0 <= c < channels.len() && offsets[i] + length > channels[c].len()
}

fn copy_range<T: Copy>(v: &Vec<T>, start: usize, end: usize) -> (r: Vec<T>)
    requires
        start <= end <= v.len(),
    ensures
        r@ == v@.subrange(start as int, end as int),
{
    let mut r: Vec<T> = Vec::new();
    let mut k: usize = start;
    while k < end
        invariant
            start <= k <= end <= v.len(),
            r@ == v@.subrange(start as int, k as int),
        decreases end - k,
    {
        r.push(v[k]);
        assert(r@ =~= v@.subrange(start as int, k + 1));
        k = k + 1;
    }
    r
}

impl SliceTable {
    /// Builds the table for the range from `start_us` to `end_us` (in
    /// microseconds) of a recording at `sample_rate` samples per second.
    pub fn from_times(start_us: u64, end_us: u64, sample_rate: u32) -> (r: Result<SliceTable, SliceError>)
        ensures
            (r matches Err(SliceError::EndBeforeStart)) <==> end_us < start_us,
            (r matches Err(SliceError::TooLong)) <==> (start_us <= end_us && !slices_fit(
                start_us as int,
                end_us as int,
                sample_rate as int,
            )),
            !(r matches Err(SliceError::OutOfRange)),
            r matches Ok(t) ==> {
                &&& t.offsets.len() == KEYS
                &&& t.length == slice_length(start_us as int, end_us as int, sample_rate as int)
                &&& forall|i: int|
                    0 <= i < KEYS ==> t.offsets[i] == slice_offset(
                        start_us as int,
                        end_us as int,
                        sample_rate as int,
                        i,
                    )
            },
    {
        if end_us < start_us {
            return Err(SliceError::EndBeforeStart);
        }
        let d: u128 = (end_us - start_us) as u128;
        let rate: u128 = sample_rate as u128;
        let den: u128 = KEYS as u128 * MICROS_PER_SECOND;
        assert(d * rate <= 0xffff_ffff_ffff_ffffu128 * 0xffff_ffffu128) by (nonlinear_arith)
            requires d <= 0xffff_ffff_ffff_ffffu128, rate <= 0xffff_ffffu128;
        let length: u128 = d * rate / den;
        let mut offsets: Vec<usize> = Vec::new();
        let mut i: usize = 0;
        while i < KEYS
            invariant
                start_us <= end_us,
                d == end_us - start_us,
                rate == sample_rate,
                den == KEYS * MICROS_PER_SECOND,
                length == slice_length(start_us as int, end_us as int, sample_rate as int),
                i <= KEYS,
                offsets.len() == i,
                forall|k: int|
                    0 <= k < i ==> offsets[k] == slice_offset(
                        start_us as int,
                        end_us as int,
                        sample_rate as int,
                        k,
                    ) && offsets[k] + length <= usize::MAX,
            decreases KEYS - i,
        {
            let s: u128 = start_us as u128;
            let k: u128 = i as u128;
            assert(s * 88 + k * d <= 176 * 0xffff_ffff_ffff_ffffu128) by (nonlinear_arith)
                requires s <= 0xffff_ffff_ffff_ffffu128, d <= 0xffff_ffff_ffff_ffffu128, k < 88;
            assert((s * 88 + k * d) * rate <= 176 * 0xffff_ffff_ffff_ffffu128 * 0xffff_ffffu128)
                by (nonlinear_arith)
                requires
                    s * 88 + k * d <= 176 * 0xffff_ffff_ffff_ffffu128,
                    rate <= 0xffff_ffffu128,
            ;
            let num: u128 = (s * KEYS as u128 + k * d) * rate;
            let offset: u128 = (2 * num + den) / (2 * den);
            if length > usize::MAX as u128 || offset > usize::MAX as u128 - length {
                assert(!slices_fit(start_us as int, end_us as int, sample_rate as int)) by {
                    assert(offset == slice_offset(start_us as int, end_us as int, sample_rate as int, i as int));
                }
                return Err(SliceError::TooLong);
            }
            offsets.push(offset as usize);
            i = i + 1;
        }
        assert(slices_fit(start_us as int, end_us as int, sample_rate as int)) by {
            assert forall|j: int| 0 <= j < KEYS implies #[trigger] slice_offset(
                start_us as int,
                end_us as int,
                sample_rate as int,
                j,
            ) + slice_length(start_us as int, end_us as int, sample_rate as int)
                <= usize::MAX by {
                assert(offsets[j] + length <= usize::MAX);
            }
        }
        assert(offsets[0] + length <= usize::MAX);
        Ok(SliceTable { offsets, length: length as usize })
    }

    /// Cuts every slice out of every channel: `w[i][c]` holds the samples of
    /// key `i` in channel `c`. Fails when a slice reaches past the end of a
    /// channel.
    pub fn windows<T: Copy>(&self, channels: &Vec<Vec<T>>) -> (r: Result<Vec<Vec<Vec<T>>>, SliceError>)
        ensures
            r is Err <==> some_slice_outside(self.offsets@, self.length, channels@),
            r is Err ==> r->Err_0 == SliceError::OutOfRange,
            r matches Ok(w) ==> {
                &&& w.len() == self.offsets.len()
                &&& forall|i: int| 0 <= i < w.len() ==> #[trigger] w[i].len() == channels.len()
                &&& forall|i: int, c: int|
                    0 <= i < w.len() && 0 <= c < channels.len() ==> #[trigger] w[i][c]@
                        == channels[c]@.subrange(
                        self.offsets[i] as int,
                        self.offsets[i] + self.length,
                    )
            },
    {
        let mut w: Vec<Vec<Vec<T>>> = Vec::new();
        let mut i: usize = 0;
        while i < self.offsets.len()
            invariant
                i <= self.offsets.len(),
                w.len() == i,
                forall|k: int, c: int|
                    0 <= k < i && 0 <= c < channels.len() ==> self.offsets[k] + self.length
                        <= channels[c].len(),
                forall|k: int| 0 <= k < i ==> #[trigger] w[k].len() == channels.len(),
                forall|k: int, c: int|
                    0 <= k < i && 0 <= c < channels.len() ==> #[trigger] w[k][c]@
                        == channels[c]@.subrange(
                        self.offsets[k] as int,
                        self.offsets[k] + self.length,
                    ),
            decreases self.offsets.len() - i,
        {
            let offset = self.offsets[i];
            let mut per_channel: Vec<Vec<T>> = Vec::new();
            let mut c: usize = 0;
            while c < channels.len()
                invariant
                    i < self.offsets.len(),
                    offset == self.offsets[i as int],
                    c <= channels.len(),
                    per_channel.len() == c,
                    forall|j: int| 0 <= j < c ==> offset + self.length <= channels[j].len(),
                    forall|j: int|
                        0 <= j < c ==> #[trigger] per_channel[j]@ == channels[j]@.subrange(
                            offset as int,
                            offset + self.length,
                        ),
                decreases channels.len() - c,
            {
                let samples = &channels[c];
                if offset > samples.len() || self.length > samples.len() - offset {
                    assert(some_slice_outside(self.offsets@, self.length, channels@)) by {
                        assert(self.offsets@[i as int] + self.length > channels@[c as int].len());
                    }
                    return Err(SliceError::OutOfRange);
                }
                per_channel.push(copy_range(samples, offset, offset + self.length));
                c = c + 1;
            }
            w.push(per_channel);
            i = i + 1;
        }
        Ok(w)
    }
}

} // verus!
