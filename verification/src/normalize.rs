//! Downmix to mono and resampling to the target rate, which every captured frame goes
//! through before it is aligned: how its samples are grouped, and whether they are
//! resampled at all. The arithmetic on the samples is the caller's.

use crate::domain::CapturedFrame;
use vstd::prelude::*;

verus! {

/// The number of channels to average over; a frame that claims none has one.
pub open spec fn channel_count(channels: u16) -> int {
    if channels >= 1 {
        channels as int
    } else {
        1
    }
}

/// Whether samples at one rate have to be resampled to another.
pub fn needs_resampling(sample_count: usize, from_hz: u32, to_hz: u32) -> (needed: bool)
    ensures
        needed == (from_hz != to_hz && sample_count != 0),
{
    !(from_hz == to_hz || sample_count == 0)
}

/// How many samples there are after resampling: as many as last as long at the new rate,
/// rounded to the nearest.
pub open spec fn resampled_count(sample_count: int, from_hz: int, to_hz: int) -> int {
    if from_hz == to_hz || sample_count == 0 {
        sample_count
    } else {
        (2 * sample_count * to_hz + from_hz) / (2 * from_hz)
    }
}

/// How many samples there are after resampling.
pub fn resampled_length(sample_count: usize, from_hz: u32, to_hz: u32) -> (len: usize)
    requires
        from_hz > 0 || sample_count == 0 || from_hz == to_hz,
        resampled_count(sample_count as int, from_hz as int, to_hz as int) <= usize::MAX,
    ensures
        len == resampled_count(sample_count as int, from_hz as int, to_hz as int),
{
    if !needs_resampling(sample_count, from_hz, to_hz) {
        return sample_count;
    }
    proof {
        assert(0 <= sample_count * to_hz <= u64::MAX * u32::MAX) by (nonlinear_arith)
            requires
                0 <= sample_count <= u64::MAX,
                0 <= to_hz <= u32::MAX,
        ;
        assert(2 * sample_count * to_hz == 2 * (sample_count * to_hz)) by (nonlinear_arith);
    }
    let product: u128 = sample_count as u128 * to_hz as u128;
    ((2 * product + from_hz as u128) / (2 * from_hz as u128)) as usize
}

/// Resampling keeps the duration, to within half a sample of the new rate, where a half
/// is rounded up; and resampling
/// to the rate that the samples have changes nothing.
pub proof fn law_resampling_keeps_the_duration(sample_count: int, from_hz: int, to_hz: int)
    requires
        sample_count >= 0,
        from_hz > 0,
        to_hz >= 0,
    ensures
        ({
            let after = resampled_count(sample_count, from_hz, to_hz);
            -from_hz < 2 * after * from_hz - 2 * sample_count * to_hz <= from_hz
        }),
        resampled_count(sample_count, from_hz, from_hz) == sample_count,
{
    let n = 2 * sample_count * to_hz + from_hz;
    let d = 2 * from_hz;
    vstd::arithmetic::div_mod::lemma_fundamental_div_mod(n, d);
    let after = resampled_count(sample_count, from_hz, to_hz);
    if from_hz == to_hz {
        assert(2 * after * from_hz == 2 * sample_count * to_hz);
    } else if sample_count == 0 {
        assert(2 * sample_count * to_hz == 0) by (nonlinear_arith)
            requires
                sample_count == 0,
        ;
        assert(2 * after * from_hz == 0) by (nonlinear_arith)
            requires
                after == 0,
        ;
    } else {
        assert(d * after == 2 * after * from_hz) by (nonlinear_arith)
            requires
                d == 2 * from_hz,
        ;
    }
}

/// The groups of samples, one per channel each, that are averaged into the mono samples
/// of a frame. An incomplete group at the end is left out.
pub fn mono_groups<S>(frame: &CapturedFrame<S>) -> (groups: Vec<&[S]>)
    ensures
        // As many groups as are complete, each with a sample of every channel, in order.
        ({
            let c = if frame.channels == 0 {
                1
            } else {
                frame.channels as int
            };
            &&& groups@.len() * c <= frame.samples@.len() < groups@.len() * c + c
            &&& forall|i: int|
                #![trigger groups@[i]]
                0 <= i < groups@.len() ==> groups@[i]@.len() == c
            &&& forall|i: int, j: int|
                #![trigger groups@[i]@[j]]
                0 <= i < groups@.len() && 0 <= j < c ==> groups@[i]@[j] == frame.samples@[i * c
                    + j]
        }),
        groups@.len() == frame.samples@.len() as int / channel_count(frame.channels),
        forall|i: int|
            #![trigger groups@[i]]
            0 <= i < groups@.len() ==> groups@[i]@ == frame.samples@.subrange(
                i * channel_count(frame.channels),
                (i + 1) * channel_count(frame.channels),
            ),
{
    let channels: usize = if frame.channels >= 1 {
        frame.channels as usize
    } else {
        1
    };
    let ghost c = channel_count(frame.channels);
    let ghost len = frame.samples@.len() as int;
    let mut groups: Vec<&[S]> = Vec::new();
    let mut start: usize = 0;
    assert(groups@.len() * c == 0) by (nonlinear_arith)
        requires
            groups@.len() == 0,
    ;
    while channels <= frame.samples.len() - start
        invariant
            c == channels,
            c == channel_count(frame.channels),
            c >= 1,
            len == frame.samples@.len(),
            start == groups@.len() * c,
            start <= len,
            forall|i: int|
                #![trigger groups@[i]]
                0 <= i < groups@.len() ==> groups@[i]@ == frame.samples@.subrange(
                    i * c,
                    (i + 1) * c,
                ),
        decreases len - start,
    {
        let ghost k = groups@.len() as int;
        assert((k + 1) * c == k * c + c) by (nonlinear_arith);
        groups.push(
            vstd::slice::slice_subrange(frame.samples.as_slice(), start, start + channels),
        );
        start = start + channels;
    }
    proof {
        let k = groups@.len() as int;
        assert(k == len / c) by (nonlinear_arith)
            requires
                k * c <= len,
                len - k * c < c,
                c >= 1,
        ;
        assert forall|i: int|
            #![trigger groups@[i]]
            0 <= i < groups@.len() implies groups@[i]@.len() == c && forall|j: int|
            0 <= j < c ==> (#[trigger] groups@[i]@[j]) == frame.samples@[i * c + j] by {
            assert((i + 1) * c == i * c + c) by (nonlinear_arith);
            assert(0 <= i * c && (i + 1) * c <= k * c) by (nonlinear_arith)
                requires
                    0 <= i,
                    i + 1 <= k,
                    c >= 1,
            ;
        }
    }
    groups
}

/// Frames are averaged over the channels that they claim to have, and over one where they
/// claim none.
pub proof fn law_a_frame_without_channels_has_one(channels: u16)
    ensures
        channels == 0 ==> channel_count(channels) == 1,
        channels > 0 ==> channel_count(channels) == channels,
{
}

} // verus!
