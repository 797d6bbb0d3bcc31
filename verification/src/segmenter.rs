//! Cuts one track's aligned samples into chunks of a fixed duration, numbered by a
//! sequence that is meaningful across tracks: both tracks are aligned to the same
//! timeline at the same rate, so cutting both at the same sample offsets means that
//! sequence N covers the same window in both.

use vstd::prelude::*;

verus! {

/// One slice of aligned samples of the fixed duration (the last one may be shorter),
/// ready to be encoded.
pub struct PendingSegment<'a, S> {
    pub sequence: u64,
    pub timeline_start_ms: u64,
    pub pcm: &'a [S],
}

/// How many samples a full segment holds.
pub open spec fn samples_per_segment(sample_rate: u32, segment_duration_ms: u32) -> int {
    sample_rate * segment_duration_ms / 1000
}

/// How many segments a track is cut into.
pub open spec fn segment_count(len: int, per_segment: int) -> int {
    if per_segment <= 0 || len <= 0 {
        0
    } else {
        (len + per_segment - 1) / per_segment
    }
}

/// The samples of the segment with this sequence number.
pub open spec fn segment_samples<S>(pcm: Seq<S>, per_segment: int, sequence: int) -> Seq<S> {
    let start = sequence * per_segment;
    let end = start + per_segment;
    pcm.subrange(
        start,
        if end <= pcm.len() {
            end
        } else {
            pcm.len() as int
        },
    )
}

/// Cuts `pcm` into segments. No segment is cut where a full one would be empty.
pub fn segment_pcm<S>(pcm: &[S], sample_rate: u32, segment_duration_ms: u32) -> (segments: Vec<
    PendingSegment<'_, S>,
>)
    requires
        samples_per_segment(sample_rate, segment_duration_ms) <= usize::MAX,
        segment_count(pcm@.len() as int, samples_per_segment(sample_rate, segment_duration_ms))
            * segment_duration_ms <= u64::MAX,
    ensures
        segments@.len() == segment_count(
            pcm@.len() as int,
            samples_per_segment(sample_rate, segment_duration_ms),
        ),
        forall|i: int|
            #![trigger segments@[i]]
            0 <= i < segments@.len() ==> {
                &&& segments@[i].sequence == i
                &&& segments@[i].timeline_start_ms == i * segment_duration_ms
                &&& segments@[i].pcm@ == segment_samples(
                    pcm@,
                    samples_per_segment(sample_rate, segment_duration_ms),
                    i,
                )
            },
{
    proof {
        assert(sample_rate * segment_duration_ms <= u64::MAX) by (nonlinear_arith)
            requires
                sample_rate <= u32::MAX,
                segment_duration_ms <= u32::MAX,
        ;
    }
    let product: u64 = sample_rate as u64 * segment_duration_ms as u64;
    let per_segment: usize = (product / 1000) as usize;
    let mut segments: Vec<PendingSegment<'_, S>> = Vec::new();
    if per_segment == 0 || pcm.len() == 0 {
        return segments;
    }
    let ghost n = per_segment as int;
    let ghost count = segment_count(pcm@.len() as int, n);
    let ghost len = pcm@.len() as int;
    proof {
        vstd::arithmetic::div_mod::lemma_fundamental_div_mod(len + n - 1, n);
        assert(count * n >= len) by (nonlinear_arith)
            requires
                len + n - 1 == n * count + (len + n - 1) % n,
                0 <= (len + n - 1) % n < n,
        ;
        assert((count - 1) * n < len) by (nonlinear_arith)
            requires
                len + n - 1 == n * count + (len + n - 1) % n,
                0 <= (len + n - 1) % n < n,
        ;
    }
    let mut sequence: u64 = 0;
    let mut timeline_start_ms: u64 = 0;
    let mut start: usize = 0;
    while start < pcm.len()
        invariant
            n == per_segment,
            n > 0,
            len == pcm@.len(),
            n == samples_per_segment(sample_rate, segment_duration_ms),
            count == segment_count(len, n),
            count * n >= len,
            (count - 1) * n < len,
            count * segment_duration_ms <= u64::MAX,
            count >= 1,
            sequence == segments@.len(),
            0 <= sequence <= count,
            start == if sequence * n <= len {
                sequence * n
            } else {
                len
            },
            timeline_start_ms == sequence * segment_duration_ms,
            forall|i: int|
                #![trigger segments@[i]]
                0 <= i < segments@.len() ==> {
                    &&& segments@[i].sequence == i
                    &&& segments@[i].timeline_start_ms == i * segment_duration_ms
                    &&& segments@[i].pcm@ == segment_samples(pcm@, n, i)
                },
        decreases count - sequence,
    {
        proof {
            assert(sequence < count) by (nonlinear_arith)
                requires
                    sequence * n < len,
                    count * n >= len,
                    n > 0,
            ;
            assert((sequence + 1) * n == sequence * n + n) by (nonlinear_arith);
            assert((sequence + 1) * segment_duration_ms == sequence * segment_duration_ms
                + segment_duration_ms) by (nonlinear_arith);
            assert((sequence + 1) * segment_duration_ms <= count * segment_duration_ms)
                by (nonlinear_arith)
                requires
                    sequence + 1 <= count,
            ;
            assert(sequence + 1 <= len) by (nonlinear_arith)
                requires
                    sequence * n < len,
                    n >= 1,
                    sequence >= 0,
            ;
        }
        let end: usize = if per_segment <= pcm.len() - start {
            start + per_segment
        } else {
            pcm.len()
        };
        segments.push(
            PendingSegment { sequence, timeline_start_ms, pcm: vstd::slice::slice_subrange(pcm, start, end) },
        );
        sequence = sequence + 1;
        timeline_start_ms = timeline_start_ms + segment_duration_ms as u64;
        start = end;
    }
    proof {
        assert(sequence == count) by (nonlinear_arith)
            requires
                sequence <= count,
                sequence * n >= len,
                (count - 1) * n < len,
                n > 0,
        ;
    }
    segments
}

/// The segments of a track, put together.
pub open spec fn reassembled<S>(pcm: Seq<S>, per_segment: int, count: int) -> Seq<S>
    decreases count,
{
    if count <= 0 {
        Seq::empty()
    } else {
        reassembled(pcm, per_segment, count - 1) + segment_samples(pcm, per_segment, count - 1)
    }
}

/// Nothing is lost and nothing is repeated: the segments of a track, put together, are
/// the track.
pub proof fn law_segments_make_up_the_track<S>(pcm: Seq<S>, per_segment: int)
    requires
        per_segment > 0,
    ensures
        reassembled(pcm, per_segment, segment_count(pcm.len() as int, per_segment)) == pcm,
{
    let len = pcm.len() as int;
    let n = per_segment;
    let count = segment_count(len, n);
    if len == 0 {
        assert(reassembled(pcm, n, count) =~= pcm);
    } else {
        vstd::arithmetic::div_mod::lemma_fundamental_div_mod(len + n - 1, n);
        assert(count * n >= len) by (nonlinear_arith)
            requires
                len + n - 1 == n * count + (len + n - 1) % n,
                0 <= (len + n - 1) % n < n,
        ;
        assert((count - 1) * n < len && count >= 0) by (nonlinear_arith)
            requires
                len + n - 1 == n * count + (len + n - 1) % n,
                0 <= (len + n - 1) % n < n,
                len > 0,
                n > 0,
        ;
        lemma_reassembled_prefix(pcm, n, count);
        assert(pcm.take(len) =~= pcm);
    }
}

proof fn lemma_reassembled_prefix<S>(pcm: Seq<S>, n: int, k: int)
    requires
        n > 0,
        k >= 0,
        (k - 1) * n < pcm.len(),
    ensures
        reassembled(pcm, n, k) == pcm.take(
            if k * n <= pcm.len() {
                k * n
            } else {
                pcm.len() as int
            },
        ),
    decreases k,
{
    if k == 0 {
        assert(reassembled(pcm, n, 0) =~= pcm.take(0));
    } else {
        assert((k - 1) * n == k * n - n) by (nonlinear_arith);
        assert(((k - 1) - 1) * n < pcm.len()) by (nonlinear_arith)
            requires
                (k - 1) * n < pcm.len(),
                n > 0,
        ;
        assert((k - 1) * n >= 0) by (nonlinear_arith)
            requires
                k >= 1,
                n > 0,
        ;
        lemma_reassembled_prefix(pcm, n, k - 1);
        assert(reassembled(pcm, n, k) =~= pcm.take(
            if k * n <= pcm.len() {
                k * n
            } else {
                pcm.len() as int
            },
        ));
    }
}

/// A sequence number covers the same stretch of samples in every track that has it in
/// full, whatever else the tracks hold: the stretch depends on the number alone.
pub proof fn law_sequences_line_up_across_tracks<S, T>(
    one: Seq<S>,
    other: Seq<T>,
    per_segment: int,
    sequence: int,
)
    requires
        per_segment > 0,
        0 <= sequence,
        (sequence + 1) * per_segment <= one.len(),
        (sequence + 1) * per_segment <= other.len(),
    ensures
        segment_samples(one, per_segment, sequence) == one.subrange(
            sequence * per_segment,
            (sequence + 1) * per_segment,
        ),
        segment_samples(other, per_segment, sequence) == other.subrange(
            sequence * per_segment,
            (sequence + 1) * per_segment,
        ),
{
    assert((sequence + 1) * per_segment == sequence * per_segment + per_segment)
        by (nonlinear_arith);
}

/// A full segment holds the whole samples that fit into its duration.
pub proof fn law_a_segment_lasts_its_duration(sample_rate: u32, segment_duration_ms: u32)
    ensures
        ({
            let n = samples_per_segment(sample_rate, segment_duration_ms);
            0 <= n * 1000 <= sample_rate * segment_duration_ms < n * 1000 + 1000
        }),
{
    let p = sample_rate * segment_duration_ms;
    assert(p >= 0) by (nonlinear_arith)
        requires
            p == sample_rate * segment_duration_ms,
    ;
}

/// Segments are cut one after the other from the beginning of a track, all of them full
/// but for the last, which is not empty: the sample at any place of the track is found in
/// the segment that this place falls into.
pub proof fn law_samples_are_found_by_their_place<S>(pcm: Seq<S>, per_segment: int, place: int)
    requires
        per_segment > 0,
        0 <= place < pcm.len(),
    ensures
        ({
            let sequence = place / per_segment;
            let segment = segment_samples(pcm, per_segment, sequence);
            let count = segment_count(pcm.len() as int, per_segment);
            &&& 0 <= sequence < count
            &&& (count - 1) * per_segment < pcm.len() <= count * per_segment
            &&& place % per_segment < segment.len() <= per_segment
            &&& segment[place % per_segment] == pcm[place]
            &&& sequence < count - 1 ==> segment.len() == per_segment
        }),
{
    let n = per_segment;
    let len = pcm.len() as int;
    let count = segment_count(len, n);
    let q = place / n;
    let r = place % n;
    vstd::arithmetic::div_mod::lemma_fundamental_div_mod(place, n);
    vstd::arithmetic::div_mod::lemma_fundamental_div_mod(len + n - 1, n);
    let rest = (len + n - 1) % n;
    assert((count - 1) * n < len <= count * n) by (nonlinear_arith)
        requires
            len + n - 1 == n * count + rest,
            0 <= rest < n,
    ;
    assert(0 <= q < count && q * n == place - r && 0 <= r < n) by (nonlinear_arith)
        requires
            place == n * q + r,
            0 <= r < n,
            0 <= place < len,
            len <= count * n,
            n > 0,
    ;
    assert(q < count - 1 ==> q * n + n <= (count - 1) * n) by (nonlinear_arith)
        requires
            n > 0,
    ;
}

/// Nothing is cut from nothing, nor where a full segment would be empty.
pub proof fn law_nothing_is_cut_from_nothing(len: int, per_segment: int)
    requires
        len <= 0 || per_segment <= 0,
    ensures
        segment_count(len, per_segment) == 0,
{
}

} // verus!
