//! Maps provider-relative transcription timestamps back to wall-clock milliseconds.
//!
//! A streaming provider computes its timestamps from the amount of audio that was sent
//! to it, not from elapsed time. Skipping silent audio makes provider time run behind
//! the wall clock; synthetic audio that is sent to keep a connection alive makes it run
//! ahead. [`TimestampMapper`] keeps a series of checkpoints `(samples sent, net offset
//! in samples)`, where the net offset is what was captured and dropped less what was
//! injected, and corrects a provider timestamp by the offset that applied there.

use vstd::prelude::*;

verus! {

/// `n / d`, rounded to the nearest integer, ties away from zero.
pub open spec fn round_div(n: int, d: int) -> int
    recommends
        d > 0,
{
    if n >= 0 {
        (n + d / 2) / d
    } else {
        -((-n + d / 2) / d)
    }
}

/// `n` brought into the range of a `u64`.
pub open spec fn clamp_u64(n: int) -> int {
    if n < 0 {
        0
    } else if n > u64::MAX {
        u64::MAX as int
    } else {
        n
    }
}

/// Whether the positions of the checkpoints grow strictly.
pub open spec fn positions_grow(checkpoints: Seq<(u64, i64)>) -> bool {
    forall|i: int, j: int|
        #![trigger checkpoints[i], checkpoints[j]]
        0 <= i < j < checkpoints.len() ==> checkpoints[i].0 < checkpoints[j].0
}

/// The offset that applies at a position: that of the last checkpoint at or before it,
/// and none before the first checkpoint.
pub open spec fn offset_at(checkpoints: Seq<(u64, i64)>, position: int) -> int
    decreases checkpoints.len(),
{
    if checkpoints.len() == 0 {
        0
    } else if checkpoints.last().0 <= position {
        checkpoints.last().1 as int
    } else {
        offset_at(checkpoints.drop_last(), position)
    }
}

/// The checkpoints after one more was recorded: a checkpoint at the position of the
/// last one replaces it.
pub open spec fn recorded(
    checkpoints: Seq<(u64, i64)>,
    position: u64,
    offset: i64,
) -> Seq<(u64, i64)> {
    if checkpoints.len() > 0 && checkpoints.last().0 == position {
        checkpoints.drop_last().push((position, offset))
    } else {
        checkpoints.push((position, offset))
    }
}

/// The samples that a number of milliseconds takes, rounded down.
pub open spec fn samples_in(ms: int, sample_rate_hz: int) -> int {
    ms * sample_rate_hz / 1000
}

/// The wall-clock time of a provider-relative time.
pub open spec fn wallclock(checkpoints: Seq<(u64, i64)>, sample_rate_hz: int, ms: int) -> int {
    if checkpoints.len() == 0 {
        ms
    } else {
        let offset = offset_at(checkpoints, samples_in(ms, sample_rate_hz));
        clamp_u64(ms + round_div(offset * 1000, sample_rate_hz))
    }
}

/// Whether an offset can be turned into milliseconds within 64-bit arithmetic.
pub open spec fn convertible(offset: int, sample_rate_hz: u32) -> bool {
    &&& sample_rate_hz > 0
    &&& i64::MIN <= offset * 1000 <= i64::MAX
    &&& offset >= 0 ==> offset * 1000 + sample_rate_hz / 2 <= i64::MAX
    &&& offset < 0 ==> offset * 1000 - sample_rate_hz / 2 >= i64::MIN
}

/// Converts provider-relative millisecond timestamps to wall-clock milliseconds, given
/// a series of checkpoints that record how far the audio sent has drifted from the
/// audio captured.
pub struct TimestampMapper {
    /// `(cumulative samples sent, net offset at that point)`, in the order recorded.
    pub checkpoints: Vec<(u64, i64)>,
    pub sample_rate_hz: u32,
}

impl TimestampMapper {
    pub open spec fn well_formed(&self) -> bool {
        positions_grow(self.checkpoints@)
    }

    /// Whether a provider-relative time can be corrected within 64-bit arithmetic.
    pub open spec fn can_map(&self, provider_relative_ms: u64) -> bool {
        self.checkpoints@.len() > 0 ==> {
            &&& provider_relative_ms * self.sample_rate_hz <= u64::MAX
            &&& convertible(
                offset_at(
                    self.checkpoints@,
                    samples_in(provider_relative_ms as int, self.sample_rate_hz as int),
                ),
                self.sample_rate_hz,
            )
        }
    }

    pub fn new(sample_rate_hz: u32) -> (mapper: Self)
        ensures
            mapper.well_formed(),
            mapper.checkpoints@ == Seq::<(u64, i64)>::empty(),
            mapper.sample_rate_hz == sample_rate_hz,
    {
        TimestampMapper { checkpoints: Vec::new(), sample_rate_hz }
    }

    /// Records a checkpoint: as of `provider_samples_sent` cumulative samples, the net
    /// offset between captured and sent audio is `net_offset_samples`. Callers record
    /// positions that never go back.
    ///
    /// A run of calls with the same position overwrites the last checkpoint in place:
    /// only the last offset at a position can ever be observed, so earlier entries
    /// would only make the series grow.
    pub fn record_checkpoint(&mut self, provider_samples_sent: u64, net_offset_samples: i64)
        requires
            old(self).well_formed(),
            old(self).checkpoints@.len() > 0 ==> old(self).checkpoints@.last().0
                <= provider_samples_sent,
        ensures
            final(self).well_formed(),
            final(self).sample_rate_hz == old(self).sample_rate_hz,
            final(self).checkpoints@ == recorded(
                old(self).checkpoints@,
                provider_samples_sent,
                net_offset_samples,
            ),
    {
        let n: usize = self.checkpoints.len();
        if n > 0 && self.checkpoints[n - 1].0 == provider_samples_sent {
            self.checkpoints.set(n - 1, (provider_samples_sent, net_offset_samples));
            assert(self.checkpoints@ =~= recorded(
                old(self).checkpoints@,
                provider_samples_sent,
                net_offset_samples,
            ));
        } else {
            self.checkpoints.push((provider_samples_sent, net_offset_samples));
        }
    }

    /// Corrects a provider-relative millisecond timestamp to wall-clock milliseconds.
    ///
    /// The offset is converted to milliseconds once, here, so that no rounding error
    /// builds up over the checkpoints. The result is the input itself while there is no
    /// checkpoint, or where the input predates the first one; it never leaves the range
    /// of a `u64`.
    pub fn to_wallclock_ms(&self, provider_relative_ms: u64) -> (ms: u64)
        requires
            self.well_formed(),
            self.can_map(provider_relative_ms),
        ensures
            ms == wallclock(
                self.checkpoints@,
                self.sample_rate_hz as int,
                provider_relative_ms as int,
            ),
    {
        if self.checkpoints.len() == 0 {
            return provider_relative_ms;
        }
        let position: u64 = ms_to_samples(provider_relative_ms, self.sample_rate_hz);
        let idx: usize = checkpoints_up_to(&self.checkpoints, position);
        proof {
            lemma_offset_at_partition(self.checkpoints@, position as int, idx as int);
        }
        let net_offset_samples: i64 = if idx == 0 {
            0
        } else {
            self.checkpoints[idx - 1].1
        };
        let offset_ms: i64 = signed_samples_to_ms(net_offset_samples, self.sample_rate_hz);
        saturating_add_signed(provider_relative_ms, offset_ms)
    }
}

/// How many checkpoints lie at or before a position.
fn checkpoints_up_to(checkpoints: &Vec<(u64, i64)>, position: u64) -> (idx: usize)
    requires
        positions_grow(checkpoints@),
    ensures
        idx <= checkpoints@.len(),
        forall|i: int| 0 <= i < idx ==> #[trigger] checkpoints@[i].0 <= position,
        forall|i: int| idx <= i < checkpoints@.len() ==> #[trigger] checkpoints@[i].0 > position,
{
    let mut lo: usize = 0;
    let mut hi: usize = checkpoints.len();
    while lo < hi
        invariant
            positions_grow(checkpoints@),
            lo <= hi <= checkpoints@.len(),
            forall|i: int| 0 <= i < lo ==> #[trigger] checkpoints@[i].0 <= position,
            forall|i: int| hi <= i < checkpoints@.len() ==> #[trigger] checkpoints@[i].0 > position,
        decreases hi - lo,
    {
        let mid: usize = lo + (hi - lo) / 2;
        if checkpoints[mid].0 <= position {
            lo = mid + 1;
        } else {
            hi = mid;
        }
    }
    lo
}

proof fn lemma_offset_at_partition(checkpoints: Seq<(u64, i64)>, position: int, idx: int)
    requires
        0 <= idx <= checkpoints.len(),
        forall|i: int| 0 <= i < idx ==> #[trigger] checkpoints[i].0 <= position,
        forall|i: int| idx <= i < checkpoints.len() ==> #[trigger] checkpoints[i].0 > position,
    ensures
        offset_at(checkpoints, position) == if idx == 0 {
            0
        } else {
            checkpoints[idx - 1].1 as int
        },
    decreases checkpoints.len(),
{
    if checkpoints.len() > idx {
        assert(checkpoints.last().0 > position);
        lemma_offset_at_partition(checkpoints.drop_last(), position, idx);
    }
}

fn ms_to_samples(ms: u64, sample_rate_hz: u32) -> (samples: u64)
    requires
        ms * sample_rate_hz <= u64::MAX,
    ensures
        samples == samples_in(ms as int, sample_rate_hz as int),
{
    ms * sample_rate_hz as u64 / 1000
}

/// Converts a signed sample count to signed milliseconds, rounded to the nearest
/// millisecond (ties away from zero). Rounding toward zero would under-correct by up to
/// a millisecond.
pub fn signed_samples_to_ms(samples: i64, sample_rate_hz: u32) -> (ms: i64)
    requires
        convertible(samples as int, sample_rate_hz),
    ensures
        ms == round_div(samples * 1000, sample_rate_hz as int),
{
    let rate: i64 = sample_rate_hz as i64;
    let numerator: i64 = samples * 1000;
    let half: i64 = rate / 2;
    if numerator >= 0 {
        proof {
            lemma_quotient_bounds(numerator + half, rate as int);
        }
        (numerator + half) / rate
    } else {
        let magnitude: u64 = (-(numerator as i128)) as u64;
        let rounded: u64 = (magnitude + half as u64) / rate as u64;
        proof {
            lemma_quotient_bounds(magnitude + half, rate as int);
        }
        (-(rounded as i128)) as i64
    }
}

proof fn lemma_quotient_bounds(n: int, d: int)
    requires
        n >= 0,
        d > 0,
    ensures
        0 <= n / d <= n,
{
    vstd::arithmetic::div_mod::lemma_div_pos_is_pos(n, d);
    vstd::arithmetic::div_mod::lemma_div_is_ordered_by_denominator(n, 1, d);
    vstd::arithmetic::div_mod::lemma_div_basics(n);
}

fn saturating_add_signed(base: u64, offset: i64) -> (sum: u64)
    ensures
        sum == clamp_u64(base + offset),
{
    if offset >= 0 {
        base.saturating_add(offset as u64)
    } else {
        base.saturating_sub((-(offset as i128)) as u64)
    }
}

/// Rounding misses the exact quotient by half a unit at most, and where it misses by
/// half a unit, it goes away from zero.
pub proof fn law_rounding_is_to_nearest(n: int, d: int)
    requires
        d > 0,
    ensures
        -d <= 2 * (round_div(n, d) * d - n) <= d,
        n >= 0 ==> -d < 2 * (round_div(n, d) * d - n),
        n < 0 ==> 2 * (round_div(n, d) * d - n) < d,
{
    let m = if n >= 0 {
        n
    } else {
        -n
    };
    let half = d / 2;
    let q = (m + half) / d;
    vstd::arithmetic::div_mod::lemma_fundamental_div_mod(m + half, d);
    let r = (m + half) % d;
    assert(q * d == m + half - r) by (nonlinear_arith)
        requires
            m + half == d * q + r,
    ;
    if n < 0 {
        assert((-q) * d == -(q * d)) by (nonlinear_arith);
    }
}

/// Several checkpoints at one position are observed as the last of them alone.
pub proof fn law_last_checkpoint_at_a_position_wins(
    checkpoints: Seq<(u64, i64)>,
    position: u64,
    first: i64,
    second: i64,
)
    ensures
        recorded(recorded(checkpoints, position, first), position, second) == recorded(
            checkpoints,
            position,
            second,
        ),
{
    let once = recorded(checkpoints, position, first);
    assert(once.last().0 == position);
    assert(recorded(once, position, second) =~= recorded(checkpoints, position, second));
}

/// A checkpoint corrects every time at or after its position by its offset, and leaves
/// every earlier time as it was.
pub proof fn law_checkpoint_applies_from_its_position(
    checkpoints: Seq<(u64, i64)>,
    position: u64,
    offset: i64,
    at: int,
)
    requires
        positions_grow(checkpoints),
        checkpoints.len() > 0 ==> checkpoints.last().0 <= position,
    ensures
        at >= position ==> offset_at(recorded(checkpoints, position, offset), at) == offset,
        at < position ==> offset_at(recorded(checkpoints, position, offset), at) == offset_at(
            checkpoints,
            at,
        ),
{
    let after = recorded(checkpoints, position, offset);
    assert(after.last() == (position, offset));
    if checkpoints.len() > 0 && checkpoints.last().0 == position {
        assert(after.drop_last() =~= checkpoints.drop_last());
    } else {
        assert(after.drop_last() =~= checkpoints);
    }
}

/// Before the first checkpoint, and while there is none, a time is its own correction.
pub proof fn law_no_correction_before_the_first_checkpoint(
    checkpoints: Seq<(u64, i64)>,
    sample_rate_hz: u32,
    ms: u64,
)
    requires
        sample_rate_hz > 0,
        forall|i: int|
            0 <= i < checkpoints.len() ==> samples_in(ms as int, sample_rate_hz as int) < (
            #[trigger] checkpoints[i]).0,
    ensures
        wallclock(checkpoints, sample_rate_hz as int, ms as int) == ms,
{
    lemma_offset_at_partition(checkpoints, samples_in(ms as int, sample_rate_hz as int), 0);
    let d = sample_rate_hz as int;
    assert((0 + d / 2) / d == 0) by {
        vstd::arithmetic::div_mod::lemma_basic_div(d / 2, d);
    }
}

/// Whether a checkpoint is the one in force at a provider-relative time: it lies at or
/// before the samples that had been sent by then, and no later one does.
pub open spec fn in_force(
    checkpoints: Seq<(u64, i64)>,
    sample_rate_hz: int,
    ms: int,
    at: int,
) -> bool {
    &&& 0 <= at < checkpoints.len()
    &&& checkpoints[at].0 * 1000 <= ms * sample_rate_hz
    &&& forall|i: int|
        at < i < checkpoints.len() ==> (#[trigger] checkpoints[i]).0 * 1000 > ms * sample_rate_hz
}

/// A time is corrected by the offset of the checkpoint in force, to the nearest
/// millisecond, and what would lie before the beginning lies at the beginning.
pub proof fn law_times_are_moved_by_the_offset_in_force(
    checkpoints: Seq<(u64, i64)>,
    sample_rate_hz: u32,
    ms: u64,
    at: int,
)
    requires
        positions_grow(checkpoints),
        sample_rate_hz > 0,
        in_force(checkpoints, sample_rate_hz as int, ms as int, at),
    ensures
        ({
            let after = wallclock(checkpoints, sample_rate_hz as int, ms as int);
            let off = 2 * ((after - ms) * sample_rate_hz - checkpoints[at].1 * 1000);
            &&& 0 <= after <= u64::MAX
            &&& 0 < after < u64::MAX ==> -sample_rate_hz <= off <= sample_rate_hz
            &&& after == 0 ==> off >= -sample_rate_hz
            &&& after == u64::MAX ==> off <= sample_rate_hz
        }),
{
    let rate = sample_rate_hz as int;
    let p = ms * rate;
    let position = samples_in(ms as int, rate);
    assert(p >= 0) by (nonlinear_arith)
        requires
            p == ms * rate,
            rate > 0,
            ms >= 0,
    ;
    assert(position * 1000 <= p < position * 1000 + 1000);
    assert forall|i: int| 0 <= i < at + 1 implies #[trigger] checkpoints[i].0 <= position by {
        assert(checkpoints[i].0 <= checkpoints[at].0);
    }
    lemma_offset_at_partition(checkpoints, position, at + 1);
    let n = checkpoints[at].1 * 1000;
    let moved = round_div(n, rate);
    law_rounding_is_to_nearest(n, rate);
    let after = wallclock(checkpoints, rate, ms as int);
    assert(after == clamp_u64(ms + moved));
    assert(after - ms >= moved ==> (after - ms) * rate >= moved * rate) by (nonlinear_arith)
        requires
            rate > 0,
    ;
    assert(after - ms <= moved ==> (after - ms) * rate <= moved * rate) by (nonlinear_arith)
        requires
            rate > 0,
    ;
}

/// A time that the provider reached before the first checkpoint is not moved.
pub proof fn law_early_times_are_not_moved(
    checkpoints: Seq<(u64, i64)>,
    sample_rate_hz: u32,
    ms: u64,
)
    requires
        sample_rate_hz > 0,
        forall|i: int|
            0 <= i < checkpoints.len() ==> (#[trigger] checkpoints[i]).0 * 1000 > ms
                * sample_rate_hz,
    ensures
        wallclock(checkpoints, sample_rate_hz as int, ms as int) == ms,
{
    let rate = sample_rate_hz as int;
    let p = ms * rate;
    assert(p >= 0) by (nonlinear_arith)
        requires
            p == ms * rate,
            rate > 0,
            ms >= 0,
    ;
    let position = samples_in(ms as int, rate);
    assert(position * 1000 <= p);
    law_no_correction_before_the_first_checkpoint(checkpoints, sample_rate_hz, ms);
}

/// What was recorded stays on record, but for a checkpoint at the very same position.
pub proof fn law_recording_adds_at_the_end(
    checkpoints: Seq<(u64, i64)>,
    position: u64,
    offset: i64,
)
    ensures
        recorded(checkpoints, position, offset).last() == (position, offset),
        forall|i: int|
            0 <= i < checkpoints.len() && !(i == checkpoints.len() - 1 && checkpoints[i].0
                == position) ==> i < recorded(checkpoints, position, offset).len() - 1 && recorded(
                checkpoints,
                position,
                offset,
            )[i] == #[trigger] checkpoints[i],
        recorded(checkpoints, position, offset).len() <= checkpoints.len() + 1,
{
}

} // verus!
