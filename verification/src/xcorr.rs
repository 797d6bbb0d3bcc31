//! Where to measure the lag between two tracks: the stretch around a point that is cut
//! out of both before they are correlated.

use vstd::prelude::*;

verus! {

/// The stretch to cut out of two tracks: `start..end_a` and `start..end_b`.
#[derive(Debug, Clone, Copy, PartialEq, Eq, Structural)]
pub struct LagWindow {
    pub start: usize,
    pub end_a: usize,
    pub end_b: usize,
}

/// The magnitude of a lag.
pub open spec fn magnitude(lag: i64) -> int {
    if lag >= 0 {
        lag as int
    } else {
        -(lag as int)
    }
}

/// A stretch that ends `radius` after `center`, cut off at the end of a track.
pub open spec fn stretch_end(center: int, radius: int, len: int) -> int {
    if center + radius <= len {
        center + radius
    } else {
        len
    }
}

/// Whether a sample lies within the radius of a point, with room for a lag either way.
pub open spec fn is_near(sample: int, center: int, window_radius: int, max_lag: int) -> bool {
    if max_lag >= 0 {
        center - window_radius - max_lag <= sample < center + window_radius + max_lag
    } else {
        center - window_radius + max_lag <= sample < center + window_radius - max_lag
    }
}

/// The stretch of both tracks within `window_radius + |max_lag|` of `center_sample`.
///
/// Both stretches span the same absolute range. Stretches of different size would leave
/// very few overlapping samples for lags near the window's radius, and a handful of
/// samples can correlate by coincidence.
pub fn lag_window(
    len_a: usize,
    len_b: usize,
    center_sample: usize,
    window_radius: usize,
    max_lag: i64,
) -> (window: Option<LagWindow>)
    requires
        center_sample + window_radius + magnitude(max_lag) <= usize::MAX,
    ensures
        // A sample belongs to the stretch exactly if it lies within the radius of the
        // center, before the center or after it, whichever track it is of.
        window matches Some(window) ==> forall|k: int|
            #![trigger is_near(k, center_sample as int, window_radius as int, max_lag as int)]
            {
                let near = is_near(k, center_sample as int, window_radius as int, max_lag as int);
                &&& window.start <= k < window.end_a <==> 0 <= k < len_a && near
                &&& window.start <= k < window.end_b <==> 0 <= k < len_b && near
            },
        // There is none only where one of the tracks has no such sample.
        window is None ==> (forall|k: int|
            0 <= k < len_a ==> !#[trigger] is_near(
                k,
                center_sample as int,
                window_radius as int,
                max_lag as int,
            )) || (forall|k: int|
            0 <= k < len_b ==> !#[trigger] is_near(
                k,
                center_sample as int,
                window_radius as int,
                max_lag as int,
            )),
        ({
            let radius = window_radius + magnitude(max_lag);
            let start = if center_sample >= radius {
                center_sample - radius
            } else {
                0
            };
            let end_a = stretch_end(center_sample as int, radius, len_a as int);
            let end_b = stretch_end(center_sample as int, radius, len_b as int);
            match window {
                Some(window) => start < end_a && start < end_b && window.start == start
                    && window.end_a == end_a && window.end_b == end_b,
                None => start >= end_a || start >= end_b,
            }
        }),
{
    let lag: usize = if max_lag >= 0 {
        max_lag as usize
    } else {
        (-(max_lag as i128)) as usize
    };
    let radius: usize = window_radius + lag;
    let start: usize = center_sample.saturating_sub(radius);
    let reach: usize = center_sample + radius;
    let end_a: usize = if reach <= len_a {
        reach
    } else {
        len_a
    };
    let end_b: usize = if reach <= len_b {
        reach
    } else {
        len_b
    };
    if start >= end_a || start >= end_b {
        None
    } else {
        Some(LagWindow { start, end_a, end_b })
    }
}

/// A stretch goes on for its radius after the center, as far as the track goes, and a lag
/// counts by how far off it is, whichever way.
pub proof fn law_a_stretch_ends_with_its_track(
    center: int,
    radius: int,
    len: int,
    sample: int,
    lag: i64,
)
    requires
        center <= sample,
    ensures
        sample < stretch_end(center, radius, len) <==> sample - center < radius && sample < len,
        magnitude(lag) >= 0,
        magnitude(lag) == lag || magnitude(lag) + lag == 0,
{
}

} // verus!
