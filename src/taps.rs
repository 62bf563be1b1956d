use vstd::prelude::*;

verus! {

/// How the value between two oversampled taps is found.
#[derive(Debug, Clone, Copy, PartialEq, Eq, Structural)]
pub enum SincInterpolationType {
    /// A cubic polynomial through the four nearest taps.
    Cubic,
    /// A quadratic polynomial through the three nearest taps.
    Quadratic,
    /// A straight line between the two nearest taps.
    Linear,
    /// The nearest tap itself.
    Nearest,
}

/// How many oversampled taps an interpolation reads per output frame.
pub open spec fn spec_tap_count(interpolation: SincInterpolationType) -> nat {
    match interpolation {
        SincInterpolationType::Cubic => 4,
        SincInterpolationType::Quadratic => 3,
        SincInterpolationType::Linear => 2,
        SincInterpolationType::Nearest => 1,
    }
}

/// Where the taps start, relative to the grid position below the read cursor.
pub open spec fn first_tap_offset(interpolation: SincInterpolationType) -> int {
    match interpolation {
        SincInterpolationType::Cubic => -1,
        _ => 0,
    }
}

/// The sample offset and the sub-filter index of grid position `q` on a grid
/// with `oversampling_factor` positions per input frame, with floor division
/// and a remainder that is never negative.
pub open spec fn spec_grid_tap(q: int, oversampling_factor: nat) -> (int, int) {
    (q / (oversampling_factor as int), q % (oversampling_factor as int))
}

/// The number of taps that `interpolation` reads per output frame.
pub fn tap_count(interpolation: SincInterpolationType) -> (r: usize)
    ensures
        r == spec_tap_count(interpolation),
{
    match interpolation {
        SincInterpolationType::Cubic => 4,
        SincInterpolationType::Quadratic => 3,
        SincInterpolationType::Linear => 2,
        SincInterpolationType::Nearest => 1,
    }
}

/// Splits grid position `q` into a sample offset and a sub-filter index.
pub fn grid_tap(q: i64, oversampling_factor: usize) -> (r: (i64, usize))
    requires
        0 < oversampling_factor <= i64::MAX,
    ensures
        r.0 as int == spec_grid_tap(q as int, oversampling_factor as nat).0,
        r.1 as int == spec_grid_tap(q as int, oversampling_factor as nat).1,
        r.1 < oversampling_factor,
{
    let o = oversampling_factor as i64;
    proof {
        lemma_div_in_range(q as int, o as int);
    }
    let offset = match q.checked_div_euclid(o) {
        Some(d) => d,
        None => 0,
    };
    let sub = match q.checked_rem_euclid(o) {
        Some(m) => m as usize,
        None => 0,
    };
    (offset, sub)
}

/// Floor division of an `i64` by a positive divisor stays in range.
proof fn lemma_div_in_range(q: int, o: int)
    requires
        i64::MIN <= q <= i64::MAX,
        0 < o,
    ensures
        i64::MIN <= q / o <= i64::MAX,
        0 <= q % o < o,
{
    vstd::arithmetic::div_mod::lemma_fundamental_div_mod(q, o);
    if q >= 0 {
        vstd::arithmetic::div_mod::lemma_div_pos_is_pos(q, o);
        vstd::arithmetic::div_mod::lemma_div_is_ordered_by_denominator(q, 1, o);
    } else {
        vstd::arithmetic::div_mod::lemma_div_is_ordered_by_denominator(-q, 1, o);
        assert(q / o >= q) by (nonlinear_arith)
            requires q < 0, o > 0, q == o * (q / o) + q % o, 0 <= q % o < o;
        assert(q / o < 0) by (nonlinear_arith)
            requires q < 0, o > 0, q == o * (q / o) + q % o, 0 <= q % o < o;
    }
}

/// Fills `taps` with the oversampled taps that `interpolation` reads around
/// grid position `grid_pos` (the floor of the read cursor times the
/// oversampling factor), and returns how many it wrote. Entries past that
/// count are left as they were.
pub fn nearest_taps(
    interpolation: SincInterpolationType,
    grid_pos: i64,
    oversampling_factor: usize,
    taps: &mut [(i64, usize); 4],
) -> (count: usize)
    requires
        0 < oversampling_factor <= i64::MAX,
        i64::MIN < grid_pos,
        grid_pos + 2 <= i64::MAX,
    ensures
        count == spec_tap_count(interpolation),
        forall|j: int|
            0 <= j < count ==> {
                let t = spec_grid_tap(grid_pos + first_tap_offset(interpolation) + j, oversampling_factor as nat);
                &&& (#[trigger] final(taps)@[j]).0 as int == t.0
                &&& final(taps)@[j].1 as int == t.1
            },
        forall|j: int| count <= j < 4 ==> #[trigger] final(taps)@[j] == old(taps)@[j],
{
    let count = tap_count(interpolation);
    let first: i64 = match interpolation {
        SincInterpolationType::Cubic => grid_pos - 1,
        _ => grid_pos,
    };
    let ghost start = old(taps)@;
    let mut j: usize = 0;
    while j < count
        invariant
            count == spec_tap_count(interpolation) <= 4,
            first == grid_pos + first_tap_offset(interpolation),
            0 < oversampling_factor <= i64::MAX,
            i64::MIN < grid_pos,
            grid_pos + 2 <= i64::MAX,
            j <= count,
            taps@.len() == 4,
            forall|k: int|
                0 <= k < j ==> {
                    let t = spec_grid_tap(first + k, oversampling_factor as nat);
                    &&& (#[trigger] taps@[k]).0 as int == t.0
                    &&& taps@[k].1 as int == t.1
                },
            forall|k: int| j <= k < 4 ==> #[trigger] taps@[k] == start[k],
        decreases count - j,
    {
        taps[j] = grid_tap(first + j as i64, oversampling_factor);
        j = j + 1;
    }
    count
}

/// The filter length actually used for a requested `sinc_len`: the smallest
/// multiple of 8 that is not below it.
pub fn round_sinc_len(sinc_len: usize) -> (r: usize)
    requires
        sinc_len + 7 <= usize::MAX,
    ensures
        r % 8 == 0,
        sinc_len <= r < sinc_len + 8,
{
    let r = (sinc_len + 7) / 8 * 8;
    assert(r % 8 == 0 && sinc_len <= r < sinc_len + 8) by (nonlinear_arith)
        requires r == (sinc_len + 7) / 8 * 8;
    r
}

} // verus!
