//! Randomness for scattering tiles and shuffling levels.
//!
//! The only trusted item is the draw itself; mapping the raw draw into a
//! range is ordinary verified arithmetic.  Nothing can be promised of a
//! random value, so the contracts here promise only what holds of every
//! outcome: the results lie in the requested ranges.

use vstd::prelude::*;

verus! {

/// Relies on rand::random: one value drawn from the thread-local
/// generator.  No clause: nothing holds of every draw.
pub assume_specification<T>[ rand::random::<T> ]() -> (r: T)
    where
        rand::distributions::Standard: rand::distributions::Distribution<T>,
;

/// Draws a position in `lo..hi` from the thread-local generator.
pub fn random_in_range(lo: i64, hi: i64) -> (r: i64)
    requires
        lo < hi,
        -1_000_000_000 <= lo,
        hi <= 1_000_000_000,
    ensures
        lo <= r < hi,
{
    let raw: u64 = rand::random();
    let span = (hi - lo) as u64;
    let offset = (raw % span) as i64;
    lo + offset
}

/// Draws `n` scatter positions, each with its abscissa in `x_lo..x_hi` and
/// its ordinate in `y_lo..y_hi`.
pub fn random_positions(
    n: usize,
    x_lo: i64,
    x_hi: i64,
    y_lo: i64,
    y_hi: i64,
) -> (positions: Vec<(i64, i64)>)
    requires
        x_lo < x_hi,
        y_lo < y_hi,
        -1_000_000_000 <= x_lo,
        x_hi <= 1_000_000_000,
        -1_000_000_000 <= y_lo,
        y_hi <= 1_000_000_000,
    ensures
        positions@.len() == n,
        forall|i: int| 0 <= i < n ==> x_lo <= (#[trigger] positions@[i]).0 < x_hi
            && y_lo <= positions@[i].1 < y_hi,
{
    let mut positions: Vec<(i64, i64)> = Vec::new();
    let mut i: usize = 0;
    while i < n
        invariant
            i <= n,
            positions@.len() == i,
            x_lo < x_hi,
            y_lo < y_hi,
            -1_000_000_000 <= x_lo,
            x_hi <= 1_000_000_000,
            -1_000_000_000 <= y_lo,
            y_hi <= 1_000_000_000,
            forall|k: int| 0 <= k < i ==> x_lo <= (#[trigger] positions@[k]).0 < x_hi
                && y_lo <= positions@[k].1 < y_hi,
        decreases n - i,
    {
        let x = random_in_range(x_lo, x_hi);
        let y = random_in_range(y_lo, y_hi);
        positions.push((x, y));
        i = i + 1;
    }
    positions
}

} // verus!
