use vstd::prelude::*;

verus! {

/// Highest experience level whose total points still fit in an `i32`.
pub const MAX_LEVEL: i32 = 21863;

/// Points needed to go from `level` to the next level.
pub open spec fn points_in_level(level: int) -> int {
    if level <= 15 {
        2 * level + 7
    } else if level <= 30 {
        5 * level - 38
    } else {
        9 * level - 158
    }
}

/// Total points needed to reach `level` from level 0.
pub open spec fn points_to_level(level: int) -> int {
    if level <= 16 {
        level * level + 6 * level
    } else if level <= 31 {
        (5 * level * level - 81 * level + 720) / 2
    } else {
        (9 * level * level - 325 * level + 4440) / 2
    }
}

/// The level a total of points reaches, and the points gathered toward the next one.
pub open spec fn level_and_points(total: int, level: int) -> bool {
    &&& 0 <= level <= MAX_LEVEL
    &&& points_to_level(level) <= total < points_to_level(level + 1)
}

proof fn lemma_half_shift(a: int, b: int)
    ensures
        (a + 2 * b) / 2 == a / 2 + b,
{
    vstd::arithmetic::div_mod::lemma_fundamental_div_mod(a, 2);
    vstd::arithmetic::div_mod::lemma_fundamental_div_mod_converse(a + 2 * b, 2, a / 2 + b, a % 2);
}

/// Each level costs its points: reaching `level + 1` takes the points to `level` plus those in it.
pub proof fn lemma_level_step(level: int)
    requires
        0 <= level,
    ensures
        points_to_level(level + 1) == points_to_level(level) + points_in_level(level),
{
    let l = level;
    if l <= 15 {
        assert((l + 1) * (l + 1) + 6 * (l + 1) == l * l + 6 * l + 2 * l + 7) by (nonlinear_arith);
    } else if l == 16 {
        assert(points_to_level(17) == 394) by {
            assert(5 * 17 * 17 - 81 * 17 + 720 == 788);
        }
    } else if l <= 30 {
        let a = 5 * l * l - 81 * l + 720;
        assert(5 * (l + 1) * (l + 1) - 81 * (l + 1) + 720 == (5 * l * l - 81 * l + 720) + 2 * (5
            * l - 38)) by (nonlinear_arith);
        lemma_half_shift(a, 5 * l - 38);
    } else if l == 31 {
        assert(5 * 31 * 31 - 81 * 31 + 720 == 3014);
        assert(9 * 32 * 32 - 325 * 32 + 4440 == 3256);
    } else {
        let a = 9 * l * l - 325 * l + 4440;
        assert(9 * (l + 1) * (l + 1) - 325 * (l + 1) + 4440 == (9 * l * l - 325 * l + 4440) + 2
            * (9 * l - 158)) by (nonlinear_arith);
        lemma_half_shift(a, 9 * l - 158);
    }
}

proof fn lemma_points_in_level_positive(level: int)
    requires
        0 <= level,
    ensures
        points_in_level(level) >= 7,
{
}

/// More levels take more points.
pub proof fn lemma_points_to_level_increases(a: int, b: int)
    requires
        0 <= a < b,
    ensures
        points_to_level(a) < points_to_level(b),
    decreases b - a,
{
    lemma_level_step(a);
    if a + 1 < b {
        lemma_points_to_level_increases(a + 1, b);
    }
}

proof fn lemma_points_to_level_nonneg(level: int)
    requires
        0 <= level,
    ensures
        points_to_level(level) >= 0,
{
    if level > 0 {
        lemma_points_to_level_increases(0, level);
    }
}

/// Points needed to go from `level` to the next level.
pub fn points_in_level_exec(level: i32) -> (r: i32)
    requires
        0 <= level <= MAX_LEVEL,
    ensures
        r == points_in_level(level as int),
        r >= 7,
{
    if level <= 15 {
        2 * level + 7
    } else if level <= 30 {
        5 * level - 38
    } else {
        9 * level - 158
    }
}

/// Total points needed to reach `level`, for levels up to one above `MAX_LEVEL`.
fn points_to_level_wide(level: i64) -> (r: i64)
    requires
        0 <= level <= MAX_LEVEL + 1,
    ensures
        r == points_to_level(level as int),
{
    assert(level * level <= 21864 * 21864) by (nonlinear_arith)
        requires
            0 <= level <= 21864,
    ;
    let sq = level * level;
    assert(5 * level * level == 5 * sq && 9 * level * level == 9 * sq) by (nonlinear_arith)
        requires
            sq == level * level,
    ;
    assert(5 * sq - 81 * level + 720 > 0 && 9 * sq - 325 * level + 4440 > 0) by (nonlinear_arith)
        requires
            sq == level * level,
    ;
    if level <= 16 {
        sq + 6 * level
    } else if level <= 31 {
        (5 * sq - 81 * level + 720) / 2
    } else {
        (9 * sq - 325 * level + 4440) / 2
    }
}

/// Total points needed to reach `level` from level 0.
pub fn points_to_level_exec(level: i32) -> (r: i32)
    requires
        0 <= level <= MAX_LEVEL,
    ensures
        r == points_to_level(level as int),
        r >= 0,
{
    proof {
        lemma_points_to_level_nonneg(level as int);
        if level < MAX_LEVEL {
            lemma_points_to_level_increases(level as int, MAX_LEVEL as int);
        }
        assert(points_to_level(MAX_LEVEL as int) == 2147407943) by {
            assert(9 * 21863 * 21863 - 325 * 21863 + 4440 == 4294815886);
        }
    }
    points_to_level_wide(level as i64) as i32
}

/// The level reached with `total_points`, and the points gathered toward the next level.
pub fn total_to_level_and_points(total_points: i32) -> (r: (i32, i32))
    requires
        0 <= total_points,
    ensures
        level_and_points(total_points as int, r.0 as int),
        r.1 == total_points - points_to_level(r.0 as int),
        0 <= r.1 < points_in_level(r.0 as int),
{
    proof {
        assert(points_to_level(MAX_LEVEL + 1) == 2147604552) by {
            assert(9 * 21864 * 21864 - 325 * 21864 + 4440 == 4295209104);
        }
    }
    // Binary search for the last level whose total is at most `total_points`.
    let mut lo: i64 = 0;
    let mut hi: i64 = MAX_LEVEL as i64 + 1;
    while lo + 1 < hi
        invariant
            0 <= lo < hi <= MAX_LEVEL + 1,
            points_to_level(lo as int) <= total_points,
            total_points < points_to_level(hi as int),
        decreases hi - lo,
    {
        let mid = lo + (hi - lo) / 2;
        if points_to_level_wide(mid) <= total_points as i64 {
            lo = mid;
        } else {
            hi = mid;
        }
    }
    proof {
        lemma_level_step(lo as int);
    }
    let level = lo as i32;
    let base = points_to_level_exec(level);
    (level, total_points - base)
}

/// Progress toward the next level as a fraction `(numerator, denominator)`: the points
/// gathered, clamped to `[0, points_in_level]`, over the points the level takes.
pub open spec fn progress_fraction(points: int, level: int) -> (int, int) {
    let max = points_in_level(level);
    (
        if points < 0 {
            0
        } else if points > max {
            max
        } else {
            points
        },
        max,
    )
}

/// Progress toward the next level, as a fraction `(numerator, denominator)`.
pub fn progress_in_level(points: i32, level: i32) -> (r: (i32, i32))
    requires
        0 <= level <= MAX_LEVEL,
    ensures
        (r.0 as int, r.1 as int) == progress_fraction(points as int, level as int),
{
    let max = points_in_level_exec(level);
    let clamped = if points < 0 {
        0
    } else if points > max {
        max
    } else {
        points
    };
    (clamped, max)
}

proof fn lemma_level_exists_from(total: int, low: int)
    requires
        0 <= low <= MAX_LEVEL,
        points_to_level(low) <= total,
        total < points_to_level(MAX_LEVEL + 1),
    ensures
        exists|level: int| level_and_points(total, level),
    decreases MAX_LEVEL - low,
{
    if total < points_to_level(low + 1) {
        assert(level_and_points(total, low));
    } else {
        lemma_level_exists_from(total, low + 1);
    }
}

/// Every points total from 0 to `i32::MAX` lies in exactly one level, and that level and the
/// points past its start add back up to the total, the points being fewer than the level takes.
pub proof fn lemma_total_round_trip(total: int)
    requires
        0 <= total <= i32::MAX,
    ensures
        exists|level: int| level_and_points(total, level),
        forall|a: int, b: int| level_and_points(total, a) && level_and_points(total, b) ==> a == b,
        forall|level: int|
            level_and_points(total, level) ==> points_to_level(level) + (total - points_to_level(
                level,
            )) == total && 0 <= total - points_to_level(level) < points_in_level(level),
{
    assert(points_to_level(MAX_LEVEL + 1) == 2147604552) by {
        assert(9 * 21864 * 21864 - 325 * 21864 + 4440 == 4295209104);
    }
    assert(points_to_level(0) == 0);
    lemma_level_exists_from(total, 0);
    assert forall|a: int, b: int| level_and_points(total, a) && level_and_points(total, b) implies a
        == b by {
        if a < b {
            if a + 1 < b {
                lemma_points_to_level_increases(a + 1, b);
            }
        } else if b < a {
            if b + 1 < a {
                lemma_points_to_level_increases(b + 1, a);
            }
        }
    }
    assert forall|level: int| level_and_points(total, level) implies points_to_level(level) + (total
        - points_to_level(level)) == total && 0 <= total - points_to_level(level) < points_in_level(
        level,
    ) by {
        lemma_level_step(level);
    }
}

/// For a level in range, progress lies between 0 and 1: its numerator is between zero and its
/// denominator, which is positive.
pub proof fn lemma_progress_in_unit_range(level: int, points: int)
    requires
        0 <= level <= MAX_LEVEL,
    ensures
        progress_fraction(points, level).1 > 0,
        0 <= progress_fraction(points, level).0 <= progress_fraction(points, level).1,
{
    lemma_points_in_level_positive(level);
}

} // verus!
