//! Integer geometry: points in millionths of a world unit, exact squared
//! distances, integer square roots, and capped movement along a line.

use vstd::prelude::*;

verus! {

/// One world unit, in the steps that coordinates are counted in.
pub const UNIT: i32 = 1_000_000;

/// The largest `r` whose square does not exceed `n`.
pub open spec fn floor_sqrt(n: nat) -> nat
    decreases n,
{
    if n == 0 {
        0
    } else {
        let r = floor_sqrt((n - 1) as nat);
        if (r + 1) * (r + 1) <= n {
            r + 1
        } else {
            r
        }
    }
}

/// `floor_sqrt(n)` squared does not exceed `n`, and the next square does.
pub proof fn lemma_floor_sqrt_bounds(n: nat)
    ensures
        floor_sqrt(n) * floor_sqrt(n) <= n,
        n < (floor_sqrt(n) + 1) * (floor_sqrt(n) + 1),
    decreases n,
{
    let s = floor_sqrt(n);
    if n == 0 {
        assert(s * s <= n && n < (s + 1) * (s + 1)) by (nonlinear_arith)
            requires
                s == 0,
                n == 0,
        ;
    } else {
        lemma_floor_sqrt_bounds((n - 1) as nat);
        let r = floor_sqrt((n - 1) as nat);
        if (r + 1) * (r + 1) <= n {
            assert(s * s <= n && n < (s + 1) * (s + 1)) by (nonlinear_arith)
                requires
                    s == r + 1,
                    (r + 1) * (r + 1) <= n,
                    n - 1 < (r + 1) * (r + 1),
            ;
        } else {
            assert(s * s <= n && n < (s + 1) * (s + 1)) by (nonlinear_arith)
                requires
                    s == r,
                    r * r <= n - 1,
                    n < (r + 1) * (r + 1),
            ;
        }
    }
}

/// The square root of a positive number is positive.
pub proof fn lemma_floor_sqrt_positive(n: nat)
    requires
        n > 0,
    ensures
        floor_sqrt(n) > 0,
{
    assert(1 * 1 <= n);
    lemma_floor_sqrt_is_largest(n, 1);
}

/// Only one number lies between the square roots of `n` and `n + 1`.
pub proof fn lemma_floor_sqrt_unique(n: nat, r: nat)
    requires
        r * r <= n,
        n < (r + 1) * (r + 1),
    ensures
        r == floor_sqrt(n),
{
    lemma_floor_sqrt_bounds(n);
    let s = floor_sqrt(n);
    if r < s {
        assert((r + 1) * (r + 1) <= s * s) by (nonlinear_arith)
            requires
                r + 1 <= s,
        ;
    } else if s < r {
        assert((s + 1) * (s + 1) <= r * r) by (nonlinear_arith)
            requires
                s + 1 <= r,
        ;
    }
}

/// A number whose square is at most `n` is at most `floor_sqrt(n)`.
pub proof fn lemma_floor_sqrt_is_largest(n: nat, k: nat)
    requires
        k * k <= n,
    ensures
        k <= floor_sqrt(n),
{
    lemma_floor_sqrt_bounds(n);
    let s = floor_sqrt(n);
    if s < k {
        assert((s + 1) * (s + 1) <= k * k) by (nonlinear_arith)
            requires
                s + 1 <= k,
        ;
    }
}

/// The integer square root, rounded down.
pub fn isqrt(n: u128) -> (root: u64)
    ensures
        root == floor_sqrt(n as nat),
{
    let mut lo: u128 = 0;
    let mut hi: u128 = 0x1_0000_0000_0000_0000;
    while hi - lo > 1
        invariant
            lo < hi <= 0x1_0000_0000_0000_0000,
            lo * lo <= n,
            n < hi * hi,
        decreases hi - lo,
    {
        let mid: u128 = lo + (hi - lo) / 2;
        assert(mid * mid <= 0xffff_ffff_ffff_ffff * 0xffff_ffff_ffff_ffff) by (nonlinear_arith)
            requires
                mid <= 0xffff_ffff_ffff_ffff,
        ;
        if mid * mid <= n {
            lo = mid;
        } else {
            hi = mid;
        }
    }
    proof {
        lemma_floor_sqrt_unique(n as nat, lo as nat);
    }
    lo as u64
}

/// The coordinate reached from `from` by going `step` parts in `len` of the
/// way to `to`, rounded toward `from`.
pub open spec fn toward(from: int, to: int, step: nat, len: nat) -> int {
    if to >= from {
        from + ((to - from) * step) / (len as int)
    } else {
        from - ((from - to) * step) / (len as int)
    }
}

/// With `step <= len` the coordinate reached lies between `from` and `to`, on
/// the side of `from`.
pub proof fn lemma_toward_between(from: int, to: int, step: nat, len: nat)
    requires
        0 < len,
        step <= len,
    ensures
        from <= to ==> from <= toward(from, to, step, len) <= to,
        to <= from ==> to <= toward(from, to, step, len) <= from,
{
    let gap: int = if to >= from {
        to - from
    } else {
        from - to
    };
    assert(0 <= (gap * step) / (len as int) <= gap) by (nonlinear_arith)
        requires
            0 <= gap,
            0 < len,
            step <= len,
    ;
}

/// A point of the world, or a displacement between two points, in millionths
/// of a world unit.
#[derive(Clone, Copy, PartialEq, Eq, Debug, Structural)]
pub struct Point {
    pub x: i32,
    pub y: i32,
    pub z: i32,
}

impl Point {
    pub fn new(x: i32, y: i32, z: i32) -> (point: Point)
        ensures
            point == (Point { x, y, z }),
    {
        Point { x, y, z }
    }

    /// The squared Euclidean distance to `other`.
    pub open spec fn dist_sq(self, other: Point) -> nat {
        ((self.x - other.x) * (self.x - other.x) + (self.y - other.y) * (self.y - other.y) + (
        self.z - other.z) * (self.z - other.z)) as nat
    }

    /// The squared distance to `other` in the horizontal plane.
    pub open spec fn planar_dist_sq(self, other: Point) -> nat {
        ((self.x - other.x) * (self.x - other.x) + (self.z - other.z) * (self.z - other.z)) as nat
    }

    /// Where `move_towards` ends: at `target` when it is within `max_step`,
    /// else on the way to it, each coordinate rounded toward the start.
    pub open spec fn moved_towards(self, target: Point, max_step: nat) -> Point {
        if self.dist_sq(target) <= max_step * max_step {
            target
        } else {
            let len = floor_sqrt(self.dist_sq(target));
            Point {
                x: toward(self.x as int, target.x as int, max_step, len) as i32,
                y: toward(self.y as int, target.y as int, max_step, len) as i32,
                z: toward(self.z as int, target.z as int, max_step, len) as i32,
            }
        }
    }

    /// The squared Euclidean distance to `other`, exact.
    pub fn distance_squared(&self, other: &Point) -> (d: u128)
        ensures
            d == self.dist_sq(*other),
    {
        let dx: u128 = gap(self.x, other.x) as u128;
        let dy: u128 = gap(self.y, other.y) as u128;
        let dz: u128 = gap(self.z, other.z) as u128;
        proof {
            lemma_square_of_gap(self.x as int, other.x as int);
            lemma_square_of_gap(self.y as int, other.y as int);
            lemma_square_of_gap(self.z as int, other.z as int);
        }
        dx * dx + dy * dy + dz * dz
    }

    /// Moves toward `target` by at most `max_step`, never past it.
    pub fn move_towards(&self, target: &Point, max_step: u64) -> (reached: Point)
        ensures
            reached == self.moved_towards(*target, max_step as nat),
            reached.dist_sq(*target) <= self.dist_sq(*target),
    {
        let d2: u128 = self.distance_squared(target);
        assert(max_step * max_step <= 0xffff_ffff_ffff_ffff * 0xffff_ffff_ffff_ffff)
            by (nonlinear_arith)
            requires
                max_step <= 0xffff_ffff_ffff_ffff,
        ;
        let reach: u128 = (max_step as u128) * (max_step as u128);
        if d2 <= reach {
            return *target;
        }
        let len: u64 = isqrt(d2);
        proof {
            lemma_floor_sqrt_is_largest(d2 as nat, max_step as nat);
            lemma_floor_sqrt_positive(d2 as nat);
            lemma_step_shortens(*self, *target, max_step as nat);
        }
        Point {
            x: step_toward(self.x, target.x, max_step, len),
            y: step_toward(self.y, target.y, max_step, len),
            z: step_toward(self.z, target.z, max_step, len),
        }
    }
}

/// The distance between two coordinates.
pub open spec fn spec_gap(a: int, b: int) -> nat {
    if a >= b {
        (a - b) as nat
    } else {
        (b - a) as nat
    }
}

/// The distance between two coordinates.
pub(crate) fn gap(a: i32, b: i32) -> (g: u64)
    ensures
        g == spec_gap(a as int, b as int),
        g <= 0xffff_ffff,
{
    if a >= b {
        (a as i64 - b as i64) as u64
    } else {
        (b as i64 - a as i64) as u64
    }
}

/// The square of a difference is the square of the distance, and two `i32`
/// coordinates are never so far apart that it leaves 64 bits.
pub proof fn lemma_square_of_gap(a: int, b: int)
    requires
        i32::MIN <= a <= i32::MAX,
        i32::MIN <= b <= i32::MAX,
    ensures
        spec_gap(a, b) * spec_gap(a, b) == (a - b) * (a - b),
        spec_gap(a, b) * spec_gap(a, b) <= 0xffff_ffff * 0xffff_ffff,
{
    let g = spec_gap(a, b) as int;
    assert(g * g == (a - b) * (a - b)) by (nonlinear_arith)
        requires
            g == a - b || g == b - a,
    ;
    assert(g * g <= 0xffff_ffff * 0xffff_ffff) by (nonlinear_arith)
        requires
            0 <= g <= 0xffff_ffff,
    ;
}

/// One coordinate of `move_towards`.
fn step_toward(from: i32, to: i32, step: u64, len: u64) -> (reached: i32)
    requires
        0 < len,
        step <= len,
    ensures
        reached == toward(from as int, to as int, step as nat, len as nat),
{
    let g: u64 = gap(from, to);
    assert(g * step <= 0xffff_ffff * 0xffff_ffff_ffff_ffff) by (nonlinear_arith)
        requires
            g <= 0xffff_ffff,
            step <= 0xffff_ffff_ffff_ffff,
    ;
    let moved: u128 = (g as u128) * (step as u128) / (len as u128);
    proof {
        lemma_toward_between(from as int, to as int, step as nat, len as nat);
    }
    if to >= from {
        (from as i64 + moved as i64) as i32
    } else {
        (from as i64 - moved as i64) as i32
    }
}

/// A step of `move_towards` that does not reach the target still ends no
/// farther from it.
pub proof fn lemma_step_shortens(from: Point, target: Point, max_step: nat)
    requires
        from.dist_sq(target) > max_step * max_step,
    ensures
        from.moved_towards(target, max_step).dist_sq(target) <= from.dist_sq(target),
{
    let d2 = from.dist_sq(target);
    let len = floor_sqrt(d2);
    lemma_floor_sqrt_is_largest(d2, max_step);
    lemma_floor_sqrt_positive(d2);
    let r = from.moved_towards(target, max_step);
    lemma_toward_between(from.x as int, target.x as int, max_step, len);
    lemma_toward_between(from.y as int, target.y as int, max_step, len);
    lemma_toward_between(from.z as int, target.z as int, max_step, len);
    lemma_closer_coordinate(from.x as int, r.x as int, target.x as int);
    lemma_closer_coordinate(from.y as int, r.y as int, target.y as int);
    lemma_closer_coordinate(from.z as int, r.z as int, target.z as int);
    assert(r.x == toward(from.x as int, target.x as int, max_step, len));
    assert(r.y == toward(from.y as int, target.y as int, max_step, len));
    assert(r.z == toward(from.z as int, target.z as int, max_step, len));
}

/// A coordinate between `from` and `to` is no farther from `to` than `from` is.
pub proof fn lemma_closer_coordinate(from: int, mid: int, to: int)
    requires
        from <= mid <= to || to <= mid <= from,
    ensures
        0 <= (mid - to) * (mid - to) <= (from - to) * (from - to),
{
    assert(0 <= (mid - to) * (mid - to) <= (from - to) * (from - to)) by (nonlinear_arith)
        requires
            from <= mid <= to || to <= mid <= from,
    ;
}

/// Whether `points[i]` is the point nearest to `from`: no point is nearer,
/// and every point before it is farther.
pub open spec fn is_nearest(points: Seq<Point>, from: Point, i: int) -> bool {
    &&& 0 <= i < points.len()
    &&& forall|j: int| 0 <= j < points.len() ==> from.dist_sq(points[i]) <= from.dist_sq(#[trigger] points[j])
    &&& forall|j: int| 0 <= j < i ==> from.dist_sq(points[i]) < from.dist_sq(#[trigger] points[j])
}

/// The index of the point nearest to `from`, the first of them where several
/// are equally near; `None` where there is no point.
pub open spec fn nearest_index(points: Seq<Point>, from: Point) -> Option<int> {
    if exists|i: int| is_nearest(points, from, i) {
        Some(choose|i: int| is_nearest(points, from, i))
    } else {
        None
    }
}

/// Only one index is that of the nearest point.
pub proof fn lemma_nearest_unique(points: Seq<Point>, from: Point, i: int, j: int)
    requires
        is_nearest(points, from, i),
        is_nearest(points, from, j),
    ensures
        i == j,
{
    if i < j {
        assert(from.dist_sq(points[j]) < from.dist_sq(points[i]));
        assert(from.dist_sq(points[i]) <= from.dist_sq(points[j]));
    } else if j < i {
        assert(from.dist_sq(points[i]) < from.dist_sq(points[j]));
        assert(from.dist_sq(points[j]) <= from.dist_sq(points[i]));
    }
}

/// An index that meets `is_nearest` is the one that `nearest_index` names.
pub proof fn lemma_nearest_is(points: Seq<Point>, from: Point, i: int)
    requires
        is_nearest(points, from, i),
    ensures
        nearest_index(points, from) == Some(i),
{
    let k = choose|k: int| is_nearest(points, from, k);
    lemma_nearest_unique(points, from, i, k);
}

/// Finds the point nearest to `from`, the first of them where several are
/// equally near.
pub fn nearest_point(points: &Vec<Point>, from: &Point) -> (found: Option<usize>)
    ensures
        match found {
            Some(i) => is_nearest(points@, *from, i as int),
            None => points@.len() == 0,
        },
        nearest_index(points@, *from) == match found {
            Some(i) => Some(i as int),
            None => None::<int>,
        },
{
    let mut best: Option<usize> = None;
    let mut best_dist: u128 = 0;
    let mut i: usize = 0;
    while i < points.len()
        invariant
            i <= points@.len(),
            match best {
                Some(b) => {
                    &&& b < i
                    &&& best_dist == from.dist_sq(points@[b as int])
                    &&& forall|j: int| 0 <= j < i ==> best_dist <= from.dist_sq(#[trigger] points@[j])
                    &&& forall|j: int| 0 <= j < b ==> best_dist < from.dist_sq(#[trigger] points@[j])
                },
                None => i == 0,
            },
        decreases points@.len() - i,
    {
        let dist: u128 = from.distance_squared(&points[i]);
        let nearer: bool = match best {
            Some(_) => dist < best_dist,
            None => true,
        };
        if nearer {
            best = Some(i);
            best_dist = dist;
        }
        i = i + 1;
    }
    proof {
        match best {
            Some(b) => {
                lemma_nearest_is(points@, *from, b as int);
            },
            None => {},
        }
    }
    best
}

} // verus!
