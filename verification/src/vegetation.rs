//! What the agents need to know of the vegetation: where things stand, and
//! which of them is nearest.

use crate::math::{nearest_index, nearest_point, Point};
use vstd::prelude::*;

verus! {

/// No tree grows where its squared distance to another would be less than
/// this: 2.8 world units, squared.
pub const MIN_DIST_BETWEEN_TREES_SQRD: u128 = 7_840_000_000_000;

/// The point nearest to `from` among `points`, if its squared distance is
/// less than `dist_sqrd`; the first such point where several are equally near.
pub open spec fn nearest_within(dist_sqrd: nat, points: Seq<Point>, from: Point) -> Option<Point> {
    match nearest_index(points, from) {
        Some(i) => if from.dist_sq(points[i]) < dist_sqrd {
            Some(points[i])
        } else {
            None
        },
        None => None,
    }
}

/// Finds the point nearest to `translation` among `transforms` whose squared
/// distance to it is less than `dist_sqrd`.
pub fn within_dist_sqrd_of_transforms(
    dist_sqrd: u128,
    transforms: &Vec<Point>,
    translation: &Point,
) -> (nearest: Option<Point>)
    ensures
        nearest == nearest_within(dist_sqrd as nat, transforms@, *translation),
        nearest matches Some(point) ==> transforms@.contains(point) && translation.dist_sq(point)
            < dist_sqrd,
        nearest is None ==> forall|i: int|
            0 <= i < transforms@.len() ==> translation.dist_sq(#[trigger] transforms@[i])
                >= dist_sqrd,
{
    match nearest_point(transforms, translation) {
        Some(i) => {
            let point: Point = transforms[i];
            if translation.distance_squared(&point) < dist_sqrd {
                Some(point)
            } else {
                None
            }
        },
        None => None,
    }
}

/// Whether `translation` is too close to one of `trees` for a tree to grow
/// there.
pub fn too_close_to_another_tree(trees: &Vec<Point>, translation: &Point) -> (too_close: bool)
    ensures
        too_close == exists|i: int|
            0 <= i < trees@.len() && translation.dist_sq(#[trigger] trees@[i])
                < MIN_DIST_BETWEEN_TREES_SQRD,
{
    match within_dist_sqrd_of_transforms(MIN_DIST_BETWEEN_TREES_SQRD, trees, translation) {
        Some(point) => {
            proof {
                let i = choose|i: int| 0 <= i < trees@.len() && trees@[i] == point;
                assert(translation.dist_sq(trees@[i]) < MIN_DIST_BETWEEN_TREES_SQRD);
            }
            true
        },
        None => false,
    }
}

/// A tree bears fruit from this age on: five days, in seconds.
pub const TREE_MATURITY_SECONDS: u64 = 432_000;

/// A tree dies once it is older than this many days.
pub const TREE_LIFESPAN_DAYS: u64 = 300;

/// A fruit rots once it is older than this many days.
pub const FRUIT_LIFESPAN_DAYS: u64 = 30;

/// The scale of a seedling, in millionths of the scale of a grown tree.
pub const SEEDLING_SCALE: u64 = 100_000;

/// The scale of a grown tree.
pub const GROWN_SCALE: u64 = 1_000_000;

/// The scale of a tree of `age_seconds`, in millionths: a tenth at first,
/// linear in the age from there, and full from maturity on.
pub open spec fn scale_at(age_seconds: nat) -> nat {
    if age_seconds >= TREE_MATURITY_SECONDS {
        GROWN_SCALE as nat
    } else {
        (SEEDLING_SCALE + 900_000 * age_seconds / (TREE_MATURITY_SECONDS as nat)) as nat
    }
}

/// The scale of a tree of `age_seconds`, in millionths.
pub fn tree_scale(age_seconds: u64) -> (scale: u64)
    ensures
        scale == scale_at(age_seconds as nat),
        SEEDLING_SCALE <= scale <= GROWN_SCALE,
{
    if age_seconds >= TREE_MATURITY_SECONDS {
        GROWN_SCALE
    } else {
        SEEDLING_SCALE + 900_000 * age_seconds / TREE_MATURITY_SECONDS
    }
}

/// Whether a tree of `age_seconds` is old enough to bear fruit.
pub fn tree_is_mature(age_seconds: u64) -> (mature: bool)
    ensures
        mature == (age_seconds >= TREE_MATURITY_SECONDS),
{
    age_seconds >= TREE_MATURITY_SECONDS
}

/// Whether a tree of `age_days` has outlived its span.
pub fn tree_has_died(age_days: u64) -> (dead: bool)
    ensures
        dead == (age_days > TREE_LIFESPAN_DAYS),
{
    age_days > TREE_LIFESPAN_DAYS
}

/// Whether a fruit of `age_days` has rotted.
pub fn fruit_has_decayed(age_days: u64) -> (decayed: bool)
    ensures
        decayed == (age_days > FRUIT_LIFESPAN_DAYS),
{
    age_days > FRUIT_LIFESPAN_DAYS
}

} // verus!
