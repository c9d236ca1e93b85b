//! The choices that intersection tests make: which coordinates an
//! axis-aligned rectangle constrains, and which of the two points where a ray
//! crosses a sphere counts as the hit.
//!
//! Coordinates are numbered `0` for x, `1` for y and `2` for z.

use vstd::prelude::*;

verus! {

/// The pair of coordinate axes that an axis-aligned rectangle spans.
#[derive(Debug, Clone, Copy, PartialEq, Eq, Structural)]
pub enum Axis {
    XY,
    XZ,
    YZ,
}

impl Axis {
    /// The coordinate along which the rectangle has no extent: the one that
    /// its plane holds at a fixed depth, and along which its normal points.
    pub open spec fn normal_of(self) -> usize {
        match self {
            Axis::XY => 2,
            Axis::XZ => 1,
            Axis::YZ => 0,
        }
    }

    /// The two coordinates that the rectangle bounds, in the order in which
    /// its bounds are given.
    pub open spec fn plane_of(self) -> (usize, usize) {
        match self {
            Axis::XY => (0, 1),
            Axis::XZ => (0, 2),
            Axis::YZ => (1, 2),
        }
    }

    /// The coordinate held fixed by the rectangle's plane.
    pub fn normal(&self) -> (k: usize)
        ensures
            k == self.normal_of(),
            k < 3,
    {
        match self {
            Axis::XY => 2,
            Axis::XZ => 1,
            Axis::YZ => 0,
        }
    }

    /// The two coordinates bounded by the rectangle, first bound first.
    pub fn plane(&self) -> (uv: (usize, usize))
        ensures
            uv == self.plane_of(),
            uv.0 < uv.1 < 3,
            uv.0 != self.normal_of(),
            uv.1 != self.normal_of(),
    {
        match self {
            Axis::XY => (0, 1),
            Axis::XZ => (0, 2),
            Axis::YZ => (1, 2),
        }
    }
}

/// The fixed coordinate and the two bounded ones are the three coordinates of
/// space, each exactly once, and a rectangle's axes are told apart by the
/// coordinate they fix.
pub proof fn lemma_axis_partition(a: Axis, b: Axis)
    ensures
        a.plane_of().0 + a.plane_of().1 + a.normal_of() == 3,
        a.plane_of().0 < a.plane_of().1 < 3,
        a.plane_of().0 != a.normal_of() && a.plane_of().1 != a.normal_of(),
        a.normal_of() == b.normal_of() ==> a == b,
{
}

/// One of the two points where a ray crosses a sphere.
#[derive(Debug, Clone, Copy, PartialEq, Eq, Structural)]
pub enum Root {
    /// The one with the smaller parameter.
    Near,
    /// The one with the larger parameter.
    Far,
}

/// The crossing that counts as the hit. There is none if the ray passes the
/// sphere by, which is what `passes` says. Else the near crossing is the hit
/// unless it lies outside the interval asked for; then the far one is, unless
/// it lies outside too.
pub open spec fn root_of(passes: bool, near_outside: bool, far_outside: bool) -> Option<Root> {
    if passes {
        None
    } else if !near_outside {
        Some(Root::Near)
    } else if !far_outside {
        Some(Root::Far)
    } else {
        None
    }
}

/// Chooses the crossing that counts as the hit of a ray with a sphere.
pub fn choose_root(passes: bool, near_outside: bool, far_outside: bool) -> (root: Option<Root>)
    ensures
        root == root_of(passes, near_outside, far_outside),
{
    if passes {
        None
    } else if !near_outside {
        Some(Root::Near)
    } else if !far_outside {
        Some(Root::Far)
    } else {
        None
    }
}

/// A sphere is hit exactly if the ray does not pass it by and one of the two
/// crossings lies inside the interval; the far crossing is the hit only if the
/// near one lies outside.
pub proof fn lemma_near_root_first(passes: bool, near_outside: bool, far_outside: bool)
    ensures
        root_of(passes, near_outside, far_outside) is Some <==> !passes && !(near_outside
            && far_outside),
        root_of(passes, near_outside, far_outside) == Some(Root::Far) ==> near_outside,
        !passes && !near_outside ==> root_of(passes, near_outside, far_outside) == Some(
            Root::Near,
        ),
{
}

} // verus!
