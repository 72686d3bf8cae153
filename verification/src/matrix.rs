//! The view matrix: the transform from world space into the space of an
//! observer at a given eye point, looking at a given target.

use vstd::prelude::*;
use crate::basis::{right_of, up_of};
use crate::fixed::{narrow, saturate, trunc_div, Fixed, SCALE};
use crate::vector::{dot, unit, unit_of, within_unit_cube, Int3, Vec3};

verus! {

/// A matrix of four rows and four columns; `m[i][j]` is the entry in row `i`
/// and column `j`.
#[derive(Clone, Copy, Debug, PartialEq, Eq)]
pub struct Mat4 {
    pub m: [[Fixed; 4]; 4],
}

impl View for Mat4 {
    type V = Seq<Seq<int>>;

    /// The rows of the matrix, each the sequence of its raw entries.
    open spec fn view(&self) -> Seq<Seq<int>> {
        Seq::new(4, |i: int| Seq::new(4, |j: int| self.m[i][j].raw as int))
    }
}

/// The difference `center - eye`, exactly.
pub open spec fn direction(eye: Int3, center: Int3) -> Int3 {
    Int3 { x: center.x - eye.x, y: center.y - eye.y, z: center.z - eye.z }
}

/// How far `eye` lies along `axis`: their dot product as a fixed-point
/// number, rounded towards zero.
pub open spec fn extent_along(axis: Int3, eye: Int3) -> int {
    trunc_div(dot(axis, eye), SCALE as int)
}

/// The view matrix of an observer at `eye` who looks at `center`, with `up`
/// giving the vertical.
///
/// With `f` the unit vector from `eye` to `center`, `s` the unit vector to
/// the right of it and `u` the unit vector at right angles to both, the
/// first three rows are `s`, `u` and `-f`, each followed by the extent of
/// `eye` along it, negated; the last row is `(0, 0, 0, 1)`. The matrix
/// takes `eye` to the origin and `f` to the negative Z axis.
pub open spec fn view_matrix(eye: Int3, center: Int3, up: Int3) -> Seq<Seq<int>> {
    let f = unit(direction(eye, center));
    let s = right_of(f, up);
    let u = up_of(s, f);
    seq![
        seq![s.x, s.y, s.z, saturate(-extent_along(s, eye))],
        seq![u.x, u.y, u.z, saturate(-extent_along(u, eye))],
        seq![-f.x, -f.y, -f.z, saturate(extent_along(f, eye))],
        seq![0, 0, 0, SCALE as int],
    ]
}

/// The product of a component of a vector within the unit cube and a 64-bit
/// number fits in 94 bits.
proof fn lemma_extent_term(a: int, e: int)
    by (nonlinear_arith)
    requires
        -SCALE <= a <= SCALE,
        -0x8000_0000_0000_0000 <= e <= 0x8000_0000_0000_0000,
    ensures
        -0x2000_0000_0000_0000_0000_0000 <= a * e <= 0x2000_0000_0000_0000_0000_0000,
{
}

/// The extent of `eye` along `axis`, before saturation.
fn extent(axis: Vec3, eye: Vec3) -> (r: i128)
    requires
        within_unit_cube(axis@),
    ensures
        r == extent_along(axis@, eye@),
        -0x2_0000_0000_0000_0000 <= r <= 0x2_0000_0000_0000_0000,
{
    proof {
        lemma_extent_term(axis.x.raw as int, eye.x.raw as int);
        lemma_extent_term(axis.y.raw as int, eye.y.raw as int);
        lemma_extent_term(axis.z.raw as int, eye.z.raw as int);
    }
    let x: i128 = (axis.x.raw as i128) * (eye.x.raw as i128);
    let y: i128 = (axis.y.raw as i128) * (eye.y.raw as i128);
    let z: i128 = (axis.z.raw as i128) * (eye.z.raw as i128);
    (x + y + z) / (SCALE as i128)
}

/// The view matrix of an observer at `eye` who looks at `center`, with `up`
/// giving the vertical. The target must lie within the range of a 64-bit
/// number of the eye, component by component.
pub fn look_at(eye: Vec3, center: Vec3, up: Vec3) -> (r: Mat4)
    requires
        -0x8000_0000_0000_0000 <= center@.x - eye@.x <= 0x8000_0000_0000_0000,
        -0x8000_0000_0000_0000 <= center@.y - eye@.y <= 0x8000_0000_0000_0000,
        -0x8000_0000_0000_0000 <= center@.z - eye@.z <= 0x8000_0000_0000_0000,
    ensures
        r@ == view_matrix(eye@, center@, up@),
{
    let f = unit_of(
        center.x.raw as i128 - eye.x.raw as i128,
        center.y.raw as i128 - eye.y.raw as i128,
        center.z.raw as i128 - eye.z.raw as i128,
    );
    let level = up.normalize();
    let s = f.unit_cross(level);
    let u = s.unit_cross(f);
    let zero = Fixed { raw: 0 };
    let r = Mat4 {
        m: [
            [s.x, s.y, s.z, Fixed { raw: narrow(-extent(s, eye)) }],
            [u.x, u.y, u.z, Fixed { raw: narrow(-extent(u, eye)) }],
            [
                Fixed { raw: -f.x.raw },
                Fixed { raw: -f.y.raw },
                Fixed { raw: -f.z.raw },
                Fixed { raw: narrow(extent(f, eye)) },
            ],
            [zero, zero, zero, Fixed { raw: SCALE }],
        ],
    };
    proof {
        let model = view_matrix(eye@, center@, up@);
        assert(r@.len() == 4 && model.len() == 4);
        assert forall|i: int| 0 <= i < 4 implies #[trigger] r@[i] =~= model[i] by {
            assert(r@[i].len() == 4);
        }
        assert(r@ =~= model);
    }
    r
}

} // verus!
