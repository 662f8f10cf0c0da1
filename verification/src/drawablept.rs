//! A point wrapper for handing coordinates to a renderer, with snapping to
//! the whole-meter lattice to avoid rendering artifacts.

use crate::geom::{div_floor_pos, Point, SUBUNITS};
use vstd::prelude::*;

verus! {

/// A level point destined for drawing.
#[derive(PartialEq, Eq, Structural, Debug, Clone, Copy, Hash)]
pub struct DrawablePt(pub Point);

impl DrawablePt {
    /// Rounds the coordinates up to whole meters, so that a renderer
    /// consuming them lands on pixel-aligned positions.
    pub fn snap(&self) -> (r: DrawablePt)
        requires
            -1_000_000_000 <= self.0.x <= 1_000_000_000,
            -1_000_000_000 <= self.0.y <= 1_000_000_000,
        ensures
            r.0.x == (self.0.x + SUBUNITS - 1) as int / (SUBUNITS as int) * SUBUNITS,
            r.0.y == (self.0.y + SUBUNITS - 1) as int / (SUBUNITS as int) * SUBUNITS,
            r.0.x as int % (SUBUNITS as int) == 0,
            r.0.y as int % (SUBUNITS as int) == 0,
            self.0.x <= r.0.x < self.0.x + SUBUNITS,
            self.0.y <= r.0.y < self.0.y + SUBUNITS,
    {
        let qx: i64 = div_floor_pos(self.0.x + SUBUNITS - 1, SUBUNITS);
        let qy: i64 = div_floor_pos(self.0.y + SUBUNITS - 1, SUBUNITS);
        proof {
            vstd::arithmetic::div_mod::lemma_fundamental_div_mod(
                self.0.x + SUBUNITS - 1,
                SUBUNITS as int,
            );
            vstd::arithmetic::div_mod::lemma_mod_division_less_than_divisor(
                self.0.x + SUBUNITS - 1,
                SUBUNITS as int,
            );
            vstd::arithmetic::div_mod::lemma_fundamental_div_mod(
                self.0.y + SUBUNITS - 1,
                SUBUNITS as int,
            );
            vstd::arithmetic::div_mod::lemma_mod_division_less_than_divisor(
                self.0.y + SUBUNITS - 1,
                SUBUNITS as int,
            );
            assert(qx * SUBUNITS % 80 == 0 && qy * SUBUNITS % 80 == 0) by (nonlinear_arith)
                requires
                    SUBUNITS == 80,
            ;
            assert(-13_750_000 <= qx <= 13_750_000 && -13_750_000 <= qy <= 13_750_000)
                by (nonlinear_arith)
                requires
                    qx == (self.0.x + 79) as int / 80,
                    qy == (self.0.y + 79) as int / 80,
                    -1_100_000_000 <= self.0.x + 79 <= 1_100_000_000,
                    -1_100_000_000 <= self.0.y + 79 <= 1_100_000_000,
            ;
            assert(-1_100_000_000 <= qx * SUBUNITS <= 1_100_000_000 && -1_100_000_000 <= qy
                * SUBUNITS <= 1_100_000_000) by (nonlinear_arith)
                requires
                    -13_750_000 <= qx <= 13_750_000,
                    -13_750_000 <= qy <= 13_750_000,
                    SUBUNITS == 80,
            ;
        }
        DrawablePt(Point::new(qx * SUBUNITS, qy * SUBUNITS))
    }
}

} // verus!
