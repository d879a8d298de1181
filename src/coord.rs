//! Integer tile-grid coordinates.
use vstd::prelude::*;
use vstd::arithmetic::div_mod::lemma_fundamental_div_mod_converse;

verus! {

/// A cell of the tile grid, ordered by `x` first and then by `y`.
#[derive(Debug, Clone, Copy, PartialEq, Eq, Structural, PartialOrd, Ord, Hash)]
pub struct Coord {
    pub x: i32,
    pub y: i32,
}

impl From<[i32; 2]> for Coord {
    fn from(arr: [i32; 2]) -> (r: Coord)
        ensures
            r.x == arr[0],
            r.y == arr[1],
    {
        Coord { x: arr[0], y: arr[1] }
    }
}

impl vstd::std_specs::convert::FromSpecImpl<[i32; 2]> for Coord {
    open spec fn obeys_from_spec() -> bool {
        true
    }

    open spec fn from_spec(arr: [i32; 2]) -> Coord {
        Coord { x: arr@[0], y: arr@[1] }
    }
}

impl From<(i32, i32)> for Coord {
    fn from(tup: (i32, i32)) -> (r: Coord)
        ensures
            r.x == tup.0,
            r.y == tup.1,
    {
        Coord { x: tup.0, y: tup.1 }
    }
}

impl vstd::std_specs::convert::FromSpecImpl<(i32, i32)> for Coord {
    open spec fn obeys_from_spec() -> bool {
        true
    }

    open spec fn from_spec(tup: (i32, i32)) -> Coord {
        Coord { x: tup.0, y: tup.1 }
    }
}

/// Number of cells in the inclusive range `lo..=hi` (zero when `hi < lo`).
pub open spec fn span(lo: i32, hi: i32) -> nat {
    if hi < lo {
        0
    } else {
        (hi - lo + 1) as nat
    }
}

/// Every cell of the rectangle spanned by `a` and `b` (inclusive), column by column:
/// `x` runs slowest, `y` fastest.
pub open spec fn spread_of(a: Coord, b: Coord) -> Seq<Coord> {
    let h = span(a.y, b.y);
    Seq::new(
        span(a.x, b.x) * h,
        |k: int| Coord { x: (a.x + k / (h as int)) as i32, y: (a.y + k % (h as int)) as i32 },
    )
}

impl Coord {
    /// The grid's origin, `(0, 0)`.
    pub fn origin() -> (r: Coord)
        ensures
            r == (Coord { x: 0, y: 0 }),
    {
        Coord { x: 0, y: 0 }
    }

    /// Lists every coordinate in the rectangle from `self` to `other`, both included.
    pub fn spread(&self, other: Coord) -> (r: Vec<Coord>)
        ensures
            r@ == spread_of(*self, other),
    {
        let mut output: Vec<Coord> = Vec::new();
        let ghost h = span(self.y, other.y) as int;
        if self.y > other.y || self.x > other.x {
            assert(output@ =~= spread_of(*self, other));
            return output;
        }
        let mut x: i64 = self.x as i64;
        while x <= other.x as i64
            invariant
                self.x <= x <= other.x + 1,
                self.y <= other.y,
                h == other.y - self.y + 1,
                output@.len() == (x - self.x) * h,
                forall|k: int|
                    0 <= k < output@.len() ==> #[trigger] output@[k] == spread_of(*self, other)[k],
            decreases other.x + 1 - x,
        {
            let mut y: i64 = self.y as i64;
            while y <= other.y as i64
                invariant
                    self.x <= x <= other.x,
                    self.y <= y <= other.y + 1,
                    h == other.y - self.y + 1,
                    output@.len() == (x - self.x) * h + (y - self.y),
                    forall|k: int|
                        0 <= k < output@.len() ==> #[trigger] output@[k] == spread_of(
                            *self,
                            other,
                        )[k],
                decreases other.y + 1 - y,
            {
                proof {
                    let k = (x - self.x) * h + (y - self.y);
                    lemma_fundamental_div_mod_converse(k, h, x - self.x, y - self.y);
                    let w = span(self.x, other.x) as int;
                    let i = x - self.x;
                    let j = y - self.y;
                    assert(k < w * h) by (nonlinear_arith)
                        requires
                            k == i * h + j,
                            0 <= j < h,
                            0 <= i < w,
                    ;
                }
                output.push(Coord { x: x as i32, y: y as i32 });
                y = y + 1;
            }
            proof {
                assert((x + 1 - self.x) * h == (x - self.x) * h + h) by (nonlinear_arith);
            }
            x = x + 1;
        }
        proof {
            let n = span(self.x, other.x) * h;
            assert(output@.len() == n);
            assert(output@ =~= spread_of(*self, other));
        }
        output
    }
}

} // verus!
