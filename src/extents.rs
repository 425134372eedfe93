use vstd::arithmetic::div_mod::{
    lemma_div_pos_is_pos, lemma_fundamental_div_mod, lemma_fundamental_div_mod_converse,
    lemma_mod_pos_bound, lemma_multiply_divide_lt,
};
use vstd::prelude::*;

verus! {

/// A two-dimensional integer coordinate.
#[derive(Clone, Copy, Debug, PartialEq, Eq, Hash, Structural)]
pub struct Point {
    pub x: i32,
    pub y: i32,
}

impl Point {
    pub open spec fn new_spec(x: i32, y: i32) -> Point {
        Point { x, y }
    }

    #[verifier::when_used_as_spec(new_spec)]
    pub fn new(x: i32, y: i32) -> (r: Point)
        ensures
            r == Point::new_spec(x, y),
    {
        Point { x, y }
    }
}

impl From<(i32, i32)> for Point {
    fn from(v: (i32, i32)) -> (r: Point) {
        Point { x: v.0, y: v.1 }
    }
}

impl vstd::std_specs::convert::FromSpecImpl<(i32, i32)> for Point {
    open spec fn obeys_from_spec() -> bool {
        true
    }

    open spec fn from_spec(v: (i32, i32)) -> Point {
        Point { x: v.0, y: v.1 }
    }
}

/// The shape of a rectangle: `width` columns by `height` rows.
#[derive(Clone, Copy, Debug, PartialEq, Eq, Hash, Structural)]
pub struct Extents {
    pub width: i32,
    pub height: i32,
}

impl From<(i32, i32)> for Extents {
    /// The shape `(width, height)`.
    fn from(v: (i32, i32)) -> (r: Extents) {
        Extents { width: v.0, height: v.1 }
    }
}

impl vstd::std_specs::convert::FromSpecImpl<(i32, i32)> for Extents {
    open spec fn obeys_from_spec() -> bool {
        true
    }

    open spec fn from_spec(v: (i32, i32)) -> Extents {
        Extents { width: v.0, height: v.1 }
    }
}

impl Extents {
    /// A usable shape has no negative dimension, and its cells can be counted
    /// in a `usize`.
    pub open spec fn wf(self) -> bool {
        self.width >= 0 && self.height >= 0 && self.area() <= usize::MAX
    }

    /// Number of cells in the rectangle.
    pub open spec fn area(self) -> int {
        self.width * self.height
    }

    pub open spec fn contains(self, p: Point) -> bool {
        0 <= p.x < self.width && 0 <= p.y < self.height
    }

    /// Flat offset of `p` when rows are laid out one after another.
    pub open spec fn row_major_offset(self, p: Point) -> int {
        p.y * self.width + p.x
    }

    /// Flat offset of `p` when columns are laid out one after another.
    pub open spec fn column_major_offset(self, p: Point) -> int {
        p.x * self.height + p.y
    }

    /// The point whose row-major offset is `i`.
    pub open spec fn row_major_point(self, i: int) -> Point {
        Point { x: (i % self.width as int) as i32, y: (i / self.width as int) as i32 }
    }

    /// The point whose column-major offset is `i`.
    pub open spec fn column_major_point(self, i: int) -> Point {
        Point { x: (i / self.height as int) as i32, y: (i % self.height as int) as i32 }
    }

    /// Every point of the rectangle, by increasing `y`, then increasing `x`.
    pub open spec fn row_major_points(self) -> Seq<Point> {
        Seq::new(self.area() as nat, |i: int| self.row_major_point(i))
    }

    /// Every point of the rectangle, by increasing `x`, then increasing `y`.
    pub open spec fn column_major_points(self) -> Seq<Point> {
        Seq::new(self.area() as nat, |i: int| self.column_major_point(i))
    }

    pub fn new(width: i32, height: i32) -> (r: Extents)
        ensures
            r.width == width,
            r.height == height,
    {
        Extents { width, height }
    }

    pub fn num_elements(&self) -> (r: usize)
        requires
            self.wf(),
        ensures
            r == self.area(),
    {
        (self.width as usize) * (self.height as usize)
    }

    /// The row-major offset of `p`, or `None` when `p` lies outside the rectangle.
    pub fn get_index_row_major(&self, p: Point) -> (r: Option<usize>)
        requires
            self.wf(),
        ensures
            r == (if self.contains(p) {
                Some(self.row_major_offset(p) as usize)
            } else {
                None
            }),
    {
        if 0 <= p.x && p.x < self.width && 0 <= p.y && p.y < self.height {
            proof {
                lemma_offset_in_area(*self, p);
            }
            Some((p.y as usize) * (self.width as usize) + (p.x as usize))
        } else {
            None
        }
    }

    /// Every point of the rectangle in row-major order.
    pub fn positions_row_major(&self) -> (r: Vec<Point>)
        requires
            self.wf(),
        ensures
            r@ == self.row_major_points(),
    {
        let mut r: Vec<Point> = Vec::new();
        let mut y: i32 = 0;
        while y < self.height
            invariant
                self.wf(),
                0 <= y <= self.height,
                r@.len() == y * self.width,
                forall|k: int| 0 <= k < r@.len() ==> r@[k] == self.row_major_point(k),
            decreases self.height - y,
        {
            let mut x: i32 = 0;
            while x < self.width
                invariant
                    self.wf(),
                    0 <= y < self.height,
                    0 <= x <= self.width,
                    r@.len() == y * self.width + x,
                    forall|k: int| 0 <= k < r@.len() ==> r@[k] == self.row_major_point(k),
                decreases self.width - x,
            {
                let p = Point::new(x, y);
                proof {
                    lemma_row_major_offset(*self, p);
                }
                r.push(p);
                x += 1;
            }
            assert((y + 1) * self.width == y * self.width + self.width) by (nonlinear_arith);
            y += 1;
        }
        assert(self.height * self.width == self.area()) by (nonlinear_arith);
        assert(r@ =~= self.row_major_points());
        r
    }

    /// Every point of the rectangle in column-major order.
    pub fn positions_column_major(&self) -> (r: Vec<Point>)
        requires
            self.wf(),
        ensures
            r@ == self.column_major_points(),
    {
        let mut r: Vec<Point> = Vec::new();
        let mut x: i32 = 0;
        while x < self.width
            invariant
                self.wf(),
                0 <= x <= self.width,
                r@.len() == x * self.height,
                forall|k: int| 0 <= k < r@.len() ==> r@[k] == self.column_major_point(k),
            decreases self.width - x,
        {
            let mut y: i32 = 0;
            while y < self.height
                invariant
                    self.wf(),
                    0 <= x < self.width,
                    0 <= y <= self.height,
                    r@.len() == x * self.height + y,
                    forall|k: int| 0 <= k < r@.len() ==> r@[k] == self.column_major_point(k),
                decreases self.height - y,
            {
                let p = Point::new(x, y);
                proof {
                    lemma_column_major_offset(*self, p);
                }
                r.push(p);
                y += 1;
            }
            assert((x + 1) * self.height == x * self.height + self.height) by (nonlinear_arith);
            x += 1;
        }
        assert(r@ =~= self.column_major_points());
        r
    }
}

/// A point inside the rectangle has a row-major offset below the area.
pub proof fn lemma_offset_in_area(e: Extents, p: Point)
    requires
        e.contains(p),
    ensures
        0 <= e.row_major_offset(p) < e.area(),
{
    assert(0 <= p.y * e.width + p.x < e.width * e.height) by (nonlinear_arith)
        requires
            0 <= p.x < e.width,
            0 <= p.y < e.height,
    ;
}

/// Row-major offsets and points of the rectangle are inverse to each other.
pub proof fn lemma_row_major_point(e: Extents, i: int)
    requires
        e.wf(),
        0 <= i < e.area(),
    ensures
        e.contains(e.row_major_point(i)),
        e.row_major_offset(e.row_major_point(i)) == i,
{
    let w = e.width as int;
    let h = e.height as int;
    assert(w > 0) by (nonlinear_arith)
        requires
            0 <= i < w * h,
            w >= 0,
            h >= 0,
    ;
    lemma_fundamental_div_mod(i, w);
    lemma_mod_pos_bound(i, w);
    lemma_div_pos_is_pos(i, w);
    lemma_multiply_divide_lt(i, w, h);
    assert(w * (i / w) == (i / w) * w) by (nonlinear_arith);
}

/// The point at a contained point's row-major offset is that point.
pub proof fn lemma_row_major_offset(e: Extents, p: Point)
    requires
        e.contains(p),
    ensures
        e.row_major_point(e.row_major_offset(p)) == p,
{
    lemma_fundamental_div_mod_converse(e.row_major_offset(p), e.width as int, p.y as int, p.x as int);
}

/// Column-major offsets and points of the rectangle are inverse to each other.
pub proof fn lemma_column_major_point(e: Extents, i: int)
    requires
        e.wf(),
        0 <= i < e.area(),
    ensures
        e.contains(e.column_major_point(i)),
        e.column_major_offset(e.column_major_point(i)) == i,
{
    let w = e.width as int;
    let h = e.height as int;
    assert(h > 0 && i < h * w) by (nonlinear_arith)
        requires
            0 <= i < w * h,
            w >= 0,
            h >= 0,
    ;
    lemma_fundamental_div_mod(i, h);
    lemma_mod_pos_bound(i, h);
    lemma_div_pos_is_pos(i, h);
    lemma_multiply_divide_lt(i, h, w);
    assert(h * (i / h) == (i / h) * h) by (nonlinear_arith);
}

/// The point at a contained point's column-major offset is that point.
pub proof fn lemma_column_major_offset(e: Extents, p: Point)
    requires
        e.contains(p),
    ensures
        e.column_major_point(e.column_major_offset(p)) == p,
        0 <= e.column_major_offset(p) < e.area(),
{
    lemma_fundamental_div_mod_converse(e.column_major_offset(p), e.height as int, p.x as int, p.y as int);
    assert(0 <= p.x * e.height + p.y < e.width * e.height) by (nonlinear_arith)
        requires
            0 <= p.x < e.width,
            0 <= p.y < e.height,
    ;
}

/// Every point listed in either order lies inside the rectangle.
pub proof fn lemma_points_contained(e: Extents)
    requires
        e.wf(),
    ensures
        forall|i: int| 0 <= i < e.area() ==> e.contains(#[trigger] e.row_major_points()[i]),
        forall|i: int| 0 <= i < e.area() ==> e.contains(#[trigger] e.column_major_points()[i]),
{
    assert forall|i: int| 0 <= i < e.area() implies e.contains(
        #[trigger] e.row_major_points()[i],
    ) by {
        lemma_row_major_point(e, i);
    }
    assert forall|i: int| 0 <= i < e.area() implies e.contains(
        #[trigger] e.column_major_points()[i],
    ) by {
        lemma_column_major_point(e, i);
    }
}

} // verus!
