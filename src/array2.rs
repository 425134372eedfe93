use crate::extents::{
    lemma_column_major_offset, lemma_column_major_point, lemma_offset_in_area, lemma_points_contained,
    lemma_row_major_offset, lemma_row_major_point, Extents, Point,
};
use vstd::prelude::*;
use vstd::std_specs::iter::IteratorSpec;

verus! {

/// Why an operation on an [`Array2`] did not succeed.
#[derive(Clone, Copy, Debug, PartialEq, Eq, Structural)]
pub enum Error {
    /// A coordinate fell outside the array's shape.
    IndicesOutOfBounds(Point),
    /// A flat index fell outside `0..width * height`.
    IndexOutOfBounds(usize),
    /// A flat buffer's length differs from the shape's cell count.
    DimensionMismatch,
    /// A sequence ran out before every cell was filled.
    NotEnoughValues,
}

/// A dense two-dimensional array of fixed shape.
///
/// The cells are stored row after row in one buffer, so the cell at `(x, y)`
/// lives at offset `y * width + x`. Column-major access is a view over the
/// same buffer: the column-major flat index of `(x, y)` is `x * height + y`.
#[derive(Clone, Debug, PartialEq, Eq, Hash)]
pub struct Array2<T> {
    array: Vec<T>,
    size: Extents,
}

/// `dst` holds, position by position, clones of the values in `src`.
pub open spec fn clones_of<T: Clone>(src: Seq<T>, dst: Seq<T>) -> bool {
    &&& dst.len() == src.len()
    &&& forall|i: int| 0 <= i < src.len() ==> cloned(src[i], #[trigger] dst[i])
}

/// The cells of a row-major buffer of shape `e`, listed in column-major order.
pub open spec fn column_major_of<T>(e: Extents, cells: Seq<T>) -> Seq<T> {
    Seq::new(e.area() as nat, |i: int| cells[e.row_major_offset(e.column_major_point(i))])
}

/// The row-major buffer of shape `e` whose column-major listing is `values`.
pub open spec fn from_column_major_of<T>(e: Extents, values: Seq<T>) -> Seq<T> {
    Seq::new(e.area() as nat, |i: int| values[e.column_major_offset(e.row_major_point(i))])
}

/// `v` is a value that `T::default()` may return.
pub open spec fn is_default<T: Default>(v: T) -> bool {
    call_ensures(T::default, (), v)
}

/// The first `n` values of `iterator`, or `None` when it yields fewer.
fn take_values<T, I>(iterator: I, n: usize) -> (r: Option<Vec<T>>)
    where
        I: Iterator<Item = T>,
    ensures
        r matches Some(v) ==> v@.len() == n,
        iterator.obeys_prophetic_iter_laws() ==> {
            &&& r is Some <==> iterator.remaining().len() >= n
            &&& r matches Some(v) ==> v@ == iterator.remaining().take(n as int)
        },
{
    let ghost all = iterator.remaining();
    let ghost lawful = iterator.obeys_prophetic_iter_laws();
    let mut it = iterator;
    let mut array: Vec<T> = Vec::with_capacity(n);
    let mut i: usize = 0;
    while i < n
        invariant
            all == iterator.remaining(),
            lawful == iterator.obeys_prophetic_iter_laws(),
            lawful == it.obeys_prophetic_iter_laws(),
            i <= n,
            array@.len() == i,
            lawful ==> {
                &&& i <= all.len()
                &&& array@ == all.take(i as int)
                &&& it.remaining() == all.skip(i as int)
            },
        decreases n - i,
    {
        match it.next() {
            Some(v) => array.push(v),
            None => {
                assert(lawful ==> all.skip(i as int).len() == all.len() - i);
                return None;
            },
        }
        i += 1;
        assert(lawful ==> array@ =~= all.take(i as int));
        assert(lawful ==> it.remaining() =~= all.skip(i as int));
    }
    Some(array)
}

impl<T> View for Array2<T> {
    type V = Seq<T>;

    /// The cells in row-major order.
    closed spec fn view(&self) -> Seq<T> {
        self.array@
    }
}

impl<T> Array2<T> {
    /// The shape of the array.
    pub closed spec fn shape(&self) -> Extents {
        self.size
    }

    /// The buffer holds exactly one cell per point of a usable shape.
    pub open spec fn wf(&self) -> bool {
        &&& self.shape().wf()
        &&& self@.len() == self.shape().area()
    }

    /// The cell at a contained point.
    pub open spec fn cell(&self, p: Point) -> T {
        self@[self.shape().row_major_offset(p)]
    }

    /// Each of `points` paired with its cell.
    pub open spec fn pairs(&self, points: Seq<Point>) -> Seq<(Point, T)> {
        points.map_values(|p: Point| (p, self.cell(p)))
    }

    /// The cells in column-major order.
    pub open spec fn column_major_cells(&self) -> Seq<T> {
        column_major_of(self.shape(), self@)
    }

    /// An array of `width` by `height` cells, each a default value.
    pub fn new(width: i32, height: i32) -> (r: Self)
        where
            T: Clone + Default,
        requires
            width >= 0,
            height >= 0,
            width * height <= i32::MAX,
        ensures
            r.wf(),
            r.shape().width == width,
            r.shape().height == height,
            forall|i: int| 0 <= i < r@.len() ==> is_default(#[trigger] r@[i]),
    {
        Self::from_size(Extents::new(width, height))
    }

    /// An array of the given shape, each cell a default value.
    pub fn from_size(size: Extents) -> (r: Self)
        where
            T: Clone + Default,
        requires
            size.wf(),
        ensures
            r.wf(),
            r.shape() == size,
            forall|i: int| 0 <= i < r@.len() ==> is_default(#[trigger] r@[i]),
    {
        let n = size.num_elements();
        let mut array: Vec<T> = Vec::with_capacity(n);
        let mut i: usize = 0;
        while i < n
            invariant
                i <= n,
                array@.len() == i,
                forall|k: int| 0 <= k < i ==> is_default(#[trigger] array@[k]),
            decreases n - i,
        {
            array.push(T::default());
            i += 1;
        }
        Array2 { array, size }
    }

    /// An array of the given shape whose cells, in row-major order, are clones
    /// of `values`; fails when `values` does not have one value per cell.
    pub fn from_row_major(values: &[T], size: Extents) -> (r: Result<Self, Error>)
        where
            T: Clone,
        requires
            size.wf(),
        ensures
            r is Ok <==> values@.len() == size.area(),
            r matches Err(e) ==> e == Error::DimensionMismatch,
            r matches Ok(a) ==> a.wf() && a.shape() == size && clones_of(values@, a@),
    {
        if size.num_elements() != values.len() {
            return Err(Error::DimensionMismatch);
        }
        let mut array: Vec<T> = Vec::with_capacity(values.len());
        let mut i: usize = 0;
        while i < values.len()
            invariant
                i <= values@.len(),
                array@.len() == i,
                forall|k: int| 0 <= k < i ==> cloned(values@[k], #[trigger] array@[k]),
            decreases values@.len() - i,
        {
            array.push(values[i].clone());
            i += 1;
        }
        Ok(Array2 { array, size })
    }

    /// An array of the given shape whose cells, in column-major order, are
    /// clones of `values`; fails when `values` does not have one value per cell.
    pub fn from_column_major(values: &[T], size: Extents) -> (r: Result<Self, Error>)
        where
            T: Clone,
        requires
            size.wf(),
        ensures
            r is Ok <==> values@.len() == size.area(),
            r matches Err(e) ==> e == Error::DimensionMismatch,
            r matches Ok(a) ==> a.wf() && a.shape() == size && clones_of(
                from_column_major_of(size, values@),
                a@,
            ),
    {
        if size.num_elements() != values.len() {
            return Err(Error::DimensionMismatch);
        }
        let positions = size.positions_row_major();
        let mut array: Vec<T> = Vec::with_capacity(values.len());
        let mut i: usize = 0;
        while i < positions.len()
            invariant
                size.wf(),
                values@.len() == size.area(),
                positions@ == size.row_major_points(),
                i <= positions@.len(),
                array@.len() == i,
                forall|k: int|
                    0 <= k < i ==> cloned(
                        from_column_major_of(size, values@)[k],
                        #[trigger] array@[k],
                    ),
            decreases positions@.len() - i,
        {
            let pos = positions[i];
            proof {
                lemma_row_major_point(size, i as int);
                lemma_column_major_offset(size, pos);
            }
            let index = (pos.x as usize) * (size.height as usize) + (pos.y as usize);
            array.push(values[index].clone());
            i += 1;
        }
        Ok(Array2 { array, size })
    }

    /// An array of the given shape with every cell a clone of `element`.
    pub fn filled_with(element: T, size: Extents) -> (r: Self)
        where
            T: Clone,
        requires
            size.wf(),
        ensures
            r.wf(),
            r.shape() == size,
            forall|i: int| 0 <= i < r@.len() ==> cloned(element, #[trigger] r@[i]),
    {
        let array = vec![element; size.num_elements()];
        Array2 { array, size }
    }

    /// An array of the given shape whose cells are produced by calling
    /// `generator` once per cell, in row-major order.
    pub fn filled_by<F>(generator: F, size: Extents) -> (r: Self)
        where
            F: FnMut() -> T,
        requires
            size.wf(),
            call_requires(generator, ()),
        ensures
            r.wf(),
            r.shape() == size,
            forall|i: int| 0 <= i < r@.len() ==> call_ensures(generator, (), #[trigger] r@[i]),
    {
        let mut produce = generator;
        let n = size.num_elements();
        let mut array: Vec<T> = Vec::with_capacity(n);
        let mut i: usize = 0;
        while i < n
            invariant
                i <= n,
                produce == generator,
                call_requires(generator, ()),
                array@.len() == i,
                forall|k: int| 0 <= k < i ==> call_ensures(generator, (), #[trigger] array@[k]),
            decreases n - i,
        {
            array.push(produce());
            i += 1;
        }
        Array2 { array, size }
    }

    /// Overwrites every cell with `element`; the shape is unchanged.
    pub fn fill_with(&mut self, element: T)
        where
            T: Copy,
        requires
            old(self).wf(),
        ensures
            final(self).wf(),
            final(self).shape() == old(self).shape(),
            final(self)@ == Seq::new(old(self)@.len(), |i: int| element),
    {
        let ghost len = self@.len();
        let mut i: usize = 0;
        while i < self.array.len()
            invariant
                self.wf(),
                self.shape() == old(self).shape(),
                self@.len() == len,
                i <= len,
                forall|k: int| 0 <= k < i ==> self@[k] == element,
            decreases len - i,
        {
            self.array.set(i, element);
            i += 1;
        }
        assert(self@ =~= Seq::new(len, |i: int| element));
    }

    /// Overwrites every cell, in row-major order, with the result of one call
    /// of `generator`; the shape is unchanged.
    pub fn fill_by<F>(&mut self, generator: F)
        where
            F: FnMut() -> T,
        requires
            old(self).wf(),
            call_requires(generator, ()),
        ensures
            final(self).wf(),
            final(self).shape() == old(self).shape(),
            final(self)@.len() == old(self)@.len(),
            forall|i: int|
                0 <= i < final(self)@.len() ==> call_ensures(generator, (), #[trigger] final(self)@[i]),
    {
        let mut produce = generator;
        let ghost len = self@.len();
        let mut i: usize = 0;
        while i < self.array.len()
            invariant
                self.wf(),
                self.shape() == old(self).shape(),
                self@.len() == len,
                i <= len,
                produce == generator,
                call_requires(generator, ()),
                forall|k: int| 0 <= k < i ==> call_ensures(generator, (), #[trigger] self@[k]),
            decreases len - i,
        {
            let v = produce();
            self.array.set(i, v);
            i += 1;
        }
    }

    /// An array of the given shape filled, in row-major order, with the first
    /// values of `iterator`; fails when it yields fewer values than there are
    /// cells. Values beyond those needed are left unread.
    pub fn from_iter_row_major<I>(iterator: I, size: Extents) -> (r: Result<Self, Error>)
        where
            I: Iterator<Item = T>,
        requires
            size.wf(),
        ensures
            r matches Err(e) ==> e == Error::NotEnoughValues,
            r matches Ok(a) ==> a.wf() && a.shape() == size,
            iterator.obeys_prophetic_iter_laws() ==> {
                &&& r is Ok <==> iterator.remaining().len() >= size.area()
                &&& r matches Ok(a) ==> a@ == iterator.remaining().take(size.area())
            },
    {
        match take_values(iterator, size.num_elements()) {
            Some(array) => Ok(Array2 { array, size }),
            None => Err(Error::NotEnoughValues),
        }
    }

    /// An array of the given shape filled, in column-major order, with the
    /// first values of `iterator`; fails when it yields fewer values than there
    /// are cells. Values beyond those needed are left unread.
    pub fn from_iter_column_major<I>(iterator: I, size: Extents) -> (r: Result<Self, Error>)
        where
            I: Iterator<Item = T>,
            T: Clone,
        requires
            size.wf(),
        ensures
            r matches Err(e) ==> e == Error::NotEnoughValues,
            r matches Ok(a) ==> a.wf() && a.shape() == size,
            iterator.obeys_prophetic_iter_laws() ==> {
                &&& r is Ok <==> iterator.remaining().len() >= size.area()
                &&& r matches Ok(a) ==> clones_of(
                    from_column_major_of(size, iterator.remaining().take(size.area())),
                    a@,
                )
            },
    {
        match take_values(iterator, size.num_elements()) {
            Some(values) => match Self::from_column_major(values.as_slice(), size) {
                Ok(a) => Ok(a),
                Err(_) => Err(Error::NotEnoughValues),
            },
            None => Err(Error::NotEnoughValues),
        }

    }

    pub fn height(&self) -> (r: i32)
        ensures
            r == self.shape().height,
    {
        self.size.height
    }

    pub fn width(&self) -> (r: i32)
        ensures
            r == self.shape().width,
    {
        self.size.width
    }

    pub fn size(&self) -> (r: Extents)
        ensures
            r == self.shape(),
    {
        self.size
    }

    /// The cell at `pos`, or `None` when `pos` lies outside the array.
    pub fn get(&self, pos: Point) -> (r: Option<&T>)
        requires
            self.wf(),
        ensures
            r is Some <==> self.shape().contains(pos),
            r matches Some(v) ==> *v == self.cell(pos),
    {
        match self.size.get_index_row_major(pos) {
            Some(index) => {
                proof {
                    lemma_offset_in_area(self.size, pos);
                }
                Some(&self.array[index])
            },
            None => None,
        }
    }

    /// The row-major offset of `pos`, or `None` when `pos` lies outside the array.
    pub fn get_index(&self, pos: Point) -> (r: Option<usize>)
        requires
            self.wf(),
        ensures
            r == (if self.shape().contains(pos) {
                Some(self.shape().row_major_offset(pos) as usize)
            } else {
                None
            }),
    {
        self.size.get_index_row_major(pos)
    }

    /// The cell at row-major flat index `index`, or `None` past the last cell.
    pub fn get_row_major(&self, index: usize) -> (r: Option<&T>)
        requires
            self.wf(),
        ensures
            r is Some <==> index < self@.len(),
            r matches Some(v) ==> *v == self@[index as int],
    {
        if index < self.array.len() {
            Some(&self.array[index])
        } else {
            None
        }
    }

    /// The point at column-major flat index `index`, or `None` past the last cell.
    fn column_major_position(&self, index: usize) -> (r: Option<Point>)
        requires
            self.wf(),
        ensures
            r is Some <==> index < self@.len(),
            r matches Some(p) ==> p == self.shape().column_major_point(index as int)
                && self.shape().contains(p),
    {
        if index < self.size.num_elements() {
            proof {
                lemma_column_major_point(self.size, index as int);
            }
            let height = self.size.height as usize;
            Some(Point::new((index / height) as i32, (index % height) as i32))
        } else {
            None
        }
    }

    /// The cell at column-major flat index `index`, or `None` past the last cell.
    pub fn get_column_major(&self, index: usize) -> (r: Option<&T>)
        requires
            self.wf(),
        ensures
            r is Some <==> index < self@.len(),
            r matches Some(v) ==> *v == self.column_major_cells()[index as int],
    {
        match self.column_major_position(index) {
            Some(pos) => self.get(pos),
            None => None,
        }
    }

    /// Mutable access to the cell at `pos`, or `None` when `pos` lies outside
    /// the array.
    pub fn get_mut(&mut self, pos: Point) -> (r: Option<&mut T>)
        requires
            old(self).wf(),
        ensures
            r is Some <==> old(self).shape().contains(pos),
            r matches Some(v) ==> {
                &&& *v == old(self).cell(pos)
                &&& final(self).shape() == old(self).shape()
                &&& final(self)@ == old(self)@.update(
                    old(self).shape().row_major_offset(pos),
                    *final(v),
                )
            },
            r is None ==> *final(self) == *old(self),
    {
        match self.size.get_index_row_major(pos) {
            Some(index) => {
                proof {
                    lemma_offset_in_area(self.size, pos);
                }
                Some(&mut self.array[index])
            },
            None => None,
        }
    }

    /// Mutable access to the cell at row-major flat index `index`, or `None`
    /// past the last cell.
    pub fn get_mut_row_major(&mut self, index: usize) -> (r: Option<&mut T>)
        requires
            old(self).wf(),
        ensures
            r is Some <==> index < old(self)@.len(),
            r matches Some(v) ==> {
                &&& *v == old(self)@[index as int]
                &&& final(self).shape() == old(self).shape()
                &&& final(self)@ == old(self)@.update(index as int, *final(v))
            },
            r is None ==> *final(self) == *old(self),
    {
        if index < self.array.len() {
            Some(&mut self.array[index])
        } else {
            None
        }
    }

    /// Mutable access to the cell at column-major flat index `index`, or
    /// `None` past the last cell.
    pub fn get_mut_column_major(&mut self, index: usize) -> (r: Option<&mut T>)
        requires
            old(self).wf(),
        ensures
            r is Some <==> index < old(self)@.len(),
            r matches Some(v) ==> {
                &&& *v == old(self).column_major_cells()[index as int]
                &&& final(self).shape() == old(self).shape()
                &&& final(self)@ == old(self)@.update(
                    old(self).shape().row_major_offset(
                        old(self).shape().column_major_point(index as int),
                    ),
                    *final(v),
                )
            },
            r is None ==> *final(self) == *old(self),
    {
        match self.column_major_position(index) {
            Some(pos) => self.get_mut(pos),
            None => None,
        }
    }

    /// Writes `element` at `pos`; fails, leaving the array unchanged, when
    /// `pos` lies outside it.
    pub fn set(&mut self, pos: Point, element: T) -> (r: Result<(), Error>)
        requires
            old(self).wf(),
        ensures
            final(self).shape() == old(self).shape(),
            r is Ok <==> old(self).shape().contains(pos),
            r is Ok ==> final(self)@ == old(self)@.update(
                old(self).shape().row_major_offset(pos),
                element,
            ),
            r matches Err(e) ==> e == Error::IndicesOutOfBounds(pos) && final(self)@ == old(self)@,
    {
        match self.get_mut(pos) {
            Some(cell) => {
                *cell = element;
                Ok(())
            },
            None => Err(Error::IndicesOutOfBounds(pos)),
        }
    }

    /// Writes `element` at row-major flat index `index`; fails, leaving the
    /// array unchanged, past the last cell.
    pub fn set_row_major(&mut self, index: usize, element: T) -> (r: Result<(), Error>)
        requires
            old(self).wf(),
        ensures
            final(self).shape() == old(self).shape(),
            r is Ok <==> index < old(self)@.len(),
            r is Ok ==> final(self)@ == old(self)@.update(index as int, element),
            r matches Err(e) ==> e == Error::IndexOutOfBounds(index) && final(self)@ == old(self)@,
    {
        match self.get_mut_row_major(index) {
            Some(cell) => {
                *cell = element;
                Ok(())
            },
            None => Err(Error::IndexOutOfBounds(index)),
        }
    }

    /// Writes `element` at column-major flat index `index`; fails with the
    /// flat index, leaving the array unchanged, past the last cell.
    pub fn set_column_major(&mut self, index: usize, element: T) -> (r: Result<(), Error>)
        requires
            old(self).wf(),
        ensures
            final(self).shape() == old(self).shape(),
            r is Ok <==> index < old(self)@.len(),
            r is Ok ==> final(self)@ == old(self)@.update(
                old(self).shape().row_major_offset(
                    old(self).shape().column_major_point(index as int),
                ),
                element,
            ),
            r matches Err(e) ==> e == Error::IndexOutOfBounds(index) && final(self)@ == old(self)@,
    {
        match self.get_mut_column_major(index) {
            Some(cell) => {
                *cell = element;
                Ok(())
            },
            None => Err(Error::IndexOutOfBounds(index)),
        }
    }

    /// References to every cell, in row-major order.
    pub fn elements_row_major_iter(&self) -> (r: Vec<&T>)
        requires
            self.wf(),
        ensures
            r@.len() == self@.len(),
            forall|i: int| 0 <= i < r@.len() ==> *#[trigger] r@[i] == self@[i],
    {
        let mut r: Vec<&T> = Vec::with_capacity(self.array.len());
        let mut i: usize = 0;
        while i < self.array.len()
            invariant
                i <= self@.len(),
                r@.len() == i,
                forall|k: int| 0 <= k < i ==> *#[trigger] r@[k] == self@[k],
            decreases self@.len() - i,
        {
            r.push(&self.array[i]);
            i += 1;
        }
        r
    }

    /// References to every cell, in column-major order.
    pub fn elements_column_major_iter(&self) -> (r: Vec<&T>)
        requires
            self.wf(),
        ensures
            r@.len() == self@.len(),
            forall|i: int| 0 <= i < r@.len() ==> *#[trigger] r@[i] == self.column_major_cells()[i],
    {
        let positions = self.indices_column_major();
        let mut r: Vec<&T> = Vec::with_capacity(positions.len());
        let mut i: usize = 0;
        while i < positions.len()
            invariant
                self.wf(),
                positions@ == self.shape().column_major_points(),
                i <= positions@.len(),
                r@.len() == i,
                forall|k: int| 0 <= k < i ==> *#[trigger] r@[k] == self.column_major_cells()[k],
            decreases positions@.len() - i,
        {
            proof {
                lemma_column_major_point(self.size, i as int);
            }
            match self.get(positions[i]) {
                Some(v) => r.push(v),
                None => {},
            }
            i += 1;
        }
        r
    }

    /// References to the cells of row `y`, by increasing `x`; fails with the
    /// point `(0, y)` when the array has no row `y`.
    pub fn row_iter(&self, y: i32) -> (r: Result<Vec<&T>, Error>)
        requires
            self.wf(),
        ensures
            r is Ok <==> 0 <= y < self.shape().height,
            r matches Err(e) ==> e == Error::IndicesOutOfBounds(Point::new_spec(0, y)),
            r matches Ok(v) ==> {
                &&& v@.len() == self.shape().width
                &&& forall|x: int|
                    0 <= x < v@.len() ==> *#[trigger] v@[x] == self.cell(
                        Point::new_spec(x as i32, y),
                    )
            },
    {
        if y < 0 || y >= self.size.height {
            return Err(Error::IndicesOutOfBounds(Point::new(0, y)));
        }
        let width = self.size.width;
        let mut r: Vec<&T> = Vec::with_capacity(width as usize);
        let mut x: i32 = 0;
        while x < width
            invariant
                self.wf(),
                width == self.shape().width,
                0 <= y < self.shape().height,
                0 <= x <= width,
                r@.len() == x,
                forall|k: int|
                    0 <= k < x ==> *#[trigger] r@[k] == self.cell(Point::new_spec(k as i32, y)),
            decreases width - x,
        {
            let p = Point::new(x, y);
            proof {
                lemma_offset_in_area(self.size, p);
            }
            let start = (y as usize) * (width as usize);
            r.push(&self.array[start + x as usize]);
            x += 1;
        }
        Ok(r)
    }

    /// References to the cells of column `x`, by increasing `y`; fails with the
    /// point `(x, 0)` when the array has no column `x`.
    pub fn column_iter(&self, x: i32) -> (r: Result<Vec<&T>, Error>)
        requires
            self.wf(),
        ensures
            r is Ok <==> 0 <= x < self.shape().width,
            r matches Err(e) ==> e == Error::IndicesOutOfBounds(Point::new_spec(x, 0)),
            r matches Ok(v) ==> {
                &&& v@.len() == self.shape().height
                &&& forall|y: int|
                    0 <= y < v@.len() ==> *#[trigger] v@[y] == self.cell(
                        Point::new_spec(x, y as i32),
                    )
            },
    {
        if x < 0 || x >= self.size.width {
            return Err(Error::IndicesOutOfBounds(Point::new(x, 0)));
        }
        let height = self.size.height;
        let mut r: Vec<&T> = Vec::with_capacity(height as usize);
        let mut y: i32 = 0;
        while y < height
            invariant
                self.wf(),
                height == self.shape().height,
                0 <= x < self.shape().width,
                0 <= y <= height,
                r@.len() == y,
                forall|k: int|
                    0 <= k < y ==> *#[trigger] r@[k] == self.cell(Point::new_spec(x, k as i32)),
            decreases height - y,
        {
            let p = Point::new(x, y);
            proof {
                lemma_offset_in_area(self.size, p);
            }
            r.push(&self.array[(y as usize) * (self.size.width as usize) + x as usize]);
            y += 1;
        }
        Ok(r)
    }

    /// Every point of the array in row-major order.
    pub fn positions_row_major(&self) -> (r: Vec<Point>)
        requires
            self.wf(),
        ensures
            r@ == self.shape().row_major_points(),
    {
        self.size.positions_row_major()
    }

    /// Every point of the array in column-major order.
    pub fn indices_column_major(&self) -> (r: Vec<Point>)
        requires
            self.wf(),
        ensures
            r@ == self.shape().column_major_points(),
    {
        self.size.positions_column_major()
    }

    /// One row view per row, by increasing `y`.
    pub fn rows_iter(&self) -> (r: Vec<Vec<&T>>)
        requires
            self.wf(),
        ensures
            r@.len() == self.shape().height,
            forall|y: int|
                0 <= y < r@.len() ==> (#[trigger] r@[y])@.len() == self.shape().width,
            forall|y: int, x: int|
                0 <= y < r@.len() && 0 <= x < r@[y]@.len() ==> *#[trigger] r@[y]@[x] == self.cell(
                    Point::new_spec(x as i32, y as i32),
                ),
    {
        let height = self.size.height;
        let mut r: Vec<Vec<&T>> = Vec::with_capacity(height as usize);
        let mut y: i32 = 0;
        while y < height
            invariant
                self.wf(),
                height == self.shape().height,
                0 <= y <= height,
                r@.len() == y,
                forall|k: int| 0 <= k < y ==> (#[trigger] r@[k])@.len() == self.shape().width,
                forall|k: int, x: int|
                    0 <= k < y && 0 <= x < r@[k]@.len() ==> *#[trigger] r@[k]@[x] == self.cell(
                        Point::new_spec(x as i32, k as i32),
                    ),
            decreases height - y,
        {
            match self.row_iter(y) {
                Ok(row) => r.push(row),
                Err(_) => {},
            }
            y += 1;
        }
        r
    }

    /// One column view per column, by increasing `x`.
    pub fn columns_iter(&self) -> (r: Vec<Vec<&T>>)
        requires
            self.wf(),
        ensures
            r@.len() == self.shape().width,
            forall|x: int|
                0 <= x < r@.len() ==> (#[trigger] r@[x])@.len() == self.shape().height,
            forall|x: int, y: int|
                0 <= x < r@.len() && 0 <= y < r@[x]@.len() ==> *#[trigger] r@[x]@[y] == self.cell(
                    Point::new_spec(x as i32, y as i32),
                ),
    {
        let width = self.size.width;
        let mut r: Vec<Vec<&T>> = Vec::with_capacity(width as usize);
        let mut x: i32 = 0;
        while x < width
            invariant
                self.wf(),
                width == self.shape().width,
                0 <= x <= width,
                r@.len() == x,
                forall|k: int| 0 <= k < x ==> (#[trigger] r@[k])@.len() == self.shape().height,
                forall|k: int, y: int|
                    0 <= k < x && 0 <= y < r@[k]@.len() ==> *#[trigger] r@[k]@[y] == self.cell(
                        Point::new_spec(k as i32, y as i32),
                    ),
            decreases width - x,
        {
            match self.column_iter(x) {
                Ok(column) => r.push(column),
                Err(_) => {},
            }
            x += 1;
        }
        r
    }

    /// Clones of the cells in row-major order.
    pub fn as_row_major(&self) -> (r: Vec<T>)
        where
            T: Clone,
        requires
            self.wf(),
        ensures
            clones_of(self@, r@),
    {
        let elements = self.elements_row_major_iter();
        let mut r: Vec<T> = Vec::with_capacity(elements.len());
        let mut i: usize = 0;
        while i < elements.len()
            invariant
                elements@.len() == self@.len(),
                forall|k: int| 0 <= k < elements@.len() ==> *#[trigger] elements@[k] == self@[k],
                i <= elements@.len(),
                r@.len() == i,
                forall|k: int| 0 <= k < i ==> cloned(self@[k], #[trigger] r@[k]),
            decreases elements@.len() - i,
        {
            r.push(elements[i].clone());
            i += 1;
        }
        r
    }

    /// Clones of the cells in column-major order.
    pub fn as_column_major(&self) -> (r: Vec<T>)
        where
            T: Clone,
        requires
            self.wf(),
        ensures
            clones_of(self.column_major_cells(), r@),
    {
        let elements = self.elements_column_major_iter();
        let mut r: Vec<T> = Vec::with_capacity(elements.len());
        let mut i: usize = 0;
        while i < elements.len()
            invariant
                elements@.len() == self.column_major_cells().len(),
                forall|k: int|
                    0 <= k < elements@.len() ==> *#[trigger] elements@[k]
                        == self.column_major_cells()[k],
                i <= elements@.len(),
                r@.len() == i,
                forall|k: int| 0 <= k < i ==> cloned(self.column_major_cells()[k], #[trigger] r@[k]),
            decreases elements@.len() - i,
        {
            r.push(elements[i].clone());
            i += 1;
        }
        r
    }

    /// Each point in row-major order, paired with a reference to its cell.
    pub fn enumerate_row_major(&self) -> (r: Vec<(Point, &T)>)
        requires
            self.wf(),
        ensures
            r@.len() == self@.len(),
            forall|i: int|
                0 <= i < r@.len() ==> ((#[trigger] r@[i]).0, *r@[i].1) == self.pairs(
                    self.shape().row_major_points(),
                )[i],
    {
        proof {
            lemma_points_contained(self.shape());
        }
        self.enumerate(self.positions_row_major())
    }

    /// Each point in column-major order, paired with a reference to its cell.
    pub fn enumerate_column_major(&self) -> (r: Vec<(Point, &T)>)
        requires
            self.wf(),
        ensures
            r@.len() == self@.len(),
            forall|i: int|
                0 <= i < r@.len() ==> ((#[trigger] r@[i]).0, *r@[i].1) == self.pairs(
                    self.shape().column_major_points(),
                )[i],
    {
        proof {
            lemma_points_contained(self.shape());
        }
        self.enumerate(self.indices_column_major())
    }

    /// Pairs each of `positions`, all inside the array, with its cell.
    fn enumerate(&self, positions: Vec<Point>) -> (r: Vec<(Point, &T)>)
        requires
            self.wf(),
            forall|i: int| 0 <= i < positions@.len() ==> self.shape().contains(#[trigger] positions@[i]),
        ensures
            r@.len() == positions@.len(),
            forall|i: int|
                0 <= i < r@.len() ==> (#[trigger] r@[i]).0 == positions@[i] && *r@[i].1 == self.cell(
                    positions@[i],
                ),
    {
        let mut r: Vec<(Point, &T)> = Vec::with_capacity(positions.len());
        let mut i: usize = 0;
        while i < positions.len()
            invariant
                self.wf(),
                forall|k: int| 0 <= k < positions@.len() ==> self.shape().contains(#[trigger] positions@[k]),
                i <= positions@.len(),
                r@.len() == i,
                forall|k: int|
                    0 <= k < i ==> (#[trigger] r@[k]).0 == positions@[k] && *r@[k].1 == self.cell(
                        positions@[k],
                    ),
            decreases positions@.len() - i,
        {
            let pos = positions[i];
            match self.get(pos) {
                Some(v) => r.push((pos, v)),
                None => {},
            }
            i += 1;
        }
        r
    }
}

/// Listing an array's cells in column-major order and rebuilding a row-major
/// buffer from that listing gives back the array's cells; reading the
/// rebuilt buffer in column-major order gives back the listing.
pub proof fn lemma_column_major_round_trip<T>(a: &Array2<T>, values: Seq<T>)
    requires
        a.wf(),
        values.len() == a.shape().area(),
    ensures
        from_column_major_of(a.shape(), a.column_major_cells()) == a@,
        column_major_of(a.shape(), from_column_major_of(a.shape(), values)) == values,
{
    let e = a.shape();
    assert forall|i: int| 0 <= i < e.area() implies #[trigger] from_column_major_of(
        e,
        a.column_major_cells(),
    )[i] == a@[i] by {
        lemma_row_major_point(e, i);
        let p = e.row_major_point(i);
        lemma_column_major_offset(e, p);
    }
    assert(from_column_major_of(e, a.column_major_cells()) =~= a@);
    assert forall|i: int| 0 <= i < e.area() implies #[trigger] column_major_of(
        e,
        from_column_major_of(e, values),
    )[i] == values[i] by {
        lemma_column_major_point(e, i);
        let p = e.column_major_point(i);
        lemma_offset_in_area(e, p);
        lemma_row_major_offset(e, p);
    }
    assert(column_major_of(e, from_column_major_of(e, values)) =~= values);
}

/// Rebuilding an array from its materialised cells, in either order, gives
/// back its cells whenever cloning a value yields an equal value.
pub proof fn lemma_round_trip<T: Clone>(
    a: &Array2<T>,
    row_major: Seq<T>,
    from_row_major: Seq<T>,
    column_major: Seq<T>,
    from_column_major: Seq<T>,
)
    requires
        a.wf(),
        forall|x: T, y: T| cloned(x, y) ==> x == y,
        clones_of(a@, row_major),
        clones_of(row_major, from_row_major),
        clones_of(a.column_major_cells(), column_major),
        clones_of(from_column_major_of(a.shape(), column_major), from_column_major),
    ensures
        from_row_major == a@,
        from_column_major == a@,
{
    assert(row_major =~= a@);
    assert(from_row_major =~= a@);
    assert(column_major =~= a.column_major_cells());
    lemma_column_major_round_trip(a, a@);
    assert(from_column_major =~= a@);
}

/// No point is listed twice in either order, and both orders list the same
/// points: those of the rectangle.
pub proof fn lemma_orders_are_permutations(e: Extents)
    requires
        e.wf(),
    ensures
        e.row_major_points().no_duplicates(),
        e.column_major_points().no_duplicates(),
        forall|p: Point| e.row_major_points().contains(p) <==> e.contains(p),
        forall|p: Point| e.column_major_points().contains(p) <==> e.contains(p),
{
    assert forall|i: int, j: int|
        0 <= i < e.row_major_points().len() && 0 <= j < e.row_major_points().len() && i != j
    implies e.row_major_points()[i] != e.row_major_points()[j] by {
        lemma_row_major_point(e, i);
        lemma_row_major_point(e, j);
    }
    assert forall|i: int, j: int|
        0 <= i < e.column_major_points().len() && 0 <= j < e.column_major_points().len() && i != j
    implies e.column_major_points()[i] != e.column_major_points()[j] by {
        lemma_column_major_point(e, i);
        lemma_column_major_point(e, j);
    }
    lemma_points_contained(e);
    assert forall|p: Point| e.contains(p) implies e.row_major_points().contains(p) by {
        lemma_offset_in_area(e, p);
        lemma_row_major_offset(e, p);
        assert(e.row_major_points()[e.row_major_offset(p)] == p);
    }
    assert forall|p: Point| e.contains(p) implies e.column_major_points().contains(p) by {
        lemma_column_major_offset(e, p);
        assert(e.column_major_points()[e.column_major_offset(p)] == p);
    }
}

/// The (point, cell) pairs that row-major and column-major enumeration yield
/// are the same multiset, listed in different orders.
pub proof fn lemma_enumerations_agree<T>(a: &Array2<T>)
    requires
        a.wf(),
    ensures
        a.pairs(a.shape().row_major_points()).to_multiset() == a.pairs(
            a.shape().column_major_points(),
        ).to_multiset(),
{
    let e = a.shape();
    lemma_orders_are_permutations(e);
    lemma_points_contained(e);
    let rows = a.pairs(e.row_major_points());
    let cols = a.pairs(e.column_major_points());
    assert forall|i: int, j: int| 0 <= i < rows.len() && 0 <= j < rows.len() && i != j implies rows[i]
        != rows[j] by {
        assert(e.row_major_points()[i] != e.row_major_points()[j]);
    }
    assert forall|i: int, j: int| 0 <= i < cols.len() && 0 <= j < cols.len() && i != j implies cols[i]
        != cols[j] by {
        assert(e.column_major_points()[i] != e.column_major_points()[j]);
    }
    assert forall|v: (Point, T)| rows.contains(v) <==> cols.contains(v) by {
        if rows.contains(v) {
            let i = choose|i: int| 0 <= i < rows.len() && rows[i] == v;
            let p = e.row_major_points()[i];
            assert(e.contains(p));
            assert(e.column_major_points().contains(p));
            let j = choose|j: int| 0 <= j < cols.len() && e.column_major_points()[j] == p;
            assert(cols[j] == v);
        }
        if cols.contains(v) {
            let j = choose|j: int| 0 <= j < cols.len() && cols[j] == v;
            let p = e.column_major_points()[j];
            assert(e.contains(p));
            assert(e.row_major_points().contains(p));
            let i = choose|i: int| 0 <= i < rows.len() && e.row_major_points()[i] == p;
            assert(rows[i] == v);
        }
    }
    rows.lemma_multiset_has_no_duplicates();
    cols.lemma_multiset_has_no_duplicates();
    assert forall|v: (Point, T)| rows.to_multiset().count(v) == cols.to_multiset().count(v) by {
        rows.to_multiset_ensures();
        cols.to_multiset_ensures();
    }
    assert(rows.to_multiset() =~= cols.to_multiset());
}

} // verus!
