//! A two-dimensional grid of cells, stored row by row, top row first.

use rayon::iter::IndexedParallelIterator;
use rayon::iter::ParallelIterator;
use rayon::slice::ParallelSliceMut;
use vstd::prelude::*;

pub mod indexing;

verus! {

/// A location in a grid: column `x`, row `y`.
#[derive(Clone, Copy, Debug, PartialEq, Eq, Structural)]
pub struct Point {
    pub x: usize,
    pub y: usize,
}

/// The position in row-major order of the cell at `p` in a grid `width` wide.
pub open spec fn index_of(width: nat, p: Point) -> int {
    p.y * width + p.x
}

/// The location of the cell at position `i` in a grid `width` wide.
pub open spec fn point_at(width: nat, i: int) -> Point {
    Point { x: (i % (width as int)) as usize, y: (i / (width as int)) as usize }
}

/// Whether `p` lies in a grid of the given dimensions.
pub open spec fn in_bounds(width: nat, height: nat, p: Point) -> bool {
    p.x < width && p.y < height
}

/// A location inside a grid has a position below the number of cells.
pub proof fn lemma_index_below_size(width: nat, height: nat, p: Point)
    requires
        in_bounds(width, height, p),
    ensures
        0 <= p.y * width <= index_of(width, p) < width * height,
{
    assert(0 <= p.y * width && p.y * width + width <= width * height) by (nonlinear_arith)
        requires
            0 <= p.y,
            p.y + 1 <= height,
    ;
}

/// Locations and positions correspond one to one: the position of a location
/// inside the grid leads back to that location.
pub proof fn lemma_point_of_index(width: nat, height: nat, p: Point)
    requires
        in_bounds(width, height, p),
    ensures
        point_at(width, index_of(width, p)) == p,
{
    let w = width as int;
    let x = p.x as int;
    let y = p.y as int;
    assert((y * w + x) / w == y && (y * w + x) % w == x) by (nonlinear_arith)
        requires
            0 <= x < w,
            0 <= y,
    ;
}

/// Locations and positions correspond one to one: every position below the
/// number of cells is that of one location inside the grid.
pub proof fn lemma_index_of_point(width: nat, height: nat, i: int)
    requires
        0 <= i < width * height,
        i <= usize::MAX,
    ensures
        in_bounds(width, height, point_at(width, i)),
        index_of(width, point_at(width, i)) == i,
{
    let w = width as int;
    let h = height as int;
    assert(w > 0) by (nonlinear_arith)
        requires
            0 <= i < w * h,
            0 <= w,
    ;
    assert(0 <= i % w < w && 0 <= i / w < h && (i / w) * w + i % w == i) by (nonlinear_arith)
        requires
            0 <= i < w * h,
            0 < w,
    ;
    assert(i / w <= i && i % w <= i) by (nonlinear_arith)
        requires
            0 <= i,
            0 < w,
    ;
}

/// Just a two-dimensional array.
pub struct Grid<T> {
    width: usize,
    height: usize,
    v: Vec<T>,
}

impl<T> View for Grid<T> {
    type V = Seq<T>;

    /// The cells in row-major order.
    closed spec fn view(&self) -> Seq<T> {
        self.v@
    }
}

impl<T> Grid<T> {
    pub closed spec fn spec_width(&self) -> usize {
        self.width
    }

    pub closed spec fn spec_height(&self) -> usize {
        self.height
    }

    /// The grid holds one cell for each location.
    pub open spec fn wf(&self) -> bool {
        self@.len() == self.spec_width() * self.spec_height()
    }

    /// Whether `p` is a location of this grid.
    pub open spec fn contains(&self, p: Point) -> bool {
        in_bounds(self.spec_width() as nat, self.spec_height() as nat, p)
    }

    /// The cell at `p`.
    pub open spec fn at(&self, p: Point) -> T {
        self@[index_of(self.spec_width() as nat, p)]
    }

    /// A grid of the given dimensions, each cell holding the default value.
    pub fn new(width: usize, height: usize) -> (grid: Self) where T: Default + Copy
        requires
            width * height <= usize::MAX,
        ensures
            grid.wf(),
            grid.spec_width() == width,
            grid.spec_height() == height,
            forall|i: int| 0 <= i < grid@.len() ==> call_ensures(T::default, (), #[trigger] grid@[i]),
            forall|i: int, j: int| 0 <= i < grid@.len() && 0 <= j < grid@.len() ==> grid@[i] == grid@[j],
    {
        let size = width * height;
        let fill = T::default();
        let mut v: Vec<T> = Vec::new();
        let mut i: usize = 0;
        while i < size
            invariant
                i <= size,
                v.len() == i,
                call_ensures(T::default, (), fill),
                forall|j: int| 0 <= j < i ==> v[j] == fill,
            decreases size - i,
        {
            v.push(fill);
            i += 1;
        }
        Grid { width, height, v }
    }

    /// Where the cell at `p` stands among the cells.
    fn offset(&self, p: &Point) -> (i: usize)
        requires
            self.wf(),
            self.contains(*p),
        ensures
            i == index_of(self.spec_width() as nat, *p),
            i < self@.len(),
    {
        proof {
            lemma_index_below_size(self.width as nat, self.height as nat, *p);
            assert(p.y * self.width < self.v.len());
        }
        p.y * self.width + p.x
    }

    /// Get the element at the specified 2D location in the grid.
    pub fn get(&self, p: &Point) -> (cell: &T)
        requires
            self.wf(),
            self.contains(*p),
        ensures
            *cell == self.at(*p),
    {
        &self.v[self.offset(p)]
    }

    /// Get the element at the specified 2D location in the grid.
    pub fn get_at(&self, p: &Point) -> (cell: &T)
        requires
            self.wf(),
            self.contains(*p),
        ensures
            *cell == self.at(*p),
    {
        self.get(p)
    }

    /// Put `val` into the cell at `p`; every other cell keeps its value.
    pub fn set(&mut self, p: Point, val: T)
        requires
            old(self).wf(),
            old(self).contains(p),
        ensures
            final(self).wf(),
            final(self).spec_width() == old(self).spec_width(),
            final(self).spec_height() == old(self).spec_height(),
            final(self)@ == old(self)@.update(index_of(old(self).spec_width() as nat, p), val),
            final(self).at(p) == val,
            forall|q: Point|
                final(self).contains(q) && q != p ==> #[trigger] final(self).at(q) == old(self).at(
                    q,
                ),
    {
        let i = self.offset(&p);
        self.v[i] = val;
        proof {
            let w = self.width as nat;
            let h = self.height as nat;
            lemma_point_of_index(w, h, p);
            assert forall|q: Point| self.contains(q) && q != p implies #[trigger] self.at(q)
                == old(self).at(q) by {
                lemma_point_of_index(w, h, q);
                lemma_index_below_size(w, h, q);
            }
        }
    }

    /// How many elements are in the grid?
    pub fn size(&self) -> (n: usize)
        requires
            self.wf(),
        ensures
            n == self.spec_width() * self.spec_height(),
            n == self@.len(),
    {
        self.v.len()
    }

    #[verifier::when_used_as_spec(spec_height)]
    pub fn height(&self) -> (h: usize)
        ensures
            h == self.spec_height(),
    {
        self.height
    }

    #[verifier::when_used_as_spec(spec_width)]
    pub fn width(&self) -> (w: usize)
        ensures
            w == self.spec_width(),
    {
        self.width
    }

    /// The cells as one slice in row-major order. What is written through
    /// the slice is what the grid holds afterwards; a slice keeps its length,
    /// so the grid stays well-formed.
    pub fn mut_slice(&mut self) -> (cells: &mut [T])
        ensures
            cells@ == old(self)@,
            final(self)@ == final(cells)@,
            final(self).spec_width() == old(self).spec_width(),
            final(self).spec_height() == old(self).spec_height(),
            old(self).wf() && final(cells)@.len() == cells@.len() ==> final(self).wf(),
    {
        self.v.as_mut_slice()
    }

    /// Recompute each item in the grid using the provided setter function.
    /// The setter function takes the item's location in the grid and outputs
    /// the desired value of that item.
    pub fn set_all_parallel<F>(&mut self, setter: F) where
        F: Send + Sync + Fn(Point) -> T,
        T: Send,

        requires
            old(self).wf(),
            forall|p: Point| old(self).contains(p) ==> #[trigger] setter.requires((p,)),
        ensures
            final(self).wf(),
            final(self).spec_width() == old(self).spec_width(),
            final(self).spec_height() == old(self).spec_height(),
            forall|p: Point|
                final(self).contains(p) ==> setter.ensures((p,), #[trigger] final(self).at(p)),
    {
        let width = self.width;
        let ghost w = self.width as nat;
        let ghost h = self.height as nat;
        if width == 0 {
            return ;
        }
        proof {
            assert((w * h) % w == 0) by (nonlinear_arith)
                requires
                    w > 0,
            ;
            assert forall|x: usize, y: usize|
                x < width && y * width < self.v.len() implies #[trigger] setter.requires(
                (Point { x, y },),
            ) by {
                assert(y < h) by (nonlinear_arith)
                    requires
                        y * w < w * h,
                        w > 0,
                ;
                assert(self.contains(Point { x, y }));
            }
        }
        fill_rows(&mut self.v, width, &setter);
        proof {
            assert forall|p: Point| self.contains(p) implies setter.ensures(
                (p,),
                #[trigger] self.at(p),
            ) by {
                lemma_index_below_size(w, h, p);
                assert(p == Point { x: p.x, y: p.y });
                assert(setter.ensures((Point { x: p.x, y: p.y },), self.v[p.y * width + p.x]));
            }
        }
    }
}

/// Recompute each item of one row, the row `y`, from left to right.
fn fill_row<T, F>(row: &mut [T], y: usize, setter: &F) where F: Fn(Point) -> T
    requires
        forall|x: usize| x < old(row)@.len() ==> #[trigger] setter.requires((Point { x, y },)),
    ensures
        final(row)@.len() == old(row)@.len(),
        forall|x: usize|
            x < old(row)@.len() ==> setter.ensures(
                (Point { x, y },),
                #[trigger] final(row)@[x as int],
            ),
{
    let n = row.len();
    let mut x: usize = 0;
    while x < n
        invariant
            x <= n,
            n == row@.len(),
            row@.len() == old(row)@.len(),
            forall|k: usize| k < n ==> #[trigger] setter.requires((Point { x: k, y },)),
            forall|k: usize|
                k < x ==> setter.ensures((Point { x: k, y },), #[trigger] row@[k as int]),
        decreases n - x,
    {
        let val = setter(Point { x, y });
        row[x] = val;
        x += 1;
    }
}

/// Hands the rows of `cells`, each `width` long, to rayon's worker threads:
/// `par_chunks_mut` cuts the cells into rows that do not overlap, `enumerate`
/// numbers them from the top, and `for_each` runs `fill_row` once on each.
/// So every cell ends up with what `setter` gave for its location.
#[verifier::external_body]
fn fill_rows<T, F>(cells: &mut Vec<T>, width: usize, setter: &F) where
    F: Send + Sync + Fn(Point) -> T,
    T: Send,

    requires
        width > 0,
        old(cells).len() % width == 0,
        forall|x: usize, y: usize|
            x < width && y * width < old(cells).len() ==> #[trigger] setter.requires(
                (Point { x, y },),
            ),
    ensures
        final(cells).len() == old(cells).len(),
        forall|x: usize, y: usize|
            x < width && y * width < old(cells).len() ==> setter.ensures(
                (Point { x, y },),
                #[trigger] final(cells)[y * width + x],
            ),
{
    cells.par_chunks_mut(width).enumerate().for_each(|(y, row)| fill_row(row, y, setter));
}

} // verus!
