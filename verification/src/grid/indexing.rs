//! From positions among the cells back to locations.

use crate::grid::index_of;
use crate::grid::lemma_index_of_point;
use crate::grid::point_at;
use crate::grid::Grid;
use crate::grid::Point;
use vstd::prelude::*;

verus! {

impl<T> Grid<T> {
    /// Returns a closure which turns 1d indices into 2d indices: the
    /// position of a cell among the cells into its location in the grid.
    /// The position of each cell of the grid leads to the location of that
    /// cell.
    pub fn indexer(&self) -> (f: impl Fn(usize) -> Point)
        ensures
            forall|i: usize| self.spec_width() > 0 ==> f.requires((i,)),
            forall|i: usize, p: Point|
                f.ensures((i,), p) ==> p == point_at(self.spec_width() as nat, i as int),
            self.wf() ==> forall|i: usize, p: Point|
                i < self@.len() && #[trigger] f.ensures((i,), p) ==> self.contains(p) && index_of(
                    self.spec_width() as nat,
                    p,
                ) == i,
    {
        proof {
            if self.wf() {
                assert forall|i: usize| i < self@.len() implies {
                    let p = #[trigger] point_at(self.width as nat, i as int);
                    self.contains(p) && index_of(self.width as nat, p) == i
                } by {
                    lemma_index_of_point(self.width as nat, self.height as nat, i as int);
                }
            }
        }
        let w = self.width;
        move |i: usize| -> (p: Point)
            requires
                w > 0,
            ensures
                p == point_at(w as nat, i as int),
            { Point { x: i % w, y: i / w } }
    }
}

} // verus!
