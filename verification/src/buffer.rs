//! A fixed-size two-dimensional grid of cells, stored row by row.

use vstd::prelude::*;

use crate::pixel::filler_pixel;
use crate::pixel::Pixel;

verus! {

/// A grid of `Pixel`s.  The view of a buffer is the sequence of its rows,
/// each row a sequence of cells; `(x, y)` addresses column `x` of row `y`,
/// with the origin in the top-left corner.
pub struct Buffer {
    pixels: Vec<Vec<Pixel>>,
}

/// A grid of `h` rows and `w` columns whose every cell is `p`.
pub open spec fn grid_of(w: int, h: int, p: Pixel) -> Seq<Seq<Pixel>> {
    Seq::new(h as nat, |y: int| Seq::new(w as nat, |x: int| p))
}

impl Buffer {
    pub closed spec fn view(&self) -> Seq<Seq<Pixel>> {
        self.pixels@.map_values(|row: Vec<Pixel>| row@)
    }

    /// The buffer is a rectangle of `w` columns and `h` rows.
    pub open spec fn is_grid(&self, w: int, h: int) -> bool {
        &&& self@.len() == h
        &&& forall|y: int| 0 <= y < h ==> (#[trigger] self@[y]).len() == w
    }

    /// An empty buffer with no rows; it is given its size by `resize`.
    pub fn new() -> (b: Buffer)
        ensures
            b@ == Seq::<Seq<Pixel>>::empty(),
            b.is_grid(0, 0),
    {
        let b = Buffer { pixels: Vec::new() };
        proof {
            assert(b@ =~= Seq::<Seq<Pixel>>::empty());
        }
        b
    }

    /// Resizes the grid to `width` columns and `height` rows.  Cells that lie
    /// inside both the old and the new bounds keep their contents (the
    /// top-left origin is preserved); newly exposed cells are filled with the
    /// filler cell.
    pub fn resize(&mut self, width: i16, height: i16)
        requires
            0 <= width,
            0 <= height,
        ensures
            final(self).is_grid(width as int, height as int),
            forall|y: int, x: int|
                0 <= y < height && 0 <= x < width ==> #[trigger] final(self)@[y][x] == (if y
                    < old(self)@.len() && x < old(self)@[y].len() {
                    old(self)@[y][x]
                } else {
                    filler_pixel()
                }),
    {
        let w = width as usize;
        let h = height as usize;
        let mut rows: Vec<Vec<Pixel>> = Vec::new();
        while rows.len() < h
            invariant
                rows.len() <= h,
                forall|y: int| 0 <= y < rows.len() ==> (#[trigger] rows@[y])@.len() == w,
                forall|y: int, x: int|
                    0 <= y < rows.len() && 0 <= x < w ==> #[trigger] rows@[y]@[x] == (if y
                        < self@.len() && x < self@[y].len() {
                        self@[y][x]
                    } else {
                        filler_pixel()
                    }),
            decreases h - rows.len(),
        {
            let y = rows.len();
            let mut row: Vec<Pixel> = Vec::new();
            while row.len() < w
                invariant
                    row.len() <= w,
                    y < h,
                    forall|x: int|
                        0 <= x < row.len() ==> #[trigger] row@[x] == (if y < self@.len() && x
                            < self@[y as int].len() {
                            self@[y as int][x]
                        } else {
                            filler_pixel()
                        }),
                decreases w - row.len(),
            {
                let x = row.len();
                let p = if y < self.pixels.len() && x < self.pixels[y].len() {
                    self.pixels[y][x]
                } else {
                    Pixel::filler()
                };
                row.push(p);
            }
            rows.push(row);
        }
        self.pixels = rows;
    }

    /// Overwrites every cell of the grid with `pixel`; the dimensions are
    /// unchanged.
    pub fn fill(&mut self, pixel: Pixel)
        ensures
            final(self)@.len() == old(self)@.len(),
            forall|y: int|
                0 <= y < old(self)@.len() ==> (#[trigger] final(self)@[y]).len()
                    == old(self)@[y].len(),
            forall|y: int, x: int|
                0 <= y < old(self)@.len() && 0 <= x < old(self)@[y].len()
                    ==> #[trigger] final(self)@[y][x] == pixel,
    {
        let mut rows: Vec<Vec<Pixel>> = Vec::new();
        while rows.len() < self.pixels.len()
            invariant
                rows.len() <= self@.len(),
                forall|y: int|
                    0 <= y < rows.len() ==> (#[trigger] rows@[y])@.len() == self@[y].len(),
                forall|y: int, x: int|
                    0 <= y < rows.len() && 0 <= x < self@[y].len() ==> #[trigger] rows@[y]@[x]
                        == pixel,
            decreases self@.len() - rows.len(),
        {
            let y = rows.len();
            let width = self.pixels[y].len();
            let mut row: Vec<Pixel> = Vec::new();
            while row.len() < width
                invariant
                    row.len() <= width,
                    forall|x: int| 0 <= x < row.len() ==> #[trigger] row@[x] == pixel,
                decreases width - row.len(),
            {
                row.push(pixel);
            }
            rows.push(row);
        }
        self.pixels = rows;
    }

    /// Clears the grid to the filler cell.
    pub fn clear(&mut self)
        ensures
            final(self)@.len() == old(self)@.len(),
            forall|y: int|
                0 <= y < old(self)@.len() ==> (#[trigger] final(self)@[y]).len()
                    == old(self)@[y].len(),
            forall|y: int, x: int|
                0 <= y < old(self)@.len() && 0 <= x < old(self)@[y].len()
                    ==> #[trigger] final(self)@[y][x] == filler_pixel(),
    {
        self.fill(Pixel::filler());
    }

    /// The cell at column `x` of row `y`.  Out-of-range coordinates are a
    /// programming error and are excluded outright.
    pub fn get(&self, x: i16, y: i16) -> (p: Pixel)
        requires
            0 <= y < self@.len(),
            0 <= x < self@[y as int].len(),
        ensures
            p == self@[y as int][x as int],
    {
        self.pixels[y as usize][x as usize]
    }

    /// An independent copy of the grid, cell for cell.
    fn duplicate(&self) -> (r: Buffer)
        ensures
            r@ == self@,
    {
        let mut rows: Vec<Vec<Pixel>> = Vec::new();
        while rows.len() < self.pixels.len()
            invariant
                rows.len() <= self@.len(),
                forall|y: int| 0 <= y < rows.len() ==> #[trigger] rows@[y]@ == self@[y],
            decreases self@.len() - rows.len(),
        {
            let y = rows.len();
            let width = self.pixels[y].len();
            let mut row: Vec<Pixel> = Vec::new();
            while row.len() < width
                invariant
                    row.len() <= width,
                    y < self@.len(),
                    width == self@[y as int].len(),
                    forall|x: int| 0 <= x < row.len() ==> #[trigger] row@[x] == self@[y as int][x],
                decreases width - row.len(),
            {
                let x = row.len();
                row.push(self.pixels[y][x]);
            }
            proof {
                assert(row@ =~= self@[y as int]);
            }
            rows.push(row);
        }
        let r = Buffer { pixels: rows };
        proof {
            assert(r@ =~~= self@);
        }
        r
    }

    /// Replaces the cell at column `x` of row `y`; every other cell is kept.
    pub fn set(&mut self, x: i16, y: i16, pixel: Pixel)
        requires
            0 <= y < old(self)@.len(),
            0 <= x < old(self)@[y as int].len(),
        ensures
            final(self)@.len() == old(self)@.len(),
            final(self)@[y as int] == old(self)@[y as int].update(x as int, pixel),
            forall|i: int|
                0 <= i < old(self)@.len() && i != y ==> #[trigger] final(self)@[i]
                    == old(self)@[i],
    {
        self.pixels[y as usize][x as usize] = pixel;
    }
}

impl Clone for Buffer {
    /// An independent copy of the grid, cell for cell.
    fn clone(&self) -> (r: Buffer)
        ensures
            r@ == self@,
    {
        self.duplicate()
    }
}

} // verus!
