//! A row-major image buffer with `N` samples per pixel.
use vstd::prelude::*;

verus! {

/// Position of sample `i` of pixel `(x, y)` in a buffer `width` pixels wide
/// with `n` samples per pixel.
pub open spec fn sample_index(width: int, n: int, x: int, y: int, i: int) -> int {
    (x + y * width) * n + i
}

/// `width * height` pixels of `N` samples each, stored row by row.
pub struct RenderBuffer<E: Clone, const N: usize> {
    width: usize,
    height: usize,
    data: Vec<E>,
}

impl<E: Clone, const N: usize> RenderBuffer<E, N> {
    /// The stored samples.
    pub closed spec fn cells(&self) -> Seq<E> {
        self.data@
    }

    pub closed spec fn spec_width(&self) -> int {
        self.width as int
    }

    pub closed spec fn spec_height(&self) -> int {
        self.height as int
    }

    proof fn lemma_cells_fit(&self)
        ensures
            self.cells().len() <= usize::MAX,
    {
        assert(self.data.len() == self.data@.len());
    }

    /// One sample per pixel slot: `width * height * N` cells.
    pub open spec fn wf(&self) -> bool {
        self.cells().len() == self.spec_width() * self.spec_height() * N
    }

    /// Every buffer holds `width * height * N` cells.
    #[verifier::type_invariant]
    spec fn cell_count(&self) -> bool {
        self.data@.len() == self.width * self.height * N
    }

    /// A buffer whose every sample is a clone of `default`.
    pub fn new(width: usize, height: usize, default: E) -> (b: Self)
        requires
            width * height <= usize::MAX,
            width * height * N <= usize::MAX,
        ensures
            b.wf(),
            b.spec_width() == width,
            b.spec_height() == height,
            forall|k: int| 0 <= k < b.cells().len() ==> cloned(default, #[trigger] b.cells()[k]),
    {
        let n = width * height * N;
        RenderBuffer { width, height, data: vec![default; n] }
    }

    pub fn width(&self) -> (w: usize)
        ensures
            w == self.spec_width(),
            self.wf(),
    {
        proof {
            use_type_invariant(self);
        }
        self.width
    }

    pub fn height(&self) -> (h: usize)
        ensures
            h == self.spec_height(),
            self.wf(),
    {
        proof {
            use_type_invariant(self);
        }
        self.height
    }

    /// Sets every sample to a clone of `value`.
    pub fn clear(&mut self, value: E)
        ensures
            final(self).cells().len() == old(self).cells().len(),
            final(self).spec_width() == old(self).spec_width(),
            final(self).spec_height() == old(self).spec_height(),
            forall|k: int| 0 <= k < final(self).cells().len() ==> cloned(value, #[trigger] final(self).cells()[k]),
    {
        proof {
            use_type_invariant(&*self);
        }
        let n = self.data.len();
        self.data = vec![value; n];
    }

    /// All samples, row by row.
    pub fn as_slice(&self) -> (s: &[E])
        ensures
            s@ == self.cells(),
            self.wf(),
    {
        proof {
            use_type_invariant(self);
        }
        self.data.as_slice()
    }

    /// Position of sample `i` of pixel `(x, y)`.
    pub fn idx(&self, x: usize, y: usize, i: usize) -> (k: usize)
        requires
            x + y * self.spec_width() <= usize::MAX,
            sample_index(self.spec_width(), N as int, x as int, y as int, i as int) <= usize::MAX,
        ensures
            k == sample_index(self.spec_width(), N as int, x as int, y as int, i as int),
            self.wf(),
            x < self.spec_width() && y < self.spec_height() && i < N ==> k < self.cells().len(),
    {
        proof {
            use_type_invariant(self);
            if x < self.spec_width() && y < self.spec_height() && i < N {
                lemma_sample_index_injective(
                    self.spec_width(), self.spec_height(), N as int,
                    x as int, y as int, i as int, x as int, y as int, i as int,
                );
            }
        }
        (x + y * self.width) * N + i
    }

    pub fn get(&self, idx: usize) -> (e: &E)
        requires
            idx < self.cells().len(),
        ensures
            *e == self.cells()[idx as int],
    {
        &self.data[idx]
    }

    pub fn get_mut(&mut self, idx: usize) -> (e: &mut E)
        requires
            idx < old(self).cells().len(),
        ensures
            *e == old(self).cells()[idx as int],
            final(self).cells() == old(self).cells().update(idx as int, *final(e)),
            final(self).spec_width() == old(self).spec_width(),
            final(self).spec_height() == old(self).spec_height(),
    {
        proof {
            use_type_invariant(&*self);
        }
        &mut self.data[idx]
    }

    /// Sample `i` of pixel `(x, y)`.
    pub fn sample(&self, x: usize, y: usize, i: usize) -> (e: &E)
        requires
            x + y * self.spec_width() <= usize::MAX,
            sample_index(self.spec_width(), N as int, x as int, y as int, i as int) < self.cells().len(),
        ensures
            *e == self.cells()[sample_index(self.spec_width(), N as int, x as int, y as int, i as int)],
    {
        proof {
            self.lemma_cells_fit();
        }
        let k = self.idx(x, y, i);
        &self.data[k]
    }

    /// Mutable access to sample `i` of pixel `(x, y)`.
    pub fn sample_mut(&mut self, x: usize, y: usize, i: usize) -> (e: &mut E)
        requires
            x + y * old(self).spec_width() <= usize::MAX,
            sample_index(old(self).spec_width(), N as int, x as int, y as int, i as int) < old(self).cells().len(),
        ensures
            ({
                let k = sample_index(old(self).spec_width(), N as int, x as int, y as int, i as int);
                &&& *e == old(self).cells()[k]
                &&& final(self).cells() == old(self).cells().update(k, *final(e))
            }),
            final(self).cells().len() == old(self).cells().len(),
            final(self).spec_width() == old(self).spec_width(),
            final(self).spec_height() == old(self).spec_height(),
    {
        proof {
            self.lemma_cells_fit();
            use_type_invariant(&*self);
        }
        let k = self.idx(x, y, i);
        &mut self.data[k]
    }
}

impl<E: Clone> RenderBuffer<E, 1> {
    /// Pixel `(x, y)` of a single-sample buffer.
    pub fn pixel(&self, x: usize, y: usize) -> (e: &E)
        requires
            x + y * self.spec_width() < self.cells().len(),
        ensures
            *e == self.cells()[x + y * self.spec_width()],
    {
        proof {
            self.lemma_cells_fit();
        }
        &self.data[x + y * self.width]
    }

    /// Mutable access to pixel `(x, y)` of a single-sample buffer.
    pub fn pixel_mut(&mut self, x: usize, y: usize) -> (e: &mut E)
        requires
            x + y * old(self).spec_width() < old(self).cells().len(),
        ensures
            *e == old(self).cells()[x + y * old(self).spec_width()],
            final(self).cells() == old(self).cells().update(x + y * old(self).spec_width(), *final(e)),
            final(self).spec_width() == old(self).spec_width(),
            final(self).spec_height() == old(self).spec_height(),
    {
        proof {
            self.lemma_cells_fit();
            use_type_invariant(&*self);
        }
        &mut self.data[x + y * self.width]
    }
}

/// Distinct samples of distinct pixels inside the image occupy distinct
/// cells, all within the buffer.
pub proof fn lemma_sample_index_injective(
    width: int,
    height: int,
    n: int,
    x1: int,
    y1: int,
    i1: int,
    x2: int,
    y2: int,
    i2: int,
)
    requires
        0 <= x1 < width,
        0 <= y1 < height,
        0 <= i1 < n,
        0 <= x2 < width,
        0 <= y2 < height,
        0 <= i2 < n,
    ensures
        0 <= sample_index(width, n, x1, y1, i1) < width * height * n,
        (x1, y1, i1) != (x2, y2, i2) ==> sample_index(width, n, x1, y1, i1) != sample_index(width, n, x2, y2, i2),
{
    assert(0 <= sample_index(width, n, x1, y1, i1) < width * height * n) by (nonlinear_arith)
        requires
            0 <= x1 < width,
            0 <= y1 < height,
            0 <= i1 < n,
    {
        assert(x1 + y1 * width < width * height) by (nonlinear_arith)
            requires 0 <= x1 < width, 0 <= y1 < height;
        assert((x1 + y1 * width) * n + i1 < (x1 + y1 * width + 1) * n) by (nonlinear_arith)
            requires 0 <= i1 < n;
        assert((x1 + y1 * width + 1) * n <= width * height * n) by (nonlinear_arith)
            requires x1 + y1 * width < width * height, n > 0;
    }
    if (x1, y1, i1) != (x2, y2, i2) {
        let p1 = x1 + y1 * width;
        let p2 = x2 + y2 * width;
        if p1 == p2 {
            assert(y1 == y2 && x1 == x2) by (nonlinear_arith)
                requires
                    x1 + y1 * width == x2 + y2 * width,
                    0 <= x1 < width,
                    0 <= x2 < width,
                    0 <= y1,
                    0 <= y2,
            {
                if y1 < y2 {
                    assert(y1 * width + width <= y2 * width) by (nonlinear_arith)
                        requires y1 < y2, width > 0;
                } else if y2 < y1 {
                    assert(y2 * width + width <= y1 * width) by (nonlinear_arith)
                        requires y2 < y1, width > 0;
                }
            }
        } else {
            assert(p1 * n + i1 != p2 * n + i2) by (nonlinear_arith)
                requires
                    p1 != p2,
                    0 <= i1 < n,
                    0 <= i2 < n,
            {
                if p1 < p2 {
                    assert(p1 * n + n <= p2 * n) by (nonlinear_arith)
                        requires p1 < p2, n > 0;
                } else {
                    assert(p2 * n + n <= p1 * n) by (nonlinear_arith)
                        requires p2 < p1, n > 0;
                }
            }
        }
    }
}

} // verus!
