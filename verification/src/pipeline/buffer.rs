//! A row-major image buffer with one value per pixel.
use vstd::prelude::*;

verus! {

/// `width * height` values stored row by row.
pub struct RenderBuffer<E: Clone> {
    width: usize,
    height: usize,
    data: Vec<E>,
}

impl<E: Clone> RenderBuffer<E> {
    /// The stored pixels.
    pub closed spec fn cells(&self) -> Seq<E> {
        self.data@
    }

    pub closed spec fn spec_width(&self) -> int {
        self.width as int
    }

    pub closed spec fn spec_height(&self) -> int {
        self.height as int
    }

    /// One cell per pixel.
    pub open spec fn wf(&self) -> bool {
        self.cells().len() == self.spec_width() * self.spec_height()
    }

    /// Every buffer holds `width * height` cells.
    #[verifier::type_invariant]
    spec fn cell_count(&self) -> bool {
        self.data@.len() == self.width * self.height
    }

    proof fn lemma_cells_fit(&self)
        ensures
            self.cells().len() <= usize::MAX,
    {
        assert(self.data.len() == self.data@.len());
    }

    /// A buffer whose every pixel is a clone of `default`.
    pub fn new(width: usize, height: usize, default: E) -> (b: Self)
        requires
            width * height <= usize::MAX,
        ensures
            b.wf(),
            b.spec_width() == width,
            b.spec_height() == height,
            forall|k: int| 0 <= k < b.cells().len() ==> cloned(default, #[trigger] b.cells()[k]),
    {
        RenderBuffer { width, height, data: vec![default; width * height] }
    }

    pub fn width(&self) -> (w: usize)
        ensures
            w == self.spec_width(),
            self.wf(),
    {
        proof {
            use_type_invariant(self);
        }
        self.width
    }

    pub fn height(&self) -> (h: usize)
        ensures
            h == self.spec_height(),
            self.wf(),
    {
        proof {
            use_type_invariant(self);
        }
        self.height
    }

    /// Sets every pixel to a clone of `value`.
    pub fn clear(&mut self, value: E)
        ensures
            final(self).cells().len() == old(self).cells().len(),
            final(self).spec_width() == old(self).spec_width(),
            final(self).spec_height() == old(self).spec_height(),
            forall|k: int| 0 <= k < final(self).cells().len() ==> cloned(value, #[trigger] final(self).cells()[k]),
    {
        proof {
            use_type_invariant(&*self);
        }
        let n = self.data.len();
        self.data = vec![value; n];
    }

    /// All pixels, row by row.
    pub fn as_slice(&self) -> (s: &[E])
        ensures
            s@ == self.cells(),
            self.wf(),
    {
        proof {
            use_type_invariant(self);
        }
        self.data.as_slice()
    }

    /// Pixel `(x, y)`.
    pub fn pixel(&self, x: usize, y: usize) -> (e: &E)
        requires
            x + y * self.spec_width() < self.cells().len(),
        ensures
            *e == self.cells()[x + y * self.spec_width()],
    {
        proof {
            self.lemma_cells_fit();
        }
        &self.data[x + y * self.width]
    }

    /// Mutable access to pixel `(x, y)`.
    pub fn get_mut(&mut self, x: usize, y: usize) -> (e: &mut E)
        requires
            x + y * old(self).spec_width() < old(self).cells().len(),
        ensures
            *e == old(self).cells()[x + y * old(self).spec_width()],
            final(self).cells() == old(self).cells().update(x + y * old(self).spec_width(), *final(e)),
            final(self).spec_width() == old(self).spec_width(),
            final(self).spec_height() == old(self).spec_height(),
    {
        proof {
            self.lemma_cells_fit();
            use_type_invariant(&*self);
        }
        &mut self.data[x + y * self.width]
    }
}

/// Writing pixel `(x, y)` and reading it back gives the written value, and
/// every other pixel of the image keeps its value.
pub proof fn lemma_write_then_read<E>(cells: Seq<E>, width: int, height: int, x: int, y: int, v: E, x2: int, y2: int)
    requires
        cells.len() == width * height,
        0 <= x < width,
        0 <= y < height,
        0 <= x2 < width,
        0 <= y2 < height,
    ensures
        0 <= x + y * width < cells.len(),
        cells.update(x + y * width, v)[x + y * width] == v,
        (x2, y2) != (x, y) ==> cells.update(x + y * width, v)[x2 + y2 * width] == cells[x2 + y2 * width],
{
    crate::buffer::lemma_sample_index_injective(width, height, 1, x, y, 0, x2, y2, 0);
    crate::buffer::lemma_sample_index_injective(width, height, 1, x2, y2, 0, x, y, 0);
    assert(width * height * 1 == width * height);
    assert(crate::buffer::sample_index(width, 1, x, y, 0) == x + y * width);
    assert(crate::buffer::sample_index(width, 1, x2, y2, 0) == x2 + y2 * width);
}

} // verus!
