//! How many samples each pixel of a progressive render has received.
use vstd::prelude::*;

verus! {

/// Per-pixel sample counts of a progressive render.
pub struct SampleCounts {
    counts: Vec<u32>,
}

impl SampleCounts {
    /// The count of each pixel, row by row.
    pub closed spec fn per_pixel(&self) -> Seq<u32> {
        self.counts@
    }

    /// `pixels` pixels with no samples yet.
    pub fn new(pixels: usize) -> (s: Self)
        ensures
            s.per_pixel() == Seq::new(pixels as nat, |k: int| 0u32),
    {
        let mut counts: Vec<u32> = Vec::new();
        let mut i: usize = 0;
        while i < pixels
            invariant
                i <= pixels,
                counts@ == Seq::new(i as nat, |k: int| 0u32),
            decreases pixels - i,
        {
            counts.push(0);
            i = i + 1;
        }
        SampleCounts { counts }
    }

    /// Adds `spp` samples to every pixel when no count would pass
    /// `u32::MAX`, and reports whether it did; otherwise nothing changes.
    pub fn add(&mut self, spp: u32) -> (added: bool)
        ensures
            added == forall|k: int| 0 <= k < old(self).per_pixel().len() ==> old(self).per_pixel()[k] + spp <= u32::MAX,
            added ==> final(self).per_pixel() == Seq::new(
                old(self).per_pixel().len(),
                |k: int| (old(self).per_pixel()[k] + spp) as u32,
            ),
            !added ==> final(self).per_pixel() == old(self).per_pixel(),
    {
        let n = self.counts.len();
        let mut i: usize = 0;
        while i < n
            invariant
                i <= n,
                n == self.counts@.len(),
                self.counts@ == old(self).per_pixel(),
                forall|k: int| 0 <= k < i ==> old(self).per_pixel()[k] + spp <= u32::MAX,
            decreases n - i,
        {
            if self.counts[i] > u32::MAX - spp {
                return false;
            }
            i = i + 1;
        }
        let mut j: usize = 0;
        while j < n
            invariant
                j <= n,
                n == self.counts@.len(),
                n == old(self).per_pixel().len(),
                forall|k: int| 0 <= k < n ==> old(self).per_pixel()[k] + spp <= u32::MAX,
                forall|k: int| 0 <= k < j ==> self.counts@[k] == old(self).per_pixel()[k] + spp,
                forall|k: int| j <= k < n ==> self.counts@[k] == old(self).per_pixel()[k],
            decreases n - j,
        {
            let c = self.counts[j];
            assert(c == old(self).per_pixel()[j as int]);
            assert(old(self).per_pixel()[j as int] + spp <= u32::MAX);
            self.counts.set(j, c + spp);
            j = j + 1;
        }
        assert(self.counts@ =~= Seq::new(n as nat, |k: int| (old(self).per_pixel()[k] + spp) as u32));
        true
    }

    /// The counts, row by row.
    pub fn counts(&self) -> (c: &[u32])
        ensures
            c@ == self.per_pixel(),
    {
        self.counts.as_slice()
    }

    /// Forgets every sample.
    pub fn reset(&mut self)
        ensures
            final(self).per_pixel() == Seq::new(old(self).per_pixel().len(), |k: int| 0u32),
    {
        let n = self.counts.len();
        let mut j: usize = 0;
        while j < n
            invariant
                j <= n,
                n == self.counts@.len(),
                forall|k: int| 0 <= k < j ==> self.counts@[k] == 0,
            decreases n - j,
        {
            self.counts.set(j, 0);
            j = j + 1;
        }
        assert(self.counts@ =~= Seq::new(n as nat, |k: int| 0u32));
    }
}

} // verus!
