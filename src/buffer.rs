use vstd::prelude::*;

verus! {

/// A `width` x `height` grid of pixels, stored row by row.
#[derive(Clone, Debug)]
pub struct Buffer<T> {
    pub data: Vec<T>,
    pub width: usize,
    pub height: usize,
}

impl<T: Copy> Buffer<T> {
    /// The grid holds exactly one pixel per cell.
    pub open spec fn wf(&self) -> bool {
        self.data@.len() == self.width * self.height
    }

    /// A grid of `width` x `height` pixels, each set to `fill`.
    pub fn new(width: usize, height: usize, fill: T) -> (b: Self)
        requires
            width * height <= usize::MAX,
        ensures
            b.wf(),
            b.width == width,
            b.height == height,
            forall|i: int| 0 <= i < b.data@.len() ==> b.data@[i] == fill,
    {
        let n = width * height;
        let mut data: Vec<T> = Vec::with_capacity(n);
        let mut k: usize = 0;
        while k < n
            invariant
                k <= n,
                data@.len() == k,
                forall|i: int| 0 <= i < k ==> data@[i] == fill,
            decreases n - k,
        {
            data.push(fill);
            k = k + 1;
        }
        Buffer { data, width, height }
    }

    pub fn width(&self) -> (r: usize)
        ensures
            r == self.width,
    {
        self.width
    }

    pub fn height(&self) -> (r: usize)
        ensures
            r == self.height,
    {
        self.height
    }

    /// The pixel stored at position `i` of the row-by-row order.
    pub fn at(&self, i: usize) -> (r: &T)
        requires
            i < self.data@.len(),
        ensures
            *r == self.data@[i as int],
    {
        &self.data[i]
    }
}

} // verus!
