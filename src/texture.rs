use vstd::prelude::*;

verus! {

/// The checker cell `(x, y, z)` takes the even texture: its coordinates sum
/// to an even number.
pub open spec fn cell_is_even(x: int, y: int, z: int) -> bool {
    (x + y + z) % 2 == 0
}

/// Whether the checker cell with integer coordinates `(x, y, z)` takes the
/// even texture.
pub fn checker_is_even(x: i32, y: i32, z: i32) -> (r: bool)
    ensures
        r == cell_is_even(x as int, y as int, z as int),
{
    // 2^33 is even and lifts every sum of three coordinates above zero.
    let shifted: u64 = (x as i64 + y as i64 + z as i64 + 8589934592i64) as u64;
    assert((x + y + z + 8589934592) % 2 == (x + y + z) % 2) by {
        assert(8589934592int == 2 * 4294967296);
        vstd::arithmetic::div_mod::lemma_mod_multiples_vanish(4294967296, (x + y + z) as int, 2);
    }
    shifted % 2 == 0
}

/// Stepping one cell along any axis switches between the two textures, in
/// either direction and wherever the step starts.
pub proof fn lemma_checker_alternates(x: int, y: int, z: int)
    ensures
        cell_is_even(x + 1, y, z) != cell_is_even(x, y, z),
        cell_is_even(x, y + 1, z) != cell_is_even(x, y, z),
        cell_is_even(x, y, z + 1) != cell_is_even(x, y, z),
        cell_is_even(x - 1, y, z) != cell_is_even(x, y, z),
        cell_is_even(x, y - 1, z) != cell_is_even(x, y, z),
        cell_is_even(x, y, z - 1) != cell_is_even(x, y, z),
{
}

/// A bitmap texture: `width` x `height` pixels of three 8-bit channels,
/// stored row by row from the top.
pub struct ImageTexture {
    width: u32,
    height: u32,
    data: Vec<u8>,
}

/// The pixel at column `i`, row `j` of the row-by-row channels `data` of an
/// image `width` pixels wide.
pub open spec fn pixel_of(data: Seq<u8>, width: int, i: int, j: int) -> (u8, u8, u8) {
    let base = 3 * (j * width + i);
    (data[base], data[base + 1], data[base + 2])
}

impl ImageTexture {
    pub closed spec fn width_spec(self) -> nat {
        self.width as nat
    }

    pub closed spec fn height_spec(self) -> nat {
        self.height as nat
    }

    /// The channels, row by row.
    pub closed spec fn pixels(self) -> Seq<u8> {
        self.data@
    }

    pub open spec fn wf(self) -> bool {
        &&& self.width_spec() > 0
        &&& self.height_spec() > 0
        &&& self.pixels().len() == 3 * self.width_spec() * self.height_spec()
    }

    /// The texture of a decoded bitmap; `None` unless it has at least one
    /// pixel and `data` holds three channels for each.
    pub fn new(width: u32, height: u32, data: Vec<u8>) -> (r: Option<Self>)
        ensures
            r is Some <==> (width > 0 && height > 0 && data@.len() == 3 * width * height),
            r matches Some(t) ==> t.wf() && t.width_spec() == width && t.height_spec() == height
                && t.pixels() == data@,
    {
        if width == 0 || height == 0 {
            return None;
        }
        let n = data.len() as u128;
        assert(3 * width * height <= 3 * 0xffff_ffffu128 * 0xffff_ffffu128) by (nonlinear_arith)
            requires
                width <= 0xffff_ffffu128,
                height <= 0xffff_ffffu128,
        ;
        let expected = 3u128 * width as u128 * height as u128;
        if n != expected {
            return None;
        }
        Some(ImageTexture { width, height, data })
    }

    pub fn width(&self) -> (r: u32)
        ensures
            r == self.width_spec(),
    {
        self.width
    }

    pub fn height(&self) -> (r: u32)
        ensures
            r == self.height_spec(),
    {
        self.height
    }

    /// The pixel at column `i`, row `j`, counted from the top left.
    pub fn texel(&self, i: u32, j: u32) -> (r: (u8, u8, u8))
        requires
            self.wf(),
            i < self.width_spec(),
            j < self.height_spec(),
        ensures
            r == pixel_of(self.pixels(), self.width_spec() as int, i as int, j as int),
    {
        let w = self.width as usize;
        let len = self.data.len();
        assert(j * w <= j * w + i < w * self.height && 3 * (j * w + i) + 2 < 3 * w * self.height)
            by (nonlinear_arith)
            requires
                i < w,
                j < self.height,
        ;
        assert(3 * w * self.height == len);
        let base = 3 * (j as usize * w + i as usize);
        (self.data[base], self.data[base + 1], self.data[base + 2])
    }
}

} // verus!
