use vstd::prelude::*;

use crate::buffer::Buffer;

verus! {

/// The ASCII decimal digits of `n`, without leading zeros.
pub open spec fn decimal(n: nat) -> Seq<u8>
    decreases n,
{
    if n < 10 {
        seq![(48 + n) as u8]
    } else {
        decimal(n / 10) + seq![(48 + n % 10) as u8]
    }
}

/// One pixel of the plain-text format: `"R G B\n"`.
pub open spec fn ppm_pixel(p: (u8, u8, u8)) -> Seq<u8> {
    decimal(p.0 as nat) + seq![32u8] + decimal(p.1 as nat) + seq![32u8] + decimal(p.2 as nat)
        + seq![10u8]
}

/// The pixel lines of `s`, in order.
pub open spec fn ppm_pixels(s: Seq<(u8, u8, u8)>) -> Seq<u8>
    decreases s.len(),
{
    if s.len() == 0 {
        Seq::empty()
    } else {
        ppm_pixels(s.drop_last()) + ppm_pixel(s.last())
    }
}

/// The header `"P3\n{width} {height}\n255\n"`.
pub open spec fn ppm_header(width: nat, height: nat) -> Seq<u8> {
    seq![80u8, 51u8, 10u8] + decimal(width) + seq![32u8] + decimal(height) + seq![
        10u8,
        50u8,
        53u8,
        53u8,
        10u8,
    ]
}

/// Appends the decimal digits of `n` to `out`.
fn push_decimal(out: &mut Vec<u8>, n: usize)
    ensures
        final(out)@ == old(out)@ + decimal(n as nat),
    decreases n,
{
    if n < 10 {
        out.push((48 + n) as u8);
    } else {
        push_decimal(out, n / 10);
        out.push((48 + n % 10) as u8);
    }
    assert(final(out)@ =~= old(out)@ + decimal(n as nat));
}

/// The buffer in the plain-text portable pixmap format: the header, then one
/// line per pixel in row-by-row order.
pub fn encode_ppm(buffer: &Buffer<(u8, u8, u8)>) -> (r: Vec<u8>)
    requires
        buffer.wf(),
    ensures
        r@ == ppm_header(buffer.width as nat, buffer.height as nat) + ppm_pixels(buffer.data@),
{
    let mut out: Vec<u8> = Vec::new();
    out.push(80u8);
    out.push(51u8);
    out.push(10u8);
    push_decimal(&mut out, buffer.width());
    out.push(32u8);
    push_decimal(&mut out, buffer.height());
    out.push(10u8);
    out.push(50u8);
    out.push(53u8);
    out.push(53u8);
    out.push(10u8);
    let ghost header = out@;
    assert(header =~= ppm_header(buffer.width as nat, buffer.height as nat));
    let n = buffer.data.len();
    let mut index: usize = 0;
    while index < n
        invariant
            n == buffer.data@.len(),
            index <= n,
            out@ == header + ppm_pixels(buffer.data@.subrange(0, index as int)),
        decreases n - index,
    {
        let (red, green, blue) = *buffer.at(index);
        push_decimal(&mut out, red as usize);
        out.push(32u8);
        push_decimal(&mut out, green as usize);
        out.push(32u8);
        push_decimal(&mut out, blue as usize);
        out.push(10u8);
        proof {
            let s = buffer.data@.subrange(0, index + 1);
            assert(s.drop_last() =~= buffer.data@.subrange(0, index as int));
            assert(s.last() == buffer.data@[index as int]);
        }
        index = index + 1;
        assert(out@ =~= header + ppm_pixels(buffer.data@.subrange(0, index as int)));
    }
    assert(buffer.data@.subrange(0, n as int) =~= buffer.data@);
    out
}

/// Writes a buffer to a file in the plain-text portable pixmap format.
pub struct PpmImage {
    filename: String,
}

impl PpmImage {
    /// The name of the file written.
    pub closed spec fn name(self) -> Seq<char> {
        self.filename@
    }

    pub fn new(filename: &str) -> (r: Self)
        ensures
            r.name() == filename@,
    {
        PpmImage { filename: filename.to_owned() }
    }

    pub fn filename(&self) -> (r: &String)
        ensures
            r@ == self.name(),
    {
        &self.filename
    }
}

/// Shows a buffer of packed `0x00RRGGBB` pixels in a window.
pub struct WindowImage {
    window_name: String,
}

/// Two positions of a row-by-row grid `width` wide are the same only where
/// their columns and rows are.
proof fn lemma_grid_index_injective(width: int, x: int, y: int, x2: int, y2: int)
    requires
        0 <= x < width,
        0 <= x2 < width,
        0 <= y,
        0 <= y2,
        y * width + x == y2 * width + x2,
    ensures
        x == x2,
        y == y2,
{
    if y < y2 {
        assert(y2 * width >= (y + 1) * width) by (nonlinear_arith)
            requires
                y + 1 <= y2,
                0 <= width,
        ;
        assert((y + 1) * width == y * width + width) by (nonlinear_arith);
    } else if y2 < y {
        assert(y * width >= (y2 + 1) * width) by (nonlinear_arith)
            requires
                y2 + 1 <= y,
                0 <= width,
        ;
        assert((y2 + 1) * width == y2 * width + width) by (nonlinear_arith);
    }
}

/// `y * width + x` lies inside a grid `width` x `height`.
proof fn lemma_grid_index_bound(width: int, height: int, x: int, y: int)
    requires
        0 <= x < width,
        0 <= y < height,
    ensures
        0 <= y * width + x < width * height,
{
    assert(y * width + x < width * height) by (nonlinear_arith)
        requires
            0 <= x < width,
            0 <= y < height,
    ;
    assert(0 <= y * width) by (nonlinear_arith)
        requires
            0 <= x < width,
            0 <= y,
    ;
}

/// The pixel that a window `width` x `height` shows at column `x`, row `y`
/// after a copy of `source` into `before`: the source pixel at the same
/// column and row where the source has one, else what was shown before.
pub open spec fn shown(
    before: Seq<u32>,
    width: int,
    height: int,
    source: Buffer<u32>,
    x: int,
    y: int,
) -> u32 {
    if x < source.width && y < source.height {
        source.data@[y * source.width + x]
    } else {
        before[y * width + x]
    }
}

/// Copies `source` into the row-by-row pixels `target` of a window `width` x
/// `height`, each pixel at its own column and row; what falls outside the
/// window is not shown, and the rest of the window keeps its pixels.
pub fn blit(target: &mut Vec<u32>, width: usize, height: usize, source: &Buffer<u32>)
    requires
        old(target)@.len() == width * height,
        source.wf(),
    ensures
        final(target)@.len() == old(target)@.len(),
        forall|x: int, y: int|
            0 <= x < width && 0 <= y < height ==> #[trigger] final(target)@[y * width + x] == shown(
                old(target)@,
                width as int,
                height as int,
                *source,
                x,
                y,
            ),
{
    let cols = if source.width < width { source.width } else { width };
    let rows = if source.height < height { source.height } else { height };
    let ghost before = target@;
    let source_len = source.data.len();
    let target_len = target.len();
    let mut y: usize = 0;
    while y < rows
        invariant
            cols <= width,
            cols <= source.width,
            rows <= height,
            rows <= source.height,
            y <= rows,
            source.wf(),
            source.data@.len() == source_len,
            target@.len() == target_len,
            target@.len() == width * height,
            before.len() == width * height,
            forall|x2: int, y2: int|
                0 <= x2 < width && 0 <= y2 < height ==> #[trigger] target@[y2 * width + x2] == (if x2
                    < cols && y2 < y {
                    source.data@[y2 * source.width + x2]
                } else {
                    before[y2 * width + x2]
                }),
        decreases rows - y,
    {
        let mut x: usize = 0;
        while x < cols
            invariant
                cols <= width,
                cols <= source.width,
                rows <= height,
                rows <= source.height,
                y < rows,
                x <= cols,
                source.wf(),
                source.data@.len() == source_len,
                target@.len() == target_len,
                target@.len() == width * height,
                before.len() == width * height,
                forall|x2: int, y2: int|
                    0 <= x2 < width && 0 <= y2 < height ==> #[trigger] target@[y2 * width + x2] == (
                    if x2 < cols && (y2 < y || (y2 == y && x2 < x)) {
                        source.data@[y2 * source.width + x2]
                    } else {
                        before[y2 * width + x2]
                    }),
            decreases cols - x,
        {
            proof {
                lemma_grid_index_bound(width as int, height as int, x as int, y as int);
                lemma_grid_index_bound(source.width as int, source.height as int, x as int, y as int);
            }
            let value = source.data[y * source.width + x];
            let ghost prev = target@;
            target.set(y * width + x, value);
            proof {
                assert forall|x2: int, y2: int|
                    0 <= x2 < width && 0 <= y2 < height implies #[trigger] target@[y2 * width + x2] == (
                    if x2 < cols && (y2 < y || (y2 == y && x2 < x + 1)) {
                        source.data@[y2 * source.width + x2]
                    } else {
                        before[y2 * width + x2]
                    }) by {
                    lemma_grid_index_bound(width as int, height as int, x2, y2);
                    if y2 * width + x2 == y * width + x {
                        lemma_grid_index_injective(width as int, x2, y2, x as int, y as int);
                    } else {
                        assert(target@[y2 * width + x2] == prev[y2 * width + x2]);
                    }
                }
            }
            x = x + 1;
        }
        y = y + 1;
    }
}

impl WindowImage {
    /// The title of the window.
    pub closed spec fn name(self) -> Seq<char> {
        self.window_name@
    }

    pub fn new(window_name: &str) -> (r: Self)
        ensures
            r.name() == window_name@,
    {
        WindowImage { window_name: window_name.to_owned() }
    }

    pub fn window_name(&self) -> (r: &String)
        ensures
            r@ == self.name(),
    {
        &self.window_name
    }
}

} // verus!
