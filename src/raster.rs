//! The integer side of rasterizing one triangle: its pixel bounding box, the
//! scan over that box, the linear index of a pixel, and depth order keys.
use vstd::prelude::*;
use crate::color::Rgb;
use crate::frame::Contribution;

verus! {

/// A half-open range of pixels `xmin..xmax` by `ymin..ymax`.
#[derive(Debug, Clone, Copy, PartialEq, Eq, Structural)]
pub struct PixelBox {
    pub xmin: i32,
    pub xmax: i32,
    pub ymin: i32,
    pub ymax: i32,
}

pub open spec fn min_i(a: int, b: int) -> int {
    if a <= b { a } else { b }
}

pub open spec fn max_i(a: int, b: int) -> int {
    if a >= b { a } else { b }
}

pub open spec fn min3(v: [i32; 3]) -> int {
    min_i(min_i(v[0] as int, v[1] as int), v[2] as int)
}

pub open spec fn max3(v: [i32; 3]) -> int {
    max_i(max_i(v[0] as int, v[1] as int), v[2] as int)
}

/// The scan box of a triangle whose corners lie at the truncated screen
/// coordinates `xs`, `ys` on a `width` by `height` screen: clamped below at 1
/// and above at the screen size, with two more pixels past the upper end.
pub open spec fn box_of(xs: [i32; 3], ys: [i32; 3], width: i32, height: i32) -> PixelBox {
    PixelBox {
        xmin: max_i(min_i(width as int, min3(xs)), 1) as i32,
        xmax: (min_i(max_i(1, max3(xs)), width as int) + 2) as i32,
        ymin: max_i(min_i(height as int, min3(ys)), 1) as i32,
        ymax: (min_i(max_i(1, max3(ys)), height as int) + 2) as i32,
    }
}

pub open spec fn in_box(b: PixelBox, x: int, y: int) -> bool {
    b.xmin <= x < b.xmax && b.ymin <= y < b.ymax
}

/// The linear index of pixel `(x, y)`; rows are flipped so that `y` grows
/// upwards on screen.
pub open spec fn pixel_index_of(x: int, y: int, width: int, height: int) -> int {
    x + (height - y) * width
}

/// Screen sizes for which every index that a scan box reaches fits in `i32`.
pub open spec fn screen_fits(width: i32, height: i32) -> bool {
    1 <= width && 1 <= height && (width + 2) * (height + 2) <= i32::MAX
}

/// Whether a `width` by `height` screen can be rasterized.
pub fn screen_size_fits(width: i32, height: i32) -> (r: bool)
    ensures
        r == screen_fits(width, height),
{
    if width < 1 || height < 1 {
        return false;
    }
    let w = width as i64 + 2;
    let h = height as i64 + 2;
    assert(w * h <= 0x7FFF_FFFF_i64 * 0x7FFF_FFFF_i64 + 4 * 0x7FFF_FFFF_i64 + 4) by (nonlinear_arith)
        requires
            3 <= w <= 0x7FFF_FFFF_i64 + 2,
            3 <= h <= 0x7FFF_FFFF_i64 + 2,
    ;
    w * h <= i32::MAX as i64
}

/// The scan box of the triangle whose corners lie at `xs`, `ys` (screen
/// coordinates truncated to integers).
pub fn bounding_box(xs: [i32; 3], ys: [i32; 3], width: i32, height: i32) -> (b: PixelBox)
    requires
        screen_fits(width, height),
    ensures
        b == box_of(xs, ys, width, height),
        1 <= b.xmin,
        b.xmax <= width + 2,
        1 <= b.ymin,
        b.ymax <= height + 2,
{
    assert(width + 2 <= (width + 2) * (height + 2) && height + 2 <= (width + 2) * (height + 2))
        by (nonlinear_arith)
        requires
            1 <= width,
            1 <= height,
    ;
    let mut minx: i32 = width;
    let mut miny: i32 = height;
    let mut maxx: i32 = 1;
    let mut maxy: i32 = 1;
    let mut i: usize = 0;
    while i < 3
        invariant
            i <= 3,
            minx == (if i == 0 { width as int } else if i == 1 { min_i(width as int, xs[0] as int) }
                else if i == 2 { min_i(width as int, min_i(xs[0] as int, xs[1] as int)) }
                else { min_i(width as int, min3(xs)) }),
            miny == (if i == 0 { height as int } else if i == 1 { min_i(height as int, ys[0] as int) }
                else if i == 2 { min_i(height as int, min_i(ys[0] as int, ys[1] as int)) }
                else { min_i(height as int, min3(ys)) }),
            maxx == (if i == 0 { 1 } else if i == 1 { max_i(1, xs[0] as int) }
                else if i == 2 { max_i(1, max_i(xs[0] as int, xs[1] as int)) }
                else { max_i(1, max3(xs)) }),
            maxy == (if i == 0 { 1 } else if i == 1 { max_i(1, ys[0] as int) }
                else if i == 2 { max_i(1, max_i(ys[0] as int, ys[1] as int)) }
                else { max_i(1, max3(ys)) }),
        decreases 3 - i,
    {
        if xs[i] < minx {
            minx = xs[i];
        }
        if ys[i] < miny {
            miny = ys[i];
        }
        if xs[i] > maxx {
            maxx = xs[i];
        }
        if ys[i] > maxy {
            maxy = ys[i];
        }
        i = i + 1;
    }
    let xmin = if minx < 1 { 1 } else { minx };
    let xmax = if maxx < width { maxx + 2 } else { width + 2 };
    let ymin = if miny < 1 { 1 } else { miny };
    let ymax = if maxy < height { maxy + 2 } else { height + 2 };
    PixelBox { xmin, xmax, ymin, ymax }
}

/// The linear index of pixel `(x, y)` of a scan box.
pub fn pixel_index(x: i32, y: i32, width: i32, height: i32) -> (r: i32)
    requires
        screen_fits(width, height),
        1 <= x <= width + 1,
        1 <= y <= height + 1,
    ensures
        r == pixel_index_of(x as int, y as int, width as int, height as int),
{
    assert(-(width as int) <= (height - y) * width <= (height - 1) * width) by (nonlinear_arith)
        requires
            1 <= y <= height + 1,
            1 <= width,
    ;
    assert((height - 1) * width + width + 1 <= (width + 2) * (height + 2)) by (nonlinear_arith)
        requires
            1 <= width,
            1 <= height,
    ;
    x + (height - y) * width
}

/// Pixel `p` comes before pixel `q` in scan order: columns left to right,
/// and within a column, rows bottom to top.
pub open spec fn scan_before(p: (i32, i32), q: (i32, i32)) -> bool {
    p.0 < q.0 || (p.0 == q.0 && p.1 < q.1)
}

/// Pixel `(x, y)` is one of `pos`, or `shade` dropped it.
pub open spec fn covered<F: Fn(i32, i32) -> Option<(u32, Rgb)>>(shade: F, pos: Seq<(i32, i32)>, x: i32, y: i32) -> bool {
    pos.contains((x, y)) || shade.ensures((x, y), None)
}

/// `r` holds what `shade` made of the pixels `pos` of the box `b`: one
/// contribution per pixel, in strictly increasing scan order.
pub open spec fn scan_record<F: Fn(i32, i32) -> Option<(u32, Rgb)>>(
    shade: F,
    b: PixelBox,
    width: i32,
    height: i32,
    r: Seq<Contribution>,
    pos: Seq<(i32, i32)>,
) -> bool {
    &&& pos.len() == r.len()
    &&& forall|k: int|
        0 <= k < r.len() ==> {
            &&& in_box(b, (#[trigger] pos[k]).0 as int, pos[k].1 as int)
            &&& r[k].index == pixel_index_of(pos[k].0 as int, pos[k].1 as int, width as int, height as int)
            &&& shade.ensures(pos[k], Some((r[k].depth, r[k].color)))
        }
    &&& forall|k1: int, k2: int| 0 <= k1 < k2 < r.len() ==> scan_before(#[trigger] pos[k1], #[trigger] pos[k2])
}

/// `r` is a scan of the box `b` through `shade` over the pixels `pos`: every
/// pixel of the box that is not one of `pos` was dropped by `shade`.
pub open spec fn scan_result<F: Fn(i32, i32) -> Option<(u32, Rgb)>>(
    shade: F,
    b: PixelBox,
    width: i32,
    height: i32,
    r: Seq<Contribution>,
    pos: Seq<(i32, i32)>,
) -> bool {
    &&& scan_record(shade, b, width, height, r, pos)
    &&& forall|x: i32, y: i32| in_box(b, x as int, y as int) ==> #[trigger] covered(shade, pos, x, y)
}

proof fn lemma_covered_grows<F: Fn(i32, i32) -> Option<(u32, Rgb)>>(
    shade: F,
    pos: Seq<(i32, i32)>,
    p: (i32, i32),
    x: i32,
    y: i32,
)
    requires
        covered(shade, pos, x, y),
    ensures
        covered(shade, pos.push(p), x, y),
{
    if pos.contains((x, y)) {
        let k = choose|k: int| 0 <= k < pos.len() && pos[k] == (x, y);
        assert(pos.push(p)[k] == (x, y));
    }
}

/// Rasterizes over the scan box `b`: calls `shade` on each of its pixels in
/// scan order and keeps a contribution for each pixel where it returns a
/// depth key and a color; a pixel where it returns `None` is dropped.
pub fn scan<F: Fn(i32, i32) -> Option<(u32, Rgb)>>(b: PixelBox, width: i32, height: i32, shade: F) -> (r: Vec<Contribution>)
    requires
        screen_fits(width, height),
        1 <= b.xmin,
        b.xmax <= width + 2,
        1 <= b.ymin,
        b.ymax <= height + 2,
        forall|x: i32, y: i32| in_box(b, x as int, y as int) ==> #[trigger] shade.requires((x, y)),
    ensures
        exists|pos: Seq<(i32, i32)>| #[trigger] scan_result(shade, b, width, height, r@, pos),
{
    let mut out: Vec<Contribution> = Vec::new();
    let ghost mut pos: Seq<(i32, i32)> = Seq::empty();
    let mut x: i32 = b.xmin;
    while x < b.xmax
        invariant
            screen_fits(width, height),
            1 <= b.xmin <= x,
            x <= b.xmax || x == b.xmin,
            b.xmax <= width + 2,
            1 <= b.ymin,
            b.ymax <= height + 2,
            forall|x: i32, y: i32| in_box(b, x as int, y as int) ==> #[trigger] shade.requires((x, y)),
            scan_record(shade, b, width, height, out@, pos),
            forall|k: int| 0 <= k < pos.len() ==> (#[trigger] pos[k]).0 < x,
            forall|xx: i32, yy: i32|
                in_box(b, xx as int, yy as int) && xx < x ==> #[trigger] covered(shade, pos, xx, yy),
        decreases b.xmax - x,
    {
        let mut y: i32 = b.ymin;
        while y < b.ymax
            invariant
                screen_fits(width, height),
                1 <= b.xmin <= x < b.xmax,
                b.xmax <= width + 2,
                1 <= b.ymin <= y,
                y <= b.ymax || y == b.ymin,
                b.ymax <= height + 2,
                forall|x: i32, y: i32| in_box(b, x as int, y as int) ==> #[trigger] shade.requires((x, y)),
                scan_record(shade, b, width, height, out@, pos),
                forall|k: int| 0 <= k < pos.len() ==> scan_before(#[trigger] pos[k], (x, y)),
                forall|xx: i32, yy: i32|
                    in_box(b, xx as int, yy as int) && (xx < x || (xx == x && yy < y)) ==> #[trigger] covered(
                        shade,
                        pos,
                        xx,
                        yy,
                    ),
            decreases b.ymax - y,
        {
            let shaded = shade(x, y);
            let ghost before = pos;
            match shaded {
                Some((depth, color)) => {
                    let index = pixel_index(x, y, width, height);
                    out.push(Contribution { index, depth, color });
                    proof {
                        pos = pos.push((x, y));
                        assert(pos[pos.len() - 1] == (x, y));
                        assert forall|k: int| 0 <= k < before.len() implies pos[k] == before[k] by {}
                        assert forall|xx: i32, yy: i32|
                            in_box(b, xx as int, yy as int) && (xx < x || (xx == x && yy < y))
                            implies #[trigger] covered(shade, pos, xx, yy) by {
                            lemma_covered_grows(shade, before, (x, y), xx, yy);
                        }
                    }
                },
                None => {},
            }
            assert(covered(shade, pos, x, y));
            y = y + 1;
        }
        x = x + 1;
    }
    assert(scan_result(shade, b, width, height, out@, pos));
    out
}

/// An order key for the bit pattern of a 32-bit IEEE float: for any two
/// floats that are not NaN, the smaller has the smaller key.
pub open spec fn depth_key_of(bits: u32) -> u32 {
    if bits >= 0x8000_0000 {
        (0xFFFF_FFFF - bits) as u32
    } else {
        (bits + 0x8000_0000) as u32
    }
}

/// The depth order key of a float given by its bit pattern.
pub fn depth_key(bits: u32) -> (k: u32)
    ensures
        k == depth_key_of(bits),
{
    if bits >= 0x8000_0000 {
        assert(!bits == 0xFFFF_FFFFu32 - bits) by (bit_vector);
        !bits
    } else {
        assert(bits < 0x8000_0000u32 ==> bits | 0x8000_0000u32 == bits + 0x8000_0000u32) by (bit_vector);
        bits | 0x8000_0000
    }
}

} // verus!
