//! The geometry of the small shapes that the screens draw: the corners of
//! the triangular pointer and the strokes of the cross, the pixels of the
//! thick pixel-plotted cross and triangle, and where a ruler label fits.
use vstd::prelude::*;

verus! {

/// A point on the display.
#[derive(Debug, Clone, Copy, PartialEq, Eq, Structural)]
pub struct Spot {
    pub x: i32,
    pub y: i32,
}

/// The corners of a pointer of `size` with its tip at (`x`, `y`): the base
/// lies `size` above the tip, or below it when the pointer is upside down,
/// and reaches `size` to either side.
pub fn pointer_corners(x: i32, y: i32, size: i32, upside_down: bool) -> (c: (Spot, Spot, Spot))
    requires
        size > i32::MIN,
        i32::MIN <= x - size <= i32::MAX,
        i32::MIN <= x + size <= i32::MAX,
        i32::MIN <= (if upside_down { y + size } else { y - size }) <= i32::MAX,
    ensures
        c.0 == (Spot { x, y }),
        c.1 == (Spot { x: (x + size) as i32, y: (if upside_down { y + size } else { y - size }) as i32 }),
        c.2 == (Spot { x: (x - size) as i32, y: (if upside_down { y + size } else { y - size }) as i32 }),
{
    let sy: i32 = if upside_down { -1 } else { 1 };
    let base_y = y - sy * size;
    (Spot { x, y }, Spot { x: x + size, y: base_y }, Spot { x: x - size, y: base_y })
}

/// The two strokes of a cross of `size` centred at (`x`, `y`): from the
/// upper left to the lower right corner, and from the upper right to the
/// lower left corner.
pub fn cross_strokes(x: i32, y: i32, size: i32) -> (s: ((Spot, Spot), (Spot, Spot)))
    requires
        size > i32::MIN,
        i32::MIN <= x - size <= i32::MAX,
        i32::MIN <= x + size <= i32::MAX,
        i32::MIN <= y - size <= i32::MAX,
        i32::MIN <= y + size <= i32::MAX,
    ensures
        s.0 == (Spot { x: (x - size) as i32, y: (y - size) as i32 }, Spot { x: (x + size) as i32, y: (y + size) as i32 }),
        s.1 == (Spot { x: (x + size) as i32, y: (y - size) as i32 }, Spot { x: (x - size) as i32, y: (y + size) as i32 }),
{
    (
        (Spot { x: x - size, y: y - size }, Spot { x: x + size, y: y + size }),
        (Spot { x: x + size, y: y - size }, Spot { x: x - size, y: y + size }),
    )
}

/// Where a label `label_width` pixels wide goes when centred under `x`, and
/// whether it would stick out of a display `display_width` pixels wide (in
/// which case it is left out and its tick drawn short).
pub fn ruler_label(x: i32, label_width: u32, display_width: u32) -> (r: (i32, bool))
    requires
        label_width <= i32::MAX,
        display_width <= i32::MAX,
        i32::MIN <= x - label_width / 2,
        x - label_width / 2 + label_width <= i32::MAX,
    ensures
        r.0 == x - label_width / 2,
        r.1 == (r.0 + label_width > display_width || r.0 < 0),
{
    let left = x - (label_width / 2) as i32;
    let off_screen = left + label_width as i32 > display_width as i32 || left < 0;
    (left, off_screen)
}

/// `len` pixels from (`x0`, `y0`) on, each one step of (`dx`, `dy`) from
/// the one before.
pub open spec fn stroke(x0: int, y0: int, dx: int, dy: int, len: nat) -> Seq<Spot> {
    Seq::new(len, |i: int| Spot { x: (x0 + i * dx) as i32, y: (y0 + i * dy) as i32 })
}

/// One diagonal of a pixel cross, drawn twice as thick by repeating it one
/// pixel to the right, one down and one down-right.
pub open spec fn cross_diagonal(x: int, y: int, s: int, dir: int) -> Seq<Spot> {
    stroke(x - s, y - s * dir, 1, dir, (2 * s) as nat) + stroke(x + 1 - s, y - s * dir, 1, dir, (2 * s) as nat)
        + stroke(x - s, y + 1 - s * dir, 1, dir, (2 * s) as nat) + stroke(x + 1 - s, y + 1 - s * dir, 1, dir, (
    2 * s) as nat)
}

/// The pixels of a cross of `size` centred at (`x`, `y`): the rising
/// diagonal, then the falling one.
pub open spec fn cross_pixel_seq(x: int, y: int, size: int) -> Seq<Spot> {
    cross_diagonal(x, y, size, -1) + cross_diagonal(x, y, size, 1)
}

/// One copy of a pixel triangle shifted by (`ox`, `oy`): its two sides
/// from the tip, then its base `size` away from the tip.
pub open spec fn triangle_copy(x: int, y: int, s: int, sy: int, ox: int, oy: int) -> Seq<Spot> {
    stroke(x + ox, y + oy, -1, -sy, s as nat) + stroke(x + ox, y + oy, 1, -sy, s as nat) + stroke(
        x + ox - s,
        y + oy - s * sy,
        1,
        0,
        (2 * s) as nat,
    )
}

/// The pixels of a triangle with its tip at (`x`, `y`) and its base `size`
/// above it (below when upside down), drawn twice as thick.
pub open spec fn triangle_pixel_seq(x: int, y: int, size: int, upside_down: bool) -> Seq<Spot> {
    let sy: int = if upside_down { -1 } else { 1 };
    triangle_copy(x, y, size, sy, 0, 0) + triangle_copy(x, y, size, sy, 1, 0) + triangle_copy(x, y, size, sy, 0, 1)
        + triangle_copy(x, y, size, sy, 1, 1)
}

/// Appends the pixels of a stroke.
fn push_stroke(v: &mut Vec<Spot>, x0: i32, y0: i32, dx: i32, dy: i32, len: u32)
    requires
        -1 <= dx <= 1,
        -1 <= dy <= 1,
        i32::MIN + len <= x0 <= i32::MAX - len,
        i32::MIN + len <= y0 <= i32::MAX - len,
    ensures
        final(v)@ == old(v)@ + stroke(x0 as int, y0 as int, dx as int, dy as int, len as nat),
{
    let ghost start = v@;
    let mut i: u32 = 0;
    while i < len
        invariant
            -1 <= dx <= 1,
            -1 <= dy <= 1,
            i32::MIN + len <= x0 <= i32::MAX - len,
            i32::MIN + len <= y0 <= i32::MAX - len,
            i <= len,
            v@ == start + stroke(x0 as int, y0 as int, dx as int, dy as int, i as nat),
        decreases len - i,
    {
        let x = if dx == 1 { x0 + i as i32 } else if dx == -1 { x0 - i as i32 } else { x0 };
        let y = if dy == 1 { y0 + i as i32 } else if dy == -1 { y0 - i as i32 } else { y0 };
        v.push(Spot { x, y });
        proof {
            assert(x == x0 + i * dx) by (nonlinear_arith)
                requires
                    x == (if dx == 1 { x0 + i } else if dx == -1 { x0 - i } else { x0 as int }),
                    -1 <= dx <= 1,
            ;
            assert(y == y0 + i * dy) by (nonlinear_arith)
                requires
                    y == (if dy == 1 { y0 + i } else if dy == -1 { y0 - i } else { y0 as int }),
                    -1 <= dy <= 1,
            ;
            assert(start + stroke(x0 as int, y0 as int, dx as int, dy as int, (i + 1) as nat) =~= (start + stroke(
                x0 as int,
                y0 as int,
                dx as int,
                dy as int,
                i as nat,
            )).push(Spot { x, y }));
        }
        i = i + 1;
    }
}

/// The pixels of a cross of `size` centred at (`x`, `y`), in the order in
/// which they are drawn.
pub fn cross_pixels(x: i32, y: i32, size: u32) -> (p: Vec<Spot>)
    requires
        size <= 0x1000_0000,
        i32::MIN + 3 * size + 2 <= x <= i32::MAX - 3 * size - 2,
        i32::MIN + 3 * size + 2 <= y <= i32::MAX - 3 * size - 2,
    ensures
        p@ == cross_pixel_seq(x as int, y as int, size as int),
{
    let s = size as i32;
    let mut p: Vec<Spot> = Vec::new();
    let n = 2 * size;
    push_stroke(&mut p, x - s, y + s, 1, -1, n);
    push_stroke(&mut p, x + 1 - s, y + s, 1, -1, n);
    push_stroke(&mut p, x - s, y + 1 + s, 1, -1, n);
    push_stroke(&mut p, x + 1 - s, y + 1 + s, 1, -1, n);
    push_stroke(&mut p, x - s, y - s, 1, 1, n);
    push_stroke(&mut p, x + 1 - s, y - s, 1, 1, n);
    push_stroke(&mut p, x - s, y + 1 - s, 1, 1, n);
    push_stroke(&mut p, x + 1 - s, y + 1 - s, 1, 1, n);
    assert(p@ =~= cross_pixel_seq(x as int, y as int, size as int));
    p
}

/// The pixels of a triangle of `size` with its tip at (`x`, `y`), in the
/// order in which they are drawn.
pub fn triangle_pixels(x: i32, y: i32, size: u32, upside_down: bool) -> (p: Vec<Spot>)
    requires
        size <= 0x1000_0000,
        i32::MIN + 3 * size + 2 <= x <= i32::MAX - 3 * size - 2,
        i32::MIN + 3 * size + 2 <= y <= i32::MAX - 3 * size - 2,
    ensures
        p@ == triangle_pixel_seq(x as int, y as int, size as int, upside_down),
{
    let s = size as i32;
    let sy: i32 = if upside_down { -1 } else { 1 };
    let base_y = if upside_down { y + s } else { y - s };
    let mut p: Vec<Spot> = Vec::new();
    assert(s * sy == (if upside_down { -s } else { s as int })) by (nonlinear_arith)
        requires
            sy == (if upside_down { -1i32 } else { 1i32 }),
    ;
    let mut k: usize = 0;
    while k < 4
        invariant
            k <= 4,
            size <= 0x1000_0000,
            s == size,
            sy == (if upside_down { -1i32 } else { 1i32 }),
            base_y == (if upside_down { y + s } else { y - s }),
            s * sy == (if upside_down { -s } else { s as int }),
            i32::MIN + 3 * size + 2 <= x <= i32::MAX - 3 * size - 2,
            i32::MIN + 3 * size + 2 <= y <= i32::MAX - 3 * size - 2,
            p@ == (if k == 0 {
                Seq::<Spot>::empty()
            } else if k == 1 {
                triangle_copy(x as int, y as int, s as int, sy as int, 0, 0)
            } else if k == 2 {
                triangle_copy(x as int, y as int, s as int, sy as int, 0, 0) + triangle_copy(
                    x as int,
                    y as int,
                    s as int,
                    sy as int,
                    1,
                    0,
                )
            } else if k == 3 {
                triangle_copy(x as int, y as int, s as int, sy as int, 0, 0) + triangle_copy(
                    x as int,
                    y as int,
                    s as int,
                    sy as int,
                    1,
                    0,
                ) + triangle_copy(x as int, y as int, s as int, sy as int, 0, 1)
            } else {
                triangle_pixel_seq(x as int, y as int, s as int, upside_down)
            }),
        decreases 4 - k,
    {
        let ox: i32 = if k == 1 || k == 3 { 1 } else { 0 };
        let oy: i32 = if k >= 2 { 1 } else { 0 };
        let ghost before = p@;
        push_stroke(&mut p, x + ox, y + oy, -1, -sy, size);
        push_stroke(&mut p, x + ox, y + oy, 1, -sy, size);
        push_stroke(&mut p, x + ox - s, base_y + oy, 1, 0, 2 * size);
        assert(p@ =~= before + triangle_copy(x as int, y as int, s as int, sy as int, ox as int, oy as int));
        k = k + 1;
    }
    p
}

} // verus!
