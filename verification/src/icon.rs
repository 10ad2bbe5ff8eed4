//! The icon in the menu bar, pixel by pixel.
use vstd::prelude::*;

verus! {

/// The width and the height of the icon.
pub const TRAY_ICON_SIZE: usize = 18;

/// The number of bytes of the icon: four for each pixel.
pub const TRAY_ICON_BYTES: usize = 1296;

/// A pixel of the icon.
pub open spec fn inside(x: int, y: int) -> bool {
    0 <= x < 18 && 0 <= y < 18
}

/// The place of the first byte of a pixel.
pub open spec fn place(x: int, y: int) -> int {
    (y * 18 + x) * 4
}

/// A picture in which the pixels of an area have got a color.
pub open spec fn paint(picture: Seq<u8>, area: spec_fn(int, int) -> bool, color: Seq<u8>) -> Seq<
    u8,
> {
    Seq::new(
        picture.len(),
        |k: int|
            if k < 1296 && area((k / 4) % 18, (k / 4) / 18) {
                color[k % 4]
            } else {
                picture[k]
            },
    )
}

/// Gives a pixel a color; nothing happens outside of the icon.
pub fn draw_pixel(rgba: &mut [u8], x: i32, y: i32, color: [u8; 4])
    requires
        inside(x as int, y as int) ==> place(x as int, y as int) + 4 <= old(rgba)@.len(),
    ensures
        final(rgba)@ == paint(old(rgba)@, |px: int, py: int| px == x && py == y, color@),
{
    if x < 0 || y < 0 || x >= 18 || y >= 18 {
        assert(rgba@ =~= paint(old(rgba)@, |px: int, py: int| px == x && py == y, color@));
        return ;
    }
    let index: usize = (y as usize * TRAY_ICON_SIZE + x as usize) * 4;
    rgba[index] = color[0];
    rgba[index + 1] = color[1];
    rgba[index + 2] = color[2];
    rgba[index + 3] = color[3];
    assert(rgba@ =~= paint(old(rgba)@, |px: int, py: int| px == x && py == y, color@));
}

/// The square of a distance.
pub open spec fn square(d: int) -> int {
    d * d
}

/// A pixel under a round brush.
pub open spec fn under_brush(px: int, py: int, x: int, y: int, radius: int) -> bool {
    radius >= 0 && square(px - x) + square(py - y) <= square(radius)
}

/// A round brush of this size, put down at this pixel, reaches no pixel that has
/// no coordinates.
pub open spec fn brush_fits(x: int, y: int, radius: int) -> bool {
    radius < 0 || {
        &&& radius <= 32767
        &&& i32::MIN <= x - radius && x + radius <= i32::MAX
        &&& i32::MIN <= y - radius && y + radius <= i32::MAX
    }
}

proof fn lemma_paint_twice(
    picture: Seq<u8>,
    a: spec_fn(int, int) -> bool,
    b: spec_fn(int, int) -> bool,
    c: spec_fn(int, int) -> bool,
    color: Seq<u8>,
)
    requires
        forall|x: int, y: int| inside(x, y) ==> (#[trigger] c(x, y) <==> a(x, y) || b(x, y)),
    ensures
        paint(paint(picture, a, color), b, color) == paint(picture, c, color),
{
    assert forall|k: int| 0 <= k < picture.len() implies paint(
        paint(picture, a, color),
        b,
        color,
    )[k] == paint(picture, c, color)[k] by {
        if k < 1296 {
            let x = (k / 4) % 18;
            let y = (k / 4) / 18;
            assert(inside(x, y));
            assert(c(x, y) <==> a(x, y) || b(x, y));
        }
    }
    assert(paint(paint(picture, a, color), b, color) =~= paint(picture, c, color));
}

proof fn lemma_paint_same(
    picture: Seq<u8>,
    a: spec_fn(int, int) -> bool,
    b: spec_fn(int, int) -> bool,
    color: Seq<u8>,
)
    requires
        forall|x: int, y: int| inside(x, y) ==> #[trigger] a(x, y) == b(x, y),
    ensures
        paint(picture, a, color) == paint(picture, b, color),
{
    assert forall|k: int| 0 <= k < picture.len() implies paint(picture, a, color)[k] == paint(
        picture,
        b,
        color,
    )[k] by {
        if k < 1296 {
            let x = (k / 4) % 18;
            let y = (k / 4) / 18;
            assert(inside(x, y));
            assert(a(x, y) == b(x, y));
        }
    }
    assert(paint(picture, a, color) =~= paint(picture, b, color));
}

proof fn lemma_square(d: int, radius: int)
    requires
        radius >= 0,
    ensures
        square(d) >= 0,
        square(d) <= square(radius) ==> -radius <= d <= radius,
        -radius <= d <= radius ==> square(d) <= square(radius),
{
    assert(d * d >= 0) by (nonlinear_arith);
    assert(d * d <= radius * radius ==> -radius <= d <= radius) by (nonlinear_arith)
        requires
            radius >= 0,
    ;
    assert(-radius <= d <= radius ==> d * d <= radius * radius) by (nonlinear_arith)
        requires
            radius >= 0,
    ;
}

/// The pixels under a brush in the rows above one, and in that row to the left of
/// a column; row and column are counted from the middle of the brush.
pub open spec fn brushed(
    x: int,
    y: int,
    radius: int,
    row: int,
    column: int,
) -> spec_fn(int, int) -> bool {
    |px: int, py: int|
        under_brush(px, py, x, y, radius) && (py - y < row || (py - y == row && px - x < column))
}

/// Gives the pixels under a round brush a color.
pub fn draw_brush(rgba: &mut [u8], x: i32, y: i32, radius: i32, color: [u8; 4])
    requires
        old(rgba)@.len() >= TRAY_ICON_BYTES,
        brush_fits(x as int, y as int, radius as int),
    ensures
        final(rgba)@ == paint(
            old(rgba)@,
            |px: int, py: int| under_brush(px, py, x as int, y as int, radius as int),
            color@,
        ),
{
    let ghost all = |px: int, py: int| under_brush(px, py, x as int, y as int, radius as int);
    let ghost picture = rgba@;
    if radius < 0 {
        assert(rgba@ =~= paint(picture, all, color@));
        return ;
    }
    let ghost (gx, gy, gr) = (x as int, y as int, radius as int);
    proof {
        let start = brushed(gx, gy, gr, -gr, -gr);
        let nothing = |px: int, py: int| false;
        assert forall|px: int, py: int| inside(px, py) implies #[trigger] start(px, py) == nothing(
            px,
            py,
        ) by {
            lemma_square(px - gx, gr);
            lemma_square(py - gy, gr);
        }
        lemma_paint_same(picture, start, nothing, color@);
        assert(picture =~= paint(picture, nothing, color@));
    }
    let mut dy: i32 = -radius;
    while dy <= radius
        invariant
            0 <= radius <= 32767,
            brush_fits(gx, gy, gr),
            gx == x && gy == y && gr == radius,
            -radius <= dy <= radius + 1,
            rgba@.len() >= TRAY_ICON_BYTES,
            rgba@ == paint(picture, brushed(gx, gy, gr, dy as int, -gr), color@),
        decreases radius + 1 - dy,
    {
        let mut dx: i32 = -radius;
        while dx <= radius
            invariant
                0 <= radius <= 32767,
                brush_fits(gx, gy, gr),
                gx == x && gy == y && gr == radius,
                -radius <= dy <= radius,
                -radius <= dx <= radius + 1,
                rgba@.len() >= TRAY_ICON_BYTES,
                rgba@ == paint(picture, brushed(gx, gy, gr, dy as int, dx as int), color@),
            decreases radius + 1 - dx,
        {
            proof {
                lemma_square(dx as int, gr);
                lemma_square(dy as int, gr);
                lemma_square(gr, 32767);
                assert(square(32767) == 1073676289);
            }
            let ghost before = brushed(gx, gy, gr, dy as int, dx as int);
            let ghost after = brushed(gx, gy, gr, dy as int, dx + 1);
            assert(dx * dx == square(dx as int));
            assert(dy * dy == square(dy as int));
            assert(radius * radius == square(gr));
            if dx * dx + dy * dy <= radius * radius {
                let ghost here = |px: int, py: int| px == x + dx && py == y + dy;
                draw_pixel(rgba, x + dx, y + dy, color);
                proof {
                    assert forall|px: int, py: int| inside(px, py) implies (#[trigger] after(
                        px,
                        py,
                    ) <==> before(px, py) || here(px, py)) by {
                    }
                    lemma_paint_twice(picture, before, here, after, color@);
                }
            } else {
                proof {
                    lemma_paint_same(picture, before, after, color@);
                }
            }
            dx = dx + 1;
        }
        proof {
            let before = brushed(gx, gy, gr, dy as int, gr + 1);
            let after = brushed(gx, gy, gr, dy + 1, -gr);
            assert forall|px: int, py: int| inside(px, py) implies #[trigger] before(px, py)
                == after(px, py) by {
                lemma_square(px - gx, gr);
                lemma_square(py - gy, gr);
            }
            lemma_paint_same(picture, before, after, color@);
        }
        dy = dy + 1;
    }
    proof {
        let before = brushed(gx, gy, gr, gr + 1, -gr);
        assert forall|px: int, py: int| inside(px, py) implies #[trigger] before(px, py) == all(
            px,
            py,
        ) by {
            lemma_square(px - gx, gr);
            lemma_square(py - gy, gr);
        }
        lemma_paint_same(picture, before, all, color@);
    }
}

/// How far two numbers are apart.
pub open spec fn apart(a: int, b: int) -> int {
    if a < b {
        b - a
    } else {
        a - b
    }
}

/// The number that is `k` closer to `to` than `from` is.
pub open spec fn toward(from: int, to: int, k: int) -> int {
    if from < to {
        from + k
    } else {
        from - k
    }
}

/// The number of steps from one pixel to another: as many as the longer side of
/// the rectangle between them.
pub open spec fn line_steps(x0: int, y0: int, x1: int, y1: int) -> int {
    if apart(x0, x1) >= apart(y0, y1) {
        apart(x0, x1)
    } else {
        apart(y0, y1)
    }
}

/// How far along a side one has come after `n` of `steps` steps: the share of it
/// that this makes, rounded to the nearest number, a half upwards.
pub open spec fn share(n: int, side: int, steps: int) -> int {
    if steps == 0 {
        0
    } else {
        (2 * (n * side) + steps) / (2 * steps)
    }
}

/// The `n`-th pixel of a line: the one that is nearest to the straight line where
/// that has come after `n` steps.
pub open spec fn line_pixel(x0: int, y0: int, x1: int, y1: int, n: int) -> (int, int) {
    let steps = line_steps(x0, y0, x1, y1);
    (
        toward(x0, x1, share(n, apart(x0, x1), steps)),
        toward(y0, y1, share(n, apart(y0, y1), steps)),
    )
}

/// A pixel under a brush that has been drawn along a line for the first `n` of its
/// pixels.
pub open spec fn under_stroke(
    px: int,
    py: int,
    x0: int,
    y0: int,
    x1: int,
    y1: int,
    n: int,
    radius: int,
) -> bool {
    exists|k: int|
        0 <= k < n && under_brush(
            px,
            py,
            (#[trigger] line_pixel(x0, y0, x1, y1, k)).0,
            line_pixel(x0, y0, x1, y1, k).1,
            radius,
        )
}

/// Half of the width of a line, with the fraction cut off; for a line that is too
/// thin to be drawn, less than nothing.
pub open spec fn half_width(width: int) -> int {
    if width >= 0 {
        width / 2
    } else if width == -1 {
        0
    } else {
        -1
    }
}

/// The area of a line of some width.
pub open spec fn line_area(
    x0: int,
    y0: int,
    x1: int,
    y1: int,
    width: int,
) -> spec_fn(int, int) -> bool {
    |px: int, py: int|
        under_stroke(
            px,
            py,
            x0,
            y0,
            x1,
            y1,
            line_steps(x0, y0, x1, y1) + 1,
            half_width(width),
        )
}

proof fn lemma_share(n: int, side: int, steps: int)
    requires
        0 <= n <= steps,
        0 <= side <= steps,
        steps > 0,
    ensures
        0 <= share(n, side, steps) <= side,
        2 * (steps * share(n, side, steps)) <= 2 * (n * side) + steps < 2 * (steps * share(
            n,
            side,
            steps,
        )) + 2 * steps,
        share(0, side, steps) == 0,
        share(steps, side, steps) == side,
        share(n, steps, steps) == n,
{
    let w = 2 * steps;
    let z = 2 * (n * side) + steps;
    let q = share(n, side, steps);
    assert(n * side >= 0 && n * side <= steps * side) by (nonlinear_arith)
        requires
            0 <= n <= steps,
            0 <= side,
    ;
    vstd::arithmetic::div_mod::lemma_fundamental_div_mod(z, w);
    assert(w * q == 2 * (steps * q)) by (nonlinear_arith)
        requires
            w == 2 * steps,
    ;
    assert(q >= 0) by (nonlinear_arith)
        requires
            w > 0,
            z >= 0,
            z < w * q + w,
    ;
    assert(q <= side) by (nonlinear_arith)
        requires
            w == 2 * steps,
            steps > 0,
            w * q <= 2 * (steps * side) + steps,
    ;
    assert(0 * side == 0) by (nonlinear_arith);
    vstd::arithmetic::div_mod::lemma_fundamental_div_mod_converse(steps, w, 0, steps);
    assert(2 * (steps * side) + steps == side * w + steps) by (nonlinear_arith)
        requires
            w == 2 * steps,
    ;
    vstd::arithmetic::div_mod::lemma_fundamental_div_mod_converse(
        2 * (steps * side) + steps,
        w,
        side,
        steps,
    );
    assert(2 * (n * steps) + steps == n * w + steps) by (nonlinear_arith)
        requires
            w == 2 * steps,
    ;
    vstd::arithmetic::div_mod::lemma_fundamental_div_mod_converse(
        2 * (n * steps) + steps,
        w,
        n,
        steps,
    );
}

proof fn lemma_share_next(n: int, side: int, steps: int)
    requires
        0 <= n < steps,
        0 <= side <= steps,
    ensures
        ({
            let q = share(n, side, steps);
            share(n + 1, side, steps) == if 2 * (steps * q) + steps <= 2 * (n * side) + 2 * side {
                q + 1
            } else {
                q
            }
        }),
{
    let w = 2 * steps;
    let q = share(n, side, steps);
    let z = 2 * (n * side) + steps;
    lemma_share(n, side, steps);
    assert((n + 1) * side == n * side + side) by (nonlinear_arith);
    let r = z - 2 * (steps * q);
    assert(q * w == 2 * (steps * q)) by (nonlinear_arith)
        requires
            w == 2 * steps,
    ;
    assert((q + 1) * w == q * w + w) by (nonlinear_arith);
    if 2 * (steps * q) + steps <= 2 * (n * side) + 2 * side {
        vstd::arithmetic::div_mod::lemma_fundamental_div_mod_converse(
            z + 2 * side,
            w,
            q + 1,
            r + 2 * side - w,
        );
    } else {
        vstd::arithmetic::div_mod::lemma_fundamental_div_mod_converse(
            z + 2 * side,
            w,
            q,
            r + 2 * side,
        );
    }
}

/// The error term of a line after so many steps across and down.
spec fn error_term(across: int, down: int, a: int, b: int) -> int {
    (b + 1) * across - (a + 1) * down
}

/// What the error term says of the next step.
proof fn lemma_line_step(across: int, down: int, n: int)
    requires
        0 <= across,
        0 <= down,
        ({
            let steps = if across >= down {
                across
            } else {
                down
            };
            0 <= n < steps
        }),
    ensures
        ({
            let steps = if across >= down {
                across
            } else {
                down
            };
            let a = share(n, across, steps);
            let b = share(n, down, steps);
            let err = error_term(across, down, a, b);
            let a1 = share(n + 1, across, steps);
            let b1 = share(n + 1, down, steps);
            &&& -3 * steps <= 2 * err <= 3 * steps
            &&& a1 == if 2 * err >= -down {
                a + 1
            } else {
                a
            }
            &&& b1 == if 2 * err <= across {
                b + 1
            } else {
                b
            }
            &&& error_term(across, down, a1, b1) == err - (if a1 > a {
                down
            } else {
                0
            }) + (if b1 > b {
                across
            } else {
                0
            })
        }),
{
    let steps = if across >= down {
        across
    } else {
        down
    };
    let a = share(n, across, steps);
    let b = share(n, down, steps);
    let a1 = share(n + 1, across, steps);
    let b1 = share(n + 1, down, steps);
    lemma_share(n, across, steps);
    lemma_share(n, down, steps);
    lemma_share(n + 1, across, steps);
    lemma_share(n + 1, down, steps);
    lemma_share_next(n, across, steps);
    lemma_share_next(n, down, steps);
    assert((b + 1) * across == b * across + across) by (nonlinear_arith);
    assert((a + 1) * down == a * down + down) by (nonlinear_arith);
    assert((b + 1 + 1) * across == b * across + across + across) by (nonlinear_arith);
    assert((a + 1 + 1) * down == a * down + down + down) by (nonlinear_arith);
    assert(b * across == across * b) by (nonlinear_arith);
    assert(a * down == down * a) by (nonlinear_arith);
}

proof fn lemma_line_ends(x0: int, y0: int, x1: int, y1: int, n: int)
    requires
        0 <= n <= line_steps(x0, y0, x1, y1),
    ensures
        line_pixel(x0, y0, x1, y1, 0) == (x0, y0),
        line_pixel(x0, y0, x1, y1, n) == (x1, y1) <==> n == line_steps(x0, y0, x1, y1),
        apart(x0, line_pixel(x0, y0, x1, y1, n).0) <= apart(x0, x1),
        apart(y0, line_pixel(x0, y0, x1, y1, n).1) <= apart(y0, y1),
        x0 <= line_pixel(x0, y0, x1, y1, n).0 <= x1 || x1 <= line_pixel(x0, y0, x1, y1, n).0 <= x0,
        y0 <= line_pixel(x0, y0, x1, y1, n).1 <= y1 || y1 <= line_pixel(x0, y0, x1, y1, n).1 <= y0,
{
    let steps = line_steps(x0, y0, x1, y1);
    if steps > 0 {
        lemma_share(n, apart(x0, x1), steps);
        lemma_share(n, apart(y0, y1), steps);
    }
}

fn distance(a: i32, b: i32) -> (d: i64)
    ensures
        d == apart(a as int, b as int),
{
    if a < b {
        b as i64 - a as i64
    } else {
        a as i64 - b as i64
    }
}

/// Draws a line from one pixel to another, both of them included.
pub fn draw_line(
    rgba: &mut [u8],
    x0: i32,
    y0: i32,
    x1: i32,
    y1: i32,
    width: i32,
    color: [u8; 4],
)
    requires
        old(rgba)@.len() >= TRAY_ICON_BYTES,
        brush_fits(x0 as int, y0 as int, half_width(width as int)),
        brush_fits(x1 as int, y1 as int, half_width(width as int)),
    ensures
        final(rgba)@ == paint(
            old(rgba)@,
            line_area(x0 as int, y0 as int, x1 as int, y1 as int, width as int),
            color@,
        ),
{
    let radius: i32 = if width >= 0 {
        width / 2
    } else if width == -1 {
        0
    } else {
        -1
    };
    let across: i64 = distance(x0, x1);
    let down: i64 = distance(y0, y1);
    let mut x: i32 = x0;
    let mut y: i32 = y0;
    let mut err: i64 = across - down;
    let ghost (gx0, gy0, gx1, gy1) = (x0 as int, y0 as int, x1 as int, y1 as int);
    let ghost gr = half_width(width as int);
    let ghost steps = line_steps(gx0, gy0, gx1, gy1);
    let ghost picture = rgba@;
    let ghost mut n: int = 0;
    proof {
        lemma_line_ends(gx0, gy0, gx1, gy1, 0);
        if steps > 0 {
            lemma_share(0, across as int, steps);
            lemma_share(0, down as int, steps);
        }
        assert((0 + 1) * across - (0 + 1) * down == across - down) by (nonlinear_arith);
        let start = |px: int, py: int| under_stroke(px, py, gx0, gy0, gx1, gy1, 0, gr);
        assert(picture =~= paint(picture, start, color@));
    }
    loop
        invariant_except_break
            gx0 == x0 && gy0 == y0 && gx1 == x1 && gy1 == y1,
            gr == half_width(width as int),
            gr == radius,
            brush_fits(gx0, gy0, gr),
            brush_fits(gx1, gy1, gr),
            steps == line_steps(gx0, gy0, gx1, gy1),
            across == apart(gx0, gx1),
            down == apart(gy0, gy1),
            0 <= n <= steps,
            (x as int, y as int) == line_pixel(gx0, gy0, gx1, gy1, n),
            err == error_term(
                across as int,
                down as int,
                share(n, across as int, steps),
                share(n, down as int, steps),
            ),
            rgba@.len() >= TRAY_ICON_BYTES,
            rgba@ == paint(
                picture,
                |px: int, py: int| under_stroke(px, py, gx0, gy0, gx1, gy1, n, gr),
                color@,
            ),
        ensures
            rgba@ == paint(
                picture,
                line_area(gx0, gy0, gx1, gy1, width as int),
                color@,
            ),
        decreases steps - n,
    {
        proof {
            lemma_line_ends(gx0, gy0, gx1, gy1, n);
        }
        draw_brush(rgba, x, y, radius, color);
        proof {
            let before = |px: int, py: int| under_stroke(px, py, gx0, gy0, gx1, gy1, n, gr);
            let here = |px: int, py: int| under_brush(px, py, x as int, y as int, gr);
            let after = |px: int, py: int| under_stroke(px, py, gx0, gy0, gx1, gy1, n + 1, gr);
            assert forall|px: int, py: int| inside(px, py) implies (#[trigger] after(px, py)
                <==> before(px, py) || here(px, py)) by {
                let pixel = line_pixel(gx0, gy0, gx1, gy1, n);
                assert(under_brush(px, py, pixel.0, pixel.1, gr) == here(px, py));
            }
            lemma_paint_twice(picture, before, here, after, color@);
            lemma_paint_same(
                picture,
                |px: int, py: int| under_stroke(px, py, gx0, gy0, gx1, gy1, steps + 1, gr),
                line_area(gx0, gy0, gx1, gy1, width as int),
                color@,
            );
        }
        if x == x1 && y == y1 {
            break;
        }
        proof {
            lemma_line_step(across as int, down as int, n);
            lemma_line_ends(gx0, gy0, gx1, gy1, n + 1);
        }
        let twice: i64 = 2 * err;
        if twice >= -down {
            err = err - down;
            if x0 < x1 {
                x = x + 1;
            } else {
                x = x - 1;
            }
        }
        if twice <= across {
            err = err + across;
            if y0 < y1 {
                y = y + 1;
            } else {
                y = y - 1;
            }
        }
        proof {
            n = n + 1;
        }
    }
}

/// A single pixel.
pub open spec fn pixel_area(x: int, y: int) -> spec_fn(int, int) -> bool {
    |px: int, py: int| px == x && py == y
}

/// Two areas together.
pub open spec fn both(
    a: spec_fn(int, int) -> bool,
    b: spec_fn(int, int) -> bool,
) -> spec_fn(int, int) -> bool {
    |px: int, py: int| a(px, py) || b(px, py)
}

/// The sides of a link of a chain: a rectangle whose corners are left out.
pub open spec fn link_sides(left: int, top: int, right: int, bottom: int) -> spec_fn(
    int,
    int,
) -> bool {
    both(
        both(
            line_area(left + 2, top, right - 2, top, 2),
            line_area(left + 2, bottom, right - 2, bottom, 2),
        ),
        both(
            line_area(left, top + 2, left, bottom - 2, 2),
            line_area(right, top + 2, right, bottom - 2, 2),
        ),
    )
}

/// The four pixels inside the corners of a link of a chain.
pub open spec fn link_corners(left: int, top: int, right: int, bottom: int) -> spec_fn(
    int,
    int,
) -> bool {
    both(
        both(pixel_area(left + 1, top + 1), pixel_area(right - 1, top + 1)),
        both(pixel_area(left + 1, bottom - 1), pixel_area(right - 1, bottom - 1)),
    )
}

/// The area of a link of a chain.
pub open spec fn link_area(left: int, top: int, right: int, bottom: int) -> spec_fn(
    int,
    int,
) -> bool {
    both(link_sides(left, top, right, bottom), link_corners(left, top, right, bottom))
}

proof fn lemma_paint_both(
    picture: Seq<u8>,
    a: spec_fn(int, int) -> bool,
    b: spec_fn(int, int) -> bool,
    color: Seq<u8>,
)
    ensures
        paint(paint(picture, a, color), b, color) == paint(picture, both(a, b), color),
{
    lemma_paint_twice(picture, a, b, both(a, b), color);
}

proof fn lemma_both_grouped(
    picture: Seq<u8>,
    a: spec_fn(int, int) -> bool,
    b: spec_fn(int, int) -> bool,
    c: spec_fn(int, int) -> bool,
    color: Seq<u8>,
)
    ensures
        paint(picture, both(both(a, b), c), color) == paint(picture, both(a, both(b, c)), color),
{
    lemma_paint_same(picture, both(both(a, b), c), both(a, both(b, c)), color);
}

/// Draws a link of a chain: a rectangle with round corners.
pub fn draw_rounded_link(
    rgba: &mut [u8],
    left: i32,
    top: i32,
    right: i32,
    bottom: i32,
    color: [u8; 4],
)
    requires
        old(rgba)@.len() >= TRAY_ICON_BYTES,
        i32::MIN < left <= i32::MAX - 3,
        i32::MIN < top <= i32::MAX - 3,
        i32::MIN + 3 <= right < i32::MAX,
        i32::MIN + 3 <= bottom < i32::MAX,
    ensures
        final(rgba)@ == paint(
            old(rgba)@,
            link_area(left as int, top as int, right as int, bottom as int),
            color@,
        ),
{
    let ghost picture = rgba@;
    let ghost (l, t, r, b) = (left as int, top as int, right as int, bottom as int);
    let ghost s1 = line_area(l + 2, t, r - 2, t, 2);
    let ghost s2 = line_area(l + 2, b, r - 2, b, 2);
    let ghost s3 = line_area(l, t + 2, l, b - 2, 2);
    let ghost s4 = line_area(r, t + 2, r, b - 2, 2);
    let ghost p1 = pixel_area(l + 1, t + 1);
    let ghost p2 = pixel_area(r - 1, t + 1);
    let ghost p3 = pixel_area(l + 1, b - 1);
    let ghost p4 = pixel_area(r - 1, b - 1);
    draw_line(rgba, left + 2, top, right - 2, top, 2, color);
    draw_line(rgba, left + 2, bottom, right - 2, bottom, 2, color);
    draw_line(rgba, left, top + 2, left, bottom - 2, 2, color);
    draw_line(rgba, right, top + 2, right, bottom - 2, 2, color);
    proof {
        lemma_paint_both(picture, s1, s2, color@);
        lemma_paint_both(picture, both(s1, s2), s3, color@);
        lemma_paint_both(picture, both(both(s1, s2), s3), s4, color@);
        lemma_both_grouped(picture, both(s1, s2), s3, s4, color@);
    }
    let ghost sides = link_sides(l, t, r, b);
    assert(rgba@ == paint(picture, sides, color@));
    draw_pixel(rgba, left + 1, top + 1, color);
    draw_pixel(rgba, right - 1, top + 1, color);
    draw_pixel(rgba, left + 1, bottom - 1, color);
    draw_pixel(rgba, right - 1, bottom - 1, color);
    proof {
        let drawn = paint(picture, sides, color@);
        lemma_paint_both(drawn, p1, p2, color@);
        lemma_paint_both(drawn, both(p1, p2), p3, color@);
        lemma_paint_both(drawn, both(both(p1, p2), p3), p4, color@);
        lemma_both_grouped(drawn, both(p1, p2), p3, p4, color@);
        lemma_paint_both(picture, sides, link_corners(l, t, r, b), color@);
    }
}

/// The color of the upper link.
pub open spec fn upper_color(connected: bool) -> Seq<u8> {
    if connected {
        seq![244u8, 180, 28, 255]
    } else {
        seq![148u8, 163, 184, 255]
    }
}

/// The color of the lower link.
pub open spec fn lower_color(connected: bool) -> Seq<u8> {
    if connected {
        seq![0u8, 150, 185, 255]
    } else {
        seq![100u8, 116, 139, 255]
    }
}

/// The color of the cross of a service with no tunnels.
pub open spec fn cross_color() -> Seq<u8> {
    seq![220u8, 38, 38, 255]
}

/// Two links of a chain on a clear ground, and the bars that join them.
pub open spec fn chain_picture(connected: bool) -> Seq<u8> {
    let ground = Seq::new(1296, |k: int| 0u8);
    let upper = paint(ground, link_area(7, 2, 12, 8), upper_color(connected));
    let lower = paint(upper, link_area(2, 10, 8, 15), lower_color(connected));
    let bar = paint(lower, line_area(7, 10, 10, 7, 2), lower_color(connected));
    paint(bar, line_area(8, 11, 11, 8, 2), upper_color(connected))
}

/// The icon of the service: a chain, in color while tunnels are up, and otherwise
/// grey with a red cross.
pub open spec fn icon_picture(connected: bool) -> Seq<u8> {
    if connected {
        chain_picture(true)
    } else {
        paint(
            paint(chain_picture(false), line_area(11, 10, 15, 14, 2), cross_color()),
            line_area(15, 10, 11, 14, 2),
            cross_color(),
        )
    }
}

/// The icon of the service, four bytes for each pixel, row by row.
pub fn tray_status_icon(connected: bool) -> (rgba: Vec<u8>)
    ensures
        rgba@ == icon_picture(connected),
        rgba@.len() == TRAY_ICON_BYTES,
{
    let mut rgba: Vec<u8> = Vec::new();
    while rgba.len() < TRAY_ICON_BYTES
        invariant
            rgba@.len() <= TRAY_ICON_BYTES,
            forall|k: int| 0 <= k < rgba@.len() ==> rgba@[k] == 0u8,
        decreases TRAY_ICON_BYTES - rgba.len(),
    {
        rgba.push(0);
    }
    assert(rgba@ =~= Seq::new(1296, |k: int| 0u8));
    let upper: [u8; 4] = if connected {
        [244, 180, 28, 255]
    } else {
        [148, 163, 184, 255]
    };
    let lower: [u8; 4] = if connected {
        [0, 150, 185, 255]
    } else {
        [100, 116, 139, 255]
    };
    let cross: [u8; 4] = [220, 38, 38, 255];
    assert(upper@ =~= upper_color(connected));
    assert(lower@ =~= lower_color(connected));
    assert(cross@ =~= cross_color());
    draw_rounded_link(rgba.as_mut_slice(), 7, 2, 12, 8, upper);
    draw_rounded_link(rgba.as_mut_slice(), 2, 10, 8, 15, lower);
    draw_line(rgba.as_mut_slice(), 7, 10, 10, 7, 2, lower);
    draw_line(rgba.as_mut_slice(), 8, 11, 11, 8, 2, upper);
    if !connected {
        draw_line(rgba.as_mut_slice(), 11, 10, 15, 14, 2, cross);
        draw_line(rgba.as_mut_slice(), 15, 10, 11, 14, 2, cross);
    }
    rgba
}

/// A line begins at its first pixel and ends at its last.
pub proof fn law_line_joins_its_ends(x0: int, y0: int, x1: int, y1: int)
    ensures
        line_pixel(x0, y0, x1, y1, 0) == (x0, y0),
        line_pixel(x0, y0, x1, y1, line_steps(x0, y0, x1, y1)) == (x1, y1),
{
    lemma_line_ends(x0, y0, x1, y1, 0);
    lemma_line_ends(x0, y0, x1, y1, line_steps(x0, y0, x1, y1));
}

/// A line is unbroken: each of its pixels touches the next, and no two are the
/// same.
pub proof fn law_line_is_unbroken(x0: int, y0: int, x1: int, y1: int, n: int)
    requires
        0 <= n < line_steps(x0, y0, x1, y1),
    ensures
        ({
            let here = line_pixel(x0, y0, x1, y1, n);
            let next = line_pixel(x0, y0, x1, y1, n + 1);
            &&& apart(here.0, next.0) <= 1
            &&& apart(here.1, next.1) <= 1
            &&& here != next
        }),
{
    let steps = line_steps(x0, y0, x1, y1);
    lemma_share_next(n, apart(x0, x1), steps);
    lemma_share_next(n, apart(y0, y1), steps);
    lemma_share(n, apart(x0, x1), steps);
    lemma_share(n, apart(y0, y1), steps);
    lemma_share(n + 1, apart(x0, x1), steps);
    lemma_share(n + 1, apart(y0, y1), steps);
}

/// A line stays in the rectangle between its ends.
pub proof fn law_line_stays_between_its_ends(x0: int, y0: int, x1: int, y1: int, n: int)
    requires
        0 <= n <= line_steps(x0, y0, x1, y1),
    ensures
        ({
            let here = line_pixel(x0, y0, x1, y1, n);
            &&& x0 <= here.0 <= x1 || x1 <= here.0 <= x0
            &&& y0 <= here.1 <= y1 || y1 <= here.1 <= y0
        }),
{
    lemma_line_ends(x0, y0, x1, y1, n);
}

/// Painting an area twice is the same as painting it once, and what is painted
/// has the color.
pub proof fn law_paint_twice(
    picture: Seq<u8>,
    area: spec_fn(int, int) -> bool,
    color: Seq<u8>,
    x: int,
    y: int,
    part: int,
)
    requires
        inside(x, y),
        0 <= part < 4,
        picture.len() >= TRAY_ICON_BYTES,
    ensures
        paint(paint(picture, area, color), area, color) == paint(picture, area, color),
        paint(picture, area, color)[place(x, y) + part] == if area(x, y) {
            color[part]
        } else {
            picture[place(x, y) + part]
        },
{
    lemma_paint_twice(picture, area, area, area, color);
    let k = place(x, y) + part;
    assert((k / 4) % 18 == x);
    assert((k / 4) / 18 == y);
    assert(k % 4 == part);
}

/// A round brush reaches the pixels that are no farther away than its radius; one of
/// radius zero reaches its own pixel alone, and one of radius one that pixel and the
/// four beside it. With a radius below zero there is no brush.
pub proof fn law_brushes(px: int, py: int, x: int, y: int, radius: int)
    ensures
        under_brush(px, py, x, y, radius) <==> radius >= 0 && (px - x) * (px - x) + (py - y) * (py
            - y) <= radius * radius,
        under_brush(px, py, x, y, 0) <==> px == x && py == y,
        under_brush(px, py, x, y, 1) <==> apart(px, x) + apart(py, y) <= 1,
{
    let a = px - x;
    let b = py - y;
    lemma_square(a, 0);
    lemma_square(b, 0);
    lemma_square(a, 1);
    lemma_square(b, 1);
    assert(square(0) == 0);
    assert(square(1) == 1);
    assert(square(-1) == 1);
}

/// The radius of a line's brush is half of its width, with the fraction cut off; a
/// line that is thinner than minus one is not drawn.
pub proof fn law_half_widths(width: int)
    ensures
        width >= 0 ==> 2 * half_width(width) <= width < 2 * half_width(width) + 2,
        width == -1 ==> half_width(width) == 0,
        width < -1 ==> half_width(width) < 0,
{
}

/// A line takes as many steps as the longer of its two sides, and after each of them
/// it is as near to the straight line as a pixel can be: neither side is more than
/// half a pixel off.
pub proof fn law_line_is_straight(x0: int, y0: int, x1: int, y1: int, n: int)
    requires
        0 <= n <= line_steps(x0, y0, x1, y1),
    ensures
        ({
            let steps = line_steps(x0, y0, x1, y1);
            let here = line_pixel(x0, y0, x1, y1, n);
            let a = apart(x0, here.0);
            let b = apart(y0, here.1);
            &&& steps >= apart(x0, x1) && steps >= apart(y0, y1)
            &&& steps == apart(x0, x1) || steps == apart(y0, y1)
            &&& 2 * (steps * a) <= 2 * (n * apart(x0, x1)) + steps
            &&& steps > 0 ==> 2 * (n * apart(x0, x1)) + steps < 2 * (steps * a) + 2 * steps
            &&& 2 * (steps * b) <= 2 * (n * apart(y0, y1)) + steps
            &&& steps > 0 ==> 2 * (n * apart(y0, y1)) + steps < 2 * (steps * b) + 2 * steps
        }),
{
    let steps = line_steps(x0, y0, x1, y1);
    let here = line_pixel(x0, y0, x1, y1, n);
    if steps > 0 {
        lemma_share(n, apart(x0, x1), steps);
        lemma_share(n, apart(y0, y1), steps);
        assert(apart(x0, here.0) == share(n, apart(x0, x1), steps));
        assert(apart(y0, here.1) == share(n, apart(y0, y1), steps));
    } else {
        assert(0 * apart(x0, here.0) == 0) by (nonlinear_arith);
        assert(0 * apart(y0, here.1) == 0) by (nonlinear_arith);
        assert(0 * apart(x0, x1) == 0) by (nonlinear_arith);
        assert(0 * apart(y0, y1) == 0) by (nonlinear_arith);
    }
}

/// A line whose sides are of one length goes one pixel across and one up or down in
/// each step.
pub proof fn law_diagonal_line(x0: int, y0: int, x1: int, y1: int, n: int)
    requires
        apart(x0, x1) == apart(y0, y1),
        0 <= n <= apart(x0, x1),
    ensures
        line_pixel(x0, y0, x1, y1, n) == (
            if x0 < x1 {
                x0 + n
            } else {
                x0 - n
            },
            if y0 < y1 {
                y0 + n
            } else {
                y0 - n
            },
        ),
{
    let steps = apart(x0, x1);
    if steps > 0 {
        lemma_share(n, steps, steps);
    }
}

/// The pixels of a level line of width two: three rows from end to end, and one pixel
/// more at both ends of the middle row.
pub proof fn law_level_line(x0: int, x1: int, y: int, px: int, py: int)
    requires
        x0 <= x1,
    ensures
        line_area(x0, y, x1, y, 2)(px, py) <==> (apart(py, y) <= 1 && x0 <= px <= x1) || (py == y
            && x0 - 1 <= px <= x1 + 1),
{
    let steps = x1 - x0;
    assert forall|k: int| 0 <= k <= steps implies #[trigger] line_pixel(x0, y, x1, y, k) == (
        x0 + k,
        y,
    ) by {
        if steps > 0 {
            lemma_share(k, steps, steps);
            lemma_share(k, 0, steps);
        }
    }
    assert forall|k: int| 0 <= k <= steps implies under_brush(
        px,
        py,
        (#[trigger] line_pixel(x0, y, x1, y, k)).0,
        line_pixel(x0, y, x1, y, k).1,
        1,
    ) == (apart(px, x0 + k) + apart(py, y) <= 1) by {
        law_brushes(px, py, x0 + k, y, 1);
    }
    let k = if px < x0 {
        0
    } else if px > x1 {
        steps
    } else {
        px - x0
    };
    assert(line_pixel(x0, y, x1, y, k) == (x0 + k, y));
}

/// The pixels of an upright line of width two: three columns from end to end, and one
/// pixel more at both ends of the middle column.
pub proof fn law_upright_line(x: int, y0: int, y1: int, px: int, py: int)
    requires
        y0 <= y1,
    ensures
        line_area(x, y0, x, y1, 2)(px, py) <==> (apart(px, x) <= 1 && y0 <= py <= y1) || (px == x
            && y0 - 1 <= py <= y1 + 1),
{
    let steps = y1 - y0;
    assert forall|k: int| 0 <= k <= steps implies #[trigger] line_pixel(x, y0, x, y1, k) == (
        x,
        y0 + k,
    ) by {
        if steps > 0 {
            lemma_share(k, steps, steps);
            lemma_share(k, 0, steps);
        }
    }
    assert forall|k: int| 0 <= k <= steps implies under_brush(
        px,
        py,
        (#[trigger] line_pixel(x, y0, x, y1, k)).0,
        line_pixel(x, y0, x, y1, k).1,
        1,
    ) == (apart(px, x) + apart(py, y0 + k) <= 1) by {
        law_brushes(px, py, x, y0 + k, 1);
    }
    let k = if py < y0 {
        0
    } else if py > y1 {
        steps
    } else {
        py - y0
    };
    assert(line_pixel(x, y0, x, y1, k) == (x, y0 + k));
}

/// A link of a chain looks the same from both sides and from above and below, covers
/// its four sides, and leaves its outer corners and its middle clear.
pub proof fn law_link_is_a_ring(left: int, top: int, right: int, bottom: int, x: int, y: int)
    requires
        right - left >= 4,
        bottom - top >= 4,
    ensures
        ({
            let link = link_area(left, top, right, bottom);
            &&& link(x, y) == link(left + right - x, y)
            &&& link(x, y) == link(x, top + bottom - y)
            &&& (x == left || x == right) && top + 2 <= y <= bottom - 2 ==> link(x, y)
            &&& (y == top || y == bottom) && left + 2 <= x <= right - 2 ==> link(x, y)
            &&& !link(left, top) && !link(right, bottom)
            &&& left + 2 <= x <= right - 2 && top + 2 <= y <= bottom - 2 ==> !link(x, y)
            &&& x < left - 1 || x > right + 1 || y < top - 1 || y > bottom + 1 ==> !link(x, y)
        }),
{
    lemma_link(left, top, right, bottom, x, y);
    lemma_link(left, top, right, bottom, left + right - x, y);
    lemma_link(left, top, right, bottom, x, top + bottom - y);
    lemma_link(left, top, right, bottom, left, top);
    lemma_link(left, top, right, bottom, right, bottom);
}

proof fn lemma_link(left: int, top: int, right: int, bottom: int, x: int, y: int)
    requires
        right - left >= 4,
        bottom - top >= 4,
    ensures
        link_area(left, top, right, bottom)(x, y) <==> {
            ||| (apart(y, top) <= 1 || apart(y, bottom) <= 1) && left + 2 <= x <= right - 2
            ||| (y == top || y == bottom) && left + 1 <= x <= right - 1
            ||| (apart(x, left) <= 1 || apart(x, right) <= 1) && top + 2 <= y <= bottom - 2
            ||| (x == left || x == right) && top + 1 <= y <= bottom - 1
            ||| (x == left + 1 || x == right - 1) && (y == top + 1 || y == bottom - 1)
        },
{
    law_level_line(left + 2, right - 2, top, x, y);
    law_level_line(left + 2, right - 2, bottom, x, y);
    law_upright_line(left, top + 2, bottom - 2, x, y);
    law_upright_line(right, top + 2, bottom - 2, x, y);
}

/// A byte of a pixel of the icon.
pub open spec fn shade(connected: bool, x: int, y: int, part: int) -> u8 {
    icon_picture(connected)[place(x, y) + part]
}

/// What a pixel of the icon shows is decided by the topmost thing that covers it: the
/// cross, where no tunnel is up, then the upper bar in the color of the upper link,
/// then the lower bar and the lower link, then the upper link; the rest is clear.
pub proof fn law_icon_layers(connected: bool, x: int, y: int, part: int)
    requires
        inside(x, y),
        0 <= part < 4,
    ensures
        ({
            let cross = line_area(11, 10, 15, 14, 2)(x, y) || line_area(15, 10, 11, 14, 2)(x, y);
            let amber = seq![244u8, 180, 28, 255];
            let teal = seq![0u8, 150, 185, 255];
            let light = seq![148u8, 163, 184, 255];
            let dark = seq![100u8, 116, 139, 255];
            let red = seq![220u8, 38, 38, 255];
            let first = if connected {
                amber
            } else {
                light
            };
            let second = if connected {
                teal
            } else {
                dark
            };
            shade(connected, x, y, part) == if !connected && cross {
                red[part]
            } else if line_area(8, 11, 11, 8, 2)(x, y) {
                first[part]
            } else if line_area(7, 10, 10, 7, 2)(x, y) || link_area(2, 10, 8, 15)(x, y) {
                second[part]
            } else if link_area(7, 2, 12, 8)(x, y) {
                first[part]
            } else {
                0u8
            }
        }),
{
    let ground = Seq::new(1296, |k: int| 0u8);
    let one = upper_color(connected);
    let two = lower_color(connected);
    let upper = paint(ground, link_area(7, 2, 12, 8), one);
    let lower = paint(upper, link_area(2, 10, 8, 15), two);
    let bar = paint(lower, line_area(7, 10, 10, 7, 2), two);
    let chain = paint(bar, line_area(8, 11, 11, 8, 2), one);
    let struck = paint(chain, line_area(11, 10, 15, 14, 2), cross_color());
    law_paint_twice(ground, link_area(7, 2, 12, 8), one, x, y, part);
    law_paint_twice(upper, link_area(2, 10, 8, 15), two, x, y, part);
    law_paint_twice(lower, line_area(7, 10, 10, 7, 2), two, x, y, part);
    law_paint_twice(bar, line_area(8, 11, 11, 8, 2), one, x, y, part);
    law_paint_twice(chain, line_area(11, 10, 15, 14, 2), cross_color(), x, y, part);
    law_paint_twice(struck, line_area(15, 10, 11, 14, 2), cross_color(), x, y, part);
    assert(chain_picture(connected) == chain);
    assert(ground[place(x, y) + part] == 0u8);
}

/// Every pixel of the icon is either wholly clear or wholly covered, and red is seen
/// only where no tunnel is up.
pub proof fn law_icon_pixels_are_clear_or_covered(connected: bool, x: int, y: int)
    requires
        inside(x, y),
    ensures
        shade(connected, x, y, 3) == 255 || (shade(connected, x, y, 0) == 0 && shade(
            connected,
            x,
            y,
            1,
        ) == 0 && shade(connected, x, y, 2) == 0 && shade(connected, x, y, 3) == 0),
        shade(connected, x, y, 0) == 220 ==> !connected,
        icon_picture(connected).len() == 1296,
{
    law_icon_layers(connected, x, y, 0);
    law_icon_layers(connected, x, y, 1);
    law_icon_layers(connected, x, y, 2);
    law_icon_layers(connected, x, y, 3);
}

/// The picture is kept row by row from the upper left corner on, four bytes for each
/// pixel: the next pixel of a row follows at once, and the next row after eighteen.
pub proof fn law_pixels_stand_row_by_row(x: int, y: int)
    requires
        inside(x, y),
    ensures
        place(0, 0) == 0,
        place(x + 1, y) == place(x, y) + 4,
        place(x, y + 1) == place(x, y) + 4 * 18,
        0 <= place(x, y) <= 1296 - 4,
{
}

} // verus!
