//! The fractal renderer: a deterministic escape-time computation over a
//! fixed character grid. Each cell maps to a point of the complex plane in a
//! four-unit window centered on the origin; the quadratic update
//! `z <- z^2 + c` runs until the magnitude check fails or the iteration cap
//! is reached, and the resulting count picks a display glyph by fixed
//! thresholds. The arithmetic is fixed-point over 64-bit integers with a
//! power-of-two scale, with truncation toward zero, so the whole image is a
//! pure function of the grid size and the iteration cap.

use vstd::prelude::*;
use vstd::arithmetic::div_mod::lemma_div_by_multiple;
use vstd::arithmetic::div_mod::lemma_div_is_ordered;
use vstd::arithmetic::div_mod::lemma_div_nonincreasing;
use vstd::arithmetic::div_mod::lemma_div_pos_is_pos;
use vstd::arithmetic::div_mod::lemma_fundamental_div_mod;

verus! {

/// The fixed-point scale: one unit of the complex plane is this many ticks.
pub const SCALE: i64 = 65536;

/// Quotient truncated toward zero, for a positive divisor. This is the
/// rounding the renderer's fixed-point arithmetic uses.
pub open spec fn tdiv(a: int, b: int) -> int {
    if a >= 0 {
        a / b
    } else {
        -((-a) / b)
    }
}

/// Rescale a double-scaled product back to fixed-point ticks.
pub open spec fn fx(v: int) -> int {
    tdiv(v, SCALE as int)
}

/// The scaled squared magnitude `zx^2 + zy^2` of the iterate.
pub open spec fn mag(zx: int, zy: int) -> int {
    fx(zx * zx) + fx(zy * zy)
}

/// Real part of one quadratic update: `zx^2 - zy^2 + cx`.
pub open spec fn step_x(zx: int, zy: int, cx: int) -> int {
    fx(zx * zx) - fx(zy * zy) + cx
}

/// Imaginary part of one quadratic update: `2 zx zy + cy`.
pub open spec fn step_y(zx: int, zy: int, cy: int) -> int {
    fx(2 * (zx * zy)) + cy
}

/// How many update steps run from iterate `(zx, zy)` before the magnitude
/// check `zx^2 + zy^2 <= 4` first fails, capped at `fuel`.
pub open spec fn escape_count(cx: int, cy: int, zx: int, zy: int, fuel: nat) -> nat
    decreases fuel,
{
    if fuel == 0 {
        0
    } else if mag(zx, zy) > 4 * (SCALE as int) {
        0
    } else {
        1 + escape_count(cx, cy, step_x(zx, zy, cx), step_y(zx, zy, cy), (fuel - 1) as nat)
    }
}

/// The scaled coordinate of grid position `p` of `n`: `(p - n/2) * 4 / n`
/// in plane units, i.e. `(2p - n) * 2 * SCALE / n` in ticks.
pub open spec fn coord(p: int, n: int) -> int {
    tdiv((2 * p - n) * 2 * (SCALE as int), n)
}

/// The escape count of grid cell `(x, y)` on a `w` by `h` grid.
pub open spec fn cell_count(x: int, y: int, w: int, h: int, max: nat) -> nat {
    escape_count(coord(x, w), coord(y, h), 0, 0, max)
}

/// The display glyph for an escape count, most-inside first: the cap itself,
/// then three fixed thresholds, then blank.
pub open spec fn glyph(count: nat, max: nat) -> char {
    if count == max {
        '#'
    } else if count > 30 {
        '*'
    } else if count > 15 {
        '+'
    } else if count > 5 {
        '.'
    } else {
        ' '
    }
}

/// One rendered row: `w` glyphs, then a line terminator.
pub open spec fn row_chars(y: int, w: int, h: int, max: nat) -> Seq<char> {
    Seq::new(w as nat, |x: int| glyph(cell_count(x, y, w, h, max), max)) + seq!['\r', '\n']
}

/// The first `rows` rendered rows, concatenated.
pub open spec fn grid_chars(rows: int, w: int, h: int, max: nat) -> Seq<char>
    decreases rows,
{
    if rows <= 0 {
        Seq::empty()
    } else {
        grid_chars(rows - 1, w, h, max) + row_chars(rows - 1, w, h, max)
    }
}

/// The whole rendered image for a `w` by `h` grid with iteration cap `max`.
pub open spec fn render_spec(w: int, h: int, max: nat) -> Seq<char> {
    grid_chars(h, w, h, max)
}

proof fn lemma_mul_bound(a: int, b: int, m: int, n: int)
    requires
        -m <= a <= m,
        -n <= b <= n,
        0 <= m,
        0 <= n,
    ensures
        -(m * n) <= a * b <= m * n,
{
    assert(-(m * n) <= a * b <= m * n) by (nonlinear_arith)
        requires
            -m <= a <= m,
            -n <= b <= n,
            0 <= m,
            0 <= n,
    ;
}

proof fn lemma_tdiv_bound(v: int, s: int, k: int)
    requires
        s > 0,
        k >= 0,
        -(k * s) <= v <= k * s,
    ensures
        -k <= tdiv(v, s) <= k,
{
    if v >= 0 {
        lemma_div_is_ordered(v, k * s, s);
        lemma_div_by_multiple(k, s);
        lemma_div_pos_is_pos(v, s);
    } else {
        lemma_div_is_ordered(-v, k * s, s);
        lemma_div_by_multiple(k, s);
        lemma_div_pos_is_pos(-v, s);
    }
}

/// Truncating division of a 64-bit value by a positive divisor, computed on
/// magnitudes so only unsigned machine division is used.
fn tdiv_exec(a: i64, b: i64) -> (r: i64)
    requires
        b > 0,
        a > i64::MIN,
    ensures
        r as int == tdiv(a as int, b as int),
{
    if a >= 0 {
        proof {
            lemma_div_nonincreasing(a as int, b as int);
            lemma_div_pos_is_pos(a as int, b as int);
        }
        let q = (a as u64) / (b as u64);
        q as i64
    } else {
        let m = (-a) as u64;
        proof {
            lemma_div_nonincreasing(m as int, b as int);
            lemma_div_pos_is_pos(m as int, b as int);
        }
        let q = m / (b as u64);
        -(q as i64)
    }
}

/// The scaled coordinate of grid position `p` of `n`, with its bound.
fn coord_exec(p: usize, n: usize) -> (r: i64)
    requires
        0 < n <= 1024,
        p < n,
    ensures
        r as int == coord(p as int, n as int),
        -2 * (SCALE as int) <= r as int <= 2 * (SCALE as int),
{
    let a: i64 = (2 * (p as i64) - (n as i64)) * 2 * SCALE;
    proof {
        lemma_mul_bound(2 * (p as int) - (n as int), 2 * (SCALE as int), n as int, 2 * (
        SCALE as int));
        lemma_tdiv_bound(a as int, n as int, 2 * (SCALE as int));
    }
    tdiv_exec(a, n as i64)
}

/// True when the iterate has escaped: its scaled squared magnitude exceeds
/// four units.
fn escaped_now(zx: i64, zy: i64) -> (b: bool)
    requires
        -8 * (SCALE as int) <= zx as int <= 8 * (SCALE as int),
        -8 * (SCALE as int) <= zy as int <= 8 * (SCALE as int),
    ensures
        b == (mag(zx as int, zy as int) > 4 * (SCALE as int)),
{
    proof {
        lemma_mul_bound(zx as int, zx as int, 524288, 524288);
        lemma_mul_bound(zy as int, zy as int, 524288, 524288);
    }
    let px = zx * zx;
    let py = zy * zy;
    proof {
        lemma_tdiv_bound(px as int, SCALE as int, 4194304);
        lemma_tdiv_bound(py as int, SCALE as int, 4194304);
    }
    let sx = tdiv_exec(px, SCALE);
    let sy = tdiv_exec(py, SCALE);
    sx + sy > 4 * SCALE
}

/// The escape count of the point `(cx, cy)`, in ticks, with cap `max`.
fn escape_count_exec(cx: i64, cy: i64, max: u32) -> (n: u32)
    requires
        -3 * (SCALE as int) <= cx as int <= 3 * (SCALE as int),
        -3 * (SCALE as int) <= cy as int <= 3 * (SCALE as int),
    ensures
        n as nat == escape_count(cx as int, cy as int, 0, 0, max as nat),
{
    let mut zx: i64 = 0;
    let mut zy: i64 = 0;
    let mut iter: u32 = 0;
    while iter < max && !escaped_now(zx, zy)
        invariant
            0 <= iter <= max,
            -3 * (SCALE as int) <= cx as int <= 3 * (SCALE as int),
            -3 * (SCALE as int) <= cy as int <= 3 * (SCALE as int),
            -8 * (SCALE as int) <= zx as int <= 8 * (SCALE as int),
            -8 * (SCALE as int) <= zy as int <= 8 * (SCALE as int),
            escape_count(cx as int, cy as int, 0, 0, max as nat) == iter + escape_count(
                cx as int,
                cy as int,
                zx as int,
                zy as int,
                (max - iter) as nat,
            ),
        decreases max - iter,
    {
        proof {
            lemma_mul_bound(zx as int, zx as int, 524288, 524288);
            lemma_mul_bound(zy as int, zy as int, 524288, 524288);
            lemma_mul_bound(zx as int, zy as int, 524288, 524288);
        }
        let px = zx * zx;
        let py = zy * zy;
        proof {
            assert(px as int >= 0 && py as int >= 0) by (nonlinear_arith)
                requires
                    px as int == (zx as int) * (zx as int),
                    py as int == (zy as int) * (zy as int),
            ;
            lemma_tdiv_bound(px as int, SCALE as int, 4194304);
            lemma_tdiv_bound(py as int, SCALE as int, 4194304);
        }
        let sx = tdiv_exec(px, SCALE);
        let sy = tdiv_exec(py, SCALE);
        let t2 = 2 * (zx * zy);
        proof {
            // The guard says the iterate has not escaped, so the two scaled
            // squares are nonnegative and sum to at most four units.
            lemma_div_pos_is_pos(px as int, SCALE as int);
            lemma_div_pos_is_pos(py as int, SCALE as int);
            // Undo the truncation to bound the raw squares.
            lemma_fundamental_div_mod(px as int, SCALE as int);
            lemma_fundamental_div_mod(py as int, SCALE as int);
            assert(px as int + py as int <= 17180000254);
            // The cross product is within the sum of the two squares.
            assert(-(px as int + py as int) <= 2 * ((zx as int) * (zy as int)) <= px as int
                + py as int) by (nonlinear_arith)
                requires
                    px as int == (zx as int) * (zx as int),
                    py as int == (zy as int) * (zy as int),
            ;
            lemma_tdiv_bound(t2 as int, SCALE as int, 262146);
        }
        let sxy = tdiv_exec(t2, SCALE);
        let nzx = sx - sy + cx;
        let nzy = sxy + cy;
        proof {
            assert(nzx as int == step_x(zx as int, zy as int, cx as int));
            assert(nzy as int == step_y(zx as int, zy as int, cy as int));
            assert(escape_count(cx as int, cy as int, zx as int, zy as int, (max - iter) as nat)
                == 1 + escape_count(
                cx as int,
                cy as int,
                nzx as int,
                nzy as int,
                (max - iter - 1) as nat,
            ));
        }
        zx = nzx;
        zy = nzy;
        iter = iter + 1;
    }
    iter
}

/// Determinism: the rendered image is a function of the grid size and the
/// iteration cap alone, so any two renderings with the same parameters are
/// identical.
pub proof fn lemma_render_deterministic(a: Seq<char>, b: Seq<char>, w: int, h: int, max: nat)
    requires
        a == render_spec(w, h, max),
        b == render_spec(w, h, max),
    ensures
        a == b,
{
}

proof fn lemma_origin_never_escapes(fuel: nat)
    ensures
        escape_count(0, 0, 0, 0, fuel) == fuel,
    decreases fuel,
{
    vstd::arithmetic::div_mod::lemma_div_of0(SCALE as int);
    if fuel > 0 {
        lemma_origin_never_escapes((fuel - 1) as nat);
    }
}

/// The cell nearest the origin of an even-sized grid maps to the plane
/// origin, where the iterate never escapes: its count reaches the cap and it
/// renders as the most-inside glyph.
pub proof fn lemma_center_cell_full(w: int, h: int, max: nat)
    requires
        0 < w,
        0 < h,
        w % 2 == 0,
        h % 2 == 0,
    ensures
        cell_count(w / 2, h / 2, w, h, max) == max,
        glyph(cell_count(w / 2, h / 2, w, h, max), max) == '#',
{
    assert(2 * (w / 2) - w == 0);
    assert(2 * (h / 2) - h == 0);
    vstd::arithmetic::div_mod::lemma_div_of0(w);
    vstd::arithmetic::div_mod::lemma_div_of0(h);
    assert(coord(w / 2, w) == 0);
    assert(coord(h / 2, h) == 0);
    lemma_origin_never_escapes(max);
}

/// The display glyph for an escape count.
fn glyph_exec(count: u32, max: u32) -> (g: char)
    ensures
        g == glyph(count as nat, max as nat),
{
    if count == max {
        '#'
    } else if count > 30 {
        '*'
    } else if count > 15 {
        '+'
    } else if count > 5 {
        '.'
    } else {
        ' '
    }
}

/// Render the whole image: `h` rows of `w` glyphs, each row closed by a
/// line terminator, exactly as `render_spec` lays it out.
pub fn render(w: usize, h: usize, max: u32) -> (out: Vec<char>)
    requires
        0 < w <= 1024,
        0 < h <= 1024,
    ensures
        out@ == render_spec(w as int, h as int, max as nat),
{
    let mut out: Vec<char> = Vec::new();
    let mut y: usize = 0;
    while y < h
        invariant
            0 < w <= 1024,
            0 < h <= 1024,
            0 <= y <= h,
            out@ == grid_chars(y as int, w as int, h as int, max as nat),
        decreases h - y,
    {
        let cy = coord_exec(y, h);
        let mut x: usize = 0;
        while x < w
            invariant
                0 < w <= 1024,
                0 < h <= 1024,
                0 <= y < h,
                0 <= x <= w,
                cy as int == coord(y as int, h as int),
                -2 * (SCALE as int) <= cy as int <= 2 * (SCALE as int),
                out@ == grid_chars(y as int, w as int, h as int, max as nat) + Seq::new(
                    x as nat,
                    |i: int| glyph(cell_count(i, y as int, w as int, h as int, max as nat),
                    max as nat),
                ),
            decreases w - x,
        {
            let cx = coord_exec(x, w);
            let cnt = escape_count_exec(cx, cy, max);
            let g = glyph_exec(cnt, max);
            out.push(g);
            proof {
                assert(out@ == grid_chars(y as int, w as int, h as int, max as nat) + Seq::new(
                    (x + 1) as nat,
                    |i: int| glyph(cell_count(i, y as int, w as int, h as int, max as nat),
                    max as nat),
                )) by {
                    assert(out@ =~= grid_chars(y as int, w as int, h as int, max as nat)
                        + Seq::new(
                        (x + 1) as nat,
                        |i: int| glyph(cell_count(i, y as int, w as int, h as int, max as nat),
                        max as nat),
                    ));
                }
            }
            x = x + 1;
        }
        out.push('\r');
        out.push('\n');
        proof {
            assert(out@ =~= grid_chars(y + 1, w as int, h as int, max as nat));
        }
        y = y + 1;
    }
    out
}

} // verus!
