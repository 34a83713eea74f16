use vstd::prelude::*;
use vstd::arithmetic::div_mod::{lemma_fundamental_div_mod, lemma_fundamental_div_mod_converse};
use crate::error::{LayoutError, LayoutErrorKind};
use crate::geometry::{Rect, MAX_COORD};

verus! {

/// A non-negative ratio `num / den`.
#[derive(Clone, Copy, Debug, PartialEq, Eq, Structural)]
pub struct Ratio {
    pub num: u16,
    pub den: u16,
}

/// Counts and ratios that describe a grid at all.
pub open spec fn grid_valid(cols: int, rows: int, aspect: Ratio, spacing: Ratio) -> bool {
    &&& cols > 0
    &&& rows > 0
    &&& aspect.num > 0
    &&& aspect.den > 0
    &&& spacing.den > 0
}

/// Smallest grid of `cols` by `rows` cells with the given cell aspect
/// (height over width) and spacing, in units of the shorter cell side, as
/// the fractions `(width_num, width_den, height_num, height_den)`.
pub open spec fn min_size(cols: int, rows: int, aspect: Ratio, spacing: Ratio) -> (int, int, int, int) {
    let an = aspect.num as int;
    let ad = aspect.den as int;
    let sn = spacing.num as int;
    let sd = spacing.den as int;
    if an >= ad {
        (cols * sd + (cols - 1) * sn, sd, rows * an * sd + (rows - 1) * sn * ad, ad * sd)
    } else {
        (cols * ad * sd + (cols - 1) * sn * ad, an * sd, rows * sd + (rows - 1) * sn, sd)
    }
}

/// The frame is relatively taller than the grid: the grid spans the full
/// width and is centred vertically.
pub open spec fn fits_width(frame: Rect, cols: int, rows: int, aspect: Ratio, spacing: Ratio) -> bool {
    let (wn, wd, hn, hd) = min_size(cols, rows, aspect, spacing);
    (frame.height as int) * hd * wn > hn * wd * (frame.width as int)
}

/// Pixels of spacing across an axis of length `len` holding `count` cells,
/// rounded up: `spacing * len + count + 1`.
pub open spec fn spacing_pixels(len: int, count: int, spacing: Ratio) -> int {
    let sn = spacing.num as int;
    let sd = spacing.den as int;
    (sn * len + (count + 1) * sd + sd - 1) / sd
}

/// The gap between cells, rounded up, when `pixels` are spread over
/// `count + 1` gaps.
pub open spec fn gap_of(pixels: int, count: int) -> int {
    (pixels + count) / (count + 1)
}

/// Start of cell `i` on the axis the grid spans, for cells of length
/// `cn / cd` separated and framed by `gap`, rounded down.
pub open spec fn along(origin: int, i: int, cn: int, cd: int, gap: int) -> int {
    origin + (i + 1) * gap + (i * cn) / cd
}

/// Start of cell `j` on the axis where `count` cells of length `cn / cd`
/// separated by `gap` are centred in `len`, rounded down.
pub open spec fn centered(origin: int, len: int, count: int, j: int, cn: int, cd: int, gap: int) -> int {
    origin + j * gap + (cd * len - count * cn - (count - 1) * gap * cd + 2 * j * cn) / (2 * cd)
}

/// `x`, `y`, width and height of the cell in row `y` and column `x`.
pub open spec fn cell_values(
    frame: Rect,
    cols: int,
    rows: int,
    aspect: Ratio,
    spacing: Ratio,
    y: int,
    x: int,
) -> (int, int, int, int) {
    if fits_width(frame, cols, rows, aspect, spacing) {
        let sp = spacing_pixels(frame.width as int, cols, spacing);
        let gap = gap_of(sp, cols);
        let mn = frame.width as int - sp;
        let on = mn * (aspect.num as int);
        let od = cols * (aspect.den as int);
        (
            along(frame.x as int, x, mn, cols, gap),
            centered(frame.y as int, frame.height as int, rows, y, on, od, gap),
            mn / cols,
            on / od,
        )
    } else {
        let sp = spacing_pixels(frame.height as int, rows, spacing);
        let gap = gap_of(sp, rows);
        let mn = frame.height as int - sp;
        let on = mn * (aspect.den as int);
        let od = rows * (aspect.num as int);
        (
            centered(frame.x as int, frame.width as int, cols, x, on, od, gap),
            along(frame.y as int, y, mn, rows, gap),
            on / od,
            mn / rows,
        )
    }
}

/// Each of the values fits in an `i64`.
pub open spec fn values_fit(v: (int, int, int, int)) -> bool {
    &&& i64::MIN <= v.0 <= i64::MAX
    &&& i64::MIN <= v.1 <= i64::MAX
    &&& i64::MIN <= v.2 <= i64::MAX
    &&& i64::MIN <= v.3 <= i64::MAX
}

/// Some cell of the grid has a value that does not fit in an `i64`.
pub open spec fn some_cell_unfit(frame: Rect, cols: int, rows: int, aspect: Ratio, spacing: Ratio) -> bool {
    exists|k: int|
        0 <= k < cols * rows && !values_fit(
            #[trigger] cell_values(frame, cols, rows, aspect, spacing, k / cols, k % cols),
        )
}

pub open spec fn rect_is(r: Rect, v: (int, int, int, int)) -> bool {
    r.x == v.0 && r.y == v.1 && r.width == v.2 && r.height == v.3
}

fn floor_div(a: i128, b: i128) -> (r: i128)
    requires
        0 < b,
        -0x1000_0000_0000_0000_0000_0000_0000_0000 < a < 0x1000_0000_0000_0000_0000_0000_0000_0000,
    ensures
        r == a / b,
{
    if a >= 0 {
        a / b
    } else {
        let q = (-a - 1) / b;
        proof {
            let x = a as int;
            let d = b as int;
            let qi = q as int;
            lemma_fundamental_div_mod(-x - 1, d);
            let m = (-x - 1) % d;
            assert(x == (-qi - 1) * d + (d - 1 - m)) by (nonlinear_arith)
                requires
                    -x - 1 == d * qi + m,
            ;
            lemma_fundamental_div_mod_converse(x, d, -qi - 1, d - 1 - m);
        }
        -q - 1
    }
}

fn along_exec(origin: i128, i: i128, cn: i128, cd: i128, gap: i128) -> (r: i128)
    requires
        -0x200_0000_0000 <= origin <= 0x200_0000_0000,
        0 <= i <= 0x1_0000,
        -0x400_0000_0000_0000_0000 <= cn <= 0x400_0000_0000_0000_0000,
        0 < cd <= 0x1_0000_0000,
        0 <= gap <= 0x400_0000_0000_0000,
    ensures
        r == along(origin as int, i as int, cn as int, cd as int, gap as int),
{
    assert(-0x400_0000_0000_0000_0000_0000 <= i * cn <= 0x400_0000_0000_0000_0000_0000) by (nonlinear_arith)
        requires
            0 <= i <= 0x1_0000,
            -0x400_0000_0000_0000_0000 <= cn <= 0x400_0000_0000_0000_0000,
    ;
    assert(0 <= (i + 1) * gap <= 0x1_0001 * 0x400_0000_0000_0000) by (nonlinear_arith)
        requires
            0 <= i <= 0x1_0000,
            0 <= gap <= 0x400_0000_0000_0000,
    ;
    let q = floor_div(i * cn, cd);
    proof {
        let p = (i * cn) as int;
        let d = cd as int;
        let qi = q as int;
        lemma_fundamental_div_mod(p, d);
        assert(-0x400_0000_0000_0000_0000_0000 <= qi <= 0x400_0000_0000_0000_0000_0000) by (nonlinear_arith)
            requires
                p == d * qi + p % d,
                0 <= p % d < d,
                0 < d,
                -0x400_0000_0000_0000_0000_0000 <= p <= 0x400_0000_0000_0000_0000_0000,
        ;
    }
    origin + (i + 1) * gap + q
}

fn centered_exec(origin: i128, len: i128, count: i128, j: i128, cn: i128, cd: i128, gap: i128) -> (r:
    i128)
    requires
        -0x200_0000_0000 <= origin <= 0x200_0000_0000,
        0 <= len <= 0x200_0000_0000,
        1 <= count <= 0x1_0000,
        0 <= j <= 0x1_0000,
        -0x400_0000_0000_0000_0000 <= cn <= 0x400_0000_0000_0000_0000,
        0 < cd <= 0x1_0000_0000,
        0 <= gap <= 0x400_0000_0000_0000,
    ensures
        r == centered(origin as int, len as int, count as int, j as int, cn as int, cd as int, gap as int),
{
    assert(0 <= cd * len <= 0x1_0000_0000 * 0x200_0000_0000) by (nonlinear_arith)
        requires
            0 < cd <= 0x1_0000_0000,
            0 <= len <= 0x200_0000_0000,
    ;
    assert(-0x400_0000_0000_0000_0000_0000 <= count * cn <= 0x400_0000_0000_0000_0000_0000) by (nonlinear_arith)
        requires
            1 <= count <= 0x1_0000,
            -0x400_0000_0000_0000_0000 <= cn <= 0x400_0000_0000_0000_0000,
    ;
    assert(-0x400_0000_0000_0000_0000_0000 <= j * cn <= 0x400_0000_0000_0000_0000_0000) by (nonlinear_arith)
        requires
            0 <= j <= 0x1_0000,
            -0x400_0000_0000_0000_0000 <= cn <= 0x400_0000_0000_0000_0000,
    ;
    assert(0 <= (count - 1) * gap <= 0x1_0000 * 0x400_0000_0000_0000) by (nonlinear_arith)
        requires
            1 <= count <= 0x1_0000,
            0 <= gap <= 0x400_0000_0000_0000,
    ;
    assert(0 <= (count - 1) * gap * cd <= 0x1_0000 * 0x400_0000_0000_0000 * 0x1_0000_0000) by (nonlinear_arith)
        requires
            0 <= (count - 1) * gap <= 0x1_0000 * 0x400_0000_0000_0000,
            0 < cd <= 0x1_0000_0000,
    ;
    assert(0 <= j * gap <= 0x1_0000 * 0x400_0000_0000_0000) by (nonlinear_arith)
        requires
            0 <= j <= 0x1_0000,
            0 <= gap <= 0x400_0000_0000_0000,
    ;
    let num = cd * len - count * cn - (count - 1) * gap * cd + 2 * (j * cn);
    let q = floor_div(num, 2 * cd);
    proof {
        let p = num as int;
        let d = 2 * (cd as int);
        let qi = q as int;
        lemma_fundamental_div_mod(p, d);
        assert(-0x1000_0000_0000_0000_0000_0000_0000 <= qi <= 0x1000_0000_0000_0000_0000_0000_0000) by (nonlinear_arith)
            requires
                p == d * qi + p % d,
                0 <= p % d < d,
                0 < d,
                -0x1000_0000_0000_0000_0000_0000_0000 <= p <= 0x1000_0000_0000_0000_0000_0000_0000,
        ;
        assert(2 * j * cn == 2 * (j * cn)) by (nonlinear_arith);
    }
    origin + j * gap + q
}

/// Lays out `rows` by `cols` cells of the given aspect (height over width),
/// row by row, each row left to right, as large as the frame allows with
/// `spacing` between and around them, centred on the axis the grid does not
/// span, every value rounded down to whole pixels.
///
/// Spacing may leave cells with a negative extent; they are returned as
/// they come. Fails with `OutOfRange` when the frame is not in range or a
/// cell's value does not fit in an `i64`, and with `DegenerateGrid` when a
/// count, the aspect or the spacing's denominator is zero.
pub fn grid(frame: Rect, cols: u16, rows: u16, cell_aspect_ratio: Ratio, spacing_ratio: Ratio) -> (r:
    Result<Vec<Rect>, LayoutError>)
    ensures
        match r {
            Ok(cells) => {
                &&& frame.in_range()
                &&& grid_valid(cols as int, rows as int, cell_aspect_ratio, spacing_ratio)
                &&& cells.len() == cols * rows
                &&& forall|k: int|
                    0 <= k < cells.len() ==> {
                        &&& rect_is(
                            #[trigger] cells[k],
                            cell_values(
                                frame,
                                cols as int,
                                rows as int,
                                cell_aspect_ratio,
                                spacing_ratio,
                                k / (cols as int),
                                k % (cols as int),
                            ),
                        )
                    }
            },
            Err(e) => {
                &&& !frame.in_range() ==> e.kind == LayoutErrorKind::OutOfRange
                &&& frame.in_range() && !grid_valid(cols as int, rows as int, cell_aspect_ratio, spacing_ratio)
                    ==> e.kind == LayoutErrorKind::DegenerateGrid
                &&& frame.in_range() && grid_valid(cols as int, rows as int, cell_aspect_ratio, spacing_ratio)
                    ==> e.kind == LayoutErrorKind::OutOfRange && some_cell_unfit(
                    frame,
                    cols as int,
                    rows as int,
                    cell_aspect_ratio,
                    spacing_ratio,
                )
            },
        },
{
    if !frame.is_in_range() {
        return Err(LayoutError::error(LayoutErrorKind::OutOfRange, "frame outside the coordinate range"));
    }
    if cols == 0 || rows == 0 || cell_aspect_ratio.num == 0 || cell_aspect_ratio.den == 0
        || spacing_ratio.den == 0 {
        return Err(LayoutError::error(LayoutErrorKind::DegenerateGrid, "grid needs cells and non-zero ratios"));
    }
    let ghost a = cell_aspect_ratio;
    let ghost s = spacing_ratio;
    let c = cols as i128;
    let rw = rows as i128;
    let an = cell_aspect_ratio.num as i128;
    let ad = cell_aspect_ratio.den as i128;
    let sn = spacing_ratio.num as i128;
    let sd = spacing_ratio.den as i128;
    let fw = frame.width as i128;
    let fh = frame.height as i128;
    proof {
        assert(0 <= c * sd <= 0x1_0000_0000 && 0 <= (c - 1) * sn <= 0x1_0000_0000
            && 0 < rw * an <= 0x1_0000_0000 && 0 < c * ad <= 0x1_0000_0000
            && 0 <= rw * an * sd <= 0x1_0000_0000_0000 && 0 <= (rw - 1) * sn * ad <= 0x1_0000_0000_0000
            && 0 <= c * ad * sd <= 0x1_0000_0000_0000 && 0 <= (c - 1) * sn * ad <= 0x1_0000_0000_0000
            && 0 < ad * sd <= 0x1_0000_0000 && 0 < an * sd <= 0x1_0000_0000
            && 0 <= rw * sd <= 0x1_0000_0000 && 0 <= (rw - 1) * sn <= 0x1_0000_0000) by (nonlinear_arith)
            requires
                1 <= c <= 0xffff,
                1 <= rw <= 0xffff,
                1 <= an <= 0xffff,
                1 <= ad <= 0xffff,
                0 <= sn <= 0xffff,
                1 <= sd <= 0xffff,
        ;
    }
    let (wn, wd, hn, hd) = if an >= ad {
        (c * sd + (c - 1) * sn, sd, rw * an * sd + (rw - 1) * sn * ad, ad * sd)
    } else {
        (c * ad * sd + (c - 1) * sn * ad, an * sd, rw * sd + (rw - 1) * sn, sd)
    };
    assert((wn as int, wd as int, hn as int, hd as int) == min_size(cols as int, rows as int, a, s));
    proof {
        assert(0 <= fh * hd <= 0x100_0000_0000_0000_0000 && 0 <= hn * wd <= 0x2_0000_0000_0000_0000_0000)
            by (nonlinear_arith)
            requires
                0 <= fh <= MAX_COORD,
                0 <= hn <= 0x2_0000_0000_0000,
                0 < wd <= 0x1_0000_0000,
                0 < hd <= 0x1_0000_0000,
        ;
        assert(0 <= fh * hd * wn <= 0x400_0000_0000_0000_0000_0000_0000_0000 && 0 <= hn * wd * fw
            <= 0x400_0000_0000_0000_0000_0000_0000_0000) by (nonlinear_arith)
            requires
                0 <= fw <= MAX_COORD,
                0 <= wn <= 0x2_0000_0000_0000,
                0 <= fh * hd <= 0x100_0000_0000_0000_0000,
                0 <= hn * wd <= 0x2_0000_0000_0000_0000_0000,
        ;
    }
    let fit_width = fh * hd * wn > hn * wd * fw;
    let (len, count) = if fit_width { (fw, c) } else { (fh, rw) };
    proof {
        assert(0 <= sn * len <= 0x1_0000 * MAX_COORD && 0 < (count + 1) * sd <= 0x1_0000_0000)
            by (nonlinear_arith)
            requires
                0 <= sn <= 0xffff,
                0 <= len <= MAX_COORD,
                1 <= count <= 0xffff,
                1 <= sd <= 0xffff,
        ;
    }
    let sp = (sn * len + (count + 1) * sd + sd - 1) / sd;
    let gap = (sp + count) / (count + 1);
    let mn = len - sp;
    proof {
        assert(0 <= sp <= 0x200_0000_0000_0000) by (nonlinear_arith)
            requires
                sp == (sn * len + (count + 1) * sd + sd - 1) / (sd as int),
                1 <= sd,
                0 <= sn * len + (count + 1) * sd + sd - 1 <= 0x200_0000_0000_0000,
        ;
        assert(0 <= gap <= 0x400_0000_0000_0000) by (nonlinear_arith)
            requires
                gap == (sp + count) / (count + 1) as int,
                0 <= sp <= 0x200_0000_0000_0000,
                1 <= count <= 0xffff,
        ;
        assert(-0x400_0000_0000_0000_0000 <= mn * an <= 0x400_0000_0000_0000_0000
            && -0x400_0000_0000_0000_0000 <= mn * ad <= 0x400_0000_0000_0000_0000) by (nonlinear_arith)
            requires
                -0x200_0000_0000_0000 <= mn <= 0x200_0000_0000_0000,
                1 <= an <= 0xffff,
                1 <= ad <= 0xffff,
        ;
    }
    let (on, od) = if fit_width { (mn * an, c * ad) } else { (mn * ad, rw * an) };
    assert(cols * rows <= 0xffff * 0xffff) by (nonlinear_arith)
        requires
            cols <= 0xffff,
            rows <= 0xffff,
    ;
    let n = cols as u32 * rows as u32;
    let mut cells: Vec<Rect> = Vec::new();
    let mut k: u32 = 0;
    while k < n
        invariant
            0 <= k <= n,
            n == cols * rows,
            frame.in_range(),
            grid_valid(cols as int, rows as int, a, s),
            a == cell_aspect_ratio,
            s == spacing_ratio,
            c == cols,
            rw == rows,
            fw == frame.width,
            fh == frame.height,
            an == a.num,
            ad == a.den,
            fit_width == fits_width(frame, cols as int, rows as int, a, s),
            len == (if fit_width { frame.width as int } else { frame.height as int }),
            count == (if fit_width { cols as int } else { rows as int }),
            sp == spacing_pixels(len as int, count as int, s),
            gap == gap_of(sp as int, count as int),
            mn == len - sp,
            on == (if fit_width { mn * an } else { mn * ad }),
            od == (if fit_width { c * ad } else { rw * an }),
            0 <= gap <= 0x400_0000_0000_0000,
            -0x200_0000_0000_0000 <= mn <= 0x200_0000_0000_0000,
            -0x400_0000_0000_0000_0000 <= on <= 0x400_0000_0000_0000_0000,
            0 < od <= 0x1_0000_0000,
            cells.len() == k,
            forall|j: int|
                0 <= j < k ==> {
                    &&& rect_is(
                        #[trigger] cells[j],
                        cell_values(frame, cols as int, rows as int, a, s, j / (cols as int), j % (cols as int)),
                    )
                },
        decreases n - k,
    {
        let y = k / cols as u32;
        let x = k % cols as u32;
        proof {
            lemma_fundamental_div_mod(k as int, cols as int);
            assert(y < rows) by (nonlinear_arith)
                requires
                    k == cols * y + x,
                    0 <= x,
                    k < cols * rows,
                    0 < cols,
            ;
        }
        let (vx, vy, vw, vh) = if fit_width {
            (
                along_exec(frame.x as i128, x as i128, mn, c, gap),
                centered_exec(frame.y as i128, fh, rw, y as i128, on, od, gap),
                floor_div(mn, c),
                floor_div(on, od),
            )
        } else {
            (
                centered_exec(frame.x as i128, fw, c, x as i128, on, od, gap),
                along_exec(frame.y as i128, y as i128, mn, rw, gap),
                floor_div(on, od),
                floor_div(mn, rw),
            )
        };
        let ghost vals = cell_values(frame, cols as int, rows as int, a, s, y as int, x as int);
        assert((vx as int, vy as int, vw as int, vh as int) == vals);
        if vx < i64::MIN as i128 || vx > i64::MAX as i128 || vy < i64::MIN as i128 || vy
            > i64::MAX as i128 || vw < i64::MIN as i128 || vw > i64::MAX as i128 || vh < i64::MIN as i128
            || vh > i64::MAX as i128 {
            assert(!values_fit(cell_values(frame, cols as int, rows as int, a, s, k as int / (cols as int), k as int % (cols as int))));
            return Err(LayoutError::error(LayoutErrorKind::OutOfRange, "grid cells do not fit in coordinates"));
        }
        cells.push(Rect { x: vx as i64, y: vy as i64, width: vw as i64, height: vh as i64 });
        k = k + 1;
    }
    Ok(cells)
}

} // verus!
