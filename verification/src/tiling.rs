//! How a poster is cut into a grid of sheets: which sheet edges carry an
//! overlap strip, which guides and alignment frames each sheet gets, which
//! grids are tried, and the order in which sheets are printed.
use vstd::prelude::*;
use vstd::string::StringExecFns;

verus! {

/// How many overlap strips the widest sheet in a row (or column) of `count`
/// sheets needs: none for a single sheet, one for two sheets, two (one each
/// side) for three or more.
pub open spec fn overlap_strips_spec(count: u32) -> u32 {
    if count <= 1 {
        0
    } else if count == 2 {
        1
    } else {
        2
    }
}

/// How many overlap strips the base tile leaves room for along a side of
/// `count` sheets.
pub fn overlap_strips(count: u32) -> (r: u32)
    ensures
        r == overlap_strips_spec(count),
{
    match count {
        0 | 1 => 0,
        2 => 1,
        _ => 2,
    }
}

/// Whether sheet `index` of `count` extends an overlap strip before its base
/// tile (to the left or above).
pub open spec fn overlap_before_spec(index: u32, count: u32) -> bool {
    if count <= 1 {
        false
    } else if count == 2 {
        index > 0
    } else {
        true
    }
}

/// Whether sheet `index` of `count` extends an overlap strip after its base
/// tile (to the right or below).
pub open spec fn overlap_after_spec(index: u32, count: u32) -> bool {
    if count <= 1 {
        false
    } else if count == 2 {
        index + 1 < count
    } else {
        true
    }
}

/// Whether sheet `index` of `count` extends an overlap strip before its base tile.
pub fn overlap_before(index: u32, count: u32) -> (r: bool)
    ensures
        r == overlap_before_spec(index, count),
{
    match count {
        0 | 1 => false,
        2 => index > 0,
        _ => true,
    }
}

/// Whether sheet `index` of `count` extends an overlap strip after its base tile.
pub fn overlap_after(index: u32, count: u32) -> (r: bool)
    ensures
        r == overlap_after_spec(index, count),
{
    match count {
        0 | 1 => false,
        2 => (index as u64) + 1 < (count as u64),
        _ => true,
    }
}

/// The number of strips sheet `index` of `count` extends.
pub open spec fn strips_used(index: u32, count: u32) -> int {
    (if overlap_before_spec(index, count) { 1int } else { 0int }) + (if overlap_after_spec(
        index,
        count,
    ) { 1int } else { 0int })
}

/// The room that the base tile leaves for overlap strips is exactly what the
/// sheets use: no sheet of the row extends more strips than were reserved, and
/// some sheet extends exactly that many.
pub proof fn law_overlap_room_is_exact(count: u32)
    requires
        count >= 1,
    ensures
        forall|i: u32| i < count ==> strips_used(i, count) <= overlap_strips_spec(count),
        exists|i: u32| i < count && strips_used(i, count) == overlap_strips_spec(count),
{
    assert(strips_used(0, count) == overlap_strips_spec(count));
}

/// Which sheets extend overlap strips, along a side of `count` sheets: with three
/// or more, every sheet extends one on both sides and so uses both strips that
/// the base tile leaves room for, which puts every sheet at the same place on
/// its page; with two, the first sheet extends one after its base tile and the
/// second one before; a single sheet extends none. Wherever two sheets meet,
/// the first extends a strip after its tile exactly when the second extends one
/// before its own.
pub proof fn law_overlap_on_every_sheet(index: u32, count: u32)
    requires
        index < count,
    ensures
        count >= 3 ==> overlap_before_spec(index, count) && overlap_after_spec(index, count)
            && overlap_strips_spec(count) == 2 && strips_used(index, count) == 2,
        count == 2 ==> (overlap_before_spec(index, count) <==> index == 1) && (overlap_after_spec(
            index,
            count,
        ) <==> index == 0) && overlap_strips_spec(count) == 1,
        count == 1 ==> !overlap_before_spec(index, count) && !overlap_after_spec(index, count)
            && overlap_strips_spec(count) == 0,
        index + 1 < count ==> (overlap_after_spec(index, count) <==> overlap_before_spec(
            (index + 1) as u32,
            count,
        )),
{
}

/// What a sheet of the poster carries besides its part of the image.
#[derive(Clone, Copy, Debug, PartialEq, Eq, Structural)]
pub struct SheetMarks {
    /// The four dashed lines through the edges of the printed image.
    pub outer_lines: bool,
    /// A cut line along the left overlap, with alignment frames beside it.
    pub left_cut: bool,
    /// A cut line along the top overlap, with alignment frames beside it.
    pub top_cut: bool,
    /// Alignment frames beside the right overlap.
    pub right_frames: bool,
    /// Alignment frames beside the bottom overlap.
    pub bottom_frames: bool,
}

/// The marks of the sheet at `row`, `col` of a `rows` by `cols` poster: outer
/// lines when they are asked for; when cut guides are asked for, a cut line and
/// frames on every edge that meets a sheet to the left or above, and frames on
/// every edge that meets a sheet to the right or below.
pub open spec fn sheet_marks_spec(
    row: u32,
    col: u32,
    rows: u32,
    cols: u32,
    draw_outer_marks: bool,
    draw_cut_guides: bool,
) -> SheetMarks {
    SheetMarks {
        outer_lines: draw_outer_marks,
        left_cut: draw_cut_guides && col > 0,
        top_cut: draw_cut_guides && row > 0,
        right_frames: draw_cut_guides && col + 1 < cols,
        bottom_frames: draw_cut_guides && row + 1 < rows,
    }
}

/// The marks of the sheet at `row`, `col` of a `rows` by `cols` poster.
pub fn sheet_marks(
    row: u32,
    col: u32,
    rows: u32,
    cols: u32,
    draw_outer_marks: bool,
    draw_cut_guides: bool,
) -> (r: SheetMarks)
    requires
        draw_cut_guides ==> rows >= 1 && cols >= 1,
    ensures
        r == sheet_marks_spec(row, col, rows, cols, draw_outer_marks, draw_cut_guides),
{
    let mut marks = SheetMarks {
        outer_lines: draw_outer_marks,
        left_cut: false,
        top_cut: false,
        right_frames: false,
        bottom_frames: false,
    };
    if draw_cut_guides {
        if col > 0 {
            marks.left_cut = true;
        }
        if row > 0 {
            marks.top_cut = true;
        }
        if col < cols - 1 {
            marks.right_frames = true;
        }
        if row < rows - 1 {
            marks.bottom_frames = true;
        }
    }
    marks
}

/// Every seam between two neighbouring sheets is marked on both of them: the
/// sheet on the left (or above) carries frames along its right (or bottom)
/// overlap exactly when the sheet on the right (or below) carries the cut line
/// and frames along its left (or top) overlap; and the outer edges of the
/// poster carry neither.
pub proof fn law_seams_marked_on_both_sheets(
    row: u32,
    col: u32,
    rows: u32,
    cols: u32,
    draw_outer_marks: bool,
    draw_cut_guides: bool,
)
    requires
        row < rows,
        col < cols,
    ensures
        col + 1 < cols ==> sheet_marks_spec(
            row,
            col,
            rows,
            cols,
            draw_outer_marks,
            draw_cut_guides,
        ).right_frames == sheet_marks_spec(
            row,
            (col + 1) as u32,
            rows,
            cols,
            draw_outer_marks,
            draw_cut_guides,
        ).left_cut,
        row + 1 < rows ==> sheet_marks_spec(
            row,
            col,
            rows,
            cols,
            draw_outer_marks,
            draw_cut_guides,
        ).bottom_frames == sheet_marks_spec(
            (row + 1) as u32,
            col,
            rows,
            cols,
            draw_outer_marks,
            draw_cut_guides,
        ).top_cut,
        !sheet_marks_spec(row, 0, rows, cols, draw_outer_marks, draw_cut_guides).left_cut,
        !sheet_marks_spec(0, col, rows, cols, draw_outer_marks, draw_cut_guides).top_cut,
        !sheet_marks_spec(
            row,
            (cols - 1) as u32,
            rows,
            cols,
            draw_outer_marks,
            draw_cut_guides,
        ).right_frames,
        !sheet_marks_spec(
            (rows - 1) as u32,
            col,
            rows,
            cols,
            draw_outer_marks,
            draw_cut_guides,
        ).bottom_frames,
{
}

/// The marks of a sheet follow the options and the sheet's place alone: the
/// outer lines are drawn exactly when they are asked for, whether cut guides
/// are drawn or not; without cut guides no sheet carries a cut line or frames;
/// with them, a sheet carries a cut line on its left (top) edge exactly when it
/// is not in the first column (row), and frames on its right (bottom) edge
/// exactly when it is not in the last column (row).
pub proof fn law_marks_follow_the_options(
    row: u32,
    col: u32,
    rows: u32,
    cols: u32,
    draw_outer_marks: bool,
    draw_cut_guides: bool,
)
    requires
        row < rows,
        col < cols,
    ensures
        ({
            let m = sheet_marks_spec(row, col, rows, cols, draw_outer_marks, draw_cut_guides);
            &&& m.outer_lines == draw_outer_marks
            &&& !draw_cut_guides ==> !m.left_cut && !m.top_cut && !m.right_frames
                && !m.bottom_frames
            &&& draw_cut_guides ==> (m.left_cut <==> col != 0) && (m.top_cut <==> row != 0) && (
            m.right_frames <==> col != cols - 1) && (m.bottom_frames <==> row != rows - 1)
        }),
{
}

/// The grids tried for a poster of `cols` by `rows` sheets: that grid, and
/// its transpose when it differs; refused when either count is zero.
pub open spec fn layout_grids_spec(cols: u32, rows: u32) -> Result<Seq<(u32, u32)>, Seq<char>> {
    if cols == 0 || rows == 0 {
        Err("Rows/cols must be >= 1"@)
    } else if cols != rows {
        Ok(seq![(cols, rows), (rows, cols)])
    } else {
        Ok(seq![(cols, rows)])
    }
}

/// The grids tried for a poster of `cols` by `rows` sheets.
pub fn layout_grids(cols: u32, rows: u32) -> (r: Result<Vec<(u32, u32)>, String>)
    ensures
        match r {
            Ok(v) => layout_grids_spec(cols, rows) == Ok::<Seq<(u32, u32)>, Seq<char>>(v@),
            Err(e) => layout_grids_spec(cols, rows) == Err::<Seq<(u32, u32)>, Seq<char>>(e@),
        },
{
    if cols == 0 || rows == 0 {
        return Err(String::from_str("Rows/cols must be >= 1"));
    }
    let mut grids: Vec<(u32, u32)> = Vec::new();
    grids.push((cols, rows));
    if cols != rows {
        grids.push((rows, cols));
    }
    assert(grids@ =~= layout_grids_spec(cols, rows)->Ok_0);
    Ok(grids)
}

/// Asking for a grid or for its transpose tries the same grids.
pub proof fn law_transposed_request_tries_same_grids(cols: u32, rows: u32)
    requires
        cols >= 1,
        rows >= 1,
    ensures
        layout_grids_spec(cols, rows)->Ok_0.to_set() == layout_grids_spec(rows, cols)->Ok_0.to_set(),
{
    let a = layout_grids_spec(cols, rows)->Ok_0;
    let b = layout_grids_spec(rows, cols)->Ok_0;
    assert(a.to_set() =~= b.to_set()) by {
        assert forall|g: (u32, u32)| a.to_set().contains(g) <==> b.to_set().contains(g) by {
            if a.contains(g) {
                let i = choose|i: int| 0 <= i < a.len() && a[i] == g;
                if cols != rows {
                    assert(b[1 - i] == g);
                } else {
                    assert(b[0] == g);
                }
            }
            if b.contains(g) {
                let i = choose|i: int| 0 <= i < b.len() && b[i] == g;
                if cols != rows {
                    assert(a[1 - i] == g);
                } else {
                    assert(a[0] == g);
                }
            }
        }
    }
}

/// A request is refused exactly when one of its counts is zero. Otherwise the
/// requested grid of `cols` by `rows` sheets is tried first; its transpose is
/// tried second exactly when it differs from it; and no other grid is tried.
pub proof fn law_requested_grid_tried_first(cols: u32, rows: u32)
    ensures
        layout_grids_spec(cols, rows) is Err <==> (cols == 0 || rows == 0),
        cols >= 1 && rows >= 1 ==> ({
            let g = layout_grids_spec(cols, rows)->Ok_0;
            &&& 1 <= g.len() <= 2
            &&& g[0] == (cols, rows)
            &&& g.len() == 2 <==> cols != rows
            &&& g.len() == 2 ==> g[1] == (rows, cols)
        }),
{
}

/// The sheets of a `rows` by `cols` poster in printing order: row by row, each
/// row from left to right, as (row, column).
pub open spec fn sheet_order_spec(rows: u32, cols: u32) -> Seq<(u32, u32)> {
    Seq::new((rows * cols) as nat, |k: int| ((k / cols as int) as u32, (k % cols as int) as u32))
}

/// The sheets of a `rows` by `cols` poster in printing order.
pub fn sheet_order(rows: u32, cols: u32) -> (r: Vec<(u32, u32)>)
    requires
        rows * cols <= usize::MAX,
    ensures
        r@ == sheet_order_spec(rows, cols),
{
    let mut v: Vec<(u32, u32)> = Vec::new();
    let mut row: u32 = 0;
    while row < rows
        invariant
            row <= rows,
            rows * cols <= usize::MAX,
            v@ == sheet_order_spec(row, cols),
        decreases rows - row,
    {
        let mut col: u32 = 0;
        while col < cols
            invariant
                row < rows,
                col <= cols,
                v@.len() == row * cols + col,
                forall|k: int|
                    0 <= k < v@.len() ==> v@[k] == ((k / cols as int) as u32, (k % cols as int) as u32),
            decreases cols - col,
        {
            proof {
                lemma_row_major_index(row as int, col as int, cols as int);
            }
            v.push((row, col));
            col = col + 1;
        }
        proof {
            assert((row + 1) * cols == row * cols + cols) by (nonlinear_arith);
        }
        row = row + 1;
        assert(v@ =~= sheet_order_spec(row, cols));
    }
    v
}

/// Position `row * cols + col` in row-major order is row `row`, column `col`.
proof fn lemma_row_major_index(row: int, col: int, cols: int)
    requires
        0 <= row,
        0 <= col < cols,
    ensures
        (row * cols + col) / cols == row,
        (row * cols + col) % cols == col,
{
    vstd::arithmetic::div_mod::lemma_fundamental_div_mod_converse(row * cols + col, cols, row, col);
}

/// Every sheet of the poster is printed exactly once: the sheet at row `r`,
/// column `c` is printed as page `r * cols + c`, and no other page shows it.
pub proof fn law_every_sheet_printed_once(rows: u32, cols: u32, r: u32, c: u32)
    requires
        r < rows,
        c < cols,
    ensures
        ({
            let order = sheet_order_spec(rows, cols);
            let k = r * cols + c;
            &&& 0 <= k < order.len()
            &&& order[k] == (r, c)
            &&& forall|j: int| 0 <= j < order.len() && order[j] == (r, c) ==> j == k
        }),
{
    let order = sheet_order_spec(rows, cols);
    let k = r * cols + c;
    lemma_row_major_index(r as int, c as int, cols as int);
    assert(k < rows * cols) by (nonlinear_arith)
        requires
            r < rows,
            c < cols,
            k == r * cols + c,
    ;
    assert forall|j: int| 0 <= j < order.len() && order[j] == (r, c) implies j == k by {
        let q = j / cols as int;
        let m = j % cols as int;
        vstd::arithmetic::div_mod::lemma_fundamental_div_mod(j, cols as int);
        assert(j == cols * q + m);
        assert(0 <= m < cols);
        assert(0 <= q < rows) by (nonlinear_arith)
            requires
                j == cols * q + m,
                0 <= m < cols,
                0 <= j < rows * cols,
        ;
        assert(order[j] == ((q as u32), (m as u32)));
        assert(q == r as int);
        assert(m == c as int);
        assert(j == r * cols + c) by (nonlinear_arith)
            requires
                j == cols * q + m,
                q == r,
                m == c,
        ;
    }
}

} // verus!
