//! Choosing how many identical finished items fit on one sheet, and in which
//! orientation. The physical sizes are measured elsewhere; this module works
//! on how many whole items fit across and down the sheet.
use vstd::prelude::*;
use vstd::string::StringExecFns;

verus! {

/// The most copies that may be placed on one sheet.
pub open spec fn max_copies() -> u32 {
    1000
}

/// A grid of copies on one sheet: `cols` across, `rows` down, `copies` in all,
/// each turned a quarter clockwise when `item_rotated` holds.
#[derive(Clone, Copy, Debug, PartialEq, Eq, Structural)]
pub struct Arrangement {
    pub cols: u32,
    pub rows: u32,
    pub copies: u32,
    pub item_rotated: bool,
}

/// How many whole items fit across (`cols`) and down (`rows`) the sheet in one
/// orientation: the floor of the sheet size over the item size, saturated to
/// `u64::MAX`.
#[derive(Clone, Copy, Debug, PartialEq, Eq, Structural)]
pub struct Fits {
    pub cols: u64,
    pub rows: u64,
}

/// The error when more items fit along one side than a `u32` can count.
pub open spec fn too_many_text() -> Seq<char> {
    "Too many copies fit on one paper sheet"@
}

/// The error when the copy limit is exceeded.
pub open spec fn copy_limit_text() -> Seq<char> {
    "At most 1000 copies can be placed on one paper sheet"@
}

/// The error when the item fits in neither orientation.
pub open spec fn no_fit_text() -> Seq<char> {
    "Item does not fit on paper in either orientation"@
}

/// The count of whole items along one side, refused when it exceeds `u32`.
pub open spec fn fit_count_spec(whole: u64) -> Result<u32, Seq<char>> {
    if whole > u32::MAX {
        Err(too_many_text())
    } else {
        Ok(whole as u32)
    }
}

/// The arrangement in one orientation: none when no item fits, refused when
/// the counts are too large or the copies exceed the limit.
pub open spec fn candidate_spec(fits: Fits, item_rotated: bool) -> Result<
    Option<Arrangement>,
    Seq<char>,
> {
    match fit_count_spec(fits.cols) {
        Err(e) => Err(e),
        Ok(cols) => match fit_count_spec(fits.rows) {
            Err(e) => Err(e),
            Ok(rows) => if cols == 0 || rows == 0 {
                Ok(None)
            } else if cols * rows > u32::MAX {
                Err(too_many_text())
            } else if cols * rows > max_copies() {
                Err(copy_limit_text())
            } else {
                Ok(
                    Some(
                        Arrangement {
                            cols,
                            rows,
                            copies: (cols * rows) as u32,
                            item_rotated,
                        },
                    ),
                )
            },
        },
    }
}

/// The arrangement chosen from the item as it is (`unrotated`) and turned a
/// quarter clockwise (`rotated`): the one with more copies, the unturned one on
/// a tie, and an error when neither fits.
pub open spec fn arrangement_spec(unrotated: Fits, rotated: Fits) -> Result<
    Arrangement,
    Seq<char>,
> {
    match candidate_spec(unrotated, false) {
        Err(e) => Err(e),
        Ok(u) => match candidate_spec(rotated, true) {
            Err(e) => Err(e),
            Ok(r) => match (u, r) {
                (None, None) => Err(no_fit_text()),
                (Some(a), None) => Ok(a),
                (None, Some(b)) => Ok(b),
                (Some(a), Some(b)) => if b.copies > a.copies {
                    Ok(b)
                } else {
                    Ok(a)
                },
            },
        },
    }
}

/// A result whose error is a `String` carries the outcome `s`.
pub open spec fn same_result<T>(r: Result<T, String>, s: Result<T, Seq<char>>) -> bool {
    match r {
        Ok(v) => s == Ok::<T, Seq<char>>(v),
        Err(e) => s == Err::<T, Seq<char>>(e@),
    }
}

/// The number of whole items along one side, from the floor of the sheet size
/// over the item size.
pub fn fit_count(whole: u64) -> (r: Result<u32, String>)
    ensures
        same_result(r, fit_count_spec(whole)),
{
    if whole > 0xffff_ffff {
        return Err(String::from_str("Too many copies fit on one paper sheet"));
    }
    Ok(whole as u32)
}

/// The arrangement of items in one orientation.
pub fn arrangement_candidate(fits: Fits, item_rotated: bool) -> (r: Result<
    Option<Arrangement>,
    String,
>)
    ensures
        same_result(r, candidate_spec(fits, item_rotated)),
{
    let cols = match fit_count(fits.cols) {
        Err(e) => return Err(e),
        Ok(c) => c,
    };
    let rows = match fit_count(fits.rows) {
        Err(e) => return Err(e),
        Ok(r) => r,
    };
    if cols == 0 || rows == 0 {
        return Ok(None);
    }
    let copies = match cols.checked_mul(rows) {
        None => return Err(String::from_str("Too many copies fit on one paper sheet")),
        Some(c) => c,
    };
    if copies > 1000 {
        return Err(String::from_str("At most 1000 copies can be placed on one paper sheet"));
    }
    Ok(Some(Arrangement { cols, rows, copies, item_rotated }))
}

/// The arrangement with the most copies on the sheet; on a tie the item is
/// not turned.
pub fn resolve_arrangement(unrotated: Fits, rotated: Fits) -> (r: Result<Arrangement, String>)
    ensures
        same_result(r, arrangement_spec(unrotated, rotated)),
{
    let u = match arrangement_candidate(unrotated, false) {
        Err(e) => return Err(e),
        Ok(a) => a,
    };
    let t = match arrangement_candidate(rotated, true) {
        Err(e) => return Err(e),
        Ok(a) => a,
    };
    match (u, t) {
        (None, None) => Err(String::from_str("Item does not fit on paper in either orientation")),
        (Some(a), None) => Ok(a),
        (None, Some(b)) => Ok(b),
        (Some(a), Some(b)) => {
            if b.copies > a.copies {
                Ok(b)
            } else {
                Ok(a)
            }
        },
    }
}

/// The columns, rows and rotation of the arrangement with the most copies.
pub fn best_arrangement(unrotated: Fits, rotated: Fits) -> (r: Result<(u32, u32, bool), String>)
    ensures
        same_result(
            r,
            match arrangement_spec(unrotated, rotated) {
                Ok(a) => Ok((a.cols, a.rows, a.item_rotated)),
                Err(e) => Err(e),
            },
        ),
{
    match resolve_arrangement(unrotated, rotated) {
        Ok(a) => Ok((a.cols, a.rows, a.item_rotated)),
        Err(e) => Err(e),
    }
}

/// The safety margins of an item: top, right, bottom, left.
#[derive(Clone, Copy, Debug, PartialEq)]
pub struct Margins<T> {
    pub top: T,
    pub right: T,
    pub bottom: T,
    pub left: T,
}

/// The margins as they lie on the sheet: unchanged, or, for an item turned a
/// quarter clockwise, the original left on top, top on the right, right at the
/// bottom and bottom on the left.
pub open spec fn physical_margins_spec<T>(m: Margins<T>, item_rotated: bool) -> Margins<T> {
    if item_rotated {
        Margins { top: m.left, right: m.top, bottom: m.right, left: m.bottom }
    } else {
        m
    }
}

/// The margins as they lie on the sheet for an item placed as `item_rotated`
/// says.
pub fn physical_margins<T: Copy>(m: Margins<T>, item_rotated: bool) -> (r: Margins<T>)
    ensures
        r == physical_margins_spec(m, item_rotated),
{
    if item_rotated {
        Margins { top: m.left, right: m.top, bottom: m.right, left: m.bottom }
    } else {
        m
    }
}

/// Four quarter turns bring every margin back to its own side.
pub proof fn law_four_quarter_turns_restore_margins<T>(m: Margins<T>)
    ensures
        physical_margins_spec(
            physical_margins_spec(
                physical_margins_spec(physical_margins_spec(m, true), true),
                true,
            ),
            true,
        ) == m,
{
}

/// Turning an item a quarter clockwise carries each of its margins one side
/// on, clockwise: its left margin lies on top, its top margin on the right, its
/// right margin at the bottom and its bottom margin on the left; an item that
/// is not turned keeps its margins where they are.
pub proof fn law_quarter_turn_moves_margins_clockwise<T>(m: Margins<T>)
    ensures
        physical_margins_spec(m, false) == m,
        physical_margins_spec(m, true).top == m.left,
        physical_margins_spec(m, true).right == m.top,
        physical_margins_spec(m, true).bottom == m.right,
        physical_margins_spec(m, true).left == m.bottom,
{
}

/// In one orientation where `cols` by `rows` items fit (both at least one), the
/// arrangement is taken, with `cols * rows` copies, exactly when that is at most
/// 1000 copies; past 1000 it is refused with the copy-limit error. Where no item
/// fits along a side, the orientation offers nothing.
pub proof fn law_copy_limit_is_one_thousand(fits: Fits, item_rotated: bool)
    requires
        fits.cols <= u32::MAX,
        fits.rows <= u32::MAX,
    ensures
        fits.cols == 0 || fits.rows == 0 ==> candidate_spec(fits, item_rotated) == Ok::<
            Option<Arrangement>,
            Seq<char>,
        >(None),
        fits.cols >= 1 && fits.rows >= 1 && fits.cols * fits.rows <= 1000 ==> candidate_spec(
            fits,
            item_rotated,
        ) == Ok::<Option<Arrangement>, Seq<char>>(
            Some(
                Arrangement {
                    cols: fits.cols as u32,
                    rows: fits.rows as u32,
                    copies: (fits.cols * fits.rows) as u32,
                    item_rotated,
                },
            ),
        ),
        fits.cols * fits.rows > 1000 ==> candidate_spec(fits, item_rotated) is Err,
        fits.cols * fits.rows > 1000 && fits.cols * fits.rows <= u32::MAX ==> candidate_spec(
            fits,
            item_rotated,
        ) == Err::<Option<Arrangement>, Seq<char>>(copy_limit_text()),
{
}

/// The chosen arrangement is the best one there is: it holds `cols * rows`
/// copies, at least one and at most 1000; it has at least as many copies as
/// the arrangement in the other orientation whenever that one exists; and the
/// item is turned only when turning it places strictly more copies.
pub proof fn law_best_arrangement_is_maximal(unrotated: Fits, rotated: Fits)
    requires
        arrangement_spec(unrotated, rotated) is Ok,
    ensures
        ({
            let a = arrangement_spec(unrotated, rotated)->Ok_0;
            &&& a.copies == a.cols * a.rows
            &&& 1 <= a.copies <= 1000
            &&& (candidate_spec(unrotated, false) matches Ok(Some(u)) ==> u.copies <= a.copies)
            &&& (candidate_spec(rotated, true) matches Ok(Some(t)) ==> t.copies <= a.copies)
            &&& (a.item_rotated ==> (candidate_spec(unrotated, false) matches Ok(Some(u))
                ==> u.copies < a.copies))
            &&& a.cols as u64 == (if a.item_rotated { rotated.cols } else { unrotated.cols })
            &&& a.rows as u64 == (if a.item_rotated { rotated.rows } else { unrotated.rows })
        }),
{
    let u = candidate_spec(unrotated, false);
    let t = candidate_spec(rotated, true);
    if let Ok(Some(x)) = u {
        assert(1 <= x.cols * x.rows) by (nonlinear_arith)
            requires
                x.cols >= 1,
                x.rows >= 1,
        ;
    }
    if let Ok(Some(x)) = t {
        assert(1 <= x.cols * x.rows) by (nonlinear_arith)
            requires
                x.cols >= 1,
                x.rows >= 1,
        ;
    }
}

} // verus!
