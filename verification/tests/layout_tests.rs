use poster_maker::imposition::{
    arrangement_candidate, best_arrangement, fit_count, physical_margins, resolve_arrangement,
    Arrangement, Fits, Margins,
};
use poster_maker::tiling::{
    layout_grids, overlap_after, overlap_before, overlap_strips, sheet_marks, sheet_order,
    SheetMarks,
};

fn fits(cols: u64, rows: u64) -> Fits {
    Fits { cols, rows }
}

#[test]
fn a6_on_a4_stays_upright() {
    // 105 x 148 mm on 210 x 297 mm: 2 x 2 upright, 1 x 2 turned.
    let a = resolve_arrangement(fits(2, 2), fits(1, 2)).unwrap();
    assert_eq!(
        a,
        Arrangement { cols: 2, rows: 2, copies: 4, item_rotated: false }
    );
    assert_eq!(best_arrangement(fits(2, 2), fits(1, 2)), Ok((2, 2, false)));
}

#[test]
fn a7_on_a4_turns_for_eight_copies() {
    // 74 x 105 mm on 210 x 297 mm: 2 x 2 upright, 2 x 4 turned.
    assert_eq!(best_arrangement(fits(2, 2), fits(2, 4)), Ok((2, 4, true)));
    let a = resolve_arrangement(fits(2, 2), fits(2, 4)).unwrap();
    assert_eq!(a.copies, 8);
}

#[test]
fn ties_keep_the_item_upright() {
    assert_eq!(best_arrangement(fits(2, 3), fits(3, 2)), Ok((2, 3, false)));
}

#[test]
fn only_one_orientation_fits() {
    assert_eq!(best_arrangement(fits(0, 3), fits(1, 1)), Ok((1, 1, true)));
    assert_eq!(best_arrangement(fits(2, 1), fits(5, 0)), Ok((2, 1, false)));
}

#[test]
fn arrangement_errors() {
    assert_eq!(
        resolve_arrangement(fits(0, 0), fits(0, 9)),
        Err("Item does not fit on paper in either orientation".to_string())
    );
    // 0.1 mm items on A4: 2100 x 2970 copies.
    let e = resolve_arrangement(fits(2100, 2970), fits(2970, 2100)).unwrap_err();
    assert!(e.contains("At most"), "{e}");
    assert_eq!(e, "At most 1000 copies can be placed on one paper sheet");
    assert_eq!(
        resolve_arrangement(fits(u64::MAX, 1), fits(1, 1)),
        Err("Too many copies fit on one paper sheet".to_string())
    );
    assert_eq!(
        resolve_arrangement(fits(70000, 70000), fits(1, 1)),
        Err("Too many copies fit on one paper sheet".to_string())
    );
    assert_eq!(
        resolve_arrangement(fits(1, 1), fits(0, 4294967296)),
        Err("Too many copies fit on one paper sheet".to_string())
    );
}

#[test]
fn candidates_and_counts() {
    assert_eq!(fit_count(4294967295), Ok(u32::MAX));
    assert!(fit_count(4294967296).is_err());
    assert_eq!(arrangement_candidate(fits(0, 5), false), Ok(None));
    assert_eq!(
        arrangement_candidate(fits(10, 100), true),
        Ok(Some(Arrangement { cols: 10, rows: 100, copies: 1000, item_rotated: true }))
    );
    assert!(arrangement_candidate(fits(10, 101), true).is_err());
}

#[test]
fn margins_follow_a_quarter_turn() {
    let m = Margins { top: 1.0, right: 2.0, bottom: 3.0, left: 4.0 };
    let p = physical_margins(m, true);
    assert_eq!(p, Margins { top: 4.0, right: 1.0, bottom: 2.0, left: 3.0 });
    assert_eq!(physical_margins(m, false), m);
    let back = physical_margins(physical_margins(physical_margins(p, true), true), true);
    assert_eq!(back, m);
}

#[test]
fn overlap_strips_per_side() {
    assert_eq!(overlap_strips(0), 0);
    assert_eq!(overlap_strips(1), 0);
    assert_eq!(overlap_strips(2), 1);
    assert_eq!(overlap_strips(3), 2);
    assert_eq!(overlap_strips(12), 2);
    assert_eq!((overlap_before(0, 1), overlap_after(0, 1)), (false, false));
    assert_eq!((overlap_before(0, 2), overlap_after(0, 2)), (false, true));
    assert_eq!((overlap_before(1, 2), overlap_after(1, 2)), (true, false));
    for i in 0..3 {
        assert_eq!((overlap_before(i, 3), overlap_after(i, 3)), (true, true));
    }
}

#[test]
fn base_tile_leaves_room_for_every_sheet() {
    for count in 1..=12u32 {
        let room = overlap_strips(count);
        let mut max_used = 0;
        for i in 0..count {
            let used = overlap_before(i, count) as u32 + overlap_after(i, count) as u32;
            assert!(used <= room);
            max_used = max_used.max(used);
        }
        assert_eq!(max_used, room);
    }
}

#[test]
fn sheet_marks_on_a_four_by_three_poster() {
    let corner = sheet_marks(0, 0, 3, 4, true, true);
    assert_eq!(
        corner,
        SheetMarks { outer_lines: true, left_cut: false, top_cut: false, right_frames: true, bottom_frames: true }
    );
    let middle = sheet_marks(1, 2, 3, 4, false, true);
    assert_eq!(
        middle,
        SheetMarks { outer_lines: false, left_cut: true, top_cut: true, right_frames: true, bottom_frames: true }
    );
    let last = sheet_marks(2, 3, 3, 4, true, true);
    assert_eq!(
        last,
        SheetMarks { outer_lines: true, left_cut: true, top_cut: true, right_frames: false, bottom_frames: false }
    );
    let none = sheet_marks(1, 1, 3, 4, false, false);
    assert_eq!(
        none,
        SheetMarks { outer_lines: false, left_cut: false, top_cut: false, right_frames: false, bottom_frames: false }
    );
    let mut cut_lines = 0;
    let mut frames = 0;
    for (r, c) in sheet_order(3, 4) {
        let m = sheet_marks(r, c, 3, 4, true, true);
        cut_lines += m.left_cut as u32 + m.top_cut as u32;
        frames += 2 * (m.left_cut as u32 + m.top_cut as u32 + m.right_frames as u32 + m.bottom_frames as u32);
    }
    assert_eq!(cut_lines, 3 * 3 + 4 * 2);
    assert_eq!(frames, 4 * (3 * 3 + 4 * 2));
}

#[test]
fn transposed_grids_are_both_tried() {
    assert_eq!(layout_grids(3, 2).unwrap(), vec![(3, 2), (2, 3)]);
    assert_eq!(layout_grids(2, 3).unwrap(), vec![(2, 3), (3, 2)]);
    assert_eq!(layout_grids(3, 3).unwrap(), vec![(3, 3)]);
    assert_eq!(layout_grids(0, 3), Err("Rows/cols must be >= 1".to_string()));
    assert_eq!(layout_grids(3, 0), Err("Rows/cols must be >= 1".to_string()));
}

#[test]
fn sheets_are_printed_row_by_row() {
    assert_eq!(
        sheet_order(2, 3),
        vec![(0, 0), (0, 1), (0, 2), (1, 0), (1, 1), (1, 2)]
    );
    assert_eq!(sheet_order(0, 3), Vec::<(u32, u32)>::new());
    assert_eq!(sheet_order(1, 1), vec![(0, 0)]);
}
