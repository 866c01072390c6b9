use poster_maker::cli::{parse_cli_args, parse_grid, parse_normalized_grid, usage};

fn args(list: &[&str]) -> Vec<String> {
    list.iter().map(|s| s.to_string()).collect()
}

#[test]
fn grid_reads_columns_and_rows() {
    assert_eq!(parse_grid("3x2"), Ok((3, 2)));
    assert_eq!(parse_grid("12x1"), Ok((12, 1)));
}

#[test]
fn grid_accepts_times_sign_capital_x_and_blanks() {
    assert_eq!(parse_grid("4×3"), Ok((4, 3)));
    assert_eq!(parse_grid(" 4X3 "), Ok((4, 3)));
    assert_eq!(parse_grid("\t2x5\n"), Ok((2, 5)));
    assert_eq!(parse_grid("+2x+3"), Ok((2, 3)));
}

#[test]
fn grid_rejects_each_kind_of_bad_value() {
    assert_eq!(parse_grid("32"), Err("Grid must look like 3x2".to_string()));
    assert_eq!(parse_grid("ax2"), Err("Invalid grid columns".to_string()));
    assert_eq!(parse_grid("x2"), Err("Invalid grid columns".to_string()));
    assert_eq!(parse_grid("3x"), Err("Invalid grid rows".to_string()));
    assert_eq!(parse_grid("3x2x1"), Err("Invalid grid rows".to_string()));
    assert_eq!(parse_grid("-3x2"), Err("Invalid grid columns".to_string()));
    assert_eq!(parse_grid("0x2"), Err("Grid range must be 1..12".to_string()));
    assert_eq!(parse_grid("13x2"), Err("Grid range must be 1..12".to_string()));
    assert_eq!(parse_grid("3x13"), Err("Grid range must be 1..12".to_string()));
    assert_eq!(parse_grid("99999999999x2"), Err("Invalid grid columns".to_string()));
    assert_eq!(parse_grid("3x4294967296"), Err("Invalid grid rows".to_string()));
}

#[test]
fn normalized_grid_is_read_as_is() {
    assert_eq!(parse_normalized_grid("3x2"), Ok((3, 2)));
    assert_eq!(parse_normalized_grid("3X2"), Err("Grid must look like 3x2".to_string()));
    assert_eq!(parse_normalized_grid(" 3x2"), Err("Invalid grid columns".to_string()));
    assert_eq!(parse_normalized_grid("007x12"), Ok((7, 12)));
}

#[test]
fn usage_line() {
    assert_eq!(
        usage(),
        "Usage: poster-maker-cli <image> [--grid 3x2] [-o output.pdf] [--overwrite]"
    );
}

#[test]
fn command_line_defaults() {
    let req = parse_cli_args(&args(&["/pictures/photo.jpg"])).unwrap();
    assert_eq!(req.input, "/pictures/photo.jpg");
    assert_eq!(req.output_name, "photo-poster.pdf");
    assert_eq!((req.cols, req.rows), (3, 2));
    assert!(!req.overwrite);
}

#[test]
fn command_line_options() {
    let req = parse_cli_args(&args(&[
        "in.png", "--grid", "4x3", "-o", "out.pdf", "--overwrite",
    ]))
    .unwrap();
    assert_eq!(req.input, "in.png");
    assert_eq!(req.output_name, "out.pdf");
    assert_eq!((req.cols, req.rows), (4, 3));
    assert!(req.overwrite);

    let req = parse_cli_args(&args(&["in.png", "--output", "a", "-f", "--grid", "1x1"])).unwrap();
    assert_eq!(req.output_name, "a");
    assert_eq!((req.cols, req.rows), (1, 1));
    assert!(req.overwrite);
}

#[test]
fn command_line_errors() {
    let u = usage();
    assert_eq!(parse_cli_args(&args(&[])).err(), Some(u.clone()));
    assert_eq!(parse_cli_args(&args(&["a.png", "-o"])).err(), Some(u.clone()));
    assert_eq!(parse_cli_args(&args(&["a.png", "--grid"])).err(), Some(u.clone()));
    assert_eq!(parse_cli_args(&args(&["a.png", "--help"])).err(), Some(u.clone()));
    assert_eq!(parse_cli_args(&args(&["a.png", "-h", "--bogus"])).err(), Some(u.clone()));
    assert_eq!(
        parse_cli_args(&args(&["a.png", "--bogus"])).err(),
        Some(format!("Unknown argument: --bogus\n{}", u))
    );
    assert_eq!(
        parse_cli_args(&args(&["a.png", "--grid", "0x1"])).err(),
        Some("Grid range must be 1..12".to_string())
    );
}

#[test]
fn every_grid_from_one_to_twelve_is_accepted() {
    for c in 1..=12u32 {
        for r in 1..=12u32 {
            assert_eq!(parse_grid(&format!("{c}x{r}")), Ok((c, r)));
            assert_eq!(parse_grid(&format!("{c}×{r}")), Ok((c, r)));
            assert_eq!(parse_normalized_grid(&format!("{c}x{r}")), Ok((c, r)));
        }
    }
}

#[test]
fn every_unicode_space_is_trimmed() {
    for space in [
        '\u{9}', '\u{a}', '\u{b}', '\u{c}', '\u{d}', ' ', '\u{85}', '\u{a0}', '\u{1680}',
        '\u{2000}', '\u{2005}', '\u{200a}', '\u{2028}', '\u{2029}', '\u{202f}', '\u{205f}',
        '\u{3000}',
    ] {
        assert_eq!(parse_grid(&format!("{space}3x2{space}")), Ok((3, 2)), "{space:?}");
    }
    assert_eq!(parse_grid("\u{200b}3x2"), Err("Invalid grid columns".to_string()));
}
