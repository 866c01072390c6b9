use poster_maker::paths::{
    default_output_name, default_output_path, ensure_may_write, finish_pdf_file_name, with_pdf_extension,
    generation_target_path, poster_name_for_stem, AppError, GenerateImpositionResult,
    GenerateResult,
};

fn message(e: AppError) -> String {
    match e {
        AppError::Message(m) => m,
        other => panic!("unexpected error {other:?}"),
    }
}

#[test]
fn default_name_uses_the_file_stem() {
    assert_eq!(default_output_name("/pictures/photo.jpg"), "photo-poster.pdf");
    assert_eq!(default_output_name("photo.tar.gz"), "photo.tar-poster.pdf");
    assert_eq!(default_output_name("/pictures/.hidden"), ".hidden-poster.pdf");
    assert_eq!(default_output_name("/"), "poster-poster.pdf");
    assert_eq!(default_output_name(""), "poster-poster.pdf");
}

#[test]
fn name_for_stem() {
    assert_eq!(poster_name_for_stem(Some("cat")), "cat-poster.pdf");
    assert_eq!(poster_name_for_stem(Some("")), "poster-poster.pdf");
    assert_eq!(poster_name_for_stem(None), "poster-poster.pdf");
}

#[test]
fn output_path_is_in_the_image_folder() {
    assert_eq!(
        default_output_path("/pictures/photo.jpg", "big").unwrap(),
        "/pictures/big.pdf"
    );
    assert_eq!(
        default_output_path("/pictures/photo.jpg", "  big.PDF ").unwrap(),
        "/pictures/big.PDF"
    );
    assert_eq!(
        default_output_path("/pictures/photo.jpg", "").unwrap(),
        "/pictures/photo-poster.pdf"
    );
    assert_eq!(
        default_output_path("/pictures/photo.jpg", "   ").unwrap(),
        "/pictures/photo-poster.pdf"
    );
    assert_eq!(default_output_path("photo.jpg", "x").unwrap(), "x.pdf");
}

#[test]
fn output_path_errors() {
    assert_eq!(
        message(default_output_path("/", "x").unwrap_err()),
        "Input file has no parent directory"
    );
    assert_eq!(
        message(default_output_path("/pictures/photo.jpg", "sub/x").unwrap_err()),
        "Output must be a file name only"
    );
    assert_eq!(
        message(default_output_path("/pictures/photo.jpg", "/abs.pdf").unwrap_err()),
        "Output must be a file name only"
    );
}

#[test]
fn finishing_a_file_name() {
    assert_eq!(finish_pdf_file_name("a".to_string()).unwrap(), "a.pdf");
    assert_eq!(finish_pdf_file_name("A.PDF".to_string()).unwrap(), "A.PDF");
    assert_eq!(
        message(finish_pdf_file_name("a/b".to_string()).unwrap_err()),
        "Output must be a file name only"
    );
    assert_eq!(
        message(finish_pdf_file_name("x/".to_string()).unwrap_err()),
        "Output must be a file name only"
    );
    assert_eq!(with_pdf_extension("a".to_string(), "a"), "a.pdf");
    assert_eq!(with_pdf_extension("B.Pdf".to_string(), "b.pdf"), "B.Pdf");
    assert_eq!(with_pdf_extension("B.Pdf".to_string(), "B.Pdf"), "B.Pdf.pdf");
}

#[test]
fn a_trailing_separator_does_not_make_a_subfolder() {
    assert_eq!(
        message(default_output_path("/pictures/photo.jpg", "x/").unwrap_err()),
        "Output must be a file name only"
    );
    assert_eq!(
        message(default_output_path("/pictures/photo.jpg", "/").unwrap_err()),
        "Output must be a file name only"
    );
    assert_eq!(
        default_output_path("/pictures/photo.jpg", "..").unwrap(),
        "/pictures/...pdf"
    );
}

#[test]
fn the_chosen_name_is_stable() {
    let first = default_output_path("/pictures/photo.jpg", "  Big Poster ").unwrap();
    assert_eq!(first, "/pictures/Big Poster.pdf");
    assert_eq!(default_output_path("/pictures/photo.jpg", "Big Poster.pdf").unwrap(), first);
    let default = default_output_path("/pictures/photo.jpg", "").unwrap();
    assert_eq!(
        default_output_path("/pictures/photo.jpg", "photo-poster.pdf").unwrap(),
        default
    );
}

#[test]
fn generation_target_and_overwrite() {
    assert_eq!(
        message(generation_target_path("/p/a.png", false, "x").unwrap_err()),
        "Input file does not exist"
    );
    assert_eq!(generation_target_path("/p/a.png", true, "x").unwrap(), "/p/x.pdf");
    assert!(ensure_may_write(false, false).is_ok());
    assert!(ensure_may_write(true, true).is_ok());
    assert_eq!(
        message(ensure_may_write(true, false).unwrap_err()),
        "Output file already exists"
    );
}

#[test]
fn result_values() {
    let r = GenerateResult { pages: 6, output: "/p/x.pdf".to_string() };
    assert_eq!((r.pages, r.output.as_str()), (6, "/p/x.pdf"));
    let r = GenerateImpositionResult { copies: 4, output: "/p/y.pdf".to_string() };
    assert_eq!((r.copies, r.output.as_str()), (4, "/p/y.pdf"));
}
