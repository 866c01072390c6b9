//! Naming and placing the generated PDF next to its source image, and the
//! error and result values of the generate operations.
use vstd::prelude::*;
use crate::text::{lowercased, text_ends_with, to_lowercase, trim, trimmed};
use vstd::prelude::DeepView;
use vstd::string::StringExecFns;

verus! {

#[verifier::external_type_specification]
#[verifier::external_body]
pub struct ExImageError(image::ImageError);

#[verifier::external_type_specification]
#[verifier::external_body]
pub struct ExIoError(std::io::Error);

/// Why an operation of the poster tool failed.
#[derive(Debug)]
pub enum AppError {
    /// The image could not be read or decoded.
    Image(image::ImageError),
    /// A file operation failed.
    Io(std::io::Error),
    /// Any other failure, described in words.
    Message(String),
}

/// The text of an `AppError::Message`, if `e` is one.
pub open spec fn message_of(e: AppError) -> Option<Seq<char>> {
    match e {
        AppError::Message(m) => Some(m@),
        _ => None,
    }
}

/// A result whose error is an `AppError` carries the outcome `s`: the same value
/// on success, a message error with the same text on failure.
pub open spec fn same_app_outcome(r: Result<String, AppError>, s: Result<Seq<char>, Seq<char>>) -> bool {
    match r {
        Ok(v) => s == Ok::<Seq<char>, Seq<char>>(v@),
        Err(e) => message_of(e) is Some && s == Err::<Seq<char>, Seq<char>>(message_of(e)->0),
    }
}

/// What the poster operation reports: how many pages it wrote, and where.
pub struct GenerateResult {
    pub pages: u32,
    pub output: String,
}

/// What the imposition operation reports: how many copies fit on the sheet,
/// and where the PDF was written.
pub struct GenerateImpositionResult {
    pub copies: u32,
    pub output: String,
}

/// What `Path::file_stem` gives for the path `p`, as text: the final component
/// without its extension, if there is a final component.
pub uninterp spec fn file_stem_of(p: Seq<char>) -> Option<Seq<char>>;

/// What `Path::parent` gives for the path `p`: the path without its final
/// component, or `None` for a root or an empty path.
pub uninterp spec fn parent_of(p: Seq<char>) -> Option<Seq<char>>;

/// What `Path::components` gives for the path `p`: its components, each as
/// text, in order.
pub uninterp spec fn components_of(p: Seq<char>) -> Seq<Seq<char>>;

/// What `Path::join` gives for the directory `dir` and the name `name`.
pub uninterp spec fn joined_of(dir: Seq<char>, name: Seq<char>) -> Seq<char>;

/// Calls `Path::file_stem` and converts the stem to text (a stem of a path
/// made from text is text, so nothing is lost). Claimed: the result is what
/// `file_stem_of` names for the path. How std splits off the extension, and
/// which separators the build target uses, is not written out here.
#[verifier::external_body]
fn path_file_stem(p: &str) -> (r: Option<String>)
    ensures
        match r {
            Some(s) => file_stem_of(p@) == Some(s@),
            None => file_stem_of(p@) is None,
        },
{
    match std::path::Path::new(p).file_stem() {
        Some(s) => Some(s.to_string_lossy().into_owned()),
        None => None,
    }
}

/// Calls `Path::parent`. Claimed: the result is what `parent_of` names for the
/// path. The component rules of the build target are not written out here.
#[verifier::external_body]
fn path_parent(p: &str) -> (r: Option<String>)
    ensures
        match r {
            Some(s) => parent_of(p@) == Some(s@),
            None => parent_of(p@) is None,
        },
{
    match std::path::Path::new(p).parent() {
        Some(d) => Some(d.to_string_lossy().into_owned()),
        None => None,
    }
}

/// Calls `Path::components` and converts each component to text. Claimed:
/// the components are what `components_of` names for the path. The
/// normalisation rules of std and the separators of the build target are not
/// written out here.
#[verifier::external_body]
fn path_components(p: &str) -> (r: Vec<String>)
    ensures
        r.deep_view() == components_of(p@),
{
    let mut parts: Vec<String> = Vec::new();
    for c in std::path::Path::new(p).components() {
        parts.push(c.as_os_str().to_string_lossy().into_owned());
    }
    parts
}

/// Calls `Path::join`. Claimed: the joined path is what `joined_of` names for
/// the two arguments. The separator of the build target is not written out here.
#[verifier::external_body]
fn path_join(dir: &str, name: &str) -> (r: String)
    ensures
        r@ == joined_of(dir@, name@),
{
    std::path::Path::new(dir).join(name).to_string_lossy().into_owned()
}

/// The default PDF name for an image whose file stem is `stem`: the stem (or
/// `poster` when there is none or it is empty) followed by `-poster.pdf`.
pub open spec fn poster_name(stem: Option<Seq<char>>) -> Seq<char> {
    let base = match stem {
        Some(s) => if s.len() > 0 { s } else { "poster"@ },
        None => "poster"@,
    };
    base + "-poster.pdf"@
}

/// The default PDF name for an image whose file stem is `stem`.
pub fn poster_name_for_stem(stem: Option<&str>) -> (r: String)
    ensures
        r@ == poster_name(
            match stem {
                Some(s) => Some(s@),
                None => None,
            },
        ),
{
    let base = match stem {
        Some(s) => if !s.is_empty() { String::from_str(s) } else { String::from_str("poster") },
        None => String::from_str("poster"),
    };
    base.concat("-poster.pdf")
}

/// The default PDF name for the image at `input_path`, such as
/// `photo-poster.pdf` for `/pictures/photo.jpg`.
pub fn default_output_name(input_path: &str) -> (r: String)
    ensures
        r@ == poster_name(file_stem_of(input_path@)),
{
    let stem = path_file_stem(input_path);
    match stem {
        Some(s) => poster_name_for_stem(Some(s.as_str())),
        None => poster_name_for_stem(None),
    }
}

/// The requested `name` with `.pdf` added unless its lowercase form
/// `lowercase` already ends with `.pdf`.
pub open spec fn with_pdf_extension_spec(name: Seq<char>, lowercase: Seq<char>) -> Seq<char> {
    if crate::text::ends_with(lowercase, ".pdf"@) {
        name
    } else {
        name + ".pdf"@
    }
}

/// The PDF file name made from the requested `name`: `.pdf` is added unless
/// the name's lowercase form already ends with it, and both the name and the
/// resulting file name must be a single path component.
pub open spec fn pdf_file_name(name: Seq<char>) -> Result<Seq<char>, Seq<char>> {
    let file = with_pdf_extension_spec(name, lowercased(name));
    if components_of(name).len() != 1 || components_of(file).len() != 1 {
        Err("Output must be a file name only"@)
    } else {
        Ok(file)
    }
}

/// The output name that is used for the image at `input` when `output_name` was
/// asked for: the trimmed request, or the default name when that is empty.
pub open spec fn chosen_output_name(input: Seq<char>, output_name: Seq<char>) -> Seq<char> {
    if trimmed(output_name).len() == 0 {
        poster_name(file_stem_of(input))
    } else {
        trimmed(output_name)
    }
}

/// Where the PDF for the image at `input`, named `output_name`, is written: in
/// the image's directory, under the checked file name.
pub open spec fn output_path(input: Seq<char>, output_name: Seq<char>) -> Result<
    Seq<char>,
    Seq<char>,
> {
    match parent_of(input) {
        None => Err("Input file has no parent directory"@),
        Some(dir) => {
            let name = chosen_output_name(input, output_name);
            match pdf_file_name(name) {
                Err(e) => Err(e),
                Ok(file) => Ok(joined_of(dir, file)),
            }
        },
    }
}

/// The requested `name` with `.pdf` added unless `lowercase`, its lowercase
/// form, already ends with `.pdf`.
pub fn with_pdf_extension(name: String, lowercase: &str) -> (r: String)
    ensures
        r@ == with_pdf_extension_spec(name@, lowercase@),
{
    if text_ends_with(lowercase, ".pdf") {
        name
    } else {
        name.concat(".pdf")
    }
}

/// Checks the requested file `name` and adds `.pdf` when it is missing: the
/// name, and the file name made from it, must each be one path component.
pub fn finish_pdf_file_name(name: String) -> (r: Result<String, AppError>)
    ensures
        same_app_outcome(r, pdf_file_name(name@)),
{
    let lower = to_lowercase(name.as_str());
    let name_parts = path_components(name.as_str());
    let ghost name_view = name@;
    let file = with_pdf_extension(name, lower.as_str());
    let file_parts = path_components(file.as_str());
    if name_parts.len() != 1 || file_parts.len() != 1 {
        return Err(AppError::Message(String::from_str("Output must be a file name only")));
    }
    Ok(file)
}

/// The path of the PDF for the image at `input` when the user asked for
/// `output_name`: a file name only, placed in the image's directory, with a
/// `.pdf` extension; an empty request means the default name.
pub fn default_output_path(input: &str, output_name: &str) -> (r: Result<String, AppError>)
    ensures
        same_app_outcome(r, output_path(input@, output_name@)),
{
    let dir = match path_parent(input) {
        None => {
            return Err(AppError::Message(String::from_str("Input file has no parent directory")));
        },
        Some(d) => d,
    };
    let trimmed_name = trim(output_name);
    let name = if trimmed_name.as_str().is_empty() {
        default_output_name(input)
    } else {
        trimmed_name
    };
    match finish_pdf_file_name(name) {
        Err(e) => Err(e),
        Ok(file) => Ok(path_join(dir.as_str(), file.as_str())),
    }
}

/// Where a generate operation writes: refused when the image does not exist,
/// otherwise the output path for the requested name.
pub open spec fn generation_target(input: Seq<char>, input_exists: bool, output_name: Seq<char>) -> Result<
    Seq<char>,
    Seq<char>,
> {
    if !input_exists {
        Err("Input file does not exist"@)
    } else {
        output_path(input, output_name)
    }
}

/// Where a generate operation for the image at `input` (which exists when
/// `input_exists` holds) writes its PDF.
pub fn generation_target_path(input: &str, input_exists: bool, output_name: &str) -> (r: Result<
    String,
    AppError,
>)
    ensures
        same_app_outcome(r, generation_target(input@, input_exists, output_name@)),
{
    if !input_exists {
        return Err(AppError::Message(String::from_str("Input file does not exist")));
    }
    default_output_path(input, output_name)
}

/// Refuses to write over an existing PDF unless overwriting was asked for.
pub fn ensure_may_write(output_exists: bool, overwrite: bool) -> (r: Result<(), AppError>)
    ensures
        r is Ok <==> (!output_exists || overwrite),
        r matches Err(e) ==> message_of(e) == Some("Output file already exists"@),
{
    if output_exists && !overwrite {
        return Err(AppError::Message(String::from_str("Output file already exists")));
    }
    Ok(())
}

/// The chosen file for the image at `input` when `output_name` was asked for.
pub open spec fn chosen_file(input: Seq<char>, output_name: Seq<char>) -> Seq<char> {
    let name = chosen_output_name(input, output_name);
    with_pdf_extension_spec(name, lowercased(name))
}

/// The PDF goes into the image's folder under a plain file name: whenever a
/// path is given, it is the image's directory joined with the chosen file
/// name, that name is a single path component (after `.pdf` is added), and it
/// is the chosen name itself when that already ends in `.pdf` in some letter
/// case, or the chosen name with `.pdf` added.
pub proof fn law_output_is_a_pdf_in_the_image_folder(input: Seq<char>, output_name: Seq<char>)
    requires
        output_path(input, output_name) is Ok,
    ensures
        ({
            let name = chosen_output_name(input, output_name);
            let file = chosen_file(input, output_name);
            &&& parent_of(input) is Some
            &&& output_path(input, output_name)->Ok_0 == joined_of(parent_of(input)->0, file)
            &&& components_of(file).len() == 1
            &&& components_of(name).len() == 1
            &&& (crate::text::ends_with(lowercased(name), ".pdf"@) ==> file == name)
            &&& (!crate::text::ends_with(lowercased(name), ".pdf"@) ==> file == name + ".pdf"@)
        }),
{
}

/// Asking again for the file name that was chosen gives the same path: a
/// request whose chosen file (once trimmed, defaulted and given `.pdf`) has a
/// lowercase form ending in `.pdf`, and whose default name (when the request is
/// blank) does not start with whitespace, leads to the same output path when
/// that file name is requested.
pub proof fn law_chosen_name_is_stable(input: Seq<char>, output_name: Seq<char>)
    requires
        output_path(input, output_name) is Ok,
        crate::text::ends_with(lowercased(chosen_file(input, output_name)), ".pdf"@),
        trimmed(output_name).len() == 0 ==> !crate::text::is_white_space(
            poster_name(file_stem_of(input))[0],
        ),
    ensures
        output_path(input, chosen_file(input, output_name)) == output_path(input, output_name),
{
    let name = chosen_output_name(input, output_name);
    let file = chosen_file(input, output_name);
    reveal_strlit("-poster.pdf");
    reveal_strlit(".pdf");
    if trimmed(output_name).len() == 0 {
        let stem = file_stem_of(input);
        let base = match stem {
            Some(s) => if s.len() > 0 { s } else { "poster"@ },
            None => "poster"@,
        };
        assert(name == base + "-poster.pdf"@);
        assert(name.last() == 'f');
    } else {
        crate::text::lemma_trimmed_ends(output_name);
    }
    assert(name.len() > 0);
    assert(!crate::text::is_white_space(name[0]));
    assert(!crate::text::is_white_space(name.last()));
    assert(file.len() > 0);
    assert(file[0] == name[0]);
    assert(file.last() == name.last() || file.last() == 'f');
    crate::text::lemma_trimmed_unchanged(file);
    assert(chosen_output_name(input, file) == file);
    assert(with_pdf_extension_spec(file, lowercased(file)) == file);
}

/// The default PDF name of an image is its file stem followed by
/// `-poster.pdf`, such as `photo-poster.pdf` for `photo.jpg`; an image with no
/// stem, or an empty one, gets `poster-poster.pdf`.
pub proof fn law_default_name_follows_the_stem(stem: Option<Seq<char>>)
    ensures
        stem matches Some(s) ==> (s.len() > 0 ==> poster_name(stem) == s + "-poster.pdf"@),
        stem matches Some(s) ==> (s.len() == 0 ==> poster_name(stem) == "poster-poster.pdf"@),
        stem is None ==> poster_name(stem) == "poster-poster.pdf"@,
{
    reveal_strlit("poster");
    reveal_strlit("-poster.pdf");
    reveal_strlit("poster-poster.pdf");
    assert("poster"@ + "-poster.pdf"@ =~= "poster-poster.pdf"@);
}

/// An empty (or all-blank) requested name means the default name for the image.
pub proof fn law_blank_name_means_default(input: Seq<char>, output_name: Seq<char>)
    requires
        trimmed(output_name).len() == 0,
    ensures
        chosen_output_name(input, output_name) == poster_name(file_stem_of(input)),
{
}

} // verus!
