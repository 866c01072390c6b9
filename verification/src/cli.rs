//! The command line of the poster tool: the `--grid` value and the argument list.
use vstd::prelude::*;
use crate::decimal::{parse_u32, u32_from_text};
use crate::paths::{default_output_name, poster_name};
use crate::text::{chars_of, lowercased, string_from_chars, text_eq, to_lowercase, trim, trimmed};
use vstd::string::StringExecFns;

verus! {

/// The text shown when the command line cannot be understood.
pub open spec fn usage_text() -> Seq<char> {
    "Usage: poster-maker-cli <image> [--grid 3x2] [-o output.pdf] [--overwrite]"@
}

/// The command-line usage line.
pub fn usage() -> (text: String)
    ensures
        text@ == usage_text(),
{
    String::from_str("Usage: poster-maker-cli <image> [--grid 3x2] [-o output.pdf] [--overwrite]")
}

/// A `Result` whose error is a `String` carries the same outcome as one whose
/// error is that string's characters.
pub open spec fn same_outcome<T>(r: Result<T, String>, s: Result<T, Seq<char>>) -> bool {
    match r {
        Ok(v) => s == Ok::<T, Seq<char>>(v),
        Err(e) => s == Err::<T, Seq<char>>(e@),
    }
}

/// The multiplication sign `×` written as the letter `x`.
pub open spec fn times_as_x(s: Seq<char>) -> Seq<char> {
    s.map_values(|c: char| if c == '×' { 'x' } else { c })
}

/// The index of the first `c` in `s` at or after `from`.
pub open spec fn find_char(s: Seq<char>, c: char, from: int) -> Option<int>
    decreases s.len() - from,
{
    if from < 0 || from >= s.len() {
        None
    } else if s[from] == c {
        Some(from)
    } else {
        find_char(s, c, from + 1)
    }
}

/// The largest number of sheets a grid may have along either side.
pub open spec fn max_grid_side() -> u32 {
    12
}

/// The grid that a normalised `--grid` value (trimmed, `×` made `x`, lowercased)
/// denotes: columns and rows around the first `x`, each between 1 and 12.
pub open spec fn grid_from_normalized(n: Seq<char>) -> Result<(u32, u32), Seq<char>> {
    match find_char(n, 'x', 0) {
        None => Err("Grid must look like 3x2"@),
        Some(i) => match u32_from_text(n.take(i)) {
            None => Err("Invalid grid columns"@),
            Some(cols) => match u32_from_text(n.skip(i + 1)) {
                None => Err("Invalid grid rows"@),
                Some(rows) => if cols == 0 || rows == 0 || cols > max_grid_side() || rows
                    > max_grid_side() {
                    Err("Grid range must be 1..12"@)
                } else {
                    Ok((cols, rows))
                },
            },
        },
    }
}

/// The grid that a `--grid` value denotes.
pub open spec fn grid_from_value(value: Seq<char>) -> Result<(u32, u32), Seq<char>> {
    grid_from_normalized(lowercased(times_as_x(trimmed(value))))
}

/// The first `x` in `s`, if any.
fn find_x(s: &Vec<char>) -> (r: Option<usize>)
    ensures
        r is None <==> find_char(s@, 'x', 0) is None,
        r matches Some(i) ==> i < s@.len() && find_char(s@, 'x', 0) == Some(i as int),
{
    let mut i: usize = 0;
    while i < s.len()
        invariant
            i <= s@.len(),
            find_char(s@, 'x', 0) == find_char(s@, 'x', i as int),
        decreases s@.len() - i,
    {
        if s[i] == 'x' {
            return Some(i);
        }
        i = i + 1;
    }
    None
}

/// Reads a normalised `--grid` value such as `3x2`.
pub fn parse_normalized_grid(normalized: &str) -> (r: Result<(u32, u32), String>)
    ensures
        same_outcome(r, grid_from_normalized(normalized@)),
{
    let n = chars_of(normalized);
    let pos = find_x(&n);
    match pos {
        None => Err(String::from_str("Grid must look like 3x2")),
        Some(i) => {
            assert(n@.subrange(0, i as int) =~= n@.take(i as int));
            assert(n@.subrange(i + 1, n@.len() as int) =~= n@.skip(i + 1));
            match parse_u32(&n, 0, i) {
                None => Err(String::from_str("Invalid grid columns")),
                Some(cols) => match parse_u32(&n, i + 1, n.len()) {
                    None => Err(String::from_str("Invalid grid rows")),
                    Some(rows) => {
                        if cols == 0 || rows == 0 || cols > 12 || rows > 12 {
                            Err(String::from_str("Grid range must be 1..12"))
                        } else {
                            Ok((cols, rows))
                        }
                    },
                },
            }
        },
    }
}

/// Reads a `--grid` value such as `3x2`, `3×2` or ` 4X3 `: the value is
/// trimmed, `×` becomes `x`, it is lowercased, and the two numbers around the
/// first `x` are the columns and the rows, each between 1 and 12.
pub fn parse_grid(value: &str) -> (r: Result<(u32, u32), String>)
    ensures
        same_outcome(r, grid_from_value(value@)),
{
    let t = trim(value);
    let chars = chars_of(t.as_str());
    let mut replaced: Vec<char> = Vec::new();
    let mut i: usize = 0;
    while i < chars.len()
        invariant
            i <= chars@.len(),
            replaced@ == times_as_x(chars@.take(i as int)),
        decreases chars@.len() - i,
    {
        let c = chars[i];
        if c == '×' {
            replaced.push('x');
        } else {
            replaced.push(c);
        }
        i = i + 1;
        assert(replaced@ =~= times_as_x(chars@.take(i as int)));
    }
    assert(chars@.take(i as int) =~= chars@);
    let joined = string_from_chars(&replaced);
    let lower = to_lowercase(joined.as_str());
    parse_normalized_grid(lower.as_str())
}

} // verus!

verus! {

/// What the command line asks for: the image, the PDF name, the grid and
/// whether an existing PDF may be replaced.
pub struct CliRequest {
    pub input: String,
    pub output_name: String,
    pub cols: u32,
    pub rows: u32,
    pub overwrite: bool,
}

/// The options after the image argument, read from position `i` on, given
/// what was read before: the `-o` name, the grid and the overwrite flag.
pub open spec fn cli_options(
    args: Seq<Seq<char>>,
    i: int,
    output: Option<Seq<char>>,
    grid: (u32, u32),
    overwrite: bool,
) -> Result<(Option<Seq<char>>, (u32, u32), bool), Seq<char>>
    decreases args.len() - i,
{
    if i < 0 || i >= args.len() {
        Ok((output, grid, overwrite))
    } else {
        let a = args[i];
        if a == "-o"@ || a == "--output"@ {
            if i + 1 >= args.len() {
                Err(usage_text())
            } else {
                cli_options(args, i + 2, Some(args[i + 1]), grid, overwrite)
            }
        } else if a == "--grid"@ {
            if i + 1 >= args.len() {
                Err(usage_text())
            } else {
                match grid_from_value(args[i + 1]) {
                    Ok(g) => cli_options(args, i + 2, output, g, overwrite),
                    Err(e) => Err(e),
                }
            }
        } else if a == "--overwrite"@ || a == "-f"@ {
            cli_options(args, i + 1, output, grid, true)
        } else if a == "-h"@ || a == "--help"@ {
            Err(usage_text())
        } else {
            Err("Unknown argument: "@ + a + "\n"@ + usage_text())
        }
    }
}

/// The request that the arguments `args` (without the program name) make: the
/// first is the image; then `-o`/`--output NAME`, `--grid CxR`,
/// `--overwrite`/`-f` and `-h`/`--help`. The grid is 3x2 unless given, and the
/// PDF name is the default one for the image unless given.
pub open spec fn cli_request(args: Seq<Seq<char>>) -> Result<
    (Seq<char>, Seq<char>, u32, u32, bool),
    Seq<char>,
> {
    if args.len() == 0 {
        Err(usage_text())
    } else {
        let input = args[0];
        match cli_options(args, 1, None, (3, 2), false) {
            Err(e) => Err(e),
            Ok((output, grid, overwrite)) => {
                let name = match output {
                    Some(o) => o,
                    None => poster_name(crate::paths::file_stem_of(input)),
                };
                Ok((input, name, grid.0, grid.1, overwrite))
            },
        }
    }
}

/// The request as plain values.
pub open spec fn request_view(r: CliRequest) -> (Seq<char>, Seq<char>, u32, u32, bool) {
    (r.input@, r.output_name@, r.cols, r.rows, r.overwrite)
}

/// Reads the command-line arguments that follow the program name.
pub fn parse_cli_args(args: &Vec<String>) -> (r: Result<CliRequest, String>)
    ensures
        match r {
            Ok(req) => cli_request(args.deep_view()) == Ok::<
                (Seq<char>, Seq<char>, u32, u32, bool),
                Seq<char>,
            >(request_view(req)),
            Err(e) => cli_request(args.deep_view()) == Err::<
                (Seq<char>, Seq<char>, u32, u32, bool),
                Seq<char>,
            >(e@),
        },
{
    let ghost all = args.deep_view();
    if args.len() == 0 {
        return Err(usage());
    }
    let input = args[0].clone();
    let mut output: Option<String> = None;
    let mut cols: u32 = 3;
    let mut rows: u32 = 2;
    let mut overwrite = false;
    let mut i: usize = 1;
    while i < args.len()
        invariant
            all == args.deep_view(),
            all.len() == args@.len(),
            1 <= i <= args@.len() + 1,
            input@ == all[0],
            cli_options(all, 1, None, (3, 2), false) == cli_options(
                all,
                i as int,
                match output {
                    Some(o) => Some(o@),
                    None => None,
                },
                (cols, rows),
                overwrite,
            ),
        decreases args@.len() + 1 - i,
    {
        let a = args[i].as_str();
        assert(a@ == all[i as int]);
        if text_eq(a, "-o") || text_eq(a, "--output") {
            if i + 1 >= args.len() {
                return Err(usage());
            }
            output = Some(args[i + 1].clone());
            i = i + 2;
        } else if text_eq(a, "--grid") {
            if i + 1 >= args.len() {
                return Err(usage());
            }
            match parse_grid(args[i + 1].as_str()) {
                Ok(g) => {
                    cols = g.0;
                    rows = g.1;
                },
                Err(e) => {
                    return Err(e);
                },
            }
            i = i + 2;
        } else if text_eq(a, "--overwrite") || text_eq(a, "-f") {
            overwrite = true;
            i = i + 1;
        } else if text_eq(a, "-h") || text_eq(a, "--help") {
            return Err(usage());
        } else {
            let u = usage();
            let msg = String::from_str("Unknown argument: ").concat(a).concat("\n").concat(
                u.as_str(),
            );
            return Err(msg);
        }
    }
    let output_name = match output {
        Some(o) => o,
        None => default_output_name(input.as_str()),
    };
    Ok(CliRequest { input, output_name, cols, rows, overwrite })
}

/// Every grid that is accepted has between 1 and 12 sheets along each side.
pub proof fn law_grid_within_range(n: Seq<char>)
    requires
        grid_from_normalized(n) is Ok,
    ensures
        1 <= grid_from_normalized(n)->Ok_0.0 <= 12,
        1 <= grid_from_normalized(n)->Ok_0.1 <= 12,
{
}

/// `find_char` passes over a stretch that holds no `c`.
proof fn lemma_find_char_skips(s: Seq<char>, c: char, from: int, to: int)
    requires
        0 <= from <= to <= s.len(),
        forall|i: int| from <= i < to ==> s[i] != c,
    ensures
        find_char(s, c, from) == find_char(s, c, to),
    decreases to - from,
{
    if from < to {
        lemma_find_char_skips(s, c, from + 1, to);
    }
}

/// The canonical text of a grid: columns, the letter `sep`, rows.
pub open spec fn grid_text(cols: nat, sep: char, rows: nat) -> Seq<char> {
    crate::decimal::decimal_chars(cols) + seq![sep] + crate::decimal::decimal_chars(rows)
}

/// Every grid of 1 to 12 sheets a side is accepted when written `CxR` or
/// `C×R`: the normalised text `CxR` always reads back as that grid, and so
/// does either value given to `--grid`, as far as lowercasing leaves `CxR`
/// as it is.
pub proof fn law_every_grid_accepted(cols: u32, rows: u32)
    requires
        1 <= cols <= 12,
        1 <= rows <= 12,
    ensures
        grid_from_normalized(grid_text(cols as nat, 'x', rows as nat)) == Ok::<
            (u32, u32),
            Seq<char>,
        >((cols, rows)),
        lowercased(grid_text(cols as nat, 'x', rows as nat)) == grid_text(cols as nat, 'x', rows as nat)
            ==> grid_from_value(grid_text(cols as nat, 'x', rows as nat)) == Ok::<
            (u32, u32),
            Seq<char>,
        >((cols, rows)),
        lowercased(grid_text(cols as nat, 'x', rows as nat)) == grid_text(cols as nat, 'x', rows as nat)
            ==> grid_from_value(grid_text(cols as nat, '×', rows as nat)) == Ok::<
            (u32, u32),
            Seq<char>,
        >((cols, rows)),
{
    let c = crate::decimal::decimal_chars(cols as nat);
    let r = crate::decimal::decimal_chars(rows as nat);
    crate::decimal::lemma_decimal_chars(cols as nat);
    crate::decimal::lemma_decimal_chars(rows as nat);
    reveal(crate::decimal::all_digits);
    let t = grid_text(cols as nat, 'x', rows as nat);
    let u = grid_text(cols as nat, '×', rows as nat);
    let k = c.len() as int;
    assert forall|i: int| 0 <= i < k implies t[i] != 'x' by {
        assert(t[i] == c[i]);
        assert(crate::decimal::is_digit(c[i]));
    }
    lemma_find_char_skips(t, 'x', 0, k);
    assert(t[k] == 'x');
    assert(find_char(t, 'x', 0) == Some(k));
    assert(t.take(k) =~= c);
    assert(t.skip(k + 1) =~= r);
    assert(crate::decimal::is_digit(c[0]));
    assert(crate::decimal::is_digit(r[0]));
    assert(crate::decimal::u32_from_text(c) == Some(cols));
    assert(crate::decimal::u32_from_text(r) == Some(rows));
    // No whitespace at either end, and `×` becomes `x`.
    assert(crate::decimal::is_digit(t[0]) && crate::decimal::is_digit(t.last()));
    assert(t.last() == r.last());
    assert(crate::decimal::is_digit(r[r.len() - 1]));
    assert(!crate::text::is_white_space(t[0]));
    assert(!crate::text::is_white_space(t.last()));
    crate::text::lemma_trimmed_unchanged(t);
    assert(u[0] == t[0] && u.last() == t.last() && u.len() == t.len());
    crate::text::lemma_trimmed_unchanged(u);
    assert forall|i: int| 0 <= i < t.len() implies t[i] != '×' by {
        if i < k {
            assert(t[i] == c[i]);
            assert(crate::decimal::is_digit(c[i]));
        } else if i > k {
            assert(t[i] == r[i - k - 1]);
            assert(crate::decimal::is_digit(r[i - k - 1]));
        }
    }
    assert(times_as_x(t) =~= t);
    assert forall|i: int| 0 <= i < u.len() implies times_as_x(u)[i] == t[i] by {
        if i < k {
            assert(u[i] == c[i]);
            assert(crate::decimal::is_digit(c[i]));
        } else if i > k {
            assert(u[i] == r[i - k - 1]);
            assert(crate::decimal::is_digit(r[i - k - 1]));
        }
    }
    assert(times_as_x(u) =~= t);
}

} // verus!
