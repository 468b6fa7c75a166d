//! Plain option types for the command-line surface, and the small input
//! parsers whose meaning the library pins down exactly.

use vstd::prelude::*;

use crate::scattering::str_eq;
use crate::text::{ascii_lower, spec_ascii_lower};

verus! {

/// Which density-functional code produced or will run a job.
#[derive(Clone, Copy, PartialEq, Eq, Structural, Debug)]
pub enum DftCode {
    Vasp,
    Castep,
}

/// Which code a parsed result file came from.
#[derive(Clone, Copy, PartialEq, Eq, Structural, Debug)]
pub enum DftCodeType {
    Vasp,
    Castep,
}

/// Structure-file formats a conversion can target.
#[derive(Clone, Copy, PartialEq, Eq, Structural, Debug)]
pub enum OutputFormat {
    Cell,
    Cif,
    Xyz,
    Xtl,
    Poscar,
}

/// Output formats for a computed diffraction pattern.
#[derive(Clone, Copy, PartialEq, Eq, Structural, Debug)]
pub enum XrdOutputFormat {
    Png,
    Svg,
    Csv,
    Xy,
}

/// Which engine a submission prepares jobs for.
#[derive(Clone, Copy, PartialEq, Eq, Structural, Debug)]
pub enum DftEngine {
    Auto,
    Castep,
    Vasp,
}

/// Options of a result-analysis run.
pub struct DftArgs {
    pub csv_file: Option<std::path::PathBuf>,
    pub job_dir: std::path::PathBuf,
    pub code: DftCode,
    pub plot_range: Option<String>,
    pub top_n: usize,
    pub output_csv: std::path::PathBuf,
    pub output_plot: std::path::PathBuf,
    pub no_plot: bool,
}

/// Options of a result-collection run.
pub struct CollectArgs {
    pub dft_dir: std::path::PathBuf,
    pub code: DftCode,
    pub output: std::path::PathBuf,
    pub use_cabal: bool,
}

/// Options of a format-conversion run.
pub struct ConvertArgs {
    pub input: std::path::PathBuf,
    pub output: std::path::PathBuf,
    pub target: OutputFormat,
    pub recursive: bool,
    pub pattern: String,
}

/// Why a range string was refused.
#[derive(Clone, Copy, PartialEq, Eq, Structural, Debug)]
pub enum RangeError {
    /// Not two dash-separated decimal numbers.
    Malformed,
    /// The bounds are not an increasing range starting at one or later.
    OutOfOrder,
}

/// Whether a character is a decimal digit.
pub open spec fn spec_is_digit(c: char) -> bool {
    '0' <= c <= '9'
}

/// The value of a decimal digit character.
pub open spec fn spec_digit_val(c: char) -> int {
    c as int - '0' as int
}

/// Parse decimal digits from position `i` with accumulator `acc`; fails on
/// a non-digit or on overflow of the machine range.
pub open spec fn spec_parse_usize_rec(s: Seq<char>, i: int, acc: int) -> Option<int>
    decreases s.len() - i,
{
    if i < 0 || i >= s.len() {
        Some(acc)
    } else if !spec_is_digit(s[i]) {
        None
    } else {
        let v = acc * 10 + spec_digit_val(s[i]);
        if v > usize::MAX as int {
            None
        } else {
            spec_parse_usize_rec(s, i + 1, v)
        }
    }
}

/// The number a digit string denotes, if it is one; a single leading
/// plus sign is allowed, as the machine's unsigned parser allows it.
pub open spec fn spec_parse_usize(s: Seq<char>) -> Option<int> {
    let t = if s.len() > 0 && s[0] == '+' {
        s.skip(1)
    } else {
        s
    };
    if t.len() == 0 {
        None
    } else {
        spec_parse_usize_rec(t, 0, 0)
    }
}

/// The first position of a character at or past `i`, or the length.
pub open spec fn spec_find_char(s: Seq<char>, c: char, i: int) -> int
    decreases s.len() - i,
{
    if i < 0 || i >= s.len() {
        s.len() as int
    } else if s[i] == c {
        i
    } else {
        spec_find_char(s, c, i + 1)
    }
}

/// The meaning of a range string: exactly two dash-separated numbers
/// `a-b` with `1 <= a <= b`.
pub open spec fn spec_parse_range(s: Seq<char>) -> Result<(int, int), RangeError> {
    let d1 = spec_find_char(s, '-', 0);
    if d1 == s.len() {
        Err(RangeError::Malformed)
    } else {
        let d2 = spec_find_char(s, '-', d1 + 1);
        if d2 != s.len() {
            Err(RangeError::Malformed)
        } else {
            match (spec_parse_usize(s.subrange(0, d1)), spec_parse_usize(
                s.subrange(d1 + 1, s.len() as int),
            )) {
                (Some(a), Some(b)) => if a < 1 || b < a {
                    Err(RangeError::OutOfOrder)
                } else {
                    Ok((a, b))
                },
                _ => Err(RangeError::Malformed),
            }
        }
    }
}

/// Parse a digit span of a character vector.
fn parse_usize_span(v: &Vec<char>, from: usize, to: usize) -> (r: Option<usize>)
    requires
        from <= to <= v@.len(),
    ensures
        r matches Some(n) ==> spec_parse_usize(v@.subrange(from as int, to as int)) == Some(
            n as int,
        ),
        r is None ==> spec_parse_usize(v@.subrange(from as int, to as int)) is None,
{
    let ghost whole = v@.subrange(from as int, to as int);
    let start: usize = if from < to && v[from] == '+' {
        from + 1
    } else {
        from
    };
    proof {
        if from < to {
            assert(whole[0] == v@[from as int]);
        }
        if from < to && v@[from as int] == '+' {
            assert(whole.skip(1) =~= v@.subrange(from + 1 as int, to as int));
        }
    }
    if start == to {
        return None;
    }
    let ghost piece = v@.subrange(start as int, to as int);
    proof {
        assert(piece.len() > 0);
        assert(spec_parse_usize(whole) == spec_parse_usize_rec(piece, 0, 0));
    }
    let mut acc: usize = 0;
    let mut i: usize = start;
    while i < to
        invariant
            start <= i <= to <= v@.len(),
            from <= start,
            whole == v@.subrange(from as int, to as int),
            piece == v@.subrange(start as int, to as int),
            piece.len() == to - start,
            spec_parse_usize_rec(piece, i - start, acc as int) == spec_parse_usize_rec(piece, 0, 0),
            spec_parse_usize(whole) == spec_parse_usize_rec(piece, 0, 0),
        decreases to - i,
    {
        let c: char = v[i];
        proof {
            assert(piece[i - start] == v@[i as int]);
        }
        if c < '0' || c > '9' {
            proof {
                assert(!spec_is_digit(piece[i - start]));
                assert(spec_parse_usize_rec(piece, i - start, acc as int) is None);
            }
            return None;
        }
        let d: u32 = c as u32 - 48;
        proof {
            assert(d as int == spec_digit_val(c));
        }
        let t: u128 = acc as u128 * 10 + d as u128;
        if t > usize::MAX as u128 {
            proof {
                assert(acc as int * 10 + spec_digit_val(piece[i - start]) > usize::MAX as int);
                assert(spec_parse_usize_rec(piece, i - start, acc as int) is None);
            }
            return None;
        }
        acc = t as usize;
        i = i + 1;
    }
    Some(acc)
}

/// The first dash at or past `from`, or the length.
fn find_dash(v: &Vec<char>, from: usize) -> (r: usize)
    requires
        from <= v@.len(),
    ensures
        r as int == spec_find_char(v@, '-', from as int),
        from <= r <= v@.len(),
{
    let mut i: usize = from;
    while i < v.len()
        invariant
            from <= i <= v@.len(),
            spec_find_char(v@, '-', from as int) == spec_find_char(v@, '-', i as int),
        decreases v@.len() - i,
    {
        if v[i] == '-' {
            return i;
        }
        i = i + 1;
    }
    i
}

/// Collect the characters of a string slice.
fn chars_of(s: &str) -> (r: Vec<char>)
    ensures
        r@ == s@,
{
    let len: usize = s.unicode_len();
    let mut r: Vec<char> = Vec::new();
    let mut i: usize = 0;
    while i < len
        invariant
            i <= len,
            len == s@.len(),
            r@ == s@.subrange(0, i as int),
        decreases len - i,
    {
        r.push(s.get_char(i));
        proof {
            assert(r@ =~= s@.subrange(0, i + 1 as int));
        }
        i = i + 1;
    }
    proof {
        assert(r@ =~= s@);
    }
    r
}

/// Parse a structure-index range such as `1-10`: two dash-separated
/// numbers, the first at least one and not past the second.
pub fn parse_range(range: &str) -> (r: Result<(usize, usize), RangeError>)
    ensures
        r matches Ok(p) ==> spec_parse_range(range@) == Ok::<(int, int), RangeError>(
            (p.0 as int, p.1 as int),
        ),
        r matches Err(e) ==> spec_parse_range(range@) == Err::<(int, int), RangeError>(e),
{
    let v: Vec<char> = chars_of(range);
    let d1: usize = find_dash(&v, 0);
    if d1 == v.len() {
        return Err(RangeError::Malformed);
    }
    let d2: usize = find_dash(&v, d1 + 1);
    if d2 != v.len() {
        return Err(RangeError::Malformed);
    }
    let start: Option<usize> = parse_usize_span(&v, 0, d1);
    let end: Option<usize> = parse_usize_span(&v, d1 + 1, v.len());
    proof {
        assert(v@.subrange(d1 + 1 as int, v@.len() as int) == v@.subrange(
            d1 + 1 as int,
            v@.len() as int,
        ));
    }
    match (start, end) {
        (Some(a), Some(b)) => {
            if a < 1 || b < a {
                Err(RangeError::OutOfOrder)
            } else {
                Ok((a, b))
            }
        },
        _ => Err(RangeError::Malformed),
    }
}

/// The output format an extension implies: `svg`, `csv`, and the plain
/// data extensions map to their formats, anything else to PNG. Letters are
/// compared without regard to ASCII case.
pub open spec fn spec_guess_format(ext: Seq<char>) -> XrdOutputFormat {
    let l = spec_ascii_lower(ext);
    if l == "svg"@ {
        XrdOutputFormat::Svg
    } else if l == "csv"@ {
        XrdOutputFormat::Csv
    } else if l == "xy"@ || l == "dat"@ || l == "txt"@ {
        XrdOutputFormat::Xy
    } else {
        XrdOutputFormat::Png
    }
}

/// Guess the pattern output format from a file extension.
pub fn guess_format_from_extension(ext: &str) -> (r: XrdOutputFormat)
    ensures
        r == spec_guess_format(ext@),
{
    let l: String = ascii_lower(ext);
    if str_eq(l.as_str(), "svg") {
        XrdOutputFormat::Svg
    } else if str_eq(l.as_str(), "csv") {
        XrdOutputFormat::Csv
    } else if str_eq(l.as_str(), "xy") || str_eq(l.as_str(), "dat") || str_eq(l.as_str(), "txt") {
        XrdOutputFormat::Xy
    } else {
        XrdOutputFormat::Png
    }
}

/// The wavelength, in micro-angstroms, of a named radiation source;
/// letters are compared without regard to ASCII case.
pub open spec fn spec_predefined_wavelength(name: Seq<char>) -> Option<i64> {
    let l = spec_ascii_lower(name);
    if l == "cu-ka"@ || l == "cuka"@ {
        Some(1_541_800i64)
    } else if l == "cu-ka1"@ || l == "cuka1"@ {
        Some(1_540_600i64)
    } else if l == "cu-ka2"@ || l == "cuka2"@ {
        Some(1_544_400i64)
    } else if l == "cu-kb1"@ || l == "cukb1"@ {
        Some(1_392_200i64)
    } else if l == "mo-ka"@ || l == "moka"@ {
        Some(710_700i64)
    } else if l == "mo-ka1"@ || l == "moka1"@ {
        Some(709_300i64)
    } else if l == "co-ka"@ || l == "coka"@ {
        Some(1_790_300i64)
    } else if l == "fe-ka"@ || l == "feka"@ {
        Some(1_937_300i64)
    } else if l == "cr-ka"@ || l == "crka"@ {
        Some(2_291_000i64)
    } else if l == "ag-ka"@ || l == "agka"@ {
        Some(560_900i64)
    } else {
        None
    }
}

/// The wavelength of a named anode line, in micro-angstroms, or nothing
/// for an unknown name.
pub fn get_predefined_wavelength(name: &str) -> (r: Option<i64>)
    ensures
        r == spec_predefined_wavelength(name@),
{
    let l: String = ascii_lower(name);
    let ls: &str = l.as_str();
    if str_eq(ls, "cu-ka") || str_eq(ls, "cuka") {
        Some(1_541_800)
    } else if str_eq(ls, "cu-ka1") || str_eq(ls, "cuka1") {
        Some(1_540_600)
    } else if str_eq(ls, "cu-ka2") || str_eq(ls, "cuka2") {
        Some(1_544_400)
    } else if str_eq(ls, "cu-kb1") || str_eq(ls, "cukb1") {
        Some(1_392_200)
    } else if str_eq(ls, "mo-ka") || str_eq(ls, "moka") {
        Some(710_700)
    } else if str_eq(ls, "mo-ka1") || str_eq(ls, "moka1") {
        Some(709_300)
    } else if str_eq(ls, "co-ka") || str_eq(ls, "coka") {
        Some(1_790_300)
    } else if str_eq(ls, "fe-ka") || str_eq(ls, "feka") {
        Some(1_937_300)
    } else if str_eq(ls, "cr-ka") || str_eq(ls, "crka") {
        Some(2_291_000)
    } else if str_eq(ls, "ag-ka") || str_eq(ls, "agka") {
        Some(560_900)
    } else {
        None
    }
}

} // verus!
