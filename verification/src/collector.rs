//! File-collection settings and glob-style name matching.
//!
//! A `FileCollector` remembers an input path, a list of glob patterns and a
//! recursion flag; directory walking itself is input/output and lives with
//! the caller. The matching semantics are specified by `spec_glob_match`:
//! `*` matches any run of characters, `?` exactly one, and every other
//! character only itself.

use vstd::prelude::*;

verus! {

/// Glob semantics over character sequences: `*` matches any run, `?` any
/// single character, all else literally.
pub open spec fn spec_glob_match(p: Seq<char>, t: Seq<char>) -> bool
    decreases p.len() + t.len(),
{
    if p.len() == 0 {
        t.len() == 0
    } else if p[0] == '*' {
        spec_glob_match(p.skip(1), t) || (t.len() > 0 && spec_glob_match(p, t.skip(1)))
    } else if t.len() == 0 {
        false
    } else {
        (p[0] == '?' || p[0] == t[0]) && spec_glob_match(p.skip(1), t.skip(1))
    }
}

/// Collect the characters of a string slice into a vector.
fn str_to_chars(s: &str) -> (r: Vec<char>)
    ensures
        r@ == s@,
{
    let len: usize = s.unicode_len();
    let mut r: Vec<char> = Vec::new();
    let mut i: usize = 0;
    while i < len
        invariant
            i <= len,
            len == s@.len(),
            r@ == s@.subrange(0, i as int),
        decreases len - i,
    {
        r.push(s.get_char(i));
        proof {
            assert(r@ =~= s@.subrange(0, i + 1 as int));
        }
        i = i + 1;
    }
    proof {
        assert(r@ =~= s@);
    }
    r
}

/// Whitespace characters stripped from the ends of a pattern.
pub open spec fn spec_is_space(c: char) -> bool {
    c == ' ' || c == '\t' || c == '\r' || c == '\n'
}

pub(crate) fn is_space_char(c: char) -> (r: bool)
    ensures
        r == spec_is_space(c),
{
    c == ' ' || c == '\t' || c == '\r' || c == '\n'
}

/// Number of leading whitespace characters.
pub open spec fn spec_leading_spaces(s: Seq<char>) -> int
    decreases s.len(),
{
    if s.len() == 0 {
        0
    } else if spec_is_space(s[0]) {
        1 + spec_leading_spaces(s.skip(1))
    } else {
        0
    }
}

/// Number of trailing whitespace characters.
pub open spec fn spec_trailing_spaces(s: Seq<char>) -> int
    decreases s.len(),
{
    if s.len() == 0 {
        0
    } else if spec_is_space(s.last()) {
        1 + spec_trailing_spaces(s.drop_last())
    } else {
        0
    }
}

/// A sequence with its leading and trailing whitespace removed.
pub open spec fn spec_trim(s: Seq<char>) -> Seq<char> {
    if spec_leading_spaces(s) == s.len() {
        Seq::empty()
    } else {
        s.subrange(spec_leading_spaces(s), s.len() - spec_trailing_spaces(s))
    }
}

proof fn lemma_leading_spaces_char(s: Seq<char>, l: int)
    requires
        0 <= l <= s.len(),
        forall|k: int| 0 <= k < l ==> spec_is_space(s[k]),
        l == s.len() || !spec_is_space(s[l]),
    ensures
        l == spec_leading_spaces(s),
    decreases s.len(),
{
    if s.len() == 0 {
    } else if spec_is_space(s[0]) {
        assert(l >= 1);
        lemma_leading_spaces_char(s.skip(1), l - 1);
    } else {
        assert(l == 0);
    }
}

pub(crate) proof fn lemma_trailing_spaces_char(s: Seq<char>, r: int)
    requires
        0 <= r <= s.len(),
        forall|k: int| s.len() - r <= k < s.len() ==> spec_is_space(s[k]),
        r == s.len() || !spec_is_space(s[s.len() - r - 1]),
    ensures
        r == spec_trailing_spaces(s),
    decreases s.len(),
{
    if s.len() == 0 {
    } else if spec_is_space(s.last()) {
        assert(r >= 1);
        lemma_trailing_spaces_char(s.drop_last(), r - 1);
    } else {
        assert(r == 0);
    }
}

/// Strip leading and trailing whitespace from a character vector.
fn trim_chars(v: &Vec<char>) -> (r: Vec<char>)
    ensures
        r@ == spec_trim(v@),
{
    let n: usize = v.len();
    let mut lo: usize = 0;
    while lo < n && is_space_char(v[lo])
        invariant
            lo <= n,
            n == v@.len(),
            forall|k: int| 0 <= k < lo ==> spec_is_space(v@[k]),
        decreases n - lo,
    {
        lo = lo + 1;
    }
    proof {
        lemma_leading_spaces_char(v@, lo as int);
    }
    if lo == n {
        let r: Vec<char> = Vec::new();
        proof {
            assert(r@ =~= spec_trim(v@));
        }
        return r;
    }
    let mut hi: usize = n;
    while hi > lo && is_space_char(v[hi - 1])
        invariant
            lo <= hi <= n,
            n == v@.len(),
            lo < n,
            !spec_is_space(v@[lo as int]),
            forall|k: int| hi <= k < n ==> spec_is_space(v@[k]),
        decreases hi,
    {
        hi = hi - 1;
    }
    proof {
        lemma_trailing_spaces_char(v@, n - hi as int);
    }
    let mut r: Vec<char> = Vec::new();
    let mut i: usize = lo;
    while i < hi
        invariant
            lo <= i <= hi <= n,
            n == v@.len(),
            r@ == v@.subrange(lo as int, i as int),
        decreases hi - i,
    {
        r.push(v[i]);
        proof {
            assert(r@ =~= v@.subrange(lo as int, i + 1 as int));
        }
        i = i + 1;
    }
    proof {
        assert(r@ =~= spec_trim(v@));
    }
    r
}

/// Split a pattern string on commas, trim each piece, and keep the
/// non-empty ones; processes positions `i..` with `cur` the piece begun so
/// far and `acc` the pieces already finished.
pub open spec fn spec_split_rec(s: Seq<char>, i: int, cur: Seq<char>, acc: Seq<Seq<char>>) -> Seq<
    Seq<char>,
>
    decreases s.len() - i,
{
    if i < 0 || i >= s.len() {
        if spec_trim(cur).len() > 0 {
            acc.push(spec_trim(cur))
        } else {
            acc
        }
    } else if s[i] == ',' {
        spec_split_rec(
            s,
            i + 1,
            Seq::empty(),
            if spec_trim(cur).len() > 0 {
                acc.push(spec_trim(cur))
            } else {
                acc
            },
        )
    } else {
        spec_split_rec(s, i + 1, cur.push(s[i]), acc)
    }
}

/// The comma-separated, trimmed, non-empty pieces of a pattern string.
pub open spec fn spec_split_patterns(s: Seq<char>) -> Seq<Seq<char>> {
    spec_split_rec(s, 0, Seq::empty(), Seq::empty())
}

/// Relies on `String::push` from std: appending one character appends
/// exactly that character to the string's contents.
pub assume_specification[ String::push ](s: &mut String, c: char)
    ensures
        final(s)@ == old(s)@.push(c),
;

/// Build a `String` from a character vector.
fn chars_to_string(v: &Vec<char>) -> (r: String)
    ensures
        r@ == v@,
{
    let mut r: String = String::new();
    let mut i: usize = 0;
    while i < v.len()
        invariant
            i <= v@.len(),
            r@ == v@.subrange(0, i as int),
        decreases v@.len() - i,
    {
        r.push(v[i]);
        proof {
            assert(r@ =~= v@.subrange(0, i + 1 as int));
        }
        i = i + 1;
    }
    proof {
        assert(r@ =~= v@);
    }
    r
}

/// Split a pattern list into trimmed, non-empty glob patterns.
pub fn split_patterns(pattern: &str) -> (r: Vec<String>)
    ensures
        r.deep_view() == spec_split_patterns(pattern@),
{
    let chars: Vec<char> = str_to_chars(pattern);
    let n: usize = chars.len();
    let mut acc: Vec<String> = Vec::new();
    let mut cur: Vec<char> = Vec::new();
    let mut i: usize = 0;
    proof {
        assert(cur@ =~= Seq::<char>::empty());
        assert(acc.deep_view() =~~= Seq::<Seq<char>>::empty());
    }
    while i < n
        invariant
            i <= n,
            n == chars@.len(),
            chars@ == pattern@,
            spec_split_rec(pattern@, i as int, cur@, acc.deep_view()) == spec_split_patterns(
                pattern@,
            ),
        decreases n - i,
    {
        let c: char = chars[i];
        if c == ',' {
            let piece: Vec<char> = trim_chars(&cur);
            if piece.len() > 0 {
                let ghost old_acc = acc.deep_view();
                acc.push(chars_to_string(&piece));
                proof {
                    assert(acc.deep_view() =~~= old_acc.push(spec_trim(cur@)));
                }
            }
            cur = Vec::new();
            proof {
                assert(cur@ =~= Seq::<char>::empty());
            }
        } else {
            cur.push(c);
        }
        i = i + 1;
    }
    let piece: Vec<char> = trim_chars(&cur);
    if piece.len() > 0 {
        let ghost old_acc = acc.deep_view();
        acc.push(chars_to_string(&piece));
        proof {
            assert(acc.deep_view() =~~= old_acc.push(spec_trim(cur@)));
        }
    }
    acc
}

/// Dynamic-programming glob matcher; equivalent to `spec_glob_match` on the
/// pattern's and the name's characters.
fn glob_match_impl(pattern: &str, text: &str) -> (r: bool)
    ensures
        r == spec_glob_match(pattern@, text@),
{
    let p: Vec<char> = str_to_chars(pattern);
    let t: Vec<char> = str_to_chars(text);
    let m: usize = p.len();
    let n: usize = t.len();

    // Row for pattern position `m`: an exhausted pattern matches only an
    // exhausted name.
    let mut next: Vec<bool> = Vec::new();
    let mut j: usize = 0;
    while j < n
        invariant
            j <= n,
            n == t@.len(),
            m == p@.len(),
            p@ == pattern@,
            t@ == text@,
            next@.len() == j,
            forall|k: int|
                0 <= k < j ==> next@[k] == spec_glob_match(
                    pattern@.skip(m as int),
                    text@.skip(k),
                ),
        decreases n - j,
    {
        next.push(false);
        proof {
            assert(pattern@.skip(m as int).len() == 0);
            assert(text@.skip(j as int).len() == n - j);
        }
        j = j + 1;
    }
    next.push(true);
    proof {
        assert(pattern@.skip(m as int).len() == 0);
        assert(text@.skip(n as int).len() == 0);
    }
    let row_len: usize = next.len();

    let mut i: usize = m;
    while i > 0
        invariant
            i <= m,
            n == t@.len(),
            m == p@.len(),
            p@ == pattern@,
            t@ == text@,
            row_len == n + 1,
            next@.len() == n + 1,
            forall|k: int|
                0 <= k <= n ==> next@[k] == spec_glob_match(pattern@.skip(i as int), text@.skip(k)),
        decreases i,
    {
        i = i - 1;
        let mut cur: Vec<bool> = Vec::new();
        while cur.len() < row_len
            invariant
                cur@.len() <= row_len,
                row_len == n + 1,
            decreases row_len - cur@.len(),
        {
            cur.push(false);
        }
        let mut jd: usize = row_len;
        while jd > 0
            invariant
                jd <= n + 1,
                i < m,
                n == t@.len(),
                m == p@.len(),
                p@ == pattern@,
                t@ == text@,
                next@.len() == n + 1,
                cur@.len() == n + 1,
                forall|k: int|
                    0 <= k <= n ==> next@[k] == spec_glob_match(
                        pattern@.skip(i + 1),
                        text@.skip(k),
                    ),
                forall|k: int|
                    jd <= k <= n ==> cur@[k] == spec_glob_match(
                        pattern@.skip(i as int),
                        text@.skip(k),
                    ),
            decreases jd,
        {
            jd = jd - 1;
            let j1: usize = jd;
            proof {
                assert(pattern@.skip(i as int)[0] == pattern@[i as int]);
                assert(pattern@.skip(i as int).skip(1) =~= pattern@.skip(i + 1));
                assert(text@.skip(j1 as int).len() == n - j1);
                if j1 < n {
                    assert(text@.skip(j1 as int)[0] == text@[j1 as int]);
                    assert(text@.skip(j1 as int).skip(1) =~= text@.skip(j1 + 1));
                }
            }
            let v: bool = if p[i] == '*' {
                next[j1] || (j1 < n && cur[j1 + 1])
            } else if j1 == n {
                false
            } else {
                (p[i] == '?' || p[i] == t[j1]) && next[j1 + 1]
            };
            cur[j1] = v;
        }
        next = cur;
    }
    proof {
        assert(pattern@.skip(0) =~= pattern@);
        assert(text@.skip(0) =~= text@);
    }
    next[0]
}

/// Declaration of `std::path::PathBuf`, which vstd gives no specification;
/// the collector only stores such a value and asks the file system about it.
#[verifier::external_type_specification]
#[verifier::external_body]
pub struct ExPathBuf(std::path::PathBuf);

/// Relies on `std::path::Path::is_file`: whether the path currently names a
/// regular file on disk. The answer depends on the file system, so nothing
/// further is assumed of it.
#[verifier::external_body]
fn path_is_file(p: &std::path::PathBuf) -> bool {
    p.is_file()
}

/// Relies on `std::path::Path::is_dir`: whether the path currently names a
/// directory on disk. The answer depends on the file system, so nothing
/// further is assumed of it.
#[verifier::external_body]
fn path_is_dir(p: &std::path::PathBuf) -> bool {
    p.is_dir()
}

/// Settings for collecting structure files: an input path, glob patterns
/// for file names, and whether to search directories recursively.
pub struct FileCollector {
    input: std::path::PathBuf,
    patterns: Vec<String>,
    recursive: bool,
}

impl FileCollector {
    /// The input path the collector was built for.
    pub closed spec fn spec_input(&self) -> std::path::PathBuf {
        self.input
    }

    /// The patterns a file name must match, one of them, to be collected.
    pub closed spec fn spec_patterns(&self) -> Seq<Seq<char>> {
        self.patterns.deep_view()
    }

    /// Whether directory traversal descends into subdirectories.
    pub closed spec fn spec_recursive(&self) -> bool {
        self.recursive
    }

    /// A collector for the given path that accepts every file name and does
    /// not recurse.
    pub fn new(input: std::path::PathBuf) -> (r: FileCollector)
        ensures
            r.spec_input() == input,
            r.spec_patterns() =~~= seq![seq!['*']],
            r.spec_recursive() == false,
    {
        let mut patterns: Vec<String> = Vec::new();
        patterns.push(String::from_str("*"));
        proof {
            reveal_strlit("*");
            assert(patterns.deep_view() =~~= seq![seq!['*']]);
        }
        FileCollector { input, patterns, recursive: false }
    }

    /// Replace the patterns with the comma-separated list in `pattern`;
    /// an empty list falls back to accepting every name.
    pub fn with_pattern(self, pattern: &str) -> (r: FileCollector)
        ensures
            r.spec_input() == self.spec_input(),
            r.spec_patterns() =~~= if spec_split_patterns(pattern@).len() > 0 {
                spec_split_patterns(pattern@)
            } else {
                seq![seq!['*']]
            },
            r.spec_recursive() == self.spec_recursive(),
    {
        let mut parts: Vec<String> = split_patterns(pattern);
        if parts.len() == 0 {
            parts.push(String::from_str("*"));
            proof {
                reveal_strlit("*");
                assert(parts.deep_view() =~~= seq![seq!['*']]);
            }
        }
        FileCollector { input: self.input, patterns: parts, recursive: self.recursive }
    }

    /// Set whether directory traversal descends into subdirectories.
    pub fn recursive(self, recursive: bool) -> (r: FileCollector)
        ensures
            r.spec_input() == self.spec_input(),
            r.spec_recursive() == recursive,
            r.spec_patterns() == self.spec_patterns(),
    {
        FileCollector { input: self.input, patterns: self.patterns, recursive }
    }

    /// Whether the input path names a single regular file; answered by the
    /// file system.
    pub fn is_single_file(&self) -> bool {
        path_is_file(&self.input)
    }

    /// Whether the input path names a directory; answered by the file
    /// system.
    pub fn is_directory(&self) -> bool {
        path_is_dir(&self.input)
    }

    /// Whether a name matches a glob pattern: `*` matches any run of
    /// characters, `?` exactly one, and every other character itself.
    pub fn glob_match(pattern: &str, text: &str) -> (r: bool)
        ensures
            r == spec_glob_match(pattern@, text@),
    {
        glob_match_impl(pattern, text)
    }

    /// Whether a file name matches at least one of the collector's patterns.
    pub fn matches_patterns(&self, filename: &str) -> (r: bool)
        ensures
            r == exists|k: int|
                0 <= k < self.spec_patterns().len() && spec_glob_match(
                    self.spec_patterns()[k],
                    filename@,
                ),
    {
        let mut idx: usize = 0;
        while idx < self.patterns.len()
            invariant
                idx <= self.patterns@.len(),
                forall|k: int|
                    0 <= k < idx ==> !spec_glob_match(self.spec_patterns()[k], filename@),
            decreases self.patterns@.len() - idx,
        {
            if FileCollector::glob_match(self.patterns[idx].as_str(), filename) {
                proof {
                    assert(self.spec_patterns()[idx as int] == self.patterns@[idx as int]@);
                    assert(spec_glob_match(self.spec_patterns()[idx as int], filename@));
                }
                return true;
            }
            idx = idx + 1;
        }
        false
    }
}

} // verus!
