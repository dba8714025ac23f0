//! File-dialog logic: extension filters, file-name validation,
//! human-readable file sizes, the rows of the file list, and the dialog's
//! layout. Reading directories and paths is the host's.

use vstd::prelude::*;
use crate::text::{chars_of, decimal, push_decimal};
use crate::combo_box::{to_lowercase, unicode_lowercase};
use crate::geometry::{Rect, fits_i32, trunc_div};
use crate::event::{Event, EventResult, Key, MouseButton};

verus! {

broadcast use vstd::string::group_string_axioms;

#[derive(Clone, Copy, Debug, PartialEq, Eq, Structural)]
pub enum FileDialogMode {
    Open,
    Save,
    SelectFolder,
}

/// A named set of file extensions. An empty list, or the entry `*`,
/// matches every path.
#[derive(Clone)]
pub struct FileFilter {
    pub name: String,
    pub extensions: Vec<String>,
}

// ----------------------------------------------------------------------
// Paths (Unix separators)
// ----------------------------------------------------------------------

/// Index of the last occurrence of `c` in `s`, or -1.
pub open spec fn find_last(s: Seq<char>, c: char) -> int
    decreases s.len(),
{
    if s.len() == 0 {
        -1
    } else if s.last() == c {
        s.len() - 1
    } else {
        find_last(s.drop_last(), c)
    }
}

/// Index of the first occurrence of `c` in `s`, or -1.
pub open spec fn find_first(s: Seq<char>, c: char) -> int
    decreases s.len(),
{
    if s.len() == 0 {
        -1
    } else if s[0] == c {
        0
    } else {
        let r = find_first(s.drop_first(), c);
        if r == -1 { -1 } else { r + 1 }
    }
}

/// The last component of `p` that is neither empty nor `.`: path
/// components are separated by `/`, and `.` components are skipped.
pub open spec fn last_named_component(p: Seq<char>) -> Option<Seq<char>>
    decreases p.len(),
{
    if p.len() == 0 {
        None
    } else {
        let j = find_last(p, '/');
        proof {
            lemma_find_last_range(p, '/');
        }
        let piece = p.subrange(j + 1, p.len() as int);
        if piece.len() == 0 || piece == seq!['.'] {
            if j < 0 {
                None
            } else {
                last_named_component(p.subrange(0, j))
            }
        } else {
            Some(piece)
        }
    }
}

/// The file name of a path: its last component, unless that is `..`.
pub open spec fn file_name(p: Seq<char>) -> Option<Seq<char>> {
    match last_named_component(p) {
        Some(n) => if n == seq!['.', '.'] { None } else { Some(n) },
        None => None,
    }
}

/// The extension of a path: the part of its file name after the final
/// `.`, unless there is no `.` or the only `.` starts the name.
pub open spec fn extension(p: Seq<char>) -> Option<Seq<char>> {
    match file_name(p) {
        Some(n) => {
            let k = find_last(n, '.');
            if k <= 0 { None } else { Some(n.subrange(k + 1, n.len() as int)) }
        },
        None => None,
    }
}

pub open spec fn ascii_lower(c: char) -> int {
    if 'A' <= c <= 'Z' { (c as int) + 32 } else { c as int }
}

/// Equality up to ASCII case.
pub open spec fn eq_ignore_ascii_case(a: Seq<char>, b: Seq<char>) -> bool {
    &&& a.len() == b.len()
    &&& forall|i: int| 0 <= i < a.len() ==> ascii_lower(a[i]) == ascii_lower(b[i])
}

/// What `FileFilter::matches` answers for extensions `exts` and path `p`.
pub open spec fn filter_matches(exts: Seq<String>, p: Seq<char>) -> bool {
    ||| exts.len() == 0
    ||| exists|i: int| 0 <= i < exts.len() && #[trigger] exts[i]@ == seq!['*']
    ||| match extension(p) {
        Some(x) => exists|i: int|
            0 <= i < exts.len() && eq_ignore_ascii_case(#[trigger] exts[i]@, x),
        None => false,
    }
}

fn find_last_in(s: &Vec<char>, end: usize, c: char) -> (r: Option<usize>)
    requires
        end <= s.len(),
    ensures
        match r {
            Some(k) => k < end && find_last(s@.subrange(0, end as int), c) == k,
            None => find_last(s@.subrange(0, end as int), c) == -1,
        },
{
    let mut i = end;
    proof {
        lemma_find_last_range(s@.subrange(0, end as int), c);
    }
    while i > 0
        invariant
            i <= end <= s.len(),
            find_last(s@.subrange(0, end as int), c) == find_last(s@.subrange(0, i as int), c),
        decreases i,
    {
        assert(s@.subrange(0, i as int).last() == s@[i - 1]);
        if s[i - 1] == c {
            return Some(i - 1);
        }
        assert(s@.subrange(0, i as int).drop_last() =~= s@.subrange(0, i - 1));
        i = i - 1;
    }
    None
}

/// The file name of `p`, as a range `[start, end)` of its characters.
fn file_name_range(p: &Vec<char>) -> (r: Option<(usize, usize)>)
    ensures
        match r {
            Some((a, b)) => a <= b <= p.len() && file_name(p@) == Some(p@.subrange(a as int, b as int)),
            None => file_name(p@) is None,
        },
{
    let mut end = p.len();
    assert(p@.subrange(0, end as int) =~= p@);
    loop
        invariant
            end <= p.len(),
            last_named_component(p@) == last_named_component(p@.subrange(0, end as int)),
        decreases end,
    {
        let ghost q = p@.subrange(0, end as int);
        if end == 0 {
            return None;
        }
        let found = find_last_in(p, end, '/');
        let ghost j = find_last(q, '/');
        proof {
            lemma_find_last_range(q, '/');
        }
        let start = match found {
            Some(k) => k + 1,
            None => 0,
        };
        assert(q.subrange(j + 1, q.len() as int) =~= p@.subrange(start as int, end as int));
        let len = end - start;
        if len == 0 || (len == 1 && p[start] == '.') {
            if len == 1 {
                assert(p@.subrange(start as int, end as int) =~= seq!['.']);
            }
            match found {
                None => {
                    return None;
                },
                Some(k) => {
                    assert(q.subrange(0, j as int) =~= p@.subrange(0, j as int));
                    end = k;
                },
            }
        } else {
            assert(p@.subrange(start as int, end as int) != seq!['.']) by {
                if len == 1 {
                    assert(p@.subrange(start as int, end as int)[0] == p@[start as int]);
                }
            }
            if len == 2 && p[start] == '.' && p[start + 1] == '.' {
                assert(p@.subrange(start as int, end as int) =~= seq!['.', '.']);
                return None;
            }
            assert(p@.subrange(start as int, end as int) != seq!['.', '.']) by {
                if len == 2 {
                    let t = p@.subrange(start as int, end as int);
                    assert(t[0] == p@[start as int] && t[1] == p@[start + 1]);
                }
            }
            return Some((start, end));
        }
    }
}

fn ascii_lower_code(c: char) -> (r: u32)
    ensures
        r == ascii_lower(c),
{
    if 'A' <= c && c <= 'Z' {
        (c as u32) + 32
    } else {
        c as u32
    }
}

/// Whether `a` equals `b[start..end]` up to ASCII case.
fn eq_ignore_ascii_case_range(a: &Vec<char>, b: &Vec<char>, start: usize, end: usize) -> (r: bool)
    requires
        start <= end <= b.len(),
    ensures
        r == eq_ignore_ascii_case(a@, b@.subrange(start as int, end as int)),
{
    if a.len() != end - start {
        return false;
    }
    let mut i: usize = 0;
    while i < a.len()
        invariant
            a.len() == end - start,
            start <= end <= b.len(),
            i <= a.len(),
            forall|k: int|
                0 <= k < i ==> ascii_lower(a@[k]) == ascii_lower(
                    b@.subrange(start as int, end as int)[k],
                ),
        decreases a.len() - i,
    {
        if ascii_lower_code(a[i]) != ascii_lower_code(b[start + i]) {
            assert(b@.subrange(start as int, end as int)[i as int] == b@[start + i]);
            return false;
        }
        i = i + 1;
    }
    true
}

fn is_star(s: &String) -> (r: bool)
    ensures
        r == (s@ == seq!['*']),
{
    let v = chars_of(s.as_str());
    if v.len() == 1 && v[0] == '*' {
        assert(v@ =~= seq!['*']);
        true
    } else {
        false
    }
}

impl FileFilter {
    pub fn new(name: &str, extensions: Vec<&str>) -> (f: FileFilter)
        ensures
            f.name@ == name@,
            f.extensions.len() == extensions.len(),
            forall|i: int| 0 <= i < extensions.len() ==> #[trigger] f.extensions[i]@ == extensions[i]@,
    {
        let mut exts: Vec<String> = Vec::new();
        let mut i: usize = 0;
        while i < extensions.len()
            invariant
                i <= extensions.len(),
                exts.len() == i,
                forall|k: int| 0 <= k < i ==> #[trigger] exts[k]@ == extensions[k]@,
            decreases extensions.len() - i,
        {
            exts.push(extensions[i].to_owned());
            i = i + 1;
        }
        FileFilter { name: name.to_owned(), extensions: exts }
    }

    /// Whether the file at `path` passes this filter.
    pub fn matches(&self, path: &str) -> (b: bool)
        ensures
            b == filter_matches(self.extensions@, path@),
    {
        let ghost exts = self.extensions@;
        if self.extensions.len() == 0 {
            return true;
        }
        let mut i: usize = 0;
        while i < self.extensions.len()
            invariant
                exts == self.extensions@,
                i <= self.extensions.len(),
                forall|k: int| 0 <= k < i ==> #[trigger] exts[k]@ != seq!['*'],
            decreases self.extensions.len() - i,
        {
            if is_star(&self.extensions[i]) {
                assert(exts[i as int]@ == seq!['*']);
                return true;
            }
            i = i + 1;
        }
        let p = chars_of(path);
        match file_name_range(&p) {
            None => false,
            Some((start, end)) => {
                let ghost n = p@.subrange(start as int, end as int);
                let found = find_last_in(&p, end, '.');
                let ghost k = find_last(p@.subrange(0, end as int), '.');
                // The name's last dot, shifted into the name's own indexing.
                assert(find_last(n, '.') == if k < start { -1 } else { k - start }) by {
                    lemma_find_last_suffix(p@.subrange(0, end as int), start as int, '.');
                    assert(p@.subrange(0, end as int).subrange(start as int, end as int) =~= n);
                }
                let ks = match found {
                    None => {
                        return false;
                    },
                    Some(kk) => {
                        if kk <= start {
                            return false;
                        }
                        kk + 1
                    },
                };
                assert(n.subrange(k - start + 1, n.len() as int) =~= p@.subrange(ks as int, end as int));
                let mut j: usize = 0;
                while j < self.extensions.len()
                    invariant
                        exts == self.extensions@,
                        j <= self.extensions.len(),
                        ks <= end <= p.len(),
                        extension(path@) == Some(p@.subrange(ks as int, end as int)),
                        forall|m: int| 0 <= m < j ==> !eq_ignore_ascii_case(
                            #[trigger] exts[m]@,
                            p@.subrange(ks as int, end as int),
                        ),
                    decreases self.extensions.len() - j,
                {
                    let e = chars_of(self.extensions[j].as_str());
                    if eq_ignore_ascii_case_range(&e, &p, ks, end) {
                        assert(exts[j as int]@ == e@);
                        return true;
                    }
                    j = j + 1;
                }
                false
            },
        }
    }
}

/// Where the last `c` of `s` lies relative to a suffix start `start`.
pub proof fn lemma_find_last_range(s: Seq<char>, c: char)
    ensures
        -1 <= find_last(s, c) < s.len(),
        find_last(s, c) >= 0 ==> s[find_last(s, c)] == c,
    decreases s.len(),
{
    if s.len() > 0 && s.last() != c {
        lemma_find_last_range(s.drop_last(), c);
    }
}

proof fn lemma_find_last_suffix(s: Seq<char>, start: int, c: char)
    requires
        0 <= start <= s.len(),
    ensures
        find_last(s.subrange(start, s.len() as int), c) == if find_last(s, c) < start {
            -1
        } else {
            find_last(s, c) - start
        },
        -1 <= find_last(s, c) < s.len(),
        find_last(s, c) >= 0 ==> s[find_last(s, c)] == c,
    decreases s.len(),
{
    if s.len() == 0 {
    } else if start == s.len() {
        lemma_find_last_suffix(s.drop_last(), 0, c);
        assert(s.subrange(start, s.len() as int).len() == 0);
        if s.last() != c {
            assert(s.drop_last().subrange(0, s.len() - 1) =~= s.drop_last());
        }
    } else {
        let t = s.subrange(start, s.len() as int);
        if s.last() == c {
            assert(t.last() == c);
        } else {
            assert(t.drop_last() =~= s.drop_last().subrange(start, s.len() - 1));
            lemma_find_last_suffix(s.drop_last(), start, c);
        }
    }
}

} // verus!

verus! {

// ----------------------------------------------------------------------
// File-name validation
// ----------------------------------------------------------------------

pub const ERR_EMPTY: &'static str = "Filename cannot be empty";

pub const ERR_TRAVERSAL: &'static str = "Filename cannot contain path traversal sequences (..)";

pub const ERR_SEPARATOR: &'static str = "Filename cannot contain path separators";

pub const ERR_NUL: &'static str = "Filename cannot contain null bytes";

pub const ERR_WHITESPACE: &'static str = "Filename cannot have leading or trailing whitespace";

pub const ERR_DOT: &'static str = "Filename cannot be just a dot";

pub const ERR_RESERVED_CHAR: &'static str = "Filename contains reserved characters";

pub const ERR_RESERVED_NAME: &'static str = "Filename uses a reserved system name";

/// Unicode `White_Space`, the set `char::is_whitespace` tests.
pub open spec fn is_unicode_whitespace(c: char) -> bool {
    ||| '\t' <= c <= '\r'
    ||| c == ' '
    ||| c == '\u{85}'
    ||| c == '\u{A0}'
    ||| c == '\u{1680}'
    ||| '\u{2000}' <= c <= '\u{200A}'
    ||| c == '\u{2028}'
    ||| c == '\u{2029}'
    ||| c == '\u{202F}'
    ||| c == '\u{205F}'
    ||| c == '\u{3000}'
}

pub open spec fn contains_char(s: Seq<char>, c: char) -> bool {
    exists|i: int| 0 <= i < s.len() && s[i] == c
}

pub open spec fn contains_double_dot(s: Seq<char>) -> bool {
    exists|i: int| 0 <= i < s.len() - 1 && #[trigger] s[i] == '.' && s[i + 1] == '.'
}

pub open spec fn is_reserved_char(c: char) -> bool {
    c == '<' || c == '>' || c == ':' || c == '"' || c == '|' || c == '?' || c == '*'
}

pub open spec fn contains_reserved_char(s: Seq<char>) -> bool {
    exists|i: int| 0 <= i < s.len() && is_reserved_char(#[trigger] s[i])
}

/// `CON`, `PRN`, `AUX`, `NUL`, `COM1`-`COM9` and `LPT1`-`LPT9`.
pub open spec fn is_reserved_name(s: Seq<char>) -> bool {
    ||| s == seq!['C', 'O', 'N']
    ||| s == seq!['P', 'R', 'N']
    ||| s == seq!['A', 'U', 'X']
    ||| s == seq!['N', 'U', 'L']
    ||| (s.len() == 4 && (s.take(3) == seq!['C', 'O', 'M'] || s.take(3) == seq!['L', 'P', 'T'])
        && '1' <= s[3] <= '9')
}

/// The part of `s` before its first `.`.
pub open spec fn before_first_dot(s: Seq<char>) -> Seq<char> {
    let k = find_first(s, '.');
    if k < 0 { s } else { s.take(k) }
}

/// The verdict on `name`, given `upper`, the name in upper case.
pub open spec fn filename_verdict(name: Seq<char>, upper: Seq<char>) -> Result<(), &'static str> {
    if name.len() == 0 {
        Err(ERR_EMPTY)
    } else if contains_double_dot(name) {
        Err(ERR_TRAVERSAL)
    } else if contains_char(name, '/') || contains_char(name, '\\') {
        Err(ERR_SEPARATOR)
    } else if contains_char(name, '\0') {
        Err(ERR_NUL)
    } else if is_unicode_whitespace(name[0]) || is_unicode_whitespace(name.last()) {
        Err(ERR_WHITESPACE)
    } else if name == seq!['.'] {
        Err(ERR_DOT)
    } else if contains_reserved_char(name) {
        Err(ERR_RESERVED_CHAR)
    } else if is_reserved_name(before_first_dot(upper)) {
        Err(ERR_RESERVED_NAME)
    } else {
        Ok(())
    }
}

/// What `str::to_uppercase` returns for a string (full Unicode case mapping).
pub uninterp spec fn unicode_uppercase(s: Seq<char>) -> Seq<char>;

/// Calls `str::to_uppercase`. Its result is named: it is the Unicode upper
/// case of the argument and depends on nothing else.
#[verifier::external_body]
fn to_uppercase(s: &str) -> (r: String)
    ensures
        r@ == unicode_uppercase(s@),
{
    s.to_uppercase()
}

pub fn is_whitespace(c: char) -> (b: bool)
    ensures
        b == is_unicode_whitespace(c),
{
    ('\t' <= c && c <= '\r') || c == ' ' || c == '\u{85}' || c == '\u{A0}' || c == '\u{1680}' || (
    '\u{2000}' <= c && c <= '\u{200A}') || c == '\u{2028}' || c == '\u{2029}' || c == '\u{202F}'
        || c == '\u{205F}' || c == '\u{3000}'
}

fn has_char(s: &Vec<char>, c: char) -> (b: bool)
    ensures
        b == contains_char(s@, c),
{
    let mut i: usize = 0;
    while i < s.len()
        invariant
            i <= s.len(),
            forall|k: int| 0 <= k < i ==> s@[k] != c,
        decreases s.len() - i,
    {
        if s[i] == c {
            return true;
        }
        i = i + 1;
    }
    false
}

fn has_double_dot(s: &Vec<char>) -> (b: bool)
    ensures
        b == contains_double_dot(s@),
{
    let mut i: usize = 0;
    while i < s.len()
        invariant
            i <= s.len(),
            forall|k: int| 0 <= k < i && k < s.len() - 1 ==> !(#[trigger] s@[k] == '.' && s@[k + 1] == '.'),
        decreases s.len() - i,
    {
        if i + 1 < s.len() && s[i] == '.' && s[i + 1] == '.' {
            return true;
        }
        i = i + 1;
    }
    false
}

fn has_reserved_char(s: &Vec<char>) -> (b: bool)
    ensures
        b == contains_reserved_char(s@),
{
    let mut i: usize = 0;
    while i < s.len()
        invariant
            i <= s.len(),
            forall|k: int| 0 <= k < i ==> !is_reserved_char(#[trigger] s@[k]),
        decreases s.len() - i,
    {
        let c = s[i];
        if c == '<' || c == '>' || c == ':' || c == '"' || c == '|' || c == '?' || c == '*' {
            return true;
        }
        i = i + 1;
    }
    false
}

proof fn lemma_find_first_char(s: Seq<char>, c: char, k: int)
    requires
        0 <= k <= s.len(),
        forall|j: int| 0 <= j < k ==> s[j] != c,
        k < s.len() ==> s[k] == c,
    ensures
        find_first(s, c) == if k < s.len() { k } else { -1 },
    decreases s.len(),
{
    if s.len() > 0 && k > 0 {
        let t = s.drop_first();
        assert forall|j: int| 0 <= j < k - 1 implies t[j] != c by {
            assert(t[j] == s[j + 1]);
        }
        if k < s.len() {
            assert(t[k - 1] == s[k]);
        }
        lemma_find_first_char(t, c, k - 1);
    }
}

fn find_first_in(s: &Vec<char>, c: char) -> (r: Option<usize>)
    ensures
        match r {
            Some(k) => k < s.len() && find_first(s@, c) == k,
            None => find_first(s@, c) == -1,
        },
{
    let mut i: usize = 0;
    while i < s.len()
        invariant
            i <= s.len(),
            forall|j: int| 0 <= j < i ==> s@[j] != c,
        decreases s.len() - i,
    {
        if s[i] == c {
            proof {
                lemma_find_first_char(s@, c, i as int);
            }
            return Some(i);
        }
        i = i + 1;
    }
    proof {
        lemma_find_first_char(s@, c, i as int);
    }
    None
}

fn reserved_name(s: &Vec<char>, end: usize) -> (b: bool)
    requires
        end <= s.len(),
    ensures
        b == is_reserved_name(s@.take(end as int)),
{
    let ghost t = s@.take(end as int);
    assert(t.len() == end);
    assert(seq!['C', 'O', 'N'].len() == 3 && seq!['P', 'R', 'N'].len() == 3);
    assert(seq!['A', 'U', 'X'].len() == 3 && seq!['N', 'U', 'L'].len() == 3);
    if end == 3 {
        let (a, b, c) = (s[0], s[1], s[2]);
        assert(t =~= seq![a, b, c]);
        assert(t[0] == a && t[1] == b && t[2] == c);
        (a == 'C' && b == 'O' && c == 'N') || (a == 'P' && b == 'R' && c == 'N') || (a == 'A' && b
            == 'U' && c == 'X') || (a == 'N' && b == 'U' && c == 'L')
    } else if end == 4 {
        let (a, b, c, d) = (s[0], s[1], s[2], s[3]);
        assert(t.take(3) =~= seq![a, b, c]);
        assert(t.take(3)[0] == a && t.take(3)[1] == b && t.take(3)[2] == c && t[3] == d);
        ((a == 'C' && b == 'O' && c == 'M') || (a == 'L' && b == 'P' && c == 'T')) && '1' <= d && d
            <= '9'
    } else {
        false
    }
}

/// Checks `filename` given `upper`, its upper-case form, against the
/// file-name rules.
pub fn check_filename(filename: &str, upper: &str) -> (r: Result<(), &'static str>)
    ensures
        r == filename_verdict(filename@, upper@),
{
    let name = chars_of(filename);
    if name.len() == 0 {
        return Err(ERR_EMPTY);
    }
    if has_double_dot(&name) {
        return Err(ERR_TRAVERSAL);
    }
    if has_char(&name, '/') || has_char(&name, '\\') {
        return Err(ERR_SEPARATOR);
    }
    if has_char(&name, '\0') {
        return Err(ERR_NUL);
    }
    if is_whitespace(name[0]) || is_whitespace(name[name.len() - 1]) {
        return Err(ERR_WHITESPACE);
    }
    if name.len() == 1 && name[0] == '.' {
        assert(name@ =~= seq!['.']);
        return Err(ERR_DOT);
    }
    assert(name@ != seq!['.']) by {
        if name@.len() == 1 {
            assert(name@[0] == name[0]);
        }
    }
    if has_reserved_char(&name) {
        return Err(ERR_RESERVED_CHAR);
    }
    let up = chars_of(upper);
    let end = match find_first_in(&up, '.') {
        Some(k) => k,
        None => up.len(),
    };
    assert(up@.take(end as int) == before_first_dot(up@)) by {
        if find_first(up@, '.') < 0 {
            assert(up@.take(end as int) =~= up@);
        }
    }
    if reserved_name(&up, end) {
        return Err(ERR_RESERVED_NAME);
    }
    Ok(())
}

/// Checks that `filename` is a safe, plain file name: non-empty, no `..`,
/// no path separators or NUL, no leading or trailing whitespace, not `.`,
/// none of `< > : " | ? *`, and not a reserved device name.
pub fn validate_filename(filename: &str) -> (r: Result<(), &'static str>)
    ensures
        r == filename_verdict(filename@, unicode_uppercase(filename@)),
{
    let upper = to_uppercase(filename);
    check_filename(filename, upper.as_str())
}

} // verus!

verus! {

// ----------------------------------------------------------------------
// File sizes
// ----------------------------------------------------------------------

pub open spec fn pow2(k: nat) -> nat
    decreases k,
{
    if k == 0 { 1 } else { 2 * pow2((k - 1) as nat) }
}

/// Number of binary digits of `n` (0 for 0).
pub open spec fn bit_len(n: nat) -> nat
    decreases n,
{
    if n == 0 { 0 } else { 1 + bit_len(n / 2) }
}

/// `q` rounded up by one when the discarded remainder `r` of divisor `d`
/// is above half, or exactly half and `q` is odd (round half to even).
pub open spec fn round_half_even(q: nat, r: nat, d: nat) -> nat {
    if 2 * r > d || (2 * r == d && q % 2 == 1) { q + 1 } else { q }
}

/// The value of `n as f64`: `n` rounded to 53 significant bits, ties to even.
pub open spec fn f64_value(n: nat) -> nat {
    if bit_len(n) <= 53 {
        n
    } else {
        let s = (bit_len(n) - 53) as nat;
        round_half_even(n / pow2(s), n % pow2(s), pow2(s)) * pow2(s)
    }
}

/// How many times a size `v` is divided by 1024 (at most 3: B, KB, MB, GB).
pub open spec fn size_unit(v: nat) -> nat {
    if v >= pow2(30) { 3 } else if v >= pow2(20) { 2 } else if v >= pow2(10) { 1 } else { 0 }
}

pub open spec fn unit_name(k: nat) -> Seq<char> {
    if k == 0 { seq!['B'] }
    else if k == 1 { seq!['K', 'B'] }
    else if k == 2 { seq!['M', 'B'] }
    else { seq!['G', 'B'] }
}

/// `v / 1024^k` in tenths, rounded to nearest with ties to even.
pub open spec fn size_tenths(v: nat, k: nat) -> nat {
    let d = pow2(10 * k);
    round_half_even((v * 10) / d, (v * 10) % d, d)
}

/// The text `format_file_size` produces: whole bytes below 1 KB, otherwise
/// one decimal in the largest unit up to GB.
pub open spec fn file_size_text(size: nat) -> Seq<char> {
    let v = f64_value(size);
    let k = size_unit(v);
    if k == 0 {
        decimal(v) + seq![' '] + unit_name(0)
    } else {
        let t = size_tenths(v, k);
        decimal(t / 10) + seq!['.'] + decimal(t % 10) + seq![' '] + unit_name(k)
    }
}

proof fn lemma_pow2_pos(k: nat)
    ensures
        pow2(k) >= 1,
    decreases k,
{
    if k > 0 {
        lemma_pow2_pos((k - 1) as nat);
    }
}

proof fn lemma_pow2_mono(a: nat, b: nat)
    requires
        a <= b,
    ensures
        pow2(a) <= pow2(b),
    decreases b,
{
    lemma_pow2_pos(b);
    if a < b {
        lemma_pow2_mono(a, (b - 1) as nat);
    }
}

proof fn lemma_bit_len_bound(n: nat)
    ensures
        n < pow2(bit_len(n)),
        n > 0 ==> pow2((bit_len(n) - 1) as nat) <= n,
    decreases n,
{
    if n > 0 {
        lemma_bit_len_bound(n / 2);
    }
}

fn bit_length(n: u64) -> (l: u32)
    ensures
        l == bit_len(n as nat),
        l <= 64,
{
    let mut m = n;
    let mut l: u32 = 0;
    proof {
        lemma_bit_len_bound(n as nat);
        reveal_with_fuel(pow2, 65);
    }
    while m > 0
        invariant
            bit_len(n as nat) == l + bit_len(m as nat),
            l <= 64,
            m < pow2((64 - l) as nat),
        decreases m,
    {
        assert(m / 2 < pow2((64 - l - 1) as nat)) by {
            assert(pow2((64 - l) as nat) == 2 * pow2((64 - l - 1) as nat));
        }
        m = m / 2;
        l = l + 1;
    }
    l
}

fn pow2_exec(k: u32) -> (p: u128)
    requires
        k <= 30,
    ensures
        p == pow2(k as nat),
        1 <= p <= 1073741824,
{
    let mut p: u128 = 1;
    let mut i: u32 = 0;
    proof {
        reveal_with_fuel(pow2, 31);
        assert(pow2(30) == 1073741824);
    }
    while i < k
        invariant
            i <= k <= 30,
            p == pow2(i as nat),
            pow2(30) == 1073741824,
        decreases k - i,
    {
        proof {
            lemma_pow2_mono(i as nat + 1, 30);
        }
        p = p * 2;
        i = i + 1;
    }
    proof {
        lemma_pow2_mono(k as nat, 30);
        lemma_pow2_pos(k as nat);
    }
    p
}

fn unit_text(k: u32) -> (s: &'static str)
    requires
        k <= 3,
    ensures
        s@ == unit_name(k as nat),
{
    proof {
        reveal_strlit("B");
        reveal_strlit("KB");
        reveal_strlit("MB");
        reveal_strlit("GB");
    }
    match k {
        0 => "B",
        1 => "KB",
        2 => "MB",
        _ => "GB",
    }
}

/// Formats a byte count as shown in the file list, e.g. `512 B` or `1.5 KB`.
pub fn format_file_size(size: u64) -> (s: String)
    ensures
        s@ == file_size_text(size as nat),
{
    proof {
        reveal_strlit(" ");
        reveal_strlit(".");
        lemma_pow2_pos(0);
    }
    // The value the size takes as a double.
    let bits = bit_length(size);
    let v: u128 = if bits <= 53 {
        size as u128
    } else {
        let sh = bits - 53;
        let p = pow2_exec(sh);
        let q = (size as u128) / p;
        let r = (size as u128) % p;
        let q2 = if 2 * r > p || (2 * r == p && q % 2 == 1) {
            q + 1
        } else {
            q
        };
        proof {
            lemma_bit_len_bound(size as nat);
            lemma_pow2_mono(sh as nat, 11);
            reveal_with_fuel(pow2, 12);
            assert(q <= size);
        }
        assert(q * p <= size) by (nonlinear_arith)
            requires
                p > 0,
                q == (size as u128) / p,
        {}
        assert(q2 * p <= (size as u128 + 1) * 2048) by (nonlinear_arith)
            requires
                q2 <= q + 1,
                q * p <= size,
                p <= 2048,
        {}
        q2 * p
    };
    assert(v == f64_value(size as nat));
    let k: u32 = if v >= pow2_exec(30) {
        3
    } else if v >= pow2_exec(20) {
        2
    } else if v >= pow2_exec(10) {
        1
    } else {
        0
    };
    let mut out = String::new();
    if k == 0 {
        push_decimal(&mut out, v);
        out.append(" ");
        out.append(unit_text(0));
    } else {
        let d = pow2_exec(10 * k);
        let q = (v * 10) / d;
        let r = (v * 10) % d;
        let t = if 2 * r > d || (2 * r == d && q % 2 == 1) {
            q + 1
        } else {
            q
        };
        push_decimal(&mut out, t / 10);
        out.append(".");
        push_decimal(&mut out, t % 10);
        out.append(" ");
        out.append(unit_text(k));
    }
    out
}


/// Where the parts of a file dialog go.
#[derive(Clone, Copy, Debug, PartialEq, Eq, Structural)]
pub struct FileDialogLayout {
    pub header: Rect,
    pub content: Rect,
    pub footer: Rect,
    pub breadcrumb: Rect,
    pub new_folder_button: Rect,
    pub file_list: Rect,
    /// Only in save mode.
    pub filename_input: Option<Rect>,
    pub filter_dropdown: Rect,
    pub cancel_button: Rect,
    pub ok_button: Rect,
}

/// The layout of a dialog in `r`: an 80-pixel header with the breadcrumb
/// and the new-folder button, a 50-pixel footer with the file-name field
/// (save mode only), the filter drop-down and the OK and Cancel buttons,
/// and the file list in between, all 10 pixels in.
pub open spec fn dialog_layout_spec(r: Rect, mode: FileDialogMode) -> FileDialogLayout {
    let save = mode == FileDialogMode::Save;
    let fy = r.y + r.height - 50;
    let row_y = fy + 10;
    let right = r.x + r.width;
    FileDialogLayout {
        header: Rect { x: r.x, y: r.y, width: r.width, height: 80 },
        content: Rect { x: r.x, y: (r.y + 80) as i32, width: r.width, height: (r.height - 130) as i32 },
        footer: Rect { x: r.x, y: fy as i32, width: r.width, height: 50 },
        breadcrumb: Rect { x: (r.x + 10) as i32, y: (r.y + 10) as i32, width: (r.width - 20) as i32, height: 30 },
        new_folder_button: Rect { x: (right - 110) as i32, y: (r.y + 45) as i32, width: 100, height: 30 },
        file_list: Rect {
            x: (r.x + 10) as i32,
            y: (r.y + 90) as i32,
            width: (r.width - 20) as i32,
            height: (r.height - 150) as i32,
        },
        filename_input: if save { Some(Rect { x: (r.x + 10) as i32, y: row_y as i32, width: 300, height: 30 }) } else { None },
        filter_dropdown: Rect { x: (r.x + 10 + if save { 310int } else { 0 }) as i32, y: row_y as i32, width: 150, height: 30 },
        cancel_button: Rect { x: (right - 90) as i32, y: row_y as i32, width: 80, height: 30 },
        ok_button: Rect { x: (right - 180) as i32, y: row_y as i32, width: 80, height: 30 },
    }
}

/// Every coordinate of the layout is an `i32`.
pub open spec fn dialog_layout_ok(r: Rect) -> bool {
    &&& fits_i32(r.x + r.width)
    &&& fits_i32(r.y + r.height)
    &&& fits_i32(r.x + 320)
    &&& fits_i32(r.x + r.width - 180)
    &&& fits_i32(r.y + 90)
    &&& fits_i32(r.y + r.height - 50)
    &&& fits_i32(r.width - 20)
    &&& fits_i32(r.height - 150)
}

/// Lays out a dialog of mode `mode` in `rect`; see [`dialog_layout_spec`].
pub fn dialog_layout(rect: Rect, mode: FileDialogMode) -> (l: FileDialogLayout)
    requires
        dialog_layout_ok(rect),
    ensures
        l == dialog_layout_spec(rect, mode),
{
    let padding: i32 = 10;
    let header_height: i32 = 80;
    let footer_height: i32 = 50;
    let save = match mode {
        FileDialogMode::Save => true,
        _ => false,
    };
    let header = Rect::new(rect.x, rect.y, rect.width, header_height);
    let footer = Rect::new(rect.x, rect.y + rect.height - footer_height, rect.width, footer_height);
    let content = Rect::new(rect.x, header.y + header.height, rect.width, rect.height - header_height - footer_height);
    let breadcrumb_height: i32 = 30;
    let breadcrumb = Rect::new(header.x + padding, header.y + padding, header.width - padding * 2, breadcrumb_height);
    let toolbar_y = header.y + padding + breadcrumb_height + 5;
    let new_folder_button = Rect::new(header.x + header.width - padding - 100, toolbar_y, 100, 30);
    let file_list = Rect::new(
        content.x + padding,
        content.y + padding,
        content.width - padding * 2,
        content.height - padding * 2,
    );
    let row_y = footer.y + (footer_height - 30) / 2;
    let filename_input = if save {
        Some(Rect::new(footer.x + padding, row_y, 300, 30))
    } else {
        None
    };
    let filter_dropdown = Rect::new(footer.x + padding + if save { 310 } else { 0 }, row_y, 150, 30);
    let cancel_button = Rect::new(footer.x + footer.width - padding - 80, row_y, 80, 30);
    let ok_button = Rect::new(footer.x + footer.width - padding - 80 * 2 - 10, row_y, 80, 30);
    FileDialogLayout {
        header,
        content,
        footer,
        breadcrumb,
        new_folder_button,
        file_list,
        filename_input,
        filter_dropdown,
        cancel_button,
        ok_button,
    }
}

/// The caption of the filter drop-down: the filter's name and its
/// extensions, joined by `, ` in brackets.
pub open spec fn filter_label_spec(name: Seq<char>, exts: Seq<Seq<char>>) -> Seq<char> {
    name + " ("@ + joined(exts, exts.len() as int) + ")"@
}

/// The first `k` of `exts` joined by `, `.
pub open spec fn joined(exts: Seq<Seq<char>>, k: int) -> Seq<char>
    decreases k,
{
    if k <= 0 {
        seq![]
    } else if k == 1 {
        exts[0]
    } else {
        joined(exts, k - 1) + ", "@ + exts[k - 1]
    }
}

impl FileFilter {
    /// See [`filter_label_spec`].
    pub fn label(&self) -> (s: String)
        ensures
            s@ == filter_label_spec(self.name@, self.extensions@.map_values(|e: String| e@)),
    {
        let ghost exts = self.extensions@.map_values(|e: String| e@);
        let mut s = self.name.clone();
        s.append(" (");
        let ghost base = s@;
        let mut i: usize = 0;
        while i < self.extensions.len()
            invariant
                exts == self.extensions@.map_values(|e: String| e@),
                i <= exts.len(),
                s@ == base + joined(exts, i as int),
            decreases exts.len() - i,
        {
            if i > 0 {
                s.append(", ");
            }
            s.append(self.extensions[i].as_str());
            assert(exts[i as int] == self.extensions@[i as int]@);
            i = i + 1;
            assert(s@ =~= base + joined(exts, i as int));
        }
        s.append(")");
        assert(s@ =~= filter_label_spec(self.name@, exts));
        s
    }
}

/// The row the file list shows for an entry: a folder or page symbol and
/// the name, and for a file its size in brackets.
pub open spec fn entry_text_spec(name: Seq<char>, is_dir: bool, size: nat) -> Seq<char> {
    if is_dir {
        "\u{1F4C1} "@ + name
    } else {
        "\u{1F4C4} "@ + name + " ("@ + file_size_text(size) + ")"@
    }
}

/// See [`entry_text_spec`].
pub fn entry_text(name: &str, is_dir: bool, size: u64) -> (s: String)
    ensures
        s@ == entry_text_spec(name@, is_dir, size as nat),
{
    if is_dir {
        let mut s = String::new();
        s.append("\u{1F4C1} ");
        s.append(name);
        s
    } else {
        let mut s = String::new();
        s.append("\u{1F4C4} ");
        s.append(name);
        s.append(" (");
        let size_text = format_file_size(size);
        s.append(size_text.as_str());
        s.append(")");
        s
    }
}

// ----------------------------------------------------------------------
// Directory listings
// ----------------------------------------------------------------------

/// One entry of a directory listing: its name, whether it is a folder, and
/// its size in bytes (0 for a folder).
pub struct FileEntry {
    pub name: String,
    pub is_dir: bool,
    pub size: u64,
}

/// Whether `a` comes strictly before `b` in the lexicographic order of
/// characters (the order of `str`'s comparison).
pub open spec fn text_less(a: Seq<char>, b: Seq<char>) -> bool
    decreases a.len(),
{
    if a.len() == 0 {
        b.len() > 0
    } else if b.len() == 0 {
        false
    } else if a[0] != b[0] {
        (a[0] as u32) < (b[0] as u32)
    } else {
        text_less(a.drop_first(), b.drop_first())
    }
}

/// Whether entry `a` is listed before entry `b`: folders before files,
/// then by lower-case name.
pub open spec fn listed_before(a: FileEntry, b: FileEntry) -> bool {
    ||| a.is_dir && !b.is_dir
    ||| a.is_dir == b.is_dir && text_less(
        unicode_lowercase(a.name@),
        unicode_lowercase(b.name@),
    )
}

/// The first position from `i` on in `t` whose entry `e` is listed before.
pub open spec fn insert_position(t: Seq<FileEntry>, e: FileEntry, i: int) -> int
    decreases t.len() - i,
{
    if i < 0 || i >= t.len() {
        t.len() as int
    } else if listed_before(e, t[i]) {
        i
    } else {
        insert_position(t, e, i + 1)
    }
}

/// The first `k` entries of `s` in list order, each entry placed after
/// every earlier one it is not listed before (so entries that rank alike
/// keep their order).
pub open spec fn listing_upto(s: Seq<FileEntry>, k: int) -> Seq<FileEntry>
    decreases k,
{
    if k <= 0 {
        Seq::empty()
    } else {
        let t = listing_upto(s, k - 1);
        t.insert(insert_position(t, s[k - 1], 0), s[k - 1])
    }
}

/// The entries of `s` in list order.
pub open spec fn listing(s: Seq<FileEntry>) -> Seq<FileEntry> {
    listing_upto(s, s.len() as int)
}

/// Whether the list shows an entry named `name`: hidden names (starting
/// with `.`) only when asked to, and files only when the filter passes them
/// (every file when selecting a folder).
pub open spec fn entry_shown(
    name: Seq<char>,
    is_dir: bool,
    show_hidden: bool,
    mode: FileDialogMode,
    exts: Seq<String>,
) -> bool {
    &&& (show_hidden || name.len() == 0 || name[0] != '.')
    &&& (is_dir || mode == FileDialogMode::SelectFolder || filter_matches(exts, name))
}

proof fn lemma_text_less_irreflexive(a: Seq<char>)
    ensures
        !text_less(a, a),
    decreases a.len(),
{
    if a.len() > 0 {
        lemma_text_less_irreflexive(a.drop_first());
    }
}

proof fn lemma_text_less_asymmetric(a: Seq<char>, b: Seq<char>)
    requires
        text_less(a, b),
    ensures
        !text_less(b, a),
    decreases a.len(),
{
    if a.len() > 0 && b.len() > 0 && a[0] == b[0] {
        lemma_text_less_asymmetric(a.drop_first(), b.drop_first());
    }
}

proof fn lemma_text_less_transitive(a: Seq<char>, b: Seq<char>, c: Seq<char>)
    requires
        text_less(a, b),
        text_less(b, c),
    ensures
        text_less(a, c),
    decreases a.len(),
{
    if a.len() > 0 && b.len() > 0 && c.len() > 0 && a[0] == b[0] && b[0] == c[0] {
        lemma_text_less_transitive(a.drop_first(), b.drop_first(), c.drop_first());
    }
}

proof fn lemma_listed_before_order(a: FileEntry, b: FileEntry, c: FileEntry)
    ensures
        !listed_before(a, a),
        listed_before(a, b) ==> !listed_before(b, a),
        listed_before(a, b) && listed_before(b, c) ==> listed_before(a, c),
{
    let la = unicode_lowercase(a.name@);
    let lb = unicode_lowercase(b.name@);
    let lc = unicode_lowercase(c.name@);
    lemma_text_less_irreflexive(la);
    if text_less(la, lb) {
        lemma_text_less_asymmetric(la, lb);
        if text_less(lb, lc) {
            lemma_text_less_transitive(la, lb, lc);
        }
    }
}

proof fn lemma_insert_position(t: Seq<FileEntry>, e: FileEntry, i: int)
    requires
        0 <= i <= t.len(),
    ensures
        i <= insert_position(t, e, i) <= t.len(),
        forall|k: int| i <= k < insert_position(t, e, i) ==> !listed_before(e, #[trigger] t[k]),
        insert_position(t, e, i) < t.len() ==> listed_before(e, t[insert_position(t, e, i)]),
    decreases t.len() - i,
{
    if i < t.len() && !listed_before(e, t[i]) {
        lemma_insert_position(t, e, i + 1);
    }
}

/// No entry of a sequence is listed before an entry that precedes it.
pub open spec fn in_list_order(t: Seq<FileEntry>) -> bool {
    forall|i: int, j: int| 0 <= i < j < t.len() ==> !listed_before(#[trigger] t[j], #[trigger] t[i])
}

proof fn lemma_listing_upto(s: Seq<FileEntry>, k: int)
    requires
        0 <= k <= s.len(),
    ensures
        listing_upto(s, k).len() == k,
        in_list_order(listing_upto(s, k)),
        listing_upto(s, k).to_multiset() == s.take(k).to_multiset(),
    decreases k,
{
    broadcast use vstd::seq_lib::to_multiset_insert, vstd::seq_lib::to_multiset_build;

    if k == 0 {
        assert(s.take(0) =~= Seq::<FileEntry>::empty());
    } else {
        lemma_listing_upto(s, k - 1);
        let t = listing_upto(s, k - 1);
        let e = s[k - 1];
        let p = insert_position(t, e, 0);
        lemma_insert_position(t, e, 0);
        let r = t.insert(p, e);
        t.insert_ensures(p, e);
        assert(r == listing_upto(s, k));
        assert forall|i: int, j: int| 0 <= i < j < r.len() implies !listed_before(#[trigger] r[j], #[trigger] r[i]) by {
            lemma_listed_before_order(r[i], r[j], e);
            if j < p {
                assert(r[i] == t[i] && r[j] == t[j]);
            } else if j == p {
                assert(r[i] == t[i]);
                lemma_listed_before_order(e, t[i], e);
            } else if i > p {
                assert(r[i] == t[i - 1] && r[j] == t[j - 1]);
            } else if i == p {
                assert(r[j] == t[j - 1]);
                lemma_listed_before_order(t[j - 1], e, t[p]);
                lemma_listed_before_order(e, t[p], e);
                if p < j - 1 {
                    lemma_listed_before_order(t[j - 1], e, t[p]);
                }
            } else {
                assert(r[i] == t[i] && r[j] == t[j - 1]);
            }
        }
        assert(s.take(k) =~= s.take(k - 1).push(e));
    }
}

/// A listing is in list order: folders first, then by lower-case name.
pub proof fn law_listing_in_order(s: Seq<FileEntry>)
    ensures
        in_list_order(listing(s)),
{
    lemma_listing_upto(s, s.len() as int);
}

/// A listing holds exactly the entries it was made from.
pub proof fn law_listing_permutes(s: Seq<FileEntry>)
    ensures
        listing(s).to_multiset() == s.to_multiset(),
{
    lemma_listing_upto(s, s.len() as int);
    assert(s.take(s.len() as int) =~= s);
}

fn text_less_exec(a: &Vec<char>, b: &Vec<char>) -> (r: bool)
    ensures
        r == text_less(a@, b@),
{
    let mut i: usize = 0;
    assert(a@.skip(0) =~= a@ && b@.skip(0) =~= b@);
    while i < a.len() && i < b.len()
        invariant
            i <= a.len(),
            i <= b.len(),
            text_less(a@, b@) == text_less(a@.skip(i as int), b@.skip(i as int)),
        decreases a.len() - i,
    {
        if a[i] != b[i] {
            return (a[i] as u32) < (b[i] as u32);
        }
        assert(a@.skip(i as int).drop_first() =~= a@.skip(i + 1));
        assert(b@.skip(i as int).drop_first() =~= b@.skip(i + 1));
        i = i + 1;
    }
    i == a.len() && i < b.len()
}

/// Whether the list shows an entry; see [`entry_shown`].
pub fn is_entry_shown(name: &str, is_dir: bool, show_hidden: bool, mode: FileDialogMode, filter: &FileFilter) -> (b: bool)
    ensures
        b == entry_shown(name@, is_dir, show_hidden, mode, filter.extensions@),
{
    let cs = chars_of(name);
    if !show_hidden && cs.len() > 0 && cs[0] == '.' {
        return false;
    }
    let select_folder = match mode {
        FileDialogMode::SelectFolder => true,
        _ => false,
    };
    is_dir || select_folder || filter.matches(name)
}

/// Puts the entries in list order; see [`listing`].
pub fn sort_entries(entries: Vec<FileEntry>) -> (r: Vec<FileEntry>)
    ensures
        r@ == listing(entries@),
{
    let ghost s = entries@;
    let total = entries.len();
    let mut rest = entries;
    let mut out: Vec<FileEntry> = Vec::new();
    let mut keys: Vec<Vec<char>> = Vec::new();
    let mut k: usize = 0;
    while rest.len() > 0
        invariant
            k <= s.len(),
            s.len() == total,
            rest@ == s.skip(k as int),
            out@ == listing_upto(s, k as int),
            keys.len() == out.len(),
            forall|i: int| 0 <= i < keys.len() ==> #[trigger] keys@[i]@ == unicode_lowercase(out@[i].name@),
        decreases rest.len(),
    {
        assert(k < s.len()) by {
            assert(s.skip(k as int).len() == s.len() - k);
        }
        let e = rest.remove(0);
        assert(e == s[k as int]);
        let lower = to_lowercase(e.name.as_str());
        let key = chars_of(lower.as_str());
        let ghost t = out@;
        let mut p: usize = 0;
        let mut found = false;
        while !found && p < out.len()
            invariant
                t == out@,
                keys.len() == out.len(),
                forall|i: int| 0 <= i < keys.len() ==> #[trigger] keys@[i]@ == unicode_lowercase(out@[i].name@),
                key@ == unicode_lowercase(e.name@),
                p <= out.len(),
                insert_position(t, e, 0) == insert_position(t, e, p as int),
                found ==> p < out.len() && listed_before(e, t[p as int]),
            decreases out.len() - p + (if found { 0int } else { 1int }),
        {
            let other = &out[p];
            let before = (e.is_dir && !other.is_dir) || (e.is_dir == other.is_dir && text_less_exec(&key, &keys[p]));
            if before {
                found = true;
            } else {
                p = p + 1;
            }
        }
        assert(insert_position(t, e, 0) == p);
        out.insert(p, e);
        keys.insert(p, key);
        assert forall|i: int| 0 <= i < keys.len() implies #[trigger] keys@[i]@ == unicode_lowercase(out@[i].name@) by {
            if i > p as int {
                assert(keys@[i] == keys@[i - 1 + 1]);
            }
        }
        assert(s.skip(k as int).drop_first() =~= s.skip(k + 1));
        assert(out@ == listing_upto(s, k + 1));
        k = k + 1;
    }
    assert(k == s.len());
    out
}

/// The name a save dialog writes to for the typed `filename`, or `None`
/// when the name is refused (see [`validate_filename`]). A name without an
/// extension gets the first extension of the selected filter, unless that
/// is `*`, empty, or there is no such filter.
pub open spec fn save_name_spec(filename: Seq<char>, exts: Option<Seq<String>>) -> Option<Seq<char>> {
    if !(filename_verdict(filename, unicode_uppercase(filename)) is Ok) {
        None
    } else {
        match exts {
            Some(x) => if extension(filename) is None && x.len() > 0 && x[0]@ != seq!['*'] && x[0]@.len() > 0 {
                Some(filename + seq!['.'] + x[0]@)
            } else {
                Some(filename)
            },
            None => Some(filename),
        }
    }
}

/// The extension of `path` (see [`extension`]).
pub fn path_extension(path: &str) -> (r: Option<String>)
    ensures
        match extension(path@) {
            Some(x) => r matches Some(s) && s@ == x,
            None => r is None,
        },
{
    let p = chars_of(path);
    match file_name_range(&p) {
        None => None,
        Some((start, end)) => {
            let ghost n = p@.subrange(start as int, end as int);
            let found = find_last_in(&p, end, '.');
            let ghost k = find_last(p@.subrange(0, end as int), '.');
            assert(find_last(n, '.') == if k < start { -1 } else { k - start }) by {
                lemma_find_last_suffix(p@.subrange(0, end as int), start as int, '.');
                assert(p@.subrange(0, end as int).subrange(start as int, end as int) =~= n);
            }
            match found {
                None => None,
                Some(kk) => {
                    if kk <= start {
                        None
                    } else {
                        let mut out: Vec<char> = Vec::new();
                        let mut i = kk + 1;
                        while i < end
                            invariant
                                kk < i <= end <= p.len(),
                                out@ == p@.subrange(kk + 1, i as int),
                            decreases end - i,
                        {
                            out.push(p[i]);
                            assert(out@ =~= p@.subrange(kk + 1, i + 1));
                            i = i + 1;
                        }
                        assert(n.subrange(k - start + 1, n.len() as int) =~= p@.subrange(kk + 1, end as int));
                        Some(crate::text::string_of(&out))
                    }
                },
            }
        },
    }
}

/// Whether `path` has an extension (see [`extension`]).
fn has_extension(path: &str) -> (b: bool)
    ensures
        b == extension(path@) is Some,
{
    let p = chars_of(path);
    match file_name_range(&p) {
        None => false,
        Some((start, end)) => {
            let ghost n = p@.subrange(start as int, end as int);
            let found = find_last_in(&p, end, '.');
            let ghost k = find_last(p@.subrange(0, end as int), '.');
            assert(find_last(n, '.') == if k < start { -1 } else { k - start }) by {
                lemma_find_last_suffix(p@.subrange(0, end as int), start as int, '.');
                assert(p@.subrange(0, end as int).subrange(start as int, end as int) =~= n);
            }
            match found {
                None => false,
                Some(kk) => kk > start,
            }
        },
    }
}

/// See [`save_name_spec`]; `selected` picks the filter from `filters`.
pub fn save_file_name(filename: &str, filters: &Vec<FileFilter>, selected: usize) -> (r: Option<String>)
    requires
        selected < filters.len() && filters@[selected as int].extensions.len() > 0 ==> !filters@[selected as int].extensions@[0]@.contains('/'),
    ensures
        match save_name_spec(filename@, if selected < filters.len() { Some(filters@[selected as int].extensions@) } else { None }) {
            Some(n) => r matches Some(s) && s@ == n,
            None => r is None,
        },
{
    match validate_filename(filename) {
        Ok(()) => {},
        Err(_) => {
            return None;
        },
    }
    let mut name = filename.to_owned();
    if selected < filters.len() {
        let f = &filters[selected];
        assert(f.extensions@ == filters@[selected as int].extensions@);
        if f.extensions.len() > 0 && !has_extension(filename) {
            let first = f.extensions[0].as_str();
            assert(first@ == filters@[selected as int].extensions@[0]@);
            let star = is_star(&f.extensions[0]);
            proof {
                reveal_strlit(".");
            }
            if !star && first.unicode_len() > 0 {
                name.append(".");
                name.append(first);
                assert(name@ =~= filename@ + seq!['.'] + first@);
            }
        }
    }
    Some(name)
}

// ----------------------------------------------------------------------
// The dialog's reaction to an event
// ----------------------------------------------------------------------

/// A row of the file list: the full path it stands for (the row's id) and
/// whether it is a folder.
pub struct ListedFile {
    pub path: String,
    pub is_dir: bool,
}

/// What the dialog decides from, between two events: its mode, the file
/// it holds as selected, the text of the file-name field, where its parts
/// lie and which of them has the keyboard focus.
pub struct FileDialogState {
    pub enabled: bool,
    pub visible: bool,
    pub mode: FileDialogMode,
    pub selected_file: Option<String>,
    pub filename_text: String,
    pub file_list_bounds: Rect,
    pub ok_bounds: Rect,
    pub cancel_bounds: Rect,
    pub new_folder_bounds: Rect,
    pub filename_focused: bool,
    pub file_list_focused: bool,
}

/// The mathematical content of a [`FileDialogState`].
pub struct DialogView {
    pub enabled: bool,
    pub visible: bool,
    pub mode: FileDialogMode,
    pub selected_file: Option<Seq<char>>,
    pub filename_text: Seq<char>,
    pub file_list_bounds: Rect,
    pub ok_bounds: Rect,
    pub cancel_bounds: Rect,
    pub new_folder_bounds: Rect,
    pub filename_focused: bool,
    pub file_list_focused: bool,
}

impl FileDialogState {
    pub open spec fn view(&self) -> DialogView {
        DialogView {
            enabled: self.enabled,
            visible: self.visible,
            mode: self.mode,
            selected_file: match self.selected_file { Some(f) => Some(f@), None => None },
            filename_text: self.filename_text@,
            file_list_bounds: self.file_list_bounds,
            ok_bounds: self.ok_bounds,
            cancel_bounds: self.cancel_bounds,
            new_folder_bounds: self.new_folder_bounds,
            filename_focused: self.filename_focused,
            file_list_focused: self.file_list_focused,
        }
    }
}

/// How the dialog's parts took the event (each was handed it first, the
/// file-name field only matters in a save dialog), the id of the row the
/// file list selects afterwards, and how many components the path bar
/// shows.
pub struct ChildResults {
    pub breadcrumb: EventResult,
    pub file_list: EventResult,
    pub filename: EventResult,
    pub new_folder: EventResult,
    pub ok: EventResult,
    pub cancel: EventResult,
    pub selected_item: Option<String>,
    pub crumb_count: usize,
}

/// What the host is asked to do after an event.
pub enum FileDialogAction {
    Nothing,
    /// Open this folder, if it exists.
    OpenFolder(String),
    /// Open the folder that the path bar's components make up.
    OpenCrumbs,
    /// Do what OK does in the dialog's mode.
    Confirm,
    /// Close the dialog without a choice.
    Cancel,
}

/// The mathematical content of a [`FileDialogAction`].
pub enum DialogAction {
    Nothing,
    OpenFolder(Seq<char>),
    OpenCrumbs,
    Confirm,
    Cancel,
}

pub open spec fn action_view(a: FileDialogAction) -> DialogAction {
    match a {
        FileDialogAction::Nothing => DialogAction::Nothing,
        FileDialogAction::OpenFolder(p) => DialogAction::OpenFolder(p@),
        FileDialogAction::OpenCrumbs => DialogAction::OpenCrumbs,
        FileDialogAction::Confirm => DialogAction::Confirm,
        FileDialogAction::Cancel => DialogAction::Cancel,
    }
}

/// The first index from `k` on of a row with path `id`, `-1` if none.
pub open spec fn row_index(es: Seq<ListedFile>, id: Seq<char>, k: int) -> int
    decreases es.len() - k,
{
    if k < 0 || k >= es.len() {
        -1
    } else if es[k].path@ == id {
        k
    } else {
        row_index(es, id, k + 1)
    }
}

/// The row the selected item stands for: the first with its path, or the
/// first row when no row has it; none without a selection or rows.
pub open spec fn picked_row(es: Seq<ListedFile>, item: Option<Seq<char>>) -> Option<int> {
    match item {
        None => None,
        Some(id) => {
            let i = row_index(es, id, 0);
            let j = if i < 0 { 0 } else { i };
            if j < es.len() { Some(j) } else { None }
        },
    }
}

/// The dialog after the file list's selection is taken over: a selected
/// file becomes the dialog's file and its name fills the file-name field.
pub open spec fn after_pick(s: DialogView, es: Seq<ListedFile>, item: Option<Seq<char>>) -> DialogView {
    match picked_row(es, item) {
        Some(j) => if es[j].is_dir {
            s
        } else {
            DialogView {
                selected_file: Some(es[j].path@),
                filename_text: match file_name(es[j].path@) { Some(n) => n, None => s.filename_text },
                ..s
            }
        },
        None => s,
    }
}

/// The dialog's step: from its state, the event, how its parts took it
/// and the rows of the list, the new state, whether the event was
/// consumed, and what the host is to do. A disabled or hidden dialog
/// ignores everything. A press on the list opens the picked folder, or in
/// an open dialog confirms the picked file; a release on OK confirms, on
/// Cancel cancels, on New Folder does nothing; Enter in the name field or
/// the list confirms and Escape cancels. Otherwise a path-bar click opens
/// the folder it shows, and the event is consumed if a part consumed it.
pub open spec fn dialog_step_spec(s: DialogView, ev: Event, ch: ChildResults, es: Seq<ListedFile>) -> (DialogView, EventResult, DialogAction) {
    if !s.enabled || !s.visible {
        (s, EventResult::Ignored, DialogAction::Nothing)
    } else {
        let item = match ch.selected_item { Some(x) => Some(x@), None => None };
        let s1 = after_pick(s, es, item);
        let picked = picked_row(es, item);
        let filename_r = if s.mode == FileDialogMode::Save { ch.filename } else { EventResult::Ignored };
        let rest = if ch.breadcrumb == EventResult::Consumed {
            (s1, EventResult::Consumed, if ch.crumb_count > 0 { DialogAction::OpenCrumbs } else { DialogAction::Nothing })
        } else if ch.file_list == EventResult::Consumed || filename_r == EventResult::Consumed
            || ch.new_folder == EventResult::Consumed || ch.ok == EventResult::Consumed
            || ch.cancel == EventResult::Consumed {
            (s1, EventResult::Consumed, DialogAction::Nothing)
        } else {
            (s1, EventResult::Ignored, DialogAction::Nothing)
        };
        match ev {
            Event::MouseButton(m) => if m.button != MouseButton::Left {
                rest
            } else if m.pressed {
                match picked {
                    Some(j) => if !s.file_list_bounds.contains_spec(m.position) {
                        rest
                    } else if es[j].is_dir {
                        (s1, EventResult::Consumed, DialogAction::OpenFolder(es[j].path@))
                    } else if s.mode == FileDialogMode::Open {
                        (s1, EventResult::Consumed, DialogAction::Confirm)
                    } else {
                        rest
                    },
                    None => rest,
                }
            } else if s.ok_bounds.contains_spec(m.position) {
                (s1, EventResult::Consumed, DialogAction::Confirm)
            } else if s.cancel_bounds.contains_spec(m.position) {
                (s1, EventResult::Consumed, DialogAction::Cancel)
            } else if s.new_folder_bounds.contains_spec(m.position) {
                (s1, EventResult::Consumed, DialogAction::Nothing)
            } else {
                rest
            },
            Event::KeyPress(k) => match k.key {
                Key::Enter => if s.filename_focused || s.file_list_focused {
                    (s1, EventResult::Consumed, DialogAction::Confirm)
                } else {
                    rest
                },
                Key::Escape => (s1, EventResult::Consumed, DialogAction::Cancel),
                _ => rest,
            },
            _ => rest,
        }
    }
}

/// The file name of `path` (see [`file_name`]).
fn file_name_of(path: &str) -> (r: Option<String>)
    ensures
        match file_name(path@) {
            Some(n) => r matches Some(x) && x@ == n,
            None => r is None,
        },
{
    let p = chars_of(path);
    match file_name_range(&p) {
        None => None,
        Some((a, b)) => {
            let mut out: Vec<char> = Vec::new();
            let mut i = a;
            while i < b
                invariant
                    a <= i <= b <= p.len(),
                    out@ == p@.subrange(a as int, i as int),
                decreases b - i,
            {
                out.push(p[i]);
                assert(out@ =~= p@.subrange(a as int, i + 1));
                i = i + 1;
            }
            Some(crate::text::string_of(&out))
        },
    }
}

/// The row the selected item stands for; see [`picked_row`].
fn find_picked_row(entries: &Vec<ListedFile>, item: &Option<String>) -> (r: Option<usize>)
    ensures
        r == (match picked_row(entries@, match item { Some(x) => Some(x@), None => None }) {
            Some(j) => Some(j as usize),
            None => None,
        }),
        r matches Some(j) ==> j < entries.len(),
{
    match item {
        None => None,
        Some(id) => {
            let ghost es = entries@;
            let mut k: usize = 0;
            let mut found: Option<usize> = None;
            while k < entries.len() && found.is_none()
                invariant
                    es == entries@,
                    k <= es.len(),
                    found is None ==> row_index(es, id@, 0) == row_index(es, id@, k as int),
                    found matches Some(f) ==> f < es.len() && row_index(es, id@, 0) == f,
                decreases es.len() - k + (if found is None { 1int } else { 0int }),
            {
                if crate::text::same_text(entries[k].path.as_str(), id.as_str()) {
                    found = Some(k);
                } else {
                    k = k + 1;
                }
            }
            let j = match found { Some(f) => f, None => 0 };
            if j < entries.len() { Some(j) } else { None }
        },
    }
}

/// One event for the dialog: see [`dialog_step_spec`]. The host hands
/// the event to the dialog's parts first, and only while the dialog is
/// enabled and visible.
pub fn file_dialog_step(state: &mut FileDialogState, event: &Event, children: &ChildResults, entries: &Vec<ListedFile>)
    -> (r: (EventResult, FileDialogAction))
    ensures
        ({
            let (v, res, act) = dialog_step_spec(old(state).view(), *event, *children, entries@);
            final(state).view() == v && r.0 == res && action_view(r.1) == act
        }),
{
    if !state.enabled || !state.visible {
        return (EventResult::Ignored, FileDialogAction::Nothing);
    }
    let ghost s0 = state.view();
    let picked = find_picked_row(entries, &children.selected_item);
    match picked {
        Some(j) => {
            if !entries[j].is_dir {
                state.selected_file = Some(entries[j].path.clone());
                match file_name_of(entries[j].path.as_str()) {
                    Some(n) => {
                        state.filename_text = n;
                    },
                    None => {},
                }
            }
        },
        None => {},
    }
    let filename_r = if state.mode == FileDialogMode::Save { children.filename } else { EventResult::Ignored };
    let rest = if children.breadcrumb.is_consumed() {
        (EventResult::Consumed, if children.crumb_count > 0 { FileDialogAction::OpenCrumbs } else { FileDialogAction::Nothing })
    } else if children.file_list.is_consumed() || filename_r.is_consumed() || children.new_folder.is_consumed()
        || children.ok.is_consumed() || children.cancel.is_consumed() {
        (EventResult::Consumed, FileDialogAction::Nothing)
    } else {
        (EventResult::Ignored, FileDialogAction::Nothing)
    };
    match event {
        Event::MouseButton(m) => {
            if m.button != MouseButton::Left {
                rest
            } else if m.pressed {
                match picked {
                    Some(j) => {
                        if !state.file_list_bounds.contains(m.position) {
                            rest
                        } else if entries[j].is_dir {
                            (EventResult::Consumed, FileDialogAction::OpenFolder(entries[j].path.clone()))
                        } else if state.mode == FileDialogMode::Open {
                            (EventResult::Consumed, FileDialogAction::Confirm)
                        } else {
                            rest
                        }
                    },
                    None => rest,
                }
            } else if state.ok_bounds.contains(m.position) {
                (EventResult::Consumed, FileDialogAction::Confirm)
            } else if state.cancel_bounds.contains(m.position) {
                (EventResult::Consumed, FileDialogAction::Cancel)
            } else if state.new_folder_bounds.contains(m.position) {
                (EventResult::Consumed, FileDialogAction::Nothing)
            } else {
                rest
            }
        },
        Event::KeyPress(k) => match k.key {
            Key::Enter => {
                if state.filename_focused || state.file_list_focused {
                    (EventResult::Consumed, FileDialogAction::Confirm)
                } else {
                    rest
                }
            },
            Key::Escape => (EventResult::Consumed, FileDialogAction::Cancel),
            _ => rest,
        },
        _ => rest,
    }
}

} // verus!
