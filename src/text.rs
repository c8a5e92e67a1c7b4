use vstd::prelude::*;

verus! {

/// Characters with the Unicode `White_Space` property.
pub open spec fn is_ws(c: char) -> bool {
    c == '\t' || c == '\n' || c == '\x0B' || c == '\x0C' || c == '\r' || c == ' ' || c
        == '\u{85}' || c == '\u{A0}' || c == '\u{1680}' || ('\u{2000}' <= c && c <= '\u{200A}')
        || c == '\u{2028}' || c == '\u{2029}' || c == '\u{202F}' || c == '\u{205F}' || c
        == '\u{3000}'
}

/// The first position at or after `i` that does not hold whitespace.
pub open spec fn skip_ws(s: Seq<char>, i: int) -> int
    decreases s.len() - i,
{
    if 0 <= i < s.len() && is_ws(s[i]) {
        skip_ws(s, i + 1)
    } else {
        i
    }
}

/// The first position at or after `i` that holds whitespace, or the end.
pub open spec fn skip_token(s: Seq<char>, i: int) -> int
    decreases s.len() - i,
{
    if 0 <= i < s.len() && !is_ws(s[i]) {
        skip_token(s, i + 1)
    } else {
        i
    }
}

/// The first whitespace-delimited token of `s`, if it has one.
pub open spec fn first_token(s: Seq<char>) -> Option<Seq<char>> {
    let a = skip_ws(s, 0);
    if a < s.len() {
        Some(s.subrange(a, skip_token(s, a)))
    } else {
        None
    }
}

/// The uppercase form of a character: ASCII letters `a..=z` become `A..=Z`,
/// every other character is kept.
pub open spec fn ascii_upper(c: char) -> char {
    if 'a' <= c && c <= 'z' {
        ((c as u32 - 32) as u8) as char
    } else {
        c
    }
}

pub open spec fn upper_seq(s: Seq<char>) -> Seq<char> {
    s.map_values(|c: char| ascii_upper(c))
}

pub open spec fn ends_with(s: Seq<char>, suffix: Seq<char>) -> bool {
    suffix.len() <= s.len() && s.subrange(s.len() - suffix.len(), s.len() as int) == suffix
}

/// Where the last path component of `s` starts: just after its last `/`.
pub open spec fn base_start(s: Seq<char>) -> int
    decreases s.len(),
{
    if s.len() == 0 {
        0
    } else if s.last() == '/' {
        s.len() as int
    } else {
        base_start(s.drop_last())
    }
}

/// The characters after the last `/` of a path.
pub open spec fn base_of(s: Seq<char>) -> Seq<char> {
    s.subrange(base_start(s), s.len() as int)
}

/// The length of `s` once trailing `/` separators and trailing `.` components
/// (a `.` right after a `/`) are taken off, as path parsing skips them.
pub open spec fn trim_len(s: Seq<char>) -> int
    decreases s.len(),
{
    if s.len() == 0 {
        0
    } else if s.last() == '/' {
        trim_len(s.drop_last())
    } else if s.last() == '.' && s.len() >= 2 && s[s.len() - 2] == '/' {
        trim_len(s.drop_last())
    } else {
        s.len() as int
    }
}

/// The file name of a path: its last normal component once trailing `/` and `.`
/// parts are skipped; none when that component is empty, `.` or `..`.
pub open spec fn file_name_of(s: Seq<char>) -> Option<Seq<char>> {
    let b = base_of(s.subrange(0, trim_len(s)));
    if b.len() == 0 || b == seq!['.'] || b == seq!['.', '.'] {
        None
    } else {
        Some(b)
    }
}

pub fn is_ws_char(c: char) -> (r: bool)
    ensures
        r == is_ws(c),
{
    c == '\t' || c == '\n' || c == '\x0B' || c == '\x0C' || c == '\r' || c == ' ' || c
        == '\u{85}' || c == '\u{A0}' || c == '\u{1680}' || ('\u{2000}' <= c && c <= '\u{200A}')
        || c == '\u{2028}' || c == '\u{2029}' || c == '\u{202F}' || c == '\u{205F}' || c
        == '\u{3000}'
}

pub fn upper_char(c: char) -> (r: char)
    ensures
        r == ascii_upper(c),
{
    if 'a' <= c && c <= 'z' {
        ((c as u32 - 32) as u8) as char
    } else {
        c
    }
}

/// Copies `s[lo..hi]`.
pub fn copy_range(s: &[char], lo: usize, hi: usize) -> (r: Vec<char>)
    requires
        lo <= hi <= s@.len(),
    ensures
        r@ == s@.subrange(lo as int, hi as int),
{
    let mut r: Vec<char> = Vec::new();
    let mut k: usize = lo;
    while k < hi
        invariant
            lo <= k <= hi <= s@.len(),
            r@ == s@.subrange(lo as int, k as int),
        decreases hi - k,
    {
        r.push(s[k]);
        k = k + 1;
        assert(r@ =~= s@.subrange(lo as int, k as int));
    }
    r
}

/// Appends the characters of `s` to `v`.
pub fn push_chars(v: &mut Vec<char>, s: &[char])
    ensures
        final(v)@ == old(v)@ + s@,
{
    let mut other = copy_range(s, 0, s.len());
    assert(s@.subrange(0, s@.len() as int) =~= s@);
    v.append(&mut other);
}

/// The first whitespace-delimited token of `s`.
pub fn first_token_of(s: &[char]) -> (r: Option<Vec<char>>)
    ensures
        match first_token(s@) {
            Some(t) => r is Some && r->0@ == t,
            None => r is None,
        },
{
    let n = s.len();
    let mut i: usize = 0;
    while i < n && is_ws_char(s[i])
        invariant
            0 <= i <= n == s@.len(),
            skip_ws(s@, i as int) == skip_ws(s@, 0),
        decreases n - i,
    {
        i = i + 1;
    }
    if i == n {
        return None;
    }
    let mut j: usize = i;
    while j < n && !is_ws_char(s[j])
        invariant
            i <= j <= n == s@.len(),
            skip_token(s@, j as int) == skip_token(s@, i as int),
        decreases n - j,
    {
        j = j + 1;
    }
    Some(copy_range(s, i, j))
}

/// `s` with every ASCII lowercase letter replaced by its uppercase form.
pub fn upper_chars(s: &[char]) -> (r: Vec<char>)
    ensures
        r@ == upper_seq(s@),
{
    let mut r: Vec<char> = Vec::new();
    let mut k: usize = 0;
    while k < s.len()
        invariant
            0 <= k <= s@.len(),
            r@ == upper_seq(s@.subrange(0, k as int)),
        decreases s@.len() - k,
    {
        r.push(upper_char(s[k]));
        k = k + 1;
        assert(r@ =~= upper_seq(s@.subrange(0, k as int)));
    }
    assert(s@.subrange(0, s@.len() as int) =~= s@);
    r
}

pub fn has_suffix(s: &[char], suffix: &[char]) -> (r: bool)
    ensures
        r == ends_with(s@, suffix@),
{
    if suffix.len() > s.len() {
        return false;
    }
    let n = s.len();
    let m = suffix.len();
    let off = n - m;
    let mut k: usize = 0;
    while k < m
        invariant
            n == s@.len(),
            m == suffix@.len(),
            m <= n,
            off == n - m,
            0 <= k <= suffix@.len(),
            forall|m: int| 0 <= m < k ==> s@[off + m] == suffix@[m],
        decreases suffix@.len() - k,
    {
        if s[off + k] != suffix[k] {
            assert(s@.subrange(off as int, s@.len() as int)[k as int] != suffix@[k as int]);
            return false;
        }
        k = k + 1;
    }
    assert(s@.subrange(off as int, s@.len() as int) =~= suffix@);
    true
}

/// The length of `s` without its trailing `/` separators and `.` components.
pub fn trimmed_len(s: &[char]) -> (r: usize)
    ensures
        r == trim_len(s@),
        r <= s@.len(),
{
    let mut i: usize = s.len();
    assert(s@.subrange(0, s@.len() as int) =~= s@);
    while i > 0 && (s[i - 1] == '/' || (s[i - 1] == '.' && i >= 2 && s[i - 2] == '/'))
        invariant
            0 <= i <= s@.len(),
            trim_len(s@.subrange(0, i as int)) == trim_len(s@),
        decreases i,
    {
        assert(s@.subrange(0, i as int).drop_last() =~= s@.subrange(0, i - 1));
        i = i - 1;
    }
    i
}

/// Where the last path component of `s[..end]` starts.
pub fn component_start(s: &[char], end: usize) -> (r: usize)
    requires
        end <= s@.len(),
    ensures
        r == base_start(s@.subrange(0, end as int)),
        r <= end,
{
    let mut i: usize = end;
    assert(s@.subrange(0, end as int).subrange(0, end as int) =~= s@.subrange(0, end as int));
    while i > 0 && s[i - 1] != '/'
        invariant
            0 <= i <= end <= s@.len(),
            base_start(s@.subrange(0, i as int)) == base_start(s@.subrange(0, end as int)),
        decreases i,
    {
        assert(s@.subrange(0, i as int).drop_last() =~= s@.subrange(0, i - 1));
        i = i - 1;
    }
    i
}

/// The file name of the path `s`, as `file_name_of` describes it.
pub fn file_name(s: &[char]) -> (r: Option<Vec<char>>)
    ensures
        match file_name_of(s@) {
            Some(t) => r is Some && r->0@ == t,
            None => r is None,
        },
{
    let end = trimmed_len(s);
    let i = component_start(s, end);
    let ghost t = s@.subrange(0, end as int);
    let b = copy_range(s, i, end);
    assert(b@ =~= base_of(t));
    if b.len() == 0 || (b.len() == 1 && b[0] == '.') || (b.len() == 2 && b[0] == '.' && b[1]
        == '.') {
        assert(b@.len() == 0 || b@ =~= seq!['.'] || b@ =~= seq!['.', '.']);
        None
    } else {
        assert(b@ != seq!['.']);
        assert(b@ != seq!['.', '.']);
        Some(b)
    }
}

/// Relies on `str::chars`: the characters of a string, in order.
#[verifier::external_body]
pub(crate) fn chars_of(s: &str) -> (r: Vec<char>)
    ensures
        r@ == s@,
{
    s.chars().collect()
}

/// Relies on `String`'s `FromIterator<char>`: a string of the given characters.
#[verifier::external_body]
pub(crate) fn string_of(v: &[char]) -> (r: String)
    ensures
        r@ == v@,
{
    v.iter().collect()
}

} // verus!
