use vstd::prelude::*;

use crate::utils::chars::{
    is_whitespace, parse_u32, spec_is_whitespace, spec_parse_u32, to_char_vec,
};

verus! {

/// The text that a GLES `GL_VERSION` string starts with.
pub open spec fn es_version_prefix() -> Seq<char> {
    seq!['O', 'p', 'e', 'n', 'G', 'L', ' ', 'E', 'S', ' ']
}

/// `s` begins with `p`.
pub open spec fn starts_with(s: Seq<char>, p: Seq<char>) -> bool {
    &&& p.len() <= s.len()
    &&& forall|i: int| 0 <= i < p.len() ==> #[trigger] s[i] == p[i]
}

/// `s[a..b]` is the first whitespace-separated word of `s`.
pub open spec fn is_first_word(s: Seq<char>, a: int, b: int) -> bool {
    &&& 0 <= a < b <= s.len()
    &&& forall|i: int| 0 <= i < a ==> spec_is_whitespace(#[trigger] s[i])
    &&& forall|i: int| a <= i < b ==> !spec_is_whitespace(#[trigger] s[i])
    &&& (b == s.len() || spec_is_whitespace(s[b]))
}

/// The first whitespace-separated word of `s` (what
/// `split_whitespace().next()` gives), if `s` holds one.
pub open spec fn first_word(s: Seq<char>) -> Option<Seq<char>> {
    if exists|a: int, b: int| is_first_word(s, a, b) {
        let (a, b) = choose|a: int, b: int| is_first_word(s, a, b);
        Some(s.subrange(a, b))
    } else {
        None
    }
}

/// `w[d]` is the first `.` of `w`.
pub open spec fn is_first_dot(w: Seq<char>, d: int) -> bool {
    &&& 0 <= d < w.len()
    &&& w[d] == '.'
    &&& forall|j: int| 0 <= j < d ==> #[trigger] w[j] != '.'
}

/// `w` cut at its first `.` (what `splitn(2, '.')` yields when it yields
/// two parts), if it holds one.
pub open spec fn split_first_dot(w: Seq<char>) -> Option<(Seq<char>, Seq<char>)> {
    if exists|d: int| is_first_dot(w, d) {
        let d = choose|d: int| is_first_dot(w, d);
        Some((w.subrange(0, d), w.subrange(d + 1, w.len() as int)))
    } else {
        None
    }
}

/// The `(major, minor)` of a GLES `GL_VERSION` string: it must start with
/// `OpenGL ES `, and the first word after that must be two decimal numbers
/// joined by the first `.` of the word.
pub open spec fn spec_parse_gl_version(s: Seq<char>) -> Option<(u32, u32)> {
    let p = es_version_prefix();
    if starts_with(s, p) {
        match first_word(s.skip(p.len() as int)) {
            Some(w) => match split_first_dot(w) {
                Some((ma, mi)) => match (spec_parse_u32(ma), spec_parse_u32(mi)) {
                    (Some(major), Some(minor)) => Some((major, minor)),
                    _ => None,
                },
                None => None,
            },
            None => None,
        }
    } else {
        None
    }
}

/// Whether a GLES version meets the layer's floor of 3.2.
pub open spec fn meets_es_floor(major: u32, minor: u32) -> bool {
    major > 3 || (major == 3 && minor >= 2)
}

/// Why a `GL_VERSION` string was refused.
#[derive(Debug, PartialEq, Eq, Structural, Clone, Copy)]
pub enum VersionError {
    /// The string is no `OpenGL ES <major>.<minor>` version.
    Unparsable,
    /// The version is below 3.2.
    TooOld(u32, u32),
    /// A version number does not fit in a byte.
    OutOfRange(u32, u32),
}

proof fn lemma_first_word_unique(s: Seq<char>, a: int, b: int)
    requires
        is_first_word(s, a, b),
    ensures
        first_word(s) == Some(s.subrange(a, b)),
{
    let (a2, b2) = choose|a2: int, b2: int| is_first_word(s, a2, b2);
    assert(is_first_word(s, a2, b2));
    if a2 < a {
        assert(!spec_is_whitespace(s[a2]));
    }
    if a < a2 {
        assert(!spec_is_whitespace(s[a]));
    }
    if b2 < b {
        assert(!spec_is_whitespace(s[b2]));
    }
    if b < b2 {
        assert(!spec_is_whitespace(s[b]));
    }
}

proof fn lemma_first_dot_unique(w: Seq<char>, d: int)
    requires
        is_first_dot(w, d),
    ensures
        split_first_dot(w) == Some((w.subrange(0, d), w.subrange(d + 1, w.len() as int))),
{
    let d2 = choose|d2: int| is_first_dot(w, d2);
    assert(is_first_dot(w, d2));
    if d2 < d {
        assert(w[d2] != '.');
    }
    if d < d2 {
        assert(w[d] != '.');
    }
}

/// Parses the `(major, minor)` out of a GLES `GL_VERSION` string.
pub fn parse_gl_version(version: &str) -> (r: Option<(u32, u32)>)
    ensures
        r == spec_parse_gl_version(version@),
{
    let s = to_char_vec(version);
    let ghost p = es_version_prefix();
    let prefix: [char; 10] = ['O', 'p', 'e', 'n', 'G', 'L', ' ', 'E', 'S', ' '];
    assert(prefix@ =~= p);
    if s.len() < 10 {
        return None;
    }
    let mut k: usize = 0;
    while k < 10
        invariant
            k <= 10 <= s@.len(),
            prefix@ == p,
            p == es_version_prefix(),
            s@ == version@,
            forall|j: int| 0 <= j < k ==> s@[j] == p[j],
        decreases 10 - k,
    {
        if s[k] != prefix[k] {
            assert(s@[k as int] != p[k as int]);
            return None;
        }
        k = k + 1;
    }
    assert(starts_with(s@, p));
    let ghost rest = s@.skip(10);
    // skip the whitespace before the first word
    let mut a: usize = 10;
    while a < s.len() && is_whitespace(s[a])
        invariant
            10 <= a <= s@.len(),
            rest == s@.skip(10),
            forall|i: int| 10 <= i < a ==> spec_is_whitespace(#[trigger] s@[i]),
        decreases s@.len() - a,
    {
        a = a + 1;
    }
    if a == s.len() {
        assert forall|a2: int, b2: int| !is_first_word(rest, a2, b2) by {
            if is_first_word(rest, a2, b2) {
                assert(spec_is_whitespace(s@[10 + a2]));
                assert(!spec_is_whitespace(rest[a2]));
            }
        }
        return None;
    }
    let mut b: usize = a;
    while b < s.len() && !is_whitespace(s[b])
        invariant
            10 <= a <= b <= s@.len(),
            forall|i: int| a <= i < b ==> !spec_is_whitespace(#[trigger] s@[i]),
        decreases s@.len() - b,
    {
        b = b + 1;
    }
    proof {
        assert(a < s@.len() && !spec_is_whitespace(s@[a as int]));
        assert(is_first_word(rest, a - 10, b - 10));
        lemma_first_word_unique(rest, a - 10, b - 10);
    }
    let ghost w = rest.subrange(a - 10, b - 10);
    assert(w =~= s@.subrange(a as int, b as int));
    // cut the word at its first dot
    let mut d: usize = a;
    while d < b && s[d] != '.'
        invariant
            a <= d <= b <= s@.len(),
            forall|j: int| a <= j < d ==> #[trigger] s@[j] != '.',
        decreases b - d,
    {
        d = d + 1;
    }
    if d == b {
        assert forall|d2: int| !is_first_dot(w, d2) by {
            if is_first_dot(w, d2) {
                assert(w[d2] == s@[a + d2]);
            }
        }
        return None;
    }
    proof {
        assert(is_first_dot(w, d - a));
        lemma_first_dot_unique(w, d - a);
        assert(w.subrange(0, d - a) =~= s@.subrange(a as int, d as int));
        assert(w.subrange(d - a + 1, w.len() as int) =~= s@.subrange(d + 1, b as int));
    }
    let major = parse_u32(&s, a, d);
    let minor = parse_u32(&s, d + 1, b);
    match (major, minor) {
        (Some(ma), Some(mi)) => Some((ma, mi)),
        _ => None,
    }
}

/// Whether a `GL_VERSION` string names a GLES version of at least 3.2 whose
/// numbers each fit in a byte.
pub open spec fn spec_version_ok(version: Seq<char>) -> bool {
    match spec_parse_gl_version(version) {
        Some((major, minor)) => meets_es_floor(major, minor) && major <= 255 && minor <= 255,
        None => false,
    }
}

/// The `(major, minor)` of the GLES driver behind `version`, which must offer
/// at least ES 3.2 and give its version as two bytes.
pub fn ensure_requirements(version: &str) -> (r: (u8, u8))
    requires
        spec_version_ok(version@),
    ensures
        spec_parse_gl_version(version@) == Some((r.0 as u32, r.1 as u32)),
{
    match parse_gl_version(version) {
        Some((major, minor)) => (major as u8, minor as u8),
        None => (0, 0),
    }
}

/// Checks a `GL_VERSION` string before `ensure_requirements` is called on
/// it: the version as two bytes when it is at least ES 3.2, else why not.
pub fn check_requirements(version: &str) -> (r: Result<(u8, u8), VersionError>)
    ensures
        r == (match spec_parse_gl_version(version@) {
            None => Err(VersionError::Unparsable),
            Some((major, minor)) => if !meets_es_floor(major, minor) {
                Err(VersionError::TooOld(major, minor))
            } else if major > 255 || minor > 255 {
                Err(VersionError::OutOfRange(major, minor))
            } else {
                Ok((major as u8, minor as u8))
            },
        }),
{
    match parse_gl_version(version) {
        None => Err(VersionError::Unparsable),
        Some((major, minor)) => {
            if major < 3 || (major == 3 && minor < 2) {
                Err(VersionError::TooOld(major, minor))
            } else if major > 255 || minor > 255 {
                Err(VersionError::OutOfRange(major, minor))
            } else {
                Ok(ensure_requirements(version))
            }
        },
    }
}

} // verus!
