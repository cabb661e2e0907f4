//! Verified extraction of `key = "value"` attributes out of an inline
//! attribute map (the `{version=">=1.0", extras=[a,b], index="name"}` form of
//! a package line).
//!
//! A pattern is: the key, at most one whitespace character, `=`, at most one
//! whitespace character, an opening delimiter, one or more characters of the
//! attribute's character class, and a closing delimiter. The first position
//! (leftmost) at which the whole pattern matches wins, and the capture is the
//! maximal run of class characters at that position.

use vstd::prelude::*;

use crate::strutil::is_space;

verus! {

/// Characters accepted inside a `version="..."` constraint.
pub open spec fn class_version_char(c: char) -> bool {
    ('0' <= c && c <= '9') || c == '<' || c == '>' || c == '=' || c == ',' || c == '.' || c == '*'
}

/// Word characters, accepted inside an `index="..."` reference.
pub open spec fn class_word_char(c: char) -> bool {
    ('0' <= c && c <= '9') || ('a' <= c && c <= 'z') || ('A' <= c && c <= 'Z') || c == '_'
}

/// Characters accepted inside an `extras=[...]` list.
pub open spec fn class_extras_char(c: char) -> bool {
    class_word_char(c) || c == '"' || c == ','
}

/// Selects one of the three attribute character classes.
#[derive(Clone, Copy)]
pub enum AttrClass {
    VersionChars,
    WordChars,
    ExtrasChars,
}

/// The character predicate of a class selector.
pub open spec fn class_of(k: AttrClass) -> spec_fn(char) -> bool {
    match k {
        AttrClass::VersionChars => |c: char| class_version_char(c),
        AttrClass::WordChars => |c: char| class_word_char(c),
        AttrClass::ExtrasChars => |c: char| class_extras_char(c),
    }
}

/// Whether `c` belongs to the class selected by `k`.
pub fn in_class(c: char, k: AttrClass) -> (b: bool)
    ensures
        b == class_of(k)(c),
{
    match k {
        AttrClass::VersionChars => ('0' <= c && c <= '9') || c == '<' || c == '>' || c == '='
            || c == ',' || c == '.' || c == '*',
        AttrClass::WordChars => ('0' <= c && c <= '9') || ('a' <= c && c <= 'z') || ('A' <= c
            && c <= 'Z') || c == '_',
        AttrClass::ExtrasChars => ('0' <= c && c <= '9') || ('a' <= c && c <= 'z') || ('A' <= c
            && c <= 'Z') || c == '_' || c == '"' || c == ',',
    }
}

/// The end of the run of class characters that starts at `i`: the first
/// position at or after `i` whose character is not in the class.
pub open spec fn run_end(s: Seq<char>, cl: spec_fn(char) -> bool, i: int) -> int
    decreases s.len() - i,
{
    if 0 <= i < s.len() && cl(s[i]) {
        run_end(s, cl, i + 1)
    } else {
        i
    }
}

/// The capture bounds of the attribute pattern when it matches at exactly
/// position `i` of `s`; `None` when it does not match there.
pub open spec fn attr_at(
    s: Seq<char>,
    key: Seq<char>,
    od: char,
    cd: char,
    cl: spec_fn(char) -> bool,
    i: int,
) -> Option<(int, int)> {
    let k = i + key.len();
    if !(0 <= i && k <= s.len()) {
        None
    } else if s.subrange(i, k) != key {
        None
    } else {
        let a = if k < s.len() && is_space(s[k]) {
            k + 1
        } else {
            k
        };
        if !(a < s.len() && s[a] == '=') {
            None
        } else {
            let b = if a + 1 < s.len() && is_space(s[a + 1]) {
                a + 2
            } else {
                a + 1
            };
            if !(b < s.len() && s[b] == od) {
                None
            } else {
                let cs = b + 1;
                let ce = run_end(s, cl, cs);
                if ce > cs && ce < s.len() && s[ce] == cd {
                    Some((cs, ce))
                } else {
                    None
                }
            }
        }
    }
}

/// The match at the leftmost position at or after `i`, if any.
pub open spec fn attr_search(
    s: Seq<char>,
    key: Seq<char>,
    od: char,
    cd: char,
    cl: spec_fn(char) -> bool,
    i: int,
) -> Option<(int, int)>
    decreases s.len() - i + 1,
{
    if !(0 <= i <= s.len()) {
        None
    } else if attr_at(s, key, od, cd, cl, i) is Some {
        attr_at(s, key, od, cd, cl, i)
    } else if i == s.len() {
        None
    } else {
        attr_search(s, key, od, cd, cl, i + 1)
    }
}

/// The capture bounds of the leftmost match of the attribute pattern in `s`.
pub open spec fn find_attr(
    s: Seq<char>,
    key: Seq<char>,
    od: char,
    cd: char,
    cl: spec_fn(char) -> bool,
) -> Option<(int, int)> {
    attr_search(s, key, od, cd, cl, 0)
}

/// A run of class characters from `i` ends exactly at the first position
/// `j` whose character leaves the class (or at the end of the string).
pub proof fn lemma_run_end(s: Seq<char>, cl: spec_fn(char) -> bool, i: int, j: int)
    requires
        0 <= i <= j <= s.len(),
        forall|t: int| i <= t < j ==> cl(#[trigger] s[t]),
        j == s.len() || !cl(s[j]),
    ensures
        run_end(s, cl, i) == j,
    decreases j - i,
{
    if i < j {
        lemma_run_end(s, cl, i + 1, j);
    }
}

fn run_end_exec(s: &str, k: AttrClass, i: usize, n: usize) -> (r: usize)
    requires
        i <= n,
        n == s@.len(),
    ensures
        r == run_end(s@, class_of(k), i as int),
        i <= r <= n,
{
    let mut j: usize = i;
    while j < n && in_class(s.get_char(j), k)
        invariant
            i <= j <= n,
            n == s@.len(),
            run_end(s@, class_of(k), i as int) == run_end(s@, class_of(k), j as int),
        decreases n - j,
    {
        j += 1;
    }
    j
}

fn attr_at_exec(s: &str, key: &str, od: char, cd: char, k: AttrClass, i: usize) -> (r: Option<
    (usize, usize),
>)
    requires
        i <= s@.len(),
    ensures
        match r {
            Some((a, b)) => {
                &&& attr_at(s@, key@, od, cd, class_of(k), i as int) == Some((a as int, b as int))
                &&& i <= a <= b <= s@.len()
            },
            None => attr_at(s@, key@, od, cd, class_of(k), i as int) is None,
        },
{
    let n = s.unicode_len();
    let m = key.unicode_len();
    if m > n - i {
        return None;
    }
    let kk = i + m;
    let mut j: usize = 0;
    while j < m
        invariant
            0 <= j <= m,
            i + m <= n,
            kk == i + m,
            n == s@.len(),
            m == key@.len(),
            forall|t: int| 0 <= t < j ==> s@[i + t] == key@[t],
        decreases m - j,
    {
        if s.get_char(i + j) != key.get_char(j) {
            proof {
                assert(s@.subrange(i as int, kk as int)[j as int] == s@[i + j]);
                assert(s@.subrange(i as int, kk as int) != key@);
            }
            return None;
        }
        j += 1;
    }
    proof {
        assert(s@.subrange(i as int, kk as int) =~= key@);
    }
    let mut a = kk;
    if a < n && crate::strutil::space_char(s.get_char(a)) {
        a += 1;
    }
    if !(a < n && s.get_char(a) == '=') {
        return None;
    }
    let mut b = a + 1;
    if b < n && crate::strutil::space_char(s.get_char(b)) {
        b += 1;
    }
    if !(b < n && s.get_char(b) == od) {
        return None;
    }
    let cs = b + 1;
    let ce = run_end_exec(s, k, cs, n);
    if ce > cs && ce < n && s.get_char(ce) == cd {
        Some((cs, ce))
    } else {
        None
    }
}

/// The capture bounds of the leftmost match of the attribute pattern in `s`.
pub fn find_attr_exec(s: &str, key: &str, od: char, cd: char, k: AttrClass) -> (r: Option<
    (usize, usize),
>)
    ensures
        match r {
            Some((a, b)) => {
                &&& find_attr(s@, key@, od, cd, class_of(k)) == Some((a as int, b as int))
                &&& 0 <= a <= b <= s@.len()
            },
            None => find_attr(s@, key@, od, cd, class_of(k)) is None,
        },
{
    let n = s.unicode_len();
    let mut i: usize = 0;
    loop
        invariant
            0 <= i <= n,
            n == s@.len(),
            attr_search(s@, key@, od, cd, class_of(k), 0) == attr_search(
                s@,
                key@,
                od,
                cd,
                class_of(k),
                i as int,
            ),
        decreases n - i,
    {
        let r = attr_at_exec(s, key, od, cd, k, i);
        match r {
            Some((a, b)) => {
                return Some((a, b));
            },
            None => {
                if i == n {
                    return None;
                }
                i += 1;
            },
        }
    }
}

/// The version constraint captured from an inline map, if its pattern
/// occurs: `version`, `=`, then a quoted run of constraint characters.
pub open spec fn version_capture(s: Seq<char>) -> Option<Seq<char>> {
    match find_attr(s, "version"@, '"', '"', class_of(AttrClass::VersionChars)) {
        Some((a, b)) => Some(s.subrange(a, b)),
        None => None,
    }
}

/// The index reference captured from an inline map, if its pattern occurs:
/// `index`, `=`, then a quoted run of word characters.
pub open spec fn index_capture(s: Seq<char>) -> Option<Seq<char>> {
    match find_attr(s, "index"@, '"', '"', class_of(AttrClass::WordChars)) {
        Some((a, b)) => Some(s.subrange(a, b)),
        None => None,
    }
}

/// The raw extras list captured from an inline map, if its pattern occurs:
/// `extras`, `=`, then a bracketed run of word, quote and comma characters.
pub open spec fn extras_capture(s: Seq<char>) -> Option<Seq<char>> {
    match find_attr(s, "extras"@, '[', ']', class_of(AttrClass::ExtrasChars)) {
        Some((a, b)) => Some(s.subrange(a, b)),
        None => None,
    }
}

/// Extracts the version constraint of an inline map.
pub fn extract_version(s: &str) -> (r: Option<String>)
    ensures
        r.deep_view() == version_capture(s@),
{
    match find_attr_exec(s, "version", '"', '"', AttrClass::VersionChars) {
        Some((a, b)) => Some(s.substring_char(a, b).to_owned()),
        None => None,
    }
}

/// Extracts the index reference of an inline map.
pub fn extract_index(s: &str) -> (r: Option<String>)
    ensures
        r.deep_view() == index_capture(s@),
{
    match find_attr_exec(s, "index", '"', '"', AttrClass::WordChars) {
        Some((a, b)) => Some(s.substring_char(a, b).to_owned()),
        None => None,
    }
}

/// Extracts the raw extras list of an inline map.
pub fn extract_extras(s: &str) -> (r: Option<String>)
    ensures
        r.deep_view() == extras_capture(s@),
{
    match find_attr_exec(s, "extras", '[', ']', AttrClass::ExtrasChars) {
        Some((a, b)) => Some(s.substring_char(a, b).to_owned()),
        None => None,
    }
}

} // verus!
