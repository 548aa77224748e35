//! The library's model of file paths: text whose components are separated by
//! `/` or `\`. Names, stems, extensions and parents are read from the text
//! alone, and a component is appended with `/`.
use vstd::prelude::*;
use crate::text::{chars_of, string_of};

verus! {

pub open spec fn is_sep(c: char) -> bool {
    c == '/' || c == '\\'
}

/// `s` without its trailing separators.
pub open spec fn trim_seps(s: Seq<char>) -> Seq<char>
    decreases s.len(),
{
    if s.len() > 0 && is_sep(s.last()) {
        trim_seps(s.drop_last())
    } else {
        s
    }
}

/// The characters after the last separator of `s` (all of `s` if it has none).
pub open spec fn tail_name(s: Seq<char>) -> Seq<char>
    decreases s.len(),
{
    if s.len() == 0 || is_sep(s.last()) {
        Seq::empty()
    } else {
        tail_name(s.drop_last()).push(s.last())
    }
}

/// The final component of a path; none for a root, an empty path, `.` or `..`.
pub open spec fn file_name(p: Seq<char>) -> Option<Seq<char>> {
    let n = tail_name(trim_seps(p));
    if n.len() == 0 || n == seq!['.'] || n == seq!['.', '.'] {
        None
    } else {
        Some(n)
    }
}

/// Index of the last `.` in `n`, or -1.
pub open spec fn last_dot(n: Seq<char>) -> int
    decreases n.len(),
{
    if n.len() == 0 {
        -1
    } else if n.last() == '.' {
        n.len() - 1
    } else {
        last_dot(n.drop_last())
    }
}

/// A name without its extension: the text before the last `.`, unless that
/// `.` leads the name or there is none.
pub open spec fn stem_of(n: Seq<char>) -> Seq<char> {
    let d = last_dot(n);
    if d <= 0 {
        n
    } else {
        n.subrange(0, d)
    }
}

pub open spec fn file_stem(p: Seq<char>) -> Option<Seq<char>> {
    match file_name(p) {
        Some(n) => Some(stem_of(n)),
        None => None,
    }
}

/// The text after the last `.` of the final component, where the name has
/// a `.` other than a leading one.
pub open spec fn extension(p: Seq<char>) -> Option<Seq<char>> {
    match file_name(p) {
        Some(n) => if last_dot(n) > 0 {
            Some(n.subrange(last_dot(n) + 1, n.len() as int))
        } else {
            None
        },
        None => None,
    }
}

/// The path without its final component and the separators before it; a
/// root stays as its first separator; none for an empty path or a root.
pub open spec fn parent_of(p: Seq<char>) -> Option<Seq<char>> {
    let t = trim_seps(p);
    let rest = t.subrange(0, t.len() - tail_name(t).len());
    if t.len() == 0 {
        None
    } else if trim_seps(rest).len() == 0 && rest.len() > 0 {
        Some(rest.subrange(0, 1))
    } else {
        Some(trim_seps(rest))
    }
}

/// `a` with the component `b` appended.
pub open spec fn join(a: Seq<char>, b: Seq<char>) -> Seq<char> {
    if a.len() == 0 || is_sep(a.last()) {
        a + b
    } else {
        a.push('/') + b
    }
}

proof fn lemma_trim_seps(s: Seq<char>, j: int)
    requires
        0 <= j <= s.len(),
        forall|k: int| j <= k < s.len() ==> is_sep(#[trigger] s[k]),
        j == 0 || !is_sep(s[j - 1]),
    ensures
        trim_seps(s) == s.subrange(0, j),
    decreases s.len(),
{
    if s.len() > j {
        lemma_trim_seps(s.drop_last(), j);
        assert(s.drop_last().subrange(0, j) =~= s.subrange(0, j));
    } else {
        assert(s.subrange(0, j) =~= s);
    }
}

proof fn lemma_tail_name(s: Seq<char>, i: int)
    requires
        0 <= i <= s.len(),
        forall|k: int| i <= k < s.len() ==> !is_sep(#[trigger] s[k]),
        i == 0 || is_sep(s[i - 1]),
    ensures
        tail_name(s) == s.subrange(i, s.len() as int),
    decreases s.len(),
{
    if s.len() > i {
        lemma_tail_name(s.drop_last(), i);
        assert(s.drop_last().subrange(i, s.len() - 1).push(s.last()) =~= s.subrange(
            i,
            s.len() as int,
        ));
    } else {
        assert(s.subrange(i, s.len() as int) =~= Seq::<char>::empty());
    }
}

pub proof fn lemma_last_dot(n: Seq<char>, d: int)
    requires
        -1 <= d < n.len(),
        forall|k: int| d < k < n.len() ==> #[trigger] n[k] != '.',
        d == -1 || n[d] == '.',
    ensures
        last_dot(n) == d,
    decreases n.len(),
{
    if n.len() > 0 && n.len() - 1 > d {
        lemma_last_dot(n.drop_last(), d);
    }
}

/// Length of `v` without its trailing separators.
fn trimmed_len(v: &Vec<char>, end: usize) -> (j: usize)
    requires
        end <= v.len(),
    ensures
        j <= end,
        trim_seps(v@.subrange(0, end as int)) == v@.subrange(0, j as int),
{
    let mut j: usize = end;
    while j > 0 && (v[j - 1] == '/' || v[j - 1] == '\\')
        invariant
            j <= end <= v.len(),
            forall|k: int| j <= k < end ==> is_sep(#[trigger] v@[k]),
        decreases j,
    {
        j -= 1;
    }
    proof {
        let s = v@.subrange(0, end as int);
        assert forall|k: int| j <= k < s.len() implies is_sep(#[trigger] s[k]) by {
            assert(s[k] == v@[k]);
        }
        if j > 0 {
            assert(s[j - 1] == v@[j - 1]);
        }
        lemma_trim_seps(s, j as int);
        assert(s.subrange(0, j as int) =~= v@.subrange(0, j as int));
    }
    j
}

/// Start of the final component of `v[..end]`.
fn name_start(v: &Vec<char>, end: usize) -> (i: usize)
    requires
        end <= v.len(),
    ensures
        i <= end,
        tail_name(v@.subrange(0, end as int)) == v@.subrange(i as int, end as int),
{
    let mut i: usize = end;
    while i > 0 && !(v[i - 1] == '/' || v[i - 1] == '\\')
        invariant
            i <= end <= v.len(),
            forall|k: int| i <= k < end ==> !is_sep(#[trigger] v@[k]),
        decreases i,
    {
        i -= 1;
    }
    proof {
        let s = v@.subrange(0, end as int);
        assert forall|k: int| i <= k < s.len() implies !is_sep(#[trigger] s[k]) by {
            assert(s[k] == v@[k]);
        }
        if i > 0 {
            assert(s[i - 1] == v@[i - 1]);
        }
        lemma_tail_name(s, i as int);
        assert(s.subrange(i as int, end as int) =~= v@.subrange(i as int, end as int));
    }
    i
}

/// Index of the last `.` of `n`, if any.
fn last_dot_exec(n: &Vec<char>) -> (r: Option<usize>)
    ensures
        match r {
            Some(d) => d < n@.len() && d as int == last_dot(n@),
            None => last_dot(n@) == -1,
        },
{
    let mut i: usize = n.len();
    while i > 0
        invariant
            i <= n.len(),
            forall|k: int| i <= k < n.len() ==> #[trigger] n@[k] != '.',
        decreases i,
    {
        if n[i - 1] == '.' {
            proof {
                lemma_last_dot(n@, i - 1);
            }
            return Some(i - 1);
        }
        i -= 1;
    }
    proof {
        lemma_last_dot(n@, -1);
    }
    None
}

/// The final component of a path.
pub fn file_name_of(p: &str) -> (r: Option<String>)
    ensures
        match r {
            Some(s) => file_name(p@) == Some(s@),
            None => file_name(p@) is None,
        },
{
    let v = chars_of(p);
    let j = trimmed_len(&v, v.len());
    assert(v@.subrange(0, v.len() as int) =~= v@);
    let i = name_start(&v, j);
    let n = crate::text::sub_vec(&v, i, j);
    if n.len() == 0 || (n.len() == 1 && n[0] == '.') || (n.len() == 2 && n[0] == '.' && n[1]
        == '.') {
        proof {
            if n.len() == 1 {
                assert(n@ =~= seq!['.']);
            }
            if n.len() == 2 {
                assert(n@ =~= seq!['.', '.']);
            }
        }
        None
    } else {
        proof {
            if n@ == seq!['.'] {
                assert(n@[0] == '.');
            }
            if n@ == seq!['.', '.'] {
                assert(n@[0] == '.' && n@[1] == '.');
            }
        }
        Some(string_of(n.as_slice()))
    }
}

fn stem_chars(n: &Vec<char>) -> (r: Vec<char>)
    ensures
        r@ == stem_of(n@),
{
    match last_dot_exec(n) {
        Some(d) => if d == 0 {
            n.clone()
        } else {
            crate::text::sub_vec(n, 0, d)
        },
        None => n.clone(),
    }
}

/// The final component of a path without its extension.
pub fn file_stem_of(p: &str) -> (r: Option<String>)
    ensures
        match r {
            Some(s) => file_stem(p@) == Some(s@),
            None => file_stem(p@) is None,
        },
{
    match file_name_of(p) {
        Some(n) => {
            let v = chars_of(n.as_str());
            let s = stem_chars(&v);
            Some(string_of(s.as_slice()))
        },
        None => None,
    }
}

/// The extension of a path's final component.
pub fn extension_of(p: &str) -> (r: Option<String>)
    ensures
        match r {
            Some(s) => extension(p@) == Some(s@),
            None => extension(p@) is None,
        },
{
    match file_name_of(p) {
        Some(n) => {
            let v = chars_of(n.as_str());
            match last_dot_exec(&v) {
                Some(d) => if d == 0 {
                    None
                } else {
                    let e = crate::text::sub_vec(&v, d + 1, v.len());
                    Some(string_of(e.as_slice()))
                },
                None => None,
            }
        },
        None => None,
    }
}

/// The parent of a path.
pub fn parent_path_of(p: &str) -> (r: Option<String>)
    ensures
        match r {
            Some(s) => parent_of(p@) == Some(s@),
            None => parent_of(p@) is None,
        },
{
    let v = chars_of(p);
    let j = trimmed_len(&v, v.len());
    assert(v@.subrange(0, v.len() as int) =~= v@);
    if j == 0 {
        return None;
    }
    let i = name_start(&v, j);
    let ghost t = v@.subrange(0, j as int);
    let ghost rest = t.subrange(0, t.len() - tail_name(t).len());
    assert(rest =~= v@.subrange(0, i as int));
    let k = trimmed_len(&v, i);
    if k == 0 && i > 0 {
        let r = crate::text::sub_vec(&v, 0, 1);
        assert(r@ =~= rest.subrange(0, 1));
        Some(string_of(r.as_slice()))
    } else {
        let r = crate::text::sub_vec(&v, 0, k);
        Some(string_of(r.as_slice()))
    }
}

/// Appends the component `b` to the path `a`.
pub fn join_path(a: &str, b: &str) -> (r: String)
    ensures
        r@ == join(a@, b@),
{
    let v = chars_of(a);
    let mut w = chars_of(a);
    if v.len() > 0 && !(v[v.len() - 1] == '/' || v[v.len() - 1] == '\\') {
        w.push('/');
    }
    let bv = chars_of(b);
    let mut i: usize = 0;
    let ghost base = w@;
    while i < bv.len()
        invariant
            i <= bv.len(),
            w@ == base + bv@.subrange(0, i as int),
        decreases bv.len() - i,
    {
        w.push(bv[i]);
        i += 1;
    }
    assert(bv@.subrange(0, bv.len() as int) =~= bv@);
    string_of(w.as_slice())
}

/// `s` with every separator replaced by `sep`.
pub open spec fn with_separators(s: Seq<char>, sep: char) -> Seq<char> {
    s.map_values(|c: char| if is_sep(c) { sep } else { c })
}

/// Relies on `std::path::MAIN_SEPARATOR`: `/` or `\` depending on the platform.
#[verifier::external_body]
pub(crate) fn main_separator() -> (r: char)
    ensures
        r == '/' || r == '\\',
{
    std::path::MAIN_SEPARATOR
}

/// Replaces every `/` and `\` of `path` with `sep`.
pub fn normalize_path_with(path: &str, sep: char) -> (r: String)
    ensures
        r@ == with_separators(path@, sep),
{
    let v = chars_of(path);
    let mut w: Vec<char> = Vec::new();
    let mut i: usize = 0;
    while i < v.len()
        invariant
            i <= v.len(),
            w@ == with_separators(v@.subrange(0, i as int), sep),
        decreases v.len() - i,
    {
        let c = v[i];
        w.push(if c == '/' || c == '\\' { sep } else { c });
        assert(with_separators(v@.subrange(0, i + 1), sep) =~= with_separators(
            v@.subrange(0, i as int),
            sep,
        ).push(if is_sep(c) { sep } else { c }));
        i += 1;
    }
    assert(v@.subrange(0, v.len() as int) =~= v@);
    string_of(w.as_slice())
}

/// Replaces every `/` and `\` of `path` with the platform's separator.
pub fn normalize_path(path: &str) -> (r: String)
    ensures
        r@ == with_separators(path@, '/') || r@ == with_separators(path@, '\\'),
{
    normalize_path_with(path, main_separator())
}

/// Relies on `str::to_lowercase`: the result depends on the characters alone.
pub uninterp spec fn lower_of(s: Seq<char>) -> Seq<char>;

#[verifier::external_body]
fn lowercase(s: &str) -> (r: String)
    ensures
        r@ == lower_of(s@),
{
    s.to_lowercase()
}

/// `s` with every `\` replaced by `/`.
pub open spec fn forward_slashes(s: Seq<char>) -> Seq<char> {
    s.map_values(|c: char| if c == '\\' { '/' } else { c })
}

/// Replaces every `\` of an already lower-cased path with `/`.
pub fn unix_separators(lowered: &str) -> (r: String)
    ensures
        r@ == forward_slashes(lowered@),
{
    let v = chars_of(lowered);
    let mut w: Vec<char> = Vec::new();
    let mut i: usize = 0;
    while i < v.len()
        invariant
            i <= v.len(),
            w@ == forward_slashes(v@.subrange(0, i as int)),
        decreases v.len() - i,
    {
        let c = v[i];
        w.push(if c == '\\' { '/' } else { c });
        assert(forward_slashes(v@.subrange(0, i + 1)) =~= forward_slashes(
            v@.subrange(0, i as int),
        ).push(if c == '\\' { '/' } else { c }));
        i += 1;
    }
    assert(v@.subrange(0, v.len() as int) =~= v@);
    string_of(w.as_slice())
}

/// A path folded to lower case with `/` separators, for comparing paths.
pub fn normalize_path_to_unix(path: &str) -> (r: String)
    ensures
        r@ == forward_slashes(lower_of(path@)),
{
    let l = lowercase(path);
    unix_separators(l.as_str())
}

} // verus!
