//! File paths as the library reads them.
//!
//! A path is either the text of a (Unix) path, or the list of its components
//! as `std::path::Path::components` yields them (`"/"` for the root, `"."`
//! for a leading current directory, `".."` for a parent directory, and the
//! names of the others). The functions here follow what the standard library
//! documents for `Path::file_name`, `Path::file_stem`, `Path::extension` and
//! `Path::starts_with`.
use vstd::prelude::*;

use crate::models::{opt_string_view, strings_view};
use crate::text::{chars_of, has_prefix, string_of, string_of_range};

verus! {

/// Position just after the last `/` of `p` (0 when there is none).
pub open spec fn after_last_slash(p: Seq<char>) -> int
    decreases p.len(),
{
    if p.len() == 0 {
        0
    } else if p.last() == '/' {
        p.len() as int
    } else {
        after_last_slash(p.drop_last())
    }
}

proof fn lemma_after_last_slash_bounds(p: Seq<char>)
    ensures
        0 <= after_last_slash(p) <= p.len(),
        after_last_slash(p) > 0 ==> p[after_last_slash(p) - 1] == '/',
        forall|i: int| after_last_slash(p) <= i < p.len() ==> p[i] != '/',
    decreases p.len(),
{
    if p.len() > 0 && p.last() != '/' {
        lemma_after_last_slash_bounds(p.drop_last());
        assert forall|i: int| after_last_slash(p) <= i < p.len() implies p[i] != '/' by {
            if i < p.len() - 1 {
                assert(p.drop_last()[i] == p[i]);
            }
        }
    }
}

/// The text `"."`.
pub open spec fn dot() -> Seq<char> {
    seq!['.']
}

/// The text `".."`.
pub open spec fn dot_dot() -> Seq<char> {
    seq!['.', '.']
}

/// The text `"/"`, the root component.
pub open spec fn root() -> Seq<char> {
    seq!['/']
}

/// `Path::file_name` on the text of a path: the last component when it is
/// a name; separators and `.` components at the end are skipped, and a path
/// that ends in `..` (or has no name at all) has none.
pub open spec fn path_file_name(p: Seq<char>) -> Option<Seq<char>>
    decreases p.len(),
{
    let k = after_last_slash(p);
    let seg = p.subrange(k, p.len() as int);
    if 0 <= k <= p.len() && (seg.len() == 0 || seg == dot()) {
        if k == 0 {
            None
        } else {
            path_file_name(p.subrange(0, k - 1))
        }
    } else if seg == dot_dot() {
        None
    } else {
        Some(seg)
    }
}

/// Position of the last `.` of `name` (-1 when there is none).
pub open spec fn last_dot(name: Seq<char>) -> int
    decreases name.len(),
{
    if name.len() == 0 {
        -1
    } else if name.last() == '.' {
        name.len() - 1
    } else {
        last_dot(name.drop_last())
    }
}

/// `Path::file_stem` applied to a file name: the part before the last `.`;
/// the whole name when it has no `.`, or only a leading one.
pub open spec fn name_stem(name: Seq<char>) -> Seq<char> {
    let k = last_dot(name);
    if k <= 0 {
        name
    } else {
        name.subrange(0, k)
    }
}

/// `Path::extension` applied to a file name: the part after the last `.`;
/// none when the name has no `.`, or only a leading one.
pub open spec fn name_extension(name: Seq<char>) -> Option<Seq<char>> {
    let k = last_dot(name);
    if k <= 0 {
        None
    } else {
        Some(name.subrange(k + 1, name.len() as int))
    }
}

/// `Path::file_stem` on the text of a path.
pub open spec fn path_file_stem(p: Seq<char>) -> Option<Seq<char>> {
    match path_file_name(p) {
        Some(name) => Some(name_stem(name)),
        None => None,
    }
}

proof fn lemma_last_dot_bounds(name: Seq<char>)
    ensures
        -1 <= last_dot(name) < name.len(),
        last_dot(name) >= 0 ==> name[last_dot(name)] == '.',
        forall|i: int| last_dot(name) < i < name.len() ==> name[i] != '.',
    decreases name.len(),
{
    if name.len() > 0 && name.last() != '.' {
        lemma_last_dot_bounds(name.drop_last());
        assert forall|i: int| last_dot(name) < i < name.len() implies name[i] != '.' by {
            if i < name.len() - 1 {
                assert(name.drop_last()[i] == name[i]);
            }
        }
    }
}

fn find_after_last_slash(v: &Vec<char>, end: usize) -> (k: usize)
    requires
        end <= v.len(),
    ensures
        k == after_last_slash(v@.subrange(0, end as int)),
{
    let mut i: usize = end;
    while i > 0 && v[i - 1] != '/'
        invariant
            i <= end <= v.len(),
            after_last_slash(v@.subrange(0, end as int)) == after_last_slash(
                v@.subrange(0, i as int),
            ),
        decreases i,
    {
        assert(v@.subrange(0, i as int).drop_last() =~= v@.subrange(0, i - 1));
        i = i - 1;
    }
    i
}

fn find_last_dot(v: &Vec<char>) -> (k: Option<usize>)
    ensures
        match k {
            Some(i) => i == last_dot(v@),
            None => last_dot(v@) == -1,
        },
{
    let mut i: usize = v.len();
    assert(v@.subrange(0, v.len() as int) =~= v@);
    while i > 0
        invariant
            i <= v.len(),
            last_dot(v@) == last_dot(v@.subrange(0, i as int)),
        decreases i,
    {
        if v[i - 1] == '.' {
            return Some(i - 1);
        }
        assert(v@.subrange(0, i as int).drop_last() =~= v@.subrange(0, i - 1));
        i = i - 1;
    }
    None
}

/// `Path::file_name` on the text of a path.
pub fn file_name(path: &str) -> (r: Option<String>)
    ensures
        opt_string_view(r) == path_file_name(path@),
{
    let v = chars_of(path);
    let mut end: usize = v.len();
    assert(v@.subrange(0, end as int) =~= v@);
    loop
        invariant
            end <= v.len(),
            v@ == path@,
            path_file_name(v@) == path_file_name(v@.subrange(0, end as int)),
        decreases end,
    {
        let ghost p = v@.subrange(0, end as int);
        let k = find_after_last_slash(&v, end);
        proof {
            lemma_after_last_slash_bounds(p);
        }
        let seg_len = end - k;
        let is_dot = seg_len == 1 && v[k] == '.';
        let is_dot_dot = seg_len == 2 && v[k] == '.' && v[k + 1] == '.';
        proof {
            let seg = p.subrange(k as int, p.len() as int);
            assert(seg =~= v@.subrange(k as int, end as int));
            if is_dot {
                assert(seg =~= dot());
            } else if seg == dot() {
                assert(seg[0] == '.');
            }
            if is_dot_dot {
                assert(seg =~= dot_dot());
            } else if seg == dot_dot() {
                assert(seg[0] == '.' && seg[1] == '.');
            }
        }
        if seg_len == 0 || is_dot {
            if k == 0 {
                return None;
            }
            assert(p.subrange(0, k - 1) =~= v@.subrange(0, k - 1));
            end = k - 1;
        } else if is_dot_dot {
            return None;
        } else {
            return Some(string_of_range(&v, k, end));
        }
    }
}

/// `Path::file_stem` applied to a file name.
pub fn stem_of_name(name: &str) -> (r: String)
    ensures
        r@ == name_stem(name@),
{
    let v = chars_of(name);
    proof {
        lemma_last_dot_bounds(v@);
    }
    match find_last_dot(&v) {
        Some(k) => {
            if k == 0 {
                string_of(v.as_slice())
            } else {
                string_of_range(&v, 0, k)
            }
        },
        None => string_of(v.as_slice()),
    }
}

/// `Path::extension` applied to a file name.
pub fn extension_of_name(name: &str) -> (r: Option<String>)
    ensures
        opt_string_view(r) == name_extension(name@),
{
    let v = chars_of(name);
    proof {
        lemma_last_dot_bounds(v@);
    }
    match find_last_dot(&v) {
        Some(k) => {
            if k == 0 {
                None
            } else {
                Some(string_of_range(&v, k + 1, v.len()))
            }
        },
        None => None,
    }
}

/// `Path::file_stem` on the text of a path.
pub fn file_stem(path: &str) -> (r: Option<String>)
    ensures
        opt_string_view(r) == path_file_stem(path@),
{
    match file_name(path) {
        Some(name) => Some(stem_of_name(name.as_str())),
        None => None,
    }
}

/// Whether a component is a name (not the root, `.` or `..`).
pub open spec fn is_name_component(c: Seq<char>) -> bool {
    c != root() && c != dot() && c != dot_dot()
}

/// `Path::file_name` on the components of a path.
pub open spec fn components_file_name(c: Seq<Seq<char>>) -> Option<Seq<char>> {
    if c.len() > 0 && is_name_component(c.last()) {
        Some(c.last())
    } else {
        None
    }
}

/// `Path::extension` on the components of a path.
pub open spec fn components_extension(c: Seq<Seq<char>>) -> Option<Seq<char>> {
    match components_file_name(c) {
        Some(name) => name_extension(name),
        None => None,
    }
}

/// `Path::starts_with`: `base` is a whole-component prefix of `path`.
pub open spec fn components_start_with(path: Seq<Seq<char>>, base: Seq<Seq<char>>) -> bool {
    has_prefix(path, base)
}

/// Whether the text `c` is the given literal.
fn is_text(c: &String, lit: &str) -> (r: bool)
    ensures
        r == (c@ == lit@),
{
    *c == String::from_str(lit)
}

/// Whether a component is a name (not the root, `.` or `..`).
pub fn is_name(c: &String) -> (r: bool)
    ensures
        r == is_name_component(c@),
{
    proof {
        reveal_strlit("/");
        reveal_strlit(".");
        reveal_strlit("..");
    }
    assert("/"@ =~= root());
    assert("."@ =~= dot());
    assert(".."@ =~= dot_dot());
    !is_text(c, "/") && !is_text(c, ".") && !is_text(c, "..")
}

/// `Path::file_name` on the components of a path.
pub fn component_file_name(path: &Vec<String>) -> (r: Option<String>)
    ensures
        opt_string_view(r) == components_file_name(strings_view(path@)),
{
    if path.len() > 0 && is_name(&path[path.len() - 1]) {
        Some(path[path.len() - 1].clone())
    } else {
        None
    }
}

/// `Path::extension` on the components of a path.
pub fn component_extension(path: &Vec<String>) -> (r: Option<String>)
    ensures
        opt_string_view(r) == components_extension(strings_view(path@)),
{
    match component_file_name(path) {
        Some(name) => extension_of_name(name.as_str()),
        None => None,
    }
}

/// `Path::starts_with` on components.
pub fn components_starts_with(path: &Vec<String>, base: &Vec<String>) -> (r: bool)
    ensures
        r == components_start_with(strings_view(path@), strings_view(base@)),
{
    let ghost pv = strings_view(path@);
    let ghost bv = strings_view(base@);
    if base.len() > path.len() {
        return false;
    }
    let mut i: usize = 0;
    while i < base.len()
        invariant
            i <= base.len() <= path.len(),
            pv == strings_view(path@),
            bv == strings_view(base@),
            forall|k: int| 0 <= k < i ==> pv[k] == bv[k],
        decreases base.len() - i,
    {
        if path[i] != base[i] {
            proof {
                if pv.subrange(0, bv.len() as int) == bv {
                    assert(pv.subrange(0, bv.len() as int)[i as int] == pv[i as int]);
                }
            }
            return false;
        }
        i = i + 1;
    }
    assert(pv.subrange(0, bv.len() as int) =~= bv);
    true
}

/// Components joined by `/`.
pub open spec fn joined(parts: Seq<Seq<char>>) -> Seq<char>
    decreases parts.len(),
{
    if parts.len() == 0 {
        Seq::empty()
    } else if parts.len() == 1 {
        parts[0]
    } else {
        joined(parts.drop_last()) + seq!['/'] + parts.last()
    }
}

/// The components `path[from..]` joined by `/`.
pub fn join_from(path: &Vec<String>, from: usize) -> (r: String)
    requires
        from <= path.len(),
    ensures
        r@ == joined(strings_view(path@).subrange(from as int, path.len() as int)),
{
    let ghost pv = strings_view(path@);
    let mut out = String::new();
    let slash = "/";
    proof {
        reveal_strlit("/");
    }
    let mut i: usize = from;
    assert(pv.subrange(from as int, from as int) =~= Seq::<Seq<char>>::empty());
    while i < path.len()
        invariant
            from <= i <= path.len(),
            pv == strings_view(path@),
            out@ == joined(pv.subrange(from as int, i as int)),
            slash@ == seq!['/'],
        decreases path.len() - i,
    {
        let ghost before = out@;
        if i > from {
            out.append(slash);
        }
        out.append(path[i].as_str());
        proof {
            let s = pv.subrange(from as int, i + 1);
            assert(s.drop_last() =~= pv.subrange(from as int, i as int));
            assert(s.last() == path@[i as int]@);
            if i == from {
                assert(out@ =~= joined(s));
            } else {
                assert(out@ =~= joined(s));
            }
        }
        i = i + 1;
    }
    out
}

} // verus!
