use vstd::prelude::*;

use crate::expand::{is_identifier, is_identifier_chars, is_name_char, is_name_start};
use crate::paths::{file_name_of, get_file_name, unified};
use crate::text::{chars_of, find_char, first_index, lemma_first_index, slice_chars, string_of};

verus! {

/// A character that a file name may not hold.
pub open spec fn forbidden_in_file_name(c: char) -> bool {
    (c as u32) < 32 || c == '<' || c == '>' || c == ':' || c == '"' || c == '/' || c == '\\'
        || c == '|' || c == '?' || c == '*' || c == '$' || c == '\'' || c == '&'
}

/// A non-empty name free of forbidden characters.
pub open spec fn valid_file_name(s: Seq<char>) -> bool {
    s.len() > 0 && forall|i: int| 0 <= i < s.len() ==> !forbidden_in_file_name(#[trigger] s[i])
}

/// Valid file names joined by single slashes.
pub open spec fn valid_segments(q: Seq<char>) -> bool {
    &&& q.len() > 0
    &&& q[0] != '/'
    &&& q.last() != '/'
    &&& forall|i: int| 0 <= i < q.len() - 1 ==> !(#[trigger] q[i] == '/' && q[i + 1] == '/')
    &&& forall|i: int| 0 <= i < q.len() ==> #[trigger] q[i] == '/' || !forbidden_in_file_name(q[i])
}

/// `p` without its leading slashes.
pub open spec fn strip_leading_slashes(p: Seq<char>) -> Seq<char>
    decreases p.len(),
{
    if p.len() > 0 && p[0] == '/' {
        strip_leading_slashes(p.drop_first())
    } else {
        p
    }
}

pub open spec fn unc_prefix() -> Seq<char> {
    seq!['/', '/', '?', '/']
}

/// What of a path is checked after its root: the path with forward slashes,
/// without the `//?/` prefix of an extended-length path, and without leading
/// slashes.
pub open spec fn path_body(path: Seq<char>) -> Seq<char> {
    let u = unified(path);
    strip_leading_slashes(
        if u.len() >= 4 && u.subrange(0, 4) == unc_prefix() {
            u.subrange(4, u.len() as int)
        } else {
            u
        },
    )
}

pub open spec fn is_ascii_letter(c: char) -> bool {
    ('a' <= c && c <= 'z') || ('A' <= c && c <= 'Z')
}

/// A path is valid when it is a root, a drive (`C:`, `C:/`), or file names
/// joined by slashes, after an optional root or drive.
pub open spec fn valid_file_path(path: Seq<char>) -> bool {
    if path.len() == 0 {
        false
    } else {
        let p = path_body(path);
        let i = first_index(p, ':');
        if p.len() == 0 {
            true
        } else if i < 0 {
            valid_segments(p)
        } else if i != 1 || !is_ascii_letter(p[0]) {
            false
        } else {
            let q = if p.len() > 2 && (p[2] == '\\' || p[2] == '/') {
                p.subrange(3, p.len() as int)
            } else {
                p.subrange(2, p.len() as int)
            };
            q.len() == 0 || valid_segments(q)
        }
    }
}

/// A name made into an identifier: each character that may not stand where it
/// stands becomes `repl`.
pub open spec fn sanitized(s: Seq<char>, repl: char) -> Seq<char> {
    Seq::new(
        s.len(),
        |i: int|
            if (i == 0 && is_name_start(s[0])) || (i > 0 && is_name_char(s[i])) {
                s[i]
            } else {
                repl
            },
    )
}

/// The identifier form of a name; `repl` alone for an empty name.
pub open spec fn valid_name_of(s: Seq<char>, repl: char) -> Seq<char> {
    if s.len() == 0 {
        seq![repl]
    } else {
        sanitized(s, repl)
    }
}

/// The identifier that a target path stands for in templates.
pub open spec fn name_of_path(path: Seq<char>, repl: char) -> Seq<char> {
    if path.len() == 0 {
        seq![repl]
    } else if is_identifier(path) {
        path
    } else {
        valid_name_of(file_name_of(path, false), '_')
    }
}

fn forbidden(c: char) -> (r: bool)
    ensures
        r == forbidden_in_file_name(c),
{
    (c as u32) < 32 || c == '<' || c == '>' || c == ':' || c == '"' || c == '/' || c == '\\'
        || c == '|' || c == '?' || c == '*' || c == '$' || c == '\'' || c == '&'
}

/// Whether a name can name a file.
pub fn is_valid_file_name(name: &str) -> (r: bool)
    ensures
        r == valid_file_name(name@),
{
    let s = chars_of(name);
    if s.len() == 0 {
        return false;
    }
    let mut i: usize = 0;
    while i < s.len()
        invariant
            s@ == name@,
            i <= s.len(),
            forall|j: int| 0 <= j < i ==> !forbidden_in_file_name(#[trigger] s@[j]),
        decreases s.len() - i,
    {
        if forbidden(s[i]) {
            assert(forbidden_in_file_name(s@[i as int]));
            return false;
        }
        i = i + 1;
    }
    true
}

fn is_valid_segments(q: &Vec<char>) -> (r: bool)
    ensures
        r == valid_segments(q@),
{
    if q.len() == 0 || q[0] == '/' || q[q.len() - 1] == '/' {
        return false;
    }
    let mut i: usize = 0;
    while i < q.len()
        invariant
            i <= q.len(),
            q.len() > 0,
            forall|j: int| 0 <= j < i && j < q.len() - 1 ==> !(#[trigger] q@[j] == '/' && q@[j + 1] == '/'),
            forall|j: int| 0 <= j < i ==> #[trigger] q@[j] == '/' || !forbidden_in_file_name(q@[j]),
        decreases q.len() - i,
    {
        let c = q[i];
        if c != '/' && forbidden(c) {
            return false;
        }
        if c == '/' && i + 1 < q.len() && q[i + 1] == '/' {
            return false;
        }
        i = i + 1;
    }
    true
}

fn strip_slashes(p: &Vec<char>) -> (r: Vec<char>)
    ensures
        r@ == strip_leading_slashes(p@),
{
    let mut i: usize = 0;
    assert(p@.subrange(0, p.len() as int) =~= p@);
    while i < p.len() && p[i] == '/'
        invariant
            i <= p.len(),
            strip_leading_slashes(p@.subrange(i as int, p.len() as int)) == strip_leading_slashes(p@),
        decreases p.len() - i,
    {
        assert(p@.subrange(i as int, p.len() as int).drop_first() =~= p@.subrange(i + 1, p.len() as int));
        i = i + 1;
    }
    slice_chars(p, i, p.len())
}

/// Whether a path can name a file: a root, a drive, or file names joined by
/// slashes after an optional root or drive.
pub fn is_valid_file_path(path: &str) -> (r: bool)
    ensures
        r == valid_file_path(path@),
{
    let s = chars_of(path);
    if s.len() == 0 {
        return false;
    }
    let mut u: Vec<char> = Vec::new();
    let mut k: usize = 0;
    while k < s.len()
        invariant
            k <= s.len(),
            u@ == unified(s@.subrange(0, k as int)),
        decreases s.len() - k,
    {
        if s[k] == '\\' {
            u.push('/');
        } else {
            u.push(s[k]);
        }
        k = k + 1;
        assert(u@ =~= unified(s@.subrange(0, k as int)));
    }
    assert(s@.subrange(0, k as int) =~= s@);
    let unc = u.len() >= 4 && u[0] == '/' && u[1] == '/' && u[2] == '?' && u[3] == '/';
    assert(unc == (u@.len() >= 4 && u@.subrange(0, 4) == unc_prefix())) by {
        if u@.len() >= 4 {
            assert(u@.subrange(0, 4) =~= seq![u@[0], u@[1], u@[2], u@[3]]);
        }
    }
    let p0 = if unc {
        slice_chars(&u, 4, u.len())
    } else {
        slice_chars(&u, 0, u.len())
    };
    assert(u@.subrange(0, u@.len() as int) =~= u@);
    let p = strip_slashes(&p0);
    if p.len() == 0 {
        return true;
    }
    proof {
        lemma_first_index(p@, ':');
    }
    match find_char(&p, ':') {
        None => is_valid_segments(&p),
        Some(i) => {
            let c0 = p[0];
            if i != 1 || !(('a' <= c0 && c0 <= 'z') || ('A' <= c0 && c0 <= 'Z')) {
                return false;
            }
            let q = if p.len() > 2 && (p[2] == '\\' || p[2] == '/') {
                slice_chars(&p, 3, p.len())
            } else {
                slice_chars(&p, 2, p.len())
            };
            q.len() == 0 || is_valid_segments(&q)
        },
    }
}

/// Whether a name is an identifier: a letter or underscore, then letters, digits
/// and underscores.
pub fn is_valid_name(name: &str) -> (r: bool)
    ensures
        r == is_identifier(name@),
{
    let s = chars_of(name);
    is_identifier_chars(&s)
}

fn sanitize_chars(s: &Vec<char>, repl: char) -> (r: Vec<char>)
    ensures
        r@ == valid_name_of(s@, repl),
{
    let mut r: Vec<char> = Vec::new();
    if s.len() == 0 {
        r.push(repl);
        assert(r@ =~= seq![repl]);
        return r;
    }
    let mut i: usize = 0;
    while i < s.len()
        invariant
            i <= s.len(),
            s.len() > 0,
            r@ == sanitized(s@, repl).subrange(0, i as int),
        decreases s.len() - i,
    {
        let c = s[i];
        let keep = if i == 0 {
            ('a' <= c && c <= 'z') || ('A' <= c && c <= 'Z') || c == '_'
        } else {
            ('a' <= c && c <= 'z') || ('A' <= c && c <= 'Z') || c == '_' || ('0' <= c && c <= '9')
        };
        if keep {
            r.push(c);
        } else {
            r.push(repl);
        }
        i = i + 1;
        assert(r@ =~= sanitized(s@, repl).subrange(0, i as int));
    }
    assert(sanitized(s@, repl).subrange(0, i as int) =~= sanitized(s@, repl));
    r
}

/// Makes a name into an identifier by replacing each character that may not
/// stand where it stands with `repl`; `repl` alone for an empty name.
pub fn as_valid_name(name: &str, repl: char) -> (r: String)
    ensures
        r@ == valid_name_of(name@, repl),
{
    let s = chars_of(name);
    string_of(&sanitize_chars(&s, repl))
}

/// The identifier that a target path stands for: the path itself when it is one,
/// else its file stem made into an identifier.
pub fn path_to_name(path: &str, repl: char) -> (r: String)
    ensures
        r@ == name_of_path(path@, repl),
{
    let s = chars_of(path);
    if s.len() == 0 {
        let mut r: Vec<char> = Vec::new();
        r.push(repl);
        assert(r@ =~= seq![repl]);
        return string_of(&r);
    }
    if is_identifier_chars(&s) {
        return path.to_owned();
    }
    let f = get_file_name(path, false);
    as_valid_name(f.as_str(), '_')
}

} // verus!
