use vstd::prelude::*;

use crate::text::{
    chars_of, concat, last_index, lemma_last_index, push_all, rfind_char, slice_chars, string_of,
};

verus! {

/// `s` with every backslash turned into a forward slash.
pub open spec fn unified(s: Seq<char>) -> Seq<char> {
    Seq::new(s.len(), |i: int| if s[i] == '\\' { '/' } else { s[i] })
}

/// What follows the last dot, or nothing when there is no dot.
pub open spec fn extension_of(s: Seq<char>) -> Seq<char> {
    let i = last_index(s, '.');
    if i < 0 {
        Seq::empty()
    } else {
        s.subrange(i + 1, s.len() as int)
    }
}

/// `s` up to and with its last dot, then `ext`; `s` itself when it has no dot.
pub open spec fn with_extension(s: Seq<char>, ext: Seq<char>) -> Seq<char> {
    let i = last_index(s, '.');
    if i < 0 {
        s
    } else {
        s.subrange(0, i + 1) + ext
    }
}

/// `s` before its last dot; `s` itself when it has no dot.
pub open spec fn stem_of(s: Seq<char>) -> Seq<char> {
    let i = last_index(s, '.');
    if i < 0 {
        s
    } else {
        s.subrange(0, i)
    }
}

/// What follows the last slash of `s`; all of `s` when it has none.
pub open spec fn after_last_slash(s: Seq<char>) -> Seq<char> {
    s.subrange(last_index(s, '/') + 1, s.len() as int)
}

/// The last component of a path, with or without its extension.
pub open spec fn file_name_of(path: Seq<char>, ext: bool) -> Seq<char> {
    let f = after_last_slash(unified(path));
    if ext {
        f
    } else {
        stem_of(f)
    }
}

/// A path up to and with its last separator; the whole path when it has none.
pub open spec fn directory_of(path: Seq<char>) -> Seq<char> {
    let u = unified(path);
    let i = last_index(u, '/');
    if i < 0 {
        u
    } else {
        u.subrange(0, i + 1)
    }
}

/// `s` with a trailing slash.
pub open spec fn as_directory(s: Seq<char>) -> Seq<char> {
    if s.len() > 0 && s.last() == '/' {
        s
    } else {
        s.push('/')
    }
}

fn unify_chars(s: &Vec<char>) -> (r: Vec<char>)
    ensures
        r@ == unified(s@),
{
    let mut r: Vec<char> = Vec::new();
    let mut i: usize = 0;
    while i < s.len()
        invariant
            i <= s.len(),
            r@ == unified(s@.subrange(0, i as int)),
        decreases s.len() - i,
    {
        if s[i] == '\\' {
            r.push('/');
        } else {
            r.push(s[i]);
        }
        i = i + 1;
        assert(r@ =~= unified(s@.subrange(0, i as int)));
    }
    assert(s@.subrange(0, i as int) =~= s@);
    r
}

/// Turns every backslash of a path into a forward slash.
pub fn unify_separators(path: &str) -> (r: String)
    ensures
        r@ == unified(path@),
{
    let s = chars_of(path);
    string_of(&unify_chars(&s))
}

/// Whether a path has a dot.
pub fn has_extention(path: &str) -> (r: bool)
    ensures
        r == path@.contains('.'),
{
    let s = chars_of(path);
    proof {
        lemma_last_index(s@, '.');
    }
    rfind_char(&s, '.').is_some()
}

/// What follows the last dot of a path.
pub fn get_extention(path: &str) -> (r: String)
    ensures
        r@ == extension_of(path@),
{
    let s = chars_of(path);
    proof {
        lemma_last_index(s@, '.');
    }
    match rfind_char(&s, '.') {
        Some(i) => {
            assert(i < s.len());
            let e = slice_chars(&s, i + 1, s.len());
            string_of(&e)
        },
        None => String::new(),
    }
}

/// Replaces what follows the last dot of a path by `ext`.
pub fn set_extention(path: &str, ext: &str) -> (r: String)
    ensures
        r@ == with_extension(path@, ext@),
{
    let s = chars_of(path);
    proof {
        lemma_last_index(s@, '.');
    }
    match rfind_char(&s, '.') {
        Some(i) => {
            let mut r = slice_chars(&s, 0, i + 1);
            let e = chars_of(ext);
            push_all(&mut r, &e);
            string_of(&r)
        },
        None => path.to_owned(),
    }
}

fn file_name_chars(path: &Vec<char>, ext: bool) -> (r: Vec<char>)
    ensures
        r@ == file_name_of(path@, ext),
{
    let u = unify_chars(path);
    proof {
        lemma_last_index(u@, '/');
    }
    let start = match rfind_char(&u, '/') {
        Some(i) => i + 1,
        None => 0,
    };
    let f = slice_chars(&u, start, u.len());
    if ext {
        f
    } else {
        proof {
            lemma_last_index(f@, '.');
        }
        match rfind_char(&f, '.') {
            Some(i) => slice_chars(&f, 0, i),
            None => f,
        }
    }
}

/// The last component of a path, with its extension when `ext` holds.
pub fn get_file_name(path: &str, ext: bool) -> (r: String)
    ensures
        r@ == file_name_of(path@, ext),
{
    let s = chars_of(path);
    string_of(&file_name_chars(&s, ext))
}

/// A path up to and with its last separator.
pub fn get_directory(path: &str) -> (r: String)
    ensures
        r@ == directory_of(path@),
{
    let s = chars_of(path);
    let u = unify_chars(&s);
    proof {
        lemma_last_index(u@, '/');
    }
    match rfind_char(&u, '/') {
        Some(i) => string_of(&slice_chars(&u, 0, i + 1)),
        None => string_of(&u),
    }
}

/// A directory path with forward slashes and a trailing slash.
pub fn directory_path(dir: &str) -> (r: String)
    ensures
        r@ == as_directory(unified(dir@)),
{
    let s = chars_of(dir);
    let mut u = unify_chars(&s);
    if u.len() == 0 || u[u.len() - 1] != '/' {
        u.push('/');
    }
    string_of(&u)
}

/// The directory of language descriptors under the program's directory.
pub fn languages_dir(exe_dir: &str) -> (r: String)
    ensures
        r@ == exe_dir@ + "languages/"@,
{
    concat(exe_dir, "languages/")
}

/// The directory of templates under the program's directory.
pub fn templates_dir(exe_dir: &str) -> (r: String)
    ensures
        r@ == exe_dir@ + "templates/"@,
{
    concat(exe_dir, "templates/")
}

/// The directory of language scripts under the program's directory.
pub fn scripts_dir(exe_dir: &str) -> (r: String)
    ensures
        r@ == exe_dir@ + "languages/"@ + "scripts/"@,
{
    let l = languages_dir(exe_dir);
    concat(l.as_str(), "scripts/")
}

} // verus!
