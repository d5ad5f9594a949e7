use vstd::prelude::*;

verus! {

/// True when `pat` occurs in `s` starting at index `i`.
pub open spec fn occurs_at(s: Seq<char>, i: int, pat: Seq<char>) -> bool {
    0 <= i && i + pat.len() <= s.len() && s.subrange(i, i + pat.len()) == pat
}

/// True when `pat` occurs somewhere in `s`.
pub open spec fn contains_seq(s: Seq<char>, pat: Seq<char>) -> bool {
    exists|i: int| occurs_at(s, i, pat)
}

/// Replaces every non-overlapping occurrence of `pat` in `s`, scanning left to right.
pub open spec fn replace_all(s: Seq<char>, pat: Seq<char>, rep: Seq<char>) -> Seq<char>
    decreases s.len(),
{
    if pat.len() == 0 || s.len() < pat.len() {
        s
    } else if s.subrange(0, pat.len() as int) == pat {
        rep + replace_all(s.subrange(pat.len() as int, s.len() as int), pat, rep)
    } else {
        seq![s[0]] + replace_all(s.subrange(1, s.len() as int), pat, rep)
    }
}

/// A text with no occurrence of `pat` is left unchanged by replacing `pat`.
pub proof fn lemma_replace_absent(s: Seq<char>, pat: Seq<char>, rep: Seq<char>)
    requires
        !contains_seq(s, pat),
    ensures
        replace_all(s, pat, rep) == s,
    decreases s.len(),
{
    if pat.len() == 0 || s.len() < pat.len() {
    } else {
        assert(!occurs_at(s, 0, pat));
        let t = s.subrange(1, s.len() as int);
        assert forall|i: int| !occurs_at(t, i, pat) by {
            if occurs_at(t, i, pat) {
                assert(s.subrange(i + 1, i + 1 + pat.len()) =~= t.subrange(i, i + pat.len()));
                assert(occurs_at(s, i + 1, pat));
            }
        }
        lemma_replace_absent(t, pat, rep);
        assert(seq![s[0]] + t =~= s);
    }
}

/// Replacing by something no longer never lengthens a text, and shortens it when
/// the pattern occurs.
pub proof fn lemma_replace_shrinks(s: Seq<char>, pat: Seq<char>, rep: Seq<char>)
    requires
        pat.len() > 0,
        rep.len() < pat.len(),
    ensures
        replace_all(s, pat, rep).len() <= s.len(),
        contains_seq(s, pat) ==> replace_all(s, pat, rep).len() < s.len(),
    decreases s.len(),
{
    if s.len() < pat.len() {
        if contains_seq(s, pat) {
            let i = choose|i: int| occurs_at(s, i, pat);
        }
    } else if s.subrange(0, pat.len() as int) == pat {
        lemma_replace_shrinks(s.subrange(pat.len() as int, s.len() as int), pat, rep);
    } else {
        let t = s.subrange(1, s.len() as int);
        lemma_replace_shrinks(t, pat, rep);
        if contains_seq(s, pat) {
            let i = choose|i: int| occurs_at(s, i, pat);
            assert(i != 0);
            assert(t.subrange(i - 1, i - 1 + pat.len()) =~= s.subrange(i, i + pat.len()));
            assert(occurs_at(t, i - 1, pat));
        }
    }
}

/// Relies on `str::chars`: the characters of a string, in order.
#[verifier::external_body]
pub(crate) fn chars_of(s: &str) -> (r: Vec<char>)
    ensures
        r@ == s@,
{
    s.chars().collect()
}

/// Relies on `FromIterator<&char>` for `String`: a string made of the given characters.
#[verifier::external_body]
pub(crate) fn string_of(v: &Vec<char>) -> (r: String)
    ensures
        r@ == v@,
{
    v.iter().collect()
}

/// Copies the characters `s[from..to]`.
pub fn slice_chars(s: &Vec<char>, from: usize, to: usize) -> (r: Vec<char>)
    requires
        from <= to <= s.len(),
    ensures
        r@ == s@.subrange(from as int, to as int),
{
    let mut r: Vec<char> = Vec::new();
    let mut i: usize = from;
    while i < to
        invariant
            from <= i <= to <= s.len(),
            r@ == s@.subrange(from as int, i as int),
        decreases to - i,
    {
        r.push(s[i]);
        i = i + 1;
    }
    r
}

/// Appends the characters of `t` to `out`.
pub fn push_all(out: &mut Vec<char>, t: &Vec<char>)
    ensures
        final(out)@ == old(out)@ + t@,
{
    let mut i: usize = 0;
    while i < t.len()
        invariant
            i <= t.len(),
            out@ == old(out)@ + t@.subrange(0, i as int),
        decreases t.len() - i,
    {
        out.push(t[i]);
        i = i + 1;
    }
}

/// Whether two character vectors hold the same characters.
pub fn same_chars(a: &Vec<char>, b: &Vec<char>) -> (r: bool)
    ensures
        r == (a@ == b@),
{
    if a.len() != b.len() {
        return false;
    }
    let mut i: usize = 0;
    while i < a.len()
        invariant
            a.len() == b.len(),
            i <= a.len(),
            a@.subrange(0, i as int) == b@.subrange(0, i as int),
        decreases a.len() - i,
    {
        if a[i] != b[i] {
            assert(a@.subrange(0, i as int + 1)[i as int] != b@.subrange(0, i as int + 1)[i as int]);
            return false;
        }
        assert(a@.subrange(0, i as int + 1) =~= a@.subrange(0, i as int).push(a[i as int]));
        assert(b@.subrange(0, i as int + 1) =~= b@.subrange(0, i as int).push(b[i as int]));
        i = i + 1;
    }
    assert(a@ =~= a@.subrange(0, a.len() as int));
    assert(b@ =~= b@.subrange(0, b.len() as int));
    true
}

/// Whether `pat` occurs in `s` at index `i`.
pub fn matches_at(s: &Vec<char>, i: usize, pat: &Vec<char>) -> (r: bool)
    ensures
        r == occurs_at(s@, i as int, pat@),
{
    if i > s.len() || pat.len() > s.len() - i {
        return false;
    }
    let mut k: usize = 0;
    while k < pat.len()
        invariant
            i + pat.len() <= s.len(),
            k <= pat.len(),
            s@.subrange(i as int, i + k) == pat@.subrange(0, k as int),
        decreases pat.len() - k,
    {
        if s[i + k] != pat[k] {
            assert(s@.subrange(i as int, i + pat.len())[k as int] != pat@[k as int]);
            return false;
        }
        assert(s@.subrange(i as int, i + k + 1) =~= s@.subrange(i as int, i + k).push(s[i + k]));
        assert(pat@.subrange(0, k + 1) =~= pat@.subrange(0, k as int).push(pat[k as int]));
        k = k + 1;
    }
    assert(pat@ =~= pat@.subrange(0, pat.len() as int));
    true
}

/// Whether `pat` occurs anywhere in `s`.
pub fn contains_chars(s: &Vec<char>, pat: &Vec<char>) -> (r: bool)
    ensures
        r == contains_seq(s@, pat@),
{
    let mut i: usize = 0;
    while i < s.len()
        invariant
            i <= s.len(),
            forall|j: int| 0 <= j < i ==> !occurs_at(s@, j, pat@),
        decreases s.len() - i,
    {
        if matches_at(s, i, pat) {
            return true;
        }
        i = i + 1;
    }
    if matches_at(s, i, pat) {
        return true;
    }
    assert forall|j: int| !occurs_at(s@, j, pat@) by {
        if occurs_at(s@, j, pat@) && j > s.len() {
        }
    }
    false
}

/// The first index at or after `from` that holds `c`, or -1.
pub open spec fn next_index(s: Seq<char>, c: char, from: int) -> int
    decreases s.len() - from,
{
    if from < 0 || from >= s.len() {
        -1
    } else if s[from] == c {
        from
    } else {
        next_index(s, c, from + 1)
    }
}

/// The first index at or after `from` that holds `c`.
pub fn find_char_from(s: &Vec<char>, c: char, from: usize) -> (r: Option<usize>)
    ensures
        match r {
            Some(i) => i as int == next_index(s@, c, from as int),
            None => next_index(s@, c, from as int) == -1,
        },
        match r {
            Some(i) => from <= i < s.len() && s@[i as int] == c && forall|j: int|
                from <= j < i ==> s@[j] != c,
            None => forall|j: int| from <= j < s.len() ==> s@[j] != c,
        },
{
    let mut i: usize = from;
    while i < s.len()
        invariant
            from <= i,
            forall|j: int| from <= j < i && j < s.len() ==> s@[j] != c,
            i <= s.len() ==> next_index(s@, c, from as int) == next_index(s@, c, i as int),
            i > s.len() ==> next_index(s@, c, from as int) == -1,
        decreases s.len() - i,
    {
        if s[i] == c {
            return Some(i);
        }
        i = i + 1;
    }
    None
}

/// Replaces every non-overlapping occurrence of `pat`, scanning left to right.
pub fn replace_chars(s: &Vec<char>, pat: &Vec<char>, rep: &Vec<char>) -> (r: Vec<char>)
    ensures
        r@ == replace_all(s@, pat@, rep@),
{
    let n = s.len();
    if pat.len() == 0 {
        return s.clone();
    }
    let mut out: Vec<char> = Vec::new();
    let mut i: usize = 0;
    assert(s@.subrange(0, n as int) =~= s@);
    while i < n && pat.len() <= n - i
        invariant
            n == s.len(),
            pat.len() > 0,
            i <= n,
            out@ + replace_all(s@.subrange(i as int, n as int), pat@, rep@) == replace_all(
                s@,
                pat@,
                rep@,
            ),
        decreases n - i,
    {
        let t = Ghost(s@.subrange(i as int, n as int));
        if matches_at(s, i, pat) {
            assert(t@.subrange(0, pat.len() as int) =~= s@.subrange(i as int, i + pat.len()));
            assert(t@.subrange(pat.len() as int, t@.len() as int) =~= s@.subrange(
                i + pat.len(),
                n as int,
            ));
            push_all(&mut out, rep);
            i = i + pat.len();
        } else {
            assert(t@.subrange(0, pat.len() as int) =~= s@.subrange(i as int, i + pat.len()));
            assert(t@.subrange(1, t@.len() as int) =~= s@.subrange(i + 1, n as int));
            out.push(s[i]);
            i = i + 1;
        }
    }
    let rest = slice_chars(s, i, n);
    push_all(&mut out, &rest);
    assert(replace_all(rest@, pat@, rep@) == rest@);
    out
}

} // verus!

verus! {

/// The concatenation of two strings.
pub fn concat(a: &str, b: &str) -> (r: String)
    ensures
        r@ == a@ + b@,
{
    let mut v = chars_of(a);
    let w = chars_of(b);
    push_all(&mut v, &w);
    string_of(&v)
}

} // verus!

verus! {

/// The index of the last `c` in `s`, or -1.
pub open spec fn last_index(s: Seq<char>, c: char) -> int
    decreases s.len(),
{
    if s.len() == 0 {
        -1
    } else if s.last() == c {
        s.len() - 1
    } else {
        last_index(s.drop_last(), c)
    }
}

/// The index of the first `c` in `s`, or -1.
pub open spec fn first_index(s: Seq<char>, c: char) -> int
    decreases s.len(),
{
    if s.len() == 0 {
        -1
    } else if s[0] == c {
        0
    } else {
        let k = first_index(s.drop_first(), c);
        if k < 0 {
            -1
        } else {
            k + 1
        }
    }
}

pub proof fn lemma_last_index(s: Seq<char>, c: char)
    ensures
        -1 <= last_index(s, c) < s.len(),
        last_index(s, c) == -1 ==> forall|j: int| 0 <= j < s.len() ==> s[j] != c,
        last_index(s, c) >= 0 ==> s[last_index(s, c)] == c && forall|j: int|
            last_index(s, c) < j < s.len() ==> s[j] != c,
    decreases s.len(),
{
    if s.len() > 0 && s.last() != c {
        lemma_last_index(s.drop_last(), c);
        assert forall|j: int| 0 <= j < s.len() - 1 implies s[j] == s.drop_last()[j] by {}
    }
}

pub proof fn lemma_first_index(s: Seq<char>, c: char)
    ensures
        -1 <= first_index(s, c) < s.len(),
        first_index(s, c) == -1 ==> forall|j: int| 0 <= j < s.len() ==> s[j] != c,
        first_index(s, c) >= 0 ==> s[first_index(s, c)] == c && forall|j: int|
            0 <= j < first_index(s, c) ==> s[j] != c,
    decreases s.len(),
{
    if s.len() > 0 && s[0] != c {
        lemma_first_index(s.drop_first(), c);
        assert forall|j: int| 1 <= j < s.len() implies s[j] == s.drop_first()[j - 1] by {}
    }
}

/// The index of the last `c` in `s`.
pub fn rfind_char(s: &Vec<char>, c: char) -> (r: Option<usize>)
    ensures
        match r {
            Some(i) => i as int == last_index(s@, c),
            None => last_index(s@, c) == -1,
        },
{
    proof {
        lemma_last_index(s@, c);
    }
    let mut i: usize = s.len();
    while i > 0
        invariant
            i <= s.len(),
            forall|j: int| i <= j < s.len() ==> s@[j] != c,
        decreases i,
    {
        if s[i - 1] == c {
            proof {
                lemma_last_index(s@, c);
            }
            return Some(i - 1);
        }
        i = i - 1;
    }
    None
}

/// The index of the first `c` in `s`.
pub fn find_char(s: &Vec<char>, c: char) -> (r: Option<usize>)
    ensures
        match r {
            Some(i) => i as int == first_index(s@, c),
            None => first_index(s@, c) == -1,
        },
{
    proof {
        lemma_first_index(s@, c);
    }
    find_char_from(s, c, 0)
}

} // verus!

verus! {

/// The characters that `char::is_whitespace` accepts (Unicode White_Space).
pub open spec fn is_white(c: char) -> bool {
    ('\t' <= c && c <= '\r') || c == ' ' || c == '\u{85}' || c == '\u{a0}' || c == '\u{1680}' || (
    '\u{2000}' <= c && c <= '\u{200a}') || c == '\u{2028}' || c == '\u{2029}' || c == '\u{202f}'
        || c == '\u{205f}' || c == '\u{3000}'
}

pub open spec fn trim_start(s: Seq<char>) -> Seq<char>
    decreases s.len(),
{
    if s.len() > 0 && is_white(s[0]) {
        trim_start(s.drop_first())
    } else {
        s
    }
}

pub open spec fn trim_end(s: Seq<char>) -> Seq<char>
    decreases s.len(),
{
    if s.len() > 0 && is_white(s.last()) {
        trim_end(s.drop_last())
    } else {
        s
    }
}

/// `s` without leading and trailing whitespace.
pub open spec fn trimmed(s: Seq<char>) -> Seq<char> {
    trim_end(trim_start(s))
}

fn white(c: char) -> (r: bool)
    ensures
        r == is_white(c),
{
    ('\t' <= c && c <= '\r') || c == ' ' || c == '\u{85}' || c == '\u{a0}' || c == '\u{1680}' || (
    '\u{2000}' <= c && c <= '\u{200a}') || c == '\u{2028}' || c == '\u{2029}' || c == '\u{202f}'
        || c == '\u{205f}' || c == '\u{3000}'
}

/// The characters of `s` without leading and trailing whitespace.
pub fn trim_chars(s: &Vec<char>) -> (r: Vec<char>)
    ensures
        r@ == trimmed(s@),
{
    let n = s.len();
    let mut i: usize = 0;
    assert(s@.subrange(0, n as int) =~= s@);
    while i < n && white(s[i])
        invariant
            n == s.len(),
            i <= n,
            trim_start(s@.subrange(i as int, n as int)) == trim_start(s@),
        decreases n - i,
    {
        assert(s@.subrange(i as int, n as int).drop_first() =~= s@.subrange(i + 1, n as int));
        i = i + 1;
    }
    let mut j: usize = n;
    let ghost t = s@.subrange(i as int, n as int);
    assert(t.subrange(0, (n - i) as int) =~= t);
    while j > i && white(s[j - 1])
        invariant
            n == s.len(),
            i <= j <= n,
            t == s@.subrange(i as int, n as int),
            trim_end(s@.subrange(i as int, j as int)) == trim_end(t),
        decreases j,
    {
        assert(s@.subrange(i as int, j as int).drop_last() =~= s@.subrange(i as int, j - 1));
        j = j - 1;
    }
    slice_chars(s, i, j)
}

/// A string without leading and trailing whitespace.
pub fn trim_text(s: &str) -> (r: String)
    ensures
        r@ == trimmed(s@),
{
    let v = chars_of(s);
    string_of(&trim_chars(&v))
}

/// Whether a string holds exactly the characters of a literal.
pub fn text_is(s: &str, lit: &str) -> (r: bool)
    ensures
        r == (s@ == lit@),
{
    let a = chars_of(s);
    let b = chars_of(lit);
    same_chars(&a, &b)
}

/// What `str::to_lowercase` makes of a string.
pub uninterp spec fn lower_of(s: Seq<char>) -> Seq<char>;

/// Relies on `str::to_lowercase`: the lower-case form of a string, which depends
/// on its characters alone.
#[verifier::external_body]
pub(crate) fn lowercase(s: &str) -> (r: String)
    ensures
        r@ == lower_of(s@),
{
    s.to_lowercase()
}

} // verus!

verus! {

/// The pieces of `s` between occurrences of `c`, empty pieces included.
pub open spec fn split_on(s: Seq<char>, c: char) -> Seq<Seq<char>>
    decreases s.len(),
{
    if s.len() == 0 {
        seq![Seq::empty()]
    } else {
        let init = split_on(s.drop_last(), c);
        if s.last() == c {
            init.push(Seq::empty())
        } else {
            init.update(init.len() - 1, init.last().push(s.last()))
        }
    }
}

pub open spec fn views_of(v: Seq<String>) -> Seq<Seq<char>> {
    v.map_values(|s: String| s@)
}

/// The pieces of a string between commas, each without surrounding whitespace.
pub fn split_trimmed(s: &str, c: char) -> (r: Vec<String>)
    ensures
        views_of(r@) == split_on(s@, c).map_values(|p: Seq<char>| trimmed(p)),
{
    let v = chars_of(s);
    let mut parts: Vec<String> = Vec::new();
    let mut cur: Vec<char> = Vec::new();
    let mut i: usize = 0;
    while i < v.len()
        invariant
            i <= v.len(),
            split_on(v@.subrange(0, i as int), c) == split_on(v@.subrange(0, i as int), c).subrange(
                0,
                parts@.len() as int,
            ).push(cur@),
            views_of(parts@) == split_on(v@.subrange(0, i as int), c).subrange(
                0,
                parts@.len() as int,
            ).map_values(|p: Seq<char>| trimmed(p)),
            split_on(v@.subrange(0, i as int), c).len() == parts@.len() + 1,
        decreases v.len() - i,
    {
        let ghost before = split_on(v@.subrange(0, i as int), c);
        assert(v@.subrange(0, i + 1).drop_last() =~= v@.subrange(0, i as int));
        if v[i] == c {
            let ghost old_parts = parts@;
            let ghost old_cur = cur@;
            let ghost n = parts@.len() as int;
            let t = trim_chars(&cur);
            parts.push(string_of(&t));
            cur = Vec::new();
            assert(views_of(parts@) =~= views_of(old_parts).push(trimmed(old_cur)));
            assert(before[n] == old_cur);
            assert(before.map_values(|p: Seq<char>| trimmed(p)) =~= before.subrange(0, n).map_values(
                |p: Seq<char>| trimmed(p),
            ).push(trimmed(old_cur)));
            let ghost after = split_on(v@.subrange(0, i + 1), c);
            assert(after == before.push(Seq::empty()));
            assert(after.subrange(0, parts@.len() as int) =~= before);
            assert(views_of(parts@) =~= after.subrange(0, parts@.len() as int).map_values(
                |p: Seq<char>| trimmed(p),
            ));
            assert(after =~= after.subrange(0, parts@.len() as int).push(cur@));
        } else {
            cur.push(v[i]);
            let ghost after = split_on(v@.subrange(0, i + 1), c);
            assert(after.subrange(0, parts@.len() as int) =~= before.subrange(0, parts@.len() as int));
            assert(after =~= after.subrange(0, parts@.len() as int).push(cur@));
        }
        i = i + 1;
    }
    let ghost old_parts = parts@;
    let ghost old_cur = cur@;
    let ghost n = parts@.len() as int;
    let ghost whole = split_on(v@.subrange(0, i as int), c);
    let t = trim_chars(&cur);
    parts.push(string_of(&t));
    assert(views_of(parts@) =~= views_of(old_parts).push(trimmed(old_cur)));
    assert(whole[n] == old_cur);
    assert(whole.map_values(|p: Seq<char>| trimmed(p)) =~= whole.subrange(0, n).map_values(
        |p: Seq<char>| trimmed(p),
    ).push(trimmed(old_cur)));
    assert(v@.subrange(0, v.len() as int) =~= v@);
    assert(views_of(parts@) =~= split_on(v@, c).map_values(|p: Seq<char>| trimmed(p)));
    parts
}

} // verus!
