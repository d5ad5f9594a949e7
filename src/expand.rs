use vstd::prelude::*;

use crate::clock::{
    decimal, month_name, month_name_of, padded2, push_decimal, push_padded2, push_signed,
    signed_decimal, weekday_name, weekday_name_of, Timestamp,
};
use crate::text::{
    chars_of, contains_chars, contains_seq, lemma_replace_absent, lemma_replace_shrinks,
    push_all, replace_all, replace_chars, string_of,
};

verus! {

// ---------------------------------------------------------------- macro names

pub open spec fn is_name_start(c: char) -> bool {
    ('a' <= c && c <= 'z') || ('A' <= c && c <= 'Z') || c == '_'
}

pub open spec fn is_name_char(c: char) -> bool {
    is_name_start(c) || ('0' <= c && c <= '9')
}

/// An identifier: a letter or underscore, then letters, digits and underscores.
pub open spec fn is_identifier(s: Seq<char>) -> bool {
    &&& s.len() > 0
    &&& is_name_start(s[0])
    &&& forall|i: int| 1 <= i < s.len() ==> #[trigger] is_name_char(s[i])
}

pub open spec fn upper_char(c: char) -> char {
    if 'a' <= c && c <= 'z' {
        (((c as u32) - 32) as u8) as char
    } else {
        c
    }
}

/// `s` with its ASCII lower-case letters made upper-case.
pub open spec fn upper_ascii(s: Seq<char>) -> Seq<char> {
    Seq::new(s.len(), |i: int| upper_char(s[i]))
}

/// Whether a chunk of characters is a macro name.
pub fn is_identifier_chars(s: &Vec<char>) -> (r: bool)
    ensures
        r == is_identifier(s@),
{
    if s.len() == 0 {
        return false;
    }
    let c0 = s[0];
    if !(('a' <= c0 && c0 <= 'z') || ('A' <= c0 && c0 <= 'Z') || c0 == '_') {
        return false;
    }
    let mut i: usize = 1;
    while i < s.len()
        invariant
            1 <= i <= s.len(),
            forall|j: int| 1 <= j < i ==> #[trigger] is_name_char(s@[j]),
        decreases s.len() - i,
    {
        let c = s[i];
        if !(('a' <= c && c <= 'z') || ('A' <= c && c <= 'Z') || c == '_' || ('0' <= c && c
            <= '9')) {
            assert(!is_name_char(s@[i as int]));
            return false;
        }
        i = i + 1;
    }
    true
}

/// The characters of `s` with ASCII lower-case letters made upper-case.
pub fn upper_ascii_chars(s: &Vec<char>) -> (r: Vec<char>)
    ensures
        r@ == upper_ascii(s@),
{
    let mut r: Vec<char> = Vec::new();
    let mut i: usize = 0;
    while i < s.len()
        invariant
            i <= s.len(),
            r@ == upper_ascii(s@.subrange(0, i as int)),
        decreases s.len() - i,
    {
        let c = s[i];
        let u = if 'a' <= c && c <= 'z' {
            (((c as u32) - 32) as u8) as char
        } else {
            c
        };
        r.push(u);
        i = i + 1;
        assert(r@ =~= upper_ascii(s@.subrange(0, i as int)));
    }
    assert(s@.subrange(0, i as int) =~= s@);
    r
}

// ---------------------------------------------------------------- built-in macros

/// What the built-in macros stand for in one generation unit.
#[derive(Clone, Debug)]
pub struct MacroContext {
    /// The target's file name, extension included.
    pub file_name: String,
    /// The extension of the template, which the output takes.
    pub file_ext: String,
    /// The target name made into an identifier.
    pub safe_name: String,
    pub author: String,
    pub time: Timestamp,
}

/// What a `MacroContext` holds, as sequences of characters.
pub struct MacroValues {
    pub file_name: Seq<char>,
    pub file_ext: Seq<char>,
    pub safe_name: Seq<char>,
    pub author: Seq<char>,
    pub time: Timestamp,
}

impl View for MacroContext {
    type V = MacroValues;

    open spec fn view(&self) -> MacroValues {
        MacroValues {
            file_name: self.file_name@,
            file_ext: self.file_ext@,
            safe_name: self.safe_name@,
            author: self.author@,
            time: self.time,
        }
    }
}

impl MacroContext {
    pub open spec fn wf(&self) -> bool {
        self.time.wf()
    }

    pub fn new(
        file_name: &str,
        file_ext: &str,
        safe_name: &str,
        author: &str,
        time: Timestamp,
    ) -> (r: MacroContext)
        ensures
            r.file_name@ == file_name@,
            r.file_ext@ == file_ext@,
            r.safe_name@ == safe_name@,
            r.author@ == author@,
            r.time == time,
    {
        MacroContext {
            file_name: file_name.to_owned(),
            file_ext: file_ext.to_owned(),
            safe_name: safe_name.to_owned(),
            author: author.to_owned(),
            time,
        }
    }
}

/// `YYYY-MM-DD`.
pub open spec fn date_text(t: Timestamp) -> Seq<char> {
    signed_decimal(t.year as int) + seq!['-'] + padded2(t.month as nat) + seq!['-'] + padded2(
        t.day as nat,
    )
}

/// `hh:mm`.
pub open spec fn time_text(t: Timestamp) -> Seq<char> {
    padded2(t.hour as nat) + seq![':'] + padded2(t.minute as nat)
}

/// `YYYY-MM-DD: hh:mm`.
pub open spec fn datetime_text(t: Timestamp) -> Seq<char> {
    date_text(t) + seq![':', ' '] + time_text(t)
}

/// The built-in macros and their values, in the order they are applied.
pub open spec fn builtin_table(c: MacroValues) -> Seq<(Seq<char>, Seq<char>)> {
    seq![
        ("$FILE_NAME$"@, c.file_name),
        ("$FILE_EXT$"@, c.file_ext),
        ("$NAME$"@, c.safe_name),
        ("$AUTHOR$"@, c.author),
        ("$DATETIME$"@, datetime_text(c.time)),
        ("$DATE$"@, date_text(c.time)),
        ("$TIME$"@, time_text(c.time)),
        ("$YEAR$"@, signed_decimal(c.time.year as int)),
        ("$MONTH_NUM$"@, decimal(c.time.month as nat)),
        ("$MONTH$"@, month_name_of(c.time.month)),
        ("$DAY$"@, decimal(c.time.weekday as nat)),
        ("$WEEKDAY$"@, weekday_name_of(c.time.weekday)),
    ]
}

/// Applies each replacement of `table` in turn to the whole text.
pub open spec fn apply_table(s: Seq<char>, table: Seq<(Seq<char>, Seq<char>)>) -> Seq<char>
    decreases table.len(),
{
    if table.len() == 0 {
        s
    } else {
        apply_table(replace_all(s, table[0].0, table[0].1), table.subrange(1, table.len() as int))
    }
}

/// Whether `s` holds one of the built-in macros.
pub open spec fn holds_builtin(s: Seq<char>, c: MacroValues) -> bool {
    exists|k: int| 0 <= k < builtin_table(c).len() && contains_seq(s, #[trigger] builtin_table(c)[k].0)
}

pub open spec fn table_view(t: Seq<(Vec<char>, Vec<char>)>) -> Seq<(Seq<char>, Seq<char>)> {
    t.map_values(|p: (Vec<char>, Vec<char>)| (p.0@, p.1@))
}

fn builtin_pairs(c: &MacroContext) -> (r: Vec<(Vec<char>, Vec<char>)>)
    requires
        c.wf(),
    ensures
        table_view(r@) == builtin_table(c@),
{
    let t = c.time;
    let mut date: Vec<char> = Vec::new();
    push_signed(&mut date, t.year);
    date.push('-');
    push_padded2(&mut date, t.month);
    date.push('-');
    push_padded2(&mut date, t.day);
    let mut time: Vec<char> = Vec::new();
    push_padded2(&mut time, t.hour);
    time.push(':');
    push_padded2(&mut time, t.minute);
    let mut datetime: Vec<char> = Vec::new();
    push_all(&mut datetime, &date);
    datetime.push(':');
    datetime.push(' ');
    push_all(&mut datetime, &time);
    let mut year: Vec<char> = Vec::new();
    push_signed(&mut year, t.year);
    let mut month_num: Vec<char> = Vec::new();
    push_decimal(&mut month_num, t.month);
    let mut day: Vec<char> = Vec::new();
    push_decimal(&mut day, t.weekday);
    let month = month_name(t.month);
    let weekday = weekday_name(t.weekday);
    assert(date@ =~= date_text(t));
    assert(time@ =~= time_text(t));
    assert(datetime@ =~= datetime_text(t));

    let mut r: Vec<(Vec<char>, Vec<char>)> = Vec::new();
    r.push((chars_of("$FILE_NAME$"), chars_of(c.file_name.as_str())));
    r.push((chars_of("$FILE_EXT$"), chars_of(c.file_ext.as_str())));
    r.push((chars_of("$NAME$"), chars_of(c.safe_name.as_str())));
    r.push((chars_of("$AUTHOR$"), chars_of(c.author.as_str())));
    r.push((chars_of("$DATETIME$"), datetime));
    r.push((chars_of("$DATE$"), date));
    r.push((chars_of("$TIME$"), time));
    r.push((chars_of("$YEAR$"), year));
    r.push((chars_of("$MONTH_NUM$"), month_num));
    r.push((chars_of("$MONTH$"), chars_of(month.as_str())));
    r.push((chars_of("$DAY$"), day));
    r.push((chars_of("$WEEKDAY$"), chars_of(weekday.as_str())));
    assert(table_view(r@) =~= builtin_table(c@));
    r
}

proof fn lemma_apply_table_step(s: Seq<char>, t: Seq<(Seq<char>, Seq<char>)>, i: int)
    requires
        0 <= i < t.len(),
    ensures
        apply_table(s, t.subrange(i, t.len() as int)) == apply_table(
            replace_all(s, t[i].0, t[i].1),
            t.subrange(i + 1, t.len() as int),
        ),
{
    let u = t.subrange(i, t.len() as int);
    assert(u.subrange(1, u.len() as int) =~= t.subrange(i + 1, t.len() as int));
}

/// Replaces every built-in macro by its value, in table order.
pub fn apply_builtin_macros(s: &Vec<char>, c: &MacroContext) -> (r: Vec<char>)
    requires
        c.wf(),
    ensures
        r@ == apply_table(s@, builtin_table(c@)),
{
    let pairs = builtin_pairs(c);
    let ghost t = builtin_table(c@);
    let mut cur = s.clone();
    let mut i: usize = 0;
    assert(t.subrange(0, t.len() as int) =~= t);
    while i < pairs.len()
        invariant
            table_view(pairs@) == t,
            i <= pairs.len(),
            apply_table(cur@, t.subrange(i as int, t.len() as int)) == apply_table(s@, t),
        decreases pairs.len() - i,
    {
        proof {
            lemma_apply_table_step(cur@, t, i as int);
        }
        let next = replace_chars(&cur, &pairs[i].0, &pairs[i].1);
        cur = next;
        i = i + 1;
    }
    cur
}

// ---------------------------------------------------------------- blank lines

pub open spec fn lf3() -> Seq<char> {
    seq!['\n', '\n', '\n']
}

pub open spec fn lf2() -> Seq<char> {
    seq!['\n', '\n']
}

pub open spec fn crlf3() -> Seq<char> {
    seq!['\r', '\n', '\r', '\n', '\r', '\n']
}

pub open spec fn crlf2() -> Seq<char> {
    seq!['\r', '\n', '\r', '\n']
}

/// Three line breaks in a row, in either convention.
pub open spec fn has_blank_run(s: Seq<char>) -> bool {
    contains_seq(s, lf3()) || contains_seq(s, crlf3())
}

/// One round of collapsing three line breaks into two.
pub open spec fn collapse_once(s: Seq<char>) -> Seq<char> {
    replace_all(replace_all(s, crlf3(), crlf2()), lf3(), lf2())
}

/// Collapses runs of line breaks until no three follow one another.
pub open spec fn normalize_blank_lines(s: Seq<char>) -> Seq<char>
    decreases s.len(),
{
    if has_blank_run(s) && collapse_once(s).len() < s.len() {
        normalize_blank_lines(collapse_once(s))
    } else {
        s
    }
}

pub proof fn lemma_collapse_shrinks(s: Seq<char>)
    requires
        has_blank_run(s),
    ensures
        collapse_once(s).len() < s.len(),
{
    let a = replace_all(s, crlf3(), crlf2());
    lemma_replace_shrinks(s, crlf3(), crlf2());
    lemma_replace_shrinks(a, lf3(), lf2());
    if !contains_seq(s, crlf3()) {
        lemma_replace_absent(s, crlf3(), crlf2());
    }
}

/// What blank-line normalisation returns holds no run of three line breaks.
pub proof fn lemma_normalized_has_no_run(s: Seq<char>)
    ensures
        !has_blank_run(normalize_blank_lines(s)),
    decreases s.len(),
{
    if has_blank_run(s) {
        lemma_collapse_shrinks(s);
        lemma_normalized_has_no_run(collapse_once(s));
    }
}

fn line_breaks(crlf: bool, n: usize) -> (r: Vec<char>)
    requires
        n == 2 || n == 3,
    ensures
        crlf && n == 2 ==> r@ == crlf2(),
        crlf && n == 3 ==> r@ == crlf3(),
        !crlf && n == 2 ==> r@ == lf2(),
        !crlf && n == 3 ==> r@ == lf3(),
{
    let mut r: Vec<char> = Vec::new();
    let mut i: usize = 0;
    while i < n
        invariant
            i <= n,
            n == 2 || n == 3,
            crlf ==> r@ == Seq::new(2 * i as nat, |k: int| if k % 2 == 0 { '\r' } else { '\n' }),
            !crlf ==> r@ == Seq::new(i as nat, |k: int| '\n'),
        decreases n - i,
    {
        if crlf {
            r.push('\r');
        }
        r.push('\n');
        i = i + 1;
        if crlf {
            assert(r@ =~= Seq::new(2 * i as nat, |k: int| if k % 2 == 0 { '\r' } else { '\n' }));
        } else {
            assert(r@ =~= Seq::new(i as nat, |k: int| '\n'));
        }
    }
    assert(crlf && n == 2 ==> r@ =~= crlf2());
    assert(crlf && n == 3 ==> r@ =~= crlf3());
    assert(!crlf && n == 2 ==> r@ =~= lf2());
    assert(!crlf && n == 3 ==> r@ =~= lf3());
    r
}

/// Collapses every run of three or more line breaks (`\n` or `\r\n`) down to two,
/// repeating until none is left.
pub fn collapse_blank_lines(s: &Vec<char>) -> (r: Vec<char>)
    ensures
        r@ == normalize_blank_lines(s@),
{
    let lf3v = line_breaks(false, 3);
    let lf2v = line_breaks(false, 2);
    let crlf3v = line_breaks(true, 3);
    let crlf2v = line_breaks(true, 2);
    let mut cur = s.clone();
    let mut run = contains_chars(&cur, &lf3v) || contains_chars(&cur, &crlf3v);
    while run
        invariant
            lf3v@ == lf3(),
            lf2v@ == lf2(),
            crlf3v@ == crlf3(),
            crlf2v@ == crlf2(),
            run == has_blank_run(cur@),
            normalize_blank_lines(cur@) == normalize_blank_lines(s@),
        decreases cur@.len(),
    {
        proof {
            lemma_collapse_shrinks(cur@);
        }
        let a = replace_chars(&cur, &crlf3v, &crlf2v);
        let b = replace_chars(&a, &lf3v, &lf2v);
        cur = b;
        run = contains_chars(&cur, &lf3v) || contains_chars(&cur, &crlf3v);
    }
    cur
}

// ---------------------------------------------------------------- built-in expansion

/// The built-in expansion of a text: the built-in table, then blank-line normalisation.
pub open spec fn expand_builtin(s: Seq<char>, c: MacroValues) -> Seq<char> {
    normalize_blank_lines(apply_table(s, builtin_table(c)))
}

/// Replaces the built-in macros of `content` and normalises its blank lines.
pub fn replace_universal_macros(c: &MacroContext, content: &str) -> (r: String)
    requires
        c.wf(),
    ensures
        r@ == expand_builtin(content@, c@),
        !has_blank_run(r@),
{
    let s = chars_of(content);
    let t = apply_builtin_macros(&s, c);
    let n = collapse_blank_lines(&t);
    proof {
        lemma_normalized_has_no_run(t@);
    }
    string_of(&n)
}

} // verus!
