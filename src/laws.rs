use vstd::prelude::*;

use crate::expand::{
    apply_table, builtin_table, collapse_once, crlf2, crlf3, expand_builtin, has_blank_run, holds_builtin,
    lemma_collapse_shrinks, lemma_normalized_has_no_run, lf2, lf3, normalize_blank_lines,
    MacroValues,
};
use crate::clock::{decimal, digit_char, signed_decimal};
use crate::text::{contains_seq, lemma_replace_absent, occurs_at, replace_all};

verus! {

/// A table none of whose patterns occurs in `s` leaves `s` unchanged.
pub proof fn lemma_apply_table_absent(s: Seq<char>, t: Seq<(Seq<char>, Seq<char>)>)
    requires
        forall|k: int| 0 <= k < t.len() ==> !contains_seq(s, #[trigger] t[k].0),
    ensures
        apply_table(s, t) == s,
    decreases t.len(),
{
    if t.len() > 0 {
        lemma_replace_absent(s, t[0].0, t[0].1);
        let rest = t.subrange(1, t.len() as int);
        assert forall|k: int| 0 <= k < rest.len() implies !contains_seq(s, #[trigger] rest[k].0) by {
            assert(rest[k] == t[k + 1]);
        }
        lemma_apply_table_absent(s, rest);
    }
}

proof fn lemma_builtin_tokens_start_with_dollar(c: MacroValues)
    ensures
        forall|k: int|
            0 <= k < builtin_table(c).len() ==> (#[trigger] builtin_table(c)[k]).0.len() > 0
                && builtin_table(c)[k].0[0] == '$',
{
    reveal_strlit("$FILE_NAME$");
    reveal_strlit("$FILE_EXT$");
    reveal_strlit("$NAME$");
    reveal_strlit("$AUTHOR$");
    reveal_strlit("$DATETIME$");
    reveal_strlit("$DATE$");
    reveal_strlit("$TIME$");
    reveal_strlit("$YEAR$");
    reveal_strlit("$MONTH_NUM$");
    reveal_strlit("$MONTH$");
    reveal_strlit("$DAY$");
    reveal_strlit("$WEEKDAY$");
}

/// A template with no `$` and no run of three line breaks comes out of the
/// built-in expansion unchanged.
pub proof fn lemma_expand_without_macros_is_identity(s: Seq<char>, c: MacroValues)
    requires
        !s.contains('$'),
        !has_blank_run(s),
    ensures
        expand_builtin(s, c) == s,
{
    let t = builtin_table(c);
    lemma_builtin_tokens_start_with_dollar(c);
    assert forall|k: int| 0 <= k < t.len() implies !contains_seq(s, #[trigger] t[k].0) by {
        if contains_seq(s, t[k].0) {
            let i = choose|i: int| occurs_at(s, i, t[k].0);
            assert(s.subrange(i, i + t[k].0.len())[0] == s[i]);
        }
    }
    lemma_apply_table_absent(s, t);
}

/// Expanding an expansion again changes nothing, once no built-in macro is left
/// in it.
pub proof fn lemma_expand_idempotent(s: Seq<char>, c: MacroValues)
    requires
        !holds_builtin(expand_builtin(s, c), c),
    ensures
        expand_builtin(expand_builtin(s, c), c) == expand_builtin(s, c),
{
    let u = expand_builtin(s, c);
    let t = builtin_table(c);
    lemma_normalized_has_no_run(apply_table(s, t));
    assert forall|k: int| 0 <= k < t.len() implies !contains_seq(u, #[trigger] t[k].0) by {}
    lemma_apply_table_absent(u, t);
}

/// `n` line feeds.
pub open spec fn line_feeds(n: nat) -> Seq<char> {
    Seq::new(n, |i: int| '\n')
}

proof fn lemma_collapse_line_feeds(n: nat)
    ensures
        replace_all(line_feeds(n), lf3(), lf2()) == line_feeds((n - n / 3) as nat),
    decreases n,
{
    if n >= 3 {
        let s = line_feeds(n);
        assert(s.subrange(0, 3) =~= lf3());
        assert(s.subrange(3, n as int) =~= line_feeds((n - 3) as nat));
        lemma_collapse_line_feeds((n - 3) as nat);
        assert((n - 3) as nat / 3 == n / 3 - 1);
        assert(lf2() + line_feeds(((n - 3) - (n - 3) as nat / 3) as nat) =~= line_feeds(
            (n - n / 3) as nat,
        ));
    } else {
        assert(n / 3 == 0);
    }
}

/// Any run of three or more line feeds, alone, collapses to exactly two.
pub proof fn lemma_line_feed_run_collapses(n: nat)
    requires
        n >= 3,
    ensures
        normalize_blank_lines(line_feeds(n)) == lf2(),
    decreases n,
{
    let s = line_feeds(n);
    assert(s.subrange(0, 3) =~= lf3());
    assert(occurs_at(s, 0, lf3()));
    assert(has_blank_run(s));
    lemma_collapse_shrinks(s);
    assert(!contains_seq(s, crlf3())) by {
        if contains_seq(s, crlf3()) {
            let i = choose|i: int| occurs_at(s, i, crlf3());
            assert(s.subrange(i, i + 6)[0] == s[i]);
        }
    }
    lemma_replace_absent(s, crlf3(), seq!['\r', '\n', '\r', '\n']);
    lemma_collapse_line_feeds(n);
    let m = (n - n / 3) as nat;
    assert(collapse_once(s) == line_feeds(m));
    if m >= 3 {
        lemma_line_feed_run_collapses(m);
    } else {
        assert(m == 2);
        let u = line_feeds(2);
        assert(!contains_seq(u, lf3()));
        assert(!contains_seq(u, crlf3()));
        assert(u =~= lf2());
    }
}

/// Applying a table is applying its first `k` entries, then the others.
pub proof fn lemma_apply_table_split(s: Seq<char>, t: Seq<(Seq<char>, Seq<char>)>, k: int)
    requires
        0 <= k <= t.len(),
    ensures
        apply_table(s, t) == apply_table(
            apply_table(s, t.subrange(0, k)),
            t.subrange(k, t.len() as int),
        ),
    decreases k,
{
    if k > 0 {
        let s1 = replace_all(s, t[0].0, t[0].1);
        let t1 = t.subrange(1, t.len() as int);
        lemma_apply_table_split(s1, t1, k - 1);
        assert(t.subrange(0, k).subrange(1, k) =~= t1.subrange(0, k - 1));
        assert(t1.subrange(k - 1, t1.len() as int) =~= t.subrange(k, t.len() as int));
        assert(t.subrange(0, k)[0] == t[0]);
    } else {
        assert(t.subrange(0, 0).len() == 0);
        assert(t.subrange(0, t.len() as int) =~= t);
    }
}

proof fn lemma_decimal_has_no_dollar(n: nat)
    ensures
        !decimal(n).contains('$'),
        !decimal(n).contains('\n'),
        !decimal(n).contains('\r'),
    decreases n,
{
    if n >= 10 {
        lemma_decimal_has_no_dollar(n / 10);
        assert forall|i: int| 0 <= i < decimal(n).len() - 1 implies decimal(n)[i] == decimal(
            n / 10,
        )[i] by {}
    }
}

/// With no script, `$YEAR$` expands to the year in decimal, with a minus sign
/// before the common era; for the years 1000 to 9999, four digits.
pub proof fn lemma_year_macro(c: MacroValues)
    ensures
        expand_builtin("$YEAR$"@, c) == signed_decimal(c.time.year as int),
        1000 <= c.time.year <= 9999 ==> signed_decimal(c.time.year as int).len() == 4 && forall|i: int|
            0 <= i < 4 ==> '0' <= #[trigger] signed_decimal(c.time.year as int)[i] <= '9',
{
    let t = builtin_table(c);
    let y = "$YEAR$"@;
    reveal_strlit("$YEAR$");
    lemma_builtin_tokens_start_with_dollar(c);
    reveal_strlit("$FILE_NAME$");
    reveal_strlit("$FILE_EXT$");
    reveal_strlit("$NAME$");
    reveal_strlit("$AUTHOR$");
    reveal_strlit("$DATETIME$");
    reveal_strlit("$DATE$");
    reveal_strlit("$TIME$");
    let year = signed_decimal(c.time.year as int);
    let head = t.subrange(0, 7);
    assert forall|k: int| 0 <= k < head.len() implies !contains_seq(y, #[trigger] head[k].0) by {
        if contains_seq(y, head[k].0) {
            let i = choose|i: int| occurs_at(y, i, head[k].0);
            assert(y.subrange(i, i + head[k].0.len())[1] == head[k].0[1]);
        }
    }
    lemma_apply_table_absent(y, head);
    assert(y.subrange(0, 6) =~= y);
    let rest = t.subrange(8, t.len() as int);
    if c.time.year < 0 {
        lemma_decimal_has_no_dollar((-c.time.year) as nat);
    } else {
        lemma_decimal_has_no_dollar(c.time.year as nat);
    }
    assert(!year.contains('$')) by {
        if c.time.year < 0 {
            let d = decimal((-c.time.year) as nat);
            assert forall|i: int| 1 <= i < year.len() implies year[i] == d[i - 1] by {}
        }
    }
    assert forall|k: int| 0 <= k < rest.len() implies !contains_seq(year, #[trigger] rest[k].0) by {
        assert(rest[k] == t[k + 8]);
        if contains_seq(year, rest[k].0) {
            let i = choose|i: int| occurs_at(year, i, rest[k].0);
            assert(year.subrange(i, i + rest[k].0.len())[0] == year[i]);
        }
    }
    assert(apply_table(y, t) == year) by {
        lemma_apply_table_split(y, t, 7);
        let tail = t.subrange(7, t.len() as int);
        assert(tail[0] == (y, year));
        assert(tail.subrange(1, tail.len() as int) =~= rest);
        assert(replace_all(y, y, year) == year) by {
            let e = y.subrange(6, 6);
            assert(e.len() == 0);
            assert(replace_all(e, y, year) == e);
            assert(y.subrange(0, 6) =~= y);
            assert(y.subrange(0, y.len() as int) == y);
            assert(year + e =~= year);
        }
        lemma_apply_table_absent(year, rest);
    }
    assert(!has_blank_run(year)) by {
        assert(!year.contains('\n')) by {
            if c.time.year < 0 {
                let d = decimal((-c.time.year) as nat);
                assert forall|i: int| 1 <= i < year.len() implies year[i] == d[i - 1] by {}
            }
        }
        if contains_seq(year, lf3()) {
            let i = choose|i: int| occurs_at(year, i, lf3());
            assert(year.subrange(i, i + 3)[0] == year[i]);
        }
        if contains_seq(year, crlf3()) {
            let i = choose|i: int| occurs_at(year, i, crlf3());
            assert(year.subrange(i, i + 6)[1] == year[i + 1]);
        }
    }
    if 1000 <= c.time.year <= 9999 {
        let n = c.time.year as nat;
        assert(decimal(n) == decimal(n / 10).push(digit_char(n % 10)));
        assert(decimal(n / 10) == decimal(n / 100).push(digit_char((n / 10) % 10)));
        assert(decimal(n / 100) == decimal(n / 1000).push(digit_char((n / 100) % 10)));
        assert(n / 1000 < 10);
        assert(decimal(n / 1000) == seq![digit_char(n / 1000)]);
    }
}

/// `n` CR LF line breaks.
pub open spec fn crlf_breaks(n: nat) -> Seq<char> {
    Seq::new(2 * n, |i: int| if i % 2 == 0 { '\r' } else { '\n' })
}

proof fn lemma_collapse_crlf_breaks(n: nat)
    ensures
        replace_all(crlf_breaks(n), crlf3(), crlf2()) == crlf_breaks((n - n / 3) as nat),
    decreases n,
{
    let s = crlf_breaks(n);
    if n >= 3 {
        assert(s.subrange(0, 6) =~= crlf3());
        assert(s.subrange(6, s.len() as int) =~= crlf_breaks((n - 3) as nat));
        lemma_collapse_crlf_breaks((n - 3) as nat);
        assert((n - 3) as nat / 3 == n / 3 - 1);
        assert(crlf2() + crlf_breaks(((n - 3) - (n - 3) as nat / 3) as nat) =~= crlf_breaks(
            (n - n / 3) as nat,
        ));
    } else {
        assert(n / 3 == 0);
    }
}

proof fn lemma_crlf_breaks_no_lf3(n: nat)
    ensures
        !contains_seq(crlf_breaks(n), lf3()),
{
    let s = crlf_breaks(n);
    if contains_seq(s, lf3()) {
        let i = choose|i: int| occurs_at(s, i, lf3());
        assert(s.subrange(i, i + 3)[0] == s[i]);
        assert(s.subrange(i, i + 3)[1] == s[i + 1]);
    }
}

/// Any run of three or more CR LF line breaks, alone, collapses to exactly two.
pub proof fn lemma_crlf_run_collapses(n: nat)
    requires
        n >= 3,
    ensures
        normalize_blank_lines(crlf_breaks(n)) == crlf2(),
    decreases n,
{
    let s = crlf_breaks(n);
    assert(s.subrange(0, 6) =~= crlf3());
    assert(occurs_at(s, 0, crlf3()));
    assert(has_blank_run(s));
    lemma_collapse_shrinks(s);
    lemma_collapse_crlf_breaks(n);
    let m = (n - n / 3) as nat;
    lemma_crlf_breaks_no_lf3(m);
    lemma_replace_absent(crlf_breaks(m), lf3(), lf2());
    assert(collapse_once(s) == crlf_breaks(m));
    assert(normalize_blank_lines(s) == normalize_blank_lines(crlf_breaks(m)));
    if m >= 3 {
        lemma_crlf_run_collapses(m);
    } else {
        assert(m == 2);
        let u = crlf_breaks(2);
        lemma_crlf_breaks_no_lf3(2);
        assert(!contains_seq(u, crlf3()));
        assert(!has_blank_run(u));
        assert(normalize_blank_lines(u) == u);
        assert(u =~= crlf2());
    }
}

/// Replacing in `a + b`, where no occurrence starts inside `a`, leaves `a` as it is.
pub proof fn lemma_replace_after_prefix(a: Seq<char>, b: Seq<char>, p: Seq<char>, r: Seq<char>)
    requires
        p.len() > 0,
        forall|i: int| 0 <= i < a.len() ==> !occurs_at(a + b, i, p),
    ensures
        replace_all(a + b, p, r) == a + replace_all(b, p, r),
    decreases a.len(),
{
    let s = a + b;
    if a.len() == 0 {
        assert(s =~= b);
        assert(a + replace_all(b, p, r) =~= replace_all(b, p, r));
    } else if s.len() < p.len() {
        assert(replace_all(b, p, r) == b);
        assert(a + b =~= s);
    } else {
        assert(!occurs_at(s, 0, p));
        let a1 = a.drop_first();
        assert(s.subrange(1, s.len() as int) =~= a1 + b);
        assert forall|i: int| 0 <= i < a1.len() implies !occurs_at(a1 + b, i, p) by {
            if occurs_at(a1 + b, i, p) {
                assert((a1 + b).subrange(i, i + p.len()) =~= s.subrange(i + 1, i + 1 + p.len()));
                assert(occurs_at(s, i + 1, p));
            }
        }
        lemma_replace_after_prefix(a1, b, p, r);
        assert(seq![s[0]] + (a1 + replace_all(b, p, r)) =~= a + replace_all(b, p, r));
    }
}

/// With no script, `$YEAR$` inside text that holds no other `$` expands to the
/// year in decimal, the text around it unchanged, when that text holds no run of
/// three line breaks (such a run would be collapsed too).
pub proof fn lemma_year_macro_in_text(s1: Seq<char>, s2: Seq<char>, c: MacroValues)
    requires
        !s1.contains('$'),
        !s2.contains('$'),
        !has_blank_run(s1 + signed_decimal(c.time.year as int) + s2),
    ensures
        expand_builtin(s1 + "$YEAR$"@ + s2, c) == s1 + signed_decimal(c.time.year as int) + s2,
{
    let t = builtin_table(c);
    let y = "$YEAR$"@;
    let year = signed_decimal(c.time.year as int);
    let k = s1.len() as int;
    let whole = s1 + y + s2;
    reveal_strlit("$YEAR$");
    reveal_strlit("$FILE_NAME$");
    reveal_strlit("$FILE_EXT$");
    reveal_strlit("$NAME$");
    reveal_strlit("$AUTHOR$");
    reveal_strlit("$DATETIME$");
    reveal_strlit("$DATE$");
    reveal_strlit("$TIME$");
    lemma_builtin_tokens_start_with_dollar(c);
    assert forall|i: int| 0 <= i < whole.len() && whole[i] == '$' implies i == k || i == k + 5 by {
        if i < k {
            assert(whole[i] == s1[i]);
        } else if i >= k + 6 {
            assert(whole[i] == s2[i - k - 6]);
        } else {
            assert(whole[i] == y[i - k]);
        }
    }
    let head = t.subrange(0, 7);
    assert forall|j: int| 0 <= j < head.len() implies !contains_seq(whole, #[trigger] head[j].0) by {
        let tok = head[j].0;
        assert(tok.len() >= 5 && tok[0] == '$' && tok[tok.len() - 1] == '$');
        assert(tok.len() != 6 || tok[1] != 'Y');
        if contains_seq(whole, tok) {
            let i = choose|i: int| occurs_at(whole, i, tok);
            assert(whole.subrange(i, i + tok.len())[0] == whole[i]);
            assert(whole.subrange(i, i + tok.len())[tok.len() - 1] == whole[i + tok.len() - 1]);
            assert(whole.subrange(i, i + tok.len())[1] == whole[i + 1]);
        }
    }
    lemma_apply_table_absent(whole, head);
    lemma_apply_table_split(whole, t, 7);
    let tail = t.subrange(7, t.len() as int);
    assert(tail[0] == (y, year));
    let rest = t.subrange(8, t.len() as int);
    assert(tail.subrange(1, tail.len() as int) =~= rest);
    assert(replace_all(whole, y, year) == s1 + year + s2) by {
        assert(whole =~= s1 + (y + s2));
        assert forall|i: int| 0 <= i < s1.len() implies !occurs_at(s1 + (y + s2), i, y) by {
            assert((s1 + (y + s2)).subrange(i, i + 6)[0] == s1[i]);
        }
        lemma_replace_after_prefix(s1, y + s2, y, year);
        assert((y + s2).subrange(0, 6) =~= y);
        assert((y + s2).subrange(6, (y + s2).len() as int) =~= s2);
        assert(!contains_seq(s2, y)) by {
            if contains_seq(s2, y) {
                let i = choose|i: int| occurs_at(s2, i, y);
                assert(s2.subrange(i, i + 6)[0] == s2[i]);
            }
        }
        lemma_replace_absent(s2, y, year);
        assert(s1 + (year + s2) =~= s1 + year + s2);
    }
    let after = s1 + year + s2;
    if c.time.year < 0 {
        lemma_decimal_has_no_dollar((-c.time.year) as nat);
    } else {
        lemma_decimal_has_no_dollar(c.time.year as nat);
    }
    assert(!after.contains('$')) by {
        if c.time.year < 0 {
            let d = decimal((-c.time.year) as nat);
            assert forall|i: int| 1 <= i < year.len() implies year[i] == d[i - 1] by {}
        }
        assert forall|i: int| 0 <= i < after.len() implies after[i] != '$' by {
            if i < k {
                assert(after[i] == s1[i]);
            } else if i >= k + year.len() {
                assert(after[i] == s2[i - k - year.len()]);
            } else {
                assert(after[i] == year[i - k]);
            }
        }
    }
    assert forall|j: int| 0 <= j < rest.len() implies !contains_seq(after, #[trigger] rest[j].0) by {
        assert(rest[j] == t[j + 8]);
        if contains_seq(after, rest[j].0) {
            let i = choose|i: int| occurs_at(after, i, rest[j].0);
            assert(after.subrange(i, i + rest[j].0.len())[0] == after[i]);
        }
    }
    lemma_apply_table_absent(after, rest);
}

/// A text that holds no built-in macro and no run of three line breaks is a
/// fixed point of the built-in expansion: generating again from it gives it back.
pub proof fn lemma_expand_fixed_point(x: Seq<char>, c: MacroValues)
    requires
        !holds_builtin(x, c),
        !has_blank_run(x),
    ensures
        expand_builtin(x, c) == x,
{
    let t = builtin_table(c);
    assert forall|k: int| 0 <= k < t.len() implies !contains_seq(x, #[trigger] t[k].0) by {}
    lemma_apply_table_absent(x, t);
}

} // verus!
