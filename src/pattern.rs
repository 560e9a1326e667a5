use vstd::prelude::*;
use crate::clock::Moment;
use crate::text::{is_digit, zero_padded, push_zero_padded, lemma_zero_padded_digits};

verus! {

/// `s` with every occurrence of `token` replaced by `with`, matched left to
/// right without overlap.
pub open spec fn replaced(s: Seq<char>, token: Seq<char>, with: Seq<char>) -> Seq<char>
    decreases s.len(),
{
    if s.len() == 0 {
        s
    } else if 0 < token.len() <= s.len() && s.subrange(0, token.len() as int) == token {
        with + replaced(s.subrange(token.len() as int, s.len() as int), token, with)
    } else {
        seq![s[0]] + replaced(s.drop_first(), token, with)
    }
}

/// Whether `token` occurs in `s` at position `i`.
pub open spec fn occurs_at(s: Seq<char>, token: Seq<char>, i: int) -> bool {
    0 <= i && i + token.len() <= s.len() && s.subrange(i, i + token.len()) == token
}

/// Whether `token` occurs anywhere in `s`.
pub open spec fn occurs(s: Seq<char>, token: Seq<char>) -> bool {
    exists|i: int| occurs_at(s, token, i)
}

/// The token for the full year.
pub open spec fn full_year_token() -> Seq<char> {
    seq!['Y', 'Y', 'Y', 'Y']
}

/// The token for the month.
pub open spec fn month_token() -> Seq<char> {
    seq!['M', 'M']
}

/// The token for the day of the month.
pub open spec fn day_token() -> Seq<char> {
    seq!['D', 'D']
}

/// The token for the year within its century.
pub open spec fn short_year_token() -> Seq<char> {
    seq!['Y', 'Y']
}

/// The full year: four digits with zeros in front for years 0 to 9999, and a
/// sign before at least four digits for the others.
pub open spec fn full_year_text(year: int) -> Seq<char> {
    if 0 <= year <= 9999 {
        zero_padded(year as nat, 4)
    } else if year < 0 {
        seq!['-'] + zero_padded((-year) as nat, 4)
    } else {
        seq!['+'] + zero_padded(year as nat, 4)
    }
}

/// The year within its century, always two digits.
pub open spec fn short_year_text(year: int) -> Seq<char> {
    zero_padded((year % 100) as nat, 2)
}

/// The file name stem for a moment: the four tokens replaced in turn, the full
/// year first, then the month, the day and the short year.
pub open spec fn formatted(pattern: Seq<char>, m: Moment) -> Seq<char> {
    let a = replaced(pattern, full_year_token(), full_year_text(m.year as int));
    let b = replaced(a, month_token(), zero_padded(m.month as nat, 2));
    let c = replaced(b, day_token(), zero_padded(m.day as nat, 2));
    replaced(c, short_year_token(), short_year_text(m.year as int))
}

fn occurs_at_exec(s: &str, n: usize, token: &str, m: usize, i: usize) -> (r: bool)
    requires
        n == s@.len(),
        m == token@.len(),
        i <= n,
    ensures
        r == occurs_at(s@, token@, i as int),
{
    if m > n - i {
        return false;
    }
    let mut j: usize = 0;
    while j < m
        invariant
            i + m <= n,
            n == s@.len(),
            m == token@.len(),
            j <= m,
            forall|k: int| 0 <= k < j ==> s@[i + k] == token@[k],
        decreases m - j,
    {
        if s.get_char(i + j) != token.get_char(j) {
            assert(s@.subrange(i as int, i + m)[j as int] != token@[j as int]);
            return false;
        }
        j = j + 1;
    }
    assert(s@.subrange(i as int, i + m) =~= token@);
    true
}

proof fn lemma_replaced_from(s: Seq<char>, token: Seq<char>, with: Seq<char>, i: int)
    requires
        0 <= i < s.len(),
        token.len() > 0,
    ensures
        replaced(s.subrange(i, s.len() as int), token, with) == if occurs_at(s, token, i) {
            with + replaced(s.subrange(i + token.len(), s.len() as int), token, with)
        } else {
            seq![s[i]] + replaced(s.subrange(i + 1, s.len() as int), token, with)
        },
{
    let t = s.subrange(i, s.len() as int);
    if occurs_at(s, token, i) {
        assert(t.subrange(0, token.len() as int) =~= s.subrange(i, i + token.len()));
        assert(t.subrange(token.len() as int, t.len() as int) =~= s.subrange(i + token.len(), s.len() as int));
    } else {
        if token.len() <= t.len() {
            assert(t.subrange(0, token.len() as int) =~= s.subrange(i, i + token.len()));
        }
        assert(t.drop_first() =~= s.subrange(i + 1, s.len() as int));
    }
}

/// Replaces every occurrence of `token` in `s` by `with`, left to right.
pub fn replace_all(s: &str, token: &str, with: &str) -> (r: String)
    requires
        token@.len() > 0,
    ensures
        r@ == replaced(s@, token@, with@),
{
    let n = s.unicode_len();
    let m = token.unicode_len();
    let mut out = String::new();
    let mut i: usize = 0;
    assert(s@.subrange(0, n as int) =~= s@);
    assert(out@ + replaced(s@, token@, with@) =~= replaced(s@, token@, with@));
    while i < n
        invariant
            n == s@.len(),
            m == token@.len(),
            m > 0,
            i <= n,
            out@ + replaced(s@.subrange(i as int, n as int), token@, with@) == replaced(s@, token@, with@),
        decreases n - i,
    {
        proof {
            lemma_replaced_from(s@, token@, with@, i as int);
        }
        let ghost before = out@;
        if occurs_at_exec(s, n, token, m, i) {
            out.append(with);
            proof {
                let rest = replaced(s@.subrange(i + m, n as int), token@, with@);
                assert((before + with@) + rest =~= before + (with@ + rest));
            }
            i = i + m;
        } else {
            let c = s.substring_char(i, i + 1);
            out.append(c);
            proof {
                let rest = replaced(s@.subrange(i + 1, n as int), token@, with@);
                assert(c@ =~= seq![s@[i as int]]);
                assert((before + c@) + rest =~= before + (c@ + rest));
            }
            i = i + 1;
        }
    }
    proof {
        assert(s@.subrange(n as int, n as int) =~= Seq::<char>::empty());
    }
    out
}

fn push_full_year(out: &mut String, year: i32)
    ensures
        final(out)@ == old(out)@ + full_year_text(year as int),
{
    if 0 <= year && year <= 9999 {
        push_zero_padded(out, year as u32, 4);
    } else if year < 0 {
        proof {
            reveal_strlit("-");
        }
        out.append("-");
        let magnitude: u32 = (-(year as i64)) as u32;
        push_zero_padded(out, magnitude, 4);
        assert(final(out)@ =~= old(out)@ + full_year_text(year as int));
    } else {
        proof {
            reveal_strlit("+");
        }
        out.append("+");
        push_zero_padded(out, year as u32, 4);
        assert(final(out)@ =~= old(out)@ + full_year_text(year as int));
    }
}

fn push_short_year(out: &mut String, year: i32)
    ensures
        final(out)@ == old(out)@ + short_year_text(year as int),
{
    let e: u32 = if year >= 0 {
        (year as u32) % 100
    } else {
        let magnitude: u32 = (-(year as i64)) as u32;
        let r: u32 = magnitude % 100;
        proof {
            let q = magnitude as int / 100;
            assert(magnitude as int == q * 100 + r as int) by (nonlinear_arith)
                requires
                    q == magnitude as int / 100,
                    r as int == magnitude as int % 100,
            {
            }
            if r == 0 {
                vstd::arithmetic::div_mod::lemma_fundamental_div_mod_converse(year as int, 100, -q, 0);
            } else {
                assert(year as int == (-q - 1) * 100 + (100 - r as int)) by (nonlinear_arith)
                    requires
                        year as int == -(magnitude as int),
                        magnitude as int == q * 100 + r as int,
                {
                }
                vstd::arithmetic::div_mod::lemma_fundamental_div_mod_converse(year as int, 100, -q - 1, 100 - r as int);
            }
        }
        if r == 0 { 0 } else { 100 - r }
    };
    push_zero_padded(out, e, 2);
}

/// The file name stem for `moment`: in `pattern`, every `YYYY` becomes the
/// full year, then every `MM` the month, every `DD` the day and every `YY` the
/// year within its century, months, days and short years as two digits.
pub fn format_date(pattern: &str, moment: &Moment) -> (r: String)
    ensures
        r@ == formatted(pattern@, *moment),
{
    proof {
        reveal_strlit("YYYY");
        reveal_strlit("MM");
        reveal_strlit("DD");
        reveal_strlit("YY");
    }
    let mut year = String::new();
    push_full_year(&mut year, moment.year);
    let mut month = String::new();
    push_zero_padded(&mut month, moment.month, 2);
    let mut day = String::new();
    push_zero_padded(&mut day, moment.day, 2);
    let mut short_year = String::new();
    push_short_year(&mut short_year, moment.year);
    assert("YYYY"@ =~= full_year_token());
    assert("MM"@ =~= month_token());
    assert("DD"@ =~= day_token());
    assert("YY"@ =~= short_year_token());
    let a = replace_all(pattern, "YYYY", year.as_str());
    let b = replace_all(a.as_str(), "MM", month.as_str());
    let c = replace_all(b.as_str(), "DD", day.as_str());
    replace_all(c.as_str(), "YY", short_year.as_str())
}

proof fn lemma_replaced_absent(s: Seq<char>, token: Seq<char>, with: Seq<char>)
    requires
        token.len() > 0,
        !occurs(s, token),
    ensures
        replaced(s, token, with) == s,
    decreases s.len(),
{
    if s.len() > 0 {
        assert(!occurs_at(s, token, 0));
        let t = s.drop_first();
        assert forall|i: int| !occurs_at(t, token, i) by {
            if occurs_at(t, token, i) {
                assert(s.subrange(i + 1, i + 1 + token.len()) =~= t.subrange(i, i + token.len()));
                assert(occurs_at(s, token, i + 1));
            }
        }
        lemma_replaced_absent(t, token, with);
        assert(seq![s[0]] + t =~= s);
    }
}

proof fn lemma_replaced_after_prefix(a: Seq<char>, b: Seq<char>, token: Seq<char>, with: Seq<char>)
    requires
        token.len() > 0,
        forall|i: int| 0 <= i < a.len() ==> a[i] != token[0],
    ensures
        replaced(a + b, token, with) == a + replaced(b, token, with),
    decreases a.len(),
{
    if a.len() == 0 {
        assert(a + b =~= b);
        assert(a + replaced(b, token, with) =~= replaced(b, token, with));
    } else {
        let ab = a + b;
        if token.len() <= ab.len() {
            assert(ab.subrange(0, token.len() as int)[0] == a[0]);
        }
        assert(ab.drop_first() =~= a.drop_first() + b);
        lemma_replaced_after_prefix(a.drop_first(), b, token, with);
        assert(seq![a[0]] + (a.drop_first() + replaced(b, token, with)) =~= a + replaced(b, token, with));
    }
}

proof fn lemma_full_year_text_digits(year: int)
    ensures
        forall|i: int| 0 <= i < full_year_text(year).len() ==> {
            let c = #[trigger] full_year_text(year)[i];
            is_digit(c) || c == '-' || c == '+'
        },
{
    if 0 <= year <= 9999 {
        lemma_zero_padded_digits(year as nat, 4);
    } else if year < 0 {
        lemma_zero_padded_digits((-year) as nat, 4);
        let z = zero_padded((-year) as nat, 4);
        assert forall|i: int| 0 <= i < full_year_text(year).len() implies {
            let c = #[trigger] full_year_text(year)[i];
            is_digit(c) || c == '-' || c == '+'
        } by {
            if i > 0 {
                assert(full_year_text(year)[i] == z[i - 1]);
            }
        }
    } else {
        lemma_zero_padded_digits(year as nat, 4);
        let z = zero_padded(year as nat, 4);
        assert forall|i: int| 0 <= i < full_year_text(year).len() implies {
            let c = #[trigger] full_year_text(year)[i];
            is_digit(c) || c == '-' || c == '+'
        } by {
            if i > 0 {
                assert(full_year_text(year)[i] == z[i - 1]);
            }
        }
    }
}

/// A pattern that holds none of the four tokens is its own file name stem,
/// whatever the moment.
pub proof fn lemma_plain_pattern_unchanged(pattern: Seq<char>, m: Moment)
    requires
        !occurs(pattern, full_year_token()),
        !occurs(pattern, month_token()),
        !occurs(pattern, day_token()),
        !occurs(pattern, short_year_token()),
    ensures
        formatted(pattern, m) == pattern,
{
    lemma_replaced_absent(pattern, full_year_token(), full_year_text(m.year as int));
    lemma_replaced_absent(pattern, month_token(), zero_padded(m.month as nat, 2));
    lemma_replaced_absent(pattern, day_token(), zero_padded(m.day as nat, 2));
    lemma_replaced_absent(pattern, short_year_token(), short_year_text(m.year as int));
}

/// A full-year token at the front of a pattern becomes the full year once:
/// the later passes, the short year's included, leave its characters alone
/// and work on what follows it only.
pub proof fn lemma_full_year_replaced_once(rest: Seq<char>, m: Moment)
    ensures
        formatted(full_year_token() + rest, m) == full_year_text(m.year as int) + formatted(rest, m),
{
    let x = full_year_text(m.year as int);
    let s = full_year_token() + rest;
    assert(s.subrange(0, 4) =~= full_year_token());
    assert(s.subrange(4, s.len() as int) =~= rest);
    let a = replaced(rest, full_year_token(), x);
    assert(replaced(s, full_year_token(), x) == x + a);
    lemma_full_year_text_digits(m.year as int);
    let b = replaced(a, month_token(), zero_padded(m.month as nat, 2));
    lemma_replaced_after_prefix(x, a, month_token(), zero_padded(m.month as nat, 2));
    let c = replaced(b, day_token(), zero_padded(m.day as nat, 2));
    lemma_replaced_after_prefix(x, b, day_token(), zero_padded(m.day as nat, 2));
    lemma_replaced_after_prefix(x, c, short_year_token(), short_year_text(m.year as int));
}

/// Whether `c` occurs anywhere in `s`.
pub open spec fn holds_char(s: Seq<char>, c: char) -> bool {
    exists|i: int| 0 <= i < s.len() && s[i] == c
}

proof fn lemma_no_double_after_replace(s: Seq<char>, token: Seq<char>, with: Seq<char>, c: char)
    requires
        token.len() > 0,
        with.len() > 0,
        !holds_char(with, c),
        token == seq![c, c] || !occurs(s, seq![c, c]),
    ensures
        !occurs(replaced(s, token, with), seq![c, c]),
        replaced(s, token, with).len() > 0 && replaced(s, token, with)[0] == c ==> s.len() > 0 && s[0] == c,
    decreases s.len(),
{
    let cc = seq![c, c];
    let out = replaced(s, token, with);
    if s.len() > 0 {
        if 0 < token.len() <= s.len() && s.subrange(0, token.len() as int) == token {
            let rest = s.subrange(token.len() as int, s.len() as int);
            if token != cc {
                assert forall|i: int| !occurs_at(rest, cc, i) by {
                    if occurs_at(rest, cc, i) {
                        let j = i + token.len();
                        assert(s.subrange(j, j + 2) =~= rest.subrange(i, i + 2));
                        assert(occurs_at(s, cc, j));
                    }
                }
            }
            lemma_no_double_after_replace(rest, token, with, c);
            let r = replaced(rest, token, with);
            assert(out == with + r);
            assert forall|i: int| !occurs_at(out, cc, i) by {
                if occurs_at(out, cc, i) {
                    assert(out.subrange(i, i + 2)[0] == out[i]);
                    assert(out.subrange(i, i + 2)[1] == out[i + 1]);
                    if i < with.len() {
                        assert(out[i] == with[i]);
                    } else {
                        assert(out[i] == r[i - with.len()]);
                        assert(out[i + 1] == r[i + 1 - with.len()]);
                        assert(r.subrange(i - with.len(), i - with.len() + 2) =~= cc);
                        assert(occurs_at(r, cc, i - with.len()));
                    }
                }
            }
        } else {
            let rest = s.drop_first();
            if token != cc {
                assert forall|i: int| !occurs_at(rest, cc, i) by {
                    if occurs_at(rest, cc, i) {
                        assert(s.subrange(i + 1, i + 3) =~= rest.subrange(i, i + 2));
                        assert(occurs_at(s, cc, i + 1));
                    }
                }
            }
            lemma_no_double_after_replace(rest, token, with, c);
            let r = replaced(rest, token, with);
            assert(out == seq![s[0]] + r);
            assert forall|i: int| !occurs_at(out, cc, i) by {
                if occurs_at(out, cc, i) {
                    assert(out.subrange(i, i + 2)[0] == out[i]);
                    assert(out.subrange(i, i + 2)[1] == out[i + 1]);
                    if i == 0 {
                        assert(out[1] == r[0]);
                        assert(s.subrange(0, 2) =~= cc);
                        assert(occurs_at(s, cc, 0));
                    } else {
                        assert(out[i] == r[i - 1]);
                        assert(out[i + 1] == r[i]);
                        assert(r.subrange(i - 1, i + 1) =~= cc);
                        assert(occurs_at(r, cc, i - 1));
                    }
                }
            }
        }
    }
}

proof fn lemma_padded_holds_no_letter(n: nat, width: nat, c: char)
    requires
        !is_digit(c),
    ensures
        !holds_char(zero_padded(n, width), c),
        zero_padded(n, width).len() > 0,
{
    lemma_zero_padded_digits(n, width);
}

/// A file name stem holds none of the four tokens, so formatting it again,
/// for any moment, gives it back unchanged.
pub proof fn lemma_stem_is_settled(pattern: Seq<char>, m: Moment, other: Moment)
    ensures
        formatted(formatted(pattern, m), other) == formatted(pattern, m),
{
    let a = replaced(pattern, full_year_token(), full_year_text(m.year as int));
    let month = zero_padded(m.month as nat, 2);
    let day = zero_padded(m.day as nat, 2);
    let short = short_year_text(m.year as int);
    let b = replaced(a, month_token(), month);
    let c = replaced(b, day_token(), day);
    let d = replaced(c, short_year_token(), short);
    lemma_padded_holds_no_letter(m.month as nat, 2, 'M');
    lemma_padded_holds_no_letter(m.day as nat, 2, 'M');
    lemma_padded_holds_no_letter(m.day as nat, 2, 'D');
    lemma_padded_holds_no_letter((m.year as int % 100) as nat, 2, 'M');
    lemma_padded_holds_no_letter((m.year as int % 100) as nat, 2, 'D');
    lemma_padded_holds_no_letter((m.year as int % 100) as nat, 2, 'Y');
    assert(month_token() == seq!['M', 'M']);
    assert(day_token() == seq!['D', 'D']);
    assert(short_year_token() == seq!['Y', 'Y']);
    lemma_no_double_after_replace(a, month_token(), month, 'M');
    lemma_no_double_after_replace(b, day_token(), day, 'M');
    lemma_no_double_after_replace(b, day_token(), day, 'D');
    lemma_no_double_after_replace(c, short_year_token(), short, 'M');
    lemma_no_double_after_replace(c, short_year_token(), short, 'D');
    lemma_no_double_after_replace(c, short_year_token(), short, 'Y');
    assert forall|i: int| !occurs_at(d, full_year_token(), i) by {
        if occurs_at(d, full_year_token(), i) {
            assert(d.subrange(i, i + 2) =~= d.subrange(i, i + 4).subrange(0, 2));
            assert(full_year_token().subrange(0, 2) =~= short_year_token());
            assert(occurs_at(d, short_year_token(), i));
        }
    }
    lemma_plain_pattern_unchanged(d, other);
}

} // verus!
