use vstd::prelude::*;

use crate::chars::{char_is_whitespace, is_whitespace};
use crate::parse::ast::{lemma_strings_view_len, strings_view};
use crate::text::chars_of;
use crate::util::{lines_of, lines_of_chars};

verus! {

/// Why a Reef file could not be read.
#[derive(Debug, Clone, PartialEq, Eq, Structural)]
pub enum ReefParseError {
    /// A value is neither a string, a boolean nor a number.
    ValueParseError,
}

/// A value of a Reef file. A number is kept as the text that was written, which
/// is a floating-point number in the syntax that Rust reads.
#[derive(Debug, Clone, PartialEq)]
pub enum ReefValue {
    String(String),
    Number(String),
    Boolean(bool),
}

/// A Reef value as plain values.
pub enum SReefValue {
    String(Seq<char>),
    Number(Seq<char>),
    Boolean(bool),
}

impl View for ReefValue {
    type V = SReefValue;

    open spec fn view(&self) -> SReefValue {
        match self {
            ReefValue::String(s) => SReefValue::String(s@),
            ReefValue::Number(s) => SReefValue::Number(s@),
            ReefValue::Boolean(b) => SReefValue::Boolean(*b),
        }
    }
}

pub open spec fn is_digit(c: char) -> bool {
    '0' <= c <= '9'
}

/// The number of decimal digits at the start of `s`.
pub open spec fn leading_digits(s: Seq<char>) -> nat
    decreases s.len(),
{
    if s.len() > 0 && is_digit(s[0]) {
        1 + leading_digits(s.drop_first())
    } else {
        0
    }
}

/// `e` or `E`, an optional sign, and one or more digits.
pub open spec fn is_exponent(s: Seq<char>) -> bool {
    s.len() > 0 && (s[0] == 'e' || s[0] == 'E') && {
        let t = s.drop_first();
        let u = if t.len() > 0 && (t[0] == '+' || t[0] == '-') { t.drop_first() } else { t };
        u.len() > 0 && leading_digits(u) == u.len()
    }
}

/// Digits with an optional point, at least one digit in all, then an optional
/// exponent.
pub open spec fn is_decimal(s: Seq<char>) -> bool {
    let k = leading_digits(s);
    let r = s.skip(k as int);
    if r.len() > 0 && r[0] == '.' {
        let f = r.drop_first();
        let m = leading_digits(f);
        k + m > 0 && (f.skip(m as int).len() == 0 || is_exponent(f.skip(m as int)))
    } else {
        k > 0 && (r.len() == 0 || is_exponent(r))
    }
}

/// `c` is the lower-case ASCII letter `l`, or that letter in upper case.
pub open spec fn same_letter(c: char, l: char) -> bool {
    c == l || ('a' <= l <= 'z' && c as u32 + 32 == l as u32)
}

/// `s` is the word `w` with any letters in either case.
pub open spec fn same_word(s: Seq<char>, w: Seq<char>) -> bool {
    s.len() == w.len() && forall|i: int| 0 <= i < s.len() ==> same_letter(#[trigger] s[i], w[i])
}

/// A floating-point number as Rust's `f64::from_str` documents its syntax: an
/// optional sign, then `inf`, `infinity`, `nan` (in any case) or a decimal
/// number.
pub open spec fn is_float_text(s: Seq<char>) -> bool {
    let t = if s.len() > 0 && (s[0] == '+' || s[0] == '-') { s.drop_first() } else { s };
    same_word(t, seq!['i', 'n', 'f']) || same_word(t, seq!['i', 'n', 'f', 'i', 'n', 'i', 't', 'y']) || same_word(
        t,
        seq!['n', 'a', 'n'],
    ) || is_decimal(t)
}

/// The value written `s`: a string between quotes, `true`, `false` or a number.
pub open spec fn spec_reef_value(s: Seq<char>) -> Result<SReefValue, ReefParseError> {
    if s.len() > 0 && s[0] == '"' {
        Ok(SReefValue::String(s.subrange(1, s.len() - 1)))
    } else if s == seq!['t', 'r', 'u', 'e'] {
        Ok(SReefValue::Boolean(true))
    } else if s == seq!['f', 'a', 'l', 's', 'e'] {
        Ok(SReefValue::Boolean(false))
    } else if is_float_text(s) {
        Ok(SReefValue::Number(s))
    } else {
        Err(ReefParseError::ValueParseError)
    }
}

/// A value in quotes has its closing character, an ASCII one, after the opening
/// quote.
pub open spec fn value_can_be_cut(s: Seq<char>) -> bool {
    s.len() > 0 && s[0] == '"' ==> s.len() >= 2 && (s.last() as u32) < 0x80
}

pub open spec fn value_out(r: Result<ReefValue, ReefParseError>) -> Result<SReefValue, ReefParseError> {
    match r {
        Ok(v) => Ok(v@),
        Err(e) => Err(e),
    }
}

/// The number of digits in `cs` from `start` on.
fn count_digits(cs: &Vec<char>, start: usize) -> (r: usize)
    requires
        start <= cs.len(),
    ensures
        r == leading_digits(cs@.skip(start as int)),
        start + r <= cs.len(),
{
    let mut i = start;
    while i < cs.len() && '0' <= cs[i] && cs[i] <= '9'
        invariant
            start <= i <= cs.len(),
            leading_digits(cs@.skip(start as int)) == (i - start) + leading_digits(cs@.skip(i as int)),
        decreases cs.len() - i,
    {
        assert(cs@.skip(i as int).drop_first() =~= cs@.skip(i + 1));
        i = i + 1;
    }
    i - start
}

fn exponent_at(cs: &Vec<char>, q: usize) -> (r: bool)
    requires
        q <= cs.len(),
    ensures
        r == is_exponent(cs@.skip(q as int)),
{
    if q < cs.len() && (cs[q] == 'e' || cs[q] == 'E') {
        let ghost t = cs@.skip(q as int).drop_first();
        assert(t =~= cs@.skip(q + 1));
        let mut u = q + 1;
        if u < cs.len() && (cs[u] == '+' || cs[u] == '-') {
            assert(t.drop_first() =~= cs@.skip(u + 1));
            u = u + 1;
        }
        if u == cs.len() {
            return false;
        }
        let n = count_digits(cs, u);
        n == cs.len() - u
    } else {
        false
    }
}

fn decimal_at(cs: &Vec<char>, p: usize) -> (r: bool)
    requires
        p <= cs.len(),
    ensures
        r == is_decimal(cs@.skip(p as int)),
{
    let ghost s = cs@.skip(p as int);
    let k = count_digits(cs, p);
    let q = p + k;
    assert(s.skip(k as int) =~= cs@.skip(q as int));
    if q < cs.len() && cs[q] == '.' {
        assert(cs@.skip(q as int).drop_first() =~= cs@.skip(q + 1));
        let m = count_digits(cs, q + 1);
        assert(cs@.skip(q + 1).skip(m as int) =~= cs@.skip(q + 1 + m));
        k + m > 0 && (q + 1 + m == cs.len() || exponent_at(cs, q + 1 + m))
    } else {
        k > 0 && (q == cs.len() || exponent_at(cs, q))
    }
}

fn same_letter_exec(c: char, l: char) -> (r: bool)
    ensures
        r == same_letter(c, l),
{
    c == l || ('a' <= l && l <= 'z' && (c as u32) + 32 == (l as u32))
}

fn word_at(cs: &Vec<char>, p: usize, w: &Vec<char>) -> (r: bool)
    requires
        p <= cs.len(),
    ensures
        r == same_word(cs@.skip(p as int), w@),
{
    if cs.len() - p != w.len() {
        return false;
    }
    let mut i: usize = 0;
    while i < w.len()
        invariant
            cs.len() - p == w.len(),
            p <= cs.len(),
            i <= w.len(),
            forall|j: int| 0 <= j < i ==> same_letter(#[trigger] cs@.skip(p as int)[j], w@[j]),
        decreases w.len() - i,
    {
        if !same_letter_exec(cs[p + i], w[i]) {
            assert(cs@.skip(p as int)[i as int] == cs@[p + i]);
            return false;
        }
        assert(cs@.skip(p as int)[i as int] == cs@[p + i]);
        i = i + 1;
    }
    true
}

/// Whether `s` is a floating-point number in the syntax of `f64::from_str`.
pub fn float_text(s: &str) -> (r: bool)
    ensures
        r == is_float_text(s@),
{
    let cs = chars_of(s);
    let p: usize = if cs.len() > 0 && (cs[0] == '+' || cs[0] == '-') { 1 } else { 0 };
    proof {
        if p == 1 {
            assert(cs@.drop_first() =~= cs@.skip(1));
        } else {
            assert(cs@ =~= cs@.skip(0));
        }
    }
    let inf = chars_of("inf");
    let infinity = chars_of("infinity");
    let nan = chars_of("nan");
    proof {
        reveal_strlit("inf");
        reveal_strlit("infinity");
        reveal_strlit("nan");
        assert(inf@ =~= seq!['i', 'n', 'f']);
        assert(infinity@ =~= seq!['i', 'n', 'f', 'i', 'n', 'i', 't', 'y']);
        assert(nan@ =~= seq!['n', 'a', 'n']);
    }
    word_at(&cs, p, &inf) || word_at(&cs, p, &infinity) || word_at(&cs, p, &nan) || decimal_at(&cs, p)
}

impl ReefValue {
    /// Reads the value written `s`: text between quotes is a string, `true` and
    /// `false` are booleans, and a number is kept as it is written.
    pub fn from_str(s: &str) -> (r: Result<ReefValue, ReefParseError>)
        requires
            value_can_be_cut(s@),
        ensures
            value_out(r) == spec_reef_value(s@),
    {
        let cs = chars_of(s);
        if cs.len() > 0 && cs[0] == '"' {
            let mut t = String::new();
            let mut i: usize = 1;
            while i < cs.len() - 1
                invariant
                    1 <= i <= cs.len() - 1,
                    cs@ == s@,
                    cs.len() >= 2,
                    t@ == cs@.subrange(1, i as int),
                decreases cs.len() - 1 - i,
            {
                crate::text::push_char(&mut t, cs[i]);
                assert(t@ =~= cs@.subrange(1, i + 1));
                i = i + 1;
            }
            return Ok(ReefValue::String(t));
        }
        if cs.len() == 4 && cs[0] == 't' && cs[1] == 'r' && cs[2] == 'u' && cs[3] == 'e' {
            assert(s@ =~= seq!['t', 'r', 'u', 'e']);
            return Ok(ReefValue::Boolean(true));
        }
        if cs.len() == 5 && cs[0] == 'f' && cs[1] == 'a' && cs[2] == 'l' && cs[3] == 's' && cs[4] == 'e' {
            assert(s@ =~= seq!['f', 'a', 'l', 's', 'e']);
            return Ok(ReefValue::Boolean(false));
        }
        proof {
            if s@ == seq!['t', 'r', 'u', 'e'] {
                assert(cs@[0] == 't' && cs@[1] == 'r' && cs@[2] == 'u' && cs@[3] == 'e');
            }
            if s@ == seq!['f', 'a', 'l', 's', 'e'] {
                assert(cs@[0] == 'f' && cs@[1] == 'a' && cs@[2] == 'l' && cs@[3] == 's' && cs@[4] == 'e');
            }
        }
        if float_text(s) {
            Ok(ReefValue::Number(s.to_string()))
        } else {
            Err(ReefParseError::ValueParseError)
        }
    }
}

/// `s` without its leading white space.
pub open spec fn trim_start(s: Seq<char>) -> Seq<char>
    decreases s.len(),
{
    if s.len() > 0 && char_is_whitespace(s[0]) {
        trim_start(s.drop_first())
    } else {
        s
    }
}

/// `s` without its trailing white space.
pub open spec fn trim_end(s: Seq<char>) -> Seq<char>
    decreases s.len(),
{
    if s.len() > 0 && char_is_whitespace(s.last()) {
        trim_end(s.drop_last())
    } else {
        s
    }
}

/// `s` without white space at either end, as `str::trim` gives it.
pub open spec fn trim(s: Seq<char>) -> Seq<char> {
    trim_end(trim_start(s))
}

/// The position of the first `=` in `s`, or its length where there is none.
pub open spec fn equals_at(s: Seq<char>) -> nat
    decreases s.len(),
{
    if s.len() == 0 || s[0] == '=' {
        0
    } else {
        1 + equals_at(s.drop_first())
    }
}

/// A table of keys and values, the later value of a key replacing the earlier.
pub open spec fn table_map(e: Seq<(Seq<char>, SReefValue)>) -> Map<Seq<char>, SReefValue>
    decreases e.len(),
{
    if e.len() == 0 {
        Map::empty()
    } else {
        table_map(e.drop_last()).insert(e.last().0, e.last().1)
    }
}

/// No key occurs twice.
pub open spec fn keys_distinct(e: Seq<(Seq<char>, SReefValue)>) -> bool {
    forall|i: int, j: int| 0 <= i < j < e.len() ==> #[trigger] e[i].0 != #[trigger] e[j].0
}

pub open spec fn table_view(v: Seq<(String, ReefValue)>) -> Seq<(Seq<char>, SReefValue)> {
    v.map_values(|x: (String, ReefValue)| (x.0@, x.1@))
}

/// What reading the lines `lines` of a Reef file gives: each line that is not
/// blank or a `#` comment is a key, `=` and a value, and a later value of a key
/// replaces the earlier; the first value that cannot be read is the error.
/// `None` stands for a line that cannot be split at `=`, or a value in quotes
/// that cannot be cut.
pub open spec fn reef_lines(lines: Seq<Seq<char>>) -> Option<Result<Map<Seq<char>, SReefValue>, ReefParseError>>
    decreases lines.len(),
{
    if lines.len() == 0 {
        Some(Ok(Map::empty()))
    } else {
        match reef_lines(lines.drop_last()) {
            Some(Ok(m)) => {
                let l = trim(lines.last());
                if l.len() == 0 || l[0] == '#' {
                    Some(Ok(m))
                } else if equals_at(l) >= l.len() || !value_can_be_cut(l.skip(equals_at(l) + 1int)) {
                    None
                } else {
                    match spec_reef_value(l.skip(equals_at(l) + 1int)) {
                        Ok(v) => Some(Ok(m.insert(l.take(equals_at(l) as int), v))),
                        Err(e) => Some(Err(e)),
                    }
                }
            },
            other => other,
        }
    }
}

/// Setting the value of a key that the table holds once replaces it there.
proof fn lemma_table_update(e: Seq<(Seq<char>, SReefValue)>, j: int, v: SReefValue)
    requires
        keys_distinct(e),
        0 <= j < e.len(),
    ensures
        table_map(e.update(j, (e[j].0, v))) == table_map(e).insert(e[j].0, v),
        keys_distinct(e.update(j, (e[j].0, v))),
    decreases e.len(),
{
    let k = e[j].0;
    let u = e.update(j, (k, v));
    assert forall|a: int, b: int| 0 <= a < b < u.len() implies #[trigger] u[a].0 != #[trigger] u[b].0 by {
        assert(e[a].0 != e[b].0);
    }
    if j == e.len() - 1 {
        assert(u.drop_last() =~= e.drop_last());
        assert(table_map(u) =~= table_map(e).insert(k, v));
    } else {
        let d = e.drop_last();
        assert(keys_distinct(d)) by {
            assert forall|a: int, b: int| 0 <= a < b < d.len() implies #[trigger] d[a].0 != #[trigger] d[b].0 by {
                assert(e[a].0 != e[b].0);
            }
        }
        lemma_table_update(d, j, v);
        assert(u.drop_last() =~= d.update(j, (k, v)));
        assert(e.last().0 != k);
        assert(table_map(u) =~= table_map(e).insert(k, v));
    }
}

/// `l` without white space at either end.
fn trim_text(l: &String) -> (r: Vec<char>)
    ensures
        r@ == trim(l@),
{
    let cs = chars_of(l.as_str());
    let mut i: usize = 0;
    assert(cs@.skip(0) =~= cs@);
    while i < cs.len() && is_whitespace(cs[i])
        invariant
            i <= cs.len(),
            cs@ == l@,
            trim_start(l@) == trim_start(cs@.skip(i as int)),
        decreases cs.len() - i,
    {
        assert(cs@.skip(i as int).drop_first() =~= cs@.skip(i + 1));
        i = i + 1;
    }
    assert(trim_start(l@) == cs@.skip(i as int));
    let mut j: usize = cs.len();
    while j > i && is_whitespace(cs[j - 1])
        invariant
            i <= j <= cs.len(),
            cs@ == l@,
            trim_start(l@) == cs@.skip(i as int),
            trim(l@) == trim_end(cs@.subrange(i as int, j as int)),
        decreases j,
    {
        assert(cs@.subrange(i as int, j as int).drop_last() =~= cs@.subrange(i as int, j - 1));
        j = j - 1;
    }
    proof {
        assert(cs@.skip(i as int) =~= cs@.subrange(i as int, cs.len() as int));
    }
    let mut r: Vec<char> = Vec::new();
    let mut k = i;
    while k < j
        invariant
            i <= k <= j,
            j <= cs.len(),
            r@ == cs@.subrange(i as int, k as int),
        decreases j - k,
    {
        r.push(cs[k]);
        assert(r@ =~= cs@.subrange(i as int, k + 1));
        k = k + 1;
    }
    r
}

/// Once reading a prefix of the lines fails or cannot go on, so does reading
/// them all, in the same way.
proof fn lemma_reef_prefix(lv: Seq<Seq<char>>, n: int)
    requires
        0 <= n <= lv.len(),
        !(reef_lines(lv.take(n)) matches Some(Ok(_))),
    ensures
        reef_lines(lv) == reef_lines(lv.take(n)),
    decreases lv.len(),
{
    if n == lv.len() {
        assert(lv.take(n) =~= lv);
    } else {
        assert(lv.drop_last().take(n) =~= lv.take(n));
        lemma_reef_prefix(lv.drop_last(), n);
    }
}

/// The characters of `cs` from `a` to `b`, as a string.
fn string_of(cs: &Vec<char>, a: usize, b: usize) -> (r: String)
    requires
        a <= b <= cs.len(),
    ensures
        r@ == cs@.subrange(a as int, b as int),
{
    let mut r = String::new();
    let mut k = a;
    while k < b
        invariant
            a <= k <= b,
            b <= cs.len(),
            r@ == cs@.subrange(a as int, k as int),
        decreases b - k,
    {
        crate::text::push_char(&mut r, cs[k]);
        assert(r@ =~= cs@.subrange(a as int, k + 1));
        k = k + 1;
    }
    r
}

/// The position of the first `=` in `cs`, or its length where there is none.
fn find_equals(cs: &Vec<char>) -> (r: usize)
    ensures
        r == equals_at(cs@),
        r <= cs.len(),
{
    let mut i: usize = 0;
    assert(cs@.skip(0) =~= cs@);
    while i < cs.len() && cs[i] != '='
        invariant
            i <= cs.len(),
            equals_at(cs@) == i + equals_at(cs@.skip(i as int)),
        decreases cs.len() - i,
    {
        assert(cs@.skip(i as int).drop_first() =~= cs@.skip(i + 1));
        i = i + 1;
    }
    i
}

/// Sets the value of `key` in `table`: in its place where the table holds the
/// key, else at the end.
fn table_set(table: &mut Vec<(String, ReefValue)>, key: String, v: ReefValue)
    requires
        keys_distinct(table_view(old(table)@)),
    ensures
        keys_distinct(table_view(final(table)@)),
        table_map(table_view(final(table)@)) == table_map(table_view(old(table)@)).insert(key@, v@),
{
    let ghost tv = table_view(table@);
    let mut j: usize = 0;
    while j < table.len()
        invariant
            j <= table.len(),
            tv == table_view(table@),
            tv == table_view(old(table)@),
            keys_distinct(tv),
            tv.len() == table.len(),
            forall|a: int| 0 <= a < table.len() ==> #[trigger] tv[a] == (table@[a].0@, table@[a].1@),
            forall|a: int| 0 <= a < j ==> tv[a].0 != key@,
        decreases table.len() - j,
    {
        if table[j].0 == key {
            proof {
                lemma_table_update(tv, j as int, v@);
            }
            let ghost kv = key@;
            let ghost vv = v@;
            table.set(j, (key, v));
            proof {
                assert(table_view(table@) =~= tv.update(j as int, (kv, vv)));
            }
            return;
        }
        j = j + 1;
    }
    let ghost kv = key@;
    let ghost vv = v@;
    table.push((key, v));
    proof {
        assert(table_view(table@) =~= tv.push((kv, vv)));
        assert(table_view(table@).drop_last() =~= tv);
        let nt = table_view(table@);
        assert forall|a: int, b: int| 0 <= a < b < nt.len() implies #[trigger] nt[a].0 != #[trigger] nt[b].0 by {
            if b < tv.len() {
                assert(nt[a] == tv[a] && nt[b] == tv[b]);
            }
        }
    }
}

/// Reads a Reef file: each line that is not blank or a `#` comment is a key,
/// `=` and a value (white space at the ends of a line is dropped), a later value
/// of a key replaces the earlier, and the first value that cannot be read is the
/// error. The table holds each key once, in the order in which the keys first
/// came.
pub fn parse(code: &str) -> (r: Result<Vec<(String, ReefValue)>, ReefParseError>)
    requires
        reef_lines(lines_of(code@)) is Some,
    ensures
        match r {
            Ok(t) => keys_distinct(table_view(t@)) && reef_lines(lines_of(code@)) == Some(
                Ok::<Map<Seq<char>, SReefValue>, ReefParseError>(table_map(table_view(t@))),
            ),
            Err(e) => reef_lines(lines_of(code@)) == Some(Err::<Map<Seq<char>, SReefValue>, ReefParseError>(e)),
        },
{
    let cs = chars_of(code);
    let lines = lines_of_chars(&cs);
    let ghost lv = strings_view(lines@);
    proof {
        lemma_strings_view_len(lines@);
        assert(lv.take(0) =~= Seq::<Seq<char>>::empty());
        assert(table_view(Seq::<(String, ReefValue)>::empty()) =~= Seq::<(Seq<char>, SReefValue)>::empty());
    }
    let mut table: Vec<(String, ReefValue)> = Vec::new();
    let mut i: usize = 0;
    while i < lines.len()
        invariant
            i <= lines.len(),
            lv == strings_view(lines@),
            lv == lines_of(code@),
            lv.len() == lines.len(),
            forall|a: int| 0 <= a < lines.len() ==> #[trigger] lv[a] == lines@[a]@,
            reef_lines(lv) is Some,
            keys_distinct(table_view(table@)),
            reef_lines(lv.take(i as int)) == Some(
                Ok::<Map<Seq<char>, SReefValue>, ReefParseError>(table_map(table_view(table@))),
            ),
        decreases lines.len() - i,
    {
        let l = trim_text(&lines[i]);
        proof {
            assert(lv.take(i + 1).drop_last() =~= lv.take(i as int));
            assert(lv.take(i + 1).last() == lv[i as int]);
        }
        if l.len() == 0 || l[0] == '#' {
        } else {
            let eq = find_equals(&l);
            proof {
                if eq >= l.len() || !value_can_be_cut(l@.skip(eq + 1int)) {
                    lemma_reef_prefix(lv, i + 1);
                }
            }
            let key = string_of(&l, 0, eq);
            let text = string_of(&l, eq + 1, l.len());
            proof {
                assert(key@ =~= l@.take(eq as int));
                assert(text@ =~= l@.skip(eq + 1int));
            }
            match ReefValue::from_str(text.as_str()) {
                Err(e) => {
                    proof {
                        lemma_reef_prefix(lv, i + 1);
                    }
                    return Err(e);
                },
                Ok(v) => {
                    table_set(&mut table, key, v);
                },
            }
        }
        i = i + 1;
    }
    proof {
        assert(lv.take(i as int) =~= lv);
    }
    Ok(table)
}

} // verus!
