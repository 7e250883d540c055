use vstd::prelude::*;

verus! {

/// Appends `c` to `s` (`String::push`).
#[verifier::external_body]
pub(crate) fn push_char(s: &mut String, c: char)
    ensures
        final(s)@ == old(s)@.push(c),
{
    s.push(c);
}

/// Removes the first character of `s` (`String::remove` at index 0) and returns it.
#[verifier::external_body]
pub(crate) fn remove_first_char(s: &mut String) -> (c: char)
    requires
        old(s)@.len() > 0,
    ensures
        c == old(s)@[0],
        final(s)@ == old(s)@.drop_first(),
{
    s.remove(0)
}

/// The characters of `s`, in order.
pub fn chars_of(s: &str) -> (v: Vec<char>)
    ensures
        v@ == s@,
{
    let mut v: Vec<char> = Vec::new();
    for c in it: s.chars()
        invariant
            it.seq() == s@,
            v@ == s@.take(it.index() as int),
    {
        v.push(c);
    }
    v
}

/// The value of a string of decimal digits.
pub open spec fn digits_value(s: Seq<char>) -> int
    decreases s.len(),
{
    if s.len() == 0 {
        0
    } else {
        digits_value(s.drop_last()) * 10 + (s.last() as int - '0' as int)
    }
}

pub open spec fn all_digits(s: Seq<char>) -> bool {
    forall|i: int| 0 <= i < s.len() ==> '0' <= #[trigger] s[i] <= '9'
}

/// What `str::parse::<usize>` gives: an optional `+`, then one or more decimal digits
/// whose value fits in a `usize`.
pub open spec fn spec_parse_usize(s: Seq<char>) -> Option<usize> {
    let d = if s.len() > 0 && s[0] == '+' { s.drop_first() } else { s };
    if d.len() > 0 && all_digits(d) && digits_value(d) <= usize::MAX {
        Some(digits_value(d) as usize)
    } else {
        None
    }
}

/// Reads a decimal `usize` the way `str::parse::<usize>` does.
pub fn parse_usize(s: &String) -> (r: Option<usize>)
    ensures
        r == spec_parse_usize(s@),
{
    let cs = chars_of(s.as_str());
    let mut i: usize = 0;
    if cs.len() > 0 && cs[0] == '+' {
        i = 1;
    }
    let ghost d = if s@.len() > 0 && s@[0] == '+' { s@.drop_first() } else { s@ };
    let first = i;
    if first >= cs.len() {
        return None;
    }
    let mut v: usize = 0;
    let mut too_big = false;
    while i < cs.len()
        invariant
            cs@ == s@,
            d == (if s@.len() > 0 && s@[0] == '+' { s@.drop_first() } else { s@ }),
            first <= i <= cs.len(),
            d == cs@.subrange(first as int, cs.len() as int),
            all_digits(d.take(i - first)),
            !too_big ==> v == digits_value(d.take(i - first)),
            too_big ==> digits_value(d.take(i - first)) > usize::MAX,
        decreases cs.len() - i,
    {
        let c = cs[i];
        assert(d.take(i - first + 1).drop_last() =~= d.take(i - first));
        assert(d[i - first] == c);
        if !('0' <= c && c <= '9') {
            assert(!all_digits(d));
            return None;
        }
        let digit = (c as u32 - '0' as u32) as usize;
        let ghost prev = digits_value(d.take(i - first));
        if !too_big {
            match v.checked_mul(10) {
                Some(t) => match t.checked_add(digit) {
                    Some(n) => { v = n; },
                    None => { too_big = true; },
                },
                None => { too_big = true; },
            }
        } else {
            assert(prev * 10 >= prev) by (nonlinear_arith)
                requires prev > 0;
        }
        i = i + 1;
        assert(all_digits(d.take(i - first)));
    }
    assert(d.take(i - first) =~= d);
    if too_big { None } else { Some(v) }
}

} // verus!
