use vstd::prelude::*;

use crate::text::{chars_of, push_char};

verus! {

/// The state of splitting text into lines, after a prefix of it.
pub struct LineSplit {
    pub done: Seq<Seq<char>>,
    pub cur: Seq<char>,
}

/// A line ended by `\r\n` loses its `\r`.
pub open spec fn strip_cr(l: Seq<char>) -> Seq<char> {
    if l.len() > 0 && l.last() == '\r' {
        l.drop_last()
    } else {
        l
    }
}

pub open spec fn split_fold(s: Seq<char>) -> LineSplit
    decreases s.len(),
{
    if s.len() == 0 {
        LineSplit { done: Seq::empty(), cur: Seq::empty() }
    } else {
        let st = split_fold(s.drop_last());
        if s.last() == '\n' {
            LineSplit { done: st.done.push(strip_cr(st.cur)), cur: Seq::empty() }
        } else {
            LineSplit { cur: st.cur.push(s.last()), ..st }
        }
    }
}

/// The lines of `s` as `str::lines` gives them: split at `\n` or `\r\n`, with no
/// empty line after a final line ending.
pub open spec fn lines_of(s: Seq<char>) -> Seq<Seq<char>> {
    let st = split_fold(s);
    if st.cur.len() > 0 {
        st.done.push(st.cur)
    } else {
        st.done
    }
}

/// The first line number shown around `line`.
pub open spec fn first_shown(line: int) -> int {
    if line >= 2 {
        line - 2
    } else {
        0
    }
}

/// The lines around `line` (the one before, it, and the one after, as far as they
/// exist), each with its 1-based number.
pub open spec fn lines_around(s: Seq<char>, line: int) -> Seq<(usize, Seq<char>)> {
    let ls = lines_of(s);
    let first = first_shown(line);
    let end = if line + 1 <= ls.len() { line + 1 } else { ls.len() as int };
    let n = if first >= end {
        0
    } else {
        end - first
    };
    Seq::new(n as nat, |i: int| ((first + i + 1) as usize, ls[first + i]))
}

pub open spec fn numbered_view(v: Seq<(usize, String)>) -> Seq<(usize, Seq<char>)> {
    v.map_values(|p: (usize, String)| (p.0, p.1@))
}

/// The lines of `source`, as `str::lines` gives them.
pub fn lines_of_chars(source: &Vec<char>) -> (r: Vec<String>)
    ensures
        crate::parse::ast::strings_view(r@) == lines_of(source@),
{
    let mut done: Vec<String> = Vec::new();
    let mut cur = String::new();
    let mut cur_filled = false;
    let mut last_cr = false;
    let mut i: usize = 0;
    proof {
        assert(source@.take(0) =~= Seq::<char>::empty());
        assert(crate::parse::ast::strings_view(done@) =~= Seq::empty());
    }
    while i < source.len()
        invariant
            i <= source.len(),
            split_fold(source@.take(i as int)) == (LineSplit {
                done: crate::parse::ast::strings_view(done@),
                cur: cur@,
            }),
            cur_filled == (cur@.len() > 0),
            last_cr == (cur@.len() > 0 && cur@.last() == '\r'),
        decreases source.len() - i,
    {
        proof {
            assert(source@.take(i + 1).drop_last() =~= source@.take(i as int));
        }
        let c = source[i];
        if c == '\n' {
            let line = if last_cr {
                let cs = chars_of(cur.as_str());
                let mut t = String::new();
                let mut j: usize = 0;
                while j + 1 < cs.len()
                    invariant
                        j + 1 <= cs.len(),
                        cs@ == cur@,
                        t@ == cs@.take(j as int),
                    decreases cs.len() - j,
                {
                    push_char(&mut t, cs[j]);
                    proof {
                        assert(cs@.take(j + 1) =~= cs@.take(j as int).push(cs@[j as int]));
                    }
                    j = j + 1;
                }
                proof {
                    assert(t@ =~= cur@.drop_last());
                }
                t
            } else {
                cur
            };
            proof {
                crate::parse::ast::lemma_strings_view_push(done@, line);
            }
            done.push(line);
            cur = String::new();
            cur_filled = false;
            last_cr = false;
        } else {
            push_char(&mut cur, c);
            cur_filled = true;
            last_cr = c == '\r';
        }
        i = i + 1;
    }
    proof {
        assert(source@.take(i as int) =~= source@);
    }
    if cur_filled {
        proof {
            crate::parse::ast::lemma_strings_view_push(done@, cur);
        }
        done.push(cur);
    }
    done
}

/// The lines around `line` of `source`: the one before, it, and the one after, as
/// far as they exist, each with its 1-based number.
pub fn get_lines_from_chars(source: &Vec<char>, line: usize) -> (r: Vec<(usize, String)>)
    ensures
        numbered_view(r@) == lines_around(source@, line as int),
{
    let mut lines = lines_of_chars(source);
    proof {
        crate::parse::ast::lemma_strings_view_len(lines@);
    }
    let first = if line >= 2 { line - 2 } else { 0 };
    let mut out: Vec<(usize, String)> = Vec::new();
    let ghost ls = lines_of(source@);
    let ghost all = lines_around(source@, line as int);
    let end = if line < lines.len() { line + 1 } else { lines.len() };
    if first < end {
        let mut i: usize = first;
        proof {
            assert(numbered_view(out@) =~= all.take(0));
        }
        while i < end
            invariant
                first <= i <= end,
                end <= lines.len(),
                end as int == (if line + 1 <= ls.len() { line + 1 } else { ls.len() as int }),
                first < end,
                first as int == first_shown(line as int),
                ls == crate::parse::ast::strings_view(lines@),
                ls == lines_of(source@),
                ls.len() == lines@.len(),
                all == lines_around(source@, line as int),
                all.len() == end - first,
                numbered_view(out@) == all.take(i - first),
            decreases end - i,
        {
            let l = lines[i].clone();
            let ghost k = (i - first) as int;
            proof {
                assert(0 <= k < all.len());
                assert(all[k].1 == ls[first + k]);
                assert(all[k].0 == (first + k + 1) as usize);
                assert(numbered_view(out@.push(((i + 1) as usize, l))) =~= numbered_view(out@).push(
                    ((i + 1) as usize, l@),
                ));
                assert(all.take(k + 1) =~= all.take(k).push(all[k]));
            }
            out.push((i + 1, l));
            i = i + 1;
        }
        proof {
            assert(all.take(i - first) =~= all);
        }
    } else {
        proof {
            assert(numbered_view(out@) =~= all);
        }
    }
    out
}

/// The lines around `line` of `source`: the one before, it, and the one after, as
/// far as they exist, each with its 1-based number.
pub fn get_lines_from(source: &str, line: usize) -> (r: Vec<(usize, String)>)
    ensures
        numbered_view(r@) == lines_around(source@, line as int),
{
    get_lines_from_chars(&chars_of(source), line)
}

} // verus!
