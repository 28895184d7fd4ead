use vstd::prelude::*;
use crate::text::{chars_of, string_of};
use crate::theme::chars_table;

verus! {

/// Rendering options.
#[derive(Clone, Debug)]
pub struct Config {
    pub inline: bool,
    pub numbers: bool,
    pub highlighted: Vec<usize>,
    pub selection: Option<(usize, usize)>,
    pub header: bool,
    pub footer: bool,
    pub border: bool,
    pub title: Option<String>,
    pub filename: String,
    pub css_prefix: String,
}

/// Why a render or a configuration was refused.
#[derive(Clone, Copy, Debug, PartialEq, Eq, Structural)]
pub enum PaintError {
    /// A line range held something other than a number.
    BadLineRange,
    /// A light theme set no selection color for highlighted rows.
    MissingSelection,
    /// A span used a color that no scope rule of the theme declares.
    UnknownStyle,
}

/// The pieces of `s` between occurrences of `sep`; one piece, empty, for an empty text.
pub open spec fn split_spec(s: Seq<char>, sep: char) -> Seq<Seq<char>>
    decreases s.len(),
{
    if s.len() == 0 {
        seq![Seq::empty()]
    } else {
        let r = split_spec(s.drop_last(), sep);
        if s.last() == sep {
            r.push(Seq::empty())
        } else {
            r.update(r.len() - 1, r.last().push(s.last()))
        }
    }
}

/// Splits a text at each occurrence of `sep`.
pub fn split_chars(s: &str, sep: char) -> (r: Vec<Vec<char>>)
    ensures
        chars_table(r@) == split_spec(s@, sep),
        r@.len() >= 1,
{
    let cs = chars_of(s);
    let mut out: Vec<Vec<char>> = Vec::new();
    out.push(Vec::new());
    let mut i: usize = 0;
    assert(cs@.take(0) =~= Seq::<char>::empty());
    assert(chars_table(out@) =~= seq![Seq::<char>::empty()]);
    while i < cs.len()
        invariant
            cs@ == s@,
            i <= cs.len(),
            out@.len() >= 1,
            chars_table(out@) == split_spec(cs@.take(i as int), sep),
        decreases cs.len() - i,
    {
        let c = cs[i];
        let ghost before = chars_table(out@);
        assert(cs@.take(i + 1).drop_last() =~= cs@.take(i as int));
        assert(cs@.take(i + 1).last() == c);
        if c == sep {
            out.push(Vec::new());
            assert(chars_table(out@) =~= before.push(Seq::empty()));
        } else {
            let k = out.len() - 1;
            let mut last = out.pop().unwrap();
            last.push(c);
            out.push(last);
            assert(chars_table(out@) =~= before.update(k as int, before.last().push(c)));
        }
        i = i + 1;
    }
    assert(cs@.take(i as int) =~= cs@);
    out
}

pub open spec fn is_digit(c: char) -> bool {
    '0' <= c && c <= '9'
}

/// The value of a run of decimal digits.
pub open spec fn digits_value(s: Seq<char>) -> nat
    decreases s.len(),
{
    if s.len() == 0 {
        0
    } else {
        digits_value(s.drop_last()) * 10 + ((s.last() as int) - 48) as nat
    }
}

/// A number's digits, after an optional leading `+`.
pub open spec fn number_digits(s: Seq<char>) -> Seq<char> {
    if s.len() > 0 && s[0] == '+' {
        s.skip(1)
    } else {
        s
    }
}

/// Whether `s` is a decimal number that fits a `usize`: an optional `+`, then digits.
pub open spec fn valid_number(s: Seq<char>) -> bool {
    let d = number_digits(s);
    &&& d.len() > 0
    &&& forall|i: int| 0 <= i < d.len() ==> is_digit(#[trigger] d[i])
    &&& digits_value(d) <= usize::MAX
}

pub open spec fn number_value(s: Seq<char>) -> nat {
    digits_value(number_digits(s))
}

proof fn lemma_digits_monotone(s: Seq<char>, i: int)
    requires
        0 <= i <= s.len(),
        forall|k: int| 0 <= k < s.len() ==> is_digit(#[trigger] s[k]),
    ensures
        digits_value(s.take(i)) <= digits_value(s),
    decreases s.len(),
{
    if i < s.len() {
        assert(s.drop_last().take(i) =~= s.take(i));
        lemma_digits_monotone(s.drop_last(), i);
    } else {
        assert(s.take(i) =~= s);
    }
}

/// Reads a decimal number, `None` when the text is not one or it does not fit.
pub fn parse_number(cs: &Vec<char>) -> (r: Option<usize>)
    ensures
        r is Some <==> valid_number(cs@),
        r matches Some(v) ==> v == number_value(cs@),
{
    let start: usize = if cs.len() > 0 && cs[0] == '+' { 1 } else { 0 };
    let ghost d = number_digits(cs@);
    assert(d =~= cs@.skip(start as int));
    if start >= cs.len() {
        return None;
    }
    let mut v: usize = 0;
    let mut i: usize = start;
    assert(d.take(0) =~= Seq::<char>::empty());
    while i < cs.len()
        invariant
            start <= i <= cs.len(),
            d == cs@.skip(start as int),
            d == number_digits(cs@),
            forall|k: int| start <= k < i ==> is_digit(#[trigger] cs@[k]),
            v == digits_value(d.take(i - start)),
        decreases cs.len() - i,
    {
        let c = cs[i];
        assert(d[i - start] == c);
        if !(c >= '0' && c <= '9') {
            assert(!is_digit(d[i - start]));
            return None;
        }
        let dv = (c as u32 - 48) as usize;
        assert(dv == (c as int) - 48);
        assert(d.take(i - start + 1).drop_last() =~= d.take(i - start));
        assert(d.take(i - start + 1).last() == c);
        if v > (usize::MAX - dv) / 10 {
            proof {
                assert(digits_value(d.take(i - start + 1)) > usize::MAX) by (nonlinear_arith)
                    requires
                        digits_value(d.take(i - start + 1)) == v * 10 + dv,
                        v > (usize::MAX - dv) / 10,
                        dv <= 9,
                ;
                if forall|k: int| 0 <= k < d.len() ==> is_digit(#[trigger] d[k]) {
                    lemma_digits_monotone(d, i - start + 1);
                }
            }
            return None;
        }
        v = v * 10 + dv;
        i = i + 1;
    }
    assert(d.take(i - start) =~= d);
    assert forall|k: int| 0 <= k < d.len() implies is_digit(#[trigger] d[k]) by {
        assert(d[k] == cs@[start + k]);
    }
    Some(v)
}

/// Whether every piece is a number.
pub open spec fn all_numbers(f: Seq<Seq<char>>) -> bool {
    forall|i: int| 0 <= i < f.len() ==> valid_number(#[trigger] f[i])
}

/// The values of the pieces.
pub open spec fn values(f: Seq<Seq<char>>) -> Seq<nat> {
    Seq::new(f.len(), |i: int| number_value(f[i]))
}

fn parse_all(f: &Vec<Vec<char>>) -> (r: Option<Vec<usize>>)
    ensures
        r is Some <==> all_numbers(chars_table(f@)),
        r matches Some(v) ==> v@.len() == f@.len() && forall|i: int| 0 <= i < v@.len() ==> v@[i] == values(chars_table(f@))[i],
{
    let mut out: Vec<usize> = Vec::new();
    let mut i: usize = 0;
    while i < f.len()
        invariant
            i <= f.len(),
            out@.len() == i,
            forall|k: int| 0 <= k < i ==> valid_number(#[trigger] chars_table(f@)[k]),
            forall|k: int| 0 <= k < i ==> out@[k] == values(chars_table(f@))[k],
        decreases f.len() - i,
    {
        match parse_number(&f[i]) {
            Some(v) => out.push(v),
            None => {
                assert(!valid_number(chars_table(f@)[i as int]));
                return None;
            },
        }
        i = i + 1;
    }
    Some(out)
}

/// A selection `N-M`: the first two numbers between dashes, the first twice when
/// there is one; an error when a piece is not a number.
pub open spec fn selection_spec(s: Seq<char>) -> Result<(usize, usize), PaintError> {
    let f = split_spec(s, '-');
    if !all_numbers(f) {
        Err(PaintError::BadLineRange)
    } else if f.len() > 1 {
        Ok((number_value(f[0]) as usize, number_value(f[1]) as usize))
    } else {
        Ok((number_value(f[0]) as usize, number_value(f[0]) as usize))
    }
}

/// Reads a selection of lines `N-M`, or `N` alone for one line.
pub fn parse_selection(lines: Option<&str>) -> (r: Result<Option<(usize, usize)>, PaintError>)
    ensures
        lines is None ==> r == Ok::<Option<(usize, usize)>, PaintError>(None),
        lines matches Some(s) ==> match selection_spec(s@) {
            Ok(p) => r == Ok::<Option<(usize, usize)>, PaintError>(Some(p)),
            Err(e) => r == Err::<Option<(usize, usize)>, PaintError>(e),
        },
{
    match lines {
        None => Ok(None),
        Some(s) => {
            let f = split_chars(s, '-');
            match parse_all(&f) {
                None => Err(PaintError::BadLineRange),
                Some(ns) => {
                    let start = ns[0];
                    let end = if ns.len() > 1 { ns[1] } else { start };
                    Ok(Some((start, end)))
                },
            }
        },
    }
}

/// The first positive value, or 0.
pub open spec fn first_positive(ns: Seq<nat>) -> nat
    decreases ns.len(),
{
    if ns.len() == 0 {
        0
    } else {
        let p = first_positive(ns.drop_last());
        if p == 0 && ns.last() > 0 {
            ns.last()
        } else {
            p
        }
    }
}

/// The largest value, or 0.
pub open spec fn max_value(ns: Seq<nat>) -> nat
    decreases ns.len(),
{
    if ns.len() == 0 {
        0
    } else {
        let m = max_value(ns.drop_last());
        if ns.last() > m {
            ns.last()
        } else {
            m
        }
    }
}

/// Whether line `n` lies in a section `A-B` (or `A`): from its first positive
/// number to its largest.
pub open spec fn in_section(sec: Seq<char>, n: int) -> bool {
    let ns = values(split_spec(sec, '-'));
    first_positive(ns) <= n <= max_value(ns)
}

/// Whether every section of a comma-separated list is made of numbers.
pub open spec fn sections_ok(s: Seq<char>) -> bool {
    let secs = split_spec(s, ',');
    forall|k: int| 0 <= k < secs.len() ==> all_numbers(split_spec(#[trigger] secs[k], '-'))
}

/// Whether line `n` is in some section of a comma-separated list.
pub open spec fn in_highlight(s: Seq<char>, n: int) -> bool {
    let secs = split_spec(s, ',');
    exists|k: int| 0 <= k < secs.len() && in_section(#[trigger] secs[k], n)
}

proof fn lemma_bounds_step(ns: Seq<nat>, j: int)
    requires
        0 <= j < ns.len(),
    ensures
        ns.take(j + 1).drop_last() == ns.take(j),
        ns.take(j + 1).last() == ns[j],
{
    assert(ns.take(j + 1).drop_last() =~= ns.take(j));
}

/// Reads highlighted lines `X[-Y][,...]`: each section adds the lines from its
/// first positive number to its largest.
pub fn parse_highlighted(lines: Option<&str>) -> (r: Result<Vec<usize>, PaintError>)
    ensures
        lines is None ==> (r matches Ok(v) && v@.len() == 0),
        lines matches Some(s) ==> (r is Ok <==> sections_ok(s@)),
        lines matches Some(s) ==> (r matches Ok(v) ==> forall|n: usize| #[trigger] v@.contains(n) <==> in_highlight(s@, n as int)),
        lines matches Some(s) ==> (r matches Err(e) ==> e == PaintError::BadLineRange),
{
    let mut out: Vec<usize> = Vec::new();
    match lines {
        None => Ok(out),
        Some(s) => {
            let secs = split_chars(s, ',');
            let ghost ss = chars_table(secs@);
            let mut k: usize = 0;
            while k < secs.len()
                invariant
                    lines == Some(s),
                    ss == chars_table(secs@),
                    ss == split_spec(s@, ','),
                    k <= secs.len(),
                    forall|j: int| 0 <= j < k ==> all_numbers(split_spec(#[trigger] ss[j], '-')),
                    forall|n: usize| #[trigger] out@.contains(n) <==> exists|j: int| 0 <= j < k && in_section(#[trigger] ss[j], n as int),
                decreases secs.len() - k,
            {
                let sec = string_of(&secs[k]);
                let f = split_chars(sec.as_str(), '-');
                assert(ss[k as int] == sec@);
                let ns = match parse_all(&f) {
                    Some(ns) => ns,
                    None => return Err(PaintError::BadLineRange),
                };
                let ghost vs = values(chars_table(f@));
                let mut start: usize = 0;
                let mut end: usize = 0;
                let mut j: usize = 0;
                assert(vs.take(0) =~= Seq::<nat>::empty());
                while j < ns.len()
                    invariant
                        ns@.len() == vs.len(),
                        forall|t: int| 0 <= t < ns@.len() ==> ns@[t] == vs[t],
                        j <= ns.len(),
                        start == first_positive(vs.take(j as int)),
                        end == max_value(vs.take(j as int)),
                    decreases ns.len() - j,
                {
                    let number = ns[j];
                    proof {
                        lemma_bounds_step(vs, j as int);
                    }
                    if start == 0 && number > start {
                        start = number;
                    }
                    if number > end {
                        end = number;
                    }
                    j = j + 1;
                }
                assert(vs.take(j as int) =~= vs);
                let ghost before = out@;
                let mut n: usize = start;
                let mut done = start > end;
                while !done
                    invariant
                        start <= n <= end || done,
                        done ==> (forall|x: usize| #[trigger] out@.contains(x) <==> (before.contains(x) || (start <= x <= end))),
                        !done ==> (forall|x: usize| #[trigger] out@.contains(x) <==> (before.contains(x) || (start <= x < n))),
                    decreases end - n + (if done { 0int } else { 1int }),
                {
                    let ghost prev = out@;
                    out.push(n);
                    assert forall|x: usize| #[trigger] out@.contains(x) <==> (prev.contains(x) || x == n) by {
                        if out@.contains(x) {
                            let i = choose|i: int| 0 <= i < out@.len() && out@[i] == x;
                            if i < prev.len() {
                                assert(prev[i] == x);
                            }
                        }
                        if prev.contains(x) {
                            let i = choose|i: int| 0 <= i < prev.len() && prev[i] == x;
                            assert(out@[i] == x);
                        }
                        if x == n {
                            assert(out@[prev.len() as int] == x);
                        }
                    }
                    if n == end {
                        done = true;
                    } else {
                        n = n + 1;
                    }
                }
                assert(ss[k as int] == sec@);
                assert forall|x: usize| #[trigger] out@.contains(x) <==> exists|j: int| 0 <= j < k + 1 && in_section(#[trigger] ss[j], x as int) by {
                    if start <= x <= end {
                        assert(in_section(ss[k as int], x as int));
                    }
                    if exists|j: int| 0 <= j < k + 1 && in_section(#[trigger] ss[j], x as int) {
                        let j = choose|j: int| 0 <= j < k + 1 && in_section(#[trigger] ss[j], x as int);
                        if j < k {
                            assert(before.contains(x));
                        }
                    }
                }
                k = k + 1;
            }
            Ok(out)
        },
    }
}

} // verus!
