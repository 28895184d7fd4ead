use vstd::prelude::*;

verus! {

/// Relies on `str::chars` and `FromIterator<char> for Vec<char>`: the characters in order.
#[verifier::external_body]
pub(crate) fn chars_of(s: &str) -> (v: Vec<char>)
    ensures
        v@ == s@,
{
    s.chars().collect()
}

/// Relies on `FromIterator<char> for String`: the string made of these characters.
#[verifier::external_body]
pub(crate) fn string_of(v: &Vec<char>) -> (s: String)
    ensures
        s@ == v@,
{
    v.iter().collect()
}

/// What one character becomes in HTML text.
pub open spec fn html_entity(c: char) -> Seq<char> {
    if c == '<' {
        seq!['&', 'l', 't', ';']
    } else if c == '>' {
        seq!['&', 'g', 't', ';']
    } else if c == '&' {
        seq!['&', 'a', 'm', 'p', ';']
    } else if c == '\'' {
        seq!['&', '#', '3', '9', ';']
    } else if c == '"' {
        seq!['&', 'q', 'u', 'o', 't', ';']
    } else {
        seq![c]
    }
}

pub open spec fn is_html_special(c: char) -> bool {
    c == '<' || c == '>' || c == '&' || c == '\'' || c == '"'
}

/// The text with each of `< > & ' "` replaced by its entity.
pub open spec fn escape_html_spec(s: Seq<char>) -> Seq<char>
    decreases s.len(),
{
    if s.len() == 0 {
        Seq::empty()
    } else {
        escape_html_spec(s.drop_last()) + html_entity(s.last())
    }
}

/// What one character becomes inside a single-quoted script string.
pub open spec fn js_escape(c: char) -> Seq<char> {
    if c == '\n' {
        Seq::empty()
    } else if c == '\'' {
        seq!['\\', '\'']
    } else if c == '\\' {
        seq!['\\', '\\']
    } else {
        seq![c]
    }
}

/// The text with newlines dropped and `'` and `\` escaped by a backslash.
pub open spec fn escape_js_spec(s: Seq<char>) -> Seq<char>
    decreases s.len(),
{
    if s.len() == 0 {
        Seq::empty()
    } else {
        escape_js_spec(s.drop_last()) + js_escape(s.last())
    }
}

fn push_chars(out: &mut Vec<char>, a: char, b: char, c: char, d: char, e: char, n: usize)
    requires
        1 <= n <= 5,
    ensures
        final(out)@ == old(out)@ + seq![a, b, c, d, e].take(n as int),
{
    let ghost start = out@;
    out.push(a);
    if n > 1 {
        out.push(b);
    }
    if n > 2 {
        out.push(c);
    }
    if n > 3 {
        out.push(d);
    }
    if n > 4 {
        out.push(e);
    }
    assert(out@ =~= start + seq![a, b, c, d, e].take(n as int));
}

fn push_html_entity(out: &mut Vec<char>, ch: char)
    ensures
        final(out)@ == old(out)@ + html_entity(ch),
{
    if ch == '<' {
        push_chars(out, '&', 'l', 't', ';', ' ', 4);
    } else if ch == '>' {
        push_chars(out, '&', 'g', 't', ';', ' ', 4);
    } else if ch == '&' {
        push_chars(out, '&', 'a', 'm', 'p', ';', 5);
    } else if ch == '\'' {
        push_chars(out, '&', '#', '3', '9', ';', 5);
    } else if ch == '"' {
        push_chars(out, '&', 'q', 'u', 'o', 't', 5);
        out.push(';');
    } else {
        push_chars(out, ch, ' ', ' ', ' ', ' ', 1);
    }
    assert(seq!['&', 'l', 't', ';', ' '].take(4) =~= seq!['&', 'l', 't', ';']);
    assert(seq!['&', 'g', 't', ';', ' '].take(4) =~= seq!['&', 'g', 't', ';']);
    assert(seq!['&', 'a', 'm', 'p', ';'].take(5) =~= seq!['&', 'a', 'm', 'p', ';']);
    assert(seq!['&', '#', '3', '9', ';'].take(5) =~= seq!['&', '#', '3', '9', ';']);
    assert(seq!['&', 'q', 'u', 'o', 't'].take(5) + seq![';'] =~= seq!['&', 'q', 'u', 'o', 't', ';']);
    assert(seq![ch, ' ', ' ', ' ', ' '].take(1) =~= seq![ch]);
}

/// Escapes `< > & ' "` for use as HTML text; every other character is kept.
pub fn escape_html(text: &str) -> (r: String)
    ensures
        r@ == escape_html_spec(text@),
{
    let cs = chars_of(text);
    let mut out: Vec<char> = Vec::new();
    let mut i: usize = 0;
    while i < cs.len()
        invariant
            cs@ == text@,
            i <= cs.len(),
            out@ == escape_html_spec(cs@.take(i as int)),
        decreases cs.len() - i,
    {
        let ch = cs[i];
        push_html_entity(&mut out, ch);
        assert(cs@.take(i + 1).drop_last() =~= cs@.take(i as int));
        i = i + 1;
    }
    assert(cs@.take(i as int) =~= cs@);
    string_of(&out)
}

/// Prepares text for a single-quoted script string: newlines are dropped,
/// `'` and `\` get a backslash.
pub fn escape_js(text: &str) -> (r: String)
    ensures
        r@ == escape_js_spec(text@),
{
    let cs = chars_of(text);
    let mut out: Vec<char> = Vec::new();
    let mut i: usize = 0;
    while i < cs.len()
        invariant
            cs@ == text@,
            i <= cs.len(),
            out@ == escape_js_spec(cs@.take(i as int)),
        decreases cs.len() - i,
    {
        let ch = cs[i];
        let ghost before = out@;
        if ch == '\n' {
        } else if ch == '\'' || ch == '\\' {
            out.push('\\');
            out.push(ch);
        } else {
            out.push(ch);
        }
        assert(out@ =~= before + js_escape(ch));
        assert(cs@.take(i + 1).drop_last() =~= cs@.take(i as int));
        i = i + 1;
    }
    assert(cs@.take(i as int) =~= cs@);
    string_of(&out)
}

/// The characters `0`..`9`, `a`..`f`.
pub open spec fn hex_digits() -> Seq<char> {
    seq!['0', '1', '2', '3', '4', '5', '6', '7', '8', '9', 'a', 'b', 'c', 'd', 'e', 'f']
}

/// The lower-case hexadecimal digit of a value below 16.
pub fn digit(d: u8) -> (c: char)
    requires
        d < 16,
    ensures
        c == hex_digits()[d as int],
{
    if d == 0 {
        '0'
    } else if d == 1 {
        '1'
    } else if d == 2 {
        '2'
    } else if d == 3 {
        '3'
    } else if d == 4 {
        '4'
    } else if d == 5 {
        '5'
    } else if d == 6 {
        '6'
    } else if d == 7 {
        '7'
    } else if d == 8 {
        '8'
    } else if d == 9 {
        '9'
    } else if d == 10 {
        'a'
    } else if d == 11 {
        'b'
    } else if d == 12 {
        'c'
    } else if d == 13 {
        'd'
    } else if d == 14 {
        'e'
    } else {
        'f'
    }
}

/// The decimal digits of `n`, without leading zeros.
pub open spec fn dec_spec(n: nat) -> Seq<char>
    decreases n,
{
    if n < 10 {
        seq![hex_digits()[n as int]]
    } else {
        dec_spec(n / 10) + seq![hex_digits()[(n % 10) as int]]
    }
}

pub(crate) fn push_dec(out: &mut Vec<char>, n: usize)
    ensures
        final(out)@ == old(out)@ + dec_spec(n as nat),
    decreases n,
{
    if n >= 10 {
        push_dec(out, n / 10);
    }
    out.push(digit((n % 10) as u8));
}

/// `n` written in decimal.
pub fn dec_string(n: usize) -> (r: String)
    ensures
        r@ == dec_spec(n as nat),
{
    let mut v: Vec<char> = Vec::new();
    push_dec(&mut v, n);
    assert(v@ =~= dec_spec(n as nat));
    string_of(&v)
}

/// Whether `s` starts with `k` spaces at position `i`.
pub open spec fn spaces_at(s: Seq<char>, i: int, k: int) -> bool {
    i + k <= s.len() && forall|j: int| i <= j < i + k ==> s[j] == ' '
}

/// Each line of `s` loses every leading repetition of `k` spaces (`k > 0`);
/// `at_start` says whether `s` begins a line.
pub open spec fn collapse_spec(k: int, s: Seq<char>, at_start: bool) -> Seq<char>
    decreases s.len(),
{
    if s.len() == 0 {
        Seq::empty()
    } else if at_start && k > 0 && spaces_at(s, 0, k) {
        collapse_spec(k, s.skip(k), true)
    } else if s[0] == '\n' {
        seq!['\n'] + collapse_spec(k, s.skip(1), true)
    } else {
        seq![s[0]] + collapse_spec(k, s.skip(1), false)
    }
}

fn has_spaces(cs: &Vec<char>, i: usize, k: usize) -> (r: bool)
    requires
        i <= cs.len(),
    ensures
        r == spaces_at(cs@, i as int, k as int),
{
    if k > cs.len() - i {
        return false;
    }
    let mut j: usize = 0;
    while j < k
        invariant
            i + k <= cs.len(),
            j <= k,
            forall|t: int| i <= t < i + j ==> cs@[t] == ' ',
        decreases k - j,
    {
        if cs[i + j] != ' ' {
            return false;
        }
        j = j + 1;
    }
    true
}

/// Removes from the start of each line every repetition of `n` times four spaces.
pub fn collapse_whitespace(n: usize, text: String) -> (r: String)
    requires
        n * 4 <= usize::MAX,
    ensures
        r@ == collapse_spec(4 * n, text@, true),
{
    let k: usize = n * 4;
    let cs = chars_of(text.as_str());
    let mut out: Vec<char> = Vec::new();
    let mut i: usize = 0;
    let mut at_start = true;
    assert(cs@.skip(0) =~= cs@);
    assert(out@ + cs@ =~= cs@);
    while i < cs.len()
        invariant
            cs@ == text@,
            k == 4 * n,
            i <= cs.len(),
            out@ + collapse_spec(k as int, cs@.skip(i as int), at_start) == collapse_spec(k as int, cs@, true),
        decreases cs.len() - i,
    {
        let ghost rest = cs@.skip(i as int);
        assert(spaces_at(rest, 0, k as int) == spaces_at(cs@, i as int, k as int)) by {
            if spaces_at(cs@, i as int, k as int) {
                assert forall|j: int| 0 <= j < k as int implies rest[j] == ' ' by {
                    assert(rest[j] == cs@[i + j]);
                }
            }
            if spaces_at(rest, 0, k as int) {
                assert forall|j: int| i <= j < i + k implies cs@[j] == ' ' by {
                    assert(rest[j - i] == cs@[j]);
                }
            }
        }
        if at_start && k > 0 && has_spaces(&cs, i, k) {
            assert(spaces_at(rest, 0, k as int));
            assert(rest.skip(k as int) =~= cs@.skip(i + k));
            i = i + k;
        } else {
            assert(!(at_start && k > 0 && spaces_at(rest, 0, k as int)));
            assert(rest.skip(1) =~= cs@.skip(i + 1));
            let ch = cs[i];
            out.push(ch);
            at_start = ch == '\n';
            i = i + 1;
            assert(out@ + collapse_spec(k as int, cs@.skip(i as int), at_start) =~= collapse_spec(k as int, cs@, true));
        }
    }
    assert(cs@.skip(i as int) =~= Seq::<char>::empty());
    assert(out@ + Seq::<char>::empty() =~= out@);
    string_of(&out)
}

/// Escaped HTML holds no raw `<`, `>`, `'` or `"`, is never shorter than its input,
/// and text without any of `< > & ' "` is left as it is, so escaping it again
/// changes nothing.
pub proof fn lemma_escape_html_safe(x: Seq<char>)
    ensures
        forall|i: int| 0 <= i < escape_html_spec(x).len() ==> {
            let c = #[trigger] escape_html_spec(x)[i];
            c != '<' && c != '>' && c != '\'' && c != '"'
        },
        escape_html_spec(x).len() >= x.len(),
        (forall|i: int| 0 <= i < x.len() ==> !is_html_special(#[trigger] x[i])) ==> escape_html_spec(x) == x,
    decreases x.len(),
{
    if x.len() > 0 {
        let p = x.drop_last();
        lemma_escape_html_safe(p);
        let e = html_entity(x.last());
        assert forall|i: int| 0 <= i < escape_html_spec(x).len() implies {
            let c = #[trigger] escape_html_spec(x)[i];
            c != '<' && c != '>' && c != '\'' && c != '"'
        } by {
            if i >= escape_html_spec(p).len() {
                assert(escape_html_spec(x)[i] == e[i - escape_html_spec(p).len()]);
            } else {
                assert(escape_html_spec(x)[i] == escape_html_spec(p)[i]);
            }
        }
        if forall|i: int| 0 <= i < x.len() ==> !is_html_special(#[trigger] x[i]) {
            assert(!is_html_special(x[x.len() - 1]));
            assert forall|i: int| 0 <= i < p.len() implies !is_html_special(#[trigger] p[i]) by {
                assert(p[i] == x[i]);
            }
            assert(x =~= p.push(x.last()));
            assert(escape_html_spec(x) =~= p + seq![x.last()]);
        }
    } else {
        assert(escape_html_spec(x) =~= x);
    }
}

} // verus!
