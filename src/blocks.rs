use vstd::prelude::*;
use vstd::string::*;
use crate::config::{Config, PaintError, parse_highlighted, sections_ok, in_highlight};
use crate::text::{chars_of, string_of};
use crate::render::sub_string;

verus! {

/// Whether `pat` occurs in `d` at position `i`.
pub open spec fn occurs_at(d: Seq<char>, i: int, pat: Seq<char>) -> bool {
    0 <= i && i + pat.len() <= d.len() && d.subrange(i, i + pat.len()) == pat
}

/// The first position in `i..e` holding `c`, or `e`.
pub open spec fn find_char(d: Seq<char>, c: char, i: int, e: int) -> int
    decreases e - i,
{
    if i >= e {
        e
    } else if d[i] == c {
        i
    } else {
        find_char(d, c, i + 1, e)
    }
}

/// The first position at or after `i` where `pat` occurs, or the length.
pub open spec fn find_seq(d: Seq<char>, pat: Seq<char>, i: int) -> int
    decreases d.len() - i,
{
    if i >= d.len() {
        d.len() as int
    } else if occurs_at(d, i, pat) {
        i
    } else {
        find_seq(d, pat, i + 1)
    }
}

/// ASCII letters, digits and underscore.
pub open spec fn is_word(c: char) -> bool {
    ('a' <= c && c <= 'z') || ('A' <= c && c <= 'Z') || ('0' <= c && c <= '9') || c == '_'
}

/// The end of the run of word characters that starts at `i`, at most `e`.
pub open spec fn word_end(d: Seq<char>, i: int, e: int) -> int
    decreases e - i,
{
    if i >= e {
        e
    } else if is_word(d[i]) {
        word_end(d, i + 1, e)
    } else {
        i
    }
}

pub open spec fn paint_attr() -> Seq<char> {
    "data-paint=\""@
}

/// Whether a language attribute `data-paint="<word>"` starts at `p` and closes before `e`.
pub open spec fn lang_attr_at(d: Seq<char>, p: int, e: int) -> bool {
    let w = p + 12;
    let we = word_end(d, w, e);
    occurs_at(d, p, paint_attr()) && w <= e && we > w && we < e && d[we] == '"'
}

/// The first language attribute at or after `p` and before `e`, or `e`.
pub open spec fn first_lang_attr(d: Seq<char>, p: int, e: int) -> int
    decreases e - p,
{
    if p >= e {
        e
    } else if lang_attr_at(d, p, e) {
        p
    } else {
        first_lang_attr(d, p + 1, e)
    }
}

/// An embedded code block, by character positions in its document.
#[derive(Clone, Copy, Debug, PartialEq, Eq, Structural)]
pub struct Block {
    /// Where `<pre` starts.
    pub start: usize,
    /// Just past `</pre>`.
    pub end: usize,
    pub lang_start: usize,
    pub lang_end: usize,
    pub inner_start: usize,
    pub inner_end: usize,
}

/// The block that starts at `s`: `<pre`, then on the same line a language attribute
/// and a `>`, then the content up to the first `</pre>`.
pub open spec fn block_at(d: Seq<char>, s: int) -> Option<Block> {
    if !occurs_at(d, s, "<pre"@) {
        None
    } else {
        let e = find_char(d, '\n', s, d.len() as int);
        let p = first_lang_attr(d, s + 4, e);
        if p >= e {
            None
        } else {
            let w = p + 12;
            let we = word_end(d, w, e);
            let g = find_char(d, '>', we + 1, e);
            if g >= e {
                None
            } else {
                let c = find_seq(d, "</pre>"@, g + 1);
                if c >= d.len() {
                    None
                } else {
                    Some(
                        Block {
                            start: s as usize,
                            end: (c + 6) as usize,
                            lang_start: w as usize,
                            lang_end: we as usize,
                            inner_start: (g + 1) as usize,
                            inner_end: c as usize,
                        },
                    )
                }
            }
        }
    }
}

/// The blocks of `d` from position `i` on, each search going on after the last block.
pub open spec fn blocks_from(d: Seq<char>, i: int) -> Seq<Block>
    decreases d.len() - i,
{
    if i >= d.len() || i < 0 {
        Seq::empty()
    } else {
        match block_at(d, i) {
            Some(b) => if b.end > i && b.end <= d.len() {
                seq![b] + blocks_from(d, b.end as int)
            } else {
                Seq::empty()
            },
            None => blocks_from(d, i + 1),
        }
    }
}

fn occurs(cs: &Vec<char>, i: usize, pat: &Vec<char>) -> (r: bool)
    ensures
        r == occurs_at(cs@, i as int, pat@),
{
    if i > cs.len() || pat.len() > cs.len() - i {
        return false;
    }
    let mut k: usize = 0;
    while k < pat.len()
        invariant
            i + pat.len() <= cs.len(),
            k <= pat.len(),
            forall|t: int| 0 <= t < k ==> cs@[i + t] == pat@[t],
        decreases pat.len() - k,
    {
        if cs[i + k] != pat[k] {
            assert(cs@.subrange(i as int, i + pat.len())[k as int] != pat@[k as int]);
            return false;
        }
        k = k + 1;
    }
    assert(cs@.subrange(i as int, i + pat.len()) =~= pat@);
    true
}

fn find_char_exec(cs: &Vec<char>, c: char, i: usize, e: usize) -> (r: usize)
    requires
        i <= e <= cs.len(),
    ensures
        r == find_char(cs@, c, i as int, e as int),
        i <= r <= e,
{
    let mut j = i;
    while j < e && cs[j] != c
        invariant
            i <= j <= e <= cs.len(),
            find_char(cs@, c, i as int, e as int) == find_char(cs@, c, j as int, e as int),
        decreases e - j,
    {
        j = j + 1;
    }
    j
}

fn find_seq_exec(cs: &Vec<char>, pat: &Vec<char>, i: usize) -> (r: usize)
    requires
        i <= cs.len(),
    ensures
        r == find_seq(cs@, pat@, i as int),
        i <= r <= cs.len(),
        r < cs.len() ==> occurs_at(cs@, r as int, pat@),
{
    let mut j = i;
    while j < cs.len() && !occurs(cs, j, pat)
        invariant
            i <= j <= cs.len(),
            find_seq(cs@, pat@, i as int) == find_seq(cs@, pat@, j as int),
        decreases cs.len() - j,
    {
        j = j + 1;
    }
    j
}

fn word_char(c: char) -> (r: bool)
    ensures
        r == is_word(c),
{
    (c >= 'a' && c <= 'z') || (c >= 'A' && c <= 'Z') || (c >= '0' && c <= '9') || c == '_'
}

fn word_end_exec(cs: &Vec<char>, i: usize, e: usize) -> (r: usize)
    requires
        i <= e <= cs.len(),
    ensures
        r == word_end(cs@, i as int, e as int),
        i <= r <= e,
{
    let mut j = i;
    while j < e && word_char(cs[j])
        invariant
            i <= j <= e <= cs.len(),
            word_end(cs@, i as int, e as int) == word_end(cs@, j as int, e as int),
        decreases e - j,
    {
        j = j + 1;
    }
    j
}

fn first_lang_attr_exec(cs: &Vec<char>, attr: &Vec<char>, p: usize, e: usize) -> (r: usize)
    requires
        attr@ == paint_attr(),
        p <= e <= cs.len(),
    ensures
        r == first_lang_attr(cs@, p as int, e as int),
        p <= r <= e,
        r < e ==> r + 12 <= e && word_end(cs@, r + 12, e as int) < e,
{
    let mut j = p;
    while j < e
        invariant
            attr@ == paint_attr(),
            p <= j <= e <= cs.len(),
            first_lang_attr(cs@, p as int, e as int) == first_lang_attr(cs@, j as int, e as int),
        decreases e - j,
    {
        if occurs(cs, j, attr) && e - j >= 12 {
            let w = j + 12;
            let we = word_end_exec(cs, w, e);
            if we > w && we < e && cs[we] == '"' {
                return j;
            }
        }
        j = j + 1;
    }
    j
}

fn block_at_exec(cs: &Vec<char>, s: usize, pats: &(Vec<char>, Vec<char>, Vec<char>)) -> (r: Option<Block>)
    requires
        s < cs.len(),
        pats.0@ == "<pre"@,
        pats.1@ == paint_attr(),
        pats.2@ == "</pre>"@,
    ensures
        r == block_at(cs@, s as int),
        r matches Some(b) ==> b.end <= cs@.len(),
{
    proof {
        reveal_strlit("</pre>");
    }
    if !occurs(cs, s, &pats.0) {
        return None;
    }
    let e = find_char_exec(cs, '\n', s, cs.len());
    if e - s < 4 {
        return None;
    }
    let p = first_lang_attr_exec(cs, &pats.1, s + 4, e);
    if p >= e {
        return None;
    }
    let w = p + 12;
    let we = word_end_exec(cs, w, e);
    let g = find_char_exec(cs, '>', we + 1, e);
    if g >= e {
        return None;
    }
    let c = find_seq_exec(cs, &pats.2, g + 1);
    if c >= cs.len() {
        return None;
    }
    Some(Block { start: s, end: c + 6, lang_start: w, lang_end: we, inner_start: g + 1, inner_end: c })
}

/// Finds the embedded code blocks of a document, in order.
pub fn find_blocks(doc: &str) -> (r: Vec<Block>)
    ensures
        r@ == blocks_from(doc@, 0),
{
    let cs = chars_of(doc);
    let pats = (chars_of("<pre"), chars_of("data-paint=\""), chars_of("</pre>"));
    let mut out: Vec<Block> = Vec::new();
    let mut i: usize = 0;
    while i < cs.len()
        invariant
            cs@ == doc@,
            pats.0@ == "<pre"@,
            pats.1@ == paint_attr(),
            pats.2@ == "</pre>"@,
            i <= cs.len(),
            out@ + blocks_from(cs@, i as int) == blocks_from(cs@, 0),
        decreases cs.len() - i,
    {
        match block_at_exec(&cs, i, &pats) {
            Some(b) => {
                if b.end > i && b.end <= cs.len() {
                    out.push(b);
                    assert(out@ + blocks_from(cs@, b.end as int) =~= blocks_from(cs@, 0));
                    i = b.end;
                } else {
                    return out;
                }
            },
            None => {
                i = i + 1;
            },
        }
    }
    assert(blocks_from(cs@, i as int) == Seq::<Block>::empty());
    assert(out@ =~= out@ + Seq::<Block>::empty());
    out
}

/// The text from `from` to `to` of a document.
pub fn block_part(doc: &str, from: usize, to: usize) -> (r: String)
    requires
        from <= to <= doc@.len(),
    ensures
        r@ == doc@.subrange(from as int, to as int),
{
    let cs = chars_of(doc);
    sub_string(&cs, from, to)
}

/// Whether `o` opens with `<pre` and, on its first line, holds `pat` with a `>` after it.
pub open spec fn has_flag(o: Seq<char>, pat: Seq<char>) -> bool {
    let e = find_char(o, '\n', 0, o.len() as int);
    occurs_at(o, 0, "<pre"@) && exists|p: int|
        4 <= p && p + pat.len() <= e && #[trigger] occurs_at(o, p, pat) && find_char(o, '>', p + pat.len(), e) < e
}

/// The first `"` at or after `i` and before `e` that a `>` follows before `e`, or `e`.
pub open spec fn quote_end(o: Seq<char>, i: int, e: int) -> int
    decreases e - i,
{
    if i >= e {
        e
    } else if o[i] == '"' && find_char(o, '>', i + 1, e) < e {
        i
    } else {
        quote_end(o, i + 1, e)
    }
}

/// The value after the first occurrence of `pat` from `p` on that a closing quote
/// and a `>` follow: at least one character, up to the first such quote.
pub open spec fn value_from(o: Seq<char>, pat: Seq<char>, p: int, e: int) -> Option<Seq<char>>
    decreases e - p,
{
    if p >= e {
        None
    } else if p + pat.len() <= e && occurs_at(o, p, pat) && quote_end(o, p + pat.len() + 1, e) < e {
        Some(o.subrange(p + pat.len(), quote_end(o, p + pat.len() + 1, e)))
    } else {
        value_from(o, pat, p + 1, e)
    }
}

/// The value of attribute `pat` (written with its `="`) on the first line of a block
/// that opens with `<pre`.
pub open spec fn attr_value(o: Seq<char>, pat: Seq<char>) -> Option<Seq<char>> {
    if occurs_at(o, 0, "<pre"@) {
        value_from(o, pat, 4, find_char(o, '\n', 0, o.len() as int))
    } else {
        None
    }
}

/// Whether a block's opening tag holds a flag.
pub fn flag(outer: &str, name: &str) -> (r: bool)
    ensures
        r == has_flag(outer@, name@),
{
    let o = chars_of(outer);
    let pat = chars_of(name);
    let pre = chars_of("<pre");
    if !occurs(&o, 0, &pre) {
        return false;
    }
    let e = find_char_exec(&o, '\n', 0, o.len());
    let mut p: usize = 4;
    while p < e && pat.len() <= e - p
        invariant
            o@ == outer@,
            pat@ == name@,
            e == find_char(o@, '\n', 0, o@.len() as int),
            e <= o@.len(),
            4 <= p,
            occurs_at(o@, 0, "<pre"@),
            forall|t: int| 4 <= t < p ==> !(t + pat@.len() <= e && #[trigger] occurs_at(o@, t, pat@) && find_char(o@, '>', t + pat@.len(), e as int) < e),
        decreases e - p,
    {
        if occurs(&o, p, &pat) {
            let q = find_char_exec(&o, '>', p + pat.len(), e);
            if q < e {
                assert(4 <= p && p + pat@.len() <= e && occurs_at(o@, p as int, pat@) && find_char(o@, '>', p + pat@.len(), e as int) < e);
                assert(occurs_at(outer@, 0, "<pre"@));
                return true;
            }
        }
        p = p + 1;
    }
    assert forall|t: int| 4 <= t && t + pat@.len() <= e && #[trigger] occurs_at(o@, t, pat@) implies find_char(o@, '>', t + pat@.len(), e as int) >= e by {
        if t >= p {
            assert(t + pat@.len() > e || t >= e);
        }
    }
    false
}

fn quote_end_exec(o: &Vec<char>, i: usize, e: usize) -> (r: usize)
    requires
        e <= o.len(),
    ensures
        r == quote_end(o@, i as int, e as int),
        r >= e || i <= r < e,
{
    let mut j = i;
    while j < e
        invariant
            e <= o.len(),
            i <= j,
            quote_end(o@, i as int, e as int) == quote_end(o@, j as int, e as int),
        decreases e - j,
    {
        if o[j] == '"' && find_char_exec(o, '>', j + 1, e) < e {
            return j;
        }
        j = j + 1;
    }
    e
}

/// The value of an attribute in a block's opening tag; `name` ends with `="`.
pub fn value(outer: &str, name: &str) -> (r: Option<String>)
    ensures
        match attr_value(outer@, name@) {
            Some(v) => r matches Some(s) && s@ == v,
            None => r is None,
        },
{
    let o = chars_of(outer);
    let pat = chars_of(name);
    let pre = chars_of("<pre");
    if !occurs(&o, 0, &pre) {
        return None;
    }
    let e = find_char_exec(&o, '\n', 0, o.len());
    let mut p: usize = 4;
    while p < e
        invariant
            o@ == outer@,
            pat@ == name@,
            e == find_char(o@, '\n', 0, o@.len() as int),
            e <= o@.len(),
            4 <= p,
            attr_value(outer@, name@) == value_from(o@, pat@, p as int, e as int),
        decreases e - p,
    {
        if pat.len() <= e - p && occurs(&o, p, &pat) {
            let after = p + pat.len();
            let q = if after < e { quote_end_exec(&o, after + 1, e) } else { e };
            if q < e {
                return Some(sub_string(&o, p + pat.len(), q));
            }
        }
        p = p + 1;
    }
    None
}

/// The configuration of one block: the command's configuration with the flags and
/// values of the block's opening tag added. A flag only turns an option on;
/// `data-gist-like` turns on numbers, border and header.
pub fn modify_config(config: Config, pre: &str) -> (r: Result<Config, PaintError>)
    ensures
        r is Ok <==> match attr_value(pre@, "data-highlight=\""@) {
            Some(v) => sections_ok(v),
            None => true,
        },
        r matches Err(e) ==> e == PaintError::BadLineRange,
        r matches Ok(c) ==> {
            let gist = has_flag(pre@, "data-gist-like"@);
            &&& c.header == (config.header || gist || has_flag(pre@, "data-header"@))
            &&& c.border == (config.border || gist || has_flag(pre@, "data-border"@))
            &&& c.numbers == (config.numbers || gist || has_flag(pre@, "data-line-numbers"@))
            &&& c.footer == (config.footer || has_flag(pre@, "data-footer"@))
            &&& c.inline == (config.inline || has_flag(pre@, "data-css-inline"@))
            &&& c.selection == config.selection
            &&& c.filename == config.filename
            &&& match attr_value(pre@, "data-title=\""@) {
                Some(v) => c.title matches Some(t) && t@ == v,
                None => c.title == config.title,
            }
            &&& match attr_value(pre@, "data-css-prefix=\""@) {
                Some(v) => c.css_prefix@ == v,
                None => c.css_prefix == config.css_prefix,
            }
            &&& match attr_value(pre@, "data-highlight=\""@) {
                Some(v) => forall|n: usize| #[trigger] c.highlighted@.contains(n) <==> in_highlight(v, n as int),
                None => c.highlighted == config.highlighted,
            }
        },
{
    let mut config = config;
    if flag(pre, "data-gist-like") {
        config.header = true;
        config.border = true;
        config.numbers = true;
    }
    if flag(pre, "data-header") {
        config.header = true;
    }
    if flag(pre, "data-footer") {
        config.footer = true;
    }
    if flag(pre, "data-border") {
        config.border = true;
    }
    if flag(pre, "data-css-inline") {
        config.inline = true;
    }
    if flag(pre, "data-line-numbers") {
        config.numbers = true;
    }
    if let Some(t) = value(pre, "data-title=\"") {
        config.title = Some(t);
    }
    if let Some(h) = value(pre, "data-highlight=\"") {
        match parse_highlighted(Some(h.as_str())) {
            Ok(v) => config.highlighted = v,
            Err(e) => return Err(e),
        }
    }
    if let Some(p) = value(pre, "data-css-prefix=\"") {
        config.css_prefix = p;
    }
    Ok(config)
}

/// The theme that a block asks for, if any.
pub fn block_theme(outer: &str) -> (r: Option<String>)
    ensures
        match attr_value(outer@, "data-theme=\""@) {
            Some(v) => r matches Some(s) && s@ == v,
            None => r is None,
        },
{
    value(outer, "data-theme=\"")
}

/// Whether a block's output carries its own style element: not when the block asks
/// for HTML only or for inline styles.
pub fn wants_css(outer: &str) -> (r: bool)
    ensures
        r == !(has_flag(outer@, "data-html-only"@) || has_flag(outer@, "data-css-inline"@)),
{
    !(flag(outer, "data-html-only") || flag(outer, "data-css-inline"))
}

/// Whether blocks lie in order from `from` on, each ending after it starts and
/// within `len`.
pub open spec fn ordered_from(bs: Seq<Block>, from: int, len: int) -> bool
    decreases bs.len(),
{
    bs.len() == 0 || (from <= bs[0].start < bs[0].end <= len && ordered_from(
        bs.skip(1),
        bs[0].end as int,
        len,
    ))
}

pub proof fn lemma_blocks_ordered(d: Seq<char>, i: int)
    requires
        0 <= i,
    ensures
        ordered_from(blocks_from(d, i), i, d.len() as int),
    decreases d.len() - i,
{
    if i < d.len() {
        match block_at(d, i) {
            Some(b) => {
                if b.end > i && b.end <= d.len() {
                    lemma_blocks_ordered(d, b.end as int);
                    let bs = blocks_from(d, i);
                    assert(bs.skip(1) =~= blocks_from(d, b.end as int));
                }
            },
            None => {
                lemma_blocks_ordered(d, i + 1);
                lemma_ordered_weaken(blocks_from(d, i + 1), i, i + 1, d.len() as int);
            },
        }
    }
}

proof fn lemma_ordered_weaken(bs: Seq<Block>, a: int, b: int, len: int)
    requires
        a <= b,
        ordered_from(bs, b, len),
    ensures
        ordered_from(bs, a, len),
{
}

/// The texts of a sequence of strings.
pub open spec fn texts(v: Seq<String>) -> Seq<Seq<char>> {
    Seq::new(v.len(), |i: int| v[i]@)
}

/// The document from `from` on, each block replaced by its rendering.
pub open spec fn splice_spec(d: Seq<char>, bs: Seq<Block>, rs: Seq<Seq<char>>, from: int) -> Seq<char>
    decreases bs.len(),
{
    if bs.len() == 0 {
        d.subrange(from, d.len() as int)
    } else {
        d.subrange(from, bs[0].start as int) + rs[0] + splice_spec(d, bs.skip(1), rs.skip(1), bs[0].end as int)
    }
}

/// Replaces each block that `find_blocks` found by its rendering, keeping the rest
/// of the document.
pub fn splice(doc: &str, blocks: &Vec<Block>, rendered: &Vec<String>) -> (r: String)
    requires
        blocks@ == blocks_from(doc@, 0),
        rendered@.len() == blocks@.len(),
    ensures
        r@ == splice_spec(doc@, blocks@, texts(rendered@), 0),
{
    let cs = chars_of(doc);
    proof {
        lemma_blocks_ordered(doc@, 0);
    }
    let ghost rs = texts(rendered@);
    let mut out = String::new();
    let mut from: usize = 0;
    let mut k: usize = 0;
    assert(blocks@.skip(0) =~= blocks@);
    assert(rs.skip(0) =~= rs);
    assert(out@ + splice_spec(doc@, blocks@, rs, 0) =~= splice_spec(doc@, blocks@, rs, 0));
    while k < blocks.len()
        invariant
            cs@ == doc@,
            rs == texts(rendered@),
            rendered@.len() == blocks@.len(),
            k <= blocks.len(),
            from <= cs@.len(),
            ordered_from(blocks@.skip(k as int), from as int, cs@.len() as int),
            out@ + splice_spec(cs@, blocks@.skip(k as int), rs.skip(k as int), from as int) == splice_spec(cs@, blocks@, rs, 0),
        decreases blocks.len() - k,
    {
        let b = blocks[k];
        let ghost bs = blocks@.skip(k as int);
        let ghost rk = rs.skip(k as int);
        assert(bs[0] == b);
        assert(rk[0] == rendered@[k as int]@);
        assert(bs.skip(1) =~= blocks@.skip(k + 1));
        assert(rk.skip(1) =~= rs.skip(k + 1));
        let ghost before = out@;
        out.append(sub_string(&cs, from, b.start).as_str());
        out.append(rendered[k].as_str());
        assert(out@ + splice_spec(cs@, blocks@.skip(k + 1), rs.skip(k + 1), b.end as int) =~= before + splice_spec(cs@, bs, rk, from as int));
        from = b.end;
        k = k + 1;
    }
    out.append(sub_string(&cs, from, cs.len()).as_str());
    assert(out@ =~= splice_spec(cs@, blocks@, rs, 0));
    out
}

/// Whether `c` is `w`, or `w` is a lower-case ASCII letter and `c` its capital.
pub open spec fn same_letter(c: char, w: char) -> bool {
    c == w || ('a' <= w && w <= 'z' && (c as int) + 32 == (w as int))
}

/// Whether `t` is the word `w`, ignoring ASCII case.
pub open spec fn same_word(t: Seq<char>, w: Seq<char>) -> bool {
    t.len() == w.len() && forall|i: int| 0 <= i < t.len() ==> same_letter(#[trigger] t[i], w[i])
}

fn same_word_exec(t: &Vec<char>, w: &Vec<char>) -> (r: bool)
    ensures
        r == same_word(t@, w@),
{
    if t.len() != w.len() {
        return false;
    }
    let mut i: usize = 0;
    while i < t.len()
        invariant
            t.len() == w.len(),
            i <= t.len(),
            forall|j: int| 0 <= j < i ==> same_letter(#[trigger] t@[j], w@[j]),
        decreases t.len() - i,
    {
        let c = t[i];
        let wc = w[i];
        if !(c == wc || (wc >= 'a' && wc <= 'z' && c >= 'A' && c <= 'Z' && (c as u32) + 32 == (wc as u32))) {
            return false;
        }
        i = i + 1;
    }
    true
}

/// The grammar name for a language id: `js` and `jsx` name "JavaScript (Babel)" and
/// `rs` "Rust Enhanced", in any case; any other id is kept.
pub fn syntax_alias(token: &str) -> (r: String)
    ensures
        r@ == if same_word(token@, "js"@) || same_word(token@, "jsx"@) {
            "JavaScript (Babel)"@
        } else if same_word(token@, "rs"@) {
            "Rust Enhanced"@
        } else {
            token@
        },
{
    let t = chars_of(token);
    if same_word_exec(&t, &chars_of("js")) || same_word_exec(&t, &chars_of("jsx")) {
        String::from_str("JavaScript (Babel)")
    } else if same_word_exec(&t, &chars_of("rs")) {
        String::from_str("Rust Enhanced")
    } else {
        String::from_str(token)
    }
}

} // verus!
