use vstd::prelude::*;
use vstd::string::*;
use crate::color::css_spec;
use crate::config::{Config, PaintError};
use crate::css::{
    CssGen, GenView, Span, Style, Tones, gen_spec, style_decls, style_classes, resolves, classes_of, decls_of, class_rules,
    div_css, table_css, td_css, ln_css, hi_css, base_css, bordered_css,
};
use crate::templates::{span_style_text, span_style_fill, span_class_text, span_class_fill, ln_cell_inline_text, ln_cell_inline_fill, ln_cell_class_text, ln_cell_class_fill, styled_cell_text, styled_cell_fill, hi_cell_text, hi_cell_fill, cell_text, cell_fill, class_rule_text, base_text, inline_head_text, inline_head_fill, class_head_text, class_head_fill, info_text, info_fill, boxed_text, boxed_fill, script_text, script_fill, page_text, page_fill};
use crate::color::{css as color_css, is_light, lum2};
use crate::text::{escape_js, escape_js_spec, collapse_whitespace, collapse_spec};
use crate::theme::{background_of, theme_bg};
use crate::text::{chars_of, string_of, escape_html, escape_html_spec, dec_spec, dec_string};
use crate::theme::{Theme, fg_decl, bg_decl, pt_class, table_index};

verus! {

/// Whether a style differs from the base colors in anything.
pub open spec fn has_decls(g: GenView, st: Style) -> bool {
    style_decls(st, g.fg, g.bg).len() > 0
}

/// The opening markup of a run in a style: nothing for a plain style, else a span.
pub open spec fn open_run(g: GenView, st: Style, inline: bool) -> Seq<char> {
    if !has_decls(g, st) {
        Seq::empty()
    } else if inline {
        span_style_text(decls_of(g, st))
    } else {
        span_class_text(classes_of(g, st))
    }
}

pub open spec fn close_run(open: Option<Style>) -> Seq<char> {
    if open is Some {
        "</span>"@
    } else {
        Seq::empty()
    }
}

/// The HTML of a line's spans, given the style of the run left open before them.
/// A span in the open run's style joins it; any other closes it and opens its own.
pub open spec fn line_spec(g: GenView, spans: Seq<Span>, open: Option<Style>, inline: bool) -> Seq<char>
    decreases spans.len(),
{
    if spans.len() == 0 {
        close_run(open)
    } else if open == Some(spans[0].style) {
        escape_html_spec(spans[0].text@) + line_spec(g, spans.skip(1), open, inline)
    } else {
        close_run(open) + open_run(g, spans[0].style, inline) + escape_html_spec(spans[0].text@)
            + line_spec(
            g,
            spans.skip(1),
            if has_decls(g, spans[0].style) {
                Some(spans[0].style)
            } else {
                None
            },
            inline,
        )
    }
}

/// Whether the generator resolves every span of a line.
pub open spec fn line_resolves(g: GenView, spans: Seq<Span>) -> bool {
    forall|i: int| 0 <= i < spans.len() ==> resolves(g, #[trigger] spans[i].style)
}

#[verifier::rlimit(40)]
/// Renders one line's spans, joining adjacent spans of one style into one run.
pub fn line_to_html(spans: &Vec<Span>, g: &CssGen, inline: bool) -> (r: String)
    requires
        g.table.wf(),
        line_resolves(g@, spans@),
    ensures
        r@ == line_spec(g@, spans@, None, inline),
{
    let mut out = String::new();
    let mut prev: Option<Style> = None;
    let mut i: usize = 0;
    assert(spans@.skip(0) =~= spans@);
    assert(out@ + line_spec(g@, spans@, None, inline) =~= line_spec(g@, spans@, None, inline));
    while i < spans.len()
        invariant
            g.table.wf(),
            line_resolves(g@, spans@),
            i <= spans.len(),
            out@ + line_spec(g@, spans@.skip(i as int), prev, inline) == line_spec(g@, spans@, None, inline),
        decreases spans.len() - i,
    {
        let sp = &spans[i];
        let ghost rest = spans@.skip(i as int);
        assert(rest[0] == spans@[i as int]);
        assert(rest.skip(1) =~= spans@.skip(i + 1));
        let ghost before = out@;
        let html = escape_html(sp.text.as_str());
        if prev == Some(sp.style) {
            assert(line_spec(g@, rest, prev, inline) == escape_html_spec(sp.text@) + line_spec(g@, rest.skip(1), prev, inline));
            out.append(html.as_str());
            assert(out@ + line_spec(g@, spans@.skip(i + 1), prev, inline) =~= before + line_spec(g@, rest, prev, inline));
        } else {
            if prev.is_some() {
                out.append("</span>");
            }
            assert(resolves(g@, spans@[i as int].style));
            let (classes, decls) = g.style(&sp.style);
            let st = sp.style;
            let plain = !(st.foreground != g.fg || st.background != g.bg || st.underline || st.bold || st.italic);
            assert(plain == !has_decls(g@, st));
            if plain {
            } else if inline {
                out.append(span_style_fill(decls.as_str()).as_str());
            } else {
                out.append(span_class_fill(classes.as_str()).as_str());
            }
            out.append(html.as_str());
            let ghost old_prev = prev;
            prev = if plain { None } else { Some(st) };
            assert(line_spec(g@, rest, old_prev, inline) == close_run(old_prev) + open_run(g@, st, inline)
                + escape_html_spec(sp.text@) + line_spec(g@, rest.skip(1), prev, inline));
            assert(out@ + line_spec(g@, spans@.skip(i + 1), prev, inline) =~= before + line_spec(g@, rest, old_prev, inline));
        }
        i = i + 1;
    }
    assert(spans@.skip(i as int).len() == 0);
    if prev.is_some() {
        out.append("</span>");
    }
    assert(out@ =~= line_spec(g@, spans@, None, inline));
    out
}

/// What a table cell shows of a line: its HTML, or a newline reference when empty.
pub open spec fn cell_html(h: Seq<char>) -> Seq<char> {
    if h.len() == 0 {
        "&#10;"@
    } else {
        h
    }
}

/// Whether line `num` (from 1) is shown under the configured selection.
pub open spec fn selected(c: Config, num: int) -> bool {
    match c.selection {
        Some((start, end)) => start <= num <= end,
        None => true,
    }
}

/// The table row of line `num` whose HTML is `h`.
pub open spec fn row_spec(g: GenView, c: Config, num: nat, h: Seq<char>) -> Seq<char> {
    let hh = cell_html(h);
    let hl = c.highlighted@.contains(num as usize);
    let td = td_css(c.numbers);
    "<tr>"@ + (if c.numbers {
        if c.inline {
            ln_cell_inline_text(ln_css(g), td, dec_spec(num))
        } else {
            ln_cell_class_text(dec_spec(num))
        }
    } else {
        Seq::empty()
    }) + (if c.inline {
        if hl {
            styled_cell_text(hi_css(g) + td, hh)
        } else {
            styled_cell_text(td, hh)
        }
    } else {
        if hl {
            hi_cell_text(hh)
        } else {
            cell_text(hh)
        }
    }) + "</tr>\n"@
}

/// The rows of the first `n` lines that the selection shows, in order.
pub open spec fn rows_spec(g: GenView, c: Config, lines: Seq<Vec<Span>>, n: int) -> Seq<char>
    decreases n,
{
    if n <= 0 {
        Seq::empty()
    } else {
        rows_spec(g, c, lines, n - 1) + if selected(c, n) {
            row_spec(g, c, n as nat, line_spec(g, lines[n - 1]@, None, c.inline))
        } else {
            Seq::empty()
        }
    }
}

/// The opening of the container and table.
pub open spec fn head_spec(g: GenView, c: Config) -> Seq<char> {
    if c.inline {
        inline_head_text(div_css(g), table_css())
    } else {
        class_head_text(c.css_prefix@)
    }
}

/// The container with the table of all shown lines.
pub open spec fn base_html_spec(g: GenView, c: Config, lines: Seq<Vec<Span>>) -> Seq<char> {
    head_spec(g, c) + rows_spec(g, c, lines, lines.len() as int) + "</table>\n</div>\n"@
}

/// Whether the generator resolves every span of every line.
pub open spec fn lines_resolve(g: GenView, lines: Seq<Vec<Span>>) -> bool {
    forall|i: int| 0 <= i < lines.len() ==> line_resolves(g, #[trigger] lines[i]@)
}

/// Whether `n` is among the numbers.
pub fn contains_num(v: &Vec<usize>, n: usize) -> (r: bool)
    ensures
        r == v@.contains(n),
{
    let mut i: usize = 0;
    while i < v.len()
        invariant
            i <= v.len(),
            forall|j: int| 0 <= j < i ==> v@[j] != n,
        decreases v.len() - i,
    {
        if v[i] == n {
            return true;
        }
        i = i + 1;
    }
    false
}

fn row(g: &CssGen, config: &Config, num: usize, h: String) -> (r: String)
    ensures
        r@ == row_spec(g@, *config, num as nat, h@),
{
    let hh = if h.as_str().is_empty() { String::from_str("&#10;") } else { h };
    let hl = contains_num(&config.highlighted, num);
    let td = g.td(config);
    let mut out = String::from_str("<tr>");
    let ghost s0 = out@;
    if config.numbers {
        let n = dec_string(num);
        if config.inline {
            out.append(ln_cell_inline_fill(g.line_numbers().as_str(), td.as_str(), n.as_str()).as_str());
        } else {
            out.append(ln_cell_class_fill(n.as_str()).as_str());
        }
    }
    let ghost s1 = out@;
    if config.inline {
        if hl {
            let mut st = g.highlight();
            st.append(td.as_str());
            out.append(styled_cell_fill(st.as_str(), hh.as_str()).as_str());
        } else {
            out.append(styled_cell_fill(td.as_str(), hh.as_str()).as_str());
        }
    } else {
        if hl {
            out.append(hi_cell_fill(hh.as_str()).as_str());
        } else {
            out.append(cell_fill(hh.as_str()).as_str());
        }
    }
    out.append("</tr>\n");
    assert(out@ =~= row_spec(g@, *config, num as nat, h@));
    out
}

/// The container and table of all lines that the selection shows. Every line is
/// rendered, shown or not.
#[verifier::rlimit(40)]
pub fn make_base_html(lines: &Vec<Vec<Span>>, config: &Config, g: &CssGen) -> (r: String)
    requires
        g.table.wf(),
        lines_resolve(g@, lines@),
        lines@.len() < usize::MAX,
    ensures
        r@ == base_html_spec(g@, *config, lines@),
{
    let mut out = if config.inline {
        inline_head_fill(g.outer_div().as_str(), g.table().as_str())
    } else {
        class_head_fill(config.css_prefix.as_str())
    };
    let mut i: usize = 0;
    while i < lines.len()
        invariant
            g.table.wf(),
            lines_resolve(g@, lines@),
            lines@.len() < usize::MAX,
            i <= lines.len(),
            out@ == head_spec(g@, *config) + rows_spec(g@, *config, lines@, i as int),
        decreases lines.len() - i,
    {
        let num = i + 1;
        assert(line_resolves(g@, lines@[i as int]@));
        let html = line_to_html(&lines[i], g, config.inline);
        let show = match config.selection {
            Some((start, end)) => start <= num && num <= end,
            None => true,
        };
        let ghost before = out@;
        if show {
            let r = row(g, config, num, html);
            out.append(r.as_str());
        }
        assert(out@ =~= head_spec(g@, *config) + rows_spec(g@, *config, lines@, num as int));
        i = num;
    }
    out.append("</table>\n</div>\n");
    out
}

/// The number of occurrences of `<tr>` in a text.
pub open spec fn count_tr(s: Seq<char>) -> nat
    decreases s.len(),
{
    if s.len() < 4 {
        0
    } else {
        (if s.take(4) == seq!['<', 't', 'r', '>'] {
            1nat
        } else {
            0nat
        }) + count_tr(s.skip(1))
    }
}

/// Counts the rows of some rendered HTML.
pub fn count_rows(body: &str) -> (n: usize)
    ensures
        n == count_tr(body@),
{
    let cs = chars_of(body);
    let mut n: usize = 0;
    let mut i: usize = 0;
    assert(cs@.skip(0) =~= cs@);
    while i < cs.len()
        invariant
            cs@ == body@,
            i <= cs.len(),
            n <= i,
            n + count_tr(cs@.skip(i as int)) == count_tr(cs@),
        decreases cs.len() - i,
    {
        let ghost rest = cs@.skip(i as int);
        assert(rest.skip(1) =~= cs@.skip(i + 1));
        if cs.len() - i < 4 {
            assert(count_tr(rest) == 0);
            return n;
        }
        let hit = cs[i] == '<' && cs[i + 1] == 't' && cs[i + 2] == 'r' && cs[i + 3] == '>';
        assert(hit == (rest.take(4) == seq!['<', 't', 'r', '>'])) by {
            if hit {
                assert(rest.take(4) =~= seq!['<', 't', 'r', '>']);
            }
            if rest.take(4) == seq!['<', 't', 'r', '>'] {
                assert(rest.take(4)[0] == cs@[i as int]);
                assert(rest.take(4)[1] == cs@[i + 1]);
                assert(rest.take(4)[2] == cs@[i + 2]);
                assert(rest.take(4)[3] == cs@[i + 3]);
            }
        }
        if hit {
            n = n + 1;
        }
        i = i + 1;
    }
    n
}

/// The position of the first `|` at or after `i`, or the length when there is none.
pub open spec fn bar_from(t: Seq<char>, i: int) -> int
    decreases t.len() - i,
{
    if i >= t.len() {
        t.len() as int
    } else if t[i] == '|' {
        i
    } else {
        bar_from(t, i + 1)
    }
}

/// The text of a title before its first `|`.
pub open spec fn title_left(t: Seq<char>) -> Seq<char> {
    t.subrange(0, bar_from(t, 0))
}

/// The text of a title between its first and second `|`, empty without a `|`.
pub open spec fn title_right(t: Seq<char>) -> Seq<char> {
    let p = bar_from(t, 0);
    if p < t.len() {
        t.subrange(p + 1, bar_from(t, p + 1))
    } else {
        Seq::empty()
    }
}

proof fn lemma_bar_from_range(t: Seq<char>, i: int)
    requires
        0 <= i <= t.len(),
    ensures
        i <= bar_from(t, i) <= t.len(),
    decreases t.len() - i,
{
    if i < t.len() && t[i] != '|' {
        lemma_bar_from_range(t, i + 1);
    }
}

fn find_bar(cs: &Vec<char>, start: usize) -> (r: usize)
    requires
        start <= cs.len(),
    ensures
        r == bar_from(cs@, start as int),
        start <= r <= cs.len(),
{
    let mut i = start;
    while i < cs.len() && cs[i] != '|'
        invariant
            start <= i <= cs.len(),
            bar_from(cs@, start as int) == bar_from(cs@, i as int),
        decreases cs.len() - i,
    {
        i = i + 1;
    }
    i
}

pub(crate) fn sub_string(cs: &Vec<char>, from: usize, to: usize) -> (r: String)
    requires
        from <= to <= cs.len(),
    ensures
        r@ == cs@.subrange(from as int, to as int),
{
    let mut v: Vec<char> = Vec::new();
    let mut i = from;
    while i < to
        invariant
            from <= i <= to <= cs.len(),
            v@ == cs@.subrange(from as int, i as int),
        decreases to - i,
    {
        v.push(cs[i]);
        assert(v@ =~= cs@.subrange(from as int, i + 1));
        i = i + 1;
    }
    string_of(&v)
}

/// The info bar: the title's fields, or the file name and the row count.
pub open spec fn info_spec(c: Config, body: Seq<char>) -> Seq<char> {
    let class = if c.footer { "footer"@ } else { "header"@ };
    match c.title {
        Some(t) => info_text(class, title_left(t@), title_right(t@)),
        None => info_text(class, c.filename@, dec_spec(count_tr(body)) + " lines"@),
    }
}

/// The bordered box around a body, with an info bar as header or footer when asked.
pub open spec fn border_spec(c: Config, body: Seq<char>) -> Seq<char> {
    if !c.header && !c.footer {
        boxed_text(c.css_prefix@, body)
    } else if c.footer {
        boxed_text(c.css_prefix@, body + info_spec(c, body))
    } else {
        boxed_text(c.css_prefix@, info_spec(c, body) + body)
    }
}

/// Wraps rendered HTML in a bordered box, with a header or a footer when asked.
pub fn add_border(body: &str, config: &Config) -> (r: String)
    ensures
        r@ == border_spec(*config, body@),
{
    let prefix = config.css_prefix.as_str();
    if !config.header && !config.footer {
        return boxed_fill(prefix, body);
    }
    let class = if config.footer { "footer" } else { "header" };
    let info = match &config.title {
        Some(t) => {
            let cs = chars_of(t.as_str());
            let p = find_bar(&cs, 0);
            let left = sub_string(&cs, 0, p);
            let right = if p < cs.len() {
                let q = find_bar(&cs, p + 1);
                sub_string(&cs, p + 1, q)
            } else {
                String::new()
            };
            info_fill(class, left.as_str(), right.as_str())
        },
        None => {
            let mut right = dec_string(count_rows(body));
            right.append(" lines");
            info_fill(class, config.filename.as_str(), right.as_str())
        },
    };
    let mut inner = String::new();
    if config.footer {
        inner.append(body);
        inner.append(info.as_str());
    } else {
        inner.append(info.as_str());
        inner.append(body);
    }
    assert(inner@ =~= if config.footer { body@ + info_spec(*config, body@) } else { info_spec(*config, body@) + body@ });
    boxed_fill(prefix, inner.as_str())
}

/// The HTML and CSS of a render, or why it cannot be made.
pub open spec fn render_spec(lines: Seq<Vec<Span>>, theme: Theme, c: Config, tones: Tones) -> Result<
    (Seq<char>, Seq<char>),
    PaintError,
> {
    match gen_spec(theme, tones) {
        None => Err(PaintError::MissingSelection),
        Some(g) => if !lines_resolve(g, lines) {
            Err(PaintError::UnknownStyle)
        } else {
            let base = base_html_spec(g, c, lines);
            Ok(
                (
                    if c.border { border_spec(c, base) } else { base },
                    if c.border { bordered_css(g, c) } else { base_css(g, c) },
                ),
            )
        },
    }
}

/// Whether a result holds these two texts, or this error.
pub open spec fn same_result(r: Result<(String, String), PaintError>, s: Result<(Seq<char>, Seq<char>), PaintError>) -> bool {
    match (r, s) {
        (Ok((h, c)), Ok((hs, cs))) => h@ == hs && c@ == cs,
        (Err(e), Err(es)) => e == es,
        _ => false,
    }
}

fn check_lines(lines: &Vec<Vec<Span>>, g: &CssGen) -> (r: bool)
    requires
        g.table.wf(),
    ensures
        r == lines_resolve(g@, lines@),
{
    let mut i: usize = 0;
    while i < lines.len()
        invariant
            g.table.wf(),
            i <= lines.len(),
            forall|k: int| 0 <= k < i ==> line_resolves(g@, #[trigger] lines@[k]@),
        decreases lines.len() - i,
    {
        let line = &lines[i];
        let mut j: usize = 0;
        while j < line.len()
            invariant
                g.table.wf(),
                i < lines.len(),
                *line == lines@[i as int],
                j <= line.len(),
                forall|k: int| 0 <= k < j ==> resolves(g@, #[trigger] line@[k].style),
            decreases line.len() - j,
        {
            if !g.can_resolve(&line[j].style) {
                assert(!line_resolves(g@, lines@[i as int]@));
                return false;
            }
            j = j + 1;
        }
        assert(line_resolves(g@, lines@[i as int]@));
        i = i + 1;
    }
    true
}

/// Renders lines of styled spans with a theme: the HTML and its stylesheet.
pub fn highlight(lines: &Vec<Vec<Span>>, theme: &Theme, config: &Config, tones: &Tones) -> (r: Result<(String, String), PaintError>)
    requires
        lines@.len() < usize::MAX,
    ensures
        same_result(r, render_spec(lines@, *theme, *config, *tones)),
{
    let g = match CssGen::from(theme, tones) {
        Ok(g) => g,
        Err(e) => return Err(e),
    };
    if !check_lines(lines, &g) {
        return Err(PaintError::UnknownStyle);
    }
    let base = make_base_html(lines, config, &g);
    let css = if config.border { g.bordered(config) } else { g.base(config) };
    let html = if config.border { add_border(base.as_str(), config) } else { base };
    Ok((html, css))
}

/// The stylesheet of a theme, bordered box included, independent of any text.
pub fn css(theme: &Theme, config: &Config, tones: &Tones) -> (r: Result<String, PaintError>)
    ensures
        match (r, gen_spec(*theme, *tones)) {
            (Ok(c), Some(g)) => c@ == bordered_css(g, *config),
            (Err(e), None) => e == PaintError::MissingSelection,
            _ => false,
        },
{
    match CssGen::from(theme, tones) {
        Ok(g) => Ok(g.bordered(config)),
        Err(e) => Err(e),
    }
}

/// Wraps HTML and CSS as two script writes of single-quoted strings, the CSS on one line.
pub fn embed_script(html: &str, css: &str) -> (r: String)
    ensures
        r@ == script_text(collapse_spec(4, escape_js_spec(css@), true), escape_js_spec(html@)),
{
    let c = collapse_whitespace(1, escape_js(css));
    let h = escape_js(html);
    script_fill(c.as_str(), h.as_str())
}

/// A standalone page around HTML and CSS, with the theme's background behind it,
/// dimmed when the theme is dark.
pub fn fullpage(html: &str, css_text: &str, theme: &Theme) -> (r: String)
    ensures
        r@ == collapse_spec(
            8,
            page_text(
                css_spec(theme_bg(*theme)),
                if 5 * lum2(theme_bg(*theme)) > 1020 { ""@ } else { "filter: brightness(90%)"@ },
                css_text@,
                html@,
            ),
            true,
        ),
{
    let bg = background_of(theme);
    let background = color_css(&bg);
    let filter = if !is_light(&bg) { "filter: brightness(90%)" } else { "" };
    collapse_whitespace(2, page_fill(background.as_str(), filter, css_text, html))
}

/// Rendering is deterministic: two results that both meet `highlight`'s contract for
/// the same lines, theme, configuration and shades hold the same texts.
pub proof fn lemma_render_deterministic(
    r1: Result<(String, String), PaintError>,
    r2: Result<(String, String), PaintError>,
    lines: Seq<Vec<Span>>,
    theme: Theme,
    c: Config,
    tones: Tones,
)
    requires
        same_result(r1, render_spec(lines, theme, c, tones)),
        same_result(r2, render_spec(lines, theme, c, tones)),
    ensures
        match (r1, r2) {
            (Ok((h1, c1)), Ok((h2, c2))) => h1@ == h2@ && c1@ == c2@,
            (Err(e1), Err(e2)) => e1 == e2,
            _ => false,
        },
{
}

/// Whether `piece` occurs in `s`.
pub open spec fn holds_text(s: Seq<char>, piece: Seq<char>) -> bool {
    exists|a: Seq<char>, b: Seq<char>| s == a + piece + b
}

/// The class rules hold the rule of each table class `i`.
pub proof fn lemma_class_rule_present(t: Seq<Seq<char>>, prefix: Seq<char>, n: int, i: int)
    requires
        0 <= i < n <= t.len(),
    ensures
        holds_text(class_rules(t, prefix, n), class_rule_text(prefix, pt_class(i), t[i])),
    decreases n,
{
    let rule = class_rule_text(prefix, pt_class(i), t[i]);
    if i == n - 1 {
        let a = class_rules(t, prefix, n - 1);
        assert(class_rules(t, prefix, n) == a + rule + Seq::<char>::empty());
    } else {
        lemma_class_rule_present(t, prefix, n - 1, i);
        let (a, b) = choose|a: Seq<char>, b: Seq<char>| class_rules(t, prefix, n - 1) == a + rule + b;
        let last = class_rule_text(prefix, pt_class(n - 1), t[n - 1]);
        assert(class_rules(t, prefix, n) =~= a + rule + (b + last));
    }
}

/// Every class that a resolvable style uses is `un`, `bo`, `it` or a table class, and
/// the stylesheet (without the bordered box) holds a rule for each table class.
pub proof fn lemma_classes_defined(g: GenView, c: Config, st: Style)
    requires
        resolves(g, st),
    ensures
        forall|k: int| 0 <= k < style_classes(st, g.table, g.fg, g.bg).len() ==> {
            let w = #[trigger] style_classes(st, g.table, g.fg, g.bg)[k];
            w == "un"@ || w == "bo"@ || w == "it"@ || exists|i: int| 0 <= i < g.table.len() && w == pt_class(i)
        },
        forall|i: int| 0 <= i < g.table.len() ==> holds_text(base_css(g, c), class_rule_text(c.css_prefix@, #[trigger] pt_class(i), g.table[i])),
{
    let cl = style_classes(st, g.table, g.fg, g.bg);
    if st.foreground != g.fg {
        let d = fg_decl(st.foreground);
        assert(g.table.contains(d));
        let i = table_index(g.table, d);
        assert(0 <= i < g.table.len());
    }
    if st.background != g.bg {
        let d = bg_decl(st.background);
        assert(g.table.contains(d));
        let i = table_index(g.table, d);
        assert(0 <= i < g.table.len());
    }
    assert forall|i: int| 0 <= i < g.table.len() implies holds_text(base_css(g, c), class_rule_text(c.css_prefix@, #[trigger] pt_class(i), g.table[i])) by {
        lemma_class_rule_present(g.table, c.css_prefix@, g.table.len() as int, i);
        let rule = class_rule_text(c.css_prefix@, pt_class(i), g.table[i]);
        let (a, b) = choose|a: Seq<char>, b: Seq<char>| class_rules(g.table, c.css_prefix@, g.table.len() as int) == a + rule + b;
        let head = collapse_spec(
            12,
            base_text(c.css_prefix@, div_css(g), table_css(), td_css(c.numbers), ln_css(g), hi_css(g)),
            true,
        );
        assert(base_css(g, c) =~= (head + a) + rule + b);
        assert(holds_text(base_css(g, c), rule));
    }
}

} // verus!
