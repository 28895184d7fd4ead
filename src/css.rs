use vstd::prelude::*;
use vstd::string::*;
use crate::color::{Color, alpha, alpha_spec, css, css_spec, is_light, lum2, scaled_alpha};
use crate::config::Config;
use crate::templates::{outer_div_text, outer_div_fill, table_text, table_fill, line_numbers_text, line_numbers_fill, base_text, base_fill, class_rule_text, class_rule_fill, bordered_text, bordered_fill};
use crate::config::PaintError;
use crate::text::{chars_of, string_of, collapse_whitespace, collapse_spec, dec_string};
use crate::theme::{Theme, StyleTable, theme_bg, theme_fg, theme_decl, fg_decl, bg_decl, pt_class, table_index, make_style_table, table_spec, lemma_table_is_spec, background_of, foreground_of, same_chars, fg_decl_chars, bg_decl_chars};

verus! {

/// One span's resolved look.
#[derive(Clone, Copy, Debug, PartialEq, Eq, Structural)]
pub struct Style {
    pub foreground: Color,
    pub background: Color,
    pub underline: bool,
    pub bold: bool,
    pub italic: bool,
}

/// A run of text with one style.
#[derive(Clone, Debug)]
pub struct Span {
    pub style: Style,
    pub text: String,
}

/// Shifted shades of a theme's base colors, computed in HSL space: `darker` is the
/// background darkened (saturation x0.85, luminance x0.95), `header` the background
/// lightened (x0.65, x1.65), `border` the header lightened (x0.75, x1.35), and
/// `highlight` the background lightened (x1.0, x1.35).
#[derive(Clone, Copy, Debug, PartialEq, Eq, Structural)]
pub struct Tones {
    pub darker: Color,
    pub header: Color,
    pub border: Color,
    pub highlight: Color,
}

/// The four derived colors of a render.
#[derive(Clone, Copy, Debug, PartialEq, Eq, Structural)]
pub struct Palette {
    pub header: Color,
    pub border: Color,
    pub highlight: Color,
    pub line_numbers: Color,
}

/// The palette of a theme: fixed for "GitHub Light", else by whether the background
/// is light; `None` for a light theme without a selection color.
pub open spec fn palette_spec(t: Theme, tones: Tones) -> Option<Palette> {
    let bg = theme_bg(t);
    if t.name@ == "GitHub Light"@ {
        Some(Palette {
            header: Color { r: 249, g: 249, b: 249, a: 255 },
            border: Color { r: 221, g: 221, b: 221, a: 255 },
            highlight: Color { r: 255, g: 251, b: 221, a: 255 },
            line_numbers: Color { r: 190, g: 191, b: 191, a: 255 },
        })
    } else if 5 * lum2(bg) > 1020 {
        match t.selection {
            Some(sel) => Some(Palette {
                header: tones.darker,
                border: Color { r: 204, g: 204, b: 204, a: 255 },
                highlight: sel,
                line_numbers: Color { r: 153, g: 153, b: 153, a: 170 },
            }),
            None => None,
        }
    } else {
        let fg = theme_fg(t);
        Some(Palette {
            header: tones.header,
            border: tones.border,
            highlight: tones.highlight,
            line_numbers: Color { r: fg.r, g: fg.g, b: fg.b, a: scaled_alpha(fg.a, 25) as u8 },
        })
    }
}

/// Picks the palette of a theme from its base colors and the shifted shades.
pub fn palette(theme: &Theme, tones: &Tones) -> (r: Option<Palette>)
    ensures
        r == palette_spec(*theme, *tones),
{
    let bg = background_of(theme);
    let name = chars_of(theme.name.as_str());
    let github = chars_of("GitHub Light");
    if same_chars(&name, &github) {
        return Some(Palette {
            header: Color { r: 249, g: 249, b: 249, a: 255 },
            border: Color { r: 221, g: 221, b: 221, a: 255 },
            highlight: Color { r: 255, g: 251, b: 221, a: 255 },
            line_numbers: Color { r: 190, g: 191, b: 191, a: 255 },
        });
    }
    if is_light(&bg) {
        match theme.selection {
            Some(sel) => Some(Palette {
                header: tones.darker,
                border: Color { r: 204, g: 204, b: 204, a: 255 },
                highlight: sel,
                line_numbers: Color { r: 153, g: 153, b: 153, a: 170 },
            }),
            None => None,
        }
    } else {
        let fg = foreground_of(theme);
        Some(Palette {
            header: tones.header,
            border: tones.border,
            highlight: tones.highlight,
            line_numbers: alpha(&fg, 25),
        })
    }
}

/// The words of `s` separated by single spaces.
pub open spec fn joined(s: Seq<Seq<char>>) -> Seq<char>
    decreases s.len(),
{
    if s.len() == 0 {
        Seq::empty()
    } else if s.len() == 1 {
        s[0]
    } else {
        joined(s.drop_last()) + " "@ + s.last()
    }
}

pub open spec fn opt_word(b: bool, w: Seq<char>) -> Seq<Seq<char>> {
    if b {
        seq![w]
    } else {
        Seq::empty()
    }
}

/// The declarations by which a style differs from the base colors `fg` and `bg`.
pub open spec fn style_decls(st: Style, fg: Color, bg: Color) -> Seq<Seq<char>> {
    opt_word(st.foreground != fg, fg_decl(st.foreground)) + opt_word(
        st.background != bg,
        bg_decl(st.background),
    ) + opt_word(st.underline, "text-decoration: underline;"@) + opt_word(
        st.bold,
        "font-weight: bold;"@,
    ) + opt_word(st.italic, "font-style: italic;"@)
}

/// The classes of those declarations: table classes for colors, `un`, `bo`, `it`
/// for underline, bold and italic.
pub open spec fn style_classes(st: Style, t: Seq<Seq<char>>, fg: Color, bg: Color) -> Seq<Seq<char>> {
    opt_word(st.foreground != fg, pt_class(table_index(t, fg_decl(st.foreground)))) + opt_word(
        st.background != bg,
        pt_class(table_index(t, bg_decl(st.background))),
    ) + opt_word(st.underline, "un"@) + opt_word(st.bold, "bo"@) + opt_word(st.italic, "it"@)
}

/// Whether the table holds every color declaration of a style.
pub open spec fn resolvable(st: Style, t: Seq<Seq<char>>, fg: Color, bg: Color) -> bool {
    &&& (st.foreground != fg ==> t.contains(fg_decl(st.foreground)))
    &&& (st.background != bg ==> t.contains(bg_decl(st.background)))
}

pub proof fn lemma_joined_push(s: Seq<Seq<char>>, w: Seq<char>)
    ensures
        joined(s.push(w)) == if s.len() == 0 { w } else { joined(s) + " "@ + w },
{
    assert(s.push(w).drop_last() =~= s);
}

/// The CSS generator of one render: the style table, the base colors and the palette.
pub struct CssGen {
    pub table: StyleTable,
    pub fg: Color,
    pub bg: Color,
    pub palette: Palette,
}

/// The generator of a theme, `None` where its palette cannot be made.
pub open spec fn gen_spec(t: Theme, tones: Tones) -> Option<GenView> {
    match palette_spec(t, tones) {
        Some(p) => Some(GenView { table: table_spec(t), fg: theme_fg(t), bg: theme_bg(t), palette: p }),
        None => None,
    }
}

/// What a CSS generator holds, as values.
pub struct GenView {
    pub table: Seq<Seq<char>>,
    pub fg: Color,
    pub bg: Color,
    pub palette: Palette,
}

impl View for CssGen {
    type V = GenView;

    open spec fn view(&self) -> GenView {
        GenView { table: self.table@, fg: self.fg, bg: self.bg, palette: self.palette }
    }
}

/// The classes of a style, joined by spaces.
pub open spec fn classes_of(g: GenView, st: Style) -> Seq<char> {
    joined(style_classes(st, g.table, g.fg, g.bg))
}

/// The declarations of a style, joined by spaces.
pub open spec fn decls_of(g: GenView, st: Style) -> Seq<char> {
    joined(style_decls(st, g.fg, g.bg))
}

/// Whether the generator's table holds the color declarations of a style.
pub open spec fn resolves(g: GenView, st: Style) -> bool {
    resolvable(st, g.table, g.fg, g.bg)
}

fn add_word(out: &mut String, words: Ghost<Seq<Seq<char>>>, first: bool, w: &str)
    requires
        old(out)@ == joined(words@),
        first == (words@.len() == 0),
    ensures
        final(out)@ == joined(words@.push(w@)),
{
    proof {
        lemma_joined_push(words@, w@);
    }
    if !first {
        out.append(" ");
    }
    out.append(w);
}

impl CssGen {
    /// Builds the style table and picks the palette; fails for a light theme
    /// without a selection color.
    pub fn from(theme: &Theme, tones: &Tones) -> (r: Result<CssGen, PaintError>)
        ensures
            palette_spec(*theme, *tones) is None ==> r == Err::<CssGen, PaintError>(
                PaintError::MissingSelection,
            ),
            palette_spec(*theme, *tones) is Some ==> (r matches Ok(g) && g.table.wf() && Some(g@)
                == gen_spec(*theme, *tones)),
    {
        let table = make_style_table(theme);
        proof {
            lemma_table_is_spec(*theme, table@);
        }
        match palette(theme, tones) {
            Some(p) => Ok(CssGen { table, fg: foreground_of(theme), bg: background_of(theme), palette: p }),
            None => Err(PaintError::MissingSelection),
        }
    }

    /// Whether the table holds the color declarations of a style.
    pub fn can_resolve(&self, st: &Style) -> (r: bool)
        requires
            self.table.wf(),
        ensures
            r == resolves(self@, *st),
    {
        if st.foreground != self.fg {
            if self.table.class_of(&fg_decl_chars(&st.foreground)).is_none() {
                return false;
            }
        }
        if st.background != self.bg {
            if self.table.class_of(&bg_decl_chars(&st.background)).is_none() {
                return false;
            }
        }
        true
    }

    /// The classes and the declarations of a style, each joined by spaces.
    pub fn style(&self, st: &Style) -> (r: (String, String))
        requires
            self.table.wf(),
            resolves(self@, *st),
        ensures
            r.0@ == classes_of(self@, *st),
            r.1@ == decls_of(self@, *st),
    {
        let mut classes = String::new();
        let mut decls = String::new();
        let ghost mut cl: Seq<Seq<char>> = Seq::empty();
        let ghost mut dl: Seq<Seq<char>> = Seq::empty();
        let mut first = true;
        if st.foreground != self.fg {
            let d = fg_decl_chars(&st.foreground);
            let c = self.table.class_of(&d).unwrap();
            let ds = string_of(&d);
            add_word(&mut classes, Ghost(cl), first, c.as_str());
            add_word(&mut decls, Ghost(dl), first, ds.as_str());
            first = false;
            proof {
                cl = cl.push(c@);
                dl = dl.push(ds@);
            }
        }
        if st.background != self.bg {
            let d = bg_decl_chars(&st.background);
            let c = self.table.class_of(&d).unwrap();
            let ds = string_of(&d);
            add_word(&mut classes, Ghost(cl), first, c.as_str());
            add_word(&mut decls, Ghost(dl), first, ds.as_str());
            first = false;
            proof {
                cl = cl.push(c@);
                dl = dl.push(ds@);
            }
        }
        if st.underline {
            add_word(&mut classes, Ghost(cl), first, "un");
            add_word(&mut decls, Ghost(dl), first, "text-decoration: underline;");
            first = false;
            proof {
                cl = cl.push("un"@);
                dl = dl.push("text-decoration: underline;"@);
            }
        }
        if st.bold {
            add_word(&mut classes, Ghost(cl), first, "bo");
            add_word(&mut decls, Ghost(dl), first, "font-weight: bold;");
            first = false;
            proof {
                cl = cl.push("bo"@);
                dl = dl.push("font-weight: bold;"@);
            }
        }
        if st.italic {
            add_word(&mut classes, Ghost(cl), first, "it");
            add_word(&mut decls, Ghost(dl), first, "font-style: italic;");
            first = false;
            proof {
                cl = cl.push("it"@);
                dl = dl.push("font-style: italic;"@);
            }
        }
        assert(cl =~= style_classes(*st, self.table@, self.fg, self.bg));
        assert(dl =~= style_decls(*st, self.fg, self.bg));
        (classes, decls)
    }
}

pub open spec fn div_css(g: GenView) -> Seq<char> {
    collapse_spec(8, outer_div_text(css_spec(g.fg), css_spec(g.bg)), true)
}

pub open spec fn table_css() -> Seq<char> {
    collapse_spec(8, table_text(), true)
}

pub open spec fn td_css(numbers: bool) -> Seq<char> {
    if numbers {
        "padding: 0 10px; white-space: pre;"@
    } else {
        "padding: 0 13px; white-space: pre;"@
    }
}

pub open spec fn ln_css(g: GenView) -> Seq<char> {
    collapse_spec(8, line_numbers_text(css_spec(g.palette.line_numbers)), true)
}

pub open spec fn hi_css(g: GenView) -> Seq<char> {
    "background-color: "@ + css_spec(g.palette.highlight) + ";"@
}

/// The rules of the first `n` table classes, in table order.
pub open spec fn class_rules(t: Seq<Seq<char>>, prefix: Seq<char>, n: int) -> Seq<char>
    decreases n,
{
    if n <= 0 {
        Seq::empty()
    } else {
        class_rules(t, prefix, n - 1) + class_rule_text(prefix, pt_class(n - 1), t[n - 1])
    }
}

/// The stylesheet without the bordered box.
pub open spec fn base_css(g: GenView, c: Config) -> Seq<char> {
    collapse_spec(
        12,
        base_text(c.css_prefix@, div_css(g), table_css(), td_css(c.numbers), ln_css(g), hi_css(g)),
        true,
    ) + class_rules(g.table, c.css_prefix@, g.table.len() as int)
}

/// The full stylesheet, bordered box included.
pub open spec fn bordered_css(g: GenView, c: Config) -> Seq<char> {
    collapse_spec(
        12,
        bordered_text(
            c.css_prefix@,
            css_spec(g.palette.border),
            css_spec(alpha_spec(g.fg, 75)),
            css_spec(g.palette.header),
            css_spec(alpha_spec(g.fg, 10)),
            base_css(g, c),
        ),
        true,
    )
}

impl CssGen {
    pub fn outer_div(&self) -> (r: String)
        ensures
            r@ == div_css(self@),
    {
        collapse_whitespace(2, outer_div_fill(css(&self.fg).as_str(), css(&self.bg).as_str()))
    }

    pub fn table(&self) -> (r: String)
        ensures
            r@ == table_css(),
    {
        collapse_whitespace(2, table_fill())
    }

    pub fn td(&self, config: &Config) -> (r: String)
        ensures
            r@ == td_css(config.numbers),
    {
        if config.numbers {
            String::from_str("padding: 0 10px; white-space: pre;")
        } else {
            String::from_str("padding: 0 13px; white-space: pre;")
        }
    }

    pub fn line_numbers(&self) -> (r: String)
        ensures
            r@ == ln_css(self@),
    {
        collapse_whitespace(2, line_numbers_fill(css(&self.palette.line_numbers).as_str()))
    }

    pub fn highlight(&self) -> (r: String)
        ensures
            r@ == hi_css(self@),
    {
        let mut s = String::from_str("background-color: ");
        s.append(css(&self.palette.highlight).as_str());
        s.append(";");
        s
    }

    /// The stylesheet of the container, table and cells, then one rule per table class.
    pub fn base(&self, config: &Config) -> (r: String)
        ensures
            r@ == base_css(self@, *config),
    {
        let prefix = config.css_prefix.as_str();
        let div = self.outer_div();
        let table = self.table();
        let td = self.td(config);
        let ln = self.line_numbers();
        let hi = self.highlight();
        let mut out = collapse_whitespace(
            3,
            base_fill(prefix, div.as_str(), table.as_str(), td.as_str(), ln.as_str(), hi.as_str()),
        );
        let mut i: usize = 0;
        let n = self.table.len();
        while i < n
            invariant
                n == self.table@.len(),
                i <= n,
                prefix@ == config.css_prefix@,
                out@ == collapse_spec(
                    12,
                    base_text(config.css_prefix@, div_css(self@), table_css(), td_css(config.numbers), ln_css(self@), hi_css(self@)),
                    true,
                ) + class_rules(self.table@, config.css_prefix@, i as int),
            decreases n - i,
        {
            let decl = self.table.decl_at(i);
            let mut class = String::from_str("pt");
            class.append(dec_string(i + 1).as_str());
            let rule = class_rule_fill(prefix, class.as_str(), decl.as_str());
            let ghost before = out@;
            out.append(rule.as_str());
            assert(class@ == pt_class(i as int));
            assert(decl@ == self.table@[i as int]);
            assert(rule@ == class_rule_text(config.css_prefix@, pt_class(i as int), self.table@[i as int]));
            assert(class_rules(self.table@, config.css_prefix@, i + 1) == class_rules(self.table@, config.css_prefix@, i as int) + rule@);
            assert(out@ =~= collapse_spec(
                12,
                base_text(config.css_prefix@, div_css(self@), table_css(), td_css(config.numbers), ln_css(self@), hi_css(self@)),
                true,
            ) + class_rules(self.table@, config.css_prefix@, i + 1));
            i = i + 1;
        }
        out
    }

    /// The stylesheet with the bordered box and its info bar.
    pub fn bordered(&self, config: &Config) -> (r: String)
        ensures
            r@ == bordered_css(self@, *config),
    {
        let rest = self.base(config);
        let border = css(&self.palette.border);
        let background = css(&self.palette.header);
        let color = css(&alpha(&self.fg, 75));
        let divider = css(&alpha(&self.fg, 10));
        collapse_whitespace(
            3,
            bordered_fill(
                config.css_prefix.as_str(),
                border.as_str(),
                color.as_str(),
                background.as_str(),
                divider.as_str(),
                rest.as_str(),
            ),
        )
    }
}

} // verus!
