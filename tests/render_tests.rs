use paint::blocks::{block_part, block_theme, find_blocks, modify_config, splice, syntax_alias, wants_css};
use paint::color::{alpha, css, is_light, Color};
use paint::config::{parse_highlighted, parse_selection, Config, PaintError};
use paint::css::{Span, Style, Tones};
use paint::render::{add_border, count_rows, css as stylesheet, embed_script, fullpage, highlight};
use paint::text::{collapse_whitespace, escape_html, escape_js};
use paint::theme::{ScopeStyle, Theme};

fn rgb(r: u8, g: u8, b: u8) -> Color {
    Color { r, g, b, a: 255 }
}

fn config() -> Config {
    Config {
        inline: false,
        numbers: false,
        highlighted: Vec::new(),
        selection: None,
        header: false,
        footer: false,
        border: false,
        title: None,
        filename: String::from("file.rs"),
        css_prefix: String::from("paint"),
    }
}

fn light_theme(scopes: Vec<ScopeStyle>) -> Theme {
    Theme {
        name: String::from("Plain"),
        background: Some(rgb(255, 255, 255)),
        foreground: Some(rgb(0, 0, 0)),
        selection: Some(rgb(238, 238, 238)),
        scopes,
    }
}

fn tones() -> Tones {
    Tones { darker: rgb(240, 240, 240), header: rgb(60, 60, 60), border: rgb(80, 80, 80), highlight: rgb(50, 50, 50) }
}

fn plain_style() -> Style {
    Style { foreground: rgb(0, 0, 0), background: rgb(255, 255, 255), underline: false, bold: false, italic: false }
}

fn span(style: Style, text: &str) -> Span {
    Span { style, text: String::from(text) }
}

#[test]
fn escape_html_replaces_specials() {
    assert_eq!(escape_html("<a href='x'>&\"</a>"), "&lt;a href=&#39;x&#39;&gt;&amp;&quot;&lt;/a&gt;");
}

#[test]
fn escape_html_twice_escapes_ampersands_again() {
    let once = escape_html("a<b");
    assert_eq!(once, "a&lt;b");
    assert_eq!(escape_html(&once), "a&amp;lt;b");
}

#[test]
fn escape_html_keeps_plain_text() {
    assert_eq!(escape_html("plain text ü"), "plain text ü");
    assert_eq!(escape_html(&escape_html("plain")), "plain");
    assert_eq!(escape_html(""), "");
}

#[test]
fn escape_js_drops_newlines_and_escapes_quotes() {
    assert_eq!(escape_js("a\n'b\\c"), "a\\'b\\\\c");
}

#[test]
fn collapse_whitespace_strips_repeated_indents() {
    let text = String::from("    a\n        b\n  c\n     d");
    assert_eq!(collapse_whitespace(1, text), "a\nb\n  c\n d");
}

#[test]
fn css_of_opaque_color_is_hex() {
    assert_eq!(css(&rgb(171, 205, 239)), "#abcdef");
    assert_eq!(css(&Color { r: 1, g: 2, b: 3, a: 255 }), "#010203");
}

#[test]
fn css_of_translucent_color_is_rgba() {
    assert_eq!(css(&Color { r: 1, g: 2, b: 3, a: 128 }), "rgba(1, 2, 3, 0.50)");
    assert_eq!(css(&Color { r: 10, g: 200, b: 0, a: 0 }), "rgba(10, 200, 0, 0.00)");
    assert_eq!(css(&Color { r: 0, g: 0, b: 0, a: 254 }), "rgba(0, 0, 0, 1.00)");
}

#[test]
fn light_dark_boundary() {
    assert!(!is_light(&rgb(102, 102, 102)));
    assert!(is_light(&rgb(105, 105, 105)));
    assert!(is_light(&rgb(255, 255, 255)));
    assert!(!is_light(&rgb(0, 0, 0)));
}

#[test]
fn alpha_scales_only_alpha() {
    let c = alpha(&Color { r: 5, g: 6, b: 7, a: 255 }, 25);
    assert_eq!(c, Color { r: 5, g: 6, b: 7, a: 64 });
    assert_eq!(alpha(&Color { r: 5, g: 6, b: 7, a: 255 }, 10).a, 26);
    assert_eq!(alpha(&Color { r: 5, g: 6, b: 7, a: 200 }, 300).a, 255);
}

#[test]
fn selection_parsing() {
    assert_eq!(parse_selection(Some("3-5")), Ok(Some((3, 5))));
    assert_eq!(parse_selection(Some("7")), Ok(Some((7, 7))));
    assert_eq!(parse_selection(None), Ok(None));
    assert_eq!(parse_selection(Some("x-2")), Err(PaintError::BadLineRange));
    assert_eq!(parse_selection(Some("")), Err(PaintError::BadLineRange));
}

#[test]
fn highlight_union() {
    let mut v = parse_highlighted(Some("2,4-6")).unwrap();
    v.sort();
    v.dedup();
    assert_eq!(v, vec![2, 4, 5, 6]);
    assert_eq!(parse_highlighted(None), Ok(Vec::new()));
    assert_eq!(parse_highlighted(Some("1,a")), Err(PaintError::BadLineRange));
}

#[test]
fn single_default_line_renders_plain_row() {
    let lines = vec![vec![span(plain_style(), "a")]];
    let (html, css) = highlight(&lines, &light_theme(Vec::new()), &config(), &tones()).unwrap();
    assert_eq!(html.matches("<tr><td>a</td></tr>").count(), 1);
    assert_eq!(html, "<div class='paint'>\n<table>\n<tr><td>a</td></tr>\n</table>\n</div>\n");
    assert!(!css.contains(".pt"));
    assert!(css.contains(".paint .un { text-decoration: underline; }"));
}

#[test]
fn selection_keeps_lines_three_to_five() {
    let lines: Vec<Vec<Span>> = (1..=10).map(|i| vec![span(plain_style(), &format!("line{}", i))]).collect();
    let mut c = config();
    c.numbers = true;
    c.selection = Some((3, 5));
    let (html, _) = highlight(&lines, &light_theme(Vec::new()), &c, &tones()).unwrap();
    assert_eq!(html.matches("<tr>").count(), 3);
    let rows: String = (3..=5)
        .map(|i| format!("<tr><td class='ln' data-ln='{}'></td><td>line{}</td></tr>\n", i, i))
        .collect();
    assert!(html.contains(&rows));
    assert!(!html.contains("line2<"));
    assert!(!html.contains("line6<"));
}

#[test]
fn empty_line_keeps_its_row() {
    let lines = vec![Vec::new()];
    let (html, _) = highlight(&lines, &light_theme(Vec::new()), &config(), &tones()).unwrap();
    assert!(html.contains("<tr><td>&#10;</td></tr>"));
}

#[test]
fn class_table_is_minimal_and_consistent() {
    let red = rgb(255, 0, 0);
    let blue = rgb(0, 0, 255);
    let scopes = vec![
        ScopeStyle { foreground: Some(red), background: None },
        ScopeStyle { foreground: Some(red), background: Some(rgb(255, 255, 255)) },
        ScopeStyle { foreground: Some(rgb(0, 0, 0)), background: Some(blue) },
    ];
    let mut st = plain_style();
    st.foreground = red;
    st.bold = true;
    let lines = vec![vec![span(st, "x"), span(st, "y"), span(plain_style(), "<")]];
    let (html, css) = highlight(&lines, &light_theme(scopes), &config(), &tones()).unwrap();
    assert!(css.contains(".paint .pt1 { background: #0000ff; }"));
    assert!(css.contains(".paint .pt2 { color: #ff0000; }"));
    assert!(!css.contains(".pt3"));
    assert!(html.contains("<tr><td><span class='pt2 bo'>xy</span>&lt;</td></tr>"));
}

#[test]
fn inline_mode_uses_declarations() {
    let red = rgb(255, 0, 0);
    let scopes = vec![ScopeStyle { foreground: Some(red), background: None }];
    let mut st = plain_style();
    st.foreground = red;
    st.italic = true;
    let mut c = config();
    c.inline = true;
    let lines = vec![vec![span(st, "q")]];
    let (html, _) = highlight(&lines, &light_theme(scopes), &c, &tones()).unwrap();
    assert!(html.starts_with("<div style='display: block;"));
    assert!(html.contains("<span style='color: #ff0000; font-style: italic;'>q</span>"));
    assert!(html.contains("<td style='padding: 0 13px; white-space: pre;'>"));
}

#[test]
fn render_is_deterministic() {
    let red = rgb(255, 0, 0);
    let scopes = vec![ScopeStyle { foreground: Some(red), background: Some(rgb(1, 2, 3)) }];
    let mut st = plain_style();
    st.foreground = red;
    let lines = vec![vec![span(st, "a"), span(plain_style(), "b")], vec![span(plain_style(), "c")]];
    let mut c = config();
    c.border = true;
    c.header = true;
    let t = light_theme(scopes);
    assert_eq!(highlight(&lines, &t, &c, &tones()), highlight(&lines, &t, &c, &tones()));
}

#[test]
fn light_theme_needs_selection() {
    let mut t = light_theme(Vec::new());
    t.selection = None;
    let lines = vec![vec![span(plain_style(), "a")]];
    assert_eq!(highlight(&lines, &t, &config(), &tones()), Err(PaintError::MissingSelection));
    assert_eq!(stylesheet(&t, &config(), &tones()), Err(PaintError::MissingSelection));
}

#[test]
fn unknown_style_is_refused() {
    let mut st = plain_style();
    st.foreground = rgb(9, 9, 9);
    let lines = vec![vec![span(st, "a")]];
    assert_eq!(highlight(&lines, &light_theme(Vec::new()), &config(), &tones()), Err(PaintError::UnknownStyle));
}

#[test]
fn github_light_has_fixed_palette() {
    let mut t = light_theme(Vec::new());
    t.name = String::from("GitHub Light");
    t.selection = None;
    let css = stylesheet(&t, &config(), &tones()).unwrap();
    assert!(css.contains("background-color: #fffbdd;"));
    assert!(css.contains("border: 1px solid #dddddd;"));
}

#[test]
fn dark_theme_uses_shifted_shades() {
    let t = Theme {
        name: String::from("Night"),
        background: Some(rgb(20, 20, 20)),
        foreground: Some(rgb(200, 200, 200)),
        selection: None,
        scopes: Vec::new(),
    };
    let css = stylesheet(&t, &config(), &tones()).unwrap();
    assert!(css.contains("background-color: #323232;"));
    assert!(css.contains("border: 1px solid #505050;"));
    assert!(css.contains("background: #3c3c3c;"));
    assert!(css.contains("color: rgba(200, 200, 200, 0.25);"));
}

#[test]
fn border_with_title_fields() {
    let mut c = config();
    c.border = true;
    c.header = true;
    c.title = Some(String::from("Left|Right|More"));
    let out = add_border("<table></table>", &c);
    assert!(out.starts_with("<div class='paint-bordered'>\n        <div class=\"info header\">"));
    assert!(out.contains("<span class=\"left\">Left</span>"));
    assert!(out.contains("<span class=\"right\">Right</span>"));
    assert!(out.ends_with("<table></table></div>"));
}

#[test]
fn border_footer_counts_lines() {
    let mut c = config();
    c.footer = true;
    let out = add_border("<tr>a</tr><tr>b</tr>", &c);
    assert!(out.contains("<div class=\"info footer\">"));
    assert!(out.contains("<span class=\"left\">file.rs</span>"));
    assert!(out.contains("<span class=\"right\">2 lines</span>"));
    assert!(out.starts_with("<div class='paint-bordered'><tr>a</tr>"));
    assert_eq!(count_rows("<tr><tr>x<tr"), 2);
}

#[test]
fn border_without_info_bar() {
    let c = config();
    assert_eq!(add_border("X", &c), "<div class='paint-bordered'>X</div>");
}

#[test]
fn embed_script_writes_two_strings() {
    let out = embed_script("<p>it's</p>", ".a {\n    b: c;\n}");
    assert_eq!(out, "document.write('<style scoped>.a {    b: c;}</style>');\ndocument.write('<p>it\\'s</p>');");
}

#[test]
fn fullpage_dims_dark_themes() {
    let mut t = light_theme(Vec::new());
    let page = fullpage("<p></p>", ".x {}", &t);
    assert!(page.starts_with("<html>\n<head>"));
    assert!(page.contains("background-color: #ffffff;"));
    assert!(!page.contains("brightness"));
    t.background = Some(rgb(10, 10, 10));
    let page = fullpage("<p></p>", ".x {}", &t);
    assert!(page.contains("filter: brightness(90%)"));
}

#[test]
fn blocks_are_found_and_spliced() {
    let doc = "head <pre data-paint=\"rs\" data-header>fn main() {}</pre> mid <pre data-paint=\"py\">x</pre> tail";
    let blocks = find_blocks(doc);
    assert_eq!(blocks.len(), 2);
    assert_eq!(block_part(doc, blocks[0].lang_start, blocks[0].lang_end), "rs");
    assert_eq!(block_part(doc, blocks[0].inner_start, blocks[0].inner_end), "fn main() {}");
    assert_eq!(block_part(doc, blocks[1].lang_start, blocks[1].lang_end), "py");
    assert_eq!(block_part(doc, blocks[1].start, blocks[1].end), "<pre data-paint=\"py\">x</pre>");
    let out = splice(doc, &blocks, &vec![String::from("A"), String::from("B")]);
    assert_eq!(out, "head A mid B tail");
}

#[test]
fn block_without_language_is_left() {
    let doc = "<pre>x</pre><pre data-paint=\"\">y</pre>";
    assert!(find_blocks(doc).is_empty());
}

#[test]
fn block_overrides_add_to_config() {
    let outer = "<pre data-paint=\"rs\" data-gist-like data-title=\"A|B\" data-highlight=\"1,3-4\" data-css-prefix=\"zz\" data-theme=\"Night\">";
    let c = modify_config(config(), outer).unwrap();
    assert!(c.header && c.border && c.numbers);
    assert!(!c.footer && !c.inline);
    assert_eq!(c.title, Some(String::from("A|B")));
    assert_eq!(c.css_prefix, "zz");
    let mut h = c.highlighted.clone();
    h.sort();
    assert_eq!(h, vec![1, 3, 4]);
    assert_eq!(block_theme(outer), Some(String::from("Night")));
    assert!(wants_css(outer));
    assert!(!wants_css("<pre data-paint=\"rs\" data-html-only>"));
    assert_eq!(modify_config(config(), "<pre data-highlight=\"z\">").err(), Some(PaintError::BadLineRange));
    let plain = modify_config(config(), "<pre data-paint=\"rs\">").unwrap();
    assert!(!plain.header && plain.title.is_none() && plain.css_prefix == "paint");
}

#[test]
fn language_aliases() {
    assert_eq!(syntax_alias("JS"), "JavaScript (Babel)");
    assert_eq!(syntax_alias("jsx"), "JavaScript (Babel)");
    assert_eq!(syntax_alias("Rs"), "Rust Enhanced");
    assert_eq!(syntax_alias("py"), "py");
}
