use vstd::prelude::*;
use vstd::string::*;

verus! {

/// CSS of the outer container.
pub open spec fn outer_div_text(fg: Seq<char>, bg: Seq<char>) -> Seq<char> {
    "display: block;\n            width: 100%;\n            padding: 10px 0;\n            overflow-x: auto;\n            -webkit-overflow-scrolling: touch;\n            color: "@ + fg + ";\n            background-color: "@ + bg + ";"@
}

/// CSS of the outer container.
pub fn outer_div_fill(fg: &str, bg: &str) -> (r: String)
    ensures
        r@ == outer_div_text(fg@, bg@),
{
    let mut s = String::new();
    s.append("display: block;\n            width: 100%;\n            padding: 10px 0;\n            overflow-x: auto;\n            -webkit-overflow-scrolling: touch;\n            color: ");
    s.append(fg);
    s.append(";\n            background-color: ");
    s.append(bg);
    s.append(";");
    assert(s@ =~= outer_div_text(fg@, bg@));
    s
}

/// CSS of the table.
pub open spec fn table_text() -> Seq<char> {
    "width: 100%;\n            border-spacing: 0;\n            border-collapse: separate;\n            font-family: SFMono-Regular, Consolas, \"Liberation Mono\", Menlo, monospace;\n            font-size: 12px;\n            line-height: 20px;\n            tab-size: 4;\n            color: inherit;\n            -webkit-text-size-adjust: 100%;\n            -moz-text-size-adjust: 100%;\n            -ms-text-size-adjust: 100%;\n            text-rendering: optimizeLegibility;\n        "@
}

/// CSS of the table.
pub fn table_fill() -> (r: String)
    ensures
        r@ == table_text(),
{
    let mut s = String::new();
    s.append("width: 100%;\n            border-spacing: 0;\n            border-collapse: separate;\n            font-family: SFMono-Regular, Consolas, \"Liberation Mono\", Menlo, monospace;\n            font-size: 12px;\n            line-height: 20px;\n            tab-size: 4;\n            color: inherit;\n            -webkit-text-size-adjust: 100%;\n            -moz-text-size-adjust: 100%;\n            -ms-text-size-adjust: 100%;\n            text-rendering: optimizeLegibility;\n        ");
    assert(s@ =~= table_text());
    s
}

/// CSS of the line-number cells.
pub open spec fn line_numbers_text(ln: Seq<char>) -> Seq<char> {
    "width: 1px;\n            min-width: 25px;\n            box-sizing: content-box;\n            text-align: right;\n            -webkit-user-select: none;\n            -moz-user-select: none;\n            -ms-user-select: none;\n            user-select: none;\n            color: "@ + ln + "; "@
}

/// CSS of the line-number cells.
pub fn line_numbers_fill(ln: &str) -> (r: String)
    ensures
        r@ == line_numbers_text(ln@),
{
    let mut s = String::new();
    s.append("width: 1px;\n            min-width: 25px;\n            box-sizing: content-box;\n            text-align: right;\n            -webkit-user-select: none;\n            -moz-user-select: none;\n            -ms-user-select: none;\n            user-select: none;\n            color: ");
    s.append(ln);
    s.append("; ");
    assert(s@ =~= line_numbers_text(ln@));
    s
}

/// Rules of the container, table, cells, line numbers, highlighted rows and font styles.
pub open spec fn base_text(prefix: Seq<char>, div: Seq<char>, table: Seq<char>, td: Seq<char>, ln: Seq<char>, hi: Seq<char>) -> Seq<char> {
    "\n            ."@ + prefix + " {\n                "@ + div + "\n            }\n            ."@ + prefix + " table {\n                "@ + table + "\n            }\n            ."@ + prefix + " td {\n                "@ + td + "\n            }\n            ."@ + prefix + " .ln {\n                "@ + ln + "\n            }\n            ."@ + prefix + " .ln::after {\n                content: attr(data-ln);\n            }\n            ."@ + prefix + " .hi {\n                "@ + hi + "\n            }\n            ."@ + prefix + " .un { text-decoration: underline; }\n            ."@ + prefix + " .bo { font-weight: bold; }\n            ."@ + prefix + " .it { font-style: italic; }\n        "@
}

/// Rules of the container, table, cells, line numbers, highlighted rows and font styles.
pub fn base_fill(prefix: &str, div: &str, table: &str, td: &str, ln: &str, hi: &str) -> (r: String)
    ensures
        r@ == base_text(prefix@, div@, table@, td@, ln@, hi@),
{
    let mut s = String::new();
    s.append("\n            .");
    s.append(prefix);
    s.append(" {\n                ");
    s.append(div);
    s.append("\n            }\n            .");
    s.append(prefix);
    s.append(" table {\n                ");
    s.append(table);
    s.append("\n            }\n            .");
    s.append(prefix);
    s.append(" td {\n                ");
    s.append(td);
    s.append("\n            }\n            .");
    s.append(prefix);
    s.append(" .ln {\n                ");
    s.append(ln);
    s.append("\n            }\n            .");
    s.append(prefix);
    s.append(" .ln::after {\n                content: attr(data-ln);\n            }\n            .");
    s.append(prefix);
    s.append(" .hi {\n                ");
    s.append(hi);
    s.append("\n            }\n            .");
    s.append(prefix);
    s.append(" .un { text-decoration: underline; }\n            .");
    s.append(prefix);
    s.append(" .bo { font-weight: bold; }\n            .");
    s.append(prefix);
    s.append(" .it { font-style: italic; }\n        ");
    assert(s@ =~= base_text(prefix@, div@, table@, td@, ln@, hi@));
    s
}

/// The rule of one table class.
pub open spec fn class_rule_text(prefix: Seq<char>, class: Seq<char>, decl: Seq<char>) -> Seq<char> {
    "."@ + prefix + " ."@ + class + " { "@ + decl + " }\n"@
}

/// The rule of one table class.
pub fn class_rule_fill(prefix: &str, class: &str, decl: &str) -> (r: String)
    ensures
        r@ == class_rule_text(prefix@, class@, decl@),
{
    let mut s = String::new();
    s.append(".");
    s.append(prefix);
    s.append(" .");
    s.append(class);
    s.append(" { ");
    s.append(decl);
    s.append(" }\n");
    assert(s@ =~= class_rule_text(prefix@, class@, decl@));
    s
}

/// Rules of the bordered box and its info bar, followed by the rest.
pub open spec fn bordered_text(prefix: Seq<char>, border: Seq<char>, color: Seq<char>, background: Seq<char>, divider: Seq<char>, rest: Seq<char>) -> Seq<char> {
    "."@ + prefix + "-bordered {\n                border: 1px solid "@ + border + ";\n                border-radius: 2px;\n            }\n            ."@ + prefix + "-bordered .info {\n                display: flex;\n                justify-content: space-between;\n                color: "@ + color + ";\n                background: "@ + background + ";\n                margin: 0;\n                padding: 10px 15px 10px;\n                font-size: 12px;\n                font-family: SFMono-Regular, Consolas, \"Liberation Mono\", Menlo, monospace;\n                line-height: 1.2;\n            }\n            ."@ + prefix + "-bordered .info.header {\n                border-bottom: 1px solid "@ + border + ";\n            }\n            ."@ + prefix + "-bordered .info.footer {\n                border-top: 1px solid "@ + border + ";\n            }\n            ."@ + prefix + "-bordered .info .left {\n                font-weight: 500;\n                font-family: -apple-system, BlinkMacSystemFont, \"Segoe UI\", Roboto, Helvetica, Arial, sans-serif;\n            }\n            ."@ + prefix + "-bordered .info .right span:not(:last-child) {\n                padding-right: 10px;\n                margin-right: 10px;\n                border-right: 1px solid "@ + divider + ";\n            }\n            "@ + rest
}

/// Rules of the bordered box and its info bar, followed by the rest.
pub fn bordered_fill(prefix: &str, border: &str, color: &str, background: &str, divider: &str, rest: &str) -> (r: String)
    ensures
        r@ == bordered_text(prefix@, border@, color@, background@, divider@, rest@),
{
    let mut s = String::new();
    s.append(".");
    s.append(prefix);
    s.append("-bordered {\n                border: 1px solid ");
    s.append(border);
    s.append(";\n                border-radius: 2px;\n            }\n            .");
    s.append(prefix);
    s.append("-bordered .info {\n                display: flex;\n                justify-content: space-between;\n                color: ");
    s.append(color);
    s.append(";\n                background: ");
    s.append(background);
    s.append(";\n                margin: 0;\n                padding: 10px 15px 10px;\n                font-size: 12px;\n                font-family: SFMono-Regular, Consolas, \"Liberation Mono\", Menlo, monospace;\n                line-height: 1.2;\n            }\n            .");
    s.append(prefix);
    s.append("-bordered .info.header {\n                border-bottom: 1px solid ");
    s.append(border);
    s.append(";\n            }\n            .");
    s.append(prefix);
    s.append("-bordered .info.footer {\n                border-top: 1px solid ");
    s.append(border);
    s.append(";\n            }\n            .");
    s.append(prefix);
    s.append("-bordered .info .left {\n                font-weight: 500;\n                font-family: -apple-system, BlinkMacSystemFont, \"Segoe UI\", Roboto, Helvetica, Arial, sans-serif;\n            }\n            .");
    s.append(prefix);
    s.append("-bordered .info .right span:not(:last-child) {\n                padding-right: 10px;\n                margin-right: 10px;\n                border-right: 1px solid ");
    s.append(divider);
    s.append(";\n            }\n            ");
    s.append(rest);
    assert(s@ =~= bordered_text(prefix@, border@, color@, background@, divider@, rest@));
    s
}

/// A standalone page around the HTML and CSS.
pub open spec fn page_text(background: Seq<char>, filter: Seq<char>, css: Seq<char>, html: Seq<char>) -> Seq<char> {
    "<html>\n        <head>\n            <meta name='viewport' content='width=device-width, initial-scale=1'>\n            <style>\n                html, body {\n                    margin: 0;\n                    padding: 0;\n                }\n                div.bg {\n                    position: fixed;\n                    top: 0;\n                    bottom: -100px;\n                    width: 100%;\n                    z-index: -1;\n                    background-color: "@ + background + ";\n                    "@ + filter + "\n                }\n                .container {\n                    max-width: 850px;\n                    margin: 25px auto;\n                    padding: 0 25px;\n                }\n                "@ + css + "\n            </style>\n        </head>\n        <body>\n            <div class='bg'></div>\n            <div class='container'>\n                "@ + html + "\n            </div>\n        </body>\n        </html>\n    "@
}

/// A standalone page around the HTML and CSS.
pub fn page_fill(background: &str, filter: &str, css: &str, html: &str) -> (r: String)
    ensures
        r@ == page_text(background@, filter@, css@, html@),
{
    let mut s = String::new();
    s.append("<html>\n        <head>\n            <meta name='viewport' content='width=device-width, initial-scale=1'>\n            <style>\n                html, body {\n                    margin: 0;\n                    padding: 0;\n                }\n                div.bg {\n                    position: fixed;\n                    top: 0;\n                    bottom: -100px;\n                    width: 100%;\n                    z-index: -1;\n                    background-color: ");
    s.append(background);
    s.append(";\n                    ");
    s.append(filter);
    s.append("\n                }\n                .container {\n                    max-width: 850px;\n                    margin: 25px auto;\n                    padding: 0 25px;\n                }\n                ");
    s.append(css);
    s.append("\n            </style>\n        </head>\n        <body>\n            <div class='bg'></div>\n            <div class='container'>\n                ");
    s.append(html);
    s.append("\n            </div>\n        </body>\n        </html>\n    ");
    assert(s@ =~= page_text(background@, filter@, css@, html@));
    s
}

/// The info bar of a bordered box.
pub open spec fn info_text(class: Seq<char>, left: Seq<char>, right: Seq<char>) -> Seq<char> {
    "\n        <div class=\"info "@ + class + "\">\n            <span class=\"left\">"@ + left + "</span>\n            <span class=\"right\">"@ + right + "</span>\n        </div>\n    "@
}

/// The info bar of a bordered box.
pub fn info_fill(class: &str, left: &str, right: &str) -> (r: String)
    ensures
        r@ == info_text(class@, left@, right@),
{
    let mut s = String::new();
    s.append("\n        <div class=\"info ");
    s.append(class);
    s.append("\">\n            <span class=\"left\">");
    s.append(left);
    s.append("</span>\n            <span class=\"right\">");
    s.append(right);
    s.append("</span>\n        </div>\n    ");
    assert(s@ =~= info_text(class@, left@, right@));
    s
}

/// Two script writes: a scoped style element, then the HTML.
pub open spec fn script_text(css: Seq<char>, html: Seq<char>) -> Seq<char> {
    "document.write('<style scoped>"@ + css + "</style>');\ndocument.write('"@ + html + "');"@
}

/// Two script writes: a scoped style element, then the HTML.
pub fn script_fill(css: &str, html: &str) -> (r: String)
    ensures
        r@ == script_text(css@, html@),
{
    let mut s = String::new();
    s.append("document.write('<style scoped>");
    s.append(css);
    s.append("</style>');\ndocument.write('");
    s.append(html);
    s.append("');");
    assert(s@ =~= script_text(css@, html@));
    s
}

/// Start of an inline-styled container and table.
pub open spec fn inline_head_text(div: Seq<char>, table: Seq<char>) -> Seq<char> {
    "<div style='"@ + div + "'>\n<table style='"@ + table + "'>\n"@
}

/// Start of an inline-styled container and table.
pub fn inline_head_fill(div: &str, table: &str) -> (r: String)
    ensures
        r@ == inline_head_text(div@, table@),
{
    let mut s = String::new();
    s.append("<div style='");
    s.append(div);
    s.append("'>\n<table style='");
    s.append(table);
    s.append("'>\n");
    assert(s@ =~= inline_head_text(div@, table@));
    s
}

/// Start of a class-styled container and table.
pub open spec fn class_head_text(prefix: Seq<char>) -> Seq<char> {
    "<div class='"@ + prefix + "'>\n<table>\n"@
}

/// Start of a class-styled container and table.
pub fn class_head_fill(prefix: &str) -> (r: String)
    ensures
        r@ == class_head_text(prefix@),
{
    let mut s = String::new();
    s.append("<div class='");
    s.append(prefix);
    s.append("'>\n<table>\n");
    assert(s@ =~= class_head_text(prefix@));
    s
}

/// A bordered box around some HTML.
pub open spec fn boxed_text(prefix: Seq<char>, body: Seq<char>) -> Seq<char> {
    "<div class='"@ + prefix + "-bordered'>"@ + body + "</div>"@
}

/// A bordered box around some HTML.
pub fn boxed_fill(prefix: &str, body: &str) -> (r: String)
    ensures
        r@ == boxed_text(prefix@, body@),
{
    let mut s = String::new();
    s.append("<div class='");
    s.append(prefix);
    s.append("-bordered'>");
    s.append(body);
    s.append("</div>");
    assert(s@ =~= boxed_text(prefix@, body@));
    s
}

/// An inline-styled line-number cell.
pub open spec fn ln_cell_inline_text(ln: Seq<char>, td: Seq<char>, num: Seq<char>) -> Seq<char> {
    "<td style='"@ + ln + td + "'>"@ + num + "</td>"@
}

/// An inline-styled line-number cell.
pub fn ln_cell_inline_fill(ln: &str, td: &str, num: &str) -> (r: String)
    ensures
        r@ == ln_cell_inline_text(ln@, td@, num@),
{
    let mut s = String::new();
    s.append("<td style='");
    s.append(ln);
    s.append(td);
    s.append("'>");
    s.append(num);
    s.append("</td>");
    assert(s@ =~= ln_cell_inline_text(ln@, td@, num@));
    s
}

/// A line-number cell whose number the stylesheet shows.
pub open spec fn ln_cell_class_text(num: Seq<char>) -> Seq<char> {
    "<td class='ln' data-ln='"@ + num + "'></td>"@
}

/// A line-number cell whose number the stylesheet shows.
pub fn ln_cell_class_fill(num: &str) -> (r: String)
    ensures
        r@ == ln_cell_class_text(num@),
{
    let mut s = String::new();
    s.append("<td class='ln' data-ln='");
    s.append(num);
    s.append("'></td>");
    assert(s@ =~= ln_cell_class_text(num@));
    s
}

/// An inline-styled cell.
pub open spec fn styled_cell_text(style: Seq<char>, html: Seq<char>) -> Seq<char> {
    "<td style='"@ + style + "'>"@ + html + "</td>"@
}

/// An inline-styled cell.
pub fn styled_cell_fill(style: &str, html: &str) -> (r: String)
    ensures
        r@ == styled_cell_text(style@, html@),
{
    let mut s = String::new();
    s.append("<td style='");
    s.append(style);
    s.append("'>");
    s.append(html);
    s.append("</td>");
    assert(s@ =~= styled_cell_text(style@, html@));
    s
}

/// A highlighted cell.
pub open spec fn hi_cell_text(html: Seq<char>) -> Seq<char> {
    "<td class='hi'>"@ + html + "</td>"@
}

/// A highlighted cell.
pub fn hi_cell_fill(html: &str) -> (r: String)
    ensures
        r@ == hi_cell_text(html@),
{
    let mut s = String::new();
    s.append("<td class='hi'>");
    s.append(html);
    s.append("</td>");
    assert(s@ =~= hi_cell_text(html@));
    s
}

/// A plain cell.
pub open spec fn cell_text(html: Seq<char>) -> Seq<char> {
    "<td>"@ + html + "</td>"@
}

/// A plain cell.
pub fn cell_fill(html: &str) -> (r: String)
    ensures
        r@ == cell_text(html@),
{
    let mut s = String::new();
    s.append("<td>");
    s.append(html);
    s.append("</td>");
    assert(s@ =~= cell_text(html@));
    s
}

/// An opening span with inline declarations.
pub open spec fn span_style_text(decls: Seq<char>) -> Seq<char> {
    "<span style='"@ + decls + "'>"@
}

/// An opening span with inline declarations.
pub fn span_style_fill(decls: &str) -> (r: String)
    ensures
        r@ == span_style_text(decls@),
{
    let mut s = String::new();
    s.append("<span style='");
    s.append(decls);
    s.append("'>");
    assert(s@ =~= span_style_text(decls@));
    s
}

/// An opening span with classes.
pub open spec fn span_class_text(classes: Seq<char>) -> Seq<char> {
    "<span class='"@ + classes + "'>"@
}

/// An opening span with classes.
pub fn span_class_fill(classes: &str) -> (r: String)
    ensures
        r@ == span_class_text(classes@),
{
    let mut s = String::new();
    s.append("<span class='");
    s.append(classes);
    s.append("'>");
    assert(s@ =~= span_class_text(classes@));
    s
}

/// A scoped style element followed by HTML.
pub open spec fn scoped_text(css: Seq<char>, html: Seq<char>) -> Seq<char> {
    "<style scoped>"@ + css + "</style>\n"@ + html
}

/// A scoped style element followed by HTML.
pub fn scoped_fill(css: &str, html: &str) -> (r: String)
    ensures
        r@ == scoped_text(css@, html@),
{
    let mut s = String::new();
    s.append("<style scoped>");
    s.append(css);
    s.append("</style>\n");
    s.append(html);
    assert(s@ =~= scoped_text(css@, html@));
    s
}

} // verus!
