//! Renders style-annotated lines of text into an HTML table and a matching
//! stylesheet, with line numbers, highlighted rows, a line selection and an
//! optional bordered box; and rewrites the embedded code blocks of a document.
//!
//! - `text`: HTML and script-string escaping, indentation collapsing, decimals.
//! - `color`: colors, their CSS form, lightness and alpha scaling.
//! - `theme`: themes and the deduplicated, sorted table of style declarations.
//! - `css`: palette derivation and the CSS generator.
//! - `templates`: the fixed CSS and HTML templates.
//! - `render`: lines, rows, the document, its border, scripts and pages.
//! - `config`: rendering options and line-range parsing.
//! - `blocks`: finding code blocks, reading their attributes, splicing results.
use vstd::prelude::*;

pub mod blocks;
pub mod color;
pub mod config;
pub mod css;
pub mod render;
pub mod templates;
pub mod text;
pub mod theme;

verus! {

} // verus!
