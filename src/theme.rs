use vstd::prelude::*;
use vstd::string::*;
use crate::color::{Color, css, css_spec};
use crate::text::{string_of, chars_of, dec_spec, dec_string};

verus! {

/// The colors that one scope rule of a theme sets.
#[derive(Clone, Copy, Debug, PartialEq, Eq, Structural)]
pub struct ScopeStyle {
    pub foreground: Option<Color>,
    pub background: Option<Color>,
}

/// A color theme: base colors and the ordered scope rules.
#[derive(Clone, Debug)]
pub struct Theme {
    pub name: String,
    pub background: Option<Color>,
    pub foreground: Option<Color>,
    pub selection: Option<Color>,
    pub scopes: Vec<ScopeStyle>,
}

pub open spec fn white() -> Color {
    Color { r: 255, g: 255, b: 255, a: 255 }
}

pub open spec fn black() -> Color {
    Color { r: 0, g: 0, b: 0, a: 255 }
}

/// The theme's background, opaque white when it sets none.
pub open spec fn theme_bg(t: Theme) -> Color {
    match t.background {
        Some(c) => c,
        None => white(),
    }
}

/// The theme's foreground, opaque black when it sets none.
pub open spec fn theme_fg(t: Theme) -> Color {
    match t.foreground {
        Some(c) => c,
        None => black(),
    }
}

/// Background of a theme, opaque white by default.
pub fn background_of(t: &Theme) -> (c: Color)
    ensures
        c == theme_bg(*t),
{
    match t.background {
        Some(c) => c,
        None => Color { r: 255, g: 255, b: 255, a: 255 },
    }
}

/// Foreground of a theme, opaque black by default.
pub fn foreground_of(t: &Theme) -> (c: Color)
    ensures
        c == theme_fg(*t),
{
    match t.foreground {
        Some(c) => c,
        None => Color { r: 0, g: 0, b: 0, a: 255 },
    }
}

/// The declaration `color: <css>;`.
pub open spec fn fg_decl(c: Color) -> Seq<char> {
    "color: "@ + css_spec(c) + ";"@
}

/// The declaration `background: <css>;`.
pub open spec fn bg_decl(c: Color) -> Seq<char> {
    "background: "@ + css_spec(c) + ";"@
}

/// Whether scope rule `s` contributes declaration `d` against base colors `fg` and `bg`.
pub open spec fn scope_decl(s: ScopeStyle, fg: Color, bg: Color, d: Seq<char>) -> bool {
    (s.foreground matches Some(c) && c != fg && d == fg_decl(c))
    || (s.background matches Some(c) && c != bg && d == bg_decl(c))
}

/// Whether some scope rule of the theme sets declaration `d`.
pub open spec fn theme_decl(t: Theme, d: Seq<char>) -> bool {
    exists|i: int| 0 <= i < t.scopes@.len() && scope_decl(t.scopes@[i], theme_fg(t), theme_bg(t), d)
}

/// Lexicographic order on character sequences, by code point.
pub open spec fn lex_lt(a: Seq<char>, b: Seq<char>) -> bool
    decreases a.len(),
{
    if b.len() == 0 {
        false
    } else if a.len() == 0 {
        true
    } else if a[0] != b[0] {
        (a[0] as int) < (b[0] as int)
    } else {
        lex_lt(a.skip(1), b.skip(1))
    }
}

pub proof fn lemma_lex_irrefl(a: Seq<char>)
    ensures
        !lex_lt(a, a),
    decreases a.len(),
{
    if a.len() > 0 {
        lemma_lex_irrefl(a.skip(1));
    }
}

pub proof fn lemma_lex_trans(a: Seq<char>, b: Seq<char>, c: Seq<char>)
    requires
        lex_lt(a, b),
        lex_lt(b, c),
    ensures
        lex_lt(a, c),
    decreases a.len(),
{
    if a.len() > 0 && b.len() > 0 && c.len() > 0 && a[0] == b[0] && b[0] == c[0] {
        lemma_lex_trans(a.skip(1), b.skip(1), c.skip(1));
    }
}

pub proof fn lemma_lex_total(a: Seq<char>, b: Seq<char>)
    requires
        a != b,
    ensures
        lex_lt(a, b) || lex_lt(b, a),
    decreases a.len(),
{
    if a.len() == 0 {
        assert(b.len() > 0) by {
            if b.len() == 0 {
                assert(a =~= b);
            }
        }
    } else if b.len() == 0 {
    } else if a[0] == b[0] {
        if a.skip(1) == b.skip(1) {
            assert(a =~= seq![a[0]] + a.skip(1));
            assert(b =~= seq![b[0]] + b.skip(1));
        }
        lemma_lex_total(a.skip(1), b.skip(1));
    }
}

/// The character sequences held by a vector of character vectors.
pub open spec fn chars_table(v: Seq<Vec<char>>) -> Seq<Seq<char>> {
    Seq::new(v.len(), |i: int| v[i]@)
}

/// Every element is lexicographically below every later one.
pub open spec fn strictly_sorted(s: Seq<Seq<char>>) -> bool {
    forall|i: int, j: int| 0 <= i < j < s.len() ==> lex_lt(s[i], s[j])
}

/// The distinct declarations of a theme's scope rules, in lexicographic order;
/// the one at index `i` has class `pt{i + 1}`.
pub struct StyleTable {
    decls: Vec<Vec<char>>,
}

impl View for StyleTable {
    type V = Seq<Seq<char>>;

    closed spec fn view(&self) -> Seq<Seq<char>> {
        chars_table(self.decls@)
    }
}

impl StyleTable {
    pub fn len(&self) -> (n: usize)
        ensures
            n == self@.len(),
    {
        self.decls.len()
    }
}

fn lex_less(a: &Vec<char>, b: &Vec<char>) -> (r: bool)
    ensures
        r == lex_lt(a@, b@),
{
    let mut i: usize = 0;
    assert(a@.skip(0) =~= a@);
    assert(b@.skip(0) =~= b@);
    while i < a.len() && i < b.len()
        invariant
            i <= a.len(),
            i <= b.len(),
            lex_lt(a@, b@) == lex_lt(a@.skip(i as int), b@.skip(i as int)),
        decreases a.len() - i,
    {
        if a[i] != b[i] {
            return a[i] < b[i];
        }
        assert(a@.skip(i as int).skip(1) =~= a@.skip(i + 1));
        assert(b@.skip(i as int).skip(1) =~= b@.skip(i + 1));
        i = i + 1;
    }
    i < b.len()
}

/// Whether two character vectors hold the same characters.
pub fn same_chars(a: &Vec<char>, b: &Vec<char>) -> (r: bool)
    ensures
        r == (a@ == b@),
{
    if a.len() != b.len() {
        return false;
    }
    let mut i: usize = 0;
    while i < a.len()
        invariant
            a.len() == b.len(),
            i <= a.len(),
            forall|j: int| 0 <= j < i ==> a@[j] == b@[j],
        decreases a.len() - i,
    {
        if a[i] != b[i] {
            return false;
        }
        i = i + 1;
    }
    assert(a@ =~= b@);
    true
}

/// Adds `d` to a strictly sorted table unless it is there already.
fn insert_sorted(t: &mut Vec<Vec<char>>, d: Vec<char>)
    requires
        strictly_sorted(chars_table(old(t)@)),
    ensures
        strictly_sorted(chars_table(final(t)@)),
        forall|x: Seq<char>|
            #[trigger] chars_table(final(t)@).contains(x) <==> (chars_table(old(t)@).contains(x) || x == d@),
{
    let ghost v0 = chars_table(t@);
    let mut p: usize = 0;
    while p < t.len() && lex_less(&t[p], &d)
        invariant
            p <= t.len(),
            v0 == chars_table(t@),
            forall|j: int| 0 <= j < p ==> lex_lt(#[trigger] v0[j], d@),
        decreases t.len() - p,
    {
        p = p + 1;
    }
    if p < t.len() && same_chars(&t[p], &d) {
        assert(v0[p as int] == d@);
        return;
    }
    proof {
        if p < t.len() {
            assert(!lex_lt(v0[p as int], d@));
            lemma_lex_total(v0[p as int], d@);
            assert forall|j: int| p <= j < v0.len() implies lex_lt(d@, #[trigger] v0[j]) by {
                if j > p {
                    lemma_lex_trans(d@, v0[p as int], v0[j]);
                }
            }
        }
    }
    let ghost dv = d@;
    t.insert(p, d);
    let ghost v1 = chars_table(t@);
    assert(v1 =~= v0.insert(p as int, dv));
    assert forall|x: Seq<char>| #![auto] v1.contains(x) <==> (v0.contains(x) || x == dv) by {
        if v1.contains(x) {
            let k = choose|k: int| 0 <= k < v1.len() && v1[k] == x;
            if k < p {
                assert(v0[k] == x);
            } else if k > p {
                assert(v0[k - 1] == x);
            }
        }
        if v0.contains(x) {
            let k = choose|k: int| 0 <= k < v0.len() && v0[k] == x;
            if k < p {
                assert(v1[k] == x);
            } else {
                assert(v1[k + 1] == x);
            }
        }
        if x == dv {
            assert(v1[p as int] == x);
        }
    }
    assert forall|i: int, j: int| 0 <= i < j < v1.len() implies lex_lt(v1[i], v1[j]) by {
        if j < p {
        } else if i < p && j == p {
        } else if i < p && j > p {
            assert(v1[j] == v0[j - 1]);
            lemma_lex_trans(v1[i], dv, v0[j - 1]);
        } else if i == p {
            assert(v1[j] == v0[j - 1]);
        } else {
            assert(v1[i] == v0[i - 1]);
            assert(v1[j] == v0[j - 1]);
        }
    }
}

/// The characters of `prefix` followed by the CSS of `c` and a semicolon.
fn decl_chars(prefix: &str, c: &Color) -> (r: Vec<char>)
    ensures
        r@ == prefix@ + css_spec(*c) + ";"@,
{
    let mut s = String::from_str(prefix);
    s.append(css(c).as_str());
    s.append(";");
    chars_of(s.as_str())
}

/// The declaration `color: <css>;` of a color.
pub fn fg_decl_chars(c: &Color) -> (r: Vec<char>)
    ensures
        r@ == fg_decl(*c),
{
    decl_chars("color: ", c)
}

/// The declaration `background: <css>;` of a color.
pub fn bg_decl_chars(c: &Color) -> (r: Vec<char>)
    ensures
        r@ == bg_decl(*c),
{
    decl_chars("background: ", c)
}

/// Collects the declarations of all scope rules that differ from the theme's base
/// colors, without repetition and in lexicographic order.
pub fn make_style_table(theme: &Theme) -> (t: StyleTable)
    ensures
        strictly_sorted(t@),
        forall|d: Seq<char>| #![auto] t@.contains(d) <==> theme_decl(*theme, d),
{
    let fg = foreground_of(theme);
    let bg = background_of(theme);
    let mut decls: Vec<Vec<char>> = Vec::new();
    let mut k: usize = 0;
    while k < theme.scopes.len()
        invariant
            k <= theme.scopes@.len(),
            fg == theme_fg(*theme),
            bg == theme_bg(*theme),
            strictly_sorted(chars_table(decls@)),
            forall|d: Seq<char>| #![auto]
                chars_table(decls@).contains(d) <==> exists|i: int|
                    0 <= i < k && scope_decl(theme.scopes@[i], fg, bg, d),
        decreases theme.scopes@.len() - k,
    {
        let s = theme.scopes[k];
        let ghost before = chars_table(decls@);
        let mut fd: Option<Seq<char>> = None;
        if let Some(c) = s.foreground {
            if c != fg {
                let d = fg_decl_chars(&c);
                insert_sorted(&mut decls, d);
            }
        }
        let ghost mid = chars_table(decls@);
        if let Some(c) = s.background {
            if c != bg {
                let d = bg_decl_chars(&c);
                insert_sorted(&mut decls, d);
            }
        }
        let ghost after = chars_table(decls@);
        assert forall|d: Seq<char>| #![auto]
            after.contains(d) <==> exists|i: int| 0 <= i < k + 1 && scope_decl(theme.scopes@[i], fg, bg, d) by {
            if after.contains(d) {
                if !before.contains(d) {
                    assert(scope_decl(theme.scopes@[k as int], fg, bg, d));
                }
            }
            if exists|i: int| 0 <= i < k + 1 && scope_decl(theme.scopes@[i], fg, bg, d) {
                let i = choose|i: int| 0 <= i < k + 1 && scope_decl(theme.scopes@[i], fg, bg, d);
                if i < k {
                    assert(before.contains(d));
                }
            }
        }
        k = k + 1;
    }
    StyleTable { decls }
}

/// The position of declaration `d` in a table that holds it.
pub open spec fn table_index(t: Seq<Seq<char>>, d: Seq<char>) -> int {
    choose|i: int| 0 <= i < t.len() && t[i] == d
}

/// The class name `pt{i + 1}` of the declaration at index `i`.
pub open spec fn pt_class(i: int) -> Seq<char> {
    "pt"@ + dec_spec((i + 1) as nat)
}

impl StyleTable {
    /// Whether the table is in strict lexicographic order, as built.
    pub open spec fn wf(&self) -> bool {
        strictly_sorted(self@)
    }

    /// The declaration at index `i`.
    pub fn decl_at(&self, i: usize) -> (r: String)
        requires
            i < self@.len(),
        ensures
            r@ == self@[i as int],
    {
        string_of(&self.decls[i])
    }

    /// The class of a declaration, when the table holds it.
    pub fn class_of(&self, d: &Vec<char>) -> (r: Option<String>)
        requires
            self.wf(),
        ensures
            self@.contains(d@) ==> r is Some && r->0@ == pt_class(table_index(self@, d@)),
            !self@.contains(d@) ==> r is None,
    {
        let mut i: usize = 0;
        while i < self.decls.len()
            invariant
                self.wf(),
                i <= self.decls@.len(),
                forall|j: int| 0 <= j < i ==> self@[j] != d@,
            decreases self.decls@.len() - i,
        {
            if same_chars(&self.decls[i], d) {
                proof {
                    assert(self@[i as int] == d@);
                    assert(exists|j: int| 0 <= j < self@.len() && self@[j] == d@);
                    let k = table_index(self@, d@);
                    if k != i {
                        if k < i {
                            assert(lex_lt(self@[k], self@[i as int]));
                        } else {
                            assert(lex_lt(self@[i as int], self@[k]));
                        }
                        lemma_lex_irrefl(d@);
                    }
                }
                let mut name = String::from_str("pt");
                name.append(dec_string(i + 1).as_str());
                return Some(name);
            }
            i = i + 1;
        }
        None
    }
}

/// The table of a theme: its distinct declarations in strict lexicographic order.
pub open spec fn table_spec(t: Theme) -> Seq<Seq<char>> {
    choose|s: Seq<Seq<char>>| strictly_sorted(s) && (forall|d: Seq<char>| #![auto] s.contains(d) <==> theme_decl(t, d))
}

/// Two strictly sorted sequences with the same elements are equal.
pub proof fn lemma_sorted_unique(a: Seq<Seq<char>>, b: Seq<Seq<char>>)
    requires
        strictly_sorted(a),
        strictly_sorted(b),
        forall|d: Seq<char>| #![auto] a.contains(d) <==> b.contains(d),
    ensures
        a == b,
    decreases a.len(),
{
    if a.len() == 0 {
        if b.len() > 0 {
            assert(b.contains(b[0]));
        }
        assert(a =~= b);
    } else {
        assert(a.contains(a[0]));
        assert(b.len() > 0);
        assert(b.contains(b[0]));
        let k = choose|k: int| 0 <= k < b.len() && b[k] == a[0];
        let j = choose|j: int| 0 <= j < a.len() && a[j] == b[0];
        if k > 0 && j > 0 {
            lemma_lex_trans(a[0], a[j], a[0]);
            lemma_lex_irrefl(a[0]);
        } else if k > 0 {
            lemma_lex_irrefl(b[0]);
        }
        assert(a[0] == b[0]);
        let a1 = a.skip(1);
        let b1 = b.skip(1);
        assert forall|d: Seq<char>| #![auto] a1.contains(d) <==> b1.contains(d) by {
            if a1.contains(d) {
                let i = choose|i: int| 0 <= i < a1.len() && a1[i] == d;
                assert(a[i + 1] == d);
                assert(lex_lt(a[0], d));
                lemma_lex_irrefl(d);
                assert(b.contains(d));
                let m = choose|m: int| 0 <= m < b.len() && b[m] == d;
                assert(m != 0);
                assert(b1[m - 1] == d);
            }
            if b1.contains(d) {
                let i = choose|i: int| 0 <= i < b1.len() && b1[i] == d;
                assert(b[i + 1] == d);
                assert(lex_lt(b[0], d));
                lemma_lex_irrefl(d);
                assert(a.contains(d));
                let m = choose|m: int| 0 <= m < a.len() && a[m] == d;
                assert(m != 0);
                assert(a1[m - 1] == d);
            }
        }
        lemma_sorted_unique(a1, b1);
        assert(a =~= seq![a[0]] + a1);
        assert(b =~= seq![b[0]] + b1);
    }
}

/// The table that `make_style_table` builds is the theme's table.
pub proof fn lemma_table_is_spec(t: Theme, s: Seq<Seq<char>>)
    requires
        strictly_sorted(s),
        forall|d: Seq<char>| #![auto] s.contains(d) <==> theme_decl(t, d),
    ensures
        s == table_spec(t),
{
    let c = table_spec(t);
    lemma_sorted_unique(s, c);
}

/// A table as built holds each declaration of the theme's scope rules exactly once:
/// no repetition, and as many entries as distinct declarations.
pub proof fn lemma_table_minimal(t: Theme, s: Seq<Seq<char>>)
    requires
        strictly_sorted(s),
        forall|d: Seq<char>| #![auto] s.contains(d) <==> theme_decl(t, d),
    ensures
        s.no_duplicates(),
        s.to_set() == Set::new(|d: Seq<char>| theme_decl(t, d)),
        s.len() == Set::new(|d: Seq<char>| theme_decl(t, d)).len(),
{
    assert forall|i: int, j: int| 0 <= i < s.len() && 0 <= j < s.len() && i != j implies s[i] != s[j] by {
        lemma_lex_irrefl(s[i]);
    }
    assert(s.to_set() =~= Set::new(|d: Seq<char>| theme_decl(t, d)));
    s.unique_seq_to_set();
}

} // verus!
