//! Theme files and their resolution into concrete colours.
//!
//! A theme maps token names to values; a value is a colour text (`#hex`,
//! `rgb()/rgba()`, `transparent`/`none`), an ANSI palette number, a
//! dark/light pair, or the name of a definition or of another token.
//! Resolution follows references and reports cycles.
use vstd::prelude::*;
use crate::color::{
    ansi_color, ansi_to_rgba, color_result, css_color, hex_color, parse_css_rgba, parse_hex, transparent, Color,
    ColorView, ResolveError,
};
use crate::keyed::{find_key, has_key, is_first, keys_of, lemma_lookup_first, lookup};
use crate::text::{contains_text_in, views};
use crate::config::first_error;
use crate::flatten::opt_text;

verus! {

/// Whether a theme is drawn for a dark or a light background.
#[derive(Debug, Clone, Copy, PartialEq, Eq, Hash, Structural)]
pub enum ThemeMode {
    Dark,
    Light,
}

/// A number in a theme file, as the values it is read as: the palette
/// index it converts to (`as u8`, saturating) and its decimal text.
#[derive(Debug)]
pub struct NumberValue {
    pub ansi: u8,
    pub text: String,
}

/// A token's value.
#[derive(Debug)]
pub enum ThemeValue {
    String(String),
    Number(NumberValue),
    Variant { dark: String, light: String },
}

/// A definition's value.
#[derive(Debug)]
pub enum ThemeDefValue {
    String(String),
    Number(NumberValue),
}

/// A theme file: optional definitions and the tokens.
#[derive(Debug)]
pub struct ThemeJson {
    pub schema: Option<String>,
    pub defs: Option<Vec<(String, ThemeDefValue)>>,
    pub theme: Vec<(String, ThemeValue)>,
}

/// The text a definition stands for.
pub open spec fn def_text(d: ThemeDefValue) -> Seq<char> {
    match d {
        ThemeDefValue::String(s) => s@,
        ThemeDefValue::Number(n) => n.text@,
    }
}

/// The text a token value stands for (the dark side of a pair).
pub open spec fn value_text(v: ThemeValue) -> Seq<char> {
    match v {
        ThemeValue::String(s) => s@,
        ThemeValue::Number(n) => n.text@,
        ThemeValue::Variant { dark, .. } => dark@,
    }
}

impl ThemeDefValue {
    /// The definition as text.
    pub fn as_string(&self) -> (r: String)
        ensures
            r@ == def_text(*self),
    {
        match self {
            ThemeDefValue::String(s) => s.clone(),
            ThemeDefValue::Number(n) => n.text.clone(),
        }
    }
}

impl ThemeValue {
    /// The value as text; a dark/light pair gives its dark side.
    pub fn as_string(&self) -> (r: String)
        ensures
            r@ == value_text(*self),
    {
        match self {
            ThemeValue::String(s) => s.clone(),
            ThemeValue::Number(n) => n.text.clone(),
            ThemeValue::Variant { dark, .. } => dark.clone(),
        }
    }
}

/// `s` starts with `p`.
pub open spec fn starts_with(s: Seq<char>, p: Seq<char>) -> bool {
    p.len() <= s.len() && s.take(p.len() as int) == p
}

/// `xs` joined with `sep` between consecutive items.
pub open spec fn join_with(xs: Seq<Seq<char>>, sep: Seq<char>) -> Seq<char>
    decreases xs.len(),
{
    if xs.len() == 0 {
        seq![]
    } else if xs.len() == 1 {
        xs[0]
    } else {
        join_with(xs.drop_last(), sep) + sep + xs.last()
    }
}

pub open spec fn circular_msg(chain: Seq<Seq<char>>, s: Seq<char>) -> Seq<char> {
    "Circular reference detected: "@ + join_with(chain, " -> "@) + " -> "@ + s
}

pub open spec fn missing_msg(s: Seq<char>) -> Seq<char> {
    "Missing reference: "@ + s
}

/// The names defined by the definitions and the tokens.
pub open spec fn all_names(defs: Seq<(String, ThemeDefValue)>, theme: Seq<(String, ThemeValue)>) -> Set<Seq<char>> {
    keys_of(defs).to_set().union(keys_of(theme).to_set())
}

/// How many names are not yet on the reference chain.
pub open spec fn unresolved(defs: Seq<(String, ThemeDefValue)>, theme: Seq<(String, ThemeValue)>, chain: Seq<Seq<char>>) -> nat {
    all_names(defs, theme).difference(chain.to_set()).len()
}

/// Following a name that is defined and not yet on the chain leaves fewer
/// names unresolved.
pub proof fn lemma_unresolved_decreases(
    defs: Seq<(String, ThemeDefValue)>,
    theme: Seq<(String, ThemeValue)>,
    chain: Seq<Seq<char>>,
    s: Seq<char>,
)
    requires
        has_key(defs, s) || has_key(theme, s),
        !chain.contains(s),
    ensures
        unresolved(defs, theme, chain.push(s)) < unresolved(defs, theme, chain),
{
    broadcast use vstd::seq_lib::seq_to_set_is_finite;
    let k = all_names(defs, theme);
    if has_key(defs, s) {
        let i = choose|i: int| 0 <= i < defs.len() && defs[i].0@ == s;
        assert(keys_of(defs)[i] == s);
    } else {
        let i = choose|i: int| 0 <= i < theme.len() && theme[i].0@ == s;
        assert(keys_of(theme)[i] == s);
    }
    assert(k.contains(s));
    let d = k.difference(chain.to_set());
    assert(d.contains(s));
    assert forall|a: Seq<char>| chain.push(s).contains(a) <==> (chain.contains(a) || a == s) by {
        if chain.push(s).contains(a) {
            let j = choose|j: int| 0 <= j < chain.push(s).len() && chain.push(s)[j] == a;
            if j < chain.len() {
                assert(chain[j] == a);
            }
        }
        if chain.contains(a) {
            let j = choose|j: int| 0 <= j < chain.len() && chain[j] == a;
            assert(chain.push(s)[j] == a);
        }
        if a == s {
            assert(chain.push(s)[chain.len() as int] == a);
        }
    }
    assert(chain.push(s).to_set() =~= chain.to_set().insert(s));
    assert(k.difference(chain.push(s).to_set()) =~= d.remove(s));
    assert(d.finite());
}

/// The colour a text resolves to, following definitions and tokens by
/// name; `chain` holds the names being resolved.
pub open spec fn resolve_text(
    s: Seq<char>,
    defs: Seq<(String, ThemeDefValue)>,
    theme: Seq<(String, ThemeValue)>,
    mode: ThemeMode,
    chain: Seq<Seq<char>>,
) -> Result<ColorView, Seq<char>>
    decreases unresolved(defs, theme, chain), 0nat,
{
    if s == "transparent"@ || s == "none"@ {
        Ok(transparent())
    } else if starts_with(s, "#"@) {
        hex_color(s)
    } else if starts_with(s, "rgba("@) || starts_with(s, "rgb("@) {
        css_color(s)
    } else if chain.contains(s) {
        Err(circular_msg(chain, s))
    } else if has_key(defs, s) {
        let ds = def_text(lookup(defs, s));
        if starts_with(ds, "#"@) {
            hex_color(ds)
        } else if starts_with(ds, "rgba("@) || starts_with(ds, "rgb("@) {
            css_color(ds)
        } else {
            proof {
                lemma_unresolved_decreases(defs, theme, chain, s);
            }
            resolve_text(ds, defs, theme, mode, chain.push(s))
        }
    } else if has_key(theme, s) {
        proof {
            lemma_unresolved_decreases(defs, theme, chain, s);
        }
        resolve_value(lookup(theme, s), defs, theme, mode, chain.push(s))
    } else {
        Err(missing_msg(s))
    }
}

/// The colour a token value resolves to: a number is an ANSI palette
/// entry, a pair resolves its side for `mode`, a text resolves as a text.
pub open spec fn resolve_value(
    v: ThemeValue,
    defs: Seq<(String, ThemeDefValue)>,
    theme: Seq<(String, ThemeValue)>,
    mode: ThemeMode,
    chain: Seq<Seq<char>>,
) -> Result<ColorView, Seq<char>>
    decreases unresolved(defs, theme, chain), 1nat,
{
    match v {
        ThemeValue::Number(n) => Ok(ansi_color(n.ansi)),
        ThemeValue::Variant { dark, light } => resolve_text(
            match mode {
                ThemeMode::Dark => dark@,
                ThemeMode::Light => light@,
            },
            defs,
            theme,
            mode,
            chain,
        ),
        ThemeValue::String(s) => resolve_text(s@, defs, theme, mode, chain),
    }
}

/// A text that names a theme token (and no definition, and is no colour
/// literal nor already being resolved) resolves in mode `mode` exactly as
/// that token's value does in the same mode, with the name on the chain.
pub proof fn law_reference_keeps_mode(
    s: Seq<char>,
    defs: Seq<(String, ThemeDefValue)>,
    theme: Seq<(String, ThemeValue)>,
    mode: ThemeMode,
    chain: Seq<Seq<char>>,
)
    requires
        s != "transparent"@ && s != "none"@,
        !starts_with(s, "#"@) && !starts_with(s, "rgba("@) && !starts_with(s, "rgb("@),
        !chain.contains(s),
        !has_key(defs, s),
        has_key(theme, s),
    ensures
        resolve_text(s, defs, theme, mode, chain) == resolve_value(lookup(theme, s), defs, theme, mode, chain.push(s)),
{
}

/// A dark/light pair resolves to its light side's colour in light mode
/// and its dark side's in dark mode; a hex side is that colour.
pub proof fn law_pair_takes_mode_side(
    defs: Seq<(String, ThemeDefValue)>,
    theme: Seq<(String, ThemeValue)>,
    chain: Seq<Seq<char>>,
    dark: String,
    light: String,
)
    ensures
        resolve_value(ThemeValue::Variant { dark, light }, defs, theme, ThemeMode::Light, chain) == resolve_text(
            light@,
            defs,
            theme,
            ThemeMode::Light,
            chain,
        ),
        resolve_value(ThemeValue::Variant { dark, light }, defs, theme, ThemeMode::Dark, chain) == resolve_text(
            dark@,
            defs,
            theme,
            ThemeMode::Dark,
            chain,
        ),
        starts_with(light@, "#"@) ==> resolve_value(ThemeValue::Variant { dark, light }, defs, theme, ThemeMode::Light, chain)
            == hex_color(light@),
        starts_with(dark@, "#"@) ==> resolve_value(ThemeValue::Variant { dark, light }, defs, theme, ThemeMode::Dark, chain)
            == hex_color(dark@),
{
    reveal_strlit("#");
    reveal_strlit("transparent");
    reveal_strlit("none");
    if starts_with(light@, "#"@) {
        assert(light@.take(1)[0] == light@[0]);
    }
    if starts_with(dark@, "#"@) {
        assert(dark@.take(1)[0] == dark@[0]);
    }
}

/// A reference to a token holding a dark/light pair resolves to the side
/// of the pair for the mode it is resolved in: the light side in light
/// mode, the dark side in dark mode. When that side is a hex colour, the
/// reference is that colour.
pub proof fn law_reference_to_pair_takes_mode_side(
    s: Seq<char>,
    defs: Seq<(String, ThemeDefValue)>,
    theme: Seq<(String, ThemeValue)>,
    mode: ThemeMode,
    chain: Seq<Seq<char>>,
    dark: String,
    light: String,
)
    requires
        s != "transparent"@ && s != "none"@,
        !starts_with(s, "#"@) && !starts_with(s, "rgba("@) && !starts_with(s, "rgb("@),
        !chain.contains(s),
        !has_key(defs, s),
        has_key(theme, s),
        lookup(theme, s) == (ThemeValue::Variant { dark, light }),
    ensures
        mode == ThemeMode::Light ==> resolve_text(s, defs, theme, mode, chain) == resolve_text(
            light@,
            defs,
            theme,
            mode,
            chain.push(s),
        ),
        mode == ThemeMode::Dark ==> resolve_text(s, defs, theme, mode, chain) == resolve_text(
            dark@,
            defs,
            theme,
            mode,
            chain.push(s),
        ),
        mode == ThemeMode::Light && starts_with(light@, "#"@) ==> resolve_text(s, defs, theme, mode, chain)
            == hex_color(light@),
        mode == ThemeMode::Dark && starts_with(dark@, "#"@) ==> resolve_text(s, defs, theme, mode, chain)
            == hex_color(dark@),
{
    law_reference_keeps_mode(s, defs, theme, mode, chain);
    reveal_strlit("#");
    reveal_strlit("transparent");
    reveal_strlit("none");
    assert(starts_with(light@, "#"@) ==> light@[0] == '#' && light@ != "transparent"@ && light@ != "none"@) by {
        if starts_with(light@, "#"@) {
            assert(light@.take(1)[0] == light@[0]);
        }
    }
    assert(starts_with(dark@, "#"@) ==> dark@[0] == '#' && dark@ != "transparent"@ && dark@ != "none"@) by {
        if starts_with(dark@, "#"@) {
            assert(dark@.take(1)[0] == dark@[0]);
        }
    }
}

fn text_starts_with(s: &str, p: &str) -> (b: bool)
    ensures
        b == starts_with(s@, p@),
{
    let v = crate::text::chars_of(s);
    let w = crate::text::chars_of(p);
    let b = crate::text::has_prefix_at(&v, 0, &w);
    proof {
        if w@.len() <= v@.len() {
            assert(v@.subrange(0, w@.len() as int) =~= v@.take(w@.len() as int));
        }
    }
    b
}

fn join_chain(chain: &Vec<String>, sep: &str) -> (r: String)
    ensures
        r@ == join_with(views(chain@), sep@),
{
    let mut out = String::new();
    let mut i: usize = 0;
    assert(views(chain@).take(0) =~= seq![]);
    while i < chain.len()
        invariant
            i <= chain@.len(),
            out@ == join_with(views(chain@).take(i as int), sep@),
        decreases chain@.len() - i,
    {
        let ghost t = views(chain@).take(i + 1);
        assert(t.drop_last() =~= views(chain@).take(i as int));
        if i == 0 {
            out = chain[0].clone();
        } else {
            out = out.concat(sep).concat(chain[i].as_str());
        }
        i = i + 1;
    }
    assert(views(chain@).take(chain@.len() as int) =~= views(chain@));
    out
}

fn err(msg: String) -> (r: Result<Color, ResolveError>)
    ensures
        color_result(r) == Err::<ColorView, Seq<char>>(msg@),
{
    Err(ResolveError(msg))
}

fn resolve_str(
    s: &str,
    defs: &Vec<(String, ThemeDefValue)>,
    theme: &Vec<(String, ThemeValue)>,
    mode: ThemeMode,
    chain: &mut Vec<String>,
) -> (r: Result<Color, ResolveError>)
    ensures
        color_result(r) == resolve_text(s@, defs@, theme@, mode, views(old(chain)@)),
        final(chain)@ == old(chain)@,
    decreases unresolved(defs@, theme@, views(old(chain)@)), 0nat,
{
    let ghost c0 = views(chain@);
    if crate::text::text_eq(s, "transparent") || crate::text::text_eq(s, "none") {
        return Ok(Color::transparent());
    }
    if text_starts_with(s, "#") {
        return parse_hex(s);
    }
    if text_starts_with(s, "rgba(") || text_starts_with(s, "rgb(") {
        return parse_css_rgba(s);
    }
    if contains_text_in(chain, s) {
        let joined = join_chain(chain, " -> ");
        let m = String::from_str("Circular reference detected: ").concat(joined.as_str()).concat(" -> ").concat(s);
        return err(m);
    }
    match find_key(defs, s) {
        Some(i) => {
            proof { lemma_lookup_first(defs@, s@, i as int); }
            let ds = defs[i].1.as_string();
            if text_starts_with(ds.as_str(), "#") {
                return parse_hex(ds.as_str());
            }
            if text_starts_with(ds.as_str(), "rgba(") || text_starts_with(ds.as_str(), "rgb(") {
                return parse_css_rgba(ds.as_str());
            }
            proof { lemma_unresolved_decreases(defs@, theme@, c0, s@); }
            chain.push(String::from_str(s));
            assert(views(chain@) =~= c0.push(s@));
            let result = resolve_str(ds.as_str(), defs, theme, mode, chain);
            chain.pop();
            assert(chain@ =~= old(chain)@);
            return result;
        },
        None => {},
    }
    match find_key(theme, s) {
        Some(i) => {
            proof {
                lemma_lookup_first(theme@, s@, i as int);
                lemma_unresolved_decreases(defs@, theme@, c0, s@);
            }
            chain.push(String::from_str(s));
            assert(views(chain@) =~= c0.push(s@));
            let result = resolve_color(&theme[i].1, defs, theme, mode, chain);
            chain.pop();
            assert(chain@ =~= old(chain)@);
            result
        },
        None => err(String::from_str("Missing reference: ").concat(s)),
    }
}

/// Resolve a token value to a colour: a number is an ANSI palette entry;
/// a dark/light pair resolves the side for `mode`; a text is `transparent`
/// or `none`, a hex colour, an `rgb()`/`rgba()` colour, or the name of a
/// definition (tried first) or of another token, followed until a colour
/// is reached.  A name already on `chain` is a cycle; an unknown name is
/// missing.  `chain` is left as it was.
pub fn resolve_color(
    value: &ThemeValue,
    defs: &Vec<(String, ThemeDefValue)>,
    theme: &Vec<(String, ThemeValue)>,
    mode: ThemeMode,
    chain: &mut Vec<String>,
) -> (r: Result<Color, ResolveError>)
    ensures
        color_result(r) == resolve_value(*value, defs@, theme@, mode, views(old(chain)@)),
        final(chain)@ == old(chain)@,
    decreases unresolved(defs@, theme@, views(old(chain)@)), 1nat,
{
    match value {
        ThemeValue::Number(n) => Ok(ansi_to_rgba(n.ansi)),
        ThemeValue::Variant { dark, light } => {
            let s = match mode {
                ThemeMode::Dark => dark,
                ThemeMode::Light => light,
            };
            resolve_str(s.as_str(), defs, theme, mode, chain)
        },
        ThemeValue::String(s) => resolve_str(s.as_str(), defs, theme, mode, chain),
    }
}

/// The definitions of a theme file, none when it has none.
pub open spec fn defs_of(tj: ThemeJson) -> Seq<(String, ThemeDefValue)> {
    match tj.defs {
        Some(d) => d@,
        None => seq![],
    }
}

/// What a token resolves to, or the error for a token the theme lacks.
#[verifier::opaque]
pub open spec fn token_color(tj: ThemeJson, mode: ThemeMode, key: Seq<char>) -> Result<ColorView, Seq<char>> {
    if has_key(tj.theme@, key) {
        resolve_value(lookup(tj.theme@, key), defs_of(tj), tj.theme@, mode, seq![])
    } else {
        Err("Missing theme token: "@ + key)
    }
}

/// The error a token gives, if any.
pub open spec fn token_error(tj: ThemeJson, mode: ThemeMode, key: Seq<char>) -> Option<Seq<char>> {
    match token_color(tj, mode, key) {
        Ok(_) => None,
        Err(m) => Some(m),
    }
}

/// What an optional token resolves to, if the theme has it and it resolves.
pub open spec fn optional_token(tj: ThemeJson, mode: ThemeMode, key: Seq<char>) -> Option<ColorView> {
    if has_key(tj.theme@, key) {
        match resolve_value(lookup(tj.theme@, key), defs_of(tj), tj.theme@, mode, seq![]) {
            Ok(c) => Some(c),
            Err(_) => None,
        }
    } else {
        None
    }
}

/// An optional token's colour, else the fallback token's, else transparent.
pub open spec fn optional_color(tj: ThemeJson, mode: ThemeMode, key: Seq<char>, fallback: Seq<char>) -> ColorView {
    match optional_token(tj, mode, key) {
        Some(c) => c,
        None => match token_color(tj, mode, fallback) {
            Ok(c) => c,
            Err(_) => transparent(),
        },
    }
}

/// The text of the theme's `thinkingOpacity` number, if it has one.
pub open spec fn thinking_opacity_text(tj: ThemeJson) -> Option<Seq<char>> {
    if has_key(tj.theme@, "thinkingOpacity"@) {
        match lookup(tj.theme@, "thinkingOpacity"@) {
            ThemeValue::Number(n) => Some(n.text@),
            _ => None,
        }
    } else {
        None
    }
}

/// The error of the first required token that does not resolve.
pub open spec fn theme_error(tj: ThemeJson, mode: ThemeMode) -> Option<Seq<char>> {
    first_error(token_errors(tj, mode))
}

/// The error of each required token, in order.
pub open spec fn token_errors(tj: ThemeJson, mode: ThemeMode) -> Seq<Option<Seq<char>>> {
    required_tokens().map_values(|k: Seq<char>| token_error(tj, mode, k))
}

/// The tokens a theme must define, in the order they are resolved.
#[verifier::opaque]
pub open spec fn required_tokens() -> Seq<Seq<char>> {
    seq![
        "primary"@,
        "secondary"@,
        "accent"@,
        "error"@,
        "warning"@,
        "success"@,
        "info"@,
        "text"@,
        "textMuted"@,
        "background"@,
        "backgroundPanel"@,
        "backgroundElement"@,
        "border"@,
        "borderActive"@,
        "borderSubtle"@,
        "diffAdded"@,
        "diffRemoved"@,
        "diffContext"@,
        "diffHunkHeader"@,
        "diffHighlightAdded"@,
        "diffHighlightRemoved"@,
        "diffAddedBg"@,
        "diffRemovedBg"@,
        "diffContextBg"@,
        "diffLineNumber"@,
        "diffAddedLineNumberBg"@,
        "diffRemovedLineNumberBg"@,
        "markdownText"@,
        "markdownHeading"@,
        "markdownLink"@,
        "markdownLinkText"@,
        "markdownCode"@,
        "markdownBlockQuote"@,
        "markdownEmph"@,
        "markdownStrong"@,
        "markdownHorizontalRule"@,
        "markdownListItem"@,
        "markdownListEnumeration"@,
        "markdownImage"@,
        "markdownImageText"@,
        "markdownCodeBlock"@,
        "syntaxComment"@,
        "syntaxKeyword"@,
        "syntaxFunction"@,
        "syntaxVariable"@,
        "syntaxString"@,
        "syntaxNumber"@,
        "syntaxType"@,
        "syntaxOperator"@,
        "syntaxPunctuation"@,
    ]
}

/// A theme resolved to colours for one mode.
#[derive(Debug)]
pub struct ResolvedTheme {
    pub primary: Color,
    pub secondary: Color,
    pub accent: Color,
    pub error: Color,
    pub warning: Color,
    pub success: Color,
    pub info: Color,
    pub text: Color,
    pub text_muted: Color,
    pub selected_list_item_text: Color,
    pub background: Color,
    pub background_panel: Color,
    pub background_element: Color,
    pub background_menu: Color,
    pub border: Color,
    pub border_active: Color,
    pub border_subtle: Color,
    pub diff_added: Color,
    pub diff_removed: Color,
    pub diff_context: Color,
    pub diff_hunk_header: Color,
    pub diff_highlight_added: Color,
    pub diff_highlight_removed: Color,
    pub diff_added_bg: Color,
    pub diff_removed_bg: Color,
    pub diff_context_bg: Color,
    pub diff_line_number: Color,
    pub diff_added_line_number_bg: Color,
    pub diff_removed_line_number_bg: Color,
    pub markdown_text: Color,
    pub markdown_heading: Color,
    pub markdown_link: Color,
    pub markdown_link_text: Color,
    pub markdown_code: Color,
    pub markdown_block_quote: Color,
    pub markdown_emph: Color,
    pub markdown_strong: Color,
    pub markdown_horizontal_rule: Color,
    pub markdown_list_item: Color,
    pub markdown_list_enumeration: Color,
    pub markdown_image: Color,
    pub markdown_image_text: Color,
    pub markdown_code_block: Color,
    pub syntax_comment: Color,
    pub syntax_keyword: Color,
    pub syntax_function: Color,
    pub syntax_variable: Color,
    pub syntax_string: Color,
    pub syntax_number: Color,
    pub syntax_type: Color,
    pub syntax_operator: Color,
    pub syntax_punctuation: Color,
    /// The text of the `thinkingOpacity` number, if the theme gives one.
    pub thinking_opacity: Option<String>,
}

/// Every colour of a resolved theme is what its token resolves to; the
/// selected-list-item text falls back to the background, the menu
/// background to the element background, each else transparent.
pub open spec fn theme_colors_match(t: ResolvedTheme, tj: ThemeJson, mode: ThemeMode) -> bool {
    &&& Ok::<ColorView, Seq<char>>(t.primary@) == token_color(tj, mode, "primary"@)
    &&& Ok::<ColorView, Seq<char>>(t.secondary@) == token_color(tj, mode, "secondary"@)
    &&& Ok::<ColorView, Seq<char>>(t.accent@) == token_color(tj, mode, "accent"@)
    &&& Ok::<ColorView, Seq<char>>(t.error@) == token_color(tj, mode, "error"@)
    &&& Ok::<ColorView, Seq<char>>(t.warning@) == token_color(tj, mode, "warning"@)
    &&& Ok::<ColorView, Seq<char>>(t.success@) == token_color(tj, mode, "success"@)
    &&& Ok::<ColorView, Seq<char>>(t.info@) == token_color(tj, mode, "info"@)
    &&& Ok::<ColorView, Seq<char>>(t.text@) == token_color(tj, mode, "text"@)
    &&& Ok::<ColorView, Seq<char>>(t.text_muted@) == token_color(tj, mode, "textMuted"@)
    &&& Ok::<ColorView, Seq<char>>(t.background@) == token_color(tj, mode, "background"@)
    &&& Ok::<ColorView, Seq<char>>(t.background_panel@) == token_color(tj, mode, "backgroundPanel"@)
    &&& Ok::<ColorView, Seq<char>>(t.background_element@) == token_color(tj, mode, "backgroundElement"@)
    &&& Ok::<ColorView, Seq<char>>(t.border@) == token_color(tj, mode, "border"@)
    &&& Ok::<ColorView, Seq<char>>(t.border_active@) == token_color(tj, mode, "borderActive"@)
    &&& Ok::<ColorView, Seq<char>>(t.border_subtle@) == token_color(tj, mode, "borderSubtle"@)
    &&& Ok::<ColorView, Seq<char>>(t.diff_added@) == token_color(tj, mode, "diffAdded"@)
    &&& Ok::<ColorView, Seq<char>>(t.diff_removed@) == token_color(tj, mode, "diffRemoved"@)
    &&& Ok::<ColorView, Seq<char>>(t.diff_context@) == token_color(tj, mode, "diffContext"@)
    &&& Ok::<ColorView, Seq<char>>(t.diff_hunk_header@) == token_color(tj, mode, "diffHunkHeader"@)
    &&& Ok::<ColorView, Seq<char>>(t.diff_highlight_added@) == token_color(tj, mode, "diffHighlightAdded"@)
    &&& Ok::<ColorView, Seq<char>>(t.diff_highlight_removed@) == token_color(tj, mode, "diffHighlightRemoved"@)
    &&& Ok::<ColorView, Seq<char>>(t.diff_added_bg@) == token_color(tj, mode, "diffAddedBg"@)
    &&& Ok::<ColorView, Seq<char>>(t.diff_removed_bg@) == token_color(tj, mode, "diffRemovedBg"@)
    &&& Ok::<ColorView, Seq<char>>(t.diff_context_bg@) == token_color(tj, mode, "diffContextBg"@)
    &&& Ok::<ColorView, Seq<char>>(t.diff_line_number@) == token_color(tj, mode, "diffLineNumber"@)
    &&& Ok::<ColorView, Seq<char>>(t.diff_added_line_number_bg@) == token_color(tj, mode, "diffAddedLineNumberBg"@)
    &&& Ok::<ColorView, Seq<char>>(t.diff_removed_line_number_bg@) == token_color(tj, mode, "diffRemovedLineNumberBg"@)
    &&& Ok::<ColorView, Seq<char>>(t.markdown_text@) == token_color(tj, mode, "markdownText"@)
    &&& Ok::<ColorView, Seq<char>>(t.markdown_heading@) == token_color(tj, mode, "markdownHeading"@)
    &&& Ok::<ColorView, Seq<char>>(t.markdown_link@) == token_color(tj, mode, "markdownLink"@)
    &&& Ok::<ColorView, Seq<char>>(t.markdown_link_text@) == token_color(tj, mode, "markdownLinkText"@)
    &&& Ok::<ColorView, Seq<char>>(t.markdown_code@) == token_color(tj, mode, "markdownCode"@)
    &&& Ok::<ColorView, Seq<char>>(t.markdown_block_quote@) == token_color(tj, mode, "markdownBlockQuote"@)
    &&& Ok::<ColorView, Seq<char>>(t.markdown_emph@) == token_color(tj, mode, "markdownEmph"@)
    &&& Ok::<ColorView, Seq<char>>(t.markdown_strong@) == token_color(tj, mode, "markdownStrong"@)
    &&& Ok::<ColorView, Seq<char>>(t.markdown_horizontal_rule@) == token_color(tj, mode, "markdownHorizontalRule"@)
    &&& Ok::<ColorView, Seq<char>>(t.markdown_list_item@) == token_color(tj, mode, "markdownListItem"@)
    &&& Ok::<ColorView, Seq<char>>(t.markdown_list_enumeration@) == token_color(tj, mode, "markdownListEnumeration"@)
    &&& Ok::<ColorView, Seq<char>>(t.markdown_image@) == token_color(tj, mode, "markdownImage"@)
    &&& Ok::<ColorView, Seq<char>>(t.markdown_image_text@) == token_color(tj, mode, "markdownImageText"@)
    &&& Ok::<ColorView, Seq<char>>(t.markdown_code_block@) == token_color(tj, mode, "markdownCodeBlock"@)
    &&& Ok::<ColorView, Seq<char>>(t.syntax_comment@) == token_color(tj, mode, "syntaxComment"@)
    &&& Ok::<ColorView, Seq<char>>(t.syntax_keyword@) == token_color(tj, mode, "syntaxKeyword"@)
    &&& Ok::<ColorView, Seq<char>>(t.syntax_function@) == token_color(tj, mode, "syntaxFunction"@)
    &&& Ok::<ColorView, Seq<char>>(t.syntax_variable@) == token_color(tj, mode, "syntaxVariable"@)
    &&& Ok::<ColorView, Seq<char>>(t.syntax_string@) == token_color(tj, mode, "syntaxString"@)
    &&& Ok::<ColorView, Seq<char>>(t.syntax_number@) == token_color(tj, mode, "syntaxNumber"@)
    &&& Ok::<ColorView, Seq<char>>(t.syntax_type@) == token_color(tj, mode, "syntaxType"@)
    &&& Ok::<ColorView, Seq<char>>(t.syntax_operator@) == token_color(tj, mode, "syntaxOperator"@)
    &&& Ok::<ColorView, Seq<char>>(t.syntax_punctuation@) == token_color(tj, mode, "syntaxPunctuation"@)
    &&& t.selected_list_item_text@ == optional_color(tj, mode, "selectedListItemText"@, "background"@)
    &&& t.background_menu@ == optional_color(tj, mode, "backgroundMenu"@, "backgroundElement"@)
    &&& opt_text(t.thinking_opacity) == thinking_opacity_text(tj)
}

impl Color {
    /// A copy of the colour.
    pub fn duplicate(&self) -> (c: Color)
        ensures
            c@ == self@,
    {
        let alpha = match &self.alpha {
            crate::color::Alpha::Byte(a) => crate::color::Alpha::Byte(*a),
            crate::color::Alpha::Text(t) => crate::color::Alpha::Text(t.clone()),
        };
        Color { r: self.r, g: self.g, b: self.b, alpha }
    }
}

fn theme_defs(tj: &ThemeJson) -> (r: Vec<(String, ThemeDefValue)>)
    ensures
        r@ == defs_of(*tj),
{
    match &tj.defs {
        Some(d) => {
            let mut out: Vec<(String, ThemeDefValue)> = Vec::new();
            let mut i: usize = 0;
            while i < d.len()
                invariant
                    i <= d@.len(),
                    out@ == d@.subrange(0, i as int),
                decreases d@.len() - i,
            {
                let e = (d[i].0.clone(), match &d[i].1 {
                    ThemeDefValue::String(s) => ThemeDefValue::String(s.clone()),
                    ThemeDefValue::Number(n) => ThemeDefValue::Number(NumberValue { ansi: n.ansi, text: n.text.clone() }),
                });
                assert(e == d@[i as int]);
                out.push(e);
                i = i + 1;
                assert(out@ =~= d@.subrange(0, i as int));
            }
            assert(d@.subrange(0, d@.len() as int) =~= d@);
            out
        },
        None => Vec::new(),
    }
}

fn token(
    defs: &Vec<(String, ThemeDefValue)>,
    theme: &Vec<(String, ThemeValue)>,
    mode: ThemeMode,
    key: &str,
    tj: Ghost<ThemeJson>,
) -> (r: Result<Color, ResolveError>)
    requires
        defs@ == defs_of(tj@),
        theme@ == tj@.theme@,
    ensures
        color_result(r) == token_color(tj@, mode, key@),
{
    reveal(token_color);
    match find_key(theme, key) {
        Some(i) => {
            proof { lemma_lookup_first(theme@, key@, i as int); }
            let mut chain: Vec<String> = Vec::new();
            assert(views(chain@) =~= seq![]);
            resolve_color(&theme[i].1, defs, theme, mode, &mut chain)
        },
        None => err(String::from_str("Missing theme token: ").concat(key)),
    }
}

/// The colour of an optional token, if the theme defines it and it
/// resolves.
pub fn resolve_optional(
    key: &str,
    defs: &Vec<(String, ThemeDefValue)>,
    theme: &Vec<(String, ThemeValue)>,
    mode: ThemeMode,
) -> (r: Option<Color>)
    ensures
        match (if has_key(theme@, key@) {
            match resolve_value(lookup(theme@, key@), defs@, theme@, mode, seq![]) {
                Ok(c) => Some(c),
                Err(_) => None,
            }
        } else {
            None
        }) {
            Some(c) => r matches Some(x) && x@ == c,
            None => r is None,
        },
{
    match find_key(theme, key) {
        Some(i) => {
            proof { lemma_lookup_first(theme@, key@, i as int); }
            let mut chain: Vec<String> = Vec::new();
            assert(views(chain@) =~= seq![]);
            match resolve_color(&theme[i].1, defs, theme, mode, &mut chain) {
                Ok(c) => Some(c),
                Err(_) => None,
            }
        },
        None => None,
    }
}

fn optional_or(
    defs: &Vec<(String, ThemeDefValue)>,
    theme: &Vec<(String, ThemeValue)>,
    mode: ThemeMode,
    key: &str,
    fallback: &str,
    tj: Ghost<ThemeJson>,
) -> (r: Color)
    requires
        defs@ == defs_of(tj@),
        theme@ == tj@.theme@,
    ensures
        r@ == optional_color(tj@, mode, key@, fallback@),
{
    match resolve_optional(key, defs, theme, mode) {
        Some(c) => c,
        None => match token(defs, theme, mode, fallback, tj) {
            Ok(c) => c,
            Err(_) => Color::transparent(),
        },
    }
}

fn thinking_opacity_of(theme: &Vec<(String, ThemeValue)>) -> (r: Option<String>)
    ensures
        opt_text(r) == thinking_opacity_text(ThemeJson { schema: None, defs: None, theme: *theme }),
{
    match find_key(theme, "thinkingOpacity") {
        Some(i) => {
            proof { lemma_lookup_first(theme@, "thinkingOpacity"@, i as int); }
            match &theme[i].1 {
                ThemeValue::Number(n) => Some(n.text.clone()),
                _ => None,
            }
        },
        None => None,
    }
}

/// The names of the required tokens, in order.
fn required_token_names() -> (v: Vec<&'static str>)
    ensures
        v@.map_values(|s: &str| s@) == required_tokens(),
{
    proof { reveal(required_tokens); }
    let v = vec![
        "primary",
        "secondary",
        "accent",
        "error",
        "warning",
        "success",
        "info",
        "text",
        "textMuted",
        "background",
        "backgroundPanel",
        "backgroundElement",
        "border",
        "borderActive",
        "borderSubtle",
        "diffAdded",
        "diffRemoved",
        "diffContext",
        "diffHunkHeader",
        "diffHighlightAdded",
        "diffHighlightRemoved",
        "diffAddedBg",
        "diffRemovedBg",
        "diffContextBg",
        "diffLineNumber",
        "diffAddedLineNumberBg",
        "diffRemovedLineNumberBg",
        "markdownText",
        "markdownHeading",
        "markdownLink",
        "markdownLinkText",
        "markdownCode",
        "markdownBlockQuote",
        "markdownEmph",
        "markdownStrong",
        "markdownHorizontalRule",
        "markdownListItem",
        "markdownListEnumeration",
        "markdownImage",
        "markdownImageText",
        "markdownCodeBlock",
        "syntaxComment",
        "syntaxKeyword",
        "syntaxFunction",
        "syntaxVariable",
        "syntaxString",
        "syntaxNumber",
        "syntaxType",
        "syntaxOperator",
        "syntaxPunctuation",
    ];
    assert(v@.map_values(|s: &str| s@) =~= required_tokens());
    v
}

/// Resolve every token of a theme for `mode`.  Fails with the error of the
/// first required token (in field order) that is missing or does not
/// resolve; the optional `selectedListItemText` and `backgroundMenu` fall
/// back to `background` and `backgroundElement`.
pub fn resolve_theme(theme_json: &ThemeJson, mode: ThemeMode) -> (r: Result<ResolvedTheme, ResolveError>)
    ensures
        match theme_error(*theme_json, mode) {
            Some(m) => r matches Err(e) && e.0@ == m,
            None => r matches Ok(t) && theme_colors_match(t, *theme_json, mode),
        },
{
    let ghost tj = *theme_json;
    let defs = theme_defs(theme_json);
    let theme = &theme_json.theme;
    let names = required_token_names();
    let ghost errs = token_errors(tj, mode);
    let mut colors: Vec<Color> = Vec::new();
    let mut i: usize = 0;
    while i < names.len()
        invariant
            i <= names@.len(),
            names@.map_values(|s: &str| s@) == required_tokens(),
            errs == token_errors(tj, mode),
            tj == *theme_json,
            defs@ == defs_of(tj),
            *theme == tj.theme,
            colors@.len() == i,
            forall|k: int| 0 <= k < i ==> #[trigger] errs[k] is None,
            forall|k: int| 0 <= k < i ==> token_color(tj, mode, required_tokens()[k]) == Ok::<ColorView, Seq<char>>(#[trigger] colors@[k]@),
        decreases names@.len() - i,
    {
        assert(names@.map_values(|s: &str| s@)[i as int] == names@[i as int]@);
        match token(&defs, theme, mode, names[i], Ghost(tj)) {
            Ok(c) => {
                proof {
                    assert(errs[i as int] == token_error(tj, mode, required_tokens()[i as int]));
                }
                colors.push(c);
            },
            Err(e) => {
                proof {
                    assert(errs[i as int] == token_error(tj, mode, required_tokens()[i as int]));
                    assert(token_color(tj, mode, required_tokens()[i as int]) == Err::<ColorView, Seq<char>>(e.0@));
                    assert(errs[i as int] == Some(e.0@));
                    assert(errs.len() == names@.len());
                    crate::config::lemma_first_error_skip(errs, i as int);
                    assert(errs.skip(i as int)[0] == errs[i as int]);
                    assert(first_error(errs.skip(i as int)) == Some(e.0@));
                    assert(first_error(errs) == Some(e.0@));
                    assert(theme_error(*theme_json, mode) == Some(e.0@));
                }
                return Err(e);
            },
        }
        i = i + 1;
    }
    proof {
        crate::config::lemma_first_error_skip(errs, i as int);
        reveal(required_tokens);
    }
    let primary = colors[0].duplicate();
    let secondary = colors[1].duplicate();
    let accent = colors[2].duplicate();
    let error = colors[3].duplicate();
    let warning = colors[4].duplicate();
    let success = colors[5].duplicate();
    let info = colors[6].duplicate();
    let text = colors[7].duplicate();
    let text_muted = colors[8].duplicate();
    let selected_list_item_text = optional_or(&defs, theme, mode, "selectedListItemText", "background", Ghost(tj));
    let background = colors[9].duplicate();
    let background_panel = colors[10].duplicate();
    let background_element = colors[11].duplicate();
    let background_menu = optional_or(&defs, theme, mode, "backgroundMenu", "backgroundElement", Ghost(tj));
    let border = colors[12].duplicate();
    let border_active = colors[13].duplicate();
    let border_subtle = colors[14].duplicate();
    let diff_added = colors[15].duplicate();
    let diff_removed = colors[16].duplicate();
    let diff_context = colors[17].duplicate();
    let diff_hunk_header = colors[18].duplicate();
    let diff_highlight_added = colors[19].duplicate();
    let diff_highlight_removed = colors[20].duplicate();
    let diff_added_bg = colors[21].duplicate();
    let diff_removed_bg = colors[22].duplicate();
    let diff_context_bg = colors[23].duplicate();
    let diff_line_number = colors[24].duplicate();
    let diff_added_line_number_bg = colors[25].duplicate();
    let diff_removed_line_number_bg = colors[26].duplicate();
    let markdown_text = colors[27].duplicate();
    let markdown_heading = colors[28].duplicate();
    let markdown_link = colors[29].duplicate();
    let markdown_link_text = colors[30].duplicate();
    let markdown_code = colors[31].duplicate();
    let markdown_block_quote = colors[32].duplicate();
    let markdown_emph = colors[33].duplicate();
    let markdown_strong = colors[34].duplicate();
    let markdown_horizontal_rule = colors[35].duplicate();
    let markdown_list_item = colors[36].duplicate();
    let markdown_list_enumeration = colors[37].duplicate();
    let markdown_image = colors[38].duplicate();
    let markdown_image_text = colors[39].duplicate();
    let markdown_code_block = colors[40].duplicate();
    let syntax_comment = colors[41].duplicate();
    let syntax_keyword = colors[42].duplicate();
    let syntax_function = colors[43].duplicate();
    let syntax_variable = colors[44].duplicate();
    let syntax_string = colors[45].duplicate();
    let syntax_number = colors[46].duplicate();
    let syntax_type = colors[47].duplicate();
    let syntax_operator = colors[48].duplicate();
    let syntax_punctuation = colors[49].duplicate();
    let thinking_opacity = thinking_opacity_of(theme);
    let t = ResolvedTheme {
        primary,
        secondary,
        accent,
        error,
        warning,
        success,
        info,
        text,
        text_muted,
        selected_list_item_text,
        background,
        background_panel,
        background_element,
        background_menu,
        border,
        border_active,
        border_subtle,
        diff_added,
        diff_removed,
        diff_context,
        diff_hunk_header,
        diff_highlight_added,
        diff_highlight_removed,
        diff_added_bg,
        diff_removed_bg,
        diff_context_bg,
        diff_line_number,
        diff_added_line_number_bg,
        diff_removed_line_number_bg,
        markdown_text,
        markdown_heading,
        markdown_link,
        markdown_link_text,
        markdown_code,
        markdown_block_quote,
        markdown_emph,
        markdown_strong,
        markdown_horizontal_rule,
        markdown_list_item,
        markdown_list_enumeration,
        markdown_image,
        markdown_image_text,
        markdown_code_block,
        syntax_comment,
        syntax_keyword,
        syntax_function,
        syntax_variable,
        syntax_string,
        syntax_number,
        syntax_type,
        syntax_operator,
        syntax_punctuation,
        thinking_opacity,
    };
    Ok(t)
}

/// Resolve a theme, or `None` when it does not resolve.
pub fn resolve_theme_safe(theme_json: &ThemeJson, mode: ThemeMode) -> (r: Option<ResolvedTheme>)
    ensures
        match theme_error(*theme_json, mode) {
            Some(_) => r is None,
            None => r matches Some(t) && theme_colors_match(t, *theme_json, mode),
        },
{
    match resolve_theme(theme_json, mode) {
        Ok(t) => Some(t),
        Err(_) => None,
    }
}

} // verus!
