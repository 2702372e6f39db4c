//! The theme generated from the terminal's own palette: which colour
//! source each token takes, for a dark or a light background.
//!
//! The colours themselves (luminance, blending, the grey ramp) are computed
//! in floating point by the shell; this module fixes the table.
use vstd::prelude::*;

verus! {

/// Steps of the grey ramp the system theme draws from.
pub const RAMP_STEPS: usize = 12;

/// Where a token of the system theme takes its colour from.
#[derive(Debug, Clone, Copy, PartialEq, Eq, Structural)]
pub enum SystemSource {
    /// The terminal's ANSI palette entry (or the standard colour when the
    /// palette is shorter).
    Ansi(u8),
    /// A step of the grey ramp.
    Ramp(usize),
    /// The terminal's foreground.
    Foreground,
    /// The terminal's background.
    Background,
    /// No colour: the terminal's own background shows through.
    Transparent,
    /// A grey a fixed luminance away from the background.
    MutedGray,
    /// Green blended over the background.
    DiffAddedBg,
    /// Red blended over the background.
    DiffRemovedBg,
    /// The thinking-text opacity number.
    ThinkingOpacity,
}

/// A ramp index clamped to a ramp of `steps` steps (`steps >= 1`).
pub open spec fn ramp_at(steps: int, idx: int) -> int {
    if idx <= steps - 1 { idx } else { steps - 1 }
}

/// The ramp step a token uses: `dark` on a dark background, else `light`.
pub open spec fn ramp_pick(is_dark: bool, dark: usize, light: usize) -> usize {
    ramp_at(RAMP_STEPS as int, if is_dark { dark as int } else { light as int }) as usize
}

/// Clamps a ramp index to the last step of a ramp of `steps` steps.
pub fn ramp_index(steps: usize, idx: usize) -> (r: usize)
    requires
        steps >= 1,
    ensures
        r == ramp_at(steps as int, idx as int),
{
    if idx <= steps - 1 { idx } else { steps - 1 }
}

/// The token table of the system theme for a dark or a light background.
pub open spec fn system_plan(is_dark: bool) -> Seq<(Seq<char>, SystemSource)> {
    seq![
        ("primary"@, SystemSource::Ansi(4)),
        ("secondary"@, SystemSource::Ansi(5)),
        ("accent"@, SystemSource::Ansi(6)),
        ("error"@, SystemSource::Ansi(1)),
        ("warning"@, SystemSource::Ansi(3)),
        ("success"@, SystemSource::Ansi(2)),
        ("info"@, SystemSource::Ansi(6)),
        ("text"@, SystemSource::Foreground),
        ("textMuted"@, SystemSource::MutedGray),
        ("selectedListItemText"@, SystemSource::Ramp(ramp_pick(is_dark, 0, 11))),
        ("background"@, SystemSource::Transparent),
        ("backgroundPanel"@, SystemSource::Ramp(ramp_pick(is_dark, 1, 10))),
        ("backgroundElement"@, SystemSource::Ramp(ramp_pick(is_dark, 2, 9))),
        ("backgroundMenu"@, SystemSource::Ramp(ramp_pick(is_dark, 2, 9))),
        ("border"@, SystemSource::Ramp(ramp_pick(is_dark, 4, 7))),
        ("borderActive"@, SystemSource::Ansi(4)),
        ("borderSubtle"@, SystemSource::Ramp(ramp_pick(is_dark, 3, 8))),
        ("diffAdded"@, SystemSource::Ansi(2)),
        ("diffRemoved"@, SystemSource::Ansi(1)),
        ("diffContext"@, SystemSource::Foreground),
        ("diffHunkHeader"@, SystemSource::Ansi(4)),
        ("diffHighlightAdded"@, SystemSource::Ansi(2)),
        ("diffHighlightRemoved"@, SystemSource::Ansi(1)),
        ("diffAddedBg"@, SystemSource::DiffAddedBg),
        ("diffRemovedBg"@, SystemSource::DiffRemovedBg),
        ("diffContextBg"@, SystemSource::Background),
        ("diffLineNumber"@, SystemSource::Ramp(ramp_pick(is_dark, 5, 6))),
        ("diffAddedLineNumberBg"@, SystemSource::DiffAddedBg),
        ("diffRemovedLineNumberBg"@, SystemSource::DiffRemovedBg),
        ("markdownText"@, SystemSource::Foreground),
        ("markdownHeading"@, SystemSource::Ansi(4)),
        ("markdownLink"@, SystemSource::Ansi(6)),
        ("markdownLinkText"@, SystemSource::Ansi(6)),
        ("markdownCode"@, SystemSource::Ansi(3)),
        ("markdownBlockQuote"@, SystemSource::Ramp(ramp_pick(is_dark, 5, 6))),
        ("markdownEmph"@, SystemSource::Ansi(5)),
        ("markdownStrong"@, SystemSource::Foreground),
        ("markdownHorizontalRule"@, SystemSource::Ramp(ramp_pick(is_dark, 4, 7))),
        ("markdownListItem"@, SystemSource::Foreground),
        ("markdownListEnumeration"@, SystemSource::Ansi(5)),
        ("markdownImage"@, SystemSource::Ansi(6)),
        ("markdownImageText"@, SystemSource::Ansi(6)),
        ("markdownCodeBlock"@, SystemSource::Background),
        ("syntaxComment"@, SystemSource::Ramp(ramp_pick(is_dark, 5, 6))),
        ("syntaxKeyword"@, SystemSource::Ansi(5)),
        ("syntaxFunction"@, SystemSource::Ansi(4)),
        ("syntaxVariable"@, SystemSource::Foreground),
        ("syntaxString"@, SystemSource::Ansi(2)),
        ("syntaxNumber"@, SystemSource::Ansi(3)),
        ("syntaxType"@, SystemSource::Ansi(3)),
        ("syntaxOperator"@, SystemSource::Ansi(6)),
        ("syntaxPunctuation"@, SystemSource::Ramp(ramp_pick(is_dark, 5, 6))),
        ("thinkingOpacity"@, SystemSource::ThinkingOpacity),
    ]
}

/// The tokens of the system theme and the source of each, in table order.
pub fn system_theme_plan(is_dark: bool) -> (r: Vec<(String, SystemSource)>)
    ensures
        r@.map_values(|e: (String, SystemSource)| (e.0@, e.1)) == system_plan(is_dark),
{
    let mut v: Vec<(String, SystemSource)> = Vec::new();
    v.push(("primary".to_string(), SystemSource::Ansi(4)));
    v.push(("secondary".to_string(), SystemSource::Ansi(5)));
    v.push(("accent".to_string(), SystemSource::Ansi(6)));
    v.push(("error".to_string(), SystemSource::Ansi(1)));
    v.push(("warning".to_string(), SystemSource::Ansi(3)));
    v.push(("success".to_string(), SystemSource::Ansi(2)));
    v.push(("info".to_string(), SystemSource::Ansi(6)));
    v.push(("text".to_string(), SystemSource::Foreground));
    v.push(("textMuted".to_string(), SystemSource::MutedGray));
    v.push(("selectedListItemText".to_string(), SystemSource::Ramp(ramp_index(RAMP_STEPS, if is_dark { 0 } else { 11 }))));
    v.push(("background".to_string(), SystemSource::Transparent));
    v.push(("backgroundPanel".to_string(), SystemSource::Ramp(ramp_index(RAMP_STEPS, if is_dark { 1 } else { 10 }))));
    v.push(("backgroundElement".to_string(), SystemSource::Ramp(ramp_index(RAMP_STEPS, if is_dark { 2 } else { 9 }))));
    v.push(("backgroundMenu".to_string(), SystemSource::Ramp(ramp_index(RAMP_STEPS, if is_dark { 2 } else { 9 }))));
    v.push(("border".to_string(), SystemSource::Ramp(ramp_index(RAMP_STEPS, if is_dark { 4 } else { 7 }))));
    v.push(("borderActive".to_string(), SystemSource::Ansi(4)));
    v.push(("borderSubtle".to_string(), SystemSource::Ramp(ramp_index(RAMP_STEPS, if is_dark { 3 } else { 8 }))));
    v.push(("diffAdded".to_string(), SystemSource::Ansi(2)));
    v.push(("diffRemoved".to_string(), SystemSource::Ansi(1)));
    v.push(("diffContext".to_string(), SystemSource::Foreground));
    v.push(("diffHunkHeader".to_string(), SystemSource::Ansi(4)));
    v.push(("diffHighlightAdded".to_string(), SystemSource::Ansi(2)));
    v.push(("diffHighlightRemoved".to_string(), SystemSource::Ansi(1)));
    v.push(("diffAddedBg".to_string(), SystemSource::DiffAddedBg));
    v.push(("diffRemovedBg".to_string(), SystemSource::DiffRemovedBg));
    v.push(("diffContextBg".to_string(), SystemSource::Background));
    v.push(("diffLineNumber".to_string(), SystemSource::Ramp(ramp_index(RAMP_STEPS, if is_dark { 5 } else { 6 }))));
    v.push(("diffAddedLineNumberBg".to_string(), SystemSource::DiffAddedBg));
    v.push(("diffRemovedLineNumberBg".to_string(), SystemSource::DiffRemovedBg));
    v.push(("markdownText".to_string(), SystemSource::Foreground));
    v.push(("markdownHeading".to_string(), SystemSource::Ansi(4)));
    v.push(("markdownLink".to_string(), SystemSource::Ansi(6)));
    v.push(("markdownLinkText".to_string(), SystemSource::Ansi(6)));
    v.push(("markdownCode".to_string(), SystemSource::Ansi(3)));
    v.push(("markdownBlockQuote".to_string(), SystemSource::Ramp(ramp_index(RAMP_STEPS, if is_dark { 5 } else { 6 }))));
    v.push(("markdownEmph".to_string(), SystemSource::Ansi(5)));
    v.push(("markdownStrong".to_string(), SystemSource::Foreground));
    v.push(("markdownHorizontalRule".to_string(), SystemSource::Ramp(ramp_index(RAMP_STEPS, if is_dark { 4 } else { 7 }))));
    v.push(("markdownListItem".to_string(), SystemSource::Foreground));
    v.push(("markdownListEnumeration".to_string(), SystemSource::Ansi(5)));
    v.push(("markdownImage".to_string(), SystemSource::Ansi(6)));
    v.push(("markdownImageText".to_string(), SystemSource::Ansi(6)));
    v.push(("markdownCodeBlock".to_string(), SystemSource::Background));
    v.push(("syntaxComment".to_string(), SystemSource::Ramp(ramp_index(RAMP_STEPS, if is_dark { 5 } else { 6 }))));
    v.push(("syntaxKeyword".to_string(), SystemSource::Ansi(5)));
    v.push(("syntaxFunction".to_string(), SystemSource::Ansi(4)));
    v.push(("syntaxVariable".to_string(), SystemSource::Foreground));
    v.push(("syntaxString".to_string(), SystemSource::Ansi(2)));
    v.push(("syntaxNumber".to_string(), SystemSource::Ansi(3)));
    v.push(("syntaxType".to_string(), SystemSource::Ansi(3)));
    v.push(("syntaxOperator".to_string(), SystemSource::Ansi(6)));
    v.push(("syntaxPunctuation".to_string(), SystemSource::Ramp(ramp_index(RAMP_STEPS, if is_dark { 5 } else { 6 }))));
    v.push(("thinkingOpacity".to_string(), SystemSource::ThinkingOpacity));
    assert(v@.map_values(|e: (String, SystemSource)| (e.0@, e.1)) =~= system_plan(is_dark));
    v
}

} // verus!
