//! Text attributes carried by every span, line and document.

use vstd::prelude::*;

verus! {

/// ratatui's `Color`, carried through as it is.
#[verifier::external_type_specification]
#[verifier::external_body]
pub struct ExColor(ratatui::style::Color);

/// ratatui's `HorizontalAlignment`, carried through as it is.
#[verifier::external_type_specification]
#[verifier::external_body]
pub struct ExAlignment(ratatui::layout::HorizontalAlignment);

/// Colours and attribute flags of a piece of text.
///
/// Colours are carried as the terminal toolkit's own values; nothing here
/// looks inside them. The two modifier sets are bit masks, one bit per
/// attribute (bold, italic, underline, ...): the attributes to switch on and
/// the attributes to switch off.
#[derive(Clone, Copy, Debug, PartialEq, Eq)]
pub struct Style {
    pub fg: Option<ratatui::style::Color>,
    pub bg: Option<ratatui::style::Color>,
    pub underline_color: Option<ratatui::style::Color>,
    pub add_modifier: u16,
    pub sub_modifier: u16,
}

impl Style {
    /// The style that sets no colour and changes no attribute.
    pub open spec fn plain() -> Style {
        Style { fg: None, bg: None, underline_color: None, add_modifier: 0, sub_modifier: 0 }
    }
}

impl Default for Style {
    fn default() -> (style: Style)
        ensures
            style == Style::plain(),
    {
        Style { fg: None, bg: None, underline_color: None, add_modifier: 0, sub_modifier: 0 }
    }
}

} // verus!
