//! The colour palette of the compositor: background and the two border
//! colours, each a 24-bit `0xRRGGBB` value.
use crate::invocation::{control, InvocationView};
use crate::text::{hex, hex_string, is_digit, lemma_hex_reads_back, number};
use vstd::arithmetic::power::pow;
use vstd::prelude::*;

verus! {

/// Default background colour.
pub const DEFAULT_BACKGROUND: u32 = 0x002b36;

/// Default border colour of the focused view.
pub const DEFAULT_BORDER_FOCUSED: u32 = 0x93a1a1;

/// Default border colour of unfocused views.
pub const DEFAULT_BORDER_UNFOCUSED: u32 = 0x586e75;

/// The three colours that the compositor draws by itself.
#[derive(Debug, Clone, Copy, PartialEq, Eq, Structural)]
pub struct Colors {
    pub background_color: u32,
    pub border_color_focused: u32,
    pub border_color_unfocused: u32,
}

/// The palette that a new configuration starts with: solarized dark.
pub open spec fn default_colors() -> Colors {
    Colors {
        background_color: DEFAULT_BACKGROUND,
        border_color_focused: DEFAULT_BORDER_FOCUSED,
        border_color_unfocused: DEFAULT_BORDER_UNFOCUSED,
    }
}

impl Default for Colors {
    /// The solarized-dark palette.
    fn default() -> (colors: Self)
        ensures
            colors == default_colors(),
    {
        Colors {
            background_color: DEFAULT_BACKGROUND,
            border_color_focused: DEFAULT_BORDER_FOCUSED,
            border_color_unfocused: DEFAULT_BORDER_UNFOCUSED,
        }
    }
}

impl Colors {
    /// Replaces the background colour and leaves the borders as they are.
    pub fn set_background_color(&mut self, color: u32) -> (owner: &mut Self)
        ensures
            *owner == (Colors { background_color: color, ..*old(self) }),
            *final(self) == *final(owner),
    {
        self.background_color = color;
        self
    }

    /// Replaces the border colour of the focused view.
    pub fn set_border_color_focused(&mut self, color: u32) -> (owner: &mut Self)
        ensures
            *owner == (Colors { border_color_focused: color, ..*old(self) }),
            *final(self) == *final(owner),
    {
        self.border_color_focused = color;
        self
    }

    /// Replaces the border colour of unfocused views.
    pub fn set_border_color_unfocused(&mut self, color: u32) -> (owner: &mut Self)
        ensures
            *owner == (Colors { border_color_unfocused: color, ..*old(self) }),
            *final(self) == *final(owner),
    {
        self.border_color_unfocused = color;
        self
    }
}

/// A colour as the control tool reads it: `0x` and the six hexadecimal
/// digits of its lowest 24 bits, in upper case.
pub open spec fn color_text(color: u32) -> Seq<char> {
    "0x"@ + hex(color as nat, 6)
}

/// Writes `color` as the control tool reads it.
pub fn format_color(color: u32) -> (text: String)
    ensures
        text@ == color_text(color),
{
    let mut text = String::from_str("0x");
    text.append(hex_string(color, 6).as_str());
    text
}

/// A colour is written as `0x` and six digits, and these read back as
/// its lowest 24 bits.
pub proof fn lemma_color_text_reads_back(color: u32)
    ensures
        color_text(color).len() == 8,
        color_text(color)[0] == '0',
        color_text(color)[1] == 'x',
        forall|i: int| 2 <= i < 8 ==> is_digit(#[trigger] color_text(color)[i], 16),
        number(color_text(color).skip(2), 16) == color % 0x1000000,
{
    reveal_strlit("0x");
    lemma_hex_reads_back(color as nat, 6);
    assert(pow(16, 6) == 0x1000000) by {
        reveal_with_fuel(pow, 7);
    }
    assert(color_text(color).skip(2) =~= hex(color as nat, 6));
}

/// The calls that set the three colours: background, focused border,
/// unfocused border.
pub open spec fn color_calls(colors: Colors) -> Seq<InvocationView> {
    seq![
        control(seq!["background-color"@, color_text(colors.background_color)]),
        control(seq!["border-color-focused"@, color_text(colors.border_color_focused)]),
        control(seq!["border-color-unfocused"@, color_text(colors.border_color_unfocused)]),
    ]
}

} // verus!
