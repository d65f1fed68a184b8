//! When to highlight matches, and the highlight marker itself.

use vstd::prelude::*;

verus! {

/// The user's choice of when matched bytes are highlighted.
#[derive(Clone, Copy, Debug, PartialEq, Eq, Structural)]
pub enum ColorWhen {
    Always,
    Never,
    Auto,
}

impl ColorWhen {
    /// Whether highlighting is enabled, given whether the output is an
    /// interactive terminal: `Auto` follows the terminal, the others ignore it.
    pub open spec fn enabled(self, isatty: bool) -> bool {
        match self {
            ColorWhen::Always => true,
            ColorWhen::Never => false,
            ColorWhen::Auto => isatty,
        }
    }

    pub fn mix_isatty_to_color_flag(&self, isatty: bool) -> (flag: bool)
        ensures
            flag == self.enabled(isatty),
    {
        match self {
            ColorWhen::Always => true,
            ColorWhen::Never => false,
            ColorWhen::Auto => isatty,
        }
    }
}

/// The characters that switch the terminal to the highlight colour.
pub open spec fn highlight_open() -> Seq<char> {
    seq!['\x1b', '[', '3', '3', 'm']
}

/// The characters that reset the terminal's colours.
pub open spec fn highlight_close() -> Seq<char> {
    seq!['\x1b', '[', '0', 'm']
}

/// `text` between the two highlight markers.
pub open spec fn highlighted(text: Seq<char>) -> Seq<char> {
    highlight_open() + text + highlight_close()
}

/// `text`, highlighted if `marked`.
pub open spec fn styled(text: Seq<char>, marked: bool) -> Seq<char> {
    if marked {
        highlighted(text)
    } else {
        text
    }
}

/// Calls `ansi_term::Colour::paint` on `Yellow` and formats the painted
/// string. Trusted: a foreground-only style writes the escape `ESC [ 3 3 m`,
/// then the text unchanged, then the reset escape `ESC [ 0 m`.
#[verifier::external_body]
pub(crate) fn paint_yellow(text: &str) -> (painted: String)
    ensures
        painted@ == highlighted(text@),
{
    ansi_term::Color::Yellow.paint(text).to_string()
}

} // verus!
