//! The colours of the terminal output.
use vstd::prelude::*;

use crate::text::number;

verus! {

/// The escape codes of the terminal, or nothing where colours are off.
#[derive(Clone, Copy, Debug, PartialEq, Eq, Structural)]
pub struct Palette {
    pub enabled: bool,
}

impl Palette {
    /// A palette that is on where colours are not forced off, `NO_COLOR` is not set and the
    /// output goes to a terminal.
    pub fn new(force_off: bool, no_color_set: bool, is_terminal: bool) -> (p: Self)
        ensures
            p.enabled == (!force_off && !no_color_set && is_terminal),
    {
        Palette { enabled: !force_off && !no_color_set && is_terminal }
    }

    /// `s` where colours are on, else nothing.
    pub open spec fn paint(self, s: Seq<char>) -> Seq<char> {
        if self.enabled {
            s
        } else {
            ""@
        }
    }

    pub open spec fn reset_code(self) -> Seq<char> {
        self.paint("\x1b[0m"@)
    }

    pub open spec fn dim_code(self) -> Seq<char> {
        self.paint("\x1b[2m"@)
    }

    pub open spec fn bold_code(self) -> Seq<char> {
        self.paint("\x1b[1m"@)
    }

    pub open spec fn cyan_code(self) -> Seq<char> {
        self.paint("\x1b[36m"@)
    }

    pub open spec fn yellow_code(self) -> Seq<char> {
        self.paint("\x1b[33m"@)
    }

    pub open spec fn green_code(self) -> Seq<char> {
        self.paint("\x1b[32m"@)
    }

    fn code(&self, s: &'static str) -> (r: &'static str)
        ensures
            r@ == self.paint(s@),
    {
        if self.enabled {
            s
        } else {
            ""
        }
    }

    /// Back to the plain style.
    pub fn reset(&self) -> (r: &'static str)
        ensures
            r@ == self.reset_code(),
    {
        self.code("\x1b[0m")
    }

    pub fn dim(&self) -> (r: &'static str)
        ensures
            r@ == self.dim_code(),
    {
        self.code("\x1b[2m")
    }

    pub fn bold(&self) -> (r: &'static str)
        ensures
            r@ == self.bold_code(),
    {
        self.code("\x1b[1m")
    }

    pub fn cyan(&self) -> (r: &'static str)
        ensures
            r@ == self.cyan_code(),
    {
        self.code("\x1b[36m")
    }

    pub fn yellow(&self) -> (r: &'static str)
        ensures
            r@ == self.yellow_code(),
    {
        self.code("\x1b[33m")
    }

    pub fn green(&self) -> (r: &'static str)
        ensures
            r@ == self.green_code(),
    {
        self.code("\x1b[32m")
    }
}

/// With colours off no escape code is written.
pub proof fn law_no_codes_without_colour(p: Palette, s: Seq<char>)
    requires
        !p.enabled,
    ensures
        p.paint(s).len() == 0,
{
    reveal_strlit("");
}

/// The code that sets a style of the terminal, by its number.
pub open spec fn style(n: nat) -> Seq<char> {
    "\x1b["@ + number::decimal(n) + "m"@
}

/// Each style has the code of its number, and zero is that of the plain style.
pub proof fn law_styles_have_their_numbers(p: Palette)
    requires
        p.enabled,
    ensures
        p.reset_code() == style(0),
        p.bold_code() == style(1),
        p.dim_code() == style(2),
        p.green_code() == style(32),
        p.yellow_code() == style(33),
        p.cyan_code() == style(36),
{
    reveal_strlit("\x1b[");
    reveal_strlit("m");
    reveal_strlit("\x1b[0m");
    reveal_strlit("\x1b[1m");
    reveal_strlit("\x1b[2m");
    reveal_strlit("\x1b[32m");
    reveal_strlit("\x1b[33m");
    reveal_strlit("\x1b[36m");
    reveal_with_fuel(number::decimal, 3);
    assert(p.reset_code() =~= style(0));
    assert(p.bold_code() =~= style(1));
    assert(p.dim_code() =~= style(2));
    assert(p.green_code() =~= style(32));
    assert(p.yellow_code() =~= style(33));
    assert(p.cyan_code() =~= style(36));
}

} // verus!
