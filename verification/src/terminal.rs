//! Terminal emulator selection.
//!
//! A configured terminal is one of a few known emulators or a custom
//! program name. Mapping a choice to its command name is pure and lives
//! here; looking the name up on the search path, and checking that a
//! custom name exists at all, are the surrounding binary's work.

use vstd::prelude::*;

verus! {

/// A terminal emulator choice.
#[derive(Debug)]
pub enum Terminal {
    Alacritty,
    Foot,
    Ghostty,
    Kitty,
    Xterm,
    Custom(String),
}

/// Mathematical model of a terminal choice.
#[verifier::ext_equal]
pub ghost enum TerminalView {
    Alacritty,
    Foot,
    Ghostty,
    Kitty,
    Xterm,
    Custom(Seq<char>),
}

impl View for Terminal {
    type V = TerminalView;

    open spec fn view(&self) -> TerminalView {
        match self {
            Terminal::Alacritty => TerminalView::Alacritty,
            Terminal::Foot => TerminalView::Foot,
            Terminal::Ghostty => TerminalView::Ghostty,
            Terminal::Kitty => TerminalView::Kitty,
            Terminal::Xterm => TerminalView::Xterm,
            Terminal::Custom(s) => TerminalView::Custom(s@),
        }
    }
}

impl Clone for Terminal {
    fn clone(&self) -> (res: Self)
        ensures
            res@ == self@,
    {
        match self {
            Terminal::Alacritty => Terminal::Alacritty,
            Terminal::Foot => Terminal::Foot,
            Terminal::Ghostty => Terminal::Ghostty,
            Terminal::Kitty => Terminal::Kitty,
            Terminal::Xterm => Terminal::Xterm,
            Terminal::Custom(s) => Terminal::Custom(s.clone()),
        }
    }
}

/// The command name a terminal choice denotes, before any search-path
/// lookup.
pub open spec fn terminal_name(t: TerminalView) -> Seq<char> {
    match t {
        TerminalView::Alacritty => "alacritty"@,
        TerminalView::Foot => "foot"@,
        TerminalView::Ghostty => "ghostty"@,
        TerminalView::Kitty => "kitty"@,
        TerminalView::Xterm => "xterm"@,
        TerminalView::Custom(s) => s,
    }
}

/// The command name of a terminal choice. Whether that name resolves to
/// an executable on the search path is checked outside, once at
/// startup.
pub fn command_name(term: &Terminal) -> (r: String)
    ensures
        r@ == terminal_name(term@),
{
    match term {
        Terminal::Alacritty => "alacritty".to_owned(),
        Terminal::Foot => "foot".to_owned(),
        Terminal::Ghostty => "ghostty".to_owned(),
        Terminal::Kitty => "kitty".to_owned(),
        Terminal::Xterm => "xterm".to_owned(),
        Terminal::Custom(s) => s.clone(),
    }
}

} // verus!
