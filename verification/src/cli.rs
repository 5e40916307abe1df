//! Command-line interface, modeled on powerline-go: the statusLine command in
//! host application's settings carries these flags. Parsing the argument list
//! is the caller's job; this is what it produces.

use vstd::prelude::*;

use crate::segments::{default_list_text, Module};
use crate::text::push_str;

verus! {

#[derive(Debug, Clone)]
pub struct Cli {
    /// Comma-separated segments to render, in order
    pub modules: String,
    /// Comma-separated segments pinned to the right edge of the terminal
    pub modules_right: String,
    /// Color theme
    pub theme: String,
    /// Separator style: patched (nerd font), compatible (plain Unicode), flat
    pub mode: String,
    /// Disable the OSC 9;4 terminal progress bar
    pub no_progress: bool,
    /// Terminal width override (default: $COLUMNS, then the parent TTY)
    pub width: Option<usize>,
}

impl Default for Cli {
    /// The documented defaults: every module on the left, none on the
    /// right, catppuccin-mocha, patched separators, progress on, no width.
    fn default() -> (c: Cli)
        ensures
            c.modules@ == default_list_text(),
            c.modules_right@ == Seq::<char>::empty(),
            c.theme@ == "catppuccin-mocha"@,
            c.mode@ == "patched"@,
            !c.no_progress,
            c.width is None,
    {
        let mut theme = String::new();
        push_str(&mut theme, "catppuccin-mocha");
        let mut mode = String::new();
        push_str(&mut mode, "patched");
        Cli {
            modules: Module::default_list(),
            modules_right: String::new(),
            theme,
            mode,
            no_progress: false,
            width: None,
        }
    }
}

} // verus!
