//! Style settings that drive layout decisions.

use vstd::prelude::*;

verus! {

/// How a method-call chain is broken across lines.
#[derive(Clone, Copy, PartialEq, Eq, Structural)]
pub enum MethodChainBreakingStyle {
    /// The first link stays on the line of the base; later links each
    /// start an indented line.
    SameLine,
    /// Every link starts an indented line; the base stands alone.
    NextLine,
}

/// Immutable formatting settings, created once per file.
#[derive(Clone, Copy)]
pub struct Settings {
    /// Soft maximum column; groups try to stay within it.
    pub print_width: u16,
    /// Number of spaces per indentation level (or the width one tab
    /// stands for).
    pub tab_width: u8,
    /// Indent with tab characters instead of spaces.
    pub use_tabs: bool,
    /// Append a comma to the last element of a parameter list that is
    /// rendered across several lines.
    pub trailing_comma: bool,
    /// Break a parameter list that declares promoted properties.
    pub break_promoted_properties_list: bool,
    /// See `MethodChainBreakingStyle`.
    pub method_chain_breaking_style: MethodChainBreakingStyle,
}

impl Settings {
    /// The default style: width 120, four spaces per indent, trailing
    /// commas on, promoted property lists broken, chains broken after
    /// the first link.
    pub fn standard() -> (r: Settings)
        ensures
            r.print_width == 120,
            r.tab_width == 4,
            !r.use_tabs,
            r.trailing_comma,
            r.break_promoted_properties_list,
            r.method_chain_breaking_style == MethodChainBreakingStyle::SameLine,
    {
        Settings {
            print_width: 120,
            tab_width: 4,
            use_tabs: false,
            trailing_comma: true,
            break_promoted_properties_list: true,
            method_chain_breaking_style: MethodChainBreakingStyle::SameLine,
        }
    }
}

} // verus!
