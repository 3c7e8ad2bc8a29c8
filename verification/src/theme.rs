//! Themes the user can pick.

use vstd::prelude::*;

verus! {

/// User-selectable UI theme.
#[derive(Clone, Copy, PartialEq, Eq, Structural, Debug)]
pub enum ThemeMode {
    Dark,
    Light,
    System,
}

impl Default for ThemeMode {
    /// Follow the system.
    fn default() -> (r: Self)
        ensures
            r == ThemeMode::System,
    {
        ThemeMode::System
    }
}

pub open spec fn theme_label_spec(m: ThemeMode) -> Seq<char> {
    match m {
        ThemeMode::Dark => "🌙  Тёмная"@,
        ThemeMode::Light => "☀️  Светлая"@,
        ThemeMode::System => "💻  Системная"@,
    }
}

impl ThemeMode {
    /// All modes, in menu order.
    pub const ALL: [ThemeMode; 3] = [ThemeMode::Dark, ThemeMode::Light, ThemeMode::System];

    /// Menu label of the mode.
    pub fn label(self) -> (r: &'static str)
        ensures
            r@ == theme_label_spec(self),
    {
        match self {
            ThemeMode::Dark => "🌙  Тёмная",
            ThemeMode::Light => "☀️  Светлая",
            ThemeMode::System => "💻  Системная",
        }
    }
}

} // verus!
