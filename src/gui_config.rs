//! Theme choice of the user interface.
use vstd::prelude::*;

verus! {

/// A built-in theme.
#[derive(Debug, Clone, Copy, PartialEq, Eq, Structural)]
pub enum ThemeTemplate {
    Egui,
    Mocha,
    Macchiato,
    Latte,
    Frappe,
}

/// A Catppuccin palette.
#[derive(Debug, Clone, Copy, PartialEq, Eq, Structural)]
pub enum Flavor {
    Mocha,
    Macchiato,
    Latte,
    Frappe,
}

impl Default for ThemeTemplate {
    fn default() -> (r: ThemeTemplate)
        ensures
            r == ThemeTemplate::Frappe,
    {
        ThemeTemplate::Frappe
    }
}

impl ThemeTemplate {
    /// The palette to install, or `None` to keep the toolkit's own look.
    pub fn flavor(&self) -> (r: Option<Flavor>)
        ensures
            *self == ThemeTemplate::Egui <==> r is None,
            *self == ThemeTemplate::Mocha ==> r == Some(Flavor::Mocha),
            *self == ThemeTemplate::Macchiato ==> r == Some(Flavor::Macchiato),
            *self == ThemeTemplate::Latte ==> r == Some(Flavor::Latte),
            *self == ThemeTemplate::Frappe ==> r == Some(Flavor::Frappe),
    {
        match self {
            ThemeTemplate::Egui => None,
            ThemeTemplate::Mocha => Some(Flavor::Mocha),
            ThemeTemplate::Macchiato => Some(Flavor::Macchiato),
            ThemeTemplate::Latte => Some(Flavor::Latte),
            ThemeTemplate::Frappe => Some(Flavor::Frappe),
        }
    }
}

} // verus!
