//! The errors of the shell.

use vstd::prelude::*;

verus! {

/// Why an operation of the shell was refused.
#[derive(Clone, Copy, Debug, PartialEq, Eq, Structural)]
pub enum ShellError {
    /// The collection has no foreground tab.
    NoForeground,
    /// No tab stands at the position asked for.
    NoSuchBrowser,
    /// The only tab cannot be closed: a window keeps at least one.
    LastTab,
    /// The foreground tab is already the first one.
    AtFirstTab,
    /// The foreground tab is already the last one.
    AtLastTab,
    /// A history event names an entry that its list does not hold.
    BadHistoryIndex,
    /// Microdata was offered in a format other than `vcard` and `json`.
    UnknownMicrodataType,
}

impl ShellError {
    /// A short text for diagnostics.
    pub fn message(&self) -> (text: &'static str)
        ensures
            text@ == self.message_text(),
    {
        match self {
            ShellError::NoForeground => "No foreground browser",
            ShellError::NoSuchBrowser => "No such browser",
            ShellError::LastTab => "Can't close the last tab",
            ShellError::AtFirstTab => "Already on the first tab",
            ShellError::AtLastTab => "Already on the last tab",
            ShellError::BadHistoryIndex => "History index out of range",
            ShellError::UnknownMicrodataType => "Microdata type not passed as argument",
        }
    }

    pub open spec fn message_text(&self) -> Seq<char> {
        match self {
            ShellError::NoForeground => "No foreground browser"@,
            ShellError::NoSuchBrowser => "No such browser"@,
            ShellError::LastTab => "Can't close the last tab"@,
            ShellError::AtFirstTab => "Already on the first tab"@,
            ShellError::AtLastTab => "Already on the last tab"@,
            ShellError::BadHistoryIndex => "History index out of range"@,
            ShellError::UnknownMicrodataType => "Microdata type not passed as argument"@,
        }
    }
}

} // verus!
