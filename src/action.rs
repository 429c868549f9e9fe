use vstd::prelude::*;

verus! {

/// An intent produced by a panel and delivered to every panel.
#[derive(Clone, Debug)]
pub enum Action {
    /// Open chapter `chapter` of `book` in the reading pane.
    OpenPassage { book: String, chapter: u16 },
    /// Move the cursor by this many rows.
    MoveRow(i32),
    /// Move the cursor by this many columns.
    MoveCol(i32),
    /// Enter or leave visual (selection) mode.
    ToggleVisual,
    /// Copy the current selection.
    Yank,
    /// The copy asked for by `Yank` reached the clipboard.
    Yanked,
}

/// A key press, with modifiers already dropped.
#[derive(Clone, Copy, Debug, PartialEq, Eq)]
pub enum Key {
    Char(char),
    Up,
    Down,
    Left,
    Right,
    Esc,
    Enter,
    Backspace,
    Other,
}

} // verus!
