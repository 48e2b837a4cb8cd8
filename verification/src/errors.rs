use vstd::prelude::*;

verus! {

/// A required builder field that was left unset.
#[derive(Debug, Clone, Copy, PartialEq, Eq, Structural)]
pub enum Field {
    Column,
    Title,
}

/// A position in a document: zero-based line index and zero-based column,
/// both counted in characters.
#[derive(Debug, Clone, Copy, PartialEq, Eq, Structural)]
pub struct Pos {
    pub line: usize,
    pub col: usize,
}

/// What the grammar expected at the position where matching failed.
#[derive(Debug, Clone, Copy, PartialEq, Eq, Structural)]
pub enum Expected {
    /// the opening `- [` of a card line
    CardStart,
    /// the status character between the brackets
    StatusChar,
    /// the closing `]` after the status character
    CloseBracket,
    /// the space after the closing bracket
    SpaceAfterBracket,
    /// a date of shape `YYYY-MM-DD`
    Date,
    /// a time of shape `HH:MM`
    Time,
    /// the closing brace of an annotation
    CloseBrace,
    /// the end of the card line
    LineEnd,
}

/// Everything that can go wrong building a card or a board, or parsing a
/// document.
#[derive(Debug, Clone, Copy, PartialEq, Eq, Structural)]
pub enum KanbanError {
    /// a card referred to a column that is not on the board
    ColumnNotFound,
    /// the builder was finished without a required field
    MissingField(Field),
    /// a status marker that is neither `x` nor a space
    InvalidStatusChar(char),
    /// a card line stood before the first column heading
    MissingColumnBeforeCard,
    /// a line began like a structural production but did not match it
    GrammarMismatch(Pos, Expected),
}

} // verus!
