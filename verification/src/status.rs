use crate::errors::KanbanError;
use vstd::prelude::*;

verus! {

/// Completion marker of a card: done, or not yet done.
#[derive(Debug, Clone, Copy, PartialEq, Eq, Structural)]
pub enum Status {
    Done,
    Incomplete,
}

impl Status {
    /// The single character that encodes this status in the text format.
    pub open spec fn to_char(self) -> char {
        match self {
            Status::Done => 'x',
            Status::Incomplete => ' ',
        }
    }

    /// Which status a single character decodes to; characters other than
    /// `x` and the space decode to no status at all.
    pub open spec fn spec_parse(c: char) -> Result<Status, KanbanError> {
        if c == 'x' {
            Ok(Status::Done)
        } else if c == ' ' {
            Ok(Status::Incomplete)
        } else {
            Err(KanbanError::InvalidStatusChar(c))
        }
    }

    /// Renders the status as its one-character text encoding.
    pub fn render(&self) -> (r: String)
        ensures
            r@ == seq![self.to_char()],
    {
        match self {
            Status::Done => {
                let s = "x".to_owned();
                proof {
                    reveal_strlit("x");
                    assert(s@ =~= seq!['x']);
                }
                s
            },
            Status::Incomplete => {
                let s = " ".to_owned();
                proof {
                    reveal_strlit(" ");
                    assert(s@ =~= seq![' ']);
                }
                s
            },
        }
    }

    /// Decodes a status character; fails with `InvalidStatusChar` on any
    /// character other than `x` and the space.
    pub fn parse(c: char) -> (r: Result<Status, KanbanError>)
        ensures
            r == Status::spec_parse(c),
    {
        if c == 'x' {
            Ok(Status::Done)
        } else if c == ' ' {
            Ok(Status::Incomplete)
        } else {
            Err(KanbanError::InvalidStatusChar(c))
        }
    }
}

impl Default for Status {
    /// A status defaults to `Incomplete`.
    fn default() -> (r: Self)
        ensures
            r == Status::Incomplete,
    {
        Status::Incomplete
    }
}

/// Law: decoding the character a status renders to gives the status back.
pub proof fn lemma_status_round_trip(s: Status)
    ensures
        Status::spec_parse(s.to_char()) == Ok::<Status, KanbanError>(s),
{
}

} // verus!
