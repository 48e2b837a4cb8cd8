use crate::card::Card;
use crate::card::CardView;
use crate::errors::KanbanError;
use crate::grammar::assemble_card;
use crate::grammar::card_of;
use crate::grammar::card_start_here;
use crate::grammar::comment_start_here;
use crate::grammar::heading_start_here;
use crate::grammar::is_card_start;
use crate::grammar::is_comment_start;
use crate::grammar::is_heading_start;
use crate::grammar::is_rule_line;
use crate::grammar::parse_card_fields;
use crate::grammar::rule_line_here;
use crate::grammar::spec_parse_card;
use crate::grammar::spec_trim;
use crate::grammar::trim_str;
use vstd::prelude::*;

verus! {

/// The mathematical value of a board: the column names in document
/// order, and the cards in insertion order.
#[verifier::ext_equal]
pub ghost struct KanbanView {
    pub columns: Seq<Seq<char>>,
    pub cards: Seq<CardView>,
}

/// The task board: an ordered list of column names and a list of cards.
/// Columns may repeat; a card can be added only while its column is on
/// the board.
#[derive(Debug, PartialEq)]
pub struct Kanban {
    columns: Vec<String>,
    cards: Vec<Card>,
}

impl View for Kanban {
    type V = KanbanView;

    closed spec fn view(&self) -> KanbanView {
        KanbanView { columns: self.columns.deep_view(), cards: self.cards.deep_view() }
    }
}

// ---------------------------------------------------------------------
// The document grammar, as a specification
// ---------------------------------------------------------------------

/// Where the parsing automaton stands between two lines.
#[derive(Debug, Clone, Copy, PartialEq, Eq, Structural)]
pub enum ParseMode {
    /// before the first line: an opening `---` would begin frontmatter
    Start,
    /// inside the frontmatter block: lines are ignored until a `---`
    Front,
    /// in the document body
    Body,
}

/// The parsing automaton's state: the mode, the current column if a
/// heading was seen, what was accumulated, and the next line's index.
pub ghost struct ParseSt {
    pub mode: ParseMode,
    pub cur: Option<Seq<char>>,
    pub columns: Seq<Seq<char>>,
    pub cards: Seq<CardView>,
    pub line_no: int,
}

/// The first position at or after `i` that holds a newline, or the
/// length of `s` if none does.
pub open spec fn first_nl_from(s: Seq<char>, i: int) -> int
    recommends
        0 <= i <= s.len(),
    decreases s.len() - i when 0 <= i <= s.len()
{
    if i >= s.len() {
        s.len() as int
    } else if s[i] == '\n' {
        i
    } else {
        first_nl_from(s, i + 1)
    }
}

/// Where the first line of `s` ends: the first newline, or the end of
/// `s`. Kept within bounds so that recursion over the rest terminates.
pub open spec fn line_end(s: Seq<char>) -> int {
    let k = first_nl_from(s, 0);
    if 0 <= k <= s.len() {
        k
    } else {
        s.len() as int
    }
}

/// A position with no newline before it (from `i` on) and a newline, or
/// the end, at it, is where `first_nl_from` lands.
proof fn lemma_first_nl_from(s: Seq<char>, i: int, k: int)
    requires
        0 <= i <= k <= s.len(),
        forall|j: int| i <= j < k ==> s[j] != '\n',
        k == s.len() || s[k] == '\n',
    ensures
        first_nl_from(s, i) == k,
    decreases k - i,
{
    if i < k {
        lemma_first_nl_from(s, i + 1, k);
    }
}

/// The same characterization for `line_end`.
pub proof fn lemma_line_end(s: Seq<char>, k: int)
    requires
        0 <= k <= s.len(),
        forall|j: int| 0 <= j < k ==> s[j] != '\n',
        k == s.len() || s[k] == '\n',
    ensures
        line_end(s) == k,
{
    lemma_first_nl_from(s, 0, k);
}

/// What parsing the remaining text from a given state yields. The text
/// is walked line by line: an opening `---` as the very first line
/// begins an ignored frontmatter block that a later `---` closes; a
/// `%%` line ends the document; a `## ` line registers a column and
/// makes it current; a `- [` line must match the card production and
/// needs a current column; every other line is skipped.
pub open spec fn spec_parse_lines(s: Seq<char>, st: ParseSt) -> Result<KanbanView, KanbanError>
    decreases s.len(),
{
    if s.len() == 0 {
        Ok(KanbanView { columns: st.columns, cards: st.cards })
    } else {
        let k = line_end(s);
        let line = s.subrange(0, k);
        let rest = if k < s.len() {
            s.subrange(k + 1, s.len() as int)
        } else {
            Seq::<char>::empty()
        };
        if st.mode is Start && is_rule_line(line) {
            spec_parse_lines(
                rest,
                ParseSt { mode: ParseMode::Front, line_no: st.line_no + 1, ..st },
            )
        } else if st.mode is Front {
            if is_rule_line(line) {
                spec_parse_lines(
                    rest,
                    ParseSt { mode: ParseMode::Body, line_no: st.line_no + 1, ..st },
                )
            } else {
                spec_parse_lines(rest, ParseSt { line_no: st.line_no + 1, ..st })
            }
        } else if is_comment_start(line) {
            Ok(KanbanView { columns: st.columns, cards: st.cards })
        } else if is_heading_start(line) {
            let name = spec_trim(line.subrange(3, line.len() as int));
            spec_parse_lines(
                rest,
                ParseSt {
                    mode: ParseMode::Body,
                    cur: Some(name),
                    columns: st.columns.push(name),
                    line_no: st.line_no + 1,
                    ..st
                },
            )
        } else if is_card_start(line) {
            match spec_parse_card(line, st.line_no) {
                Err(e) => Err(e),
                Ok(f) => match st.cur {
                    None => Err(KanbanError::MissingColumnBeforeCard),
                    Some(col) => spec_parse_lines(
                        rest,
                        ParseSt {
                            mode: ParseMode::Body,
                            cards: st.cards.push(card_of(col, f)),
                            line_no: st.line_no + 1,
                            ..st
                        },
                    ),
                },
            }
        } else {
            spec_parse_lines(rest, ParseSt { mode: ParseMode::Body, line_no: st.line_no + 1, ..st })
        }
    }
}

/// The state parsing starts from: nothing seen yet.
pub open spec fn initial_parse_state() -> ParseSt {
    ParseSt {
        mode: ParseMode::Start,
        cur: None,
        columns: Seq::<Seq<char>>::empty(),
        cards: Seq::<CardView>::empty(),
        line_no: 0,
    }
}

/// What parsing a whole document yields.
pub open spec fn spec_parse(s: Seq<char>) -> Result<KanbanView, KanbanError> {
    spec_parse_lines(s, initial_parse_state())
}

// ---------------------------------------------------------------------
// Executable helpers
// ---------------------------------------------------------------------

fn find_line_end(s: &str, i: usize, n: usize) -> (j: usize)
    requires
        n == s@.len(),
        i <= n,
    ensures
        i <= j <= n,
        forall|k: int| i <= k < j ==> s@[k] != '\n',
        j == n || s@[j as int] == '\n',
{
    let mut t = i;
    while t < n
        invariant
            i <= t <= n,
            n == s@.len(),
            forall|k: int| i <= k < t ==> s@[k] != '\n',
        decreases n - t,
    {
        if s.get_char(t) == '\n' {
            return t;
        }
        t = t + 1;
    }
    n
}

// ---------------------------------------------------------------------
// The board
// ---------------------------------------------------------------------

impl Kanban {
    /// Creates a board pre-populated with the given columns and no card.
    pub fn new(columns: &[&str]) -> (r: Self)
        ensures
            r@.columns == columns.deep_view(),
            r@.cards == Seq::<CardView>::empty(),
    {
        let mut cols: Vec<String> = Vec::new();
        let mut i: usize = 0;
        while i < columns.len()
            invariant
                i <= columns.len(),
                cols@.len() == i,
                forall|j: int| 0 <= j < i ==> cols@[j]@ == columns@[j]@,
            decreases columns.len() - i,
        {
            cols.push(columns[i].to_owned());
            i = i + 1;
        }
        let r = Kanban { columns: cols, cards: Vec::new() };
        proof {
            assert(r@.columns =~= columns.deep_view());
            assert(r@.cards =~= Seq::<CardView>::empty());
        }
        r
    }

    /// The column names, in document order.
    pub fn columns(&self) -> (r: &Vec<String>)
        ensures
            r.deep_view() == self@.columns,
    {
        &self.columns
    }

    /// The cards, in insertion order.
    pub fn cards(&self) -> (r: &Vec<Card>)
        ensures
            r.deep_view() == self@.cards,
    {
        &self.cards
    }

    /// Appends a column. Nothing is checked: duplicates are permitted,
    /// and the call always succeeds.
    pub fn add_column(&mut self, name: String) -> (r: Result<(), KanbanError>)
        ensures
            r == Ok::<(), KanbanError>(()),
            final(self)@.columns == old(self)@.columns.push(name@),
            final(self)@.cards == old(self)@.cards,
    {
        let ghost before = self@.columns;
        self.columns.push(name);
        proof {
            assert(self@.columns =~= before.push(name@));
        }
        Ok(())
    }

    /// Whether the named column is on the board.
    fn has_column(&self, column: &String) -> (r: Result<(), KanbanError>)
        ensures
            r is Ok <==> self@.columns.contains(column@),
            r is Err ==> r == Err::<(), KanbanError>(KanbanError::ColumnNotFound),
    {
        let mut i: usize = 0;
        while i < self.columns.len()
            invariant
                i <= self.columns.len(),
                forall|j: int| 0 <= j < i ==> self@.columns[j] != column@,
            decreases self.columns.len() - i,
        {
            if self.columns[i] == *column {
                proof {
                    assert(self@.columns[i as int] == column@);
                }
                return Ok(());
            }
            i = i + 1;
        }
        proof {
            assert(forall|j: int| 0 <= j < self@.columns.len() ==> self@.columns[j] != column@);
        }
        Err(KanbanError::ColumnNotFound)
    }

    /// Appends a card, provided its column is currently on the board;
    /// fails with `ColumnNotFound`, the board unchanged, exactly when it
    /// is not. Duplicates are permitted.
    pub fn add_card(&mut self, card: &Card) -> (r: Result<(), KanbanError>)
        ensures
            old(self)@.columns.contains(card@.column) ==> r == Ok::<(), KanbanError>(())
                && final(self)@.columns == old(self)@.columns
                && final(self)@.cards == old(self)@.cards.push(card@),
            !old(self)@.columns.contains(card@.column) ==> r == Err::<(), KanbanError>(
                KanbanError::ColumnNotFound,
            ) && *final(self) == *old(self),
    {
        match self.has_column(card.column()) {
            Ok(()) => {
                let ghost before = self@.cards;
                self.cards.push(card.clone());
                proof {
                    assert(self@.cards =~= before.push(card@));
                }
                Ok(())
            },
            Err(e) => Err(e),
        }
    }

    /// Relocates to `to` every card structurally equal to `card`, and no
    /// other; with no match the call still succeeds and changes nothing.
    /// Fails with `ColumnNotFound`, all cards unchanged, exactly when
    /// `to` is not on the board.
    pub fn move_card(&mut self, to: &String, card: Card) -> (r: Result<(), KanbanError>)
        ensures
            !old(self)@.columns.contains(to@) ==> r == Err::<(), KanbanError>(
                KanbanError::ColumnNotFound,
            ) && *final(self) == *old(self),
            old(self)@.columns.contains(to@) ==> r == Ok::<(), KanbanError>(())
                && final(self)@.columns == old(self)@.columns
                && final(self)@.cards.len() == old(self)@.cards.len()
                && (forall|i: int|
                0 <= i < old(self)@.cards.len() ==> final(self)@.cards[i] == (if old(self)@.cards[i]
                    == card@ {
                    (CardView { column: to@, ..old(self)@.cards[i] })
                } else {
                    old(self)@.cards[i]
                })),
    {
        match self.has_column(to) {
            Err(e) => {
                return Err(e);
            },
            Ok(()) => {},
        }
        let n = self.cards.len();
        let mut i: usize = 0;
        while i < n
            invariant
                i <= n,
                n == self.cards@.len(),
                self.columns == old(self).columns,
                n == old(self).cards@.len(),
                forall|j: int|
                    0 <= j < i ==> self.cards@[j]@ == (if old(self).cards@[j]@ == card@ {
                        (CardView { column: to@, ..old(self).cards@[j]@ })
                    } else {
                        old(self).cards@[j]@
                    }),
                forall|j: int| i <= j < n ==> self.cards@[j] == old(self).cards@[j],
            decreases n - i,
        {
            if self.cards[i] == card {
                self.cards[i].move_to(to.as_str());
            }
            i = i + 1;
        }
        Ok(())
    }

    /// Parses a whole document into a fresh board, or fails with the
    /// first error; no partial board is ever returned.
    pub fn parse(input: &str) -> (r: Result<Kanban, KanbanError>)
        ensures
            match r {
                Ok(kb) => spec_parse(input@) == Ok::<KanbanView, KanbanError>(kb@),
                Err(e) => spec_parse(input@) == Err::<KanbanView, KanbanError>(e),
            },
    {
        let n = input.unicode_len();
        let mut columns: Vec<String> = Vec::new();
        let mut cards: Vec<Card> = Vec::new();
        let mut cur: Option<String> = None;
        let mut mode: ParseMode = ParseMode::Start;
        let mut line_no: usize = 0;
        let mut i: usize = 0;
        proof {
            assert(columns.deep_view() =~= Seq::<Seq<char>>::empty());
            assert(cards.deep_view() =~= Seq::<CardView>::empty());
            assert(input@.subrange(0, n as int) =~= input@);
        }
        while i < n
            invariant
                i <= n,
                n == input@.len(),
                line_no <= i,
                spec_parse_lines(
                    input@.subrange(i as int, n as int),
                    ParseSt {
                        mode: mode,
                        cur: cur.deep_view(),
                        columns: columns.deep_view(),
                        cards: cards.deep_view(),
                        line_no: line_no as int,
                    },
                ) == spec_parse(input@),
            decreases n - i,
        {
            let ghost suffix = input@.subrange(i as int, n as int);
            let j = find_line_end(input, i, n);
            let line = input.substring_char(i, j);
            let ln = j - i;
            proof {
                assert forall|k: int| 0 <= k < ln implies suffix[k] != '\n' by {
                    assert(suffix[k] == input@[i + k]);
                }
                if ln < suffix.len() {
                    assert(suffix[ln as int] == input@[j as int]);
                }
                lemma_line_end(suffix, ln as int);
                assert(line@ =~= suffix.subrange(0, ln as int));
                if j < n {
                    assert(suffix.subrange(ln + 1, suffix.len() as int) =~= input@.subrange(
                        j + 1,
                        n as int,
                    ));
                } else {
                    assert(input@.subrange(n as int, n as int) =~= Seq::<char>::empty());
                }
            }
            if mode == ParseMode::Start && rule_line_here(line, ln) {
                mode = ParseMode::Front;
            } else if mode == ParseMode::Front {
                if rule_line_here(line, ln) {
                    mode = ParseMode::Body;
                }
            } else if comment_start_here(line, ln) {
                let r = Kanban { columns, cards };
                return Ok(r);
            } else if heading_start_here(line, ln) {
                let name = trim_str(line.substring_char(3, ln));
                proof {
                    assert(name@ == spec_trim(line@.subrange(3, line@.len() as int)));
                }
                let ghost cols_before = columns.deep_view();
                columns.push(name.clone());
                cur = Some(name);
                mode = ParseMode::Body;
                proof {
                    assert(columns.deep_view() =~= cols_before.push(cur.deep_view()->0));
                }
            } else if card_start_here(line, ln) {
                match parse_card_fields(line, line_no) {
                    Err(e) => {
                        return Err(e);
                    },
                    Ok((status, title, date, time)) => match &cur {
                        None => {
                            return Err(KanbanError::MissingColumnBeforeCard);
                        },
                        Some(col) => {
                            let c = assemble_card(col.as_str(), status, title, date, time);
                            let ghost cards_before = cards.deep_view();
                            cards.push(c);
                            mode = ParseMode::Body;
                            proof {
                                assert(cards.deep_view() =~= cards_before.push(
                                    card_of(
                                        cur.deep_view()->0,
                                        spec_parse_card(line@, line_no as int)->Ok_0,
                                    ),
                                ));
                            }
                        },
                    },
                }
            } else {
                mode = ParseMode::Body;
            }
            i = if j < n {
                j + 1
            } else {
                n
            };
            line_no = line_no + 1;
        }
        proof {
            assert(input@.subrange(n as int, n as int) =~= Seq::<char>::empty());
        }
        let r = Kanban { columns, cards };
        Ok(r)
    }
}

fn clone_string_vec(v: &Vec<String>) -> (r: Vec<String>)
    ensures
        r.deep_view() == v.deep_view(),
{
    let mut r: Vec<String> = Vec::new();
    let mut i: usize = 0;
    while i < v.len()
        invariant
            i <= v.len(),
            r@.len() == i,
            forall|j: int| 0 <= j < i ==> r@[j]@ == v@[j]@,
        decreases v.len() - i,
    {
        r.push(v[i].clone());
        i = i + 1;
    }
    proof {
        assert(r.deep_view() =~= v.deep_view());
    }
    r
}

fn clone_card_vec(v: &Vec<Card>) -> (r: Vec<Card>)
    ensures
        r.deep_view() == v.deep_view(),
{
    let mut r: Vec<Card> = Vec::new();
    let mut i: usize = 0;
    while i < v.len()
        invariant
            i <= v.len(),
            r@.len() == i,
            forall|j: int| 0 <= j < i ==> r@[j] == v@[j],
        decreases v.len() - i,
    {
        r.push(v[i].clone());
        i = i + 1;
    }
    proof {
        assert(r.deep_view() =~= v.deep_view());
    }
    r
}

impl Clone for Kanban {
    /// Clones the board; the columns and the cards keep their values.
    fn clone(&self) -> (r: Self)
        ensures
            r@ == self@,
    {
        Kanban { columns: clone_string_vec(&self.columns), cards: clone_card_vec(&self.cards) }
    }
}

impl Default for Kanban {
    /// A board defaults to no columns and no cards.
    fn default() -> (r: Self)
        ensures
            r@.columns == Seq::<Seq<char>>::empty(),
            r@.cards == Seq::<CardView>::empty(),
    {
        let r = Kanban { columns: Vec::new(), cards: Vec::new() };
        proof {
            assert(r@.columns =~= Seq::<Seq<char>>::empty());
            assert(r@.cards =~= Seq::<CardView>::empty());
        }
        r
    }
}

} // verus!
