use crate::card::spec_render_card;
use crate::card::Card;
use crate::card::CardBuilder;
use crate::card::CardView;
use crate::errors::Expected;
use crate::errors::KanbanError;
use crate::errors::Pos;
use crate::status::Status;
use vstd::prelude::*;

verus! {

/// Recognizer of the board's text grammar: column headings, card lines,
/// and the date and time annotations inside a card line.
pub struct KanbanParser;

/// The fields a card line carries: everything of a card except the owning
/// column, which comes from the surrounding document.
#[verifier::ext_equal]
pub ghost struct CardFields {
    pub status: Status,
    pub title: Seq<char>,
    pub date: Option<Seq<char>>,
    pub time: Option<Seq<char>>,
}

// ---------------------------------------------------------------------
// Character classes and annotation shapes
// ---------------------------------------------------------------------

/// An ASCII decimal digit.
pub open spec fn spec_is_digit(c: char) -> bool {
    '0' <= c && c <= '9'
}

/// A space or a tab: what trimming a heading removes.
pub open spec fn is_blank_char(c: char) -> bool {
    c == ' ' || c == '\t'
}

/// The shape of a date annotation's content: `YYYY-MM-DD`.
pub open spec fn is_date_seq(s: Seq<char>) -> bool {
    &&& s.len() == 10
    &&& spec_is_digit(s[0])
    &&& spec_is_digit(s[1])
    &&& spec_is_digit(s[2])
    &&& spec_is_digit(s[3])
    &&& s[4] == '-'
    &&& spec_is_digit(s[5])
    &&& spec_is_digit(s[6])
    &&& s[7] == '-'
    &&& spec_is_digit(s[8])
    &&& spec_is_digit(s[9])
}

/// The shape of a time annotation's content: `HH:MM`.
pub open spec fn is_time_seq(s: Seq<char>) -> bool {
    &&& s.len() == 5
    &&& spec_is_digit(s[0])
    &&& spec_is_digit(s[1])
    &&& s[2] == ':'
    &&& spec_is_digit(s[3])
    &&& spec_is_digit(s[4])
}

// ---------------------------------------------------------------------
// Line shapes
// ---------------------------------------------------------------------

/// A line that opens a card: it begins with `- [`.
pub open spec fn is_card_start(l: Seq<char>) -> bool {
    l.len() >= 3 && l[0] == '-' && l[1] == ' ' && l[2] == '['
}

/// A line that is a column heading: it begins with `## `.
pub open spec fn is_heading_start(l: Seq<char>) -> bool {
    l.len() >= 3 && l[0] == '#' && l[1] == '#' && l[2] == ' '
}

/// A line that opens the ignored trailing block: it begins with `%%`.
pub open spec fn is_comment_start(l: Seq<char>) -> bool {
    l.len() >= 2 && l[0] == '%' && l[1] == '%'
}

/// A line consisting solely of `---`: the frontmatter delimiter.
pub open spec fn is_rule_line(l: Seq<char>) -> bool {
    l.len() == 3 && l[0] == '-' && l[1] == '-' && l[2] == '-'
}

// ---------------------------------------------------------------------
// Annotation markers
// ---------------------------------------------------------------------

/// A date annotation opens at `i`: ` @{` stands there.
pub open spec fn date_marker_at(s: Seq<char>, i: int) -> bool {
    &&& 0 <= i
    &&& i + 3 <= s.len()
    &&& s[i] == ' '
    &&& s[i + 1] == '@'
    &&& s[i + 2] == '{'
}

/// A time annotation opens at `i`: ` @@{` stands there.
pub open spec fn time_marker_at(s: Seq<char>, i: int) -> bool {
    &&& 0 <= i
    &&& i + 4 <= s.len()
    &&& s[i] == ' '
    &&& s[i + 1] == '@'
    &&& s[i + 2] == '@'
    &&& s[i + 3] == '{'
}

/// Either annotation opens at `i`.
pub open spec fn marker_at(s: Seq<char>, i: int) -> bool {
    date_marker_at(s, i) || time_marker_at(s, i)
}

/// The first position at or after `i` where an annotation opens, or the
/// length of `s` if none does.
pub open spec fn first_marker_from(s: Seq<char>, i: int) -> int
    recommends
        0 <= i <= s.len(),
    decreases s.len() - i when 0 <= i <= s.len()
{
    if i >= s.len() {
        s.len() as int
    } else if marker_at(s, i) {
        i
    } else {
        first_marker_from(s, i + 1)
    }
}

/// A position with no marker before it (from `i` on) and a marker, or the
/// end, at it, is where `first_marker_from` lands.
pub proof fn lemma_first_marker_from(s: Seq<char>, i: int, k: int)
    requires
        0 <= i <= k <= s.len(),
        forall|j: int| i <= j < k ==> !marker_at(s, j),
        k == s.len() || marker_at(s, k),
    ensures
        first_marker_from(s, i) == k,
    decreases k - i,
{
    if i < k {
        lemma_first_marker_from(s, i + 1, k);
    }
}

// ---------------------------------------------------------------------
// Trimming
// ---------------------------------------------------------------------

/// `s` without its leading blanks.
pub open spec fn trim_front(s: Seq<char>) -> Seq<char>
    decreases s.len(),
{
    if s.len() > 0 && is_blank_char(s[0]) {
        trim_front(s.drop_first())
    } else {
        s
    }
}

/// `s` without its trailing blanks.
pub open spec fn trim_back(s: Seq<char>) -> Seq<char>
    decreases s.len(),
{
    if s.len() > 0 && is_blank_char(s[s.len() - 1]) {
        trim_back(s.drop_last())
    } else {
        s
    }
}

/// `s` without leading and trailing blanks.
pub open spec fn spec_trim(s: Seq<char>) -> Seq<char> {
    trim_back(trim_front(s))
}

proof fn lemma_trim_front_range(s: Seq<char>, lo: int)
    requires
        0 <= lo <= s.len(),
        forall|j: int| 0 <= j < lo ==> is_blank_char(s[j]),
        lo == s.len() || !is_blank_char(s[lo]),
    ensures
        trim_front(s) =~= s.subrange(lo, s.len() as int),
    decreases lo,
{
    if lo == 0 {
    } else {
        lemma_trim_front_range(s.drop_first(), lo - 1);
        assert(s.drop_first().subrange(lo - 1, s.drop_first().len() as int) =~= s.subrange(
            lo,
            s.len() as int,
        ));
    }
}

proof fn lemma_trim_back_range(s: Seq<char>, hi: int)
    requires
        0 <= hi <= s.len(),
        forall|j: int| hi <= j < s.len() ==> is_blank_char(s[j]),
        hi == 0 || !is_blank_char(s[hi - 1]),
    ensures
        trim_back(s) =~= s.subrange(0, hi),
    decreases s.len() - hi,
{
    if hi == s.len() {
    } else {
        lemma_trim_back_range(s.drop_last(), hi);
        assert(s.drop_last().subrange(0, hi) =~= s.subrange(0, hi));
    }
}

// ---------------------------------------------------------------------
// The card-line grammar, as a specification
// ---------------------------------------------------------------------

/// What parsing a time annotation that opens at `q` and must close the
/// line yields: the `HH:MM` content, or the grammar error.
pub open spec fn spec_parse_time_tail(line: Seq<char>, q: int, line_no: int) -> Result<
    Seq<char>,
    KanbanError,
>
    recommends
        0 <= q,
{
    if q + 9 > line.len() || !is_time_seq(line.subrange(q + 4, q + 9)) {
        Err(
            KanbanError::GrammarMismatch(
                Pos { line: line_no as usize, col: q as usize },
                Expected::Time,
            ),
        )
    } else if q + 10 > line.len() || line[q + 9] != '}' {
        Err(
            KanbanError::GrammarMismatch(
                Pos { line: line_no as usize, col: (q + 9) as usize },
                Expected::CloseBrace,
            ),
        )
    } else if q + 10 != line.len() {
        Err(
            KanbanError::GrammarMismatch(
                Pos { line: line_no as usize, col: (q + 10) as usize },
                Expected::LineEnd,
            ),
        )
    } else {
        Ok(line.subrange(q + 4, q + 9))
    }
}

/// What parsing one card line yields: `- [`, one status character, `] `,
/// the title up to the first annotation marker, then an optional date
/// annotation ` @{YYYY-MM-DD}` followed by an optional time annotation
/// ` @@{HH:MM}`, which must close the line.
pub open spec fn spec_parse_card(line: Seq<char>, line_no: int) -> Result<
    CardFields,
    KanbanError,
> {
    if !is_card_start(line) {
        Err(
            KanbanError::GrammarMismatch(
                Pos { line: line_no as usize, col: 0 },
                Expected::CardStart,
            ),
        )
    } else if line.len() < 4 {
        Err(
            KanbanError::GrammarMismatch(
                Pos { line: line_no as usize, col: 3 },
                Expected::StatusChar,
            ),
        )
    } else {
        match Status::spec_parse(line[3]) {
            Err(e) => Err(e),
            Ok(status) => {
                if line.len() < 5 || line[4] != ']' {
                    Err(
                        KanbanError::GrammarMismatch(
                            Pos { line: line_no as usize, col: 4 },
                            Expected::CloseBracket,
                        ),
                    )
                } else if line.len() < 6 || line[5] != ' ' {
                    Err(
                        KanbanError::GrammarMismatch(
                            Pos { line: line_no as usize, col: 5 },
                            Expected::SpaceAfterBracket,
                        ),
                    )
                } else {
                    let fm = first_marker_from(line, 6);
                    let title = line.subrange(6, fm);
                    if fm == line.len() {
                        Ok(CardFields { status, title, date: None, time: None })
                    } else if time_marker_at(line, fm) {
                        match spec_parse_time_tail(line, fm, line_no) {
                            Ok(t) => Ok(CardFields { status, title, date: None, time: Some(t) }),
                            Err(e) => Err(e),
                        }
                    } else {
                        if fm + 13 > line.len() || !is_date_seq(line.subrange(fm + 3, fm + 13)) {
                            Err(
                                KanbanError::GrammarMismatch(
                                    Pos { line: line_no as usize, col: fm as usize },
                                    Expected::Date,
                                ),
                            )
                        } else if fm + 14 > line.len() || line[fm + 13] != '}' {
                            Err(
                                KanbanError::GrammarMismatch(
                                    Pos { line: line_no as usize, col: (fm + 13) as usize },
                                    Expected::CloseBrace,
                                ),
                            )
                        } else {
                            let date = Some(line.subrange(fm + 3, fm + 13));
                            if fm + 14 == line.len() {
                                Ok(CardFields { status, title, date, time: None })
                            } else if time_marker_at(line, fm + 14) {
                                match spec_parse_time_tail(line, fm + 14, line_no) {
                                    Ok(t) => Ok(CardFields { status, title, date, time: Some(t) }),
                                    Err(e) => Err(e),
                                }
                            } else {
                                Err(
                                    KanbanError::GrammarMismatch(
                                        Pos { line: line_no as usize, col: (fm + 14) as usize },
                                        Expected::LineEnd,
                                    ),
                                )
                            }
                        }
                    }
                }
            },
        }
    }
}

/// The card a parsed line describes, once the owning column is known.
pub open spec fn card_of(column: Seq<char>, f: CardFields) -> CardView {
    CardView { column, status: f.status, title: f.title, date: f.date, time: f.time }
}

/// The fields of a card, the owning column left aside.
pub open spec fn fields_of(c: CardView) -> CardFields {
    CardFields { status: c.status, title: c.title, date: c.date, time: c.time }
}

// ---------------------------------------------------------------------
// Executable line tests
// ---------------------------------------------------------------------

/// exec test for a digit
fn digit(c: char) -> (r: bool)
    ensures
        r == spec_is_digit(c),
{
    '0' <= c && c <= '9'
}

/// exec test for a blank
fn blank(c: char) -> (r: bool)
    ensures
        r == is_blank_char(c),
{
    c == ' ' || c == '\t'
}

pub(crate) fn card_start_here(line: &str, n: usize) -> (r: bool)
    requires
        n == line@.len(),
    ensures
        r == is_card_start(line@),
{
    n >= 3 && line.get_char(0) == '-' && line.get_char(1) == ' ' && line.get_char(2) == '['
}

pub(crate) fn heading_start_here(line: &str, n: usize) -> (r: bool)
    requires
        n == line@.len(),
    ensures
        r == is_heading_start(line@),
{
    n >= 3 && line.get_char(0) == '#' && line.get_char(1) == '#' && line.get_char(2) == ' '
}

pub(crate) fn comment_start_here(line: &str, n: usize) -> (r: bool)
    requires
        n == line@.len(),
    ensures
        r == is_comment_start(line@),
{
    n >= 2 && line.get_char(0) == '%' && line.get_char(1) == '%'
}

pub(crate) fn rule_line_here(line: &str, n: usize) -> (r: bool)
    requires
        n == line@.len(),
    ensures
        r == is_rule_line(line@),
{
    n == 3 && line.get_char(0) == '-' && line.get_char(1) == '-' && line.get_char(2) == '-'
}

fn date_marker_here(line: &str, i: usize, n: usize) -> (r: bool)
    requires
        n == line@.len(),
        i < n,
    ensures
        r == date_marker_at(line@, i as int),
{
    n - i >= 3 && line.get_char(i) == ' ' && line.get_char(i + 1) == '@' && line.get_char(i + 2)
        == '{'
}

fn time_marker_here(line: &str, i: usize, n: usize) -> (r: bool)
    requires
        n == line@.len(),
        i < n,
    ensures
        r == time_marker_at(line@, i as int),
{
    n - i >= 4 && line.get_char(i) == ' ' && line.get_char(i + 1) == '@' && line.get_char(i + 2)
        == '@' && line.get_char(i + 3) == '{'
}

fn find_first_marker(line: &str, n: usize) -> (fm: usize)
    requires
        n == line@.len(),
        n >= 6,
    ensures
        fm == first_marker_from(line@, 6),
        6 <= fm <= n,
        fm < n ==> marker_at(line@, fm as int),
{
    let mut i: usize = 6;
    while i < n
        invariant
            6 <= i <= n,
            n == line@.len(),
            forall|j: int| 6 <= j < i ==> !marker_at(line@, j),
        decreases n - i,
    {
        let date_here = date_marker_here(line, i, n);
        let time_here = time_marker_here(line, i, n);
        if date_here || time_here {
            proof {
                lemma_first_marker_from(line@, 6, i as int);
            }
            return i;
        }
        i = i + 1;
    }
    proof {
        lemma_first_marker_from(line@, 6, n as int);
    }
    n
}

// ---------------------------------------------------------------------
// Executable trimming
// ---------------------------------------------------------------------

fn scan_blank_front(s: &str, n: usize) -> (lo: usize)
    requires
        n == s@.len(),
    ensures
        lo <= n,
        forall|j: int| 0 <= j < lo ==> is_blank_char(s@[j]),
        lo == n || !is_blank_char(s@[lo as int]),
{
    let mut i: usize = 0;
    while i < n
        invariant
            i <= n,
            n == s@.len(),
            forall|j: int| 0 <= j < i ==> is_blank_char(s@[j]),
        decreases n - i,
    {
        if !blank(s.get_char(i)) {
            return i;
        }
        i = i + 1;
    }
    n
}

fn scan_blank_back(s: &str, n: usize, lo: usize) -> (hi: usize)
    requires
        n == s@.len(),
        lo <= n,
    ensures
        lo <= hi <= n,
        forall|j: int| hi <= j < n ==> is_blank_char(s@[j]),
        hi == lo || !is_blank_char(s@[hi - 1]),
{
    let mut i: usize = n;
    while i > lo
        invariant
            lo <= i <= n,
            n == s@.len(),
            forall|j: int| i <= j < n ==> is_blank_char(s@[j]),
        decreases i,
    {
        if !blank(s.get_char(i - 1)) {
            return i;
        }
        i = i - 1;
    }
    lo
}

/// Removes leading and trailing blanks, as trimming a heading name asks.
pub(crate) fn trim_str(s: &str) -> (r: String)
    ensures
        r@ == spec_trim(s@),
{
    let n = s.unicode_len();
    let lo = scan_blank_front(s, n);
    let hi = scan_blank_back(s, n, lo);
    proof {
        lemma_trim_front_range(s@, lo as int);
        lemma_trim_back_range(s@.subrange(lo as int, n as int), hi - lo);
        assert(s@.subrange(lo as int, n as int).subrange(0, hi - lo) =~= s@.subrange(
            lo as int,
            hi as int,
        ));
    }
    let r = s.substring_char(lo, hi).to_owned();
    r
}

// ---------------------------------------------------------------------
// The executable card-line parser
// ---------------------------------------------------------------------

fn parse_time_tail(line: &str, q: usize, n: usize, line_no: usize) -> (r: Result<
    String,
    KanbanError,
>)
    requires
        n == line@.len(),
        q <= n,
    ensures
        match r {
            Ok(t) => spec_parse_time_tail(line@, q as int, line_no as int) == Ok::<
                Seq<char>,
                KanbanError,
            >(t@),
            Err(e) => spec_parse_time_tail(line@, q as int, line_no as int) == Err::<
                Seq<char>,
                KanbanError,
            >(e),
        },
{
    if n - q < 9 {
        return Err(
            KanbanError::GrammarMismatch(Pos { line: line_no, col: q }, Expected::Time),
        );
    }
    let content = line.substring_char(q + 4, q + 9);
    if !check_time(content) {
        return Err(
            KanbanError::GrammarMismatch(Pos { line: line_no, col: q }, Expected::Time),
        );
    }
    if n - q < 10 || line.get_char(q + 9) != '}' {
        return Err(
            KanbanError::GrammarMismatch(
                Pos { line: line_no, col: q + 9 },
                Expected::CloseBrace,
            ),
        );
    }
    if q + 10 != n {
        return Err(
            KanbanError::GrammarMismatch(
                Pos { line: line_no, col: q + 10 },
                Expected::LineEnd,
            ),
        );
    }
    Ok(content.to_owned())
}

fn check_date(s: &str) -> (r: bool)
    ensures
        r == is_date_seq(s@),
{
    s.unicode_len() == 10 && digit(s.get_char(0)) && digit(s.get_char(1)) && digit(s.get_char(2))
        && digit(s.get_char(3)) && s.get_char(4) == '-' && digit(s.get_char(5)) && digit(
        s.get_char(6),
    ) && s.get_char(7) == '-' && digit(s.get_char(8)) && digit(s.get_char(9))
}

fn check_time(s: &str) -> (r: bool)
    ensures
        r == is_time_seq(s@),
{
    s.unicode_len() == 5 && digit(s.get_char(0)) && digit(s.get_char(1)) && s.get_char(2) == ':'
        && digit(s.get_char(3)) && digit(s.get_char(4))
}

/// Parses one card line into its fields.
pub(crate) fn parse_card_fields(line: &str, line_no: usize) -> (r: Result<
    (Status, String, Option<String>, Option<String>),
    KanbanError,
>)
    ensures
        match r {
            Ok(t) => spec_parse_card(line@, line_no as int) == Ok::<CardFields, KanbanError>(
                CardFields {
                    status: t.0,
                    title: t.1@,
                    date: t.2.deep_view(),
                    time: t.3.deep_view(),
                },
            ),
            Err(e) => spec_parse_card(line@, line_no as int) == Err::<CardFields, KanbanError>(e),
        },
{
    let n = line.unicode_len();
    if !card_start_here(line, n) {
        return Err(
            KanbanError::GrammarMismatch(Pos { line: line_no, col: 0 }, Expected::CardStart),
        );
    }
    if n < 4 {
        return Err(
            KanbanError::GrammarMismatch(Pos { line: line_no, col: 3 }, Expected::StatusChar),
        );
    }
    let status = match Status::parse(line.get_char(3)) {
        Ok(s) => s,
        Err(e) => {
            return Err(e);
        },
    };
    if n < 5 || line.get_char(4) != ']' {
        return Err(
            KanbanError::GrammarMismatch(Pos { line: line_no, col: 4 }, Expected::CloseBracket),
        );
    }
    if n < 6 || line.get_char(5) != ' ' {
        return Err(
            KanbanError::GrammarMismatch(
                Pos { line: line_no, col: 5 },
                Expected::SpaceAfterBracket,
            ),
        );
    }
    let fm = find_first_marker(line, n);
    let title = line.substring_char(6, fm).to_owned();
    if fm == n {
        return Ok((status, title, None, None));
    }
    if time_marker_here(line, fm, n) {
        return match parse_time_tail(line, fm, n, line_no) {
            Ok(t) => Ok((status, title, None, Some(t))),
            Err(e) => Err(e),
        };
    }
    if n - fm < 13 {
        return Err(
            KanbanError::GrammarMismatch(Pos { line: line_no, col: fm }, Expected::Date),
        );
    }
    let date_s = line.substring_char(fm + 3, fm + 13);
    if !check_date(date_s) {
        return Err(
            KanbanError::GrammarMismatch(Pos { line: line_no, col: fm }, Expected::Date),
        );
    }
    if n - fm < 14 || line.get_char(fm + 13) != '}' {
        return Err(
            KanbanError::GrammarMismatch(
                Pos { line: line_no, col: fm + 13 },
                Expected::CloseBrace,
            ),
        );
    }
    let date = date_s.to_owned();
    let p = fm + 14;
    if p == n {
        return Ok((status, title, Some(date), None));
    }
    if time_marker_here(line, p, n) {
        return match parse_time_tail(line, p, n, line_no) {
            Ok(t) => Ok((status, title, Some(date), Some(t))),
            Err(e) => Err(e),
        };
    }
    Err(KanbanError::GrammarMismatch(Pos { line: line_no, col: p }, Expected::LineEnd))
}

/// Builds the card that parsed fields describe, owned by the given column.
pub(crate) fn assemble_card(
    column: &str,
    status: Status,
    title: String,
    date: Option<String>,
    time: Option<String>,
) -> (c: Card)
    ensures
        c@ == (CardView {
            column: column@,
            status: status,
            title: title@,
            date: date.deep_view(),
            time: time.deep_view(),
        }),
{
    let mut b = CardBuilder::new().column(column).status(status).title(title.as_str());
    b = match date {
        Some(d) => b.date(d.as_str()),
        None => b,
    };
    b = match time {
        Some(t) => b.time(t.as_str()),
        None => b,
    };
    match b.build() {
        Ok(c) => c,
        Err(_) => vstd::pervasive::unreached(),
    }
}

// ---------------------------------------------------------------------
// The render/parse round trip
// ---------------------------------------------------------------------

/// Text that can stand as a title: no annotation marker opens inside it.
pub open spec fn title_wf(t: Seq<char>) -> bool {
    forall|i: int| 0 <= i < t.len() ==> !marker_at(t, i)
}

/// A card whose text fields fit the grammar: no marker inside the
/// title, and each annotation present has its required shape.
pub open spec fn card_text_wf(c: CardView) -> bool {
    &&& title_wf(c.title)
    &&& match c.date {
        Some(d) => is_date_seq(d),
        None => true,
    }
    &&& match c.time {
        Some(t) => is_time_seq(t),
        None => true,
    }
}

/// Inside the rendered title region no annotation marker opens: one
/// would either lie whole in the title, against `title_wf`, or reach
/// into the suffix, whose first character is a space where the marker
/// needs `@` or `{`.
proof fn lemma_no_marker_in_title_region(line: Seq<char>, t: Seq<char>, sfx: Seq<char>)
    requires
        line.len() == 6 + t.len() + sfx.len(),
        forall|p: int| 6 <= p < 6 + t.len() ==> line[p] == t[p - 6],
        forall|p: int| 6 + t.len() <= p < line.len() ==> line[p] == sfx[p - 6 - t.len()],
        sfx.len() > 0 ==> sfx[0] == ' ',
        title_wf(t),
    ensures
        forall|j: int| 6 <= j < 6 + t.len() ==> !marker_at(line, j),
{
    let len_t = t.len() as int;
    assert forall|j: int| 6 <= j < 6 + len_t implies !marker_at(line, j) by {
        if date_marker_at(line, j) {
            if j + 3 <= 6 + len_t {
                assert(date_marker_at(t, j - 6));
                assert(marker_at(t, j - 6));
            } else {
                assert(sfx.len() > 0);
                if j + 1 == 6 + len_t {
                    assert(line[j + 1] == sfx[0]);
                } else {
                    assert(j + 2 == 6 + len_t);
                    assert(line[j + 2] == sfx[0]);
                }
            }
        }
        if time_marker_at(line, j) {
            if j + 4 <= 6 + len_t {
                assert(time_marker_at(t, j - 6));
                assert(marker_at(t, j - 6));
            } else {
                assert(sfx.len() > 0);
                if j + 1 == 6 + len_t {
                    assert(line[j + 1] == sfx[0]);
                } else if j + 2 == 6 + len_t {
                    assert(line[j + 2] == sfx[0]);
                } else {
                    assert(j + 3 == 6 + len_t);
                    assert(line[j + 3] == sfx[0]);
                }
            }
        }
    }
}

/// Law: parsing the line a card renders to gives back a card with the
/// same status, title, date and time, for every card whose text fields
/// fit the grammar.
#[verifier::rlimit(60)]
pub proof fn lemma_card_round_trip(c: CardView, line_no: int)
    requires
        card_text_wf(c),
    ensures
        spec_parse_card(spec_render_card(c), line_no) == Ok::<CardFields, KanbanError>(
            fields_of(c),
        ),
{
    let line = spec_render_card(c);
    let t = c.title;
    let len_t = t.len() as int;
    let pre = seq!['-', ' ', '[', c.status.to_char(), ']', ' '];
    let dpart = match c.date {
        Some(d) => seq![' ', '@', '{'] + d + seq!['}'],
        None => Seq::<char>::empty(),
    };
    let tpart = match c.time {
        Some(tm) => seq![' ', '@', '@', '{'] + tm + seq!['}'],
        None => Seq::<char>::empty(),
    };
    let sfx = dpart + tpart;
    assert(line =~= pre + t + sfx);
    assert(forall|p: int| 0 <= p < 6 ==> line[p] == pre[p]);
    assert(forall|p: int| 6 <= p < 6 + len_t ==> line[p] == t[p - 6]);
    assert(forall|p: int| 6 + len_t <= p < line.len() ==> line[p] == sfx[p - 6 - len_t]);
    assert(sfx.len() > 0 ==> sfx[0] == ' ');
    assert(is_card_start(line));
    assert(Status::spec_parse(line[3]) == Ok::<Status, KanbanError>(c.status));
    assert(line[4] == ']');
    assert(line[5] == ' ');
    lemma_no_marker_in_title_region(line, t, sfx);
    match c.date {
        Some(d) => {
            assert(date_marker_at(line, 6 + len_t));
            lemma_first_marker_from(line, 6, 6 + len_t);
            assert(line.subrange(6, 6 + len_t) =~= t);
            assert(!time_marker_at(line, 6 + len_t));
            assert(line.subrange(6 + len_t + 3, 6 + len_t + 13) =~= d);
            assert(line[6 + len_t + 13] == '}');
            match c.time {
                Some(tm) => {
                    let p = 6 + len_t + 14;
                    assert(time_marker_at(line, p));
                    assert(line.subrange(p + 4, p + 9) =~= tm);
                    assert(line[p + 9] == '}');
                    assert(p + 10 == line.len());
                    assert(spec_parse_time_tail(line, p, line_no) == Ok::<Seq<char>, KanbanError>(
                        tm,
                    ));
                },
                None => {
                    assert(6 + len_t + 14 == line.len());
                },
            }
        },
        None => {
            match c.time {
                Some(tm) => {
                    let p = 6 + len_t;
                    assert(time_marker_at(line, p));
                    lemma_first_marker_from(line, 6, p);
                    assert(line.subrange(6, p) =~= t);
                    assert(line.subrange(p + 4, p + 9) =~= tm);
                    assert(line[p + 9] == '}');
                    assert(p + 10 == line.len());
                    assert(spec_parse_time_tail(line, p, line_no) == Ok::<Seq<char>, KanbanError>(
                        tm,
                    ));
                },
                None => {
                    assert(line.len() == 6 + len_t);
                    lemma_first_marker_from(line, 6, 6 + len_t);
                    assert(line.subrange(6, 6 + len_t) =~= t);
                },
            }
        },
    }
}

impl KanbanParser {
    /// Whether the text is exactly a date annotation's content,
    /// `YYYY-MM-DD`.
    pub fn is_date(s: &str) -> (r: bool)
        ensures
            r == is_date_seq(s@),
    {
        check_date(s)
    }

    /// Whether the text is exactly a time annotation's content, `HH:MM`.
    pub fn is_time(s: &str) -> (r: bool)
        ensures
            r == is_time_seq(s@),
    {
        check_time(s)
    }

    /// Parses one standalone card line, attaching the card to the given
    /// column. The line must match the card production exactly.
    pub fn parse_card(line: &str, column: &str) -> (r: Result<Card, KanbanError>)
        ensures
            match r {
                Ok(c) => spec_parse_card(line@, 0) == Ok::<CardFields, KanbanError>(fields_of(c@))
                    && c@.column == column@,
                Err(e) => spec_parse_card(line@, 0) == Err::<CardFields, KanbanError>(e),
            },
    {
        match parse_card_fields(line, 0) {
            Ok((status, title, date, time)) => Ok(assemble_card(column, status, title, date, time)),
            Err(e) => Err(e),
        }
    }
}

} // verus!
