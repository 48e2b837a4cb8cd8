use crate::errors::Field;
use crate::errors::KanbanError;
use crate::status::Status;
use vstd::prelude::*;

verus! {

/// The mathematical value of a card: its fields with strings read as
/// character sequences.
#[verifier::ext_equal]
pub ghost struct CardView {
    pub column: Seq<char>,
    pub status: Status,
    pub title: Seq<char>,
    pub date: Option<Seq<char>>,
    pub time: Option<Seq<char>>,
}

/// One task entry of the board: the name of the column that owns it, a
/// completion status, a title, and optional date and time annotations.
#[derive(Debug)]
pub struct Card {
    column: String,
    status: Status,
    title: String,
    date: Option<String>,
    time: Option<String>,
}

impl View for Card {
    type V = CardView;

    closed spec fn view(&self) -> CardView {
        CardView {
            column: self.column@,
            status: self.status,
            title: self.title@,
            date: self.date.deep_view(),
            time: self.time.deep_view(),
        }
    }
}

impl DeepView for Card {
    type V = CardView;

    open spec fn deep_view(&self) -> CardView {
        self.view()
    }
}

/// The one-line text form of a card: `- [<status>] <title>`, followed by
/// ` @{<date>}` if a date is present and ` @@{<time>}` if a time is.
pub open spec fn spec_render_card(c: CardView) -> Seq<char> {
    seq!['-', ' ', '['] + seq![c.status.to_char()] + seq![']', ' '] + c.title + (match c.date {
        Some(d) => seq![' ', '@', '{'] + d + seq!['}'],
        None => Seq::<char>::empty(),
    }) + (match c.time {
        Some(t) => seq![' ', '@', '@', '{'] + t + seq!['}'],
        None => Seq::<char>::empty(),
    })
}

/// Compares two optional strings by their contents.
fn opt_str_eq(a: &Option<String>, b: &Option<String>) -> (r: bool)
    ensures
        r == (a.deep_view() == b.deep_view()),
{
    match (a, b) {
        (Some(x), Some(y)) => *x == *y,
        (None, None) => true,
        _ => false,
    }
}

/// Clones an optional string, contents and presence unchanged.
fn opt_str_clone(a: &Option<String>) -> (r: Option<String>)
    ensures
        r == *a,
{
    match a {
        Some(x) => Some(x.clone()),
        None => None,
    }
}

impl Card {
    /// Overwrites the owning column name. No check that the new column
    /// exists is made here: that is the board's responsibility.
    pub fn move_to(&mut self, to: &str)
        ensures
            final(self)@ == (CardView { column: to@, ..old(self)@ }),
    {
        self.column = to.to_owned();
    }

    /// The name of the column that owns this card.
    pub fn column(&self) -> (r: &String)
        ensures
            r@ == self@.column,
    {
        &self.column
    }

    /// The completion status.
    pub fn status(&self) -> (r: &Status)
        ensures
            *r == self@.status,
    {
        &self.status
    }

    /// The title.
    pub fn title(&self) -> (r: &String)
        ensures
            r@ == self@.title,
    {
        &self.title
    }

    /// The date annotation, if one is present.
    pub fn date(&self) -> (r: Option<String>)
        ensures
            r.deep_view() == self@.date,
    {
        opt_str_clone(&self.date)
    }

    /// The time annotation, if one is present.
    pub fn time(&self) -> (r: Option<String>)
        ensures
            r.deep_view() == self@.time,
    {
        opt_str_clone(&self.time)
    }

    /// Consumes the card and returns it with the title replaced; every
    /// other field is unchanged.
    pub fn mut_rename(self, new_name: &str) -> (r: Self)
        ensures
            r@ == (CardView { title: new_name@, ..self@ }),
    {
        let mut c = self;
        c.title = new_name.to_owned();
        c
    }

    /// Returns a new card identical in every field except the title; the
    /// original is unaffected.
    pub fn rename(&self, new_name: &str) -> (r: Self)
        ensures
            r@ == (CardView { title: new_name@, ..self@ }),
    {
        Card {
            column: self.column.clone(),
            status: self.status,
            title: new_name.to_owned(),
            date: opt_str_clone(&self.date),
            time: opt_str_clone(&self.time),
        }
    }

    /// Produces the canonical one-line text form of the card.
    pub fn render(&self) -> (r: String)
        ensures
            r@ == spec_render_card(self@),
    {
        proof {
            reveal_strlit("- [");
            reveal_strlit("] ");
            reveal_strlit(" @{");
            reveal_strlit(" @@{");
            reveal_strlit("}");
        }
        let mut s = "- [".to_owned();
        let status = self.status.render();
        s.append(status.as_str());
        s.append("] ");
        s.append(self.title.as_str());
        if let Some(d) = &self.date {
            s.append(" @{");
            s.append(d.as_str());
            s.append("}");
        }
        if let Some(t) = &self.time {
            s.append(" @@{");
            s.append(t.as_str());
            s.append("}");
        }
        proof {
            assert(s@ =~= spec_render_card(self@));
        }
        s
    }
}

impl Clone for Card {
    /// Clones the card; every field keeps its value.
    fn clone(&self) -> (r: Self)
        ensures
            r == *self,
    {
        Card {
            column: self.column.clone(),
            status: self.status,
            title: self.title.clone(),
            date: opt_str_clone(&self.date),
            time: opt_str_clone(&self.time),
        }
    }
}

impl PartialEq for Card {
    /// Full structural equality: every field, the optional ones included.
    fn eq(&self, other: &Card) -> (r: bool) {
        self.column == other.column && self.status == other.status && self.title == other.title
            && opt_str_eq(&self.date, &other.date) && opt_str_eq(&self.time, &other.time)
    }
}

impl vstd::std_specs::cmp::PartialEqSpecImpl for Card {
    open spec fn obeys_eq_spec() -> bool {
        true
    }

    open spec fn eq_spec(&self, other: &Card) -> bool {
        self@ == other@
    }
}

/// The mathematical value of a partially filled builder.
#[verifier::ext_equal]
pub ghost struct CardBuilderView {
    pub column: Option<Seq<char>>,
    pub status: Option<Status>,
    pub title: Option<Seq<char>>,
    pub date: Option<Seq<char>>,
    pub time: Option<Seq<char>>,
}

/// A validating constructor for cards. Column and title are required;
/// the status defaults to `Incomplete`; date and time are optional.
#[derive(Debug)]
pub struct CardBuilder {
    column: Option<String>,
    status: Option<Status>,
    title: Option<String>,
    date: Option<String>,
    time: Option<String>,
}

impl View for CardBuilder {
    type V = CardBuilderView;

    closed spec fn view(&self) -> CardBuilderView {
        CardBuilderView {
            column: self.column.deep_view(),
            status: self.status,
            title: self.title.deep_view(),
            date: self.date.deep_view(),
            time: self.time.deep_view(),
        }
    }
}

/// The card a fully filled builder yields: required fields taken as set,
/// a missing status read as `Incomplete`, date and time passed through.
pub open spec fn spec_build(b: CardBuilderView) -> CardView
    recommends
        b.column is Some,
        b.title is Some,
{
    CardView {
        column: b.column->0,
        status: match b.status {
            Some(s) => s,
            None => Status::Incomplete,
        },
        title: b.title->0,
        date: b.date,
        time: b.time,
    }
}

impl CardBuilder {
    /// A builder with no field set.
    pub fn new() -> (r: Self)
        ensures
            r@ == (CardBuilderView {
                column: None,
                status: None,
                title: None,
                date: None,
                time: None,
            }),
    {
        CardBuilder { column: None, status: None, title: None, date: None, time: None }
    }

    /// Sets the owning column name.
    pub fn column(self, column: &str) -> (r: Self)
        ensures
            r@ == (CardBuilderView { column: Some(column@), ..self@ }),
    {
        let mut b = self;
        b.column = Some(column.to_owned());
        b
    }

    /// Sets the status.
    pub fn status(self, status: Status) -> (r: Self)
        ensures
            r@ == (CardBuilderView { status: Some(status), ..self@ }),
    {
        let mut b = self;
        b.status = Some(status);
        b
    }

    /// Sets the title.
    pub fn title(self, title: &str) -> (r: Self)
        ensures
            r@ == (CardBuilderView { title: Some(title@), ..self@ }),
    {
        let mut b = self;
        b.title = Some(title.to_owned());
        b
    }

    /// Sets the date annotation. The text is passed through unchanged;
    /// no shape check is made here.
    pub fn date(self, date: &str) -> (r: Self)
        ensures
            r@ == (CardBuilderView { date: Some(date@), ..self@ }),
    {
        let mut b = self;
        b.date = Some(date.to_owned());
        b
    }

    /// Sets the time annotation. The text is passed through unchanged.
    pub fn time(self, time: &str) -> (r: Self)
        ensures
            r@ == (CardBuilderView { time: Some(time@), ..self@ }),
    {
        let mut b = self;
        b.time = Some(time.to_owned());
        b
    }

    /// Finishes the builder. Fails with `MissingField` exactly when the
    /// column or the title was never set; otherwise yields the card that
    /// the set fields describe.
    pub fn build(self) -> (r: Result<Card, KanbanError>)
        ensures
            self@.column is None ==> r == Err::<Card, KanbanError>(
                KanbanError::MissingField(Field::Column),
            ),
            self@.column is Some && self@.title is None ==> r == Err::<Card, KanbanError>(
                KanbanError::MissingField(Field::Title),
            ),
            self@.column is Some && self@.title is Some ==> (r matches Ok(c) && c@ == spec_build(
                self@,
            )),
    {
        let column = match self.column {
            Some(c) => c,
            None => {
                return Err(KanbanError::MissingField(Field::Column));
            },
        };
        let title = match self.title {
            Some(t) => t,
            None => {
                return Err(KanbanError::MissingField(Field::Title));
            },
        };
        let status = match self.status {
            Some(s) => s,
            None => Status::Incomplete,
        };
        Ok(Card { column, status, title, date: self.date, time: self.time })
    }
}

impl Clone for CardBuilder {
    /// Clones the builder; every field keeps its value.
    fn clone(&self) -> (r: Self)
        ensures
            r == *self,
    {
        CardBuilder {
            column: opt_str_clone(&self.column),
            status: self.status,
            title: opt_str_clone(&self.title),
            date: opt_str_clone(&self.date),
            time: opt_str_clone(&self.time),
        }
    }
}

impl Default for CardBuilder {
    /// A builder defaults to having no field set.
    fn default() -> (r: Self)
        ensures
            r@ == (CardBuilderView {
                column: None,
                status: None,
                title: None,
                date: None,
                time: None,
            }),
    {
        CardBuilder { column: None, status: None, title: None, date: None, time: None }
    }
}

} // verus!
