//! Cards: their status, their visibility, and the requests that change them.
use crate::position::Id;
use crate::text::{joined, lower, lowercase, plain_of, same_text, without_underscores};
use vstd::prelude::*;

verus! {

/// A calendar day, counted in days from the first day of the common era.
pub type Day = i32;

/// How far the work on a card has come.
#[derive(Clone, Copy, Debug, PartialEq, Eq, Structural)]
pub enum CardStatus {
    Open,
    InProgress,
    Done,
    Closed,
}

impl CardStatus {
    /// The name under which the status is stored.
    pub open spec fn name(self) -> Seq<char> {
        match self {
            CardStatus::Open => "open"@,
            CardStatus::InProgress => "in_progress"@,
            CardStatus::Done => "done"@,
            CardStatus::Closed => "closed"@,
        }
    }

    /// The status that a lower-case name without underscores stands for.
    pub open spec fn named(plain: Seq<char>) -> Option<CardStatus> {
        if plain == "open"@ {
            Some(CardStatus::Open)
        } else if plain == "inprogress"@ {
            Some(CardStatus::InProgress)
        } else if plain == "done"@ {
            Some(CardStatus::Done)
        } else if plain == "closed"@ {
            Some(CardStatus::Closed)
        } else {
            None
        }
    }

    /// The name under which the status is stored.
    pub fn to_string(&self) -> (text: String)
        ensures
            text@ == self.name(),
    {
        match self {
            CardStatus::Open => "open".to_owned(),
            CardStatus::InProgress => "in_progress".to_owned(),
            CardStatus::Done => "done".to_owned(),
            CardStatus::Closed => "closed".to_owned(),
        }
    }

    /// Reads a status name; case and underscores do not count. Any other text is
    /// refused with a message that quotes it.
    pub fn from_str(s: &str) -> (parsed: Result<CardStatus, String>)
        ensures
            match parsed {
                Ok(status) => CardStatus::named(plain_of(lowercase(s@))) == Some(status),
                Err(message) => CardStatus::named(plain_of(lowercase(s@))) is None && message@
                    == "Invalid status: "@ + s@,
            },
    {
        let low = lower(s);
        let plain = without_underscores(low.as_str());
        if same_text(plain.as_str(), "open") {
            Ok(CardStatus::Open)
        } else if same_text(plain.as_str(), "inprogress") {
            Ok(CardStatus::InProgress)
        } else if same_text(plain.as_str(), "done") {
            Ok(CardStatus::Done)
        } else if same_text(plain.as_str(), "closed") {
            Ok(CardStatus::Closed)
        } else {
            Err(joined("Invalid status: ", s))
        }
    }
}

impl Default for CardStatus {
    fn default() -> (status: CardStatus)
        ensures
            status == CardStatus::Open,
    {
        CardStatus::Open
    }
}

/// Who may see a card besides its owner and its creator.
#[derive(Clone, Copy, Debug, PartialEq, Eq, Structural)]
pub enum CardVisibility {
    /// Those who may edit a board the card is on.
    Private,
    /// Those who hold any role on a board the card is on.
    Restricted,
    /// Everyone.
    Public,
}

impl CardVisibility {
    /// The name under which the visibility is stored.
    pub open spec fn name(self) -> Seq<char> {
        match self {
            CardVisibility::Private => "private"@,
            CardVisibility::Restricted => "restricted"@,
            CardVisibility::Public => "public"@,
        }
    }

    /// The visibility that a lower-case name stands for.
    pub open spec fn named(low: Seq<char>) -> Option<CardVisibility> {
        if low == "private"@ {
            Some(CardVisibility::Private)
        } else if low == "restricted"@ {
            Some(CardVisibility::Restricted)
        } else if low == "public"@ {
            Some(CardVisibility::Public)
        } else {
            None
        }
    }

    /// What a stored visibility means to a reader: an unreadable one counts as the
    /// most restrictive.
    pub open spec fn stored(text: Seq<char>) -> CardVisibility {
        match CardVisibility::named(lowercase(text)) {
            Some(v) => v,
            None => CardVisibility::Private,
        }
    }

    /// The name under which the visibility is stored.
    pub fn to_string(&self) -> (text: String)
        ensures
            text@ == self.name(),
    {
        match self {
            CardVisibility::Private => "private".to_owned(),
            CardVisibility::Restricted => "restricted".to_owned(),
            CardVisibility::Public => "public".to_owned(),
        }
    }

    /// Reads a visibility name, in any mix of upper and lower case. Any other text
    /// is refused with a message that quotes it.
    pub fn from_str(s: &str) -> (parsed: Result<CardVisibility, String>)
        ensures
            match parsed {
                Ok(v) => CardVisibility::named(lowercase(s@)) == Some(v),
                Err(message) => CardVisibility::named(lowercase(s@)) is None && message@
                    == "Invalid visibility: "@ + s@,
            },
    {
        let low = lower(s);
        if same_text(low.as_str(), "private") {
            Ok(CardVisibility::Private)
        } else if same_text(low.as_str(), "restricted") {
            Ok(CardVisibility::Restricted)
        } else if same_text(low.as_str(), "public") {
            Ok(CardVisibility::Public)
        } else {
            Err(joined("Invalid visibility: ", s))
        }
    }

    /// Reads a stored visibility for an access check: text that names no
    /// visibility is taken as `Private`.
    pub fn from_stored(s: &str) -> (v: CardVisibility)
        ensures
            v == CardVisibility::stored(s@),
    {
        match CardVisibility::from_str(s) {
            Ok(v) => v,
            Err(_) => CardVisibility::Private,
        }
    }
}

/// A card. Where it stands (its column and its position there) is kept by the
/// store that holds it, not in the card.
#[derive(Clone, Debug, PartialEq, Eq)]
pub struct Card {
    pub id: Id,
    pub title: String,
    pub body: Option<String>,
    pub visibility: CardVisibility,
    pub status: CardStatus,
    pub start_date: Option<Day>,
    pub end_date: Option<Day>,
    pub due_date: Option<Day>,
    pub owner_id: Option<Id>,
    pub created_by: Id,
}

impl Card {
    /// A copy of the card.
    pub fn copy(&self) -> (card: Card)
        ensures
            card == *self,
    {
        Card {
            id: self.id,
            title: self.title.clone(),
            body: match &self.body {
                Some(b) => Some(b.clone()),
                None => None,
            },
            visibility: self.visibility,
            status: self.status,
            start_date: self.start_date,
            end_date: self.end_date,
            due_date: self.due_date,
            owner_id: self.owner_id,
            created_by: self.created_by,
        }
    }
}

/// The attachment of a card to a board besides the column it lives in. Its column
/// on that board and its position are kept by the store.
#[derive(Clone, Copy, Debug, PartialEq, Eq, Structural)]
pub struct CardBoardAssignment {
    pub id: Id,
    pub card_id: Id,
    pub board_id: Id,
}

/// A request to create a card in a column.
#[derive(Clone, Debug, PartialEq, Eq)]
pub struct CreateCard {
    pub title: String,
    pub body: Option<String>,
    pub position: Option<i32>,
    pub visibility: Option<CardVisibility>,
    pub status: Option<CardStatus>,
    pub start_date: Option<Day>,
    pub end_date: Option<Day>,
    pub due_date: Option<Day>,
}

/// A request to create a card that stands in no column.
#[derive(Clone, Debug, PartialEq, Eq)]
pub struct CreateGlobalCard {
    pub title: String,
    pub body: Option<String>,
    pub visibility: Option<CardVisibility>,
    pub status: Option<CardStatus>,
    pub start_date: Option<Day>,
    pub end_date: Option<Day>,
    pub due_date: Option<Day>,
}

/// A request to change a card; what is `None` stays as it is.
#[derive(Clone, Debug, PartialEq, Eq)]
pub struct UpdateCard {
    pub title: Option<String>,
    pub body: Option<String>,
    pub visibility: Option<CardVisibility>,
    pub status: Option<CardStatus>,
    pub start_date: Option<Day>,
    pub end_date: Option<Day>,
    pub due_date: Option<Day>,
}

/// A request to set the status of a card.
#[derive(Clone, Copy, Debug, PartialEq, Eq, Structural)]
pub struct UpdateCardStatus {
    pub status: CardStatus,
}

/// A request to move a card to a position of a column.
#[derive(Clone, Copy, Debug, PartialEq, Eq, Structural)]
pub struct MoveCard {
    pub column_id: Id,
    pub position: i32,
}

/// Which cards of a board are asked for. A card passes when it passes every test
/// that is set: it carries one of the tags, its title or its body holds the query,
/// case aside, and each of its dates lies within the bounds given for it.
#[derive(Clone, Debug, PartialEq, Eq)]
pub struct CardFilter {
    pub tags: Option<Vec<Id>>,
    pub query: Option<String>,
    pub start_date_from: Option<Day>,
    pub start_date_to: Option<Day>,
    pub end_date_from: Option<Day>,
    pub end_date_to: Option<Day>,
    pub due_date_from: Option<Day>,
    pub due_date_to: Option<Day>,
}

/// Whether a date lies within the bounds: a bound that is set asks for a date, and
/// for one that is not before `from` and not behind `to`.
pub open spec fn within(date: Option<Day>, from: Option<Day>, to: Option<Day>) -> bool {
    &&& from matches Some(f) ==> (date matches Some(d) && d >= f)
    &&& to matches Some(t) ==> (date matches Some(d) && d <= t)
}

/// Whether a date lies within the bounds.
pub fn is_within(date: Option<Day>, from: Option<Day>, to: Option<Day>) -> (ok: bool)
    ensures
        ok == within(date, from, to),
{
    let after_from = match from {
        Some(f) => match date {
            Some(d) => d >= f,
            None => false,
        },
        None => true,
    };
    let before_to = match to {
        Some(t) => match date {
            Some(d) => d <= t,
            None => false,
        },
        None => true,
    };
    after_from && before_to
}

/// A request to attach a card to a board.
#[derive(Clone, Copy, Debug, PartialEq, Eq, Structural)]
pub struct AssignCardToBoard {
    pub column_id: Option<Id>,
    pub position: Option<i32>,
}

/// A request to move an attached card within its board.
#[derive(Clone, Copy, Debug, PartialEq, Eq, Structural)]
pub struct MoveCardInBoard {
    pub column_id: Option<Id>,
    pub position: i32,
}

} // verus!
