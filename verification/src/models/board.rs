//! Boards and the roles that users hold on them.
use crate::position::Id;
use crate::text::{joined, lower, lowercase, same_text};
use vstd::prelude::*;

verus! {

/// The role a user holds on a board.
#[derive(Clone, Copy, Debug, PartialEq, Eq, Structural)]
pub enum BoardRole {
    Owner,
    Editor,
    Reader,
}

impl BoardRole {
    /// The name under which the role is stored.
    pub open spec fn name(self) -> Seq<char> {
        match self {
            BoardRole::Owner => "owner"@,
            BoardRole::Editor => "editor"@,
            BoardRole::Reader => "reader"@,
        }
    }

    /// The role that a lower-case name stands for.
    pub open spec fn named(low: Seq<char>) -> Option<BoardRole> {
        if low == "owner"@ {
            Some(BoardRole::Owner)
        } else if low == "editor"@ {
            Some(BoardRole::Editor)
        } else if low == "reader"@ {
            Some(BoardRole::Reader)
        } else {
            None
        }
    }

    /// Whether the role allows changing what is on the board.
    pub open spec fn spec_can_edit(&self) -> bool {
        *self == BoardRole::Owner || *self == BoardRole::Editor
    }

    /// Whether the role allows deleting the board.
    pub open spec fn spec_can_delete(&self) -> bool {
        *self == BoardRole::Owner
    }

    /// Whether the role allows granting and withdrawing roles.
    pub open spec fn spec_can_manage_permissions(&self) -> bool {
        *self == BoardRole::Owner
    }

    /// Owners and editors may change what is on the board.
    #[verifier::when_used_as_spec(spec_can_edit)]
    pub fn can_edit(&self) -> (allowed: bool)
        ensures
            allowed == (*self == BoardRole::Owner || *self == BoardRole::Editor),
    {
        matches!(self, BoardRole::Owner | BoardRole::Editor)
    }

    /// Only the owner may delete the board.
    #[verifier::when_used_as_spec(spec_can_delete)]
    pub fn can_delete(&self) -> (allowed: bool)
        ensures
            allowed == (*self == BoardRole::Owner),
    {
        matches!(self, BoardRole::Owner)
    }

    /// Only the owner may grant and withdraw roles.
    #[verifier::when_used_as_spec(spec_can_manage_permissions)]
    pub fn can_manage_permissions(&self) -> (allowed: bool)
        ensures
            allowed == (*self == BoardRole::Owner),
    {
        matches!(self, BoardRole::Owner)
    }

    /// The name under which the role is stored.
    pub fn to_string(&self) -> (text: String)
        ensures
            text@ == self.name(),
    {
        match self {
            BoardRole::Owner => "owner".to_owned(),
            BoardRole::Editor => "editor".to_owned(),
            BoardRole::Reader => "reader".to_owned(),
        }
    }

    /// Reads a role name, in any mix of upper and lower case. Any other text is
    /// refused with a message that quotes it.
    pub fn from_str(s: &str) -> (parsed: Result<BoardRole, String>)
        ensures
            match parsed {
                Ok(role) => BoardRole::named(lowercase(s@)) == Some(role),
                Err(message) => BoardRole::named(lowercase(s@)) is None && message@
                    == "Invalid role: "@ + s@,
            },
    {
        let low = lower(s);
        if same_text(low.as_str(), "owner") {
            Ok(BoardRole::Owner)
        } else if same_text(low.as_str(), "editor") {
            Ok(BoardRole::Editor)
        } else if same_text(low.as_str(), "reader") {
            Ok(BoardRole::Reader)
        } else {
            Err(joined("Invalid role: ", s))
        }
    }
}

/// A board.
#[derive(Clone, Debug, PartialEq, Eq)]
pub struct Board {
    pub id: Id,
    pub name: String,
    pub description: Option<String>,
    pub owner_id: Id,
}

/// The role of one user on one board.
#[derive(Clone, Copy, Debug, PartialEq, Eq, Structural)]
pub struct BoardPermission {
    pub board_id: Id,
    pub user_id: Id,
    pub role: BoardRole,
}

/// A request to create a board.
#[derive(Clone, Debug, PartialEq, Eq)]
pub struct CreateBoard {
    pub name: String,
    pub description: Option<String>,
}

/// A request to change a board; what is `None` stays as it is.
#[derive(Clone, Debug, PartialEq, Eq)]
pub struct UpdateBoard {
    pub name: Option<String>,
    pub description: Option<String>,
}

/// A request to give a user a role on a board.
#[derive(Clone, Copy, Debug, PartialEq, Eq, Structural)]
pub struct AddBoardPermission {
    pub user_id: Id,
    pub role: BoardRole,
}

} // verus!
