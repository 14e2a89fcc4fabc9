//! The actions that a chat reply may ask for, and the record of what was done.
use crate::text::{lower, lowercase, plain_of, same_text, without_underscores};
use vstd::prelude::*;
use vstd::string::*;

verus! {

/// All possible chat actions.
#[derive(Clone, Copy, Debug, PartialEq, Eq, Structural)]
pub enum ChatAction {
    CreateBoard,
    DeleteBoard,
    CreateColumn,
    CreateCard,
    CreateInboxCard,
    MoveCard,
    MoveCardCrossBoard,
    AssignCard,
    UpdateStatus,
    CreateTag,
    AddTag,
    AddComment,
    ListCards,
    ListTags,
    DeleteColumn,
    DeleteTag,
    DeleteCard,
    WebSearch,
    NoAction,
    Unknown,
}

impl ChatAction {
    /// The action that a normalized name (lower case, no underscores) stands for;
    /// a name that stands for none is kept as `Unknown`.
    pub open spec fn named(plain: Seq<char>) -> ChatAction {
        if plain == "createboard"@ {
            ChatAction::CreateBoard
        } else if plain == "deleteboard"@ {
            ChatAction::DeleteBoard
        } else if plain == "createcolumn"@ {
            ChatAction::CreateColumn
        } else if plain == "createcard"@ {
            ChatAction::CreateCard
        } else if plain == "createinboxcard"@ || plain == "inboxcard"@ {
            ChatAction::CreateInboxCard
        } else if plain == "movecard"@ {
            ChatAction::MoveCard
        } else if plain == "movecardcrossboard"@ {
            ChatAction::MoveCardCrossBoard
        } else if plain == "assigncard"@ || plain == "assigntoboard"@ {
            ChatAction::AssignCard
        } else if plain == "updatestatus"@ || plain == "setstatus"@ || plain == "changestatus"@ {
            ChatAction::UpdateStatus
        } else if plain == "createtag"@ {
            ChatAction::CreateTag
        } else if plain == "addtag"@ {
            ChatAction::AddTag
        } else if plain == "addcomment"@ || plain == "comment"@ {
            ChatAction::AddComment
        } else if plain == "listcards"@ {
            ChatAction::ListCards
        } else if plain == "listtags"@ {
            ChatAction::ListTags
        } else if plain == "deletecolumn"@ {
            ChatAction::DeleteColumn
        } else if plain == "deletetag"@ {
            ChatAction::DeleteTag
        } else if plain == "deletecard"@ {
            ChatAction::DeleteCard
        } else if plain == "websearch"@ || plain == "search"@ {
            ChatAction::WebSearch
        } else if plain == "noaction"@ {
            ChatAction::NoAction
        } else {
            ChatAction::Unknown
        }
    }

    /// The action that a name as written stands for: case and underscores do not
    /// count.
    pub open spec fn of_name(written: Seq<char>) -> ChatAction {
        ChatAction::named(plain_of(lowercase(written)))
    }

    /// The name under which the action is reported.
    pub open spec fn name(self) -> Seq<char> {
        match self {
            ChatAction::CreateBoard => "create_board"@,
            ChatAction::DeleteBoard => "delete_board"@,
            ChatAction::CreateColumn => "create_column"@,
            ChatAction::CreateCard => "create_card"@,
            ChatAction::CreateInboxCard => "create_inbox_card"@,
            ChatAction::MoveCard => "move_card"@,
            ChatAction::MoveCardCrossBoard => "move_card_cross_board"@,
            ChatAction::AssignCard => "assign_card"@,
            ChatAction::UpdateStatus => "update_status"@,
            ChatAction::CreateTag => "create_tag"@,
            ChatAction::AddTag => "add_tag"@,
            ChatAction::AddComment => "add_comment"@,
            ChatAction::ListCards => "list_cards"@,
            ChatAction::ListTags => "list_tags"@,
            ChatAction::DeleteColumn => "delete_column"@,
            ChatAction::DeleteTag => "delete_tag"@,
            ChatAction::DeleteCard => "delete_card"@,
            ChatAction::WebSearch => "web_search"@,
            ChatAction::NoAction => "no_action"@,
            ChatAction::Unknown => "unknown"@,
        }
    }

    /// Whether the action only reads.
    pub open spec fn spec_is_read_only(&self) -> bool {
        *self == ChatAction::ListCards || *self == ChatAction::ListTags || *self
            == ChatAction::WebSearch || *self == ChatAction::NoAction
    }

    /// Whether the action is meant for a board that exists.
    pub open spec fn spec_requires_board(&self) -> bool {
        !(*self == ChatAction::CreateBoard || *self == ChatAction::CreateInboxCard || *self
            == ChatAction::MoveCardCrossBoard || *self == ChatAction::AssignCard || *self
            == ChatAction::UpdateStatus || *self == ChatAction::AddComment || *self
            == ChatAction::WebSearch || *self == ChatAction::NoAction || *self
            == ChatAction::ListCards || *self == ChatAction::ListTags || *self
            == ChatAction::Unknown)
    }

    /// Returns true if this action only reads data (no modifications).
    #[verifier::when_used_as_spec(spec_is_read_only)]
    pub fn is_read_only(&self) -> (read_only: bool)
        ensures
            read_only == self.spec_is_read_only(),
    {
        matches!(
            self,
            ChatAction::ListCards | ChatAction::ListTags | ChatAction::WebSearch
                | ChatAction::NoAction
        )
    }

    /// Returns true if this action requires an existing board parameter.
    #[verifier::when_used_as_spec(spec_requires_board)]
    pub fn requires_board(&self) -> (needed: bool)
        ensures
            needed == self.spec_requires_board(),
    {
        !matches!(
            self,
            ChatAction::CreateBoard | ChatAction::CreateInboxCard | ChatAction::MoveCardCrossBoard
                | ChatAction::AssignCard | ChatAction::UpdateStatus | ChatAction::AddComment
                | ChatAction::WebSearch | ChatAction::NoAction | ChatAction::ListCards
                | ChatAction::ListTags | ChatAction::Unknown
        )
    }

    /// Reads an action name. Every text is accepted: one that names no action gives
    /// `Unknown`, so that it can be reported rather than dropped.
    pub fn from_str(s: &str) -> (parsed: Result<ChatAction, ()>)
        ensures
            parsed == Ok::<ChatAction, ()>(ChatAction::of_name(s@)),
    {
        let low = lower(s);
        let plain = without_underscores(low.as_str());
        let p = plain.as_str();
        let action = if same_text(p, "createboard") {
            ChatAction::CreateBoard
        } else if same_text(p, "deleteboard") {
            ChatAction::DeleteBoard
        } else if same_text(p, "createcolumn") {
            ChatAction::CreateColumn
        } else if same_text(p, "createcard") {
            ChatAction::CreateCard
        } else if same_text(p, "createinboxcard") || same_text(p, "inboxcard") {
            ChatAction::CreateInboxCard
        } else if same_text(p, "movecard") {
            ChatAction::MoveCard
        } else if same_text(p, "movecardcrossboard") {
            ChatAction::MoveCardCrossBoard
        } else if same_text(p, "assigncard") || same_text(p, "assigntoboard") {
            ChatAction::AssignCard
        } else if same_text(p, "updatestatus") || same_text(p, "setstatus") || same_text(
            p,
            "changestatus",
        ) {
            ChatAction::UpdateStatus
        } else if same_text(p, "createtag") {
            ChatAction::CreateTag
        } else if same_text(p, "addtag") {
            ChatAction::AddTag
        } else if same_text(p, "addcomment") || same_text(p, "comment") {
            ChatAction::AddComment
        } else if same_text(p, "listcards") {
            ChatAction::ListCards
        } else if same_text(p, "listtags") {
            ChatAction::ListTags
        } else if same_text(p, "deletecolumn") {
            ChatAction::DeleteColumn
        } else if same_text(p, "deletetag") {
            ChatAction::DeleteTag
        } else if same_text(p, "deletecard") {
            ChatAction::DeleteCard
        } else if same_text(p, "websearch") || same_text(p, "search") {
            ChatAction::WebSearch
        } else if same_text(p, "noaction") {
            ChatAction::NoAction
        } else {
            ChatAction::Unknown
        };
        Ok(action)
    }

    /// The name under which the action is reported.
    pub fn to_string(&self) -> (text: String)
        ensures
            text@ == self.name(),
    {
        match self {
            ChatAction::CreateBoard => "create_board".to_owned(),
            ChatAction::DeleteBoard => "delete_board".to_owned(),
            ChatAction::CreateColumn => "create_column".to_owned(),
            ChatAction::CreateCard => "create_card".to_owned(),
            ChatAction::CreateInboxCard => "create_inbox_card".to_owned(),
            ChatAction::MoveCard => "move_card".to_owned(),
            ChatAction::MoveCardCrossBoard => "move_card_cross_board".to_owned(),
            ChatAction::AssignCard => "assign_card".to_owned(),
            ChatAction::UpdateStatus => "update_status".to_owned(),
            ChatAction::CreateTag => "create_tag".to_owned(),
            ChatAction::AddTag => "add_tag".to_owned(),
            ChatAction::AddComment => "add_comment".to_owned(),
            ChatAction::ListCards => "list_cards".to_owned(),
            ChatAction::ListTags => "list_tags".to_owned(),
            ChatAction::DeleteColumn => "delete_column".to_owned(),
            ChatAction::DeleteTag => "delete_tag".to_owned(),
            ChatAction::DeleteCard => "delete_card".to_owned(),
            ChatAction::WebSearch => "web_search".to_owned(),
            ChatAction::NoAction => "no_action".to_owned(),
            ChatAction::Unknown => "unknown".to_owned(),
        }
    }
}

/// A request to send a chat message.
#[derive(Clone, Debug, PartialEq, Eq)]
pub struct SendChatRequest {
    pub message: String,
}

/// An action that was attempted for a chat message, and how it went.
#[derive(Clone, Debug, PartialEq, Eq)]
pub struct ActionTaken {
    pub action: String,
    pub description: String,
    pub success: bool,
}

/// An outcome, its texts taken as sequences of characters.
pub struct Outcome {
    pub action: Seq<char>,
    pub description: Seq<char>,
    pub success: bool,
}

impl View for ActionTaken {
    type V = Outcome;

    open spec fn view(&self) -> Outcome {
        Outcome { action: self.action@, description: self.description@, success: self.success }
    }
}

/// The outcomes of a list of attempted actions.
pub open spec fn outcomes(taken: Seq<ActionTaken>) -> Seq<Outcome> {
    taken.map_values(|t: ActionTaken| t@)
}

/// What a chat message is answered with: the reply and the outcome of every
/// action that was attempted.
#[derive(Clone, Debug, PartialEq, Eq)]
pub struct ChatResponse {
    pub response: String,
    pub actions_taken: Vec<ActionTaken>,
}

/// One parameter of a requested action: its key, the JSON text of its value, and
/// what the value says where it is a string.
#[derive(Clone, Debug, PartialEq, Eq)]
pub struct ActionParam {
    pub key: String,
    pub raw: String,
    pub text: Option<String>,
}

/// A parameter, its texts taken as sequences of characters.
pub struct Param {
    pub key: Seq<char>,
    pub raw: Seq<char>,
    pub text: Option<Seq<char>>,
}

impl View for ActionParam {
    type V = Param;

    open spec fn view(&self) -> Param {
        Param {
            key: self.key@,
            raw: self.raw@,
            text: match self.text {
                Some(t) => Some(t@),
                None => None,
            },
        }
    }
}

/// The parameters of a list.
pub open spec fn params_of(list: Seq<ActionParam>) -> Seq<Param> {
    list.map_values(|p: ActionParam| p@)
}

/// An action that a reply asks for, as read from it and not yet carried out: the
/// name of the action as written, its parameters, the JSON text that the
/// parameters were read from, and the message that came with it.
#[derive(Clone, Debug, PartialEq, Eq)]
pub struct LlmAction {
    pub action: String,
    pub params: Vec<ActionParam>,
    pub raw_params: String,
    pub message: String,
}

/// A requested action, its texts taken as sequences of characters.
pub struct Request {
    pub action: Seq<char>,
    pub params: Seq<Param>,
    pub raw_params: Seq<char>,
    pub message: Seq<char>,
}

impl View for LlmAction {
    type V = Request;

    open spec fn view(&self) -> Request {
        Request {
            action: self.action@,
            params: params_of(self.params@),
            raw_params: self.raw_params@,
            message: self.message@,
        }
    }
}

/// The requests of a list of actions.
pub open spec fn requests(actions: Seq<LlmAction>) -> Seq<Request> {
    actions.map_values(|a: LlmAction| a@)
}

/// What the parameter `key` says: the text of the first parameter with that key,
/// where its value is a string.
pub open spec fn param_text(params: Seq<Param>, key: Seq<char>) -> Option<Seq<char>>
    decreases params.len(),
{
    if params.len() == 0 {
        None
    } else if params[0].key == key {
        params[0].text
    } else {
        param_text(params.drop_first(), key)
    }
}

/// What the parameter `key` says, or nothing where it says nothing.
pub open spec fn given(params: Seq<Param>, key: Seq<char>) -> Seq<char> {
    match param_text(params, key) {
        Some(t) => t,
        None => Seq::<char>::empty(),
        }
}

/// The first of two texts that says something.
pub open spec fn or_else(first: Seq<char>, second: Seq<char>) -> Seq<char> {
    if first.len() > 0 {
        first
    } else {
        second
    }
}

/// A text, or `None` where it says nothing.
pub open spec fn if_given(text: Seq<char>) -> Option<Seq<char>> {
    if text.len() > 0 {
        Some(text)
    } else {
        None
    }
}

impl LlmAction {
    /// What the parameter `key` says, or the empty text where there is no such
    /// parameter or its value is not a string.
    pub fn param(&self, key: &str) -> (text: String)
        ensures
            text@ == given(self@.params, key@),
    {
        let mut i: usize = 0;
        proof {
            assert(self@.params.skip(0) =~= self@.params);
        }
        while i < self.params.len()
            invariant
                i <= self.params.len(),
                given(self@.params, key@) == given(self@.params.skip(i as int), key@),
            decreases self.params.len() - i,
        {
            proof {
                assert(self@.params.skip(i as int)[0] == self.params@[i as int]@);
                assert(self@.params.skip(i as int).drop_first() =~= self@.params.skip(i + 1));
            }
            if crate::text::same_text(self.params[i].key.as_str(), key) {
                return match &self.params[i].text {
                    Some(t) => t.clone(),
                    None => String::new(),
                };
            }
            i += 1;
        }
        String::new()
    }

    /// What the first of the parameters `first` and `second` that says something
    /// says.
    pub fn param2(&self, first: &str, second: &str) -> (text: String)
        ensures
            text@ == or_else(given(self@.params, first@), given(self@.params, second@)),
    {
        let a = self.param(first);
        if a.as_str().unicode_len() > 0 {
            a
        } else {
            self.param(second)
        }
    }

    /// What the first of three parameters that says something says.
    pub fn param3(&self, first: &str, second: &str, third: &str) -> (text: String)
        ensures
            text@ == or_else(
                given(self@.params, first@),
                or_else(given(self@.params, second@), given(self@.params, third@)),
            ),
    {
        let a = self.param(first);
        if a.as_str().unicode_len() > 0 {
            a
        } else {
            self.param2(second, third)
        }
    }

    /// What the first of four parameters that says something says.
    pub fn param4(&self, first: &str, second: &str, third: &str, fourth: &str) -> (text: String)
        ensures
            text@ == or_else(
                given(self@.params, first@),
                or_else(
                    given(self@.params, second@),
                    or_else(given(self@.params, third@), given(self@.params, fourth@)),
                ),
            ),
    {
        let a = self.param(first);
        if a.as_str().unicode_len() > 0 {
            a
        } else {
            self.param3(second, third, fourth)
        }
    }
}

} // verus!
