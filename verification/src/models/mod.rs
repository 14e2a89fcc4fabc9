//! The records of the task board and the requests that change them.
pub mod board;
pub mod card;
pub mod chat;
pub mod column;
pub mod comment;
pub mod tag;
pub mod token;

pub use board::{AddBoardPermission, Board, BoardPermission, BoardRole, CreateBoard, UpdateBoard};
pub use card::{
    AssignCardToBoard, Card, CardBoardAssignment, CardFilter, CardStatus, CardVisibility, CreateCard,
    CreateGlobalCard, Day, MoveCard, MoveCardInBoard, UpdateCard, UpdateCardStatus,
};
pub use chat::{ActionParam, ActionTaken, ChatAction, ChatResponse, LlmAction, SendChatRequest};
pub use column::{Column, CreateColumn, MoveColumn, UpdateColumn};
pub use comment::{Comment, CreateComment, UpdateComment};
pub use tag::{CardTag, CreateGlobalTag, CreateTag, Tag, UpdateTag};
pub use token::{CreateApiToken, TokenScope};
