//! The messages exchanged with the language model.
use vstd::prelude::*;

verus! {

/// One message of a conversation with the language model: who speaks, and what is
/// said.
#[derive(Clone, Debug, PartialEq, Eq)]
pub struct OllamaMessage {
    pub role: String,
    pub content: String,
}

/// The conversation that a chat message opens: the instructions for the model,
/// then what the user wrote.
pub fn conversation(system_prompt: String, user_message: String) -> (messages: Vec<OllamaMessage>)
    ensures
        messages@.len() == 2,
        messages@[0].role@ == "system"@,
        messages@[0].content == system_prompt,
        messages@[1].role@ == "user"@,
        messages@[1].content == user_message,
{
    let mut messages: Vec<OllamaMessage> = Vec::new();
    messages.push(OllamaMessage { role: "system".to_owned(), content: system_prompt });
    messages.push(OllamaMessage { role: "user".to_owned(), content: user_message });
    messages
}

} // verus!
