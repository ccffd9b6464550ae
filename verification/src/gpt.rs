use vstd::prelude::*;

verus! {

/// Token accounting reported by the completion service.
#[derive(Debug)]
pub struct ChatUsage {
    pub prompt_tokens: i64,
    pub completion_tokens: i64,
    pub total_tokens: i64,
}

/// One message of a chat exchange.
#[derive(Debug)]
pub struct ChatMessage {
    pub role: String,
    pub content: String,
}

/// One completion choice returned by the service.
#[derive(Debug)]
pub struct ChatChoice {
    pub index: i64,
    pub message: ChatMessage,
    pub finish_reason: String,
}

/// A complete chat completion response.
#[derive(Debug)]
pub struct ChatResponse {
    pub id: Option<String>,
    pub object: String,
    pub created: i64,
    pub choices: Vec<ChatChoice>,
    pub usage: ChatUsage,
}

impl ChatResponse {
    /// The first completion choice's message content, which the pipeline
    /// reads as the model's answer; nothing when the response carries no
    /// choice at all.
    pub fn first_choice_content(&self) -> (r: Option<&String>)
        ensures
            ({
                match r {
                    Some(s) => self.choices@.len() > 0 && s@ == self.choices@[0].message.content@,
                    None => self.choices@.len() == 0,
                }
            }),
    {
        if self.choices.len() > 0 {
            Some(&self.choices[0].message.content)
        } else {
            None
        }
    }
}

} // verus!
