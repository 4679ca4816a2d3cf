use vstd::prelude::*;
use super::Timestamp;

verus! {

/// A message as drafted and sent, shared by all of its recipients.
#[derive(Debug)]
pub struct Model {
    pub external_id: String,
    pub created_at: Timestamp,
    pub drafted_at: Timestamp,
    pub retracted_at: Option<Timestamp>,
    pub sender_id: i64,
    pub subject: String,
    pub wikitext_hash: Vec<u8>,
    pub compiled_hash: Vec<u8>,
    pub compiled_at: Timestamp,
    pub compiled_generator: String,
    pub reply_to: Option<String>,
    pub forwarded_from: Option<String>,
}

/// The rows a message record refers to.
#[derive(Debug, Clone, Copy, PartialEq, Eq, Structural)]
pub enum Relation {
    Message,
    MessageRecipient,
    SelfRef2,
    SelfRef1,
    Text2,
    Text1,
    User,
}

} // verus!
