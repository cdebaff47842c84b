use vstd::prelude::*;

verus! {

/// One persisted exchange: a user query and the reply it drew, with the
/// moment it was stored as seconds since the Unix epoch where the store
/// assigned one. Persistence itself is a collaborator outside this
/// library; this is the row it keeps.
pub struct ChatMessage {
    pub id: i32,
    pub user_query: String,
    pub ai_response: String,
    pub timestamp: Option<i64>,
}

impl ChatMessage {
    /// The row for one completed turn, before the store assigns an
    /// identifier and a moment.
    pub fn new(user_query: String, ai_response: String) -> (m: ChatMessage)
        ensures
            m.id == 0,
            m.user_query@ == user_query@,
            m.ai_response@ == ai_response@,
            m.timestamp is None,
    {
        ChatMessage { id: 0, user_query, ai_response, timestamp: None }
    }
}

} // verus!
