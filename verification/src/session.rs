use vstd::prelude::*;

verus! {

/// Who spoke a message of the transcript.
#[derive(Clone, Copy, PartialEq, Eq, Structural, Debug)]
pub enum Role {
    System,
    User,
    Assistant,
}

/// One role-tagged entry of the conversation transcript.
#[derive(Clone, Debug)]
pub struct Message {
    pub role: Role,
    pub content: String,
}

/// The ordered, append-only transcript of one run: it grows without bound
/// and is handed whole to the transport on every turn. The system prompt,
/// if present, is the first entry and the only one with the System role.
pub struct Session {
    messages: Vec<Message>,
}

impl View for Session {
    type V = Seq<Message>;

    closed spec fn view(&self) -> Seq<Message> {
        self.messages@
    }
}

impl Session {
    /// The transcript invariant: no System message after the first entry.
    pub open spec fn wf(self) -> bool {
        forall|i: int| 1 <= i < self@.len() ==> self@[i].role != Role::System
    }

    /// An empty transcript.
    pub fn new() -> (s: Session)
        ensures
            s@.len() == 0,
            s.wf(),
    {
        Session { messages: Vec::new() }
    }

    /// A transcript opened by a system prompt.
    pub fn with_system(prompt: String) -> (s: Session)
        ensures
            s@.len() == 1,
            s@[0].role == Role::System,
            s@[0].content == prompt,
            s.wf(),
    {
        let mut messages: Vec<Message> = Vec::new();
        messages.push(Message { role: Role::System, content: prompt });
        Session { messages }
    }

    /// How many messages the transcript holds.
    pub fn len(&self) -> (n: usize)
        ensures
            n == self@.len(),
    {
        self.messages.len()
    }

    /// Appends one message; a System message may only open the transcript.
    pub fn append(&mut self, m: Message)
        requires
            old(self).wf(),
            m.role == Role::System ==> old(self)@.len() == 0,
        ensures
            final(self)@ == old(self)@.push(m),
            final(self).wf(),
    {
        self.messages.push(m);
    }

    /// Read-only view of the transcript, handed wholesale to the transport
    /// on every turn.
    pub fn snapshot(&self) -> (v: &Vec<Message>)
        ensures
            v@ == self@,
    {
        &self.messages
    }
}

} // verus!
