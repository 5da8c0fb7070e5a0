//! Conversation turns and the append-only transcript.
//!
//! A transcript is the ordered history of turns: it starts with one system
//! seed, grows only at the end, and is replayed verbatim as context with
//! every request.

use vstd::prelude::*;

verus! {

/// Who produced a turn: the system seed, the user, or the assistant.
#[derive(Clone, Copy, Debug, PartialEq, Eq, Structural)]
pub enum Role {
    System,
    User,
    Assistant,
}

/// One role-tagged message unit in a conversation.
pub struct Message {
    pub role: Role,
    pub content: String,
}

/// The mathematical value of a turn: its role and its text.
pub ghost struct MessageView {
    pub role: Role,
    pub content: Seq<char>,
}

impl View for Message {
    type V = MessageView;

    open spec fn view(&self) -> MessageView {
        MessageView { role: self.role, content: self.content@ }
    }
}

impl DeepView for Message {
    type V = MessageView;

    open spec fn deep_view(&self) -> MessageView {
        self@
    }
}

impl Clone for Message {
    fn clone(&self) -> (r: Self)
        ensures
            r@ == self@,
    {
        Message { role: self.role, content: self.content.clone() }
    }
}

/// A well-formed conversation: at least the system seed, which comes first,
/// then strictly alternating user and assistant turns.
pub open spec fn well_formed(t: Seq<MessageView>) -> bool {
    &&& t.len() >= 1
    &&& t[0].role == Role::System
    &&& forall|i: int|
        1 <= i < t.len() ==> t[i].role == (if i % 2 == 1 {
            Role::User
        } else {
            Role::Assistant
        })
}

/// The ordered, append-only log of turns.
pub struct Transcript {
    turns: Vec<Message>,
}

impl View for Transcript {
    type V = Seq<MessageView>;

    closed spec fn view(&self) -> Seq<MessageView> {
        self.turns.deep_view()
    }
}

impl Transcript {
    /// A fresh transcript holding only the system seed.
    pub fn new(seed: String) -> (t: Transcript)
        ensures
            t@ == seq![MessageView { role: Role::System, content: seed@ }],
    {
        let mut turns: Vec<Message> = Vec::new();
        turns.push(Message { role: Role::System, content: seed });
        proof {
            assert(turns.deep_view() =~= seq![
                MessageView { role: Role::System, content: turns@[0].content@ },
            ]);
        }
        Transcript { turns }
    }

    pub fn len(&self) -> (n: usize)
        ensures
            n == self@.len(),
    {
        self.turns.len()
    }

    pub fn turn(&self, i: usize) -> (m: &Message)
        requires
            i < self@.len(),
        ensures
            m@ == self@[i as int],
    {
        &self.turns[i]
    }

    /// Append a user turn.
    pub fn push_user(&mut self, content: String)
        ensures
            final(self)@ == old(self)@.push(
                MessageView { role: Role::User, content: content@ },
            ),
    {
        let ghost prior = self.turns.deep_view();
        self.turns.push(Message { role: Role::User, content });
        proof {
            assert(self.turns.deep_view() =~= prior.push(self.turns@.last()@));
        }
    }

    /// Append an assistant turn.
    pub fn push_assistant(&mut self, content: String)
        ensures
            final(self)@ == old(self)@.push(
                MessageView { role: Role::Assistant, content: content@ },
            ),
    {
        let ghost prior = self.turns.deep_view();
        self.turns.push(Message { role: Role::Assistant, content });
        proof {
            assert(self.turns.deep_view() =~= prior.push(self.turns@.last()@));
        }
    }

    /// A copy of every turn in order, as sent with a request.
    pub fn snapshot(&self) -> (v: Vec<Message>)
        ensures
            v.deep_view() == self@,
    {
        let mut v: Vec<Message> = Vec::new();
        let mut i: usize = 0;
        while i < self.turns.len()
            invariant
                i <= self.turns@.len(),
                v.deep_view() =~= self.turns.deep_view().subrange(0, i as int),
            decreases self.turns@.len() - i,
        {
            let ghost prior = v.deep_view();
            v.push(self.turns[i].clone());
            proof {
                assert(v.deep_view() =~= prior.push(self.turns@[i as int]@));
                assert(prior.push(self.turns@[i as int]@) =~= self.turns.deep_view().subrange(
                    0,
                    i as int + 1,
                ));
            }
            i = i + 1;
        }
        proof {
            assert(self.turns.deep_view().subrange(0, self.turns@.len() as int)
                =~= self.turns.deep_view());
        }
        v
    }
}

} // verus!
