//! The decision logic of the interactive loop.
//!
//! The loop itself performs the outside work — reading a line, sending the
//! request, collecting the reply — and hands each outcome to the session,
//! which decides: a sentinel input terminates without touching the
//! transcript, any other input becomes a user turn and a request to send,
//! and a completed reply becomes the assistant turn.

use vstd::prelude::*;
use vstd::string::StringExecFns;
use crate::request::{build_request, request_for, Mode, RequestBody};
use crate::transcript::{well_formed, MessageView, Role, Transcript};

verus! {

/// The text every conversation is seeded with.
pub open spec fn seed_text() -> Seq<char> {
    "You are a helpful assistant."@
}

/// An input that ends the conversation instead of being submitted.
pub open spec fn is_sentinel(line: Seq<char>) -> bool {
    line == "quit"@ || line == "q"@
}

/// Where the loop stands: waiting for the user, waiting for a reply, or done.
#[derive(Clone, Copy, Debug, PartialEq, Eq, Structural)]
pub enum Phase {
    AwaitingInput,
    ProcessingTurn,
    Terminated,
}

/// One conversation: its transcript, its delivery mode, and where the loop
/// stands.
pub struct Session {
    transcript: Transcript,
    phase: Phase,
    mode: Mode,
}

impl Session {
    pub closed spec fn transcript_view(self) -> Seq<MessageView> {
        self.transcript@
    }

    pub closed spec fn phase(self) -> Phase {
        self.phase
    }

    pub closed spec fn mode_spec(self) -> Mode {
        self.mode
    }

    /// The session invariant: the transcript is a well-formed conversation,
    /// odd while an input is awaited — the seed plus completed user/assistant
    /// pairs — and even exactly while a user turn still awaits its reply.
    pub open spec fn inv(self) -> bool {
        &&& well_formed(self.transcript_view())
        &&& self.phase() == Phase::ProcessingTurn ==> self.transcript_view().len() % 2 == 0
        &&& self.phase() != Phase::ProcessingTurn ==> self.transcript_view().len() % 2 == 1
    }

    /// A fresh session: seeded transcript, awaiting the first input.
    pub fn new(mode: Mode) -> (s: Session)
        ensures
            s.inv(),
            s.phase() == Phase::AwaitingInput,
            s.mode_spec() == mode,
            s.transcript_view() == seq![MessageView { role: Role::System, content: seed_text() }],
    {
        let transcript = Transcript::new(String::from_str("You are a helpful assistant."));
        Session { transcript, phase: Phase::AwaitingInput, mode }
    }

    pub fn is_terminated(&self) -> (r: bool)
        ensures
            r == (self.phase() == Phase::Terminated),
    {
        self.phase == Phase::Terminated
    }

    pub fn awaiting_input(&self) -> (r: bool)
        ensures
            r == (self.phase() == Phase::AwaitingInput),
    {
        self.phase == Phase::AwaitingInput
    }

    pub fn transcript_len(&self) -> (n: usize)
        ensures
            n == self.transcript_view().len(),
    {
        self.transcript.len()
    }

    pub fn turn(&self, i: usize) -> (m: &crate::transcript::Message)
        requires
            i < self.transcript_view().len(),
        ensures
            m@ == self.transcript_view()[i as int],
    {
        self.transcript.turn(i)
    }

    /// Decide on one line of input. A sentinel terminates the session and
    /// leaves the transcript exactly as it was, with no request issued; any
    /// other line is appended as the user turn and comes back as the request
    /// to send, carrying the whole transcript.
    pub fn on_input(&mut self, line: String) -> (req: Option<RequestBody>)
        requires
            old(self).inv(),
            old(self).phase() == Phase::AwaitingInput,
        ensures
            final(self).inv(),
            final(self).mode_spec() == old(self).mode_spec(),
            match req {
                None => is_sentinel(line@) && final(self).phase() == Phase::Terminated
                    && final(self).transcript_view() == old(self).transcript_view(),
                Some(r) => !is_sentinel(line@) && final(self).phase() == Phase::ProcessingTurn
                    && final(self).transcript_view() == old(self).transcript_view().push(
                    MessageView { role: Role::User, content: line@ },
                ) && request_for(r, final(self).transcript_view(), final(self).mode_spec()),
            },
    {
        if line == String::from_str("quit") || line == String::from_str("q") {
            self.phase = Phase::Terminated;
            None
        } else {
            self.transcript.push_user(line);
            self.phase = Phase::ProcessingTurn;
            Some(build_request(&self.transcript, self.mode))
        }
    }

    /// Take delivery of the completed reply: it becomes the assistant turn
    /// and the session awaits the next input.
    pub fn on_reply(&mut self, content: String)
        requires
            old(self).inv(),
            old(self).phase() == Phase::ProcessingTurn,
        ensures
            final(self).inv(),
            final(self).phase() == Phase::AwaitingInput,
            final(self).mode_spec() == old(self).mode_spec(),
            final(self).transcript_view() == old(self).transcript_view().push(
                MessageView { role: Role::Assistant, content: content@ },
            ),
    {
        self.transcript.push_assistant(content);
        self.phase = Phase::AwaitingInput;
    }
}

/// The transcript after n completed exchanges: the system seed, then each
/// exchange's user line immediately followed by the assistant's reply.
/// `Session::on_input` and `Session::on_reply` append exactly these turns.
pub open spec fn chronicle(
    seed: Seq<char>,
    inputs: Seq<Seq<char>>,
    replies: Seq<Seq<char>>,
    n: nat,
) -> Seq<MessageView>
    decreases n,
{
    if n == 0 {
        seq![MessageView { role: Role::System, content: seed }]
    } else {
        chronicle(seed, inputs, replies, (n - 1) as nat).push(
            MessageView { role: Role::User, content: inputs[n - 1] },
        ).push(MessageView { role: Role::Assistant, content: replies[n - 1] })
    }
}

/// After any N exchanges the transcript holds exactly 1 + 2N turns in strict
/// chronological order: the seed first, then for each exchange its user turn
/// at position 2i + 1 and its assistant turn right after it.
pub proof fn lemma_transcript_shape(
    seed: Seq<char>,
    inputs: Seq<Seq<char>>,
    replies: Seq<Seq<char>>,
    n: nat,
)
    requires
        n <= inputs.len(),
        n <= replies.len(),
    ensures
        chronicle(seed, inputs, replies, n).len() == 1 + 2 * n,
        chronicle(seed, inputs, replies, n)[0] == (MessageView {
            role: Role::System,
            content: seed,
        }),
        forall|i: int|
            0 <= i < n ==> chronicle(seed, inputs, replies, n)[2 * i + 1] == (MessageView {
                role: Role::User,
                content: inputs[i],
            }),
        forall|i: int|
            0 <= i < n ==> chronicle(seed, inputs, replies, n)[2 * i + 2] == (MessageView {
                role: Role::Assistant,
                content: replies[i],
            }),
        well_formed(chronicle(seed, inputs, replies, n)),
    decreases n,
{
    if n > 0 {
        lemma_transcript_shape(seed, inputs, replies, (n - 1) as nat);
        let prev = chronicle(seed, inputs, replies, (n - 1) as nat);
        let cur = chronicle(seed, inputs, replies, n);
        assert forall|i: int| 0 <= i < n implies cur[2 * i + 1] == MessageView {
            role: Role::User,
            content: inputs[i],
        } by {
            if i < n - 1 {
                assert(cur[2 * i + 1] == prev[2 * i + 1]);
            }
        }
        assert forall|i: int| 0 <= i < n implies cur[2 * i + 2] == MessageView {
            role: Role::Assistant,
            content: replies[i],
        } by {
            if i < n - 1 {
                assert(cur[2 * i + 2] == prev[2 * i + 2]);
            }
        }
        assert forall|j: int|
            1 <= j < cur.len() implies cur[j].role == (if j % 2 == 1 {
            Role::User
        } else {
            Role::Assistant
        }) by {
            if j < prev.len() {
                assert(cur[j] == prev[j]);
            }
        }
    }
}

} // verus!
