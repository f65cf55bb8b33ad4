//! The session controller: the modal state machine over keystrokes, the
//! optimistic append of submitted messages, and the drain of completed
//! gateway calls. All mutation of the transcript happens here, synchronously;
//! the surrounding loop only reads keys, performs the network calls and
//! draws.
//!
//! Policy choices, stated once: `Enter` submits in both modes and does not
//! change the mode; submitting an empty input buffer is a no-op; submissions
//! are allowed while earlier calls are still outstanding, and replies are
//! appended in completion order.

use vstd::prelude::*;
use vstd::string::StringExecFns;

use crate::chat::{Chat, ChatView};
use crate::gemini;
use crate::input::InputBuffer;
use crate::message::{Author, AuthorView, Message, MessageView};

verus! {

/// Which keys are interpreted as commands and which as text.
#[derive(Clone, Copy, Debug, PartialEq, Eq, Structural)]
pub enum Mode {
    Normal,
    Insert,
}

/// A keyboard event, as the session sees it. The input source maps whatever
/// it reads to one of these; keys the session ignores arrive as `Other`.
#[derive(Clone, Copy, Debug)]
pub enum Key {
    Char(char),
    Esc,
    Enter,
    Backspace,
    Other,
}

/// A recoverable, per-request failure of one gateway call.
#[derive(Clone, Copy, Debug, PartialEq, Eq, Structural)]
pub enum GatewayError {
    /// The call could not be carried out at the transport level.
    Transport,
    /// The call resolved, but its payload held no usable reply.
    Malformed,
}

/// What one gateway call resolved to, as handed back by the loop: the reply
/// text on success, or the kind of failure.
pub enum GatewayOutcome {
    Reply(String),
    TransportFailed,
    Malformed,
}

/// Mathematical model of a [`GatewayOutcome`].
#[verifier::ext_equal]
pub ghost enum OutcomeView {
    Reply(Seq<char>),
    TransportFailed,
    Malformed,
}

impl View for GatewayOutcome {
    type V = OutcomeView;

    open spec fn view(&self) -> OutcomeView {
        match self {
            GatewayOutcome::Reply(t) => OutcomeView::Reply(t@),
            GatewayOutcome::TransportFailed => OutcomeView::TransportFailed,
            GatewayOutcome::Malformed => OutcomeView::Malformed,
        }
    }
}

impl DeepView for GatewayOutcome {
    type V = OutcomeView;

    open spec fn deep_view(&self) -> OutcomeView {
        self.view()
    }
}

/// A handle for one in-flight gateway call, tagged with the chat its reply
/// belongs to. Created on submit, removed exactly once on completion.
#[derive(Clone, Copy, Debug)]
pub struct PendingRequest {
    pub chat: usize,
}

/// The whole session state, as one mathematical value.
#[verifier::ext_equal]
pub ghost struct SessionView {
    pub username: Seq<char>,
    pub mode: Mode,
    pub chats: Seq<ChatView>,
    pub input: Seq<char>,
    pub pending: Seq<PendingRequest>,
    pub errors: Seq<GatewayError>,
    pub quit: bool,
}

/// There is always an active chat, and every outstanding call targets a chat
/// that exists.
pub open spec fn wf_view(s: SessionView) -> bool {
    &&& s.chats.len() >= 1
    &&& forall|i: int| 0 <= i < s.pending.len() ==> (#[trigger] s.pending[i]).chat < s.chats.len()
}

/// The state a fresh session starts in: normal mode, one empty chat, an
/// empty input buffer, nothing outstanding, not quitting.
pub open spec fn initial_view(username: Seq<char>) -> SessionView {
    SessionView {
        username,
        mode: Mode::Normal,
        chats: seq![ChatView { title: "test chat"@, messages: Seq::empty() }],
        input: Seq::empty(),
        pending: Seq::empty(),
        errors: Seq::empty(),
        quit: false,
    }
}

/// The user message a submit creates: the composed text, attributed to the
/// session's display name.
pub open spec fn submitted_message(s: SessionView) -> MessageView {
    MessageView { text: s.input, author: AuthorView::User(s.username) }
}

/// The active chat after a submit appended the new user message.
pub open spec fn chat_after_submit(s: SessionView) -> ChatView {
    ChatView { title: s.chats[0].title, messages: s.chats[0].messages.push(submitted_message(s)) }
}

/// What submitting does to the state: on empty input, nothing; otherwise the
/// input is taken and cleared, exactly one user message carrying that text is
/// appended to the active chat, and one call becomes outstanding. The mode
/// does not change.
pub open spec fn submit_state(s: SessionView) -> SessionView {
    if s.input.len() == 0 {
        s
    } else {
        SessionView {
            chats: s.chats.update(0, chat_after_submit(s)),
            input: Seq::empty(),
            pending: s.pending.push(PendingRequest { chat: 0 }),
            ..s
        }
    }
}

/// The request body a submit hands to the loop: on empty input, none;
/// otherwise the encoding of the active chat's full log, the new user
/// message last.
pub open spec fn submit_output(s: SessionView) -> Option<Seq<char>> {
    if s.input.len() == 0 {
        None
    } else {
        Some(gemini::enc_request(chat_after_submit(s).messages))
    }
}

/// The mode state machine: what one key does to the session state.
pub open spec fn next_state(s: SessionView, k: Key) -> SessionView {
    match s.mode {
        Mode::Normal => match k {
            Key::Char(c) => {
                if c == 'q' {
                    SessionView { quit: true, ..s }
                } else if c == 'i' {
                    SessionView { mode: Mode::Insert, ..s }
                } else {
                    s
                }
            },
            Key::Esc => SessionView { quit: true, ..s },
            Key::Enter => submit_state(s),
            Key::Backspace => s,
            Key::Other => s,
        },
        Mode::Insert => match k {
            Key::Char(c) => SessionView { input: s.input.push(c), ..s },
            Key::Esc => SessionView { mode: Mode::Normal, ..s },
            Key::Enter => submit_state(s),
            Key::Backspace => {
                if s.input.len() == 0 {
                    s
                } else {
                    SessionView { input: s.input.drop_last(), ..s }
                }
            },
            Key::Other => s,
        },
    }
}

/// The request body one key produces: only `Enter` on a non-empty buffer
/// produces one.
pub open spec fn key_output(s: SessionView, k: Key) -> Option<Seq<char>> {
    match k {
        Key::Enter => submit_output(s),
        _ => None,
    }
}

/// The assistant message a successful reply turns into.
pub open spec fn reply_message(t: Seq<char>) -> MessageView {
    MessageView { text: t, author: AuthorView::Ai }
}

/// The chat `c` with one assistant message appended.
pub open spec fn chat_with_reply(c: ChatView, t: Seq<char>) -> ChatView {
    ChatView { title: c.title, messages: c.messages.push(reply_message(t)) }
}

/// What one completed gateway call does to the state: its handle is removed,
/// and either exactly one assistant message is appended to the chat the
/// handle targets, or exactly one error is recorded and no chat changes.
/// Everything else — mode, input, quit — is untouched.
pub open spec fn complete_state(s: SessionView, o: OutcomeView) -> SessionView {
    if s.pending.len() == 0 {
        s
    } else {
        let req = s.pending.last();
        let rest = s.pending.drop_last();
        match o {
            OutcomeView::Reply(t) => SessionView {
                pending: rest,
                chats: s.chats.update(req.chat as int, chat_with_reply(s.chats[req.chat as int], t)),
                ..s
            },
            OutcomeView::TransportFailed => SessionView {
                pending: rest,
                errors: s.errors.push(GatewayError::Transport),
                ..s
            },
            OutcomeView::Malformed => SessionView {
                pending: rest,
                errors: s.errors.push(GatewayError::Malformed),
                ..s
            },
        }
    }
}

/// Draining a batch of completed calls, first to last.
pub open spec fn drain_steps(s: SessionView, os: Seq<OutcomeView>) -> SessionView
    decreases os.len(),
{
    if os.len() == 0 {
        s
    } else {
        drain_steps(complete_state(s, os[0]), os.skip(1))
    }
}

/// The session controller: owns the transcript, the input buffer, the mode
/// and the set of outstanding calls. The loop around it feeds it keys and
/// completed call outcomes and reads back what to send and what to draw.
pub struct Session {
    username: String,
    mode: Mode,
    chats: Vec<Chat>,
    input: InputBuffer,
    pending: Vec<PendingRequest>,
    errors: Vec<GatewayError>,
    quit: bool,
}

impl View for Session {
    type V = SessionView;

    closed spec fn view(&self) -> SessionView {
        SessionView {
            username: self.username@,
            mode: self.mode,
            chats: self.chats.deep_view(),
            input: self.input@,
            pending: self.pending@,
            errors: self.errors@,
            quit: self.quit,
        }
    }
}

impl Session {
    /// The model is well formed and the input buffer's character count is
    /// right.
    pub closed spec fn wf(&self) -> bool {
        wf_view(self@) && self.input.wf()
    }

    /// A well-formed session has a well-formed model.
    pub proof fn wf_implies_wf_view(&self)
        requires
            self.wf(),
        ensures
            wf_view(self@),
    {
    }

    /// A fresh session for the given display name.
    pub fn new(username: String) -> (s: Session)
        ensures
            s.wf(),
            s@ == initial_view(username@),
    {
        let chat = Chat::new(String::from_str("test chat"));
        let s = Session {
            username,
            mode: Mode::Normal,
            chats: vec![chat],
            input: InputBuffer::new(),
            pending: Vec::new(),
            errors: Vec::new(),
            quit: false,
        };
        proof {
            assert(s.chats.deep_view() =~= seq![chat@]);
            assert(s@ =~= initial_view(s.username@));
        }
        s
    }

    /// Take the composed text, append it to the active chat as a user
    /// message, and hand back the request body for the gateway call.
    fn submit(&mut self) -> (req: Option<String>)
        requires
            old(self).wf(),
        ensures
            final(self).wf(),
            final(self)@ == submit_state(old(self)@),
            req.deep_view() == submit_output(old(self)@),
    {
        if self.input.is_empty() {
            return None;
        }
        let text = self.input.take();
        let name = self.username.clone();
        let msg = Message::new(text, Author::USER(name));
        let ghost before = self.chats.deep_view();
        let mut chat = self.chats.remove(0);
        chat.append(msg);
        let body = gemini::to_req_body(&chat);
        self.chats.insert(0, chat);
        self.pending.push(PendingRequest { chat: 0 });
        proof {
            assert(self.chats.deep_view() =~= before.update(0, chat_after_submit(old(self)@)));
            assert(self@ =~= submit_state(old(self)@));
        }
        Some(body)
    }

    /// Dispatch one key through the mode state machine. The returned value,
    /// when present, is the request body of the one gateway call this key
    /// caused; the caller sends it and later hands the outcome to
    /// [`Session::drain`].
    pub fn handle_key(&mut self, k: Key) -> (req: Option<String>)
        requires
            old(self).wf(),
        ensures
            final(self).wf(),
            final(self)@ == next_state(old(self)@, k),
            req.deep_view() == key_output(old(self)@, k),
    {
        match self.mode {
            Mode::Normal => match k {
                Key::Char(c) => {
                    if c == 'q' {
                        self.quit = true;
                    } else if c == 'i' {
                        self.mode = Mode::Insert;
                    }
                    None
                },
                Key::Esc => {
                    self.quit = true;
                    None
                },
                Key::Enter => self.submit(),
                Key::Backspace => None,
                Key::Other => None,
            },
            Mode::Insert => match k {
                Key::Char(c) => {
                    self.input.push(c);
                    None
                },
                Key::Esc => {
                    self.mode = Mode::Normal;
                    None
                },
                Key::Enter => self.submit(),
                Key::Backspace => {
                    self.input.backspace();
                    None
                },
                Key::Other => None,
            },
        }
    }

    /// Resolve one completed gateway call: remove its handle and either
    /// append the reply to its chat or record the error.
    pub fn handle_completion(&mut self, o: GatewayOutcome)
        requires
            old(self).wf(),
            old(self)@.pending.len() > 0,
        ensures
            final(self).wf(),
            final(self)@ == complete_state(old(self)@, o@),
    {
        let ghost before = self.chats.deep_view();
        let req = match self.pending.pop() {
            Some(r) => r,
            None => unreached(),
        };
        match o {
            GatewayOutcome::Reply(t) => {
                let msg = Message::new(t, Author::AI);
                let mut chat = self.chats.remove(req.chat);
                chat.append(msg);
                self.chats.insert(req.chat, chat);
                proof {
                    assert(self.chats.deep_view() =~= before.update(
                        req.chat as int,
                        chat_with_reply(before[req.chat as int], msg@.text),
                    ));
                    assert(self@ =~= complete_state(old(self)@, o@));
                }
            },
            GatewayOutcome::TransportFailed => {
                self.errors.push(GatewayError::Transport);
                proof {
                    assert(self@ =~= complete_state(old(self)@, o@));
                }
            },
            GatewayOutcome::Malformed => {
                self.errors.push(GatewayError::Malformed);
                proof {
                    assert(self@ =~= complete_state(old(self)@, o@));
                }
            },
        }
    }

    /// Drain a batch of completed calls, first to last. The caller passes one
    /// outcome per call that actually completed, so there are never more
    /// outcomes than outstanding handles; a pass with an empty batch changes
    /// nothing.
    pub fn drain(&mut self, outcomes: Vec<GatewayOutcome>)
        requires
            old(self).wf(),
            outcomes@.len() <= old(self)@.pending.len(),
        ensures
            final(self).wf(),
            final(self)@ == drain_steps(old(self)@, outcomes.deep_view()),
    {
        let mut rest = outcomes;
        while rest.len() > 0
            invariant
                self.wf(),
                rest@.len() <= self@.pending.len(),
                drain_steps(old(self)@, outcomes.deep_view()) == drain_steps(
                    self@,
                    rest.deep_view(),
                ),
            decreases rest@.len(),
        {
            let ghost rest_before = rest.deep_view();
            let o = rest.remove(0);
            proof {
                assert(rest.deep_view() =~= rest_before.skip(1));
                assert(rest_before[0] == o@);
            }
            self.handle_completion(o);
        }
    }

    /// Whether the quit flag has been set.
    pub fn should_quit(&self) -> (b: bool)
        ensures
            b == self@.quit,
    {
        self.quit
    }

    pub fn mode(&self) -> (m: Mode)
        ensures
            m == self@.mode,
    {
        self.mode
    }

    /// How many gateway calls are outstanding.
    pub fn pending_count(&self) -> (n: usize)
        ensures
            n == self@.pending.len(),
    {
        self.pending.len()
    }

    /// The display name messages are attributed to.
    pub fn username(&self) -> (u: &str)
        ensures
            u@ == self@.username,
    {
        self.username.as_str()
    }

    /// The text composed so far.
    pub fn input_text(&self) -> (t: &str)
        ensures
            t@ == self@.input,
    {
        self.input.as_str()
    }

    /// The cursor column: how many characters are composed.
    pub fn input_char_count(&self) -> (n: usize)
        requires
            self.wf(),
        ensures
            n == self@.input.len(),
    {
        self.input.char_count()
    }

    pub fn chat_count(&self) -> (n: usize)
        ensures
            n == self@.chats.len(),
    {
        self.chats.len()
    }

    pub fn chat_at(&self, i: usize) -> (c: &Chat)
        requires
            i < self@.chats.len(),
        ensures
            c@ == self@.chats[i as int],
    {
        &self.chats[i]
    }

    /// The recoverable errors recorded so far, oldest first.
    pub fn errors(&self) -> (e: &Vec<GatewayError>)
        ensures
            e@ == self@.errors,
    {
        &self.errors
    }
}

} // verus!
