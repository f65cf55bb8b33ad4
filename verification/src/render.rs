//! The render adapter: a pure function of the session state to a layout
//! description — the transcript as styled display lines, the input region
//! with its cursor column, and the one-line status strip. Drawing the
//! description on a terminal happens outside this crate.

use vstd::prelude::*;
use vstd::string::StrSliceExecFns;
use vstd::string::StringExecFns;

use crate::chat::Chat;
use crate::message::{Author, AuthorView, Message, MessageView};
use crate::session::{GatewayError, Mode, Session};
use crate::text::{string_pop, string_push};

verus! {

/// How one display line is styled: the author label of a user or assistant
/// message, or a plain line of message text.
#[derive(Clone, Copy, Debug, PartialEq, Eq, Structural)]
pub enum LineKind {
    UserLabel,
    AssistantLabel,
    Body,
}

/// One line of the scrollable message region.
pub struct DisplayLine {
    pub text: String,
    pub kind: LineKind,
}

/// Mathematical model of a [`DisplayLine`].
#[verifier::ext_equal]
pub ghost struct DisplayLineView {
    pub text: Seq<char>,
    pub kind: LineKind,
}

impl View for DisplayLine {
    type V = DisplayLineView;

    open spec fn view(&self) -> DisplayLineView {
        DisplayLineView { text: self.text@, kind: self.kind }
    }
}

impl DeepView for DisplayLine {
    type V = DisplayLineView;

    open spec fn deep_view(&self) -> DisplayLineView {
        self.view()
    }
}

/// Everything one frame shows, as plain values.
pub struct RenderPlan {
    /// The active chat's title, over the message region.
    pub title: String,
    /// The message region, top to bottom.
    pub lines: Vec<DisplayLine>,
    /// The input region's text.
    pub input_text: String,
    /// In insert mode, the cursor's column inside the input region: the
    /// count of characters composed so far. Absent in normal mode.
    pub cursor_col: Option<usize>,
    /// The one-line help strip for the current mode.
    pub status: String,
    /// The most recent recoverable gateway error, if any, to surface in the
    /// status area.
    pub notice: Option<String>,
}

/// Mathematical model of a [`RenderPlan`].
#[verifier::ext_equal]
pub ghost struct RenderPlanView {
    pub title: Seq<char>,
    pub lines: Seq<DisplayLineView>,
    pub input_text: Seq<char>,
    pub cursor_col: Option<int>,
    pub status: Seq<char>,
    pub notice: Option<Seq<char>>,
}

impl View for RenderPlan {
    type V = RenderPlanView;

    open spec fn view(&self) -> RenderPlanView {
        RenderPlanView {
            title: self.title@,
            lines: self.lines.deep_view(),
            input_text: self.input_text@,
            cursor_col: match self.cursor_col {
                Some(c) => Some(c as int),
                None => None,
            },
            status: self.status@,
            notice: self.notice.deep_view(),
        }
    }
}

/// A line with a trailing carriage return dropped: the `"\r\n"` ending is
/// one line break, so the `'\r'` belongs to the ending, not to the line.
pub open spec fn strip_cr(l: Seq<char>) -> Seq<char> {
    if l.len() > 0 && l.last() == '\r' {
        l.drop_last()
    } else {
        l
    }
}

/// The text split at line endings: the lines collected so far in `cur`, then
/// one line per stretch of `rest` ended by `'\n'` or `"\r\n"`. A trailing
/// line ending closes the last line without opening an empty one; a carriage
/// return not followed by a newline is an ordinary character of its line.
pub open spec fn lines_from(rest: Seq<char>, cur: Seq<char>) -> Seq<Seq<char>>
    decreases rest.len(),
{
    if rest.len() == 0 {
        if cur.len() == 0 {
            Seq::empty()
        } else {
            seq![cur]
        }
    } else if rest[0] == '\n' {
        seq![strip_cr(cur)] + lines_from(rest.skip(1), Seq::empty())
    } else {
        lines_from(rest.skip(1), cur.push(rest[0]))
    }
}

/// A text as its display lines: embedded `'\n'` and `"\r\n"` line endings
/// separate lines, an empty text has none.
pub open spec fn split_lines(s: Seq<char>) -> Seq<Seq<char>> {
    lines_from(s, Seq::empty())
}

/// The label line over one message's text: the user's display name, or the
/// assistant's fixed name, each with its own styling.
pub open spec fn label_line(a: AuthorView) -> DisplayLineView {
    match a {
        AuthorView::User(name) => DisplayLineView { text: name, kind: LineKind::UserLabel },
        AuthorView::Ai => DisplayLineView { text: "gemini"@, kind: LineKind::AssistantLabel },
    }
}

/// A line of message text as one plainly styled display line.
pub open spec fn body_line(t: Seq<char>) -> DisplayLineView {
    DisplayLineView { text: t, kind: LineKind::Body }
}

/// Lines of message text as display lines.
pub open spec fn body_lines(ts: Seq<Seq<char>>) -> Seq<DisplayLineView> {
    ts.map_values(|t: Seq<char>| body_line(t))
}

/// One message as display lines: its author label, then one body line per
/// line of its text.
pub open spec fn message_lines(m: MessageView) -> Seq<DisplayLineView> {
    seq![label_line(m.author)] + body_lines(split_lines(m.text))
}

/// A whole transcript as display lines, message after message in order.
pub open spec fn transcript_lines(ms: Seq<MessageView>) -> Seq<DisplayLineView>
    decreases ms.len(),
{
    if ms.len() == 0 {
        Seq::empty()
    } else {
        message_lines(ms[0]) + transcript_lines(ms.skip(1))
    }
}

/// The help strip's text for each mode.
pub open spec fn status_text(m: Mode) -> Seq<char> {
    match m {
        Mode::Normal => "<i> to insert | <Enter> to submit | <q> to exit"@,
        Mode::Insert => "<Esc> to exit insert mode"@,
    }
}

/// The words an error is surfaced with.
pub open spec fn error_text(e: GatewayError) -> Seq<char> {
    match e {
        GatewayError::Transport => "the request to the gateway failed"@,
        GatewayError::Malformed => "the gateway returned a malformed reply"@,
    }
}

impl GatewayError {
    /// The words this error is surfaced with.
    pub fn message(&self) -> (s: String)
        ensures
            s@ == error_text(*self),
    {
        match self {
            GatewayError::Transport => String::from_str("the request to the gateway failed"),
            GatewayError::Malformed => String::from_str("the gateway returned a malformed reply"),
        }
    }
}

/// Split a text at line endings into owned lines, exactly as
/// [`split_lines`] says.
pub fn split_text_lines(s: &str) -> (lines: Vec<String>)
    ensures
        lines.deep_view() == split_lines(s@),
{
    let n = s.unicode_len();
    let mut lines: Vec<String> = Vec::new();
    let mut cur = String::new();
    let mut ends_cr: bool = false;
    let mut i: usize = 0;
    proof {
        assert(s@.skip(0) =~= s@);
        assert(lines.deep_view() =~= Seq::<Seq<char>>::empty());
        assert(lines.deep_view() + lines_from(s@, cur@) =~= lines_from(s@, cur@));
    }
    while i < n
        invariant
            n == s@.len(),
            i <= n,
            ends_cr == (cur@.len() > 0 && cur@.last() == '\r'),
            split_lines(s@) == lines.deep_view() + lines_from(s@.skip(i as int), cur@),
        decreases n - i,
    {
        let ghost lines_before = lines.deep_view();
        let ghost cur_before = cur@;
        let c = s.get_char(i);
        proof {
            assert(s@.skip(i as int)[0] == s@[i as int]);
            assert(s@.skip(i as int).skip(1) =~= s@.skip(i + 1));
        }
        if c == '\n' {
            if ends_cr {
                let _ = string_pop(&mut cur);
            }
            proof {
                assert(cur@ =~= strip_cr(cur_before));
            }
            lines.push(cur);
            cur = String::new();
            ends_cr = false;
            proof {
                assert(lines.deep_view() =~= lines_before.push(strip_cr(cur_before)));
                assert(lines_before + (seq![strip_cr(cur_before)] + lines_from(
                    s@.skip(i + 1),
                    Seq::empty(),
                )) =~= lines.deep_view() + lines_from(s@.skip(i + 1), cur@));
            }
        } else {
            string_push(&mut cur, c);
            ends_cr = c == '\r';
        }
        i = i + 1;
    }
    proof {
        assert(s@.skip(n as int) =~= Seq::<char>::empty());
    }
    if !cur.as_str().is_empty() {
        let ghost lines_before = lines.deep_view();
        let ghost cur_before = cur@;
        lines.push(cur);
        proof {
            assert(lines.deep_view() =~= lines_before.push(cur_before));
            assert(lines_before + seq![cur_before] =~= lines.deep_view());
        }
    } else {
        proof {
            assert(lines.deep_view() + Seq::<Seq<char>>::empty() =~= lines.deep_view());
        }
    }
    lines
}

impl Message {
    /// This message as its display lines: the author label, then one body
    /// line per line of text.
    pub fn render(&self) -> (lines: Vec<DisplayLine>)
        ensures
            lines.deep_view() == message_lines(self@),
    {
        let mut lines: Vec<DisplayLine> = Vec::new();
        let label = match &self.author {
            Author::USER(name) => DisplayLine { text: name.clone(), kind: LineKind::UserLabel },
            Author::AI => DisplayLine {
                text: String::from_str("gemini"),
                kind: LineKind::AssistantLabel,
            },
        };
        lines.push(label);
        let body = split_text_lines(self.text.as_str());
        let ghost body_view = body.deep_view();
        proof {
            assert(lines.deep_view() =~= seq![label_line(self@.author)]);
            assert(body_lines(body_view.take(0)) =~= Seq::<DisplayLineView>::empty());
            assert(lines.deep_view() =~= seq![label_line(self@.author)] + body_lines(
                body_view.take(0),
            ));
        }
        let mut j: usize = 0;
        while j < body.len()
            invariant
                body.deep_view() == body_view,
                j <= body.len(),
                body.len() == body_view.len(),
                lines.deep_view() == seq![label_line(self@.author)] + body_lines(
                    body_view.take(j as int),
                ),
            decreases body.len() - j,
        {
            let ghost lines_before = lines.deep_view();
            let t = body[j].clone();
            proof {
                assert(t@ == body_view[j as int]);
            }
            lines.push(DisplayLine { text: t, kind: LineKind::Body });
            proof {
                assert(lines.deep_view() =~= lines_before.push(body_line(body_view[j as int])));
                assert(body_view.take(j + 1) =~= body_view.take(j as int).push(
                    body_view[j as int],
                ));
                assert(body_lines(body_view.take(j + 1)) =~= body_lines(
                    body_view.take(j as int),
                ).push(body_line(body_view[j as int])));
                assert(lines.deep_view() =~= seq![label_line(self@.author)] + body_lines(
                    body_view.take(j + 1),
                ));
            }
            j = j + 1;
        }
        proof {
            assert(body_view.take(j as int) =~= body_view);
            assert(lines.deep_view() =~= message_lines(self@));
        }
        lines
    }
}

/// All display lines of one chat's transcript, in order.
pub fn chat_lines(chat: &Chat) -> (lines: Vec<DisplayLine>)
    ensures
        lines.deep_view() == transcript_lines(chat@.messages),
{
    let mut lines: Vec<DisplayLine> = Vec::new();
    let ghost ms = chat@.messages;
    let mut i: usize = 0;
    proof {
        assert(lines.deep_view() =~= Seq::<DisplayLineView>::empty());
        assert(ms.skip(0) =~= ms);
        assert(lines.deep_view() + transcript_lines(ms) =~= transcript_lines(ms));
    }
    while i < chat.messages.len()
        invariant
            i <= chat.messages.len(),
            ms == chat@.messages,
            ms.len() == chat.messages.len(),
            transcript_lines(ms) == lines.deep_view() + transcript_lines(ms.skip(i as int)),
        decreases chat.messages.len() - i,
    {
        let ghost lines_before = lines.deep_view();
        let mut msg_lines = chat.messages[i].render();
        let ghost msg_view = msg_lines.deep_view();
        proof {
            assert(chat.messages[i as int]@ == ms[i as int]);
            assert(ms.skip(i as int)[0] == ms[i as int]);
            assert(ms.skip(i as int).skip(1) =~= ms.skip(i + 1));
        }
        lines.append(&mut msg_lines);
        proof {
            assert(lines.deep_view() =~= lines_before + msg_view);
            assert(lines.deep_view() + transcript_lines(ms.skip(i + 1)) =~= lines_before + (
            message_lines(ms[i as int]) + transcript_lines(ms.skip(i + 1))));
        }
        i = i + 1;
    }
    proof {
        assert(transcript_lines(ms.skip(i as int)) =~= Seq::<DisplayLineView>::empty());
        assert(lines.deep_view() + Seq::<DisplayLineView>::empty() =~= lines.deep_view());
    }
    lines
}

/// What the frame for the session state `s` shows.
pub open spec fn plan_view(s: crate::session::SessionView) -> RenderPlanView {
    RenderPlanView {
        title: s.chats[0].title,
        lines: transcript_lines(s.chats[0].messages),
        input_text: s.input,
        cursor_col: match s.mode {
            Mode::Insert => Some(s.input.len() as int),
            Mode::Normal => None,
        },
        status: status_text(s.mode),
        notice: if s.errors.len() == 0 {
            None
        } else {
            Some(error_text(s.errors.last()))
        },
    }
}

impl Session {
    /// Lay out one frame: the active chat's lines, the input region with its
    /// cursor, the mode's help strip and the latest error notice. Pure: the
    /// session is not changed.
    pub fn render_plan(&self) -> (p: RenderPlan)
        requires
            self.wf(),
        ensures
            p@ == plan_view(self@),
    {
        proof {
            self.wf_implies_wf_view();
        }
        let chat = self.chat_at(0);
        let title = chat.title.clone();
        let lines = chat_lines(chat);
        let input_text = String::from_str(self.input_text());
        let cursor_col = match self.mode() {
            Mode::Insert => Some(self.input_char_count()),
            Mode::Normal => None,
        };
        let status = match self.mode() {
            Mode::Normal => String::from_str("<i> to insert | <Enter> to submit | <q> to exit"),
            Mode::Insert => String::from_str("<Esc> to exit insert mode"),
        };
        let errors = self.errors();
        let notice = if errors.len() == 0 {
            None
        } else {
            Some(errors[errors.len() - 1].message())
        };
        let p = RenderPlan { title, lines, input_text, cursor_col, status, notice };
        proof {
            assert(p@ =~= plan_view(self@));
        }
        p
    }
}

} // verus!
