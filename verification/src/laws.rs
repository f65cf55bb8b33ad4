//! Laws of the session state machine, proved once and for all: what whole
//! sequences of keystrokes and whole drain passes do to the session.

use vstd::prelude::*;

use crate::gemini;
use crate::message::AuthorView;
use crate::session::{
    complete_state, drain_steps, key_output, next_state, reply_message, submit_output,
    submit_state, submitted_message, wf_view, GatewayError, Key, Mode, OutcomeView, SessionView,
};

verus! {

/// Running a sequence of keys through the mode state machine, first to last.
pub open spec fn steps(s: SessionView, ks: Seq<Key>) -> SessionView
    decreases ks.len(),
{
    if ks.len() == 0 {
        s
    } else {
        steps(next_state(s, ks[0]), ks.skip(1))
    }
}

/// The keys that command nothing in normal mode: everything but `i`, `q`,
/// `Esc` and `Enter`.
pub open spec fn passive_normal_key(k: Key) -> bool {
    match k {
        Key::Char(c) => c != 'q' && c != 'i',
        Key::Esc => false,
        Key::Enter => false,
        Key::Backspace => true,
        Key::Other => true,
    }
}

/// In normal mode, any sequence of keystrokes containing neither `i`, `q`,
/// `Esc` nor `Enter` leaves the whole session state unchanged — in
/// particular the mode stays normal and the input buffer keeps its text.
pub proof fn lemma_normal_mode_ignores_passive_keys(s: SessionView, ks: Seq<Key>)
    requires
        s.mode == Mode::Normal,
        forall|i: int| 0 <= i < ks.len() ==> passive_normal_key(#[trigger] ks[i]),
    ensures
        steps(s, ks) == s,
    decreases ks.len(),
{
    if ks.len() > 0 {
        assert(passive_normal_key(ks[0]));
        assert(next_state(s, ks[0]) == s);
        assert forall|i: int| 0 <= i < ks.skip(1).len() implies passive_normal_key(
            #[trigger] ks.skip(1)[i],
        ) by {
            assert(ks.skip(1)[i] == ks[i + 1]);
        }
        lemma_normal_mode_ignores_passive_keys(s, ks.skip(1));
    }
}

/// The keystroke that types one character.
pub open spec fn char_key(c: char) -> Key {
    Key::Char(c)
}

/// Each character of `cs` as the keystroke that types it.
pub open spec fn char_keys(cs: Seq<char>) -> Seq<Key> {
    Seq::new(cs.len(), |i: int| char_key(cs[i]))
}

/// `n` backspace keystrokes.
pub open spec fn backspace_keys(n: nat) -> Seq<Key> {
    Seq::new(n, |i: int| Key::Backspace)
}

/// Keystroke sequences compose: running `a` then `b` is running `a + b`.
pub proof fn lemma_steps_concat(s: SessionView, a: Seq<Key>, b: Seq<Key>)
    ensures
        steps(s, a + b) == steps(steps(s, a), b),
    decreases a.len(),
{
    if a.len() == 0 {
        assert(a + b =~= b);
    } else {
        assert((a + b)[0] == a[0]);
        assert((a + b).skip(1) =~= a.skip(1) + b);
        lemma_steps_concat(next_state(s, a[0]), a.skip(1), b);
    }
}

/// Typing a text in insert mode appends it to the input buffer and changes
/// nothing else.
pub proof fn lemma_insert_typing(s: SessionView, cs: Seq<char>)
    requires
        s.mode == Mode::Insert,
    ensures
        steps(s, char_keys(cs)) == (SessionView { input: s.input + cs, ..s }),
    decreases cs.len(),
{
    if cs.len() == 0 {
        assert(char_keys(cs).len() == 0);
        assert(s.input + cs =~= s.input);
        assert(steps(s, char_keys(cs)) =~= (SessionView { input: s.input + cs, ..s }));
    } else {
        let s1 = SessionView { input: s.input.push(cs[0]), ..s };
        assert(char_keys(cs)[0] == Key::Char(cs[0]));
        assert(next_state(s, char_keys(cs)[0]) == s1);
        assert(char_keys(cs).skip(1) =~= char_keys(cs.skip(1)));
        lemma_insert_typing(s1, cs.skip(1));
        assert(s1.input + cs.skip(1) =~= s.input + cs);
        assert(steps(s, char_keys(cs)) =~= (SessionView { input: s.input + cs, ..s }));
    }
}

/// Backspacing once per character of `tail` peels exactly `tail` off the end
/// of the input buffer and changes nothing else.
pub proof fn lemma_insert_backspaces(s: SessionView, pre: Seq<char>, tail: Seq<char>)
    requires
        s.mode == Mode::Insert,
        s.input == pre + tail,
    ensures
        steps(s, backspace_keys(tail.len())) == (SessionView { input: pre, ..s }),
    decreases tail.len(),
{
    if tail.len() == 0 {
        assert(pre + tail =~= pre);
        assert(steps(s, backspace_keys(0)) =~= (SessionView { input: pre, ..s }));
    } else {
        assert(backspace_keys(tail.len())[0] == Key::Backspace);
        assert(s.input.len() > 0);
        assert(s.input.drop_last() =~= pre + tail.drop_last());
        let s1 = SessionView { input: s.input.drop_last(), ..s };
        assert(next_state(s, Key::Backspace) == s1);
        assert(backspace_keys(tail.len()).skip(1) =~= backspace_keys((tail.len() - 1) as nat));
        lemma_insert_backspaces(s1, pre, tail.drop_last());
    }
}

/// Round trip: typing any text in insert mode and then pressing backspace
/// the same number of times returns the session — input buffer and character
/// count included — to exactly the state before typing.
pub proof fn lemma_insert_round_trip(s: SessionView, cs: Seq<char>)
    requires
        s.mode == Mode::Insert,
    ensures
        steps(s, char_keys(cs) + backspace_keys(cs.len())) == s,
{
    lemma_steps_concat(s, char_keys(cs), backspace_keys(cs.len()));
    lemma_insert_typing(s, cs);
    let s1 = steps(s, char_keys(cs));
    lemma_insert_backspaces(s1, s.input, cs);
    assert((SessionView { input: s.input, ..s1 }) =~= s);
}

/// Submitting a non-empty input buffer appends exactly one user message
/// carrying exactly the composed text, clears the buffer, keeps the mode,
/// and issues exactly one gateway call whose body encodes the active chat's
/// log with the new message as its last entry.
pub proof fn lemma_submit_appends_exactly_one(s: SessionView)
    requires
        wf_view(s),
        s.input.len() > 0,
    ensures
        ({
            let s1 = submit_state(s);
            &&& s1.chats.len() == s.chats.len()
            &&& s1.chats[0].messages == s.chats[0].messages.push(submitted_message(s))
            &&& s1.chats[0].messages.last() == submitted_message(s)
            &&& submitted_message(s).text == s.input
            &&& submitted_message(s).author == AuthorView::User(s.username)
            &&& s1.input.len() == 0
            &&& s1.mode == s.mode
            &&& s1.pending.len() == s.pending.len() + 1
            &&& key_output(s, Key::Enter) == Some(gemini::enc_request(s1.chats[0].messages))
        }),
{
    let s1 = submit_state(s);
    assert(s1.chats[0] == s.chats.update(0, crate::session::chat_after_submit(s))[0]);
    assert(key_output(s, Key::Enter) == submit_output(s));
}

/// Drain passes compose: draining one batch and then another is draining
/// their concatenation, so splitting completions over several loop
/// iterations changes nothing about the end state.
pub proof fn lemma_drain_concat(s: SessionView, a: Seq<OutcomeView>, b: Seq<OutcomeView>)
    ensures
        drain_steps(s, a + b) == drain_steps(drain_steps(s, a), b),
    decreases a.len(),
{
    if a.len() == 0 {
        assert(a + b =~= b);
    } else {
        assert((a + b)[0] == a[0]);
        assert((a + b).skip(1) =~= a.skip(1) + b);
        lemma_drain_concat(complete_state(s, a[0]), a.skip(1), b);
    }
}

/// A completed call with a successful reply appends exactly one assistant
/// message, to the chat its handle targets and to no other, removes that one
/// handle, records no error — and a further drain pass in which nothing has
/// completed changes nothing at all, so the reply is never appended twice.
pub proof fn lemma_drain_reply_appends_once(s: SessionView, r: Seq<char>)
    requires
        wf_view(s),
        s.pending.len() > 0,
    ensures
        ({
            let t = s.pending.last().chat as int;
            let s1 = drain_steps(s, seq![OutcomeView::Reply(r)]);
            &&& s1.chats.len() == s.chats.len()
            &&& s1.chats[t].messages == s.chats[t].messages.push(reply_message(r))
            &&& forall|j: int| 0 <= j < s.chats.len() && j != t ==> s1.chats[j] == s.chats[j]
            &&& s1.pending == s.pending.drop_last()
            &&& s1.errors == s.errors
            &&& drain_steps(s1, Seq::empty()) == s1
        }),
{
    let os = seq![OutcomeView::Reply(r)];
    let s1 = complete_state(s, OutcomeView::Reply(r));
    assert(os[0] == OutcomeView::Reply(r));
    assert(os.skip(1) =~= Seq::<OutcomeView>::empty());
    assert(drain_steps(s1, Seq::<OutcomeView>::empty()) == s1);
    assert(drain_steps(s, os) == s1);
}

/// A call that resolves with a malformed payload mutates no transcript: it
/// only removes the one handle and records exactly one recoverable error.
/// The quit flag, the mode and the input buffer are untouched, so the
/// session keeps running.
pub proof fn lemma_malformed_reply_is_harmless(s: SessionView)
    requires
        s.pending.len() > 0,
    ensures
        ({
            let s1 = complete_state(s, OutcomeView::Malformed);
            &&& s1.chats == s.chats
            &&& s1.errors == s.errors.push(GatewayError::Malformed)
            &&& s1.pending == s.pending.drop_last()
            &&& s1.quit == s.quit
            &&& s1.mode == s.mode
            &&& s1.input == s.input
        }),
{
}

/// A transport failure is handled the same way: no transcript mutation, one
/// recorded error, the session keeps running.
pub proof fn lemma_transport_failure_is_harmless(s: SessionView)
    requires
        s.pending.len() > 0,
    ensures
        ({
            let s1 = complete_state(s, OutcomeView::TransportFailed);
            &&& s1.chats == s.chats
            &&& s1.errors == s.errors.push(GatewayError::Transport)
            &&& s1.pending == s.pending.drop_last()
            &&& s1.quit == s.quit
            &&& s1.mode == s.mode
            &&& s1.input == s.input
        }),
{
}

} // verus!
