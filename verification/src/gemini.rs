//! The gateway wire format, both directions. A transcript is encoded as one
//! JSON document, `{"contents":[...]}`, with one entry per message in
//! transcript order, carrying the message's role and its text; the gateway's
//! response document is decoded down to its one reply text. Encoder and
//! decoder are written out here character by character, with the full JSON
//! string escaping, and proved equal to the spec-level grammars below.
//! Sending the request and receiving the response happen outside this
//! crate.

use vstd::prelude::*;
use vstd::string::StrSliceExecFns;
use vstd::string::StringExecFns;

use crate::chat::Chat;
use crate::message::{Author, AuthorView, Message, MessageView};
use crate::session::GatewayError;
use crate::text::{char_from_u32, string_push};

verus! {

/// The lower-case hexadecimal digit for a value below sixteen.
pub open spec fn hex_digit(v: int) -> char {
    if v == 0 {
        '0'
    } else if v == 1 {
        '1'
    } else if v == 2 {
        '2'
    } else if v == 3 {
        '3'
    } else if v == 4 {
        '4'
    } else if v == 5 {
        '5'
    } else if v == 6 {
        '6'
    } else if v == 7 {
        '7'
    } else if v == 8 {
        '8'
    } else if v == 9 {
        '9'
    } else if v == 10 {
        'a'
    } else if v == 11 {
        'b'
    } else if v == 12 {
        'c'
    } else if v == 13 {
        'd'
    } else if v == 14 {
        'e'
    } else {
        'f'
    }
}

/// How one character appears inside a JSON string literal: quotes,
/// backslashes and the common control characters get their short escapes,
/// the remaining control characters a `\u00..` escape, everything else
/// stands as itself.
pub open spec fn esc_char(c: char) -> Seq<char> {
    if c == '"' {
        seq!['\\', '"']
    } else if c == '\\' {
        seq!['\\', '\\']
    } else if c == '\n' {
        seq!['\\', 'n']
    } else if c == '\r' {
        seq!['\\', 'r']
    } else if c == '\t' {
        seq!['\\', 't']
    } else if (c as u32) < 32 {
        seq![
            '\\',
            'u',
            '0',
            '0',
            hex_digit((c as u32) as int / 16),
            hex_digit((c as u32) as int % 16),
        ]
    } else {
        seq![c]
    }
}

/// A whole text as it appears inside a JSON string literal.
pub open spec fn json_escape(s: Seq<char>) -> Seq<char>
    decreases s.len(),
{
    if s.len() == 0 {
        Seq::empty()
    } else {
        esc_char(s[0]) + json_escape(s.skip(1))
    }
}

/// The role label the gateway expects for each author.
pub open spec fn role_text(a: AuthorView) -> Seq<char> {
    match a {
        AuthorView::User(_) => "user"@,
        AuthorView::Ai => "model"@,
    }
}

/// One message as one entry of the request's `contents` array.
pub open spec fn enc_message(m: MessageView) -> Seq<char> {
    "{\"role\":\""@ + role_text(m.author) + "\",\"parts\":[{\"text\":\""@ + json_escape(m.text)
        + "\"}]}"@
}

/// Every message after the first, each preceded by the separating comma.
pub open spec fn enc_tail(ms: Seq<MessageView>) -> Seq<char>
    decreases ms.len(),
{
    if ms.len() == 0 {
        Seq::empty()
    } else {
        ","@ + enc_message(ms[0]) + enc_tail(ms.skip(1))
    }
}

/// A comma-separated encoding of a message sequence, in order.
pub open spec fn enc_messages(ms: Seq<MessageView>) -> Seq<char> {
    if ms.len() == 0 {
        Seq::empty()
    } else {
        enc_message(ms[0]) + enc_tail(ms.skip(1))
    }
}

/// The whole request body for a transcript.
pub open spec fn enc_request(ms: Seq<MessageView>) -> Seq<char> {
    "{\"contents\":["@ + enc_messages(ms) + "]}"@
}

/// Escaping a text one character longer appends that character's escape.
proof fn lemma_json_escape_snoc(t: Seq<char>, c: char)
    ensures
        json_escape(t.push(c)) == json_escape(t) + esc_char(c),
    decreases t.len(),
{
    if t.len() == 0 {
        assert(t.push(c)[0] == c);
        assert(t.push(c).skip(1) =~= Seq::<char>::empty());
        assert(json_escape(Seq::<char>::empty()) =~= Seq::<char>::empty());
        assert(json_escape(t.push(c)) =~= esc_char(c));
        assert(json_escape(t) =~= Seq::<char>::empty());
        assert(json_escape(t.push(c)) =~= json_escape(t) + esc_char(c));
    } else {
        assert(t.push(c)[0] == t[0]);
        assert(t.push(c).skip(1) =~= t.skip(1).push(c));
        lemma_json_escape_snoc(t.skip(1), c);
        assert(json_escape(t.push(c)) =~= json_escape(t) + esc_char(c));
    }
}

fn push_hex(out: &mut String, v: u32)
    requires
        v < 16,
    ensures
        final(out)@ == old(out)@.push(hex_digit(v as int)),
{
    let c: char = if v == 0 {
        '0'
    } else if v == 1 {
        '1'
    } else if v == 2 {
        '2'
    } else if v == 3 {
        '3'
    } else if v == 4 {
        '4'
    } else if v == 5 {
        '5'
    } else if v == 6 {
        '6'
    } else if v == 7 {
        '7'
    } else if v == 8 {
        '8'
    } else if v == 9 {
        '9'
    } else if v == 10 {
        'a'
    } else if v == 11 {
        'b'
    } else if v == 12 {
        'c'
    } else if v == 13 {
        'd'
    } else if v == 14 {
        'e'
    } else {
        'f'
    };
    string_push(out, c);
}

fn append_escaped_char(out: &mut String, c: char)
    ensures
        final(out)@ == old(out)@ + esc_char(c),
{
    if c == '"' {
        string_push(out, '\\');
        string_push(out, '"');
    } else if c == '\\' {
        string_push(out, '\\');
        string_push(out, '\\');
    } else if c == '\n' {
        string_push(out, '\\');
        string_push(out, 'n');
    } else if c == '\r' {
        string_push(out, '\\');
        string_push(out, 'r');
    } else if c == '\t' {
        string_push(out, '\\');
        string_push(out, 't');
    } else if (c as u32) < 32 {
        let u = c as u32;
        string_push(out, '\\');
        string_push(out, 'u');
        string_push(out, '0');
        string_push(out, '0');
        push_hex(out, u / 16);
        push_hex(out, u % 16);
    } else {
        string_push(out, c);
    }
    proof {
        assert(out@ =~= old(out)@ + esc_char(c));
    }
}

fn append_escaped(out: &mut String, s: &str)
    ensures
        final(out)@ == old(out)@ + json_escape(s@),
{
    let n = s.unicode_len();
    let mut i: usize = 0;
    proof {
        assert(s@.take(0) =~= Seq::<char>::empty());
        assert(out@ =~= old(out)@ + json_escape(s@.take(0)));
    }
    while i < n
        invariant
            n == s@.len(),
            i <= n,
            out@ == old(out)@ + json_escape(s@.take(i as int)),
        decreases n - i,
    {
        let c = s.get_char(i);
        append_escaped_char(out, c);
        proof {
            lemma_json_escape_snoc(s@.take(i as int), c);
            assert(s@.take(i + 1) =~= s@.take(i as int).push(c));
            assert(out@ =~= old(out)@ + json_escape(s@.take(i + 1)));
        }
        i = i + 1;
    }
    proof {
        assert(s@.take(n as int) =~= s@);
    }
}

fn append_message(out: &mut String, m: &Message)
    ensures
        final(out)@ == old(out)@ + enc_message(m@),
{
    out.append("{\"role\":\"");
    match &m.author {
        Author::USER(_) => out.append("user"),
        Author::AI => out.append("model"),
    }
    out.append("\",\"parts\":[{\"text\":\"");
    append_escaped(out, m.text.as_str());
    out.append("\"}]}");
    proof {
        assert(out@ =~= old(out)@ + enc_message(m@));
    }
}

fn append_tail(out: &mut String, msgs: &Vec<Message>, i: usize)
    requires
        i <= msgs.len(),
    ensures
        final(out)@ == old(out)@ + enc_tail(msgs.deep_view().skip(i as int)),
    decreases msgs.len() - i,
{
    if i < msgs.len() {
        out.append(",");
        append_message(out, &msgs[i]);
        append_tail(out, msgs, i + 1);
        proof {
            let ms = msgs.deep_view();
            assert(ms.skip(i as int)[0] == ms[i as int]);
            assert(ms.skip(i as int).skip(1) =~= ms.skip(i + 1));
            assert(out@ =~= old(out)@ + enc_tail(ms.skip(i as int)));
        }
    } else {
        proof {
            assert(msgs.deep_view().skip(i as int) =~= Seq::<MessageView>::empty());
            assert(out@ =~= old(out)@ + enc_tail(msgs.deep_view().skip(i as int)));
        }
    }
}

/// The request body carrying this chat's full message log, in order.
pub fn to_req_body(chat: &Chat) -> (r: String)
    ensures
        r@ == enc_request(chat@.messages),
{
    let mut out = String::new();
    out.append("{\"contents\":[");
    if chat.messages.len() > 0 {
        append_message(&mut out, &chat.messages[0]);
        append_tail(&mut out, &chat.messages, 1);
        proof {
            let ms = chat.messages.deep_view();
            assert(ms[0] == chat@.messages[0]);
            assert(ms.skip(1) =~= chat@.messages.skip(1));
        }
    }
    out.append("]}");
    proof {
        assert(out@ =~= enc_request(chat@.messages));
    }
    out
}

// ---------------------------------------------------------------------------
// Decoding the gateway's reply. The response is one JSON document; the reply
// text sits at `candidates[0].content.parts[0].text`. The grammar below is
// spelled out as spec functions — objects, arrays, strings with the full
// escape rules (surrogate pairs included), numbers, the three keywords — and
// the executable decoder is proved to return exactly what the grammar says.
// Members other than the ones on that path are skipped, nesting is bounded,
// and anything that does not fit the grammar (a missing member, an empty
// candidate list, a lone surrogate, a truncated document) decodes to `None`.
// ---------------------------------------------------------------------------

/// How deep skipped values may nest before the document counts as malformed.
pub open spec fn nesting_allowance() -> int {
    256
}

pub open spec fn is_json_ws(c: char) -> bool {
    c == ' ' || c == '\t' || c == '\n' || c == '\r'
}

/// The first index at or after `i` holding no whitespace.
pub open spec fn ws_end(s: Seq<char>, i: int) -> int
    decreases s.len() - i,
{
    if 0 <= i < s.len() && is_json_ws(s[i]) {
        ws_end(s, i + 1)
    } else {
        i
    }
}

/// The value of one hexadecimal digit, upper or lower case.
pub open spec fn hex_digit_val(c: char) -> Option<int> {
    let u = c as u32;
    if 48 <= u <= 57 {
        Some(u - 48)
    } else if 97 <= u <= 102 {
        Some(u - 87)
    } else if 65 <= u <= 70 {
        Some(u - 55)
    } else {
        None
    }
}

/// The value of the four hexadecimal digits at `i`.
pub open spec fn hex4_val(s: Seq<char>, i: int) -> Option<int> {
    if 0 <= i && i + 4 <= s.len() {
        match (hex_digit_val(s[i]), hex_digit_val(s[i + 1]), hex_digit_val(s[i + 2]), hex_digit_val(
            s[i + 3],
        )) {
            (Some(a), Some(b), Some(c), Some(d)) => Some(a * 4096 + b * 256 + c * 16 + d),
            _ => None,
        }
    } else {
        None
    }
}

/// What a short escape stands for.
pub open spec fn escape_char_of(e: char) -> Option<char> {
    if e == '"' {
        Some('"')
    } else if e == '\\' {
        Some('\\')
    } else if e == '/' {
        Some('/')
    } else if e == 'b' {
        Some('\u{8}')
    } else if e == 'f' {
        Some('\u{c}')
    } else if e == 'n' {
        Some('\n')
    } else if e == 'r' {
        Some('\r')
    } else if e == 't' {
        Some('\t')
    } else {
        None
    }
}

/// The character a surrogate pair encodes.
pub open spec fn surrogate_char(v: int, w: int) -> char {
    ((0x10000 + (v - 0xD800) * 0x400 + (w - 0xDC00)) as u32) as char
}

/// The contents of a JSON string literal from `i` (just after the opening
/// quote) to its closing quote: the decoded text and the index after the
/// quote. Unknown escapes, lone surrogates, raw control characters and an
/// unterminated literal are malformed.
pub open spec fn string_body_at(s: Seq<char>, i: int) -> Option<(Seq<char>, int)>
    decreases s.len() - i,
{
    if !(0 <= i < s.len()) {
        None
    } else if s[i] == '"' {
        Some((Seq::empty(), i + 1))
    } else if s[i] == '\\' {
        if !(i + 1 < s.len()) {
            None
        } else if s[i + 1] == 'u' {
            match hex4_val(s, i + 2) {
                None => None,
                Some(v) => {
                    if 0xD800 <= v < 0xDC00 {
                        if i + 7 < s.len() && s[i + 6] == '\\' && s[i + 7] == 'u' {
                            match hex4_val(s, i + 8) {
                                None => None,
                                Some(w) => {
                                    if 0xDC00 <= w < 0xE000 {
                                        match string_body_at(s, i + 12) {
                                            Some((t, j)) => Some(
                                                (seq![surrogate_char(v, w)] + t, j),
                                            ),
                                            None => None,
                                        }
                                    } else {
                                        None
                                    }
                                },
                            }
                        } else {
                            None
                        }
                    } else if 0xDC00 <= v < 0xE000 {
                        None
                    } else {
                        match string_body_at(s, i + 6) {
                            Some((t, j)) => Some((seq![(v as u32) as char] + t, j)),
                            None => None,
                        }
                    }
                },
            }
        } else {
            match escape_char_of(s[i + 1]) {
                None => None,
                Some(c) => match string_body_at(s, i + 2) {
                    Some((t, j)) => Some((seq![c] + t, j)),
                    None => None,
                },
            }
        }
    } else if (s[i] as u32) < 32 {
        None
    } else {
        match string_body_at(s, i + 1) {
            Some((t, j)) => Some((seq![s[i]] + t, j)),
            None => None,
        }
    }
}

pub open spec fn is_number_char(c: char) -> bool {
    let u = c as u32;
    (48 <= u <= 57) || c == '-' || c == '+' || c == '.' || c == 'e' || c == 'E'
}

/// The first index at or after `i` past the run of number characters.
pub open spec fn number_end(s: Seq<char>, i: int) -> int
    decreases s.len() - i,
{
    if 0 <= i < s.len() && is_number_char(s[i]) {
        number_end(s, i + 1)
    } else {
        i
    }
}

/// The index after `true` read letter for letter at `i`.
pub open spec fn true_end(s: Seq<char>, i: int) -> Option<int> {
    if 0 <= i && i + 4 <= s.len() && s[i + 1] == 'r' && s[i + 2] == 'u' && s[i + 3] == 'e' {
        Some(i + 4)
    } else {
        None
    }
}

/// The index after `false` read letter for letter at `i`.
pub open spec fn false_end(s: Seq<char>, i: int) -> Option<int> {
    if 0 <= i && i + 5 <= s.len() && s[i + 1] == 'a' && s[i + 2] == 'l' && s[i + 3] == 's' && s[i
        + 4] == 'e' {
        Some(i + 5)
    } else {
        None
    }
}

/// The index after `null` read letter for letter at `i`.
pub open spec fn null_end(s: Seq<char>, i: int) -> Option<int> {
    if 0 <= i && i + 4 <= s.len() && s[i + 1] == 'u' && s[i + 2] == 'l' && s[i + 3] == 'l' {
        Some(i + 4)
    } else {
        None
    }
}

/// The index after the whole JSON value starting at `i`, skipping its
/// contents, with `d` bounding how deep objects and arrays may nest.
pub open spec fn skip_value_at(s: Seq<char>, i: int, d: int) -> Option<int>
    decreases d, s.len() - i,
{
    if d <= 0 || !(0 <= i < s.len()) {
        None
    } else {
        let c = s[i];
        if c == '"' {
            match string_body_at(s, i + 1) {
                Some((t, j)) => Some(j),
                None => None,
            }
        } else if c == '{' {
            skip_members_at(s, bounded_ws_end(s, i + 1), d - 1)
        } else if c == '[' {
            skip_elements_at(s, bounded_ws_end(s, i + 1), d - 1)
        } else if c == 't' {
            true_end(s, i)
        } else if c == 'f' {
            false_end(s, i)
        } else if c == 'n' {
            null_end(s, i)
        } else if (48 <= c as u32 <= 57) || c == '-' {
            Some(number_end(s, i + 1))
        } else {
            None
        }
    }
}

/// `ws_end`, held inside the text: whitespace never runs past the end, but
/// the bound keeps the termination of the mutual recursion above elementary.
pub open spec fn bounded_ws_end(s: Seq<char>, i: int) -> int {
    let j = ws_end(s, i);
    if j > s.len() {
        s.len() as int
    } else {
        j
    }
}

/// One step ahead and still inside the text: the recursions below walk an
/// object member by member, and this keeps each step strictly forward.
pub open spec fn forward(s: Seq<char>, i: int, j: int) -> int {
    if j < i + 1 {
        i + 1
    } else if j > s.len() {
        s.len() as int
    } else {
        j
    }
}

/// The index after an object's members and closing brace, `i` standing on
/// the first member's key (or on the closing brace). A trailing comma is
/// tolerated.
pub open spec fn skip_members_at(s: Seq<char>, i: int, d: int) -> Option<int>
    decreases d, s.len() - i,
{
    if d <= 0 || !(0 <= i < s.len()) {
        None
    } else if s[i] == '}' {
        Some(i + 1)
    } else if s[i] != '"' {
        None
    } else {
        match string_body_at(s, i + 1) {
            None => None,
            Some((k, j)) => {
                let j2 = bounded_ws_end(s, j);
                if !(j2 < s.len() && s[j2] == ':') {
                    None
                } else {
                    match skip_value_at(s, bounded_ws_end(s, j2 + 1), d - 1) {
                        None => None,
                        Some(j3) => {
                            let j4 = bounded_ws_end(s, j3);
                            if !(0 <= j4 < s.len()) {
                                None
                            } else if s[j4] == ',' {
                                skip_members_at(s, forward(s, i, bounded_ws_end(s, j4 + 1)), d)
                            } else if s[j4] == '}' {
                                Some(j4 + 1)
                            } else {
                                None
                            }
                        },
                    }
                }
            },
        }
    }
}

/// The index after an array's elements and closing bracket, `i` standing on
/// the first element (or on the closing bracket). A trailing comma is
/// tolerated.
pub open spec fn skip_elements_at(s: Seq<char>, i: int, d: int) -> Option<int>
    decreases d, s.len() - i,
{
    if d <= 0 || !(0 <= i < s.len()) {
        None
    } else if s[i] == ']' {
        Some(i + 1)
    } else {
        match skip_value_at(s, i, d - 1) {
            None => None,
            Some(j) => {
                let j2 = bounded_ws_end(s, j);
                if !(0 <= j2 < s.len()) {
                    None
                } else if s[j2] == ',' {
                    skip_elements_at(s, forward(s, i, bounded_ws_end(s, j2 + 1)), d)
                } else if s[j2] == ']' {
                    Some(j2 + 1)
                } else {
                    None
                }
            },
        }
    }
}

/// The index of the value of the first member named `key`, `i` standing on
/// the first member's key; `None` if the object holds no such member or does
/// not fit the grammar up to it.
pub open spec fn find_member_at(s: Seq<char>, i: int, key: Seq<char>, d: int) -> Option<int>
    decreases d, s.len() - i,
{
    if d <= 0 || !(0 <= i < s.len()) {
        None
    } else if s[i] != '"' {
        None
    } else {
        match string_body_at(s, i + 1) {
            None => None,
            Some((k, j)) => {
                let j2 = bounded_ws_end(s, j);
                if !(j2 < s.len() && s[j2] == ':') {
                    None
                } else {
                    let vi = bounded_ws_end(s, j2 + 1);
                    if k == key {
                        Some(vi)
                    } else {
                        match skip_value_at(s, vi, d - 1) {
                            None => None,
                            Some(j3) => {
                                let j4 = bounded_ws_end(s, j3);
                                if !(0 <= j4 < s.len()) {
                                    None
                                } else if s[j4] == ',' {
                                    find_member_at(
                                        s,
                                        forward(s, i, bounded_ws_end(s, j4 + 1)),
                                        key,
                                        d,
                                    )
                                } else {
                                    None
                                }
                            },
                        }
                    }
                }
            },
        }
    }
}

/// The index of an array's first element, `i` standing on the bracket; an
/// empty array yields `None`.
pub open spec fn array_first_at(s: Seq<char>, i: int) -> Option<int> {
    if 0 <= i < s.len() && s[i] == '[' {
        let j = bounded_ws_end(s, i + 1);
        if j < s.len() && s[j] != ']' {
            Some(j)
        } else {
            None
        }
    } else {
        None
    }
}

/// The object value at `i` entered: the position of its first member's key.
pub open spec fn object_inside_at(s: Seq<char>, i: int) -> Option<int> {
    if 0 <= i < s.len() && s[i] == '{' {
        Some(bounded_ws_end(s, i + 1))
    } else {
        None
    }
}

/// The value of the first member named `key` of the object at `i`.
pub open spec fn member_of_object_at(s: Seq<char>, i: int, key: Seq<char>) -> Option<int> {
    match object_inside_at(s, i) {
        None => None,
        Some(m) => find_member_at(s, m, key, nesting_allowance()),
    }
}

/// The reply text of a whole response document: the string at
/// `candidates[0].content.parts[0].text`, decoded; `None` wherever the
/// document does not fit.
pub open spec fn reply_text_of(s: Seq<char>) -> Option<Seq<char>> {
    match member_of_object_at(s, bounded_ws_end(s, 0), "candidates"@) {
        None => None,
        Some(cands) => match array_first_at(s, cands) {
            None => None,
            Some(c0) => match member_of_object_at(s, c0, "content"@) {
                None => None,
                Some(content) => match member_of_object_at(s, content, "parts"@) {
                    None => None,
                    Some(parts) => match array_first_at(s, parts) {
                        None => None,
                        Some(p0) => match member_of_object_at(s, p0, "text"@) {
                            None => None,
                            Some(ti) => {
                                if ti < s.len() && s[ti] == '"' {
                                    match string_body_at(s, ti + 1) {
                                        Some((t, j)) => Some(t),
                                        None => None,
                                    }
                                } else {
                                    None
                                }
                            },
                        },
                    },
                },
            },
        },
    }
}

/// Whitespace never runs past the end of the text.
proof fn lemma_ws_end_bounds(s: Seq<char>, i: int)
    requires
        0 <= i <= s.len(),
    ensures
        i <= ws_end(s, i) <= s.len(),
        bounded_ws_end(s, i) == ws_end(s, i),
    decreases s.len() - i,
{
    if i < s.len() && is_json_ws(s[i]) {
        lemma_ws_end_bounds(s, i + 1);
    }
}

fn scan_ws(s: &str, start: usize) -> (r: usize)
    requires
        start <= s@.len(),
    ensures
        r as int == bounded_ws_end(s@, start as int),
        start <= r <= s@.len(),
{
    let n = s.unicode_len();
    let mut i: usize = start;
    loop
        invariant
            start <= i <= n,
            n == s@.len(),
            ws_end(s@, start as int) == ws_end(s@, i as int),
        decreases n - i,
    {
        proof {
            lemma_ws_end_bounds(s@, start as int);
        }
        if i >= n {
            return i;
        }
        let c = s.get_char(i);
        if !(c == ' ' || c == '\t' || c == '\n' || c == '\r') {
            return i;
        }
        i = i + 1;
    }
}

fn scan_number_end(s: &str, start: usize) -> (r: usize)
    requires
        start <= s@.len(),
    ensures
        r as int == number_end(s@, start as int),
        start <= r <= s@.len(),
{
    let n = s.unicode_len();
    let mut i: usize = start;
    loop
        invariant
            start <= i <= n,
            n == s@.len(),
            number_end(s@, start as int) == number_end(s@, i as int),
        decreases n - i,
    {
        if i >= n {
            return i;
        }
        let c = s.get_char(i);
        let u = c as u32;
        if !((48 <= u && u <= 57) || c == '-' || c == '+' || c == '.' || c == 'e' || c == 'E') {
            return i;
        }
        i = i + 1;
    }
}

fn scan_hex_digit(c: char) -> (r: Option<u32>)
    ensures
        (match r {
            Some(h) => hex_digit_val(c) == Some(h as int) && h < 16,
            None => hex_digit_val(c) is None,
        }),
{
    let u = c as u32;
    if 48 <= u && u <= 57 {
        Some(u - 48)
    } else if 97 <= u && u <= 102 {
        Some(u - 87)
    } else if 65 <= u && u <= 70 {
        Some(u - 55)
    } else {
        None
    }
}

fn scan_hex4(s: &str, i: usize) -> (r: Option<u32>)
    requires
        i <= s@.len(),
    ensures
        (match r {
            Some(v) => hex4_val(s@, i as int) == Some(v as int) && v <= 0xFFFF,
            None => hex4_val(s@, i as int) is None,
        }),
{
    let n = s.unicode_len();
    if !(i < n && n - i >= 4) {
        return None;
    }
    let a = scan_hex_digit(s.get_char(i));
    let b = scan_hex_digit(s.get_char(i + 1));
    let c = scan_hex_digit(s.get_char(i + 2));
    let d = scan_hex_digit(s.get_char(i + 3));
    match (a, b, c, d) {
        (Some(a), Some(b), Some(c), Some(d)) => Some(a * 4096 + b * 256 + c * 16 + d),
        _ => None,
    }
}

/// The exec string scanner agrees with [`string_body_at`] one step in.
spec fn body_links(s: Seq<char>, start: int, i: int, acc: Seq<char>) -> bool {
    match string_body_at(s, i) {
        Some((t, j)) => string_body_at(s, start) == Some((acc + t, j)),
        None => string_body_at(s, start) is None,
    }
}

/// Scan one JSON string literal from just after its opening quote, decoding
/// its escapes; on success, the text and the index after the closing quote.
fn scan_string(s: &str, start: usize) -> (r: Option<(String, usize)>)
    requires
        start <= s@.len(),
    ensures
        (match r {
            Some(p) => string_body_at(s@, start as int) == Some((p.0@, p.1 as int)) && p.1
                <= s@.len(),
            None => string_body_at(s@, start as int) is None,
        }),
{
    let n = s.unicode_len();
    let mut i: usize = start;
    let mut acc = String::new();
    proof {
        if string_body_at(s@, start as int) is Some {
            let t = string_body_at(s@, start as int)->Some_0.0;
            assert(Seq::<char>::empty() + t =~= t);
        }
    }
    loop
        invariant
            start <= i <= n,
            n == s@.len(),
            body_links(s@, start as int, i as int, acc@),
        decreases n - i,
    {
        if i >= n {
            return None;
        }
        let c = s.get_char(i);
        if c == '"' {
            proof {
                assert(acc@ + Seq::<char>::empty() =~= acc@);
            }
            return Some((acc, i + 1));
        }
        if c == '\\' {
            if n - i < 2 {
                return None;
            }
            let e = s.get_char(i + 1);
            if e == 'u' {
                let v = match scan_hex4(s, i + 2) {
                    Some(v) => v,
                    None => {
                        return None;
                    },
                };
                proof {
                    assert(i + 6 <= n);
                }
                if 0xD800 <= v && v < 0xDC00 {
                    if !(n - i >= 8 && s.get_char(i + 6) == '\\' && s.get_char(i + 7) == 'u') {
                        return None;
                    }
                    let w = match scan_hex4(s, i + 8) {
                        Some(w) => w,
                        None => {
                            return None;
                        },
                    };
                    proof {
                        assert(i + 12 <= n);
                    }
                    if !(0xDC00 <= w && w < 0xE000) {
                        return None;
                    }
                    let cp: u32 = 0x10000 + (v - 0xD800) * 0x400 + (w - 0xDC00);
                    let ch = match char_from_u32(cp) {
                        Some(ch) => ch,
                        None => unreached(),
                    };
                    let ghost acc_old = acc@;
                    string_push(&mut acc, ch);
                    proof {
                        assert(ch == surrogate_char(v as int, w as int));
                        if string_body_at(s@, i + 12) is Some {
                            let t = string_body_at(s@, i + 12)->Some_0.0;
                            assert(acc_old + (seq![ch] + t) =~= acc_old.push(ch) + t);
                        }
                    }
                    i = i + 12;
                } else if 0xDC00 <= v && v < 0xE000 {
                    return None;
                } else {
                    let ch = match char_from_u32(v) {
                        Some(ch) => ch,
                        None => unreached(),
                    };
                    let ghost acc_old = acc@;
                    string_push(&mut acc, ch);
                    proof {
                        assert(ch == ((v as int) as u32) as char);
                        if string_body_at(s@, i + 6) is Some {
                            let t = string_body_at(s@, i + 6)->Some_0.0;
                            assert(acc_old + (seq![ch] + t) =~= acc_old.push(ch) + t);
                        }
                    }
                    i = i + 6;
                }
            } else {
                let ch = if e == '"' {
                    '"'
                } else if e == '\\' {
                    '\\'
                } else if e == '/' {
                    '/'
                } else if e == 'b' {
                    '\u{8}'
                } else if e == 'f' {
                    '\u{c}'
                } else if e == 'n' {
                    '\n'
                } else if e == 'r' {
                    '\r'
                } else if e == 't' {
                    '\t'
                } else {
                    return None;
                };
                let ghost acc_old = acc@;
                string_push(&mut acc, ch);
                proof {
                    assert(escape_char_of(e) == Some(ch));
                    if string_body_at(s@, i + 2) is Some {
                        let t = string_body_at(s@, i + 2)->Some_0.0;
                        assert(acc_old + (seq![ch] + t) =~= acc_old.push(ch) + t);
                    }
                }
                i = i + 2;
            }
        } else if (c as u32) < 32 {
            return None;
        } else {
            let ghost acc_old = acc@;
            string_push(&mut acc, c);
            proof {
                if string_body_at(s@, i + 1) is Some {
                    let t = string_body_at(s@, i + 1)->Some_0.0;
                    assert(acc_old + (seq![c] + t) =~= acc_old.push(c) + t);
                }
            }
            i = i + 1;
        }
    }
}

/// Skip one whole JSON value, exactly as [`skip_value_at`] says.
fn scan_skip_value(s: &str, i: usize, d: usize) -> (r: Option<usize>)
    requires
        i <= s@.len(),
    ensures
        (match r {
            Some(j) => skip_value_at(s@, i as int, d as int) == Some(j as int) && j <= s@.len(),
            None => skip_value_at(s@, i as int, d as int) is None,
        }),
    decreases d,
{
    if d == 0 {
        return None;
    }
    let n = s.unicode_len();
    if i >= n {
        return None;
    }
    let c = s.get_char(i);
    if c == '"' {
        match scan_string(s, i + 1) {
            Some(p) => Some(p.1),
            None => None,
        }
    } else if c == '{' {
        let m = scan_ws(s, i + 1);
        scan_skip_members(s, m, d - 1)
    } else if c == '[' {
        let m = scan_ws(s, i + 1);
        scan_skip_elements(s, m, d - 1)
    } else if c == 't' {
        if n - i >= 4 && s.get_char(i + 1) == 'r' && s.get_char(i + 2) == 'u' && s.get_char(i + 3)
            == 'e' {
            Some(i + 4)
        } else {
            None
        }
    } else if c == 'f' {
        if n - i >= 5 && s.get_char(i + 1) == 'a' && s.get_char(i + 2) == 'l' && s.get_char(i + 3)
            == 's' && s.get_char(i + 4) == 'e' {
            Some(i + 5)
        } else {
            None
        }
    } else if c == 'n' {
        if n - i >= 4 && s.get_char(i + 1) == 'u' && s.get_char(i + 2) == 'l' && s.get_char(i + 3)
            == 'l' {
            Some(i + 4)
        } else {
            None
        }
    } else if (48 <= c as u32 && c as u32 <= 57) || c == '-' {
        Some(scan_number_end(s, i + 1))
    } else {
        None
    }
}

/// Skip an object's members from the first key to past the closing brace,
/// exactly as [`skip_members_at`] says.
fn scan_skip_members(s: &str, start: usize, d: usize) -> (r: Option<usize>)
    requires
        start <= s@.len(),
    ensures
        (match r {
            Some(j) => skip_members_at(s@, start as int, d as int) == Some(j as int) && j
                <= s@.len(),
            None => skip_members_at(s@, start as int, d as int) is None,
        }),
    decreases d,
{
    if d == 0 {
        return None;
    }
    let n = s.unicode_len();
    let mut i: usize = start;
    loop
        invariant
            i <= n,
            n == s@.len(),
            d >= 1,
            skip_members_at(s@, start as int, d as int) == skip_members_at(
                s@,
                i as int,
                d as int,
            ),
        decreases n - i,
    {
        if i >= n {
            return None;
        }
        let c = s.get_char(i);
        if c == '}' {
            return Some(i + 1);
        }
        if c != '"' {
            return None;
        }
        let kj = match scan_string(s, i + 1) {
            Some(p) => p,
            None => {
                return None;
            },
        };
        let j2 = scan_ws(s, kj.1);
        if !(j2 < n) {
            return None;
        }
        if s.get_char(j2) != ':' {
            return None;
        }
        let vi = scan_ws(s, j2 + 1);
        let j3 = match scan_skip_value(s, vi, d - 1) {
            Some(j3) => j3,
            None => {
                return None;
            },
        };
        let j4 = scan_ws(s, j3);
        if !(j4 < n) {
            return None;
        }
        let c4 = s.get_char(j4);
        if c4 == ',' {
            let nx = scan_ws(s, j4 + 1);
            let nx2: usize = if nx < i + 1 {
                i + 1
            } else {
                nx
            };
            proof {
                assert(nx2 as int == forward(s@, i as int, bounded_ws_end(s@, j4 + 1)));
            }
            i = nx2;
        } else if c4 == '}' {
            return Some(j4 + 1);
        } else {
            return None;
        }
    }
}

/// Skip an array's elements from the first element to past the closing
/// bracket, exactly as [`skip_elements_at`] says.
fn scan_skip_elements(s: &str, start: usize, d: usize) -> (r: Option<usize>)
    requires
        start <= s@.len(),
    ensures
        (match r {
            Some(j) => skip_elements_at(s@, start as int, d as int) == Some(j as int) && j
                <= s@.len(),
            None => skip_elements_at(s@, start as int, d as int) is None,
        }),
    decreases d,
{
    if d == 0 {
        return None;
    }
    let n = s.unicode_len();
    let mut i: usize = start;
    loop
        invariant
            i <= n,
            n == s@.len(),
            d >= 1,
            skip_elements_at(s@, start as int, d as int) == skip_elements_at(
                s@,
                i as int,
                d as int,
            ),
        decreases n - i,
    {
        if i >= n {
            return None;
        }
        if s.get_char(i) == ']' {
            return Some(i + 1);
        }
        let j = match scan_skip_value(s, i, d - 1) {
            Some(j) => j,
            None => {
                return None;
            },
        };
        let j2 = scan_ws(s, j);
        if !(j2 < n) {
            return None;
        }
        let c2 = s.get_char(j2);
        if c2 == ',' {
            let nx = scan_ws(s, j2 + 1);
            let nx2: usize = if nx < i + 1 {
                i + 1
            } else {
                nx
            };
            proof {
                assert(nx2 as int == forward(s@, i as int, bounded_ws_end(s@, j2 + 1)));
            }
            i = nx2;
        } else if c2 == ']' {
            return Some(j2 + 1);
        } else {
            return None;
        }
    }
}

/// Walk an object's members for the one named `key`, exactly as
/// [`find_member_at`] says.
fn scan_find_member(s: &str, start: usize, key: &String, d: usize) -> (r: Option<usize>)
    requires
        start <= s@.len(),
    ensures
        (match r {
            Some(j) => find_member_at(s@, start as int, key@, d as int) == Some(j as int) && j
                <= s@.len(),
            None => find_member_at(s@, start as int, key@, d as int) is None,
        }),
    decreases d,
{
    if d == 0 {
        return None;
    }
    let n = s.unicode_len();
    let mut i: usize = start;
    loop
        invariant
            i <= n,
            n == s@.len(),
            d >= 1,
            find_member_at(s@, start as int, key@, d as int) == find_member_at(
                s@,
                i as int,
                key@,
                d as int,
            ),
        decreases n - i,
    {
        if i >= n {
            return None;
        }
        if s.get_char(i) != '"' {
            return None;
        }
        let kj = match scan_string(s, i + 1) {
            Some(p) => p,
            None => {
                return None;
            },
        };
        let j2 = scan_ws(s, kj.1);
        if !(j2 < n) {
            return None;
        }
        if s.get_char(j2) != ':' {
            return None;
        }
        let vi = scan_ws(s, j2 + 1);
        if kj.0.eq(key) {
            return Some(vi);
        }
        let j3 = match scan_skip_value(s, vi, d - 1) {
            Some(j3) => j3,
            None => {
                return None;
            },
        };
        let j4 = scan_ws(s, j3);
        if !(j4 < n) {
            return None;
        }
        if s.get_char(j4) == ',' {
            let nx = scan_ws(s, j4 + 1);
            let nx2: usize = if nx < i + 1 {
                i + 1
            } else {
                nx
            };
            proof {
                assert(nx2 as int == forward(s@, i as int, bounded_ws_end(s@, j4 + 1)));
            }
            i = nx2;
        } else {
            return None;
        }
    }
}

fn scan_member_of_object(s: &str, i: usize, key: &String) -> (r: Option<usize>)
    requires
        i <= s@.len(),
    ensures
        (match r {
            Some(j) => member_of_object_at(s@, i as int, key@) == Some(j as int) && j <= s@.len(),
            None => member_of_object_at(s@, i as int, key@) is None,
        }),
{
    let n = s.unicode_len();
    if !(i < n) {
        return None;
    }
    if s.get_char(i) != '{' {
        return None;
    }
    let m = scan_ws(s, i + 1);
    scan_find_member(s, m, key, 256)
}

fn scan_array_first(s: &str, i: usize) -> (r: Option<usize>)
    requires
        i <= s@.len(),
    ensures
        (match r {
            Some(j) => array_first_at(s@, i as int) == Some(j as int) && j < s@.len(),
            None => array_first_at(s@, i as int) is None,
        }),
{
    let n = s.unicode_len();
    if !(i < n) {
        return None;
    }
    if s.get_char(i) != '[' {
        return None;
    }
    let j = scan_ws(s, i + 1);
    if j < n && s.get_char(j) != ']' {
        Some(j)
    } else {
        None
    }
}

/// The reply text of a whole response document, exactly as [`reply_text_of`]
/// says.
pub fn decode_reply(s: &str) -> (r: Option<String>)
    ensures
        (match r {
            Some(t) => reply_text_of(s@) == Some(t@),
            None => reply_text_of(s@) is None,
        }),
{
    let start = scan_ws(s, 0);
    let cands = match scan_member_of_object(s, start, &String::from_str("candidates")) {
        Some(x) => x,
        None => {
            return None;
        },
    };
    let c0 = match scan_array_first(s, cands) {
        Some(x) => x,
        None => {
            return None;
        },
    };
    let content = match scan_member_of_object(s, c0, &String::from_str("content")) {
        Some(x) => x,
        None => {
            return None;
        },
    };
    let parts = match scan_member_of_object(s, content, &String::from_str("parts")) {
        Some(x) => x,
        None => {
            return None;
        },
    };
    let p0 = match scan_array_first(s, parts) {
        Some(x) => x,
        None => {
            return None;
        },
    };
    let ti = match scan_member_of_object(s, p0, &String::from_str("text")) {
        Some(x) => x,
        None => {
            return None;
        },
    };
    let n = s.unicode_len();
    if !(ti < n) {
        return None;
    }
    if s.get_char(ti) != '"' {
        return None;
    }
    match scan_string(s, ti + 1) {
        Some(p) => Some(p.0),
        None => None,
    }
}

/// Decode the gateway's response document: on success, the one assistant
/// message carrying the reply text; a document that does not fit the grammar
/// is a malformed reply.
pub fn to_response(res: String) -> (r: Result<Message, GatewayError>)
    ensures
        (match r {
            Ok(m) => reply_text_of(res@) == Some(m@.text) && m@.author == AuthorView::Ai,
            Err(e) => reply_text_of(res@) is None && e == GatewayError::Malformed,
        }),
{
    match decode_reply(res.as_str()) {
        Some(t) => Ok(Message::new(t, Author::AI)),
        None => Err(GatewayError::Malformed),
    }
}

/// Every hexadecimal digit the encoder writes reads back as its value.
proof fn lemma_hex_digit_round_trip(h: int)
    requires
        0 <= h < 16,
    ensures
        hex_digit_val(hex_digit(h)) == Some(h),
{
}

/// What the encoder writes into a string literal, the decoder reads back:
/// escaping round-trips through the two grammars. `i` stands just after an
/// opening quote in `s`, on the escaped text followed by the closing quote.
proof fn lemma_unescape_escape(t: Seq<char>, s: Seq<char>, i: int, tail: Seq<char>)
    requires
        0 <= i <= s.len(),
        s.skip(i) == json_escape(t) + seq!['"'] + tail,
    ensures
        string_body_at(s, i) == Some((t, i + json_escape(t).len() + 1)),
    decreases t.len(),
{
    if t.len() == 0 {
        assert(json_escape(t) =~= Seq::<char>::empty());
        assert(s.skip(i).len() > 0);
        assert(s.skip(i)[0] == s[i]);
        assert(s.skip(i)[0] == '"');
        assert(i < s.len());
        assert(string_body_at(s, i) == Some((Seq::<char>::empty(), i + 1)));
        assert(Seq::<char>::empty() =~= t);
    } else {
        let c = t[0];
        let t1 = t.skip(1);
        let e = esc_char(c);
        assert(json_escape(t) == e + json_escape(t1));
        let k = e.len() as int;
        assert(s.skip(i).len() == json_escape(t).len() + 1 + tail.len());
        assert(i + k <= s.len());
        assert(s.skip(i) =~= e + (json_escape(t1) + seq!['"'] + tail));
        assert forall|m: int| 0 <= m < k implies s[i + m] == e[m] by {
            assert(s.skip(i)[m] == s[i + m]);
            assert((e + (json_escape(t1) + seq!['"'] + tail))[m] == e[m]);
        }
        assert(s.skip(i + k) =~= s.skip(i).skip(k));
        assert((e + (json_escape(t1) + seq!['"'] + tail)).skip(k) =~= json_escape(t1) + seq!['"']
            + tail);
        assert(s.skip(i + k) =~= json_escape(t1) + seq!['"'] + tail);
        lemma_unescape_escape(t1, s, i + k, tail);
        if c == '"' {
            assert(s[i] == '\\' && s[i + 1] == '"');
            assert(escape_char_of(s[i + 1]) == Some('"'));
            assert(seq![c] + t1 =~= t);
        } else if c == '\\' {
            assert(s[i] == '\\' && s[i + 1] == '\\');
            assert(escape_char_of(s[i + 1]) == Some('\\'));
            assert(seq![c] + t1 =~= t);
        } else if c == '\n' {
            assert(s[i] == '\\' && s[i + 1] == 'n');
            assert(escape_char_of(s[i + 1]) == Some('\n'));
            assert(seq![c] + t1 =~= t);
        } else if c == '\r' {
            assert(s[i] == '\\' && s[i + 1] == 'r');
            assert(escape_char_of(s[i + 1]) == Some('\r'));
            assert(seq![c] + t1 =~= t);
        } else if c == '\t' {
            assert(s[i] == '\\' && s[i + 1] == 't');
            assert(escape_char_of(s[i + 1]) == Some('\t'));
            assert(seq![c] + t1 =~= t);
        } else if (c as u32) < 32 {
            let u = c as u32;
            let hi = u as int / 16;
            let lo = u as int % 16;
            assert(s[i] == '\\' && s[i + 1] == 'u' && s[i + 2] == '0' && s[i + 3] == '0' && s[i
                + 4] == hex_digit(hi) && s[i + 5] == hex_digit(lo));
            lemma_hex_digit_round_trip(hi);
            lemma_hex_digit_round_trip(lo);
            assert(hex_digit_val(s[i + 2]) == Some(0int));
            assert(hex4_val(s, i + 2) == Some(hi * 16 + lo));
            assert(hi * 16 + lo == u as int) by (nonlinear_arith)
                requires
                    hi == u as int / 16,
                    lo == u as int % 16,
            ;
            assert((u as int) < 0xD800);
            assert(((u as int) as u32) as char == c) by {
                vstd::utf8::char_u32_cast(c, u);
            }
            assert(seq![c] + t1 =~= t);
        } else {
            assert(s[i + 0] == e[0]);
            assert(e[0] == c);
            assert(s[i] == c);
            assert(c != '"' && c != '\\' && (c as u32) >= 32);
            assert(seq![c] + t1 =~= t);
        }
    }
}

/// The round trip stated whole: a text escaped by the encoder, followed by
/// its closing quote, decodes back to exactly that text.
pub proof fn lemma_escape_round_trip(t: Seq<char>)
    ensures
        string_body_at(json_escape(t) + seq!['"'], 0) == Some((t, json_escape(t).len() as int + 1)),
{
    let s = json_escape(t) + seq!['"'];
    assert(s.skip(0) =~= json_escape(t) + seq!['"'] + Seq::<char>::empty());
    lemma_unescape_escape(t, s, 0, Seq::empty());
}

} // verus!
