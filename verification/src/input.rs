//! The input buffer: the text being composed, with its length counted in
//! characters (not bytes), so the cursor column is right under multi-byte
//! text.

use vstd::prelude::*;

use crate::text::{string_pop, string_push};

verus! {

/// The text currently being composed, plus its length in characters. The
/// character count is kept beside the text (whose `len()` is a byte count)
/// and always equals the number of characters typed so far.
pub struct InputBuffer {
    text: String,
    chars: usize,
}

impl View for InputBuffer {
    type V = Seq<char>;

    closed spec fn view(&self) -> Seq<char> {
        self.text@
    }
}

impl InputBuffer {
    /// The character count agrees with the text.
    pub closed spec fn wf(&self) -> bool {
        self.chars == self@.len()
    }

    pub fn new() -> (b: InputBuffer)
        ensures
            b@ == Seq::<char>::empty(),
            b.wf(),
    {
        InputBuffer { text: String::new(), chars: 0 }
    }

    /// The composed text so far.
    pub fn as_str(&self) -> (s: &str)
        ensures
            s@ == self@,
    {
        self.text.as_str()
    }

    /// How many characters have been typed: the cursor's column.
    pub fn char_count(&self) -> (n: usize)
        requires
            self.wf(),
        ensures
            n == self@.len(),
    {
        self.chars
    }

    pub fn is_empty(&self) -> (b: bool)
        requires
            self.wf(),
        ensures
            b == (self@.len() == 0),
    {
        self.chars == 0
    }

    /// Append one typed character and count it.
    pub fn push(&mut self, c: char)
        requires
            old(self).wf(),
        ensures
            final(self).wf(),
            final(self)@ == old(self)@.push(c),
    {
        string_push(&mut self.text, c);
        self.chars = self.chars + 1;
    }

    /// Remove the last character, if any; the count saturates at zero.
    pub fn backspace(&mut self)
        requires
            old(self).wf(),
        ensures
            final(self).wf(),
            old(self)@.len() == 0 ==> final(self)@ == old(self)@,
            old(self)@.len() > 0 ==> final(self)@ == old(self)@.drop_last(),
    {
        let _ = string_pop(&mut self.text);
        self.chars = if self.chars > 0 {
            self.chars - 1
        } else {
            0
        };
    }

    /// Take the composed text out, leaving the buffer empty with a character
    /// count of zero.
    pub fn take(&mut self) -> (t: String)
        requires
            old(self).wf(),
        ensures
            final(self).wf(),
            t@ == old(self)@,
            final(self)@ == Seq::<char>::empty(),
    {
        let mut t = String::new();
        core::mem::swap(&mut self.text, &mut t);
        self.chars = 0;
        t
    }
}

} // verus!
