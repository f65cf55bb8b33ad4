//! The conversation transcript: an ordered, append-only log of messages.

use vstd::prelude::*;

use crate::message::{Message, MessageView};

verus! {

/// One conversation: a title and the ordered message log. The insertion
/// order is both the display order and the order sent to the gateway.
pub struct Chat {
    pub title: String,
    pub messages: Vec<Message>,
}

/// Mathematical model of a [`Chat`].
#[verifier::ext_equal]
pub ghost struct ChatView {
    pub title: Seq<char>,
    pub messages: Seq<MessageView>,
}

impl View for Chat {
    type V = ChatView;

    open spec fn view(&self) -> ChatView {
        ChatView { title: self.title@, messages: self.messages.deep_view() }
    }
}

impl DeepView for Chat {
    type V = ChatView;

    open spec fn deep_view(&self) -> ChatView {
        self.view()
    }
}

impl Chat {
    pub fn new(title: String) -> (c: Chat)
        ensures
            c@.title == title@,
            c@.messages == Seq::<MessageView>::empty(),
    {
        let c = Chat { title, messages: vec![] };
        proof {
            assert(c.messages.deep_view() =~= Seq::<MessageView>::empty());
        }
        c
    }

    /// Append one message at the end of the transcript; nothing else changes.
    pub fn append(&mut self, m: Message)
        ensures
            final(self)@.title == old(self)@.title,
            final(self)@.messages == old(self)@.messages.push(m@),
    {
        let ghost before = self.messages.deep_view();
        let ghost mv = m@;
        self.messages.push(m);
        proof {
            assert(self.messages.deep_view() =~= before.push(mv));
        }
    }

    /// An exact copy of this chat, message for message, in order.
    pub fn duplicate(&self) -> (c: Chat)
        ensures
            c@ == self@,
    {
        let mut messages: Vec<Message> = Vec::new();
        let mut i: usize = 0;
        while i < self.messages.len()
            invariant
                i <= self.messages.len(),
                messages.deep_view() =~= self.messages.deep_view().take(i as int),
            decreases self.messages.len() - i,
        {
            let ghost before = messages.deep_view();
            let d = self.messages[i].duplicate();
            let ghost dv = d@;
            messages.push(d);
            proof {
                assert(messages.deep_view() =~= before.push(dv));
                assert(self.messages.deep_view().take(i + 1) =~= self.messages.deep_view().take(
                    i as int,
                ).push(self.messages.deep_view()[i as int]));
            }
            i = i + 1;
        }
        proof {
            assert(messages.deep_view() =~= self.messages.deep_view());
        }
        let c = Chat { title: self.title.clone(), messages };
        proof {
            assert(c@ =~= self@);
        }
        c
    }
}

} // verus!
