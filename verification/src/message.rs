//! Messages of a conversation transcript: who wrote one, and its text.

use vstd::prelude::*;

verus! {

/// Who wrote a message. A user message carries the display name that was
/// current when the message was created, so transcript entries stay
/// self-contained even if the ambient username later changes.
pub enum Author {
    USER(String),
    AI,
}

/// Mathematical model of an [`Author`].
#[verifier::ext_equal]
pub ghost enum AuthorView {
    User(Seq<char>),
    Ai,
}

impl View for Author {
    type V = AuthorView;

    open spec fn view(&self) -> AuthorView {
        match self {
            Author::USER(name) => AuthorView::User(name@),
            Author::AI => AuthorView::Ai,
        }
    }
}

impl DeepView for Author {
    type V = AuthorView;

    open spec fn deep_view(&self) -> AuthorView {
        self.view()
    }
}

impl Author {
    /// An exact copy of this author tag.
    pub fn duplicate(&self) -> (a: Author)
        ensures
            a@ == self@,
    {
        match self {
            Author::USER(name) => Author::USER(name.clone()),
            Author::AI => Author::AI,
        }
    }
}

/// One transcript entry. Immutable once created.
pub struct Message {
    pub text: String,
    pub author: Author,
}

/// Mathematical model of a [`Message`].
#[verifier::ext_equal]
pub ghost struct MessageView {
    pub text: Seq<char>,
    pub author: AuthorView,
}

impl View for Message {
    type V = MessageView;

    open spec fn view(&self) -> MessageView {
        MessageView { text: self.text@, author: self.author@ }
    }
}

impl DeepView for Message {
    type V = MessageView;

    open spec fn deep_view(&self) -> MessageView {
        self.view()
    }
}

impl Message {
    pub fn new(text: String, author: Author) -> (m: Message)
        ensures
            m@ == (MessageView { text: text@, author: author@ }),
    {
        Message { text, author }
    }

    /// An exact copy of this message.
    pub fn duplicate(&self) -> (m: Message)
        ensures
            m@ == self@,
    {
        Message { text: self.text.clone(), author: self.author.duplicate() }
    }
}

} // verus!
