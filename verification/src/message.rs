//! What a client asks of the supervisor, and the events that the
//! supervisor's loop consumes.

use vstd::prelude::*;

verus! {

/// A client's request.
#[derive(Debug)]
pub enum Message {
    Reload,
    Start { id: String },
    Info { id: String },
    Stop { id: String },
    Status { id: String },
    Restart { id: String },
    List,
    Quit,
}

/// A request as a mathematical value.
pub enum MessageView {
    Reload,
    Start { id: Seq<char> },
    Info { id: Seq<char> },
    Stop { id: Seq<char> },
    Status { id: Seq<char> },
    Restart { id: Seq<char> },
    List,
    Quit,
}

impl View for Message {
    type V = MessageView;

    open spec fn view(&self) -> MessageView {
        match self {
            Message::Reload => MessageView::Reload,
            Message::Start { id } => MessageView::Start { id: id@ },
            Message::Info { id } => MessageView::Info { id: id@ },
            Message::Stop { id } => MessageView::Stop { id: id@ },
            Message::Status { id } => MessageView::Status { id: id@ },
            Message::Restart { id } => MessageView::Restart { id: id@ },
            Message::List => MessageView::List,
            Message::Quit => MessageView::Quit,
        }
    }
}

/// An event on the supervisor's loop.
#[derive(Debug)]
pub enum Inter {
    /// A client sent a request.
    FromClient(Message),
    /// The supervisor is to quit.
    Quit,
    /// The configuration is to be read again.
    Reload,
}

} // verus!
