//! The client's command line: what a line entered asks for.

use crate::error::Taskmaster;
use crate::message::{Message, MessageView};
use crate::text::{same_text, split, split_on, views};
use vstd::prelude::*;
use vstd::string::*;

verus! {

/// A command that names tasks.
#[derive(Clone, Copy, Debug, PartialEq, Eq, Structural)]
pub enum Verb {
    Start,
    Info,
    Stop,
    Status,
    Restart,
}

/// What a line asks the client to do.
#[derive(Debug)]
pub enum LineAction {
    /// Send the requests in order, each on a connection of its own.
    Send(Vec<Message>),
    /// Show the lines entered before.
    History,
    /// Show the commands.
    Help,
}

/// What a line asks for, as a mathematical value.
pub enum LineActionView {
    Send(Seq<MessageView>),
    History,
    Help,
}

/// The views of the requests of `v`, in order.
pub open spec fn message_views(v: Seq<Message>) -> Seq<MessageView> {
    Seq::new(v.len(), |i: int| v[i]@)
}

impl View for LineAction {
    type V = LineActionView;

    open spec fn view(&self) -> LineActionView {
        match self {
            LineAction::Send(messages) => LineActionView::Send(message_views(messages@)),
            LineAction::History => LineActionView::History,
            LineAction::Help => LineActionView::Help,
        }
    }
}

/// The request that `verb` makes of the task `id`.
pub open spec fn request(verb: Verb, id: Seq<char>) -> MessageView {
    match verb {
        Verb::Start => MessageView::Start { id },
        Verb::Info => MessageView::Info { id },
        Verb::Stop => MessageView::Stop { id },
        Verb::Status => MessageView::Status { id },
        Verb::Restart => MessageView::Restart { id },
    }
}

/// The requests that `verb` makes of the tasks `ids`, one for each in
/// order.
pub open spec fn requests(verb: Verb, ids: Seq<Seq<char>>) -> Seq<MessageView> {
    Seq::new(ids.len(), |i: int| request(verb, ids[i]))
}

/// The command that names tasks which `word` stands for, if any.
pub open spec fn spec_verb(word: Seq<char>) -> Option<Verb> {
    if word == "start"@ {
        Some(Verb::Start)
    } else if word == "info"@ {
        Some(Verb::Info)
    } else if word == "stop"@ {
        Some(Verb::Stop)
    } else if word == "status"@ {
        Some(Verb::Status)
    } else if word == "restart"@ {
        Some(Verb::Restart)
    } else {
        None
    }
}

/// What the words of a line ask for: the first word is the command, and
/// for a command that names tasks each further word is a task. `None`
/// where the first word is no command.
pub open spec fn spec_process_words(words: Seq<Seq<char>>) -> Option<LineActionView> {
    let head = words[0];
    if head == "list"@ {
        Some(LineActionView::Send(seq![MessageView::List]))
    } else if head == "reload"@ {
        Some(LineActionView::Send(seq![MessageView::Reload]))
    } else if head == "history"@ {
        Some(LineActionView::History)
    } else if head == "help"@ {
        Some(LineActionView::Help)
    } else if head == "stop-server"@ {
        Some(LineActionView::Send(seq![MessageView::Quit]))
    } else {
        match spec_verb(head) {
            Some(verb) => Some(LineActionView::Send(requests(verb, words.skip(1)))),
            None => None,
        }
    }
}

/// What a line asks for: its words are the pieces between spaces.
pub open spec fn spec_process_line(line: Seq<char>) -> Option<LineActionView> {
    spec_process_words(split(line, ' '))
}

/// Reads the command that names tasks.
pub fn read_verb(word: &str) -> (r: Option<Verb>)
    ensures
        r == spec_verb(word@),
{
    if same_text(word, "start") {
        Some(Verb::Start)
    } else if same_text(word, "info") {
        Some(Verb::Info)
    } else if same_text(word, "stop") {
        Some(Verb::Stop)
    } else if same_text(word, "status") {
        Some(Verb::Status)
    } else if same_text(word, "restart") {
        Some(Verb::Restart)
    } else {
        None
    }
}

/// The request that `verb` makes of the task `id`.
pub fn make_request(verb: Verb, id: String) -> (r: Message)
    ensures
        r@ == request(verb, id@),
{
    match verb {
        Verb::Start => Message::Start { id },
        Verb::Info => Message::Info { id },
        Verb::Stop => Message::Stop { id },
        Verb::Status => Message::Status { id },
        Verb::Restart => Message::Restart { id },
    }
}

/// One request alone.
fn single(message: Message) -> (r: Vec<Message>)
    ensures
        message_views(r@) == seq![message@],
{
    let mut messages: Vec<Message> = Vec::new();
    messages.push(message);
    assert(message_views(messages@) =~= seq![message@]);
    messages
}

/// Reads a line of the client: the requests to send, or what to show. A
/// line whose first word is no command is an error.
pub fn process_line(line: &str) -> (r: Result<LineAction, Taskmaster>)
    ensures
        match spec_process_line(line@) {
            Some(action) => r.is_ok() && r.unwrap()@ == action,
            None => r == Err::<LineAction, Taskmaster>(Taskmaster::InvalidCmd),
        },
{
    let vec = split_on(line, ' ');
    let head = vec[0].as_str();
    assert(views(vec@)[0] == head@);
    if same_text(head, "list") {
        Ok(LineAction::Send(single(Message::List)))
    } else if same_text(head, "reload") {
        Ok(LineAction::Send(single(Message::Reload)))
    } else if same_text(head, "history") {
        Ok(LineAction::History)
    } else if same_text(head, "help") {
        Ok(LineAction::Help)
    } else if same_text(head, "stop-server") {
        Ok(LineAction::Send(single(Message::Quit)))
    } else {
        match read_verb(head) {
            Some(verb) => {
                let mut messages: Vec<Message> = Vec::new();
                let mut i: usize = 1;
                while i < vec.len()
                    invariant
                        1 <= i <= vec.len(),
                        messages@.len() == i - 1,
                        forall|j: int|
                            0 <= j < i - 1 ==> (#[trigger] messages@[j])@ == request(
                                verb,
                                vec@[j + 1]@,
                            ),
                    decreases vec.len() - i,
                {
                    messages.push(make_request(verb, vec[i].clone()));
                    i += 1;
                }
                assert(message_views(messages@) =~= requests(verb, views(vec@).skip(1)));
                Ok(LineAction::Send(messages))
            },
            None => Err(Taskmaster::InvalidCmd),
        }
    }
}

/// The text that lists the client's commands.
pub open spec fn spec_help_text() -> Seq<char> {
    "Usage:\n        start: start the task <task>\n        stop: stop the task <task>\n        restart: restart the task <task>\n        reload: reload configuration file\n        list: list all available tasks\n        info: get info on <task>\n        history: display previous valid commands\n        help: show this help menu\n        status: show status of <command>\n        stop-server: stop the server\n        exit: exit client\n        "@
}

pub fn help_text() -> (r: &'static str)
    ensures
        r@ == spec_help_text(),
{
    "Usage:\n        start: start the task <task>\n        stop: stop the task <task>\n        restart: restart the task <task>\n        reload: reload configuration file\n        list: list all available tasks\n        info: get info on <task>\n        history: display previous valid commands\n        help: show this help menu\n        status: show status of <command>\n        stop-server: stop the server\n        exit: exit client\n        "
}

/// What the client does after a line was read and carried out.
#[derive(Clone, Copy, Debug, PartialEq, Eq, Structural)]
pub enum AfterLine {
    /// Remember the line and read the next.
    Remember,
    /// Read the next line; this one is not remembered.
    Forget,
    /// Leave with the error of the line.
    Fail,
}

/// What follows a line whose carrying out ended in `failure`, if in any:
/// a line that went well is remembered, one that was no command is passed
/// over, and any other failure ends the client.
pub fn after_line(failure: Option<&Taskmaster>) -> (r: AfterLine)
    ensures
        r == (match failure {
            None => AfterLine::Remember,
            Some(Taskmaster::InvalidCmd) => AfterLine::Forget,
            Some(_) => AfterLine::Fail,
        }),
{
    match failure {
        None => AfterLine::Remember,
        Some(Taskmaster::InvalidCmd) => AfterLine::Forget,
        Some(_) => AfterLine::Fail,
    }
}

} // verus!
