//! The supervisor's loop, one event at a time: what each event does to the
//! registry, what is answered, and what is left for the caller to do.

use crate::formatter::Reply;
use crate::message::{Inter, Message, MessageView};
use crate::signal::{SIGHUP, SIGINT, SIGQUIT, SIGTERM};
use crate::state::{
    answers, config_view, info_reply, list_reply, reload_orders, reloaded, restarted,
    started, status_reply, stop_signals_of, stopped, Orders, State,
};
use crate::model::MonitorView;
use crate::task::Task;
use vstd::prelude::*;

verus! {

/// What a signal to the supervisor asks for.
#[derive(Clone, Copy, Debug, PartialEq, Eq, Structural)]
pub enum SignalEvent {
    Quit,
    Reload,
}

/// The event that the signal numbered `signum` stands for: a hang-up
/// reloads, an interrupt, a termination and a quit all quit, and no other
/// signal is listened for.
pub open spec fn spec_signal_event(signum: i32) -> Option<SignalEvent> {
    if signum == SIGHUP {
        Some(SignalEvent::Reload)
    } else if signum == SIGINT || signum == SIGTERM || signum == SIGQUIT {
        Some(SignalEvent::Quit)
    } else {
        None
    }
}

/// The signals that the supervisor listens for.
pub fn watched_signals() -> (r: Vec<i32>)
    ensures
        r@ == seq![SIGHUP, SIGINT, SIGTERM, SIGQUIT],
        forall|i: int| 0 <= i < r@.len() ==> spec_signal_event(#[trigger] r@[i]).is_some(),
{
    let mut signals: Vec<i32> = Vec::new();
    signals.push(SIGHUP);
    signals.push(SIGINT);
    signals.push(SIGTERM);
    signals.push(SIGQUIT);
    assert(signals@ =~= seq![SIGHUP, SIGINT, SIGTERM, SIGQUIT]);
    signals
}

/// Turns a signal received into the event to post on the loop.
pub fn handle_signals(signum: i32) -> (r: Option<Inter>)
    ensures
        match spec_signal_event(signum) {
            Some(SignalEvent::Reload) => r == Some(Inter::Reload),
            Some(SignalEvent::Quit) => r == Some(Inter::Quit),
            None => r.is_none(),
        },
{
    if signum == SIGHUP {
        Some(Inter::Reload)
    } else if signum == SIGINT || signum == SIGTERM || signum == SIGQUIT {
        Some(Inter::Quit)
    } else {
        None
    }
}

/// What serving a client's request came to.
#[derive(Debug)]
pub enum Handled {
    /// An event to post on the loop.
    Enqueue(Inter),
    /// An answer to send.
    Answer(Reply),
    /// A change of one task: the orders to carry out, or the error to
    /// answer with.
    Change(Result<Orders, Reply>),
}

/// What the loop does next.
#[derive(Debug)]
pub enum Next {
    /// A request was served: carry out what it came to, then mark the end
    /// of the reply.
    Served(Handled),
    /// Read the configuration and hand it to `reload_config`.
    LoadConfig,
    /// Leave the loop.
    Quit,
}

/// The registry after the request `message` was served at `now`.
pub open spec fn after_message(monitors: Seq<MonitorView>, message: MessageView, now: u64) -> Seq<
    MonitorView,
> {
    match message {
        MessageView::Start { id } => started(monitors, id, now),
        MessageView::Stop { id } => stopped(monitors, id, now),
        MessageView::Restart { id } => restarted(monitors, id, now),
        _ => monitors,
    }
}

/// Whether `handled` is what serving `message` comes to, where `before`
/// is the registry the request met and `after` the one it left.
pub open spec fn serves(
    handled: Handled,
    message: MessageView,
    before: Seq<MonitorView>,
    after: Seq<MonitorView>,
    timestamp: u64,
) -> bool {
    match message {
        MessageView::Reload => handled == Handled::Enqueue(Inter::Reload),
        MessageView::Quit => handled == Handled::Enqueue(Inter::Quit),
        MessageView::Start { id } => match handled {
            Handled::Change(answer) => answers(answer, before, after, id, Seq::empty(), timestamp),
            _ => false,
        },
        MessageView::Stop { id } => match handled {
            Handled::Change(answer) => answers(
                answer,
                before,
                after,
                id,
                stop_signals_of(before, id),
                timestamp,
            ),
            _ => false,
        },
        MessageView::Restart { id } => match handled {
            Handled::Change(answer) => answers(
                answer,
                before,
                after,
                id,
                stop_signals_of(before, id),
                timestamp,
            ),
            _ => false,
        },
        MessageView::Info { id } => match handled {
            Handled::Answer(reply) => info_reply(reply, before, id),
            _ => false,
        },
        MessageView::Status { id } => match handled {
            Handled::Answer(reply) => status_reply(reply, before, id),
            _ => false,
        },
        MessageView::List => match handled {
            Handled::Answer(reply) => list_reply(reply, before),
            _ => false,
        },
    }
}

/// The supervisor: the registry, mutated by the loop alone.
#[derive(Debug)]
pub struct Server {
    pub state: State,
}

impl Server {
    /// The supervisor without a task.
    pub fn new() -> (r: Server)
        ensures
            r.state.wf(),
            r.state@.len() == 0,
    {
        Server { state: State::new() }
    }

    /// Takes a configuration that was read.
    pub fn reload_config(&mut self, config: Vec<(String, Task)>, now: u64, timestamp: u64) -> (r: Vec<
        Orders,
    >)
        requires
            old(self).state.wf(),
        ensures
            final(self).state.wf(),
            final(self).state@ == reloaded(old(self).state@, config_view(config@), now),
            r@.len() == config@.len(),
            forall|i: int|
                0 <= i < config@.len() ==> reload_orders(
                    #[trigger] r@[i],
                    reloaded(old(self).state@, config_view(config@).take(i), now),
                    reloaded(old(self).state@, config_view(config@).take(i + 1), now),
                    config@[i].0@,
                    config@[i].1@,
                    timestamp,
                ),
    {
        self.state.reload(config, now, timestamp)
    }

    /// Serves a client's request at `now`.
    pub fn handle_client_message(&mut self, message: Message, now: u64, timestamp: u64) -> (r: Handled)
        requires
            old(self).state.wf(),
        ensures
            final(self).state.wf(),
            final(self).state@ == after_message(old(self).state@, message@, now),
            serves(r, message@, old(self).state@, final(self).state@, timestamp),
    {
        match message {
            Message::Reload => Handled::Enqueue(Inter::Reload),
            Message::Start { id: taskname } => Handled::Change(
                self.state.start(taskname.as_str(), now, timestamp),
            ),
            Message::Info { id: taskname } => Handled::Answer(self.state.info(taskname.as_str())),
            Message::Stop { id: taskname } => Handled::Change(
                self.state.stop(taskname.as_str(), now, timestamp),
            ),
            Message::List => Handled::Answer(self.state.list()),
            Message::Status { id: taskname } => Handled::Answer(
                self.state.status(taskname.as_str()),
            ),
            Message::Restart { id: taskname } => Handled::Change(
                self.state.restart(taskname.as_str(), now, timestamp),
            ),
            Message::Quit => Handled::Enqueue(Inter::Quit),
        }
    }

    /// Takes one event off the loop at `now`: a request is served, a reload
    /// asks the caller for the configuration, and a quit ends the loop.
    pub fn handle_event(&mut self, event: Inter, now: u64, timestamp: u64) -> (r: Next)
        requires
            old(self).state.wf(),
        ensures
            final(self).state.wf(),
            match event {
                Inter::FromClient(message) => final(self).state@ == after_message(
                    old(self).state@,
                    message@,
                    now,
                ) && (match r {
                    Next::Served(handled) => serves(
                        handled,
                        message@,
                        old(self).state@,
                        final(self).state@,
                        timestamp,
                    ),
                    _ => false,
                }),
                Inter::Reload => final(self).state@ == old(self).state@ && r == Next::LoadConfig,
                Inter::Quit => final(self).state@ == old(self).state@ && r == Next::Quit,
            },
    {
        match event {
            Inter::FromClient(msg) => Next::Served(self.handle_client_message(msg, now, timestamp)),
            Inter::Reload => Next::LoadConfig,
            Inter::Quit => Next::Quit,
        }
    }
}

} // verus!
