//! The decisions of the event loop: what to do about each inbound
//! protocol message and each control event, and how the command table
//! and the runner's state change with them.

use vstd::prelude::*;
use crate::command::empty_table;
use crate::command::table_remove;
use crate::command::table_upsert;
use crate::command::CommandTable;
use crate::command::TableView;
use crate::control::ControlView;
use crate::control::TashControl;
use crate::dispatch::route;
use crate::dispatch::route_spec;
use crate::error::BotError;
use crate::error::BotErrorView;
use crate::message::decode_spec;
use crate::message::tags_view;
use crate::message::Tag;
use crate::message::TagView;
use crate::message::TwitchMessage;

verus! {

/// Where the runner stands in its life.
#[derive(Clone, Copy, Debug, PartialEq, Eq, Structural)]
pub enum RunnerState {
    Running,
    ShuttingDown,
    Stopped,
}

/// What the loop reads of an inbound protocol message.
#[derive(Debug)]
pub enum ProtocolMessage {
    /// A chat line sent to `target`, with its body and its tags.
    PrivMsg { target: String, text: String, tags: Option<Vec<Tag>> },
    /// Any other protocol message.
    Other,
}

/// An inbound protocol message as characters. A chat line without a tag
/// list has the empty list.
pub enum ProtocolMessageView {
    PrivMsg { target: Seq<char>, text: Seq<char>, tags: Seq<TagView> },
    Other,
}

impl View for ProtocolMessage {
    type V = ProtocolMessageView;

    open spec fn view(&self) -> ProtocolMessageView {
        match *self {
            ProtocolMessage::PrivMsg { target, text, tags } => ProtocolMessageView::PrivMsg {
                target: target@,
                text: text@,
                tags: match tags {
                    Some(t) => tags_view(t@),
                    None => Seq::empty(),
                },
            },
            ProtocolMessage::Other => ProtocolMessageView::Other,
        }
    }
}

/// What the loop has to do after an event.
#[derive(Debug)]
pub enum Action {
    /// Nothing.
    Nothing,
    /// Send `text` as a chat line to `target`.
    Reply { target: String, text: String },
    /// Log that a chat line could not be decoded, and drop the line.
    LogDecodeError(BotError),
    /// Hand a message that is no chat line to the diagnostic sink.
    LogMessage,
    /// Log that the inbound stream gave something that is no message.
    LogInvalid,
    /// Join a channel.
    Join(String),
    /// Leave a channel.
    Part(String),
    /// Leave the loop.
    Stop,
}

/// An action with its texts as sequences of characters.
pub enum ActionView {
    Nothing,
    Reply { target: Seq<char>, text: Seq<char> },
    LogDecodeError(BotErrorView),
    LogMessage,
    LogInvalid,
    Join(Seq<char>),
    Part(Seq<char>),
    Stop,
}

impl View for Action {
    type V = ActionView;

    open spec fn view(&self) -> ActionView {
        match *self {
            Action::Nothing => ActionView::Nothing,
            Action::Reply { target, text } => ActionView::Reply { target: target@, text: text@ },
            Action::LogDecodeError(e) => ActionView::LogDecodeError(e@),
            Action::LogMessage => ActionView::LogMessage,
            Action::LogInvalid => ActionView::LogInvalid,
            Action::Join(name) => ActionView::Join(name@),
            Action::Part(name) => ActionView::Part(name@),
            Action::Stop => ActionView::Stop,
        }
    }
}

/// One thing that the loop waits for: the next item of the inbound
/// stream or the next control event.
#[derive(Debug)]
pub enum Event {
    /// A protocol message.
    Inbound(ProtocolMessage),
    /// An item of the inbound stream that is no protocol message.
    Invalid,
    /// A control event.
    Control(TashControl),
}

/// An event as characters.
pub enum EventView {
    Inbound(ProtocolMessageView),
    Invalid,
    Control(ControlView),
}

impl View for Event {
    type V = EventView;

    open spec fn view(&self) -> EventView {
        match *self {
            Event::Inbound(message) => EventView::Inbound(message@),
            Event::Invalid => EventView::Invalid,
            Event::Control(control) => EventView::Control(control@),
        }
    }
}

/// What a running loop does about an inbound message: a chat line is
/// decoded and routed, and the reply, if there is one, goes back to the
/// line's target; a line that cannot be decoded is logged and dropped;
/// any other message goes to the diagnostic sink.
pub open spec fn message_action(message: ProtocolMessageView, table: TableView) -> ActionView {
    match message {
        ProtocolMessageView::PrivMsg { target, text, tags } => match decode_spec(text, tags) {
            Ok(decoded) => match route_spec(target, decoded, table) {
                Some(reply) => ActionView::Reply { target: target, text: reply },
                None => ActionView::Nothing,
            },
            Err(e) => ActionView::LogDecodeError(e),
        },
        ProtocolMessageView::Other => ActionView::LogMessage,
    }
}

/// What a running loop does about a control event.
pub open spec fn control_action(control: ControlView) -> ActionView {
    match control {
        ControlView::JoinChannel(name) => ActionView::Join(name),
        ControlView::LeaveChannel(name) => ActionView::Part(name),
        ControlView::UpdateCommand(_, _) => ActionView::Nothing,
        ControlView::RemoveCommand(_, _) => ActionView::Nothing,
        ControlView::Shutdown => ActionView::Stop,
    }
}

/// The command table after a control event.
pub open spec fn control_table(control: ControlView, table: TableView) -> TableView {
    match control {
        ControlView::UpdateCommand(channel, command) => table_upsert(table, channel, command),
        ControlView::RemoveCommand(channel, id) => table_remove(table, channel, id),
        _ => table,
    }
}

/// The state of a running loop after a control event.
pub open spec fn control_state(control: ControlView) -> RunnerState {
    match control {
        ControlView::Shutdown => RunnerState::ShuttingDown,
        _ => RunnerState::Running,
    }
}

/// What the loop does about an event: a running loop decides by the
/// event, and a loop that is no longer running does nothing.
pub open spec fn step_action(state: RunnerState, table: TableView, event: EventView) -> ActionView {
    if state == RunnerState::Running {
        match event {
            EventView::Inbound(message) => message_action(message, table),
            EventView::Invalid => ActionView::LogInvalid,
            EventView::Control(control) => control_action(control),
        }
    } else {
        ActionView::Nothing
    }
}

/// The command table after an event: only a control event that reaches
/// a running loop changes it.
pub open spec fn step_table(state: RunnerState, table: TableView, event: EventView) -> TableView {
    match event {
        EventView::Control(control) if state == RunnerState::Running => control_table(
            control,
            table,
        ),
        _ => table,
    }
}

/// The state of the loop after an event: only `Shutdown` that reaches a
/// running loop changes it.
pub open spec fn step_state(state: RunnerState, event: EventView) -> RunnerState {
    match event {
        EventView::Control(control) if state == RunnerState::Running => control_state(control),
        _ => state,
    }
}

/// No event brings a loop that has left `Running` back to it, and such
/// a loop neither acts nor changes its commands.
pub proof fn lemma_no_way_back_to_running(state: RunnerState, table: TableView, event: EventView)
    requires
        state != RunnerState::Running,
    ensures
        step_state(state, event) == state,
        step_table(state, table, event) == table,
        step_action(state, table, event) == ActionView::Nothing,
{
}

/// A running loop leaves `Running` on `Shutdown` and on no other event,
/// and the action is then to leave the loop.
pub proof fn lemma_only_shutdown_stops(table: TableView, event: EventView)
    ensures
        step_state(RunnerState::Running, event) != RunnerState::Running <==> event
            == EventView::Control(ControlView::Shutdown),
        step_action(RunnerState::Running, table, event) == ActionView::Stop <==> event
            == EventView::Control(ControlView::Shutdown),
{
}

/// True of the actions whose failure ends the runner: a join that cannot
/// be issued. A leave or a reply that cannot be sent is passed over.
pub open spec fn failure_is_fatal(action: ActionView) -> bool {
    action is Join
}

/// The state and the command table of the event loop.
#[derive(Debug)]
pub struct TashbotRunner {
    state: RunnerState,
    commands: CommandTable,
}

impl TashbotRunner {
    /// The state of the loop.
    pub closed spec fn state_spec(&self) -> RunnerState {
        self.state
    }

    /// The command table as a mapping from channel names to commands.
    pub closed spec fn table(&self) -> TableView {
        self.commands@
    }

    /// A running loop with an empty command table.
    pub fn new() -> (r: Self)
        ensures
            r.state_spec() == RunnerState::Running,
            r.table() == empty_table(),
    {
        TashbotRunner { state: RunnerState::Running, commands: CommandTable::new() }
    }

    /// The state of the loop.
    pub fn state(&self) -> (s: RunnerState)
        ensures
            s == self.state_spec(),
    {
        self.state
    }

    /// The command table.
    pub fn commands(&self) -> (t: &CommandTable)
        ensures
            t@ == self.table(),
    {
        &self.commands
    }

    /// Decides what to do about an inbound protocol message. A loop that
    /// is no longer running does nothing about it.
    pub fn handle_message(&self, message: ProtocolMessage) -> (action: Action)
        ensures
            action@ == if self.state_spec() == RunnerState::Running {
                message_action(message@, self.table())
            } else {
                ActionView::Nothing
            },
    {
        if self.state != RunnerState::Running {
            return Action::Nothing;
        }
        match message {
            ProtocolMessage::PrivMsg { target, text, tags } => {
                let tags = match tags {
                    Some(t) => t,
                    None => {
                        let t: Vec<Tag> = Vec::new();
                        assert(tags_view(t@) =~= Seq::empty());
                        t
                    },
                };
                match TwitchMessage::new(text, tags) {
                    Ok(decoded) => match route(target.as_str(), &decoded, &self.commands) {
                        Some(reply) => Action::Reply { target, text: reply },
                        None => Action::Nothing,
                    },
                    Err(e) => Action::LogDecodeError(e),
                }
            },
            ProtocolMessage::Other => Action::LogMessage,
        }
    }

    /// Applies a control event and decides what to do about it.
    ///
    /// A running loop merges or removes commands as the event says, asks
    /// for a join or a leave to be issued, and on `Shutdown` begins to
    /// shut down and asks to leave the loop. A loop that is no longer
    /// running ignores the event.
    pub fn handle_control(&mut self, control: TashControl) -> (action: Action)
        ensures
            old(self).state_spec() == RunnerState::Running ==> {
                &&& action@ == control_action(control@)
                &&& final(self).table() == control_table(control@, old(self).table())
                &&& final(self).state_spec() == control_state(control@)
            },
            old(self).state_spec() != RunnerState::Running ==> {
                &&& action@ == ActionView::Nothing
                &&& final(self).table() == old(self).table()
                &&& final(self).state_spec() == old(self).state_spec()
            },
    {
        if self.state != RunnerState::Running {
            return Action::Nothing;
        }
        match control {
            TashControl::Shutdown => {
                self.state = RunnerState::ShuttingDown;
                Action::Stop
            },
            TashControl::JoinChannel(channel) => Action::Join(channel),
            TashControl::LeaveChannel(channel) => Action::Part(channel),
            TashControl::UpdateCommand((channel, command)) => {
                self.commands.upsert(channel, command);
                Action::Nothing
            },
            TashControl::RemoveCommand((channel, command_id)) => {
                self.commands.remove(channel.as_str(), command_id);
                Action::Nothing
            },
        }
    }

    /// Takes one event of the loop, whichever source it came from, and
    /// decides what to do about it. Events are applied one at a time, so
    /// a change of the command table and the routing of a message never
    /// overlap. A loop that is no longer running ignores every event.
    pub fn step(&mut self, event: Event) -> (action: Action)
        ensures
            action@ == step_action(old(self).state_spec(), old(self).table(), event@),
            final(self).table() == step_table(old(self).state_spec(), old(self).table(), event@),
            final(self).state_spec() == step_state(old(self).state_spec(), event@),
    {
        match event {
            Event::Inbound(message) => self.handle_message(message),
            Event::Invalid => {
                if self.state == RunnerState::Running {
                    Action::LogInvalid
                } else {
                    Action::Nothing
                }
            },
            Event::Control(control) => self.handle_control(control),
        }
    }

    /// Records that an action could not be carried out, and tells whether
    /// that is fatal. Only a failed join is: the runner is then stopped.
    /// The command table stays as it is.
    pub fn send_failed(&mut self, action: &Action) -> (fatal: bool)
        ensures
            fatal == failure_is_fatal(action@),
            final(self).table() == old(self).table(),
            final(self).state_spec() == if fatal {
                RunnerState::Stopped
            } else {
                old(self).state_spec()
            },
    {
        match action {
            Action::Join(_) => {
                self.state = RunnerState::Stopped;
                true
            },
            _ => false,
        }
    }

    /// Records that the loop was left: a runner that was shutting down is
    /// stopped, and any other state stays as it is.
    pub fn finish(&mut self)
        ensures
            final(self).table() == old(self).table(),
            final(self).state_spec() == if old(self).state_spec() == RunnerState::ShuttingDown {
                RunnerState::Stopped
            } else {
                old(self).state_spec()
            },
    {
        if self.state == RunnerState::ShuttingDown {
            self.state = RunnerState::Stopped;
        }
    }
}

} // verus!
