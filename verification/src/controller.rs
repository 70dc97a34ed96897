//! The facade through which callers queue control events for the runner.

use vstd::prelude::*;
use tokio::sync::mpsc::UnboundedSender;
use crate::command::Command;
use crate::control::channel_target;
use crate::control::join_target;
use crate::control::ControlView;
use crate::control::TashControl;
use crate::error::BotError;
use crate::error::BotErrorView;

verus! {

/// The sending half of tokio's unbounded channel, which Verus carries
/// through without looking inside.
#[verifier::external_type_specification]
#[verifier::external_body]
#[verifier::reject_recursive_types(T)]
pub struct ExUnboundedSender<T>(UnboundedSender<T>);

/// Calls `tokio::sync::mpsc::UnboundedSender::send`. Whether the event is
/// taken depends on whether the receiving half is still open, so nothing
/// is said of that; an event that is refused comes back as it was given.
/// The call never waits. None of this is proved: it is what tokio's
/// source shows.
#[verifier::external_body]
fn enqueue(sender: &UnboundedSender<TashControl>, event: TashControl) -> (r: Result<
    (),
    TashControl,
>)
    ensures
        r matches Err(back) ==> back == event,
{
    sender.send(event).map_err(|e| e.0)
}

/// The result that a caller sees for an attempt to queue an event: an
/// event that came back means that the runner is gone.
pub fn enqueue_result(attempt: Result<(), TashControl>) -> (r: Result<(), BotError>)
    ensures
        attempt is Ok ==> r is Ok,
        attempt is Err ==> (r matches Err(e) && e@ == BotErrorView::RunnerUnavailable),
{
    match attempt {
        Ok(()) => Ok(()),
        Err(_) => Err(BotError::RunnerUnavailable),
    }
}

/// The result of a shutdown once the runner's task has ended: a task
/// that did not end normally is reported as `RunnerTaskFailed`.
pub fn shutdown_result(ended_normally: bool) -> (r: Result<(), BotError>)
    ensures
        ended_normally ==> r is Ok,
        !ended_normally ==> (r matches Err(e) && e@ == BotErrorView::RunnerTaskFailed),
{
    if ended_normally {
        Ok(())
    } else {
        Err(BotError::RunnerTaskFailed)
    }
}

/// The event that asks the runner to join a channel.
pub fn join_event(channel: &str) -> (e: TashControl)
    ensures
        e@ == ControlView::JoinChannel(channel@),
{
    TashControl::JoinChannel(channel.to_owned())
}

/// The event that asks the runner to leave a channel.
pub fn leave_event(channel: &str) -> (e: TashControl)
    ensures
        e@ == ControlView::LeaveChannel(channel@),
{
    TashControl::LeaveChannel(channel.to_owned())
}

/// The event that registers a command for a channel.
pub fn update_event(channel: &str, command: Command) -> (e: TashControl)
    ensures
        e@ == ControlView::UpdateCommand(channel@, command@),
{
    TashControl::UpdateCommand((channel.to_owned(), command))
}

/// The event that removes a command from a channel.
pub fn remove_event(channel: &str, command_id: i32) -> (e: TashControl)
    ensures
        e@ == ControlView::RemoveCommand(channel@, command_id),
{
    TashControl::RemoveCommand((channel.to_owned(), command_id))
}

/// The joins that bring the bot into each stored channel: one event for
/// each channel of the list, in its order, under the protocol name.
pub fn join_events(channels: &Vec<(i32, String)>) -> (events: Vec<TashControl>)
    ensures
        events.len() == channels.len(),
        forall|i: int|
            0 <= i < events.len() ==> (#[trigger] events[i])@ == ControlView::JoinChannel(
                join_target(channels[i].1@),
            ),
{
    let mut events: Vec<TashControl> = Vec::new();
    let mut i: usize = 0;
    while i < channels.len()
        invariant
            i <= channels.len(),
            events.len() == i,
            forall|k: int|
                0 <= k < i ==> (#[trigger] events[k])@ == ControlView::JoinChannel(
                    join_target(channels[k].1@),
                ),
        decreases channels.len() - i,
    {
        let target = channel_target(channels[i].1.as_str());
        events.push(TashControl::JoinChannel(target));
        i += 1;
    }
    events
}

/// The registrations that load a channel's commands: one event for each
/// command of the list, in its order.
pub fn update_events(channel: &str, commands: &Vec<Command>) -> (events: Vec<TashControl>)
    ensures
        events.len() == commands.len(),
        forall|i: int|
            0 <= i < events.len() ==> (#[trigger] events[i])@ == ControlView::UpdateCommand(
                channel@,
                commands[i]@,
            ),
{
    let mut events: Vec<TashControl> = Vec::new();
    let mut i: usize = 0;
    while i < commands.len()
        invariant
            i <= commands.len(),
            events.len() == i,
            forall|k: int|
                0 <= k < i ==> (#[trigger] events[k])@ == ControlView::UpdateCommand(
                    channel@,
                    commands[k]@,
                ),
        decreases commands.len() - i,
    {
        events.push(update_event(channel, commands[i].clone()));
        i += 1;
    }
    events
}

/// The handle with which callers instruct the runner. Each method queues
/// one kind of control event and returns at once.
pub struct Tashbot {
    sender: UnboundedSender<TashControl>,
}

impl Tashbot {
    /// The sender on which the handle queues its events.
    pub closed spec fn sender_spec(&self) -> UnboundedSender<TashControl> {
        self.sender
    }

    /// A handle that queues its events on `sender`.
    pub fn new(sender: UnboundedSender<TashControl>) -> (r: Self)
        ensures
            r.sender_spec() == sender,
    {
        Tashbot { sender }
    }

    /// Queues a request to join `channel`. Fails with `RunnerUnavailable`,
    /// and with nothing else, where the runner no longer takes events.
    pub fn join(&self, channel: &str) -> (r: Result<(), BotError>)
        ensures
            r matches Err(e) ==> e@ == BotErrorView::RunnerUnavailable,
    {
        enqueue_result(enqueue(&self.sender, join_event(channel)))
    }

    /// Queues a request to leave `channel`. Fails with
    /// `RunnerUnavailable`, and with nothing else, where the runner no
    /// longer takes events.
    pub fn leave(&self, channel: &str) -> (r: Result<(), BotError>)
        ensures
            r matches Err(e) ==> e@ == BotErrorView::RunnerUnavailable,
    {
        enqueue_result(enqueue(&self.sender, leave_event(channel)))
    }

    /// Queues the registration of `command` for `channel`. Fails with
    /// `RunnerUnavailable`, and with nothing else, where the runner no
    /// longer takes events.
    pub fn update_command(&self, channel: &str, command: Command) -> (r: Result<(), BotError>)
        ensures
            r matches Err(e) ==> e@ == BotErrorView::RunnerUnavailable,
    {
        enqueue_result(enqueue(&self.sender, update_event(channel, command)))
    }

    /// Queues the removal of the command with the given id from
    /// `channel`. Fails with `RunnerUnavailable`, and with nothing else,
    /// where the runner no longer takes events.
    pub fn remove_command(&self, channel: &str, command_id: i32) -> (r: Result<(), BotError>)
        ensures
            r matches Err(e) ==> e@ == BotErrorView::RunnerUnavailable,
    {
        enqueue_result(enqueue(&self.sender, remove_event(channel, command_id)))
    }

    /// Queues the events of a list in its order and stops at the first
    /// that is refused. An empty list succeeds.
    pub fn enqueue_all(&self, events: Vec<TashControl>) -> (r: Result<(), BotError>)
        ensures
            events.len() == 0 ==> r is Ok,
            r matches Err(e) ==> e@ == BotErrorView::RunnerUnavailable,
    {
        let n = events.len();
        let mut rest = events;
        let mut i: usize = 0;
        while i < n
            invariant
                i <= n,
                n == events.len(),
                rest.len() == n - i,
            decreases n - i,
        {
            let event = rest.remove(0);
            match enqueue_result(enqueue(&self.sender, event)) {
                Ok(()) => {},
                Err(e) => {
                    return Err(e);
                },
            }
            i += 1;
        }
        Ok(())
    }

    /// Queues one join for each stored channel, under its protocol name,
    /// in the order of the list, and stops at the first that is refused.
    /// A list without channels succeeds.
    pub fn join_channels(&self, channels: &Vec<(i32, String)>) -> (r: Result<(), BotError>)
        ensures
            channels.len() == 0 ==> r is Ok,
            r matches Err(e) ==> e@ == BotErrorView::RunnerUnavailable,
    {
        self.enqueue_all(join_events(channels))
    }

    /// Queues the registration of each command of a list for `channel`,
    /// in the order of the list, and stops at the first that is refused.
    /// A list without commands succeeds.
    pub fn load_commands(&self, channel: &str, commands: &Vec<Command>) -> (r: Result<
        (),
        BotError,
    >)
        ensures
            commands.len() == 0 ==> r is Ok,
            r matches Err(e) ==> e@ == BotErrorView::RunnerUnavailable,
    {
        self.enqueue_all(update_events(channel, commands))
    }

    /// Queues the request to shut down. Fails with `RunnerUnavailable`,
    /// and with nothing else, where the runner no longer takes events.
    /// The caller then waits for the runner's task and hands what it saw
    /// to `shutdown_result`.
    pub fn shutdown(&self) -> (r: Result<(), BotError>)
        ensures
            r matches Err(e) ==> e@ == BotErrorView::RunnerUnavailable,
    {
        enqueue_result(enqueue(&self.sender, TashControl::Shutdown))
    }
}

} // verus!
