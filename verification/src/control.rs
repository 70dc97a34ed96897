//! The control events that callers queue for the runner.

use vstd::prelude::*;
use vstd::string::StringExecFns;
use crate::command::Command;
use crate::command::CommandView;

verus! {

/// An instruction to the runner.
#[derive(Debug)]
pub enum TashControl {
    JoinChannel(String),
    LeaveChannel(String),
    UpdateCommand((String, Command)),
    RemoveCommand((String, i32)),
    Shutdown,
}

/// A control event with its texts as sequences of characters.
pub enum ControlView {
    JoinChannel(Seq<char>),
    LeaveChannel(Seq<char>),
    UpdateCommand(Seq<char>, CommandView),
    RemoveCommand(Seq<char>, i32),
    Shutdown,
}

impl View for TashControl {
    type V = ControlView;

    open spec fn view(&self) -> ControlView {
        match *self {
            TashControl::JoinChannel(name) => ControlView::JoinChannel(name@),
            TashControl::LeaveChannel(name) => ControlView::LeaveChannel(name@),
            TashControl::UpdateCommand(pair) => ControlView::UpdateCommand(pair.0@, pair.1@),
            TashControl::RemoveCommand(pair) => ControlView::RemoveCommand(pair.0@, pair.1),
            TashControl::Shutdown => ControlView::Shutdown,
        }
    }
}

/// The name under which a stored channel is joined: `#` and the stored
/// name.
pub open spec fn join_target(stored: Seq<char>) -> Seq<char> {
    seq!['#'] + stored
}

/// Writes the protocol name of a stored channel.
pub fn channel_target(stored: &str) -> (r: String)
    ensures
        r@ == join_target(stored@),
{
    let mut r = String::from_str("#");
    proof {
        reveal_strlit("#");
        assert("#"@ =~= seq!['#']);
    }
    r.append(stored);
    r
}

} // verus!
