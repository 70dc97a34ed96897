//! The failures that the library reports.

use vstd::prelude::*;

verus! {

/// What can go wrong while decoding a chat line or talking to the runner.
#[derive(Debug, Clone, Copy)]
pub enum BotError {
    /// A chat line lacks the required tag that is named.
    MissingField(&'static str),
    /// The named tag holds a number that cannot be read.
    InvalidNumber(&'static str),
    /// The runner has stopped and takes no more control events.
    RunnerUnavailable,
    /// The runner's task ended abnormally.
    RunnerTaskFailed,
}

/// A `BotError` with its tag name as a sequence of characters.
pub enum BotErrorView {
    MissingField(Seq<char>),
    InvalidNumber(Seq<char>),
    RunnerUnavailable,
    RunnerTaskFailed,
}

impl View for BotError {
    type V = BotErrorView;

    open spec fn view(&self) -> BotErrorView {
        match *self {
            BotError::MissingField(name) => BotErrorView::MissingField(name@),
            BotError::InvalidNumber(name) => BotErrorView::InvalidNumber(name@),
            BotError::RunnerUnavailable => BotErrorView::RunnerUnavailable,
            BotError::RunnerTaskFailed => BotErrorView::RunnerTaskFailed,
        }
    }
}

impl BotError {
    /// The tag that a decode failure names; `None` for the other failures.
    pub fn field(&self) -> (r: Option<&'static str>)
        ensures
            match self@ {
                BotErrorView::MissingField(n) | BotErrorView::InvalidNumber(n) => r matches Some(s)
                    && s@ == n,
                _ => r is None,
            },
    {
        match self {
            BotError::MissingField(name) => Some(*name),
            BotError::InvalidNumber(name) => Some(*name),
            _ => None,
        }
    }
}

} // verus!
