//! Removing the socket files that the machine leaves behind.

use vstd::prelude::*;

verus! {

/// What came of removing a file.
#[derive(Debug)]
pub enum Removal {
    /// The file is gone.
    Removed,
    /// There was no such file.
    Missing,
    /// The file could not be removed, for this reason.
    Failed(String),
}

/// A line for the log.
#[derive(Debug, PartialEq, Eq)]
pub enum LogLine {
    Info(String),
    Warn(String),
}

/// What a [`LogLine`] holds.
pub enum LogLineView {
    Info(Seq<char>),
    Warn(Seq<char>),
}

impl View for LogLine {
    type V = LogLineView;

    open spec fn view(&self) -> LogLineView {
        match self {
            LogLine::Info(text) => LogLineView::Info(text@),
            LogLine::Warn(text) => LogLineView::Warn(text@),
        }
    }
}

/// The line that the log gets for a removal: a missing file is passed over.
pub open spec fn removal_line(path: Seq<char>, outcome: Removal) -> Option<LogLineView> {
    match outcome {
        Removal::Removed => Some(LogLineView::Info("removed vsock socket: "@ + path)),
        Removal::Missing => None,
        Removal::Failed(reason) => Some(
            LogLineView::Warn("failed to remove vsock socket "@ + path + ": "@ + reason@),
        ),
    }
}

/// Which of `total` sockets is removed next when `done` of them have been tried.
pub open spec fn next_socket(total: nat, done: nat) -> Option<nat> {
    if done < total {
        Some(done)
    } else {
        None
    }
}

/// Each socket is tried exactly once, after those in front of it and no others, and the removal
/// ends when all have been tried. What came of the earlier ones has no say in it.
pub proof fn law_every_socket_is_tried_once_in_order(total: nat, done: nat, socket: nat)
    ensures
        next_socket(total, done) == Some(socket) <==> socket < total && done == socket,
        next_socket(total, done) is None <==> total <= done,
{
}

/// A removed socket and a failure are logged with the path, a failure as a warning with its
/// reason; a missing socket leaves no line.
pub proof fn law_missing_sockets_are_passed_over(path: Seq<char>, outcome: Removal)
    ensures
        outcome is Missing <==> removal_line(path, outcome) is None,
        outcome is Removed ==> removal_line(path, outcome) == Some(
            LogLineView::Info("removed vsock socket: "@ + path),
        ),
        outcome matches Removal::Failed(reason) ==> removal_line(path, outcome) == Some(
            LogLineView::Warn("failed to remove vsock socket "@ + path + ": "@ + reason@),
        ),
{
}

/// What is to be done next while sockets are removed.
pub struct CleanupStep {
    /// What the log gets for the removal that came last.
    pub line: Option<LogLine>,
    /// Which socket is removed next, or none where all have been tried.
    pub remove: Option<usize>,
}

/// The contents of an optional line.
pub open spec fn line_view(line: Option<LogLine>) -> Option<LogLineView> {
    match line {
        Some(line) => Some(line@),
        None => None,
    }
}

/// Goes on with the removal of the sockets, given what came of those tried so far.
///
/// Every socket is tried once, in order, whatever came of the ones before it.
pub fn remove_sockets(paths: &Vec<String>, outcomes: &Vec<Removal>) -> (step: CleanupStep)
    requires
        outcomes@.len() <= paths@.len(),
    ensures
        line_view(step.line) == if outcomes@.len() == 0 {
            None
        } else {
            removal_line(paths@[outcomes@.len() - 1]@, outcomes@.last())
        },
        outcomes@.len() > 0 ==> match outcomes@.last() {
            Removal::Removed => {
                &&& step.line matches Some(LogLine::Info(text))
                &&& text@ == "removed vsock socket: "@ + paths@[outcomes@.len() - 1]@
            },
            Removal::Missing => step.line is None,
            Removal::Failed(reason) => {
                &&& step.line matches Some(LogLine::Warn(text))
                &&& text@ == "failed to remove vsock socket "@ + paths@[outcomes@.len() - 1]@ + ": "@
                    + reason@
            },
        },
        match step.remove {
            Some(index) => next_socket(paths@.len(), outcomes@.len()) == Some(index as nat),
            None => next_socket(paths@.len(), outcomes@.len()) is None,
        },
        step.remove == if outcomes@.len() < paths@.len() {
            Some(outcomes@.len() as usize)
        } else {
            None
        },
{
    let done = outcomes.len();
    let line: Option<LogLine> = if done == 0 {
        None
    } else {
        let path = paths[done - 1].as_str();
        match &outcomes[done - 1] {
            Removal::Removed => {
                let mut text = "removed vsock socket: ".to_owned();
                text.append(path);
                Some(LogLine::Info(text))
            },
            Removal::Missing => None,
            Removal::Failed(reason) => {
                let mut text = "failed to remove vsock socket ".to_owned();
                text.append(path);
                text.append(": ");
                text.append(reason.as_str());
                Some(LogLine::Warn(text))
            },
        }
    };
    let remove = if done < paths.len() {
        Some(done)
    } else {
        None
    };
    CleanupStep { line, remove }
}

} // verus!
