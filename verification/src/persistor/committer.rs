//! Commit after write.
//!
//! The committer handles one message at a time. A message whose payload
//! decodes yields a record to write; its offset is committed when, and only
//! when, the sink reports that the write succeeded. A failed write commits
//! nothing, so the broker delivers the message again. A payload that does not
//! decode can never be written, so its message is skipped and committed at
//! once. A message without payload is reported and not committed.

use crate::common::log::{decoded_payload, Log, LogView, ParseLogErr, ParseLogErrView};
use vstd::prelude::*;

verus! {

/// The position the broker gave a message.
pub type BrokerOffset = i64;

/// What the committer surfaces instead of committing.
#[derive(Debug)]
pub enum CommitterError {
    /// The message has no payload.
    NoPayload,
    /// The sink did not take the record.
    WriteFailed { reason: String },
    /// A write result came in while no write was outstanding.
    NoWriteOutstanding,
}

/// What the caller has to do next.
#[derive(Debug)]
pub enum Action {
    /// Append the record to the sink and hand the result to
    /// [`Committer::written`].
    Write(Log),
    /// Commit this offset. `skipped` holds the reason if the message is
    /// committed without having been written.
    Commit { offset: BrokerOffset, skipped: Option<ParseLogErr> },
    /// Surface the error and commit nothing.
    Report(CommitterError),
}

/// What happens to the committer.
pub enum Event {
    /// The broker delivered a message.
    Message { offset: BrokerOffset, payload: Option<Seq<u8>> },
    /// The sink answered the outstanding write: `true` for success.
    Written(bool),
}

/// An [`Action`] as a mathematical value, without the texts of errors.
pub enum ActionView {
    Write(LogView),
    Commit { offset: BrokerOffset, skipped: Option<ParseLogErrView> },
    ReportNoPayload,
    ReportWriteFailed,
    ReportNoWriteOutstanding,
}

impl View for Action {
    type V = ActionView;

    open spec fn view(&self) -> ActionView {
        match self {
            Action::Write(log) => ActionView::Write(log@),
            Action::Commit { offset, skipped } => ActionView::Commit {
                offset: *offset,
                skipped: match skipped {
                    Some(reason) => Some(reason@),
                    None => None,
                },
            },
            Action::Report(CommitterError::NoPayload) => ActionView::ReportNoPayload,
            Action::Report(CommitterError::WriteFailed { .. }) => ActionView::ReportWriteFailed,
            Action::Report(CommitterError::NoWriteOutstanding) => ActionView::ReportNoWriteOutstanding,
        }
    }
}

/// The committer's state after an event: the offset whose write is
/// outstanding, if any.
pub open spec fn next_state(writing: Option<BrokerOffset>, event: Event) -> Option<BrokerOffset> {
    match event {
        Event::Message { offset, payload: Some(bytes) } => if decoded_payload(bytes) is Ok {
            Some(offset)
        } else {
            None
        },
        Event::Message { offset, payload: None } => None,
        Event::Written(_) => None,
    }
}

/// What the committer asks for after an event.
pub open spec fn next_action(writing: Option<BrokerOffset>, event: Event) -> ActionView {
    match event {
        Event::Message { offset, payload: None } => ActionView::ReportNoPayload,
        Event::Message { offset, payload: Some(bytes) } => match decoded_payload(bytes) {
            Ok(log) => ActionView::Write(log),
            Err(reason) => ActionView::Commit { offset, skipped: Some(reason) },
        },
        Event::Written(success) => match writing {
            None => ActionView::ReportNoWriteOutstanding,
            Some(offset) => if success {
                ActionView::Commit { offset, skipped: None }
            } else {
                ActionView::ReportWriteFailed
            },
        },
    }
}

/// The state before the event at `at`, in a run that starts in `writing`.
pub open spec fn state_before(writing: Option<BrokerOffset>, events: Seq<Event>, at: int) -> Option<
    BrokerOffset,
>
    decreases at,
{
    if at <= 0 {
        writing
    } else {
        next_state(state_before(writing, events, at - 1), events[at - 1])
    }
}

/// What the committer asks for after the event at `at` of a run.
pub open spec fn action_at(writing: Option<BrokerOffset>, events: Seq<Event>, at: int) -> ActionView {
    next_action(state_before(writing, events, at), events[at])
}

/// The offsets a run commits, in order.
pub open spec fn commits(writing: Option<BrokerOffset>, events: Seq<Event>) -> Seq<BrokerOffset>
    decreases events.len(),
{
    if events.len() == 0 {
        Seq::empty()
    } else {
        let rest = commits(next_state(writing, events[0]), events.drop_first());
        match next_action(writing, events[0]) {
            ActionView::Commit { offset, .. } => seq![offset] + rest,
            _ => rest,
        }
    }
}

/// The committer of one consumer.
pub struct Committer {
    writing: Option<BrokerOffset>,
}

impl Committer {
    /// The offset whose write is outstanding, if any.
    pub closed spec fn writing(&self) -> Option<BrokerOffset> {
        self.writing
    }

    /// A committer with no write outstanding.
    pub fn new() -> (committer: Committer)
        ensures
            committer.writing() is None,
    {
        Committer { writing: None }
    }

    /// The offset whose write is outstanding, if any.
    pub fn outstanding(&self) -> (offset: Option<BrokerOffset>)
        ensures
            offset == self.writing(),
    {
        self.writing
    }

    /// Takes the next message of the topic. A write that is still
    /// outstanding is given up: its offset will not be committed.
    pub fn handle_message(&mut self, offset: BrokerOffset, payload: Option<&[u8]>) -> (action:
        Action)
        ensures
            action@ == next_action(
                old(self).writing(),
                Event::Message {
                    offset,
                    payload: match payload {
                        Some(bytes) => Some(bytes@),
                        None => None,
                    },
                },
            ),
            final(self).writing() == next_state(
                old(self).writing(),
                Event::Message {
                    offset,
                    payload: match payload {
                        Some(bytes) => Some(bytes@),
                        None => None,
                    },
                },
            ),
            action matches Action::Write(log) ==> log.wf(),
    {
        match payload {
            None => {
                self.writing = None;
                Action::Report(CommitterError::NoPayload)
            },
            Some(bytes) => match Log::try_from(bytes) {
                Ok(log) => {
                    self.writing = Some(offset);
                    Action::Write(log)
                },
                Err(reason) => {
                    self.writing = None;
                    Action::Commit { offset, skipped: Some(reason) }
                },
            },
        }
    }

    /// Takes the sink's answer to the outstanding write: the offset is
    /// committed if the write succeeded, and left alone if it failed.
    pub fn written(&mut self, result: Result<(), String>) -> (action: Action)
        ensures
            action@ == next_action(old(self).writing(), Event::Written(result is Ok)),
            final(self).writing() == next_state(old(self).writing(), Event::Written(result is Ok)),
            action matches Action::Report(CommitterError::WriteFailed { reason }) ==> result
                == Err::<(), String>(reason),
    {
        let outstanding = self.writing;
        self.writing = None;
        match outstanding {
            None => Action::Report(CommitterError::NoWriteOutstanding),
            Some(offset) => match result {
                Ok(()) => Action::Commit { offset, skipped: None },
                Err(reason) => Action::Report(CommitterError::WriteFailed { reason }),
            },
        }
    }
}

/// A record that the gateway published is found again by the committer: the
/// message that carries its payload is written as that record, and the write
/// of that message is then the one outstanding.
pub proof fn lemma_published_record_is_written(
    log: Log,
    writing: Option<BrokerOffset>,
    offset: BrokerOffset,
)
    requires
        log.wf(),
    ensures
        next_action(writing, Event::Message { offset, payload: Some(log@.original_data) })
            == ActionView::Write(log@),
        next_state(writing, Event::Message { offset, payload: Some(log@.original_data) })
            == Some(offset),
{
}

/// A failed write commits nothing and leaves no write outstanding.
pub proof fn lemma_failed_write_commits_nothing(writing: Option<BrokerOffset>)
    ensures
        !(next_action(writing, Event::Written(false)) is Commit),
        next_state(writing, Event::Written(false)) is None,
        commits(writing, seq![Event::Written(false)]) == Seq::<BrokerOffset>::empty(),
{
    reveal_with_fuel(commits, 2);
    assert(seq![Event::Written(false)].drop_first() =~= Seq::<Event>::empty());
}

/// In every run, the offset of a record is committed only by the sink's
/// confirmation that directly follows the delivery of that record.
pub proof fn lemma_commit_follows_write(
    writing: Option<BrokerOffset>,
    events: Seq<Event>,
    at: int,
    offset: BrokerOffset,
)
    requires
        0 <= at < events.len(),
        action_at(writing, events, at) == (ActionView::Commit { offset, skipped: None }),
    ensures
        events[at] == Event::Written(true),
        state_before(writing, events, at) == Some(offset),
        at > 0 ==> (events[at - 1] matches Event::Message { offset: delivered, payload: Some(bytes) }
            && delivered == offset && decoded_payload(bytes) is Ok),
{
}

/// A message whose write fails and which is then delivered again and
/// written is committed exactly once, by the second write.
pub proof fn lemma_redelivery_commits_once(offset: BrokerOffset, payload: Seq<u8>)
    requires
        decoded_payload(payload) is Ok,
    ensures
        commits(
            None,
            seq![
                Event::Message { offset, payload: Some(payload) },
                Event::Written(false),
                Event::Message { offset, payload: Some(payload) },
                Event::Written(true),
            ],
        ) == seq![offset],
{
    let delivery = Event::Message { offset, payload: Some(payload) };
    let run = seq![delivery, Event::Written(false), delivery, Event::Written(true)];
    let run1 = seq![Event::Written(false), delivery, Event::Written(true)];
    let run2 = seq![delivery, Event::Written(true)];
    let run3 = seq![Event::Written(true)];
    assert(run.drop_first() =~= run1);
    assert(run1.drop_first() =~= run2);
    assert(run2.drop_first() =~= run3);
    assert(run3.drop_first() =~= Seq::<Event>::empty());
    assert(commits(Some(offset), run3) =~= seq![offset]) by {
        reveal_with_fuel(commits, 2);
    }
    assert(commits(None, run2) =~= seq![offset]) by {
        reveal_with_fuel(commits, 2);
    }
    assert(commits(Some(offset), run1) =~= seq![offset]) by {
        reveal_with_fuel(commits, 2);
    }
    assert(commits(None, run) =~= seq![offset]) by {
        reveal_with_fuel(commits, 2);
    }
}

} // verus!
