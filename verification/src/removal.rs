//! Removing a ticket or a range of tickets: the decisions taken between the database
//! operations that the caller performs.

use vstd::prelude::*;

use crate::error::CommandError;
use crate::model::{ticket_block, ticket_line, Ticket, TicketView};

verus! {

/// Where a removal stands.
pub enum Stage {
    /// The ticket with this identifier must be looked up.
    Fetching(u16),
    /// The ticket was found and must now be deleted.
    Removing(u16, Ticket),
    /// The ticket was deleted and its rendering must be printed.
    Printing(u16),
    /// Every ticket of the range was removed.
    Finished,
    /// A ticket was missing or could not be deleted; nothing more is done.
    Failed,
}

/// Where a removal stands, as a value.
pub enum StageView {
    Fetching(u16),
    Removing(u16, TicketView),
    Printing(u16),
    Finished,
    Failed,
}

impl View for Stage {
    type V = StageView;

    open spec fn view(&self) -> StageView {
        match self {
            Stage::Fetching(i) => StageView::Fetching(*i),
            Stage::Removing(i, t) => StageView::Removing(*i, t@),
            Stage::Printing(i) => StageView::Printing(*i),
            Stage::Finished => StageView::Finished,
            Stage::Failed => StageView::Failed,
        }
    }
}

/// What the caller reports back after doing what was asked.
pub enum RemovalEvent {
    /// The looked-up ticket, if it exists.
    Fetched(Option<Ticket>),
    /// Whether the database deleted the ticket.
    Removed(bool),
    /// The rendering was printed.
    Printed,
}

/// A reported event, as a value.
pub enum EventView {
    Fetched(Option<TicketView>),
    Removed(bool),
    Printed,
}

impl View for RemovalEvent {
    type V = EventView;

    open spec fn view(&self) -> EventView {
        match self {
            RemovalEvent::Fetched(Some(t)) => EventView::Fetched(Some(t@)),
            RemovalEvent::Fetched(None) => EventView::Fetched(None),
            RemovalEvent::Removed(b) => EventView::Removed(*b),
            RemovalEvent::Printed => EventView::Printed,
        }
    }
}

/// What the caller must do next.
pub enum RemovalAction {
    /// Look up the ticket with this identifier.
    Fetch(u16),
    /// Delete the ticket with this identifier.
    Remove(u16),
    /// Print this line.
    Print(String),
    /// Stop with this error.
    Fail(CommandError),
    /// Stop: the removal is complete.
    Done,
}

/// An action, as a value.
pub enum ActionView {
    Fetch(u16),
    Remove(u16),
    Print(Seq<char>),
    Fail(CommandError),
    Done,
}

impl View for RemovalAction {
    type V = ActionView;

    open spec fn view(&self) -> ActionView {
        match self {
            RemovalAction::Fetch(i) => ActionView::Fetch(*i),
            RemovalAction::Remove(i) => ActionView::Remove(*i),
            RemovalAction::Print(s) => ActionView::Print(s@),
            RemovalAction::Fail(e) => ActionView::Fail(*e),
            RemovalAction::Done => ActionView::Done,
        }
    }
}

/// The removal of the tickets `first` to `last`, both included.
pub struct Removal {
    first: u16,
    last: u16,
    stage: Stage,
}

/// A removal, as a value.
pub struct RemovalView {
    pub first: u16,
    pub last: u16,
    pub stage: StageView,
}

impl View for Removal {
    type V = RemovalView;

    closed spec fn view(&self) -> RemovalView {
        RemovalView { first: self.first, last: self.last, stage: self.stage@ }
    }
}

/// Whether more than one ticket is removed; each is then printed on one line.
pub open spec fn is_multiple(v: RemovalView) -> bool {
    v.first < v.last
}

/// How a removed ticket is printed: on one line among several, framed when alone.
pub open spec fn removed_text(v: RemovalView, t: TicketView) -> Seq<char> {
    if is_multiple(v) {
        ticket_line(t)
    } else {
        ticket_block(t)
    }
}

/// The removal's bounds are ordered and the ticket it is at lies between them.
pub open spec fn removal_wf(v: RemovalView) -> bool {
    &&& v.first <= v.last
    &&& match v.stage {
        StageView::Fetching(i) => v.first <= i <= v.last,
        StageView::Removing(i, t) => v.first <= i <= v.last,
        StageView::Printing(i) => v.first <= i <= v.last,
        _ => true,
    }
}

/// Whether the removal awaits this event.
pub open spec fn awaits(v: RemovalView, e: EventView) -> bool {
    match (v.stage, e) {
        (StageView::Fetching(_), EventView::Fetched(_)) => true,
        (StageView::Removing(_, _), EventView::Removed(_)) => true,
        (StageView::Printing(_), EventView::Printed) => true,
        _ => false,
    }
}

/// The stage after an awaited event: a found ticket is deleted, a deleted ticket is
/// printed, and after the print the next identifier is looked up, until the last one;
/// a missing or undeleted ticket ends the removal.
pub open spec fn next_stage(v: RemovalView, e: EventView) -> StageView {
    match (v.stage, e) {
        (StageView::Fetching(i), EventView::Fetched(Some(t))) => StageView::Removing(i, t),
        (StageView::Fetching(i), EventView::Fetched(None)) => StageView::Failed,
        (StageView::Removing(i, t), EventView::Removed(true)) => StageView::Printing(i),
        (StageView::Removing(i, t), EventView::Removed(false)) => StageView::Failed,
        (StageView::Printing(i), EventView::Printed) => if i == v.last {
            StageView::Finished
        } else {
            StageView::Fetching((i + 1) as u16)
        },
        _ => v.stage,
    }
}

/// The action asked for after an awaited event.
pub open spec fn next_action(v: RemovalView, e: EventView) -> ActionView {
    match (v.stage, e) {
        (StageView::Fetching(i), EventView::Fetched(Some(t))) => ActionView::Remove(i),
        (StageView::Fetching(i), EventView::Fetched(None)) => ActionView::Fail(
            CommandError::TicketNotFound,
        ),
        (StageView::Removing(i, t), EventView::Removed(true)) => ActionView::Print(
            removed_text(v, t),
        ),
        (StageView::Removing(i, t), EventView::Removed(false)) => ActionView::Fail(
            CommandError::TicketNotRemoved,
        ),
        (StageView::Printing(i), EventView::Printed) => if i == v.last {
            ActionView::Done
        } else {
            ActionView::Fetch((i + 1) as u16)
        },
        _ => ActionView::Done,
    }
}

impl Removal {
    /// Starts the removal of the ticket `id`, or of the tickets `id` to `to`; a range that
    /// ends before it starts is refused. The number of tickets must fit in a `u16`.
    pub fn start(id: u16, to: Option<u16>) -> (r: Result<Removal, CommandError>)
        requires
            to.unwrap_or(id) < id || to.unwrap_or(id) - id + 1 <= u16::MAX,
        ensures
            to.unwrap_or(id) < id <==> r is Err,
            r matches Err(e) ==> e is RangeEndBeforeStart,
            r matches Ok(m) ==> m@ == (RemovalView {
                first: id,
                last: to.unwrap_or(id),
                stage: StageView::Fetching(id),
            }),
            r matches Ok(m) ==> removal_wf(m@),
    {
        let last = match to {
            Some(t) => t,
            None => id,
        };
        if last < id {
            Err(CommandError::RangeEndBeforeStart)
        } else {
            Ok(Removal { first: id, last, stage: Stage::Fetching(id) })
        }
    }

    /// The line printed before the removed tickets.
    pub fn heading(&self) -> (s: String)
        ensures
            s@ == if is_multiple(self@) {
                "Removed tickets:"@
            } else {
                "Removed ticket:"@
            },
    {
        if self.first < self.last {
            String::from_str("Removed tickets:")
        } else {
            String::from_str("Removed ticket:")
        }
    }

    /// The first action: look up the first ticket.
    pub fn first_action(&self) -> (a: RemovalAction)
        ensures
            a@ == ActionView::Fetch(self@.first),
    {
        RemovalAction::Fetch(self.first)
    }

    /// Whether the removal awaits this event.
    pub fn awaits(&self, event: &RemovalEvent) -> (b: bool)
        ensures
            b == awaits(self@, event@),
    {
        match (&self.stage, event) {
            (Stage::Fetching(_), RemovalEvent::Fetched(_)) => true,
            (Stage::Removing(_, _), RemovalEvent::Removed(_)) => true,
            (Stage::Printing(_), RemovalEvent::Printed) => true,
            _ => false,
        }
    }

    /// Takes in what the caller did and says what to do next.
    pub fn step(&mut self, event: RemovalEvent) -> (a: RemovalAction)
        requires
            removal_wf(old(self)@),
            awaits(old(self)@, event@),
        ensures
            final(self)@.first == old(self)@.first,
            final(self)@.last == old(self)@.last,
            final(self)@.stage == next_stage(old(self)@, event@),
            a@ == next_action(old(self)@, event@),
            removal_wf(final(self)@),
    {
        let mut stage = Stage::Failed;
        std::mem::swap(&mut stage, &mut self.stage);
        match stage {
            Stage::Fetching(i) => match event {
                RemovalEvent::Fetched(Some(t)) => {
                    self.stage = Stage::Removing(i, t);
                    RemovalAction::Remove(i)
                },
                _ => {
                    self.stage = Stage::Failed;
                    RemovalAction::Fail(CommandError::TicketNotFound)
                },
            },
            Stage::Removing(i, t) => match event {
                RemovalEvent::Removed(true) => {
                    let text = if self.first < self.last {
                        t.fmt_line()
                    } else {
                        t.fmt_block()
                    };
                    self.stage = Stage::Printing(i);
                    RemovalAction::Print(text)
                },
                _ => {
                    self.stage = Stage::Failed;
                    RemovalAction::Fail(CommandError::TicketNotRemoved)
                },
            },
            Stage::Printing(i) => {
                if i == self.last {
                    self.stage = Stage::Finished;
                    RemovalAction::Done
                } else {
                    self.stage = Stage::Fetching(i + 1);
                    RemovalAction::Fetch(i + 1)
                }
            },
            Stage::Finished => {
                self.stage = Stage::Finished;
                RemovalAction::Done
            },
            Stage::Failed => RemovalAction::Done,
        }
    }
}

/// A successful round: once the ticket `i` is found, it is deleted; once deleted, it is
/// printed as the removal prints its tickets; once printed, the next identifier is looked
/// up, or the removal is complete when `i` was the last one.
pub proof fn lemma_successful_round(v: RemovalView, t: TicketView)
    requires
        removal_wf(v),
        v.stage is Fetching,
    ensures
        ({
            let i = v.stage->Fetching_0;
            let v1 = RemovalView { stage: next_stage(v, EventView::Fetched(Some(t))), ..v };
            let v2 = RemovalView { stage: next_stage(v1, EventView::Removed(true)), ..v };
            let v3 = RemovalView { stage: next_stage(v2, EventView::Printed), ..v };
            &&& next_action(v, EventView::Fetched(Some(t))) == ActionView::Remove(i)
            &&& next_action(v1, EventView::Removed(true)) == ActionView::Print(removed_text(v, t))
            &&& i < v.last ==> next_action(v2, EventView::Printed) == ActionView::Fetch(
                (i + 1) as u16,
            ) && v3.stage == StageView::Fetching((i + 1) as u16)
            &&& i == v.last ==> next_action(v2, EventView::Printed) == ActionView::Done
                && v3.stage == StageView::Finished
        }),
{
}

/// A ticket is only ever deleted right after it was found.
pub proof fn lemma_remove_only_after_found(v: RemovalView, e: EventView, j: u16)
    requires
        awaits(v, e),
        next_action(v, e) == ActionView::Remove(j),
    ensures
        v.stage == StageView::Fetching(j),
        e is Fetched && e->Fetched_0 is Some,
{
}

/// Every identifier the caller is asked to look up or delete lies in the range.
pub proof fn lemma_actions_in_range(v: RemovalView, e: EventView)
    requires
        removal_wf(v),
        awaits(v, e),
    ensures
        next_action(v, e) matches ActionView::Fetch(j) ==> v.first <= j <= v.last,
        next_action(v, e) matches ActionView::Remove(j) ==> v.first <= j <= v.last,
        removal_wf(RemovalView { stage: next_stage(v, e), ..v }),
{
}

/// The first missing or undeleted ticket ends the removal: nothing is awaited afterwards.
pub proof fn lemma_failure_is_final(v: RemovalView, e: EventView, later: EventView)
    requires
        awaits(v, e),
        next_action(v, e) is Fail,
    ensures
        next_stage(v, e) == StageView::Failed,
        !awaits(RemovalView { stage: next_stage(v, e), ..v }, later),
{
}


/// A missing ticket ends the removal with the error `TicketNotFound`, whichever identifier
/// of the range it is.
pub proof fn lemma_missing_ticket_fails(v: RemovalView)
    requires
        removal_wf(v),
        v.stage is Fetching,
    ensures
        next_stage(v, EventView::Fetched(None)) == StageView::Failed,
        next_action(v, EventView::Fetched(None)) == ActionView::Fail(CommandError::TicketNotFound),
{
}

/// A ticket the database did not delete ends the removal with the error
/// `TicketNotRemoved`, whichever identifier of the range it is.
pub proof fn lemma_undeleted_ticket_fails(v: RemovalView)
    requires
        removal_wf(v),
        v.stage is Removing,
    ensures
        next_stage(v, EventView::Removed(false)) == StageView::Failed,
        next_action(v, EventView::Removed(false)) == ActionView::Fail(
            CommandError::TicketNotRemoved,
        ),
{
}

/// A removal completes only once the last ticket of the range was printed: `Done` and the
/// `Finished` stage follow nothing but the print of the last identifier.
pub proof fn lemma_done_only_after_last(v: RemovalView, e: EventView)
    requires
        removal_wf(v),
        awaits(v, e),
        next_action(v, e) == ActionView::Done || next_stage(v, e) == StageView::Finished,
    ensures
        v.stage == StageView::Printing(v.last),
        e == EventView::Printed,
        next_action(v, e) == ActionView::Done,
        next_stage(v, e) == StageView::Finished,
{
}

/// How a removed ticket is printed depends only on the size of the range: on one line when
/// several tickets are removed, the last one included, and framed when the range is a
/// single ticket.
pub proof fn lemma_removed_text(v: RemovalView, w: RemovalView, t: TicketView)
    ensures
        v.first < v.last ==> removed_text(v, t) == ticket_line(t),
        v.first >= v.last ==> removed_text(v, t) == ticket_block(t),
        v.first == w.first && v.last == w.last ==> removed_text(v, t) == removed_text(w, t),
{
}

} // verus!
