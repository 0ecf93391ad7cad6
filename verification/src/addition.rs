//! Adding one ticket, or several identical ones: the decisions taken between the
//! insertions that the caller performs.

use vstd::prelude::*;

use crate::model::{ticket_block, ticket_line, Company, CompanyView, Ticket, TicketView};

verus! {

/// What the caller reports back after doing what was asked.
pub enum AdditionEvent {
    /// The database stored a ticket under this identifier.
    Inserted(u16),
    /// The rendering was printed.
    Printed,
}

/// What the caller must do next.
pub enum AdditionAction {
    /// Store a ticket of this amount for the company with this identifier, and report the
    /// identifier it gets.
    Insert { amount: u16, company_id: u8 },
    /// Print this line.
    Print(String),
    /// Stop: every ticket was added.
    Done,
}

/// An action, as a value.
pub enum AdditionActionView {
    Insert { amount: u16, company_id: u8 },
    Print(Seq<char>),
    Done,
}

impl View for AdditionAction {
    type V = AdditionActionView;

    open spec fn view(&self) -> AdditionActionView {
        match self {
            AdditionAction::Insert { amount, company_id } => AdditionActionView::Insert {
                amount: *amount,
                company_id: *company_id,
            },
            AdditionAction::Print(s) => AdditionActionView::Print(s@),
            AdditionAction::Done => AdditionActionView::Done,
        }
    }
}

/// The addition of `times` tickets of one amount to one company.
pub struct Addition {
    company: Company,
    amount: u16,
    times: usize,
    added: usize,
    printing: bool,
}

/// An addition, as a value: how many tickets are to be added, how many were, and whether
/// the last one still has to be printed.
pub struct AdditionView {
    pub company: CompanyView,
    pub amount: u16,
    pub times: nat,
    pub added: nat,
    pub printing: bool,
}

impl View for Addition {
    type V = AdditionView;

    closed spec fn view(&self) -> AdditionView {
        AdditionView {
            company: self.company@,
            amount: self.amount,
            times: self.times as nat,
            added: self.added as nat,
            printing: self.printing,
        }
    }
}

/// How an added ticket is printed: on one line when several are added, framed when alone.
pub open spec fn added_text(v: AdditionView, t: TicketView) -> Seq<char> {
    if v.times > 1 {
        ticket_line(t)
    } else {
        ticket_block(t)
    }
}

/// Never more tickets are added than asked for, and one is being printed only after it
/// was added.
pub open spec fn addition_wf(v: AdditionView) -> bool {
    &&& v.added <= v.times
    &&& v.printing ==> v.added >= 1
}

/// The action that an addition asks for while it waits for no event.
pub open spec fn pending_action(v: AdditionView) -> AdditionActionView {
    if v.added < v.times {
        AdditionActionView::Insert { amount: v.amount, company_id: v.company.id }
    } else {
        AdditionActionView::Done
    }
}

/// Whether the addition awaits this event.
pub open spec fn addition_awaits(v: AdditionView, e: AdditionEvent) -> bool {
    match e {
        AdditionEvent::Inserted(_) => !v.printing && v.added < v.times,
        AdditionEvent::Printed => v.printing,
    }
}

impl Addition {
    /// Prepares the addition of `times` tickets of `amount` to `company`.
    pub fn start(company: Company, amount: u16, times: usize) -> (a: Addition)
        ensures
            a@ == (AdditionView {
                company: company@,
                amount,
                times: times as nat,
                added: 0,
                printing: false,
            }),
            addition_wf(a@),
    {
        Addition { company, amount, times, added: 0, printing: false }
    }

    /// The line printed before the added tickets.
    pub fn heading(&self) -> (s: String)
        ensures
            s@ == if self@.times > 1 {
                "Added tickets:"@
            } else {
                "Added ticket:"@
            },
    {
        if self.times > 1 {
            String::from_str("Added tickets:")
        } else {
            String::from_str("Added ticket:")
        }
    }

    /// The first action: store a ticket, unless none is to be added.
    pub fn first_action(&self) -> (a: AdditionAction)
        requires
            addition_wf(self@),
            !self@.printing,
        ensures
            a@ == pending_action(self@),
    {
        if self.added < self.times {
            AdditionAction::Insert { amount: self.amount, company_id: self.company.get_id() }
        } else {
            AdditionAction::Done
        }
    }

    /// Whether the addition awaits this event.
    pub fn awaits(&self, event: &AdditionEvent) -> (b: bool)
        ensures
            b == addition_awaits(self@, *event),
    {
        match event {
            AdditionEvent::Inserted(_) => !self.printing && self.added < self.times,
            AdditionEvent::Printed => self.printing,
        }
    }

    /// Takes in what the caller did and says what to do next: a stored ticket is printed,
    /// and after the print the next one is stored, until `times` tickets were added.
    pub fn step(&mut self, event: AdditionEvent) -> (a: AdditionAction)
        requires
            addition_wf(old(self)@),
            addition_awaits(old(self)@, event),
        ensures
            addition_wf(final(self)@),
            final(self)@.company == old(self)@.company,
            final(self)@.amount == old(self)@.amount,
            final(self)@.times == old(self)@.times,
            match event {
                AdditionEvent::Inserted(id) => {
                    &&& final(self)@.added == old(self)@.added + 1
                    &&& final(self)@.printing
                    &&& a@ == AdditionActionView::Print(
                        added_text(
                            old(self)@,
                            TicketView { id, company: old(self)@.company, amount: old(self)@.amount },
                        ),
                    )
                },
                AdditionEvent::Printed => {
                    &&& final(self)@.added == old(self)@.added
                    &&& !final(self)@.printing
                    &&& a@ == pending_action(final(self)@)
                },
            },
    {
        match event {
            AdditionEvent::Inserted(id) => {
                let ticket = Ticket::new(id, self.company.duplicate(), self.amount);
                self.added = self.added + 1;
                self.printing = true;
                let text = if self.times > 1 {
                    ticket.fmt_line()
                } else {
                    ticket.fmt_block()
                };
                AdditionAction::Print(text)
            },
            AdditionEvent::Printed => {
                self.printing = false;
                if self.added < self.times {
                    AdditionAction::Insert {
                        amount: self.amount,
                        company_id: self.company.get_id(),
                    }
                } else {
                    AdditionAction::Done
                }
            },
        }
    }
}

/// An addition ends exactly when `times` tickets were added: while fewer were, the caller
/// is asked to store another one of the same amount for the same company.
pub proof fn lemma_adds_exactly_times(v: AdditionView)
    requires
        addition_wf(v),
        !v.printing,
    ensures
        pending_action(v) == AdditionActionView::Done <==> v.added == v.times,
        v.added < v.times ==> pending_action(v) == (AdditionActionView::Insert {
            amount: v.amount,
            company_id: v.company.id,
        }),
{
}


/// How an added ticket is printed depends only on the number of tickets asked for: on one
/// line when more than one is added, every one of them, the last included; framed when a
/// single ticket is added.
pub proof fn lemma_added_text(v: AdditionView, w: AdditionView, t: TicketView)
    ensures
        v.times > 1 ==> added_text(v, t) == ticket_line(t),
        v.times <= 1 ==> added_text(v, t) == ticket_block(t),
        v.times == w.times ==> added_text(v, t) == added_text(w, t),
{
}

} // verus!
