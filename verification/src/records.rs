//! The values the database hands back, turned into companies and tickets.

use vstd::prelude::*;

use crate::model::{Company, CompanyView, Ticket, TicketView};

verus! {

/// A ticket as the database stores it: joined with its company.
pub struct TicketRow {
    pub id: u16,
    pub amount: u16,
    pub company_id: u8,
    pub company_name: String,
}

/// A company as the database stores it.
pub struct CompanyRow {
    pub id: u8,
    pub name: String,
}

/// The ticket a stored row describes.
pub open spec fn ticket_of_row(r: TicketRow) -> TicketView {
    TicketView {
        id: r.id,
        company: CompanyView { id: r.company_id, name: r.company_name@ },
        amount: r.amount,
    }
}

/// The company a stored row describes.
pub open spec fn company_of_row(r: CompanyRow) -> CompanyView {
    CompanyView { id: r.id, name: r.name@ }
}

/// The ticket of a stored row.
pub fn ticket_from_row(row: &TicketRow) -> (t: Ticket)
    ensures
        t@ == ticket_of_row(*row),
{
    let company = Company::new(row.company_id, row.company_name.clone());
    Ticket::new(row.id, company, row.amount)
}

/// The tickets of stored rows, in the same order.
pub fn tickets_from_rows(rows: &Vec<TicketRow>) -> (ts: Vec<Ticket>)
    ensures
        ts@.len() == rows@.len(),
        forall|k: int| 0 <= k < rows@.len() ==> #[trigger] ts@[k]@ == ticket_of_row(rows@[k]),
{
    let mut ts: Vec<Ticket> = Vec::new();
    let mut i: usize = 0;
    while i < rows.len()
        invariant
            i <= rows@.len(),
            ts@.len() == i,
            forall|k: int| 0 <= k < i ==> #[trigger] ts@[k]@ == ticket_of_row(rows@[k]),
        decreases rows.len() - i,
    {
        ts.push(ticket_from_row(&rows[i]));
        i = i + 1;
    }
    ts
}

/// The company of a stored row.
pub fn company_from_row(row: &CompanyRow) -> (c: Company)
    ensures
        c@ == company_of_row(*row),
{
    Company::new(row.id, row.name.clone())
}

/// The companies of stored rows, in the same order.
pub fn companies_from_rows(rows: &Vec<CompanyRow>) -> (cs: Vec<Company>)
    ensures
        cs@.len() == rows@.len(),
        forall|k: int| 0 <= k < rows@.len() ==> #[trigger] cs@[k]@ == company_of_row(rows@[k]),
{
    let mut cs: Vec<Company> = Vec::new();
    let mut i: usize = 0;
    while i < rows.len()
        invariant
            i <= rows@.len(),
            cs@.len() == i,
            forall|k: int| 0 <= k < i ==> #[trigger] cs@[k]@ == company_of_row(rows@[k]),
        decreases rows.len() - i,
    {
        cs.push(company_from_row(&rows[i]));
        i = i + 1;
    }
    cs
}

/// Whether a deletion removed something, from the number of rows it changed.
pub fn removed_any(changed_rows: usize) -> (b: bool)
    ensures
        b == (changed_rows >= 1),
{
    changed_rows >= 1
}


/// A stored row describes the ticket with the row's identifier and amount, issued to the
/// company with the row's company identifier and name; a company row, the company with its
/// identifier and name.
pub proof fn lemma_rows_describe(r: TicketRow, c: CompanyRow)
    ensures
        ticket_of_row(r).id == r.id,
        ticket_of_row(r).amount == r.amount,
        ticket_of_row(r).company.id == r.company_id,
        ticket_of_row(r).company.name == r.company_name@,
        company_of_row(c).id == c.id,
        company_of_row(c).name == c.name@,
{
}

} // verus!
