//! What the subcommands print and refuse, given what the database answered.

use vstd::prelude::*;

use crate::error::CommandError;
use crate::model::{ticket_block, Company, CompanyView, Ticket};
use crate::text::{
    decimal, decimal_string, dotted, lemma_decimal_shows_number, lemma_dotted_shows_amount,
    lemma_pad_left, pad_left, push_char, push_decimal, push_padded, separate_with_dots, shows_amount,
    shows_number, spaces,
};

verus! {

/// The company new tickets go to; an unregistered company is refused.
pub fn company_for_tickets(found: Option<Company>) -> (r: Result<Company, CommandError>)
    ensures
        found is None <==> r is Err,
        r matches Err(e) ==> e is CompanyNotInDatabase,
        r matches Ok(c) ==> found matches Some(f) && c@ == f@,
{
    match found {
        Some(c) => Ok(c),
        None => Err(CommandError::CompanyNotInDatabase),
    }
}

/// What `show` prints: the framed ticket; a missing ticket is refused.
pub fn shown_ticket(found: Option<Ticket>) -> (r: Result<String, CommandError>)
    ensures
        found is None <==> r is Err,
        r matches Err(e) ==> e is NoTicketWithId,
        r matches Ok(s) ==> found matches Some(t) && s@ == ticket_block(t@),
{
    match found {
        Some(t) => Ok(t.fmt_block()),
        None => Err(CommandError::NoTicketWithId),
    }
}

/// The confirmation of a registered company.
pub open spec fn company_added_text(c: CompanyView) -> Seq<char> {
    "Added company \""@ + c.name + "\" with ID #"@ + decimal(c.id as nat) + "."@
}

/// The confirmation printed once a company is registered.
pub fn company_added_message(company: &Company) -> (s: String)
    ensures
        s@ == company_added_text(company@),
{
    let mut s = String::from_str("Added company \"");
    s.append(company.get_name());
    s.append("\" with ID #");
    push_decimal(&mut s, company.get_id() as u64);
    s.append(".");
    assert(s@ =~= company_added_text(company@));
    s
}

/// The company to remove; a missing company is refused.
pub fn company_to_remove(found: Option<Company>) -> (r: Result<Company, CommandError>)
    ensures
        found is None <==> r is Err,
        r matches Err(e) ==> e is NoCompanyWithId,
        r matches Ok(c) ==> found matches Some(f) && c@ == f@,
{
    match found {
        Some(c) => Ok(c),
        None => Err(CommandError::NoCompanyWithId),
    }
}

/// The confirmation of a removed company.
pub open spec fn company_removed_text(c: CompanyView) -> Seq<char> {
    "Removed company \""@ + c.name + "\"."@
}

/// What is printed after asking the database to delete a company: a confirmation, or the
/// refusal when nothing was deleted.
pub fn company_removed_message(company: &Company, removed: bool) -> (r: Result<
    String,
    CommandError,
>)
    ensures
        removed <==> r is Ok,
        r matches Err(e) ==> e is CompanyNotRemoved,
        r matches Ok(s) ==> s@ == company_removed_text(company@),
{
    if removed {
        let mut s = String::from_str("Removed company \"");
        s.append(company.get_name());
        s.append("\".");
        assert(s@ =~= company_removed_text(company@));
        Ok(s)
    } else {
        Err(CommandError::CompanyNotRemoved)
    }
}

/// The line of one company in the listing: `[id] name`, the identifier right-aligned in
/// two columns.
pub open spec fn company_entry(c: CompanyView) -> Seq<char> {
    seq!['['] + pad_left(decimal(c.id as nat), 2) + "] "@ + c.name
}

/// The lines of the company listing: a title, then one line per company in order; an
/// empty listing is refused.
pub fn companies_listing(companies: &Vec<Company>) -> (r: Result<Vec<String>, CommandError>)
    ensures
        companies@.len() == 0 <==> r is Err,
        r matches Err(e) ==> e is NoCompanies,
        r matches Ok(lines) ==> {
            &&& lines@.len() == companies@.len() + 1
            &&& lines@[0]@ == "===== COMPANIES ====="@
            &&& forall|k: int|
                0 <= k < companies@.len() ==> #[trigger] lines@[k + 1]@ == company_entry(
                    companies@[k]@,
                )
        },
{
    if companies.len() == 0 {
        return Err(CommandError::NoCompanies);
    }
    let mut lines: Vec<String> = Vec::new();
    lines.push(String::from_str("===== COMPANIES ====="));
    let mut i: usize = 0;
    while i < companies.len()
        invariant
            i <= companies@.len(),
            lines@.len() == i + 1,
            lines@[0]@ == "===== COMPANIES ====="@,
            forall|k: int|
                0 <= k < i ==> #[trigger] lines@[k + 1]@ == company_entry(companies@[k]@),
        decreases companies.len() - i,
    {
        let c = &companies[i];
        let mut line = String::new();
        push_char(&mut line, '[');
        let id = decimal_string(c.get_id() as u64);
        push_padded(&mut line, id.as_str(), 2);
        line.append("] ");
        line.append(c.get_name());
        assert(line@ =~= company_entry(c@));
        lines.push(line);
        i = i + 1;
    }
    Ok(lines)
}

/// How far the total is from the goal; negative once the goal is exceeded.
pub fn goal_difference(goal: u32, total: u32) -> (d: i64)
    ensures
        d == goal - total,
        d + total == goal,
{
    goal as i64 - total as i64
}

/// The figures of the goal section of the summary.
pub struct GoalFigures {
    /// The goal, with thousands separators.
    pub goal: String,
    /// What remains to reach the goal, with thousands separators, right-aligned in seven
    /// columns.
    pub difference: String,
}

/// The figures of the summary.
pub struct SummaryFigures {
    /// The number of tickets, with thousands separators.
    pub count: String,
    /// The sum of their amounts, with thousands separators.
    pub total: String,
    /// The goal section, present when a goal is set.
    pub goal: Option<GoalFigures>,
}

/// The figures of the summary: the ticket count and the total, and when a goal is set
/// (non-zero) the goal and the difference to it. A database without tickets is refused.
pub fn summary_figures(count: u16, total: u32, goal: u32) -> (r: Result<
    SummaryFigures,
    CommandError,
>)
    ensures
        count == 0 <==> r is Err,
        r matches Err(e) ==> e is EmptyDatabase,
        r matches Ok(f) ==> {
            &&& f.count@ == dotted(count as int)
            &&& f.total@ == dotted(total as int)
            &&& (goal == 0 <==> f.goal is None)
            &&& f.goal matches Some(g) ==> g.goal@ == dotted(goal as int) && g.difference@
                == pad_left(dotted(goal - total), 7)
            &&& shows_amount(f.count@, count as int)
            &&& shows_amount(f.total@, total as int)
            &&& f.goal matches Some(g) ==> shows_amount(g.goal@, goal as int)
            &&& f.goal matches Some(g) ==> exists|a: Seq<char>|
                #![trigger shows_amount(a, goal - total)]
                shows_amount(a, goal - total) && g.difference@ == spaces(7 - a.len()) + a
        },
{
    proof {
        lemma_dotted_shows_amount(count as int);
        lemma_dotted_shows_amount(total as int);
        lemma_dotted_shows_amount(goal as int);
        lemma_dotted_shows_amount(goal - total);
        lemma_pad_left(dotted(goal - total), 7);
    }
    if count == 0 {
        return Err(CommandError::EmptyDatabase);
    }
    let count_text = separate_with_dots(count as i64);
    let total_text = separate_with_dots(total as i64);
    let goal_figures = if goal != 0 {
        let difference = separate_with_dots(goal_difference(goal, total));
        let mut padded = String::new();
        push_padded(&mut padded, difference.as_str(), 7);
        assert(padded@ =~= pad_left(dotted(goal - total), 7));
        Some(GoalFigures { goal: separate_with_dots(goal as i64), difference: padded })
    } else {
        None
    };
    Ok(SummaryFigures { count: count_text, total: total_text, goal: goal_figures })
}


/// What the company outputs show, in terms of the company alone: the confirmation of a
/// registration quotes the name and gives the identifier in decimal, the confirmation of a
/// removal quotes the name, and the listing line is `[`, the identifier right-aligned in two
/// columns, `] ` and the name.
pub proof fn lemma_company_texts(c: CompanyView)
    ensures
        exists|d: Seq<char>|
            #![trigger shows_number(d, c.id as int)]
            {
                &&& shows_number(d, c.id as int)
                &&& company_added_text(c) == "Added company \""@ + c.name + "\" with ID #"@ + d
                    + "."@
                &&& company_entry(c) == seq!['['] + spaces(2 - d.len()) + d + "] "@ + c.name
            },
        company_removed_text(c) == "Removed company \""@ + c.name + "\"."@,
{
    let d = decimal(c.id as nat);
    lemma_decimal_shows_number(c.id as nat);
    lemma_pad_left(d, 2);
    assert(company_entry(c) =~= seq!['['] + spaces(2 - d.len()) + d + "] "@ + c.name);
    assert(shows_number(d, c.id as int));
}

} // verus!
