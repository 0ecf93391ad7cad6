//! Companies and tickets, and their text renderings.

use vstd::prelude::*;

use crate::text::{
    all_digits, decimal, decimal_string, dotted, is_digit, lemma_decimal_parses_back,
    lemma_decimal_shows_number, lemma_dotted_parses_back, lemma_dotted_shows_amount, lemma_pad_left,
    no_line_feed, pad_left, push_char, push_decimal, push_padded, separate_with_dots, shows_amount,
    shows_number, spaces,
};

verus! {

/// What a company is: its identifier and its name.
pub struct CompanyView {
    pub id: u8,
    pub name: Seq<char>,
}

/// What a ticket is: its identifier, the company it belongs to and its amount.
pub struct TicketView {
    pub id: u16,
    pub company: CompanyView,
    pub amount: u16,
}

/// A company that tickets are issued to.
#[derive(Debug, Clone)]
pub struct Company {
    id: u8,
    name: String,
}

impl View for Company {
    type V = CompanyView;

    closed spec fn view(&self) -> CompanyView {
        CompanyView { id: self.id, name: self.name@ }
    }
}

impl Company {
    pub fn new(id: u8, name: String) -> (c: Self)
        ensures
            c@ == (CompanyView { id, name: name@ }),
    {
        Company { id, name }
    }

    pub fn get_name(&self) -> (name: &str)
        ensures
            name@ == self@.name,
    {
        self.name.as_str()
    }

    pub fn get_id(&self) -> (id: u8)
        ensures
            id == self@.id,
    {
        self.id
    }

    /// A copy of the company.
    pub fn duplicate(&self) -> (c: Company)
        ensures
            c@ == self@,
    {
        Company { id: self.id, name: self.name.clone() }
    }

    /// The company as it is displayed: its name.
    pub fn to_string(&self) -> (s: String)
        ensures
            s@ == self@.name,
    {
        self.name.clone()
    }
}

/// `[id] company $amount`, the identifier right-aligned in three columns and the
/// amount with a period every three digits.
pub open spec fn ticket_line(t: TicketView) -> Seq<char> {
    seq!['['] + pad_left(decimal(t.id as nat), 3) + "] "@ + t.company.name + " $"@ + dotted(
        t.amount as int,
    )
}

/// The framed, multi-line rendering of a ticket.
pub open spec fn ticket_block(t: TicketView) -> Seq<char> {
    "===== TICKET =====\nID      : "@ + decimal(t.id as nat) + "\nAmount  : $"@ + dotted(
        t.amount as int,
    ) + "\nCompany : "@ + t.company.name
}

/// Lines joined by line feeds.
pub open spec fn join_lines(lines: Seq<Seq<char>>) -> Seq<char>
    decreases lines.len(),
{
    if lines.len() == 0 {
        Seq::empty()
    } else if lines.len() == 1 {
        lines[0]
    } else {
        join_lines(lines.drop_last()) + seq!['\n'] + lines.last()
    }
}

/// The lines of the framed rendering of a ticket.
pub open spec fn ticket_block_lines(t: TicketView) -> Seq<Seq<char>> {
    seq![
        "===== TICKET ====="@,
        "ID      : "@ + decimal(t.id as nat),
        "Amount  : $"@ + dotted(t.amount as int),
        "Company : "@ + t.company.name,
    ]
}

/// The two renderings of a ticket show the same amount text and the company's name
/// verbatim: the one-line rendering ends with ` $` and the dotted amount, and the framed
/// rendering is four lines, the third `Amount  : $` and that same amount, the fourth
/// `Company : ` and the name. Only the name can bring a line feed into either: the
/// one-line rendering is a single line, and the framed lines hold no line feed of their
/// own, whenever the name holds none.
pub proof fn lemma_renderings_agree(t: TicketView)
    ensures
        ({
            let d = dotted(t.amount as int);
            let line = ticket_line(t);
            let head = seq!['['] + pad_left(decimal(t.id as nat), 3) + "] "@;
            &&& line.subrange(line.len() - (d.len() + 2), line.len() as int) == " $"@ + d
            &&& line.subrange(head.len() as int, (head.len() + t.company.name.len()) as int)
                == t.company.name
            &&& ticket_block(t) == join_lines(ticket_block_lines(t))
            &&& ticket_block_lines(t)[2] == "Amount  : $"@ + d
            &&& ticket_block_lines(t)[3] == "Company : "@ + t.company.name
            &&& no_line_feed(ticket_block_lines(t)[0])
            &&& no_line_feed(ticket_block_lines(t)[1])
            &&& no_line_feed(ticket_block_lines(t)[2])
            &&& no_line_feed(t.company.name) ==> no_line_feed(ticket_block_lines(t)[3])
                && no_line_feed(line)
        }),
{
    reveal_strlit("] ");
    reveal_strlit(" $");
    reveal_strlit("===== TICKET =====\nID      : ");
    reveal_strlit("===== TICKET =====");
    reveal_strlit("ID      : ");
    reveal_strlit("\nAmount  : $");
    reveal_strlit("Amount  : $");
    reveal_strlit("\nCompany : ");
    reveal_strlit("Company : ");
    let id = decimal(t.id as nat);
    let d = dotted(t.amount as int);
    let name = t.company.name;
    lemma_decimal_parses_back(t.id as nat);
    lemma_dotted_parses_back(t.amount as int);
    assert(no_line_feed(id)) by {
        assert forall|i: int| 0 <= i < id.len() implies id[i] != '\n' by {
            assert(is_digit(id[i]));
        }
    }
    let padded = pad_left(id, 3);
    assert(no_line_feed(padded)) by {
        assert forall|i: int| 0 <= i < padded.len() implies padded[i] != '\n' by {
            if id.len() < 3 {
                if i >= 3 - id.len() {
                    assert(padded[i] == id[i - (3 - id.len())]);
                }
            }
        }
    }
    let ls = ticket_block_lines(t);
    let l1 = seq![ls[0]];
    let l2 = ls.drop_last().drop_last();
    let l3 = ls.drop_last();
    assert(join_lines(l1) == ls[0]);
    assert(l2.drop_last() =~= l1);
    assert(l2.last() == ls[1]);
    assert(join_lines(l2) == ls[0] + seq!['\n'] + ls[1]);
    assert(l3.drop_last() =~= l2);
    assert(l3.last() == ls[2]);
    assert(join_lines(ls.drop_last()) == ls[0] + seq!['\n'] + ls[1] + seq!['\n'] + ls[2]);
    assert(ticket_block(t) =~= join_lines(ls));
    let line = ticket_line(t);
    let head = seq!['['] + padded + "] "@;
    assert(line =~= head + name + " $"@ + d);
    assert(line.subrange(line.len() - (d.len() + 2), line.len() as int) =~= " $"@ + d);
    assert(line.subrange(head.len() as int, (head.len() + name.len()) as int) =~= name);
    assert(no_line_feed(ls[0]));
    assert(no_line_feed(ls[1]));
    assert(no_line_feed(ls[2]));
    if no_line_feed(name) {
        assert(no_line_feed(ls[3]));
        assert forall|i: int| 0 <= i < line.len() implies line[i] != '\n' by {
            if i == 0 {
            } else if i < 1 + padded.len() {
                assert(line[i] == padded[i - 1]);
            } else if i < head.len() {
            } else if i < head.len() + name.len() {
                assert(line[i] == name[i - head.len()]);
            } else if i < head.len() + name.len() + 2 {
            } else {
                assert(line[i] == d[i - head.len() - name.len() - 2]);
            }
        }
    }
}

/// What the renderings of a ticket show, in terms of the ticket alone: the framed rendering
/// is the four lines `===== TICKET =====`, `ID      : ` and the identifier in decimal,
/// `Amount  : $` and the amount with thousands separators, `Company : ` and the name; the
/// one-line rendering is `[`, the identifier right-aligned in three columns, `] `, the name,
/// ` $` and the same amount text.
pub proof fn lemma_ticket_renderings_show(t: TicketView)
    ensures
        exists|d: Seq<char>, a: Seq<char>|
            #![trigger shows_number(d, t.id as int), shows_amount(a, t.amount as int)]
            {
                &&& shows_number(d, t.id as int)
                &&& shows_amount(a, t.amount as int)
                &&& ticket_block(t) == "===== TICKET ====="@ + seq!['\n'] + "ID      : "@ + d
                    + seq!['\n'] + "Amount  : $"@ + a + seq!['\n'] + "Company : "@
                    + t.company.name
                &&& ticket_line(t) == seq!['['] + spaces(3 - d.len()) + d + "] "@
                    + t.company.name + " $"@ + a
            },
{
    reveal_strlit("===== TICKET =====\nID      : ");
    reveal_strlit("===== TICKET =====");
    reveal_strlit("ID      : ");
    reveal_strlit("\nAmount  : $");
    reveal_strlit("Amount  : $");
    reveal_strlit("\nCompany : ");
    reveal_strlit("Company : ");
    let d = decimal(t.id as nat);
    let a = dotted(t.amount as int);
    lemma_decimal_shows_number(t.id as nat);
    lemma_dotted_shows_amount(t.amount as int);
    lemma_pad_left(d, 3);
    assert(ticket_block(t) =~= "===== TICKET ====="@ + seq!['\n'] + "ID      : "@ + d + seq!['\n']
        + "Amount  : $"@ + a + seq!['\n'] + "Company : "@ + t.company.name);
    assert(ticket_line(t) =~= seq!['['] + spaces(3 - d.len()) + d + "] "@ + t.company.name
        + " $"@ + a);
    assert(shows_number(d, t.id as int) && shows_amount(a, t.amount as int));
}

/// A ticket: an amount issued to a company.
#[derive(Debug)]
pub struct Ticket {
    id: u16,
    company: Company,
    amount: u16,
}

impl View for Ticket {
    type V = TicketView;

    closed spec fn view(&self) -> TicketView {
        TicketView { id: self.id, company: self.company@, amount: self.amount }
    }
}

impl Ticket {
    pub fn new(id: u16, company: Company, amount: u16) -> (t: Self)
        ensures
            t@ == (TicketView { id, company: company@, amount }),
    {
        Ticket { id, company, amount }
    }

    pub fn get_id(&self) -> (id: u16)
        ensures
            id == self@.id,
    {
        self.id
    }

    pub fn get_amount(&self) -> (amount: u16)
        ensures
            amount == self@.amount,
    {
        self.amount
    }

    pub fn get_company(&self) -> (company: &Company)
        ensures
            company@ == self@.company,
    {
        &self.company
    }

    /// The one-line rendering used when several tickets are listed.
    pub fn fmt_line(&self) -> (s: String)
        ensures
            s@ == ticket_line(self@),
    {
        let mut s = String::new();
        push_char(&mut s, '[');
        let id = decimal_string(self.id as u64);
        push_padded(&mut s, id.as_str(), 3);
        s.append("] ");
        s.append(self.company.name.as_str());
        s.append(" $");
        let amount = separate_with_dots(self.amount as i64);
        s.append(amount.as_str());
        assert(s@ =~= ticket_line(self@));
        s
    }

    /// The framed rendering used when a single ticket is shown.
    pub fn fmt_block(&self) -> (s: String)
        ensures
            s@ == ticket_block(self@),
    {
        let mut s = String::new();
        s.append("===== TICKET =====\nID      : ");
        push_decimal(&mut s, self.id as u64);
        s.append("\nAmount  : $");
        let amount = separate_with_dots(self.amount as i64);
        s.append(amount.as_str());
        s.append("\nCompany : ");
        s.append(self.company.name.as_str());
        assert(s@ =~= ticket_block(self@));
        s
    }
}

} // verus!
