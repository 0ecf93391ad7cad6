//! The summary tables: totals per company and ticket counts per amount and company,
//! laid out by the `tabular` crate.

use vstd::prelude::*;

use crate::text::{
    dotted, lemma_dotted_shows_amount, lemma_signed_decimal_shows_number, push_signed_decimal,
    separate_with_dots, shows_amount, shows_signed_number, signed_decimal,
};

verus! {

/// A table of `tabular`.
#[verifier::external_type_specification]
#[verifier::external_body]
pub struct ExTable(tabular::Table);

/// A row of `tabular`.
#[verifier::external_type_specification]
#[verifier::external_body]
pub struct ExRow(tabular::Row);

/// The row format that a table was made with.
pub uninterp spec fn table_format(t: tabular::Table) -> Seq<char>;

/// The rows that a table holds, each row as its cells' text, in the order they were added.
pub uninterp spec fn table_rows(t: tabular::Table) -> Seq<Seq<Seq<char>>>;

/// The cells that a row holds, in order.
pub uninterp spec fn row_cells(r: tabular::Row) -> Seq<Seq<char>>;

/// The text of a table with the given row format and rows (its `Display`): each row on a
/// line of its own, every column padded to its widest cell and aligned as the format says,
/// the literal text of the format between the columns.
pub uninterp spec fn table_text(format: Seq<char>, rows: Seq<Seq<Seq<char>>>) -> Seq<char>;

/// Row format of the totals per company: name left, amount right, count centered.
pub open spec fn company_format() -> Seq<char> {
    "{:<}  {:>}  {:^}"@
}

/// Row format of the ticket counts: amount right, company left, count centered.
pub open spec fn detail_format() -> Seq<char> {
    "{:>}  {:<}  {:^}"@
}

/// The row formats this library lays tables out with; each has three columns.
pub open spec fn is_table_format(format: Seq<char>) -> bool {
    format == company_format() || format == detail_format()
}

/// `tabular::Table::new`: an empty table with the given format. `Table::new` panics on a
/// format it cannot parse; it is only called here with the library's own formats.
#[verifier::external_body]
fn table_new(format: &str) -> (t: tabular::Table)
    requires
        is_table_format(format@),
    ensures
        table_format(t) == format@,
        table_rows(t) == Seq::<Seq<Seq<char>>>::empty(),
{
    tabular::Table::new(format)
}

/// `tabular::Table::add_row`: appends a row. It panics unless the row has as many cells as
/// the format has columns, three for the formats used here.
#[verifier::external_body]
fn table_add_row(t: &mut tabular::Table, r: tabular::Row)
    requires
        is_table_format(table_format(*old(t))),
        row_cells(r).len() == 3,
    ensures
        table_format(*final(t)) == table_format(*old(t)),
        table_rows(*final(t)) == table_rows(*old(t)).push(row_cells(r)),
{
    t.add_row(r);
}

/// The table's text (`Table`'s `Display`, through `to_string`).
#[verifier::external_body]
fn table_to_string(t: &tabular::Table) -> (s: String)
    ensures
        s@ == table_text(table_format(*t), table_rows(*t)),
{
    t.to_string()
}

/// `tabular::Row::new`: a row without cells.
#[verifier::external_body]
fn row_new() -> (r: tabular::Row)
    ensures
        row_cells(r) == Seq::<Seq<char>>::empty(),
{
    tabular::Row::new()
}

/// `tabular::Row::with_cell`: the row with one more cell, holding the text given.
#[verifier::external_body]
fn row_with_cell(r: tabular::Row, cell: &str) -> (res: tabular::Row)
    ensures
        row_cells(res) == row_cells(r).push(cell@),
{
    r.with_cell(cell)
}

/// A row of three cells.
fn row3(a: &str, b: &str, c: &str) -> (r: tabular::Row)
    ensures
        row_cells(r) == seq![a@, b@, c@],
{
    let r = row_new();
    let r = row_with_cell(r, a);
    let r = row_with_cell(r, b);
    let r = row_with_cell(r, c);
    assert(row_cells(r) =~= seq![a@, b@, c@]);
    r
}

/// The sum of the amounts and the number of tickets of one company.
pub struct CompanyTotal {
    pub name: String,
    pub amount: i64,
    pub count: i64,
}

/// How many tickets of one amount a company has.
pub struct AmountCount {
    pub amount: i64,
    pub name: String,
    pub count: i64,
}

/// Header row of the totals per company.
pub open spec fn company_header() -> Seq<Seq<char>> {
    seq!["COMPANY"@, "AMOUNT"@, "COUNT"@]
}

/// Header row of the ticket counts.
pub open spec fn detail_header() -> Seq<Seq<char>> {
    seq!["AMOUNT"@, "COMPANY"@, "COUNT"@]
}

/// The cells of a company's totals: name, amount with thousands separators, count.
pub open spec fn company_total_cells(r: CompanyTotal) -> Seq<Seq<char>> {
    seq![r.name@, dotted(r.amount as int), signed_decimal(r.count as int)]
}

/// The cells of a ticket count: amount with thousands separators, company, count.
pub open spec fn amount_count_cells(r: AmountCount) -> Seq<Seq<char>> {
    seq![dotted(r.amount as int), r.name@, signed_decimal(r.count as int)]
}

/// What a row of the totals per company shows: the company's name, its total written with
/// thousands separators, and its number of tickets in decimal.
pub proof fn lemma_company_total_cells(r: CompanyTotal)
    ensures
        company_total_cells(r).len() == 3,
        company_total_cells(r)[0] == r.name@,
        shows_amount(company_total_cells(r)[1], r.amount as int),
        shows_signed_number(company_total_cells(r)[2], r.count as int),
{
    lemma_dotted_shows_amount(r.amount as int);
    lemma_signed_decimal_shows_number(r.count as int);
}

/// What a row of the ticket counts shows: the amount written with thousands separators,
/// the company's name, and the number of tickets of that amount in decimal.
pub proof fn lemma_amount_count_cells(r: AmountCount)
    ensures
        amount_count_cells(r).len() == 3,
        shows_amount(amount_count_cells(r)[0], r.amount as int),
        amount_count_cells(r)[1] == r.name@,
        shows_signed_number(amount_count_cells(r)[2], r.count as int),
{
    lemma_dotted_shows_amount(r.amount as int);
    lemma_signed_decimal_shows_number(r.count as int);
}

/// The table of totals per company: a header, then one row per company in the order given.
pub fn pivot_companies(rows: &Vec<CompanyTotal>) -> (s: String)
    ensures
        s@ == table_text(
            company_format(),
            seq![company_header()] + rows@.map_values(|r: CompanyTotal| company_total_cells(r)),
        ),
{
    let mut t = table_new("{:<}  {:>}  {:^}");
    table_add_row(&mut t, row3("COMPANY", "AMOUNT", "COUNT"));
    let ghost cells = rows@.map_values(|r: CompanyTotal| company_total_cells(r));
    let mut i: usize = 0;
    while i < rows.len()
        invariant
            i <= rows.len(),
            cells == rows@.map_values(|r: CompanyTotal| company_total_cells(r)),
            table_format(t) == company_format(),
            table_rows(t) == seq![company_header()] + cells.take(i as int),
        decreases rows.len() - i,
    {
        let r = &rows[i];
        let amount = separate_with_dots(r.amount);
        let mut count = String::new();
        push_signed_decimal(&mut count, r.count);
        table_add_row(&mut t, row3(r.name.as_str(), amount.as_str(), count.as_str()));
        assert(seq![company_header()] + cells.take(i + 1) =~= (seq![company_header()]
            + cells.take(i as int)).push(cells[i as int]));
        i = i + 1;
    }
    assert(cells.take(rows.len() as int) =~= cells);
    table_to_string(&t)
}

/// The table of ticket counts: a header, then one row per amount and company in the order
/// given.
pub fn detail_tickets(rows: &Vec<AmountCount>) -> (s: String)
    ensures
        s@ == table_text(
            detail_format(),
            seq![detail_header()] + rows@.map_values(|r: AmountCount| amount_count_cells(r)),
        ),
{
    let mut t = table_new("{:>}  {:<}  {:^}");
    table_add_row(&mut t, row3("AMOUNT", "COMPANY", "COUNT"));
    let ghost cells = rows@.map_values(|r: AmountCount| amount_count_cells(r));
    let mut i: usize = 0;
    while i < rows.len()
        invariant
            i <= rows.len(),
            cells == rows@.map_values(|r: AmountCount| amount_count_cells(r)),
            table_format(t) == detail_format(),
            table_rows(t) == seq![detail_header()] + cells.take(i as int),
        decreases rows.len() - i,
    {
        let r = &rows[i];
        let amount = separate_with_dots(r.amount);
        let mut count = String::new();
        push_signed_decimal(&mut count, r.count);
        table_add_row(&mut t, row3(amount.as_str(), r.name.as_str(), count.as_str()));
        assert(seq![detail_header()] + cells.take(i + 1) =~= (seq![detail_header()]
            + cells.take(i as int)).push(cells[i as int]));
        i = i + 1;
    }
    assert(cells.take(rows.len() as int) =~= cells);
    table_to_string(&t)
}

} // verus!
