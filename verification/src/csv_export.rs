//! Export of tickets as CSV text, written through the `csv` crate.

use vstd::prelude::*;

use crate::model::{Ticket, TicketView};
use crate::text::{decimal, decimal_string, lemma_decimal_shows_number, shows_number};

verus! {

/// A `csv::Writer` writing into a `Vec<u8>`, held in a private field: its contents are
/// reached only through `csv_written` and `csv_record_width`.
#[verifier::external_body]
pub struct CsvBuffer {
    writer: csv::Writer<Vec<u8>>,
}

/// The `csv` crate's error.
#[verifier::external_type_specification]
#[verifier::external_body]
pub struct ExCsvError(csv::Error);

/// The bytes that a writer holds: everything written to it so far.
pub uninterp spec fn csv_written(w: CsvBuffer) -> Seq<u8>;

/// The number of fields of the first record written, which every later record must match.
pub uninterp spec fn csv_record_width(w: CsvBuffer) -> Option<nat>;

/// Whether a field must be quoted: it holds a comma, a double quote, a carriage return or
/// a line feed.
pub open spec fn csv_needs_quotes(field: Seq<char>) -> bool {
    field.contains(',') || field.contains('"') || field.contains('\r') || field.contains('\n')
}

/// A field with each double quote doubled.
pub open spec fn csv_double_quotes(field: Seq<char>) -> Seq<char>
    decreases field.len(),
{
    if field.len() == 0 {
        field
    } else if field.last() == '"' {
        csv_double_quotes(field.drop_last()) + seq!['"', '"']
    } else {
        csv_double_quotes(field.drop_last()).push(field.last())
    }
}

/// A field as it is written: enclosed in double quotes, its own ones doubled, when it must
/// be quoted, and as it is otherwise.
pub open spec fn csv_field(field: Seq<char>) -> Seq<char> {
    if csv_needs_quotes(field) {
        seq!['"'] + csv_double_quotes(field) + seq!['"']
    } else {
        field
    }
}

/// The written fields separated by commas.
pub open spec fn csv_join(fields: Seq<Seq<char>>) -> Seq<char>
    decreases fields.len(),
{
    if fields.len() == 0 {
        Seq::empty()
    } else if fields.len() == 1 {
        csv_field(fields[0])
    } else {
        csv_join(fields.drop_last()) + seq![','] + csv_field(fields.last())
    }
}

/// The text of one record in the default dialect: the written fields separated by commas
/// and ended by a line feed; a record that would otherwise be empty (no field, or one empty
/// field) is written as an empty quoted field, `""`.
pub open spec fn csv_line(fields: Seq<Seq<char>>) -> Seq<char> {
    if fields.len() == 0 || (fields.len() == 1 && fields[0].len() == 0) {
        seq!['"', '"', '\n']
    } else {
        csv_join(fields).push('\n')
    }
}

/// The bytes of one record: the UTF-8 encoding of its text.
pub open spec fn csv_record(fields: Seq<Seq<char>>) -> Seq<u8> {
    vstd::utf8::encode_utf8(csv_line(fields))
}

/// A writer with the default settings over an empty `Vec<u8>`
/// (`csv::Writer::from_writer`): it holds no bytes and has seen no record.
#[verifier::external_body]
fn csv_writer() -> (w: CsvBuffer)
    ensures
        csv_written(w) == Seq::<u8>::empty(),
        csv_record_width(w) == None::<nat>,
{
    CsvBuffer { writer: csv::Writer::from_writer(Vec::new()) }
}

/// Writes one record (`csv::Writer::write_record`) with the default settings: comma
/// delimiter, double quote, quotes doubled, quoting where necessary, line feed terminator.
/// The writer only refuses a record whose number of fields differs from the first one (or
/// an I/O error, which a `Vec` never raises), so on the records admitted here it succeeds
/// and appends the record's bytes.
#[verifier::external_body]
fn csv_write_record(w: &mut CsvBuffer, fields: &Vec<String>) -> (r: Result<(), csv::Error>)
    requires
        csv_record_width(*old(w)) is None || csv_record_width(*old(w)) == Some(fields@.len()),
    ensures
        r is Ok,
        csv_written(*final(w)) == csv_written(*old(w)) + csv_record(fields.deep_view()),
        csv_record_width(*final(w)) == Some(fields@.len()),
{
    w.writer.write_record(fields)
}

/// Flushes the writer and hands back its `Vec<u8>` (`csv::Writer::into_inner`); flushing
/// into a `Vec` cannot fail, so the bytes are always there.
#[verifier::external_body]
fn csv_into_bytes(w: CsvBuffer) -> (b: Option<Vec<u8>>)
    ensures
        b is Some,
        b matches Some(v) ==> v@ == csv_written(w),
{
    w.writer.into_inner().ok()
}

/// `String::from_utf8`: the bytes decoded when they are valid UTF-8, nothing otherwise.
#[verifier::external_body]
fn string_from_utf8(bytes: Vec<u8>) -> (s: Option<String>)
    ensures
        s is Some <==> vstd::utf8::valid_utf8(bytes@),
        s matches Some(t) ==> t@ == vstd::utf8::decode_utf8(bytes@),
{
    String::from_utf8(bytes).ok()
}

/// The header record: identifier, amount and company.
pub open spec fn csv_header() -> Seq<Seq<char>> {
    seq!["id"@, "monto"@, "empresa"@]
}

/// The record of one ticket.
pub open spec fn csv_ticket_fields(t: TicketView) -> Seq<Seq<char>> {
    seq![decimal(t.id as nat), decimal(t.amount as nat), t.company.name]
}

/// The CSV text of `tickets`: the header line, then one line per ticket, in order.
pub open spec fn csv_text(tickets: Seq<TicketView>) -> Seq<char>
    decreases tickets.len(),
{
    if tickets.len() == 0 {
        csv_line(csv_header())
    } else {
        csv_text(tickets.drop_last()) + csv_line(csv_ticket_fields(tickets.last()))
    }
}

/// The UTF-8 encoding of two texts one after the other is the encoding of the first
/// followed by the encoding of the second.
proof fn lemma_encode_utf8_concat(a: Seq<char>, b: Seq<char>)
    ensures
        vstd::utf8::encode_utf8(a + b) == vstd::utf8::encode_utf8(a) + vstd::utf8::encode_utf8(
            b,
        ),
    decreases a.len(),
{
    if a.len() == 0 {
        assert(a + b =~= b);
        assert(vstd::utf8::encode_utf8(a) =~= Seq::<u8>::empty());
        assert(Seq::<u8>::empty() + vstd::utf8::encode_utf8(b) =~= vstd::utf8::encode_utf8(b));
    } else {
        lemma_encode_utf8_concat(a.drop_first(), b);
        assert((a + b).drop_first() =~= a.drop_first() + b);
        assert((a + b)[0] == a[0]);
        assert(vstd::utf8::encode_scalar(a[0] as u32) + (vstd::utf8::encode_utf8(a.drop_first())
            + vstd::utf8::encode_utf8(b)) =~= (vstd::utf8::encode_scalar(a[0] as u32)
            + vstd::utf8::encode_utf8(a.drop_first())) + vstd::utf8::encode_utf8(b));
    }
}

/// The views of a list of tickets.
pub open spec fn ticket_views(tickets: Seq<Ticket>) -> Seq<TicketView> {
    tickets.map_values(|t: Ticket| t@)
}

/// The CSV text of a list of tickets: a header `id,monto,empresa`, then one record per
/// ticket with its identifier, its amount and its company's name.
pub fn tickets_to_csv(tickets: &Vec<Ticket>) -> (s: String)
    ensures
        s@ == csv_text(ticket_views(tickets@)),
        csv_read_all(s@, 0) == csv_records(ticket_views(tickets@)),
{
    proof {
        lemma_csv_text_reads_back(ticket_views(tickets@));
    }
    let mut w = csv_writer();
    let header: Vec<String> = vec![
        String::from_str("id"),
        String::from_str("monto"),
        String::from_str("empresa"),
    ];
    assert(header.deep_view() =~= csv_header());
    let written = csv_write_record(&mut w, &header);
    assert(written is Ok);
    let ghost views = ticket_views(tickets@);
    assert(csv_written(w) =~= vstd::utf8::encode_utf8(csv_text(views.take(0))));
    let mut i: usize = 0;
    while i < tickets.len()
        invariant
            i <= tickets.len(),
            views == ticket_views(tickets@),
            csv_written(w) == vstd::utf8::encode_utf8(csv_text(views.take(i as int))),
            csv_record_width(w) == Some(3nat),
        decreases tickets.len() - i,
    {
        let t = &tickets[i];
        let fields: Vec<String> = vec![
            decimal_string(t.get_id() as u64),
            decimal_string(t.get_amount() as u64),
            t.get_company().to_string(),
        ];
        assert(fields.deep_view() =~= csv_ticket_fields(views[i as int]));
        let written = csv_write_record(&mut w, &fields);
        assert(written is Ok);
        assert(views.take(i + 1).drop_last() =~= views.take(i as int));
        proof {
            lemma_encode_utf8_concat(
                csv_text(views.take(i as int)),
                csv_line(csv_ticket_fields(views[i as int])),
            );
        }
        i = i + 1;
    }
    assert(views.take(tickets.len() as int) =~= views);
    let ghost text = csv_text(views);
    proof {
        vstd::utf8::encode_utf8_valid_utf8(text);
        vstd::utf8::encode_utf8_decode_utf8(text);
    }
    let bytes = csv_into_bytes(w);
    match bytes {
        Some(b) => match string_from_utf8(b) {
            Some(s) => s,
            None => {
                assert(false);
                String::new()
            },
        },
        None => {
            assert(false);
            String::new()
        },
    }
}


/// Where a CSV reader stands inside a record: the fields read so far, the field being read,
/// whether it is inside quotes, and whether anything of that field was read yet.
pub struct CsvReadState {
    pub fields: Seq<Seq<char>>,
    pub cur: Seq<char>,
    pub quoted: bool,
    pub started: bool,
}

/// A reader at the start of a field, after the given fields.
pub open spec fn field_start(fields: Seq<Seq<char>>) -> CsvReadState {
    CsvReadState { fields, cur: Seq::empty(), quoted: false, started: false }
}

/// Reads one CSV record of `s` from position `i` on: commas separate fields, a field that
/// starts with a double quote runs to the matching closing quote with `""` standing for
/// one quote, and a line feed (or the end of the text) ends the record. Gives the fields
/// and the position after the record.
pub open spec fn csv_read_from(s: Seq<char>, i: int, st: CsvReadState) -> (Seq<Seq<char>>, int)
    decreases s.len() - i,
{
    if i < 0 || i >= s.len() {
        (st.fields.push(st.cur), i)
    } else if st.quoted {
        if s[i] == '"' {
            if i + 1 < s.len() && s[i + 1] == '"' {
                csv_read_from(s, i + 2, CsvReadState { cur: st.cur.push('"'), ..st })
            } else {
                csv_read_from(s, i + 1, CsvReadState { quoted: false, ..st })
            }
        } else {
            csv_read_from(s, i + 1, CsvReadState { cur: st.cur.push(s[i]), ..st })
        }
    } else if s[i] == ',' {
        csv_read_from(s, i + 1, field_start(st.fields.push(st.cur)))
    } else if s[i] == '\n' {
        (st.fields.push(st.cur), i + 1)
    } else if s[i] == '"' && !st.started {
        csv_read_from(s, i + 1, CsvReadState { quoted: true, started: true, ..st })
    } else {
        csv_read_from(s, i + 1, CsvReadState { cur: st.cur.push(s[i]), started: true, ..st })
    }
}

/// The fields of the first record of `s`.
pub open spec fn csv_read_record(s: Seq<char>) -> Seq<Seq<char>> {
    csv_read_from(s, 0, field_start(Seq::empty())).0
}

proof fn lemma_double_quotes_concat(a: Seq<char>, b: Seq<char>)
    ensures
        csv_double_quotes(a + b) == csv_double_quotes(a) + csv_double_quotes(b),
    decreases b.len(),
{
    if b.len() == 0 {
        assert(a + b =~= a);
        assert(csv_double_quotes(b) =~= Seq::<char>::empty());
        assert(csv_double_quotes(a) + csv_double_quotes(b) =~= csv_double_quotes(a));
    } else {
        lemma_double_quotes_concat(a, b.drop_last());
        assert((a + b).drop_last() =~= a + b.drop_last());
        assert((a + b).last() == b.last());
        if b.last() == '"' {
            assert(csv_double_quotes(a) + csv_double_quotes(b) =~= (csv_double_quotes(a)
                + csv_double_quotes(b.drop_last())) + seq!['"', '"']);
        } else {
            assert(csv_double_quotes(a) + csv_double_quotes(b) =~= (csv_double_quotes(a)
                + csv_double_quotes(b.drop_last())).push(b.last()));
        }
    }
}

proof fn lemma_double_quotes_one(c: char)
    ensures
        csv_double_quotes(seq![c]) == if c == '"' {
            seq!['"', '"']
        } else {
            seq![c]
        },
{
    assert(seq![c].drop_last() =~= Seq::<char>::empty());
    assert(csv_double_quotes(Seq::<char>::empty()) =~= Seq::<char>::empty());
    if c == '"' {
        assert(Seq::<char>::empty() + seq!['"', '"'] =~= seq!['"', '"']);
    } else {
        assert(Seq::<char>::empty().push(c) =~= seq![c]);
    }
}

/// Inside quotes, the doubled-quote text of `f` reads back as `f`.
proof fn lemma_read_quoted_chars(s: Seq<char>, i: int, acc: Seq<Seq<char>>, f: Seq<char>, k: int)
    requires
        0 <= i,
        0 <= k <= f.len(),
        i + csv_double_quotes(f).len() < s.len(),
        s.subrange(i, i + csv_double_quotes(f).len()) == csv_double_quotes(f),
        s[i + csv_double_quotes(f).len()] == '"',
    ensures
        csv_read_from(
            s,
            i + csv_double_quotes(f.take(k)).len(),
            CsvReadState { fields: acc, cur: f.take(k), quoted: true, started: true },
        ) == csv_read_from(
            s,
            i + csv_double_quotes(f).len(),
            CsvReadState { fields: acc, cur: f, quoted: true, started: true },
        ),
    decreases f.len() - k,
{
    if k < f.len() {
        let dq = csv_double_quotes(f);
        let pre = csv_double_quotes(f.take(k));
        let c = f[k];
        lemma_double_quotes_concat(f.take(k), f.skip(k));
        assert(f.take(k) + f.skip(k) =~= f);
        lemma_double_quotes_concat(seq![c], f.skip(k + 1));
        assert(seq![c] + f.skip(k + 1) =~= f.skip(k));
        lemma_double_quotes_one(c);
        lemma_double_quotes_concat(f.take(k), seq![c]);
        assert(f.take(k) + seq![c] =~= f.take(k + 1));
        assert(f.take(k).push(c) =~= f.take(k + 1));
        let p = i + pre.len();
        assert(dq == pre + csv_double_quotes(seq![c]) + csv_double_quotes(f.skip(k + 1)));
        assert(s[p] == dq[pre.len() as int]);
        if c == '"' {
            assert(s[p + 1] == dq[pre.len() + 1int]);
            assert(s[p] == '"' && s[p + 1] == '"');
        } else {
            assert(s[p] == c);
        }
        lemma_read_quoted_chars(s, i, acc, f, k + 1);
    } else {
        assert(f.take(k) =~= f);
    }
}

/// A quoted field followed by a comma or a line feed reads back as the field.
proof fn lemma_read_quoted_field(s: Seq<char>, i: int, acc: Seq<Seq<char>>, f: Seq<char>)
    requires
        0 <= i,
        i + csv_double_quotes(f).len() + 2 < s.len(),
        s.subrange(i, i + csv_double_quotes(f).len() + 2) == seq!['"'] + csv_double_quotes(f)
            + seq!['"'],
        s[i + csv_double_quotes(f).len() + 2] == ',' || s[i + csv_double_quotes(f).len() + 2]
            == '\n',
    ensures
        ({
            let e = i + csv_double_quotes(f).len() + 2;
            csv_read_from(s, i, field_start(acc)) == if s[e] == ',' {
                csv_read_from(s, e + 1, field_start(acc.push(f)))
            } else {
                (acc.push(f), e + 1)
            }
        }),
{
    let dq = csv_double_quotes(f);
    let w = seq!['"'] + dq + seq!['"'];
    assert(s[i] == w[0]);
    assert(s.subrange(i + 1, i + 1 + dq.len()) =~= dq) by {
        assert forall|j: int| 0 <= j < dq.len() implies s.subrange(i + 1, i + 1 + dq.len())[j]
            == dq[j] by {
            assert(s[i + 1 + j] == w[1 + j]);
        }
    }
    assert(s[i + 1 + dq.len()] == w[1int + dq.len()]);
    assert(f.take(0) =~= Seq::<char>::empty());
    assert(csv_double_quotes(Seq::<char>::empty()) =~= Seq::<char>::empty());
    assert(csv_double_quotes(f.take(0)).len() == 0);
    lemma_read_quoted_chars(s, i + 1, acc, f, 0);
    let p = i + 1 + dq.len();
    let e = p + 1;
    let inside = CsvReadState { fields: acc, cur: f.take(0), quoted: true, started: true };
    assert(s[i] == '"');
    assert(csv_read_from(s, i, field_start(acc)) == csv_read_from(s, i + 1, inside));
    let closed = CsvReadState { fields: acc, cur: f, quoted: false, started: true };
    assert(s[p] == '"');
    assert(s[e] != '"');
    assert(csv_read_from(
        s,
        p,
        CsvReadState { fields: acc, cur: f, quoted: true, started: true },
    ) == csv_read_from(s, e, closed));
}

/// An unquoted field reads back character by character.
proof fn lemma_read_plain_chars(s: Seq<char>, i: int, acc: Seq<Seq<char>>, f: Seq<char>, k: int)
    requires
        0 <= i,
        0 <= k <= f.len(),
        i + f.len() <= s.len(),
        s.subrange(i, i + f.len()) == f,
        !csv_needs_quotes(f),
    ensures
        csv_read_from(
            s,
            i + k,
            CsvReadState { fields: acc, cur: f.take(k), quoted: false, started: k > 0 },
        ) == csv_read_from(
            s,
            i + f.len(),
            CsvReadState { fields: acc, cur: f, quoted: false, started: f.len() > 0 },
        ),
    decreases f.len() - k,
{
    if k < f.len() {
        let c = f[k];
        assert(s[i + k] == c);
        assert(f.contains(c));
        assert(c != ',' && c != '"' && c != '\n');
        assert(f.take(k).push(c) =~= f.take(k + 1));
        lemma_read_plain_chars(s, i, acc, f, k + 1);
    } else {
        assert(f.take(k) =~= f);
    }
}

/// A field as it is written, followed by a comma or a line feed, reads back as the field.
proof fn lemma_read_field(s: Seq<char>, i: int, acc: Seq<Seq<char>>, f: Seq<char>)
    requires
        0 <= i,
        i + csv_field(f).len() < s.len(),
        s.subrange(i, i + csv_field(f).len()) == csv_field(f),
        s[i + csv_field(f).len()] == ',' || s[i + csv_field(f).len()] == '\n',
    ensures
        ({
            let e = i + csv_field(f).len();
            csv_read_from(s, i, field_start(acc)) == if s[e] == ',' {
                csv_read_from(s, e + 1, field_start(acc.push(f)))
            } else {
                (acc.push(f), e + 1)
            }
        }),
{
    if csv_needs_quotes(f) {
        lemma_read_quoted_field(s, i, acc, f);
    } else {
        assert(f.take(0) =~= Seq::<char>::empty());
        lemma_read_plain_chars(s, i, acc, f, 0);
    }
}


proof fn lemma_join_prefix(fields: Seq<Seq<char>>, k: int)
    requires
        1 <= k <= fields.len(),
    ensures
        csv_join(fields.take(k)).len() <= csv_join(fields).len(),
        csv_join(fields).subrange(0, csv_join(fields.take(k)).len() as int) == csv_join(
            fields.take(k),
        ),
        k < fields.len() ==> csv_join(fields.take(k)).len() < csv_join(fields).len(),
        k < fields.len() ==> csv_join(fields)[csv_join(fields.take(k)).len() as int] == ',',
    decreases fields.len(),
{
    if k == fields.len() {
        assert(fields.take(k) =~= fields);
        assert(csv_join(fields).subrange(0, csv_join(fields).len() as int) =~= csv_join(fields));
    } else {
        let init = fields.drop_last();
        assert(init.take(k) =~= fields.take(k));
        lemma_join_prefix(init, k);
        let j = csv_join(fields);
        let ji = csv_join(init);
        let jk = csv_join(fields.take(k));
        assert(j == ji + seq![','] + csv_field(fields.last()));
        assert(j.subrange(0, jk.len() as int) =~= ji.subrange(0, jk.len() as int));
        if k < init.len() {
            assert(j[jk.len() as int] == ji[jk.len() as int]);
        } else {
            assert(init.take(k) =~= init);
            assert(j[ji.len() as int] == ',');
        }
    }
}

/// The position where field `k` of a written record starting at `i` begins.
spec fn field_pos(fields: Seq<Seq<char>>, i: int, k: int) -> int {
    if k == 0 {
        i
    } else {
        i + csv_join(fields.take(k)).len() + 1
    }
}

proof fn lemma_read_joined(s: Seq<char>, i: int, fields: Seq<Seq<char>>, k: int)
    requires
        0 <= i,
        0 <= k < fields.len(),
        i + csv_join(fields).len() < s.len(),
        s.subrange(i, i + csv_join(fields).len()) == csv_join(fields),
        s[i + csv_join(fields).len()] == '\n',
    ensures
        csv_read_from(s, field_pos(fields, i, k), field_start(fields.take(k))) == (
            fields,
            i + csv_join(fields).len() + 1,
        ),
    decreases fields.len() - k,
{
    let n = fields.len();
    let f = fields[k];
    let j = csv_join(fields);
    let jn = csv_join(fields.take(k + 1));
    lemma_join_prefix(fields, k + 1);
    let p = field_pos(fields, i, k);
    let fl = csv_field(f);
    // The text of `fields.take(k + 1)` ends with field `k`, written, at `p - i`.
    if k == 0 {
        assert(fields.take(1).drop_last() =~= Seq::<Seq<char>>::empty());
        assert(jn == fl);
    } else {
        assert(fields.take(k + 1).drop_last() =~= fields.take(k));
        assert(fields.take(k + 1).last() == f);
        assert(jn == csv_join(fields.take(k)) + seq![','] + fl);
    }
    assert(p - i + fl.len() == jn.len());
    assert(s.subrange(p, p + fl.len()) =~= fl) by {
        assert forall|t: int| 0 <= t < fl.len() implies s.subrange(p, p + fl.len())[t]
            == fl[t] by {
            assert(s[p + t] == j[p - i + t]);
            assert(j[p - i + t] == jn[p - i + t]);
        }
    }
    let e = p + fl.len();
    if k + 1 < n {
        assert(jn.len() < j.len());
        assert(s.subrange(i, i + j.len())[jn.len() as int] == j[jn.len() as int]);
        assert(s[e] == ',');
    } else {
        assert(fields.take(k + 1) =~= fields);
        assert(s[e] == '\n');
    }
    lemma_read_field(s, p, fields.take(k), f);
    assert(fields.take(k).push(f) =~= fields.take(k + 1));
    if k + 1 < n {
        assert(field_pos(fields, i, k + 1) == e + 1);
        lemma_read_joined(s, i, fields, k + 1);
    } else {
        assert(fields.take(k + 1) =~= fields);
    }
}

/// Reading a record at position `i` of a text in which the written line of `fields`
/// stands there gives back `fields`, and the position just after the line.
pub proof fn lemma_read_line_at(s: Seq<char>, i: int, fields: Seq<Seq<char>>)
    requires
        fields.len() >= 1,
        0 <= i,
        i + csv_line(fields).len() <= s.len(),
        s.subrange(i, i + csv_line(fields).len()) == csv_line(fields),
    ensures
        csv_read_from(s, i, field_start(Seq::empty())) == (fields, i + csv_line(fields).len()),
{
    let line = csv_line(fields);
    if fields.len() == 1 && fields[0].len() == 0 {
        let f = fields[0];
        assert(csv_double_quotes(f) =~= Seq::<char>::empty());
        assert(seq!['"'] + csv_double_quotes(f) + seq!['"'] =~= seq!['"', '"']);
        assert(s.subrange(i, i + 2) =~= seq!['"', '"']) by {
            assert(s[i] == line[0]);
            assert(s[i + 1] == line[1]);
        }
        assert(s[i + 2] == line[2]);
        lemma_read_quoted_field(s, i, Seq::empty(), f);
        assert(Seq::<Seq<char>>::empty().push(f) =~= fields);
    } else {
        let j = csv_join(fields);
        assert(line == j.push('\n'));
        assert(s.subrange(i, i + j.len()) =~= j) by {
            assert forall|t: int| 0 <= t < j.len() implies s.subrange(i, i + j.len())[t]
                == j[t] by {
                assert(s[i + t] == line[t]);
            }
        }
        assert(s[i + j.len()] == line[j.len() as int]);
        assert(fields.take(0) =~= Seq::<Seq<char>>::empty());
        lemma_read_joined(s, i, fields, 0);
    }
}

/// A written record reads back as its fields: reading the line of `fields`, as a CSV
/// reader does, gives `fields` again. (A record of no field is written as one empty
/// field and reads back as that, so it is left out.)
pub proof fn lemma_csv_line_reads_back(fields: Seq<Seq<char>>)
    requires
        fields.len() >= 1,
    ensures
        csv_read_record(csv_line(fields)) == fields,
{
    let line = csv_line(fields);
    assert(line.subrange(0, line.len() as int) =~= line);
    lemma_read_line_at(line, 0, fields);
}


/// Every record of `s` from position `i` on, read one after the other.
pub open spec fn csv_read_all(s: Seq<char>, i: int) -> Seq<Seq<Seq<char>>>
    decreases s.len() - i,
{
    if i < 0 || i >= s.len() {
        Seq::empty()
    } else {
        let (record, next) = csv_read_from(s, i, field_start(Seq::empty()));
        if i < next <= s.len() {
            seq![record] + csv_read_all(s, next)
        } else {
            seq![record]
        }
    }
}

/// The written lines of records, one after the other.
pub open spec fn csv_lines(records: Seq<Seq<Seq<char>>>) -> Seq<char>
    decreases records.len(),
{
    if records.len() == 0 {
        Seq::empty()
    } else {
        csv_line(records[0]) + csv_lines(records.drop_first())
    }
}

/// The records of an export: the header, then the record of each ticket in order.
pub open spec fn csv_records(tickets: Seq<TicketView>) -> Seq<Seq<Seq<char>>> {
    seq![csv_header()] + tickets.map_values(|t: TicketView| csv_ticket_fields(t))
}

proof fn lemma_lines_push(records: Seq<Seq<Seq<char>>>, r: Seq<Seq<char>>)
    ensures
        csv_lines(records.push(r)) == csv_lines(records) + csv_line(r),
    decreases records.len(),
{
    if records.len() == 0 {
        assert(records.push(r).drop_first() =~= Seq::<Seq<Seq<char>>>::empty());
        assert(csv_lines(Seq::<Seq<Seq<char>>>::empty()) == Seq::<char>::empty());
        assert(records.push(r)[0] == r);
        assert(csv_lines(records.push(r)) == csv_line(r) + csv_lines(
            Seq::<Seq<Seq<char>>>::empty(),
        ));
        assert(csv_lines(records.push(r)) =~= csv_line(r) + Seq::<char>::empty());
        assert(csv_lines(records) + csv_line(r) =~= csv_line(r));
    } else {
        lemma_lines_push(records.drop_first(), r);
        assert(records.push(r).drop_first() =~= records.drop_first().push(r));
        assert(csv_lines(records.push(r)) =~= csv_lines(records) + csv_line(r));
    }
}

proof fn lemma_text_is_lines(tickets: Seq<TicketView>)
    ensures
        csv_text(tickets) == csv_lines(csv_records(tickets)),
    decreases tickets.len(),
{
    if tickets.len() == 0 {
        assert(csv_records(tickets) =~= seq![csv_header()]);
        assert(seq![csv_header()].drop_first() =~= Seq::<Seq<Seq<char>>>::empty());
        assert(csv_lines(Seq::<Seq<Seq<char>>>::empty()) == Seq::<char>::empty());
        assert(csv_lines(seq![csv_header()]) == csv_line(csv_header()) + csv_lines(
            Seq::<Seq<Seq<char>>>::empty(),
        ));
        assert(csv_lines(seq![csv_header()]) =~= csv_line(csv_header()));
    } else {
        lemma_text_is_lines(tickets.drop_last());
        assert(csv_records(tickets) =~= csv_records(tickets.drop_last()).push(
            csv_ticket_fields(tickets.last()),
        ));
        lemma_lines_push(csv_records(tickets.drop_last()), csv_ticket_fields(tickets.last()));
    }
}

proof fn lemma_read_lines(s: Seq<char>, i: int, records: Seq<Seq<Seq<char>>>)
    requires
        0 <= i <= s.len(),
        s.subrange(i, s.len() as int) == csv_lines(records),
        forall|k: int| 0 <= k < records.len() ==> #[trigger] records[k].len() >= 1,
    ensures
        csv_read_all(s, i) == records,
    decreases records.len(),
{
    if records.len() == 0 {
        assert(s.subrange(i, s.len() as int).len() == 0);
    } else {
        let line = csv_line(records[0]);
        let rest = csv_lines(records.drop_first());
        assert(csv_lines(records) == line + rest);
        assert(line.len() >= 1);
        assert(s.subrange(i, i + line.len()) =~= line) by {
            assert forall|t: int| 0 <= t < line.len() implies s.subrange(i, i + line.len())[t]
                == line[t] by {
                assert(s[i + t] == s.subrange(i, s.len() as int)[t]);
            }
        }
        lemma_read_line_at(s, i, records[0]);
        let next = i + line.len();
        assert(s.subrange(next, s.len() as int) =~= rest) by {
            assert forall|t: int| 0 <= t < rest.len() implies s.subrange(
                next,
                s.len() as int,
            )[t] == rest[t] by {
                assert(s[next + t] == s.subrange(i, s.len() as int)[line.len() + t]);
            }
        }
        assert forall|k: int| 0 <= k < records.drop_first().len() implies #[trigger] records.drop_first()[k].len()
            >= 1 by {
            assert(records.drop_first()[k] == records[k + 1]);
        }
        lemma_read_lines(s, next, records.drop_first());
        assert(seq![records[0]] + records.drop_first() =~= records);
    }
}

/// An export reads back as what was written: reading the CSV text of `tickets` record
/// by record gives the header `id`, `monto`, `empresa`, then, for each ticket in order,
/// its identifier, its amount (plain digits) and its company's name.
pub proof fn lemma_csv_text_reads_back(tickets: Seq<TicketView>)
    ensures
        csv_read_all(csv_text(tickets), 0) == csv_records(tickets),
{
    let text = csv_text(tickets);
    let records = csv_records(tickets);
    lemma_text_is_lines(tickets);
    assert(text.subrange(0, text.len() as int) =~= text);
    assert forall|k: int| 0 <= k < records.len() implies #[trigger] records[k].len() >= 1 by {
        if k > 0 {
            assert(records[k] == csv_ticket_fields(tickets[k - 1]));
        }
    }
    lemma_read_lines(text, 0, records);
}


/// What an export holds, read back in terms of the tickets alone: the header `id`, `monto`,
/// `empresa`, then one record of three fields per ticket, in order: its identifier in
/// decimal, its amount in decimal (plain digits, no separators) and its company's name.
pub proof fn lemma_csv_export_fields(tickets: Seq<TicketView>)
    ensures
        ({
            let records = csv_read_all(csv_text(tickets), 0);
            &&& records.len() == tickets.len() + 1
            &&& records[0] == seq!["id"@, "monto"@, "empresa"@]
            &&& forall|k: int|
                #![trigger tickets[k]]
                0 <= k < tickets.len() ==> {
                    &&& records[k + 1].len() == 3
                    &&& shows_number(records[k + 1][0], tickets[k].id as int)
                    &&& shows_number(records[k + 1][1], tickets[k].amount as int)
                    &&& records[k + 1][2] == tickets[k].company.name
                }
        }),
{
    lemma_csv_text_reads_back(tickets);
    let records = csv_records(tickets);
    assert forall|k: int|
        #![trigger tickets[k]]
        0 <= k < tickets.len() implies {
            &&& records[k + 1].len() == 3
            &&& shows_number(records[k + 1][0], tickets[k].id as int)
            &&& shows_number(records[k + 1][1], tickets[k].amount as int)
            &&& records[k + 1][2] == tickets[k].company.name
        } by {
        assert(records[k + 1] == csv_ticket_fields(tickets[k]));
        lemma_decimal_shows_number(tickets[k].id as nat);
        lemma_decimal_shows_number(tickets[k].amount as nat);
    }
}

} // verus!
