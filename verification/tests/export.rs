use tickets::csv_export::tickets_to_csv;
use tickets::model::{Company, Ticket};
use tickets::records::{
    companies_from_rows, removed_any, ticket_from_row, tickets_from_rows, CompanyRow, TicketRow,
};
use tickets::tables::{detail_tickets, pivot_companies, AmountCount, CompanyTotal};

#[test]
fn csv_of_no_tickets_is_the_header() {
    assert_eq!(tickets_to_csv(&Vec::new()), "id,monto,empresa\n");
}

#[test]
fn csv_lists_tickets_in_order() {
    let tickets = vec![
        Ticket::new(1, Company::new(1, String::from("Acme Corp")), 5000),
        Ticket::new(12, Company::new(2, String::from("Stark, Inc")), 250),
        Ticket::new(13, Company::new(3, String::from("Say \"hi\"")), 7),
    ];
    assert_eq!(
        tickets_to_csv(&tickets),
        "id,monto,empresa\n1,5000,Acme Corp\n12,250,\"Stark, Inc\"\n13,7,\"Say \"\"hi\"\"\"\n"
    );
}

#[test]
fn company_pivot_table() {
    let rows = vec![
        CompanyTotal { name: String::from("Acme Corp"), amount: 12500, count: 3 },
        CompanyTotal { name: String::from("Stark"), amount: 250, count: 1 },
    ];
    assert_eq!(
        pivot_companies(&rows),
        "COMPANY    AMOUNT  COUNT\nAcme Corp  12.500    3\nStark         250    1\n"
    );
}

#[test]
fn company_pivot_table_without_rows() {
    assert_eq!(pivot_companies(&Vec::new()), "COMPANY  AMOUNT  COUNT\n");
}

#[test]
fn detail_table() {
    let rows = vec![
        AmountCount { amount: 2500, name: String::from("Acme Corp"), count: 12 },
        AmountCount { amount: 100, name: String::from("Stark"), count: 1 },
    ];
    assert_eq!(
        detail_tickets(&rows),
        "AMOUNT  COMPANY    COUNT\n 2.500  Acme Corp   12\n   100  Stark        1\n"
    );
}

#[test]
fn rows_become_tickets() {
    let row = TicketRow { id: 9, amount: 300, company_id: 2, company_name: String::from("Stark") };
    let t = ticket_from_row(&row);
    assert_eq!(t.get_id(), 9);
    assert_eq!(t.get_amount(), 300);
    assert_eq!(t.get_company().get_id(), 2);
    assert_eq!(t.get_company().get_name(), "Stark");
    let rows = vec![
        row,
        TicketRow { id: 10, amount: 1, company_id: 1, company_name: String::from("Acme") },
    ];
    let ts = tickets_from_rows(&rows);
    assert_eq!(ts.len(), 2);
    assert_eq!(ts[1].fmt_line(), "[ 10] Acme $1");
}

#[test]
fn rows_become_companies() {
    let rows = vec![
        CompanyRow { id: 1, name: String::from("Acme") },
        CompanyRow { id: 5, name: String::from("Stark") },
    ];
    let cs = companies_from_rows(&rows);
    assert_eq!(cs.len(), 2);
    assert_eq!(cs[1].get_id(), 5);
    assert_eq!(cs[1].get_name(), "Stark");
}

#[test]
fn deletion_counts() {
    assert!(!removed_any(0));
    assert!(removed_any(1));
    assert!(removed_any(3));
}

#[test]
fn csv_quotes_only_where_needed() {
    let tickets = vec![
        Ticket::new(1, Company::new(1, String::from("")), 1),
        Ticket::new(2, Company::new(2, String::from("Line\nbreak")), 2),
        Ticket::new(3, Company::new(3, String::from("Ñandú")), 3),
    ];
    assert_eq!(
        tickets_to_csv(&tickets),
        "id,monto,empresa\n1,1,\n2,2,\"Line\nbreak\"\n3,3,Ñandú\n"
    );
}

/// Reads CSV text: commas separate fields, a field opened by a double quote runs to its
/// closing quote with `""` standing for one quote, a line feed ends a record.
fn read_csv(text: &str) -> Vec<Vec<String>> {
    let chars: Vec<char> = text.chars().collect();
    let mut records = Vec::new();
    let mut fields = Vec::new();
    let mut cur = String::new();
    let mut quoted = false;
    let mut started = false;
    let mut i = 0;
    while i < chars.len() {
        let c = chars[i];
        if quoted {
            if c == '"' {
                if i + 1 < chars.len() && chars[i + 1] == '"' {
                    cur.push('"');
                    i += 1;
                } else {
                    quoted = false;
                }
            } else {
                cur.push(c);
            }
        } else if c == ',' {
            fields.push(std::mem::take(&mut cur));
            started = false;
        } else if c == '\n' {
            fields.push(std::mem::take(&mut cur));
            records.push(std::mem::take(&mut fields));
            started = false;
        } else if c == '"' && !started {
            quoted = true;
            started = true;
        } else {
            cur.push(c);
            started = true;
        }
        i += 1;
    }
    records
}

#[test]
fn csv_reads_back() {
    let tickets = vec![
        Ticket::new(1, Company::new(1, String::from("Acme Corp")), 65535),
        Ticket::new(2, Company::new(2, String::from("Stark, \"Inc\"")), 0),
        Ticket::new(3, Company::new(3, String::from("")), 1234),
        Ticket::new(4, Company::new(4, String::from("two\nlines")), 7),
    ];
    let records = read_csv(&tickets_to_csv(&tickets));
    assert_eq!(records.len(), 5);
    assert_eq!(records[0], vec!["id", "monto", "empresa"]);
    for (k, t) in tickets.iter().enumerate() {
        assert_eq!(
            records[k + 1],
            vec![
                t.get_id().to_string(),
                t.get_amount().to_string(),
                t.get_company().get_name().to_string(),
            ]
        );
    }
}
