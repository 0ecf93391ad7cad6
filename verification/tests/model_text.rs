use tickets::model::{Company, Ticket};
use tickets::commands::summary_figures;
use tickets::tables::{pivot_companies, CompanyTotal};
use tickets::text::{decimal_string, push_padded, push_signed_decimal};

fn acme() -> Company {
    Company::new(1, String::from("Acme Corp"))
}

#[test]
fn decimal_renders_digits() {
    assert_eq!(decimal_string(0), "0");
    assert_eq!(decimal_string(7), "7");
    assert_eq!(decimal_string(1234), "1234");
    assert_eq!(decimal_string(u64::MAX), "18446744073709551615");
}

#[test]
fn signed_decimal_renders_sign() {
    let mut s = String::new();
    push_signed_decimal(&mut s, -42);
    assert_eq!(s, "-42");
    let mut s = String::new();
    push_signed_decimal(&mut s, i64::MIN);
    assert_eq!(s, "-9223372036854775808");
    let mut s = String::from("x");
    push_signed_decimal(&mut s, 10);
    assert_eq!(s, "x10");
}

#[test]
fn padding_right_aligns() {
    let mut s = String::from("[");
    push_padded(&mut s, "7", 3);
    assert_eq!(s, "[  7");
    let mut s = String::new();
    push_padded(&mut s, "1234", 3);
    assert_eq!(s, "1234");
}

#[test]
fn dots_every_three_digits() {
    let f = summary_figures(999, 1000, 1235).unwrap();
    assert_eq!(f.count, "999");
    assert_eq!(f.total, "1.000");
    assert_eq!(f.goal.unwrap().goal, "1.235");
    let f = summary_figures(12345, 1234567, 1).unwrap();
    assert_eq!(f.count, "12.345");
    assert_eq!(f.total, "1.234.567");
    assert_eq!(f.goal.unwrap().difference, "-1.234.566");
    let f = summary_figures(1, 0, 1234).unwrap();
    assert_eq!(f.total, "0");
    assert_eq!(f.goal.unwrap().difference, "  1.234");
    let rows = vec![CompanyTotal { name: String::from("A"), amount: -999, count: -1 }];
    assert_eq!(pivot_companies(&rows), "COMPANY  AMOUNT  COUNT\nA          -999   -1\n");
}

#[test]
fn company_keeps_its_fields() {
    let c = acme();
    assert_eq!(c.get_id(), 1);
    assert_eq!(c.get_name(), "Acme Corp");
    assert_eq!(c.to_string(), "Acme Corp");
    let d = c.duplicate();
    assert_eq!(d.get_id(), 1);
    assert_eq!(d.get_name(), "Acme Corp");
}

#[test]
fn ticket_keeps_its_fields() {
    let t = Ticket::new(3, acme(), 2500);
    assert_eq!(t.get_id(), 3);
    assert_eq!(t.get_amount(), 2500);
    assert_eq!(t.get_company().get_name(), "Acme Corp");
}

#[test]
fn ticket_line_format() {
    let t = Ticket::new(7, acme(), 5000);
    assert_eq!(t.fmt_line(), "[  7] Acme Corp $5.000");
    let t = Ticket::new(1234, acme(), 65535);
    assert_eq!(t.fmt_line(), "[1234] Acme Corp $65.535");
    let t = Ticket::new(42, acme(), 5);
    assert_eq!(t.fmt_line(), "[ 42] Acme Corp $5");
}

#[test]
fn ticket_block_format() {
    let t = Ticket::new(7, acme(), 5000);
    assert_eq!(
        t.fmt_block(),
        "===== TICKET =====\nID      : 7\nAmount  : $5.000\nCompany : Acme Corp"
    );
}

#[test]
fn renderings_share_amount_text() {
    for amount in [0u16, 7, 999, 1000, 12345, 65535] {
        let t = Ticket::new(9, acme(), amount);
        let block = t.fmt_block();
        let lines: Vec<&str> = block.split('\n').collect();
        assert_eq!(lines.len(), 4);
        let shown = lines[2].strip_prefix("Amount  : $").unwrap();
        assert!(t.fmt_line().ends_with(&format!(" ${}", shown)));
        assert!(!t.fmt_line().contains('\n'));
        assert_eq!(lines[3], "Company : Acme Corp");
        assert_eq!(shown.replace('.', "").parse::<u16>(), Ok(amount));
        let groups: Vec<&str> = shown.split('.').collect();
        assert!((1..=3).contains(&groups[0].len()));
        assert!(groups[1..].iter().all(|g| g.len() == 3));
        assert!(amount == 0 || !groups[0].starts_with('0'));
    }
}
