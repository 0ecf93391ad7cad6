use tickets::addition::{Addition, AdditionAction, AdditionEvent};
use tickets::answer::parse_answer;
use tickets::backup::{
    backup_target, check_backup_source, check_gzip_magic, check_integrity, check_sqlite_header,
    BackupTarget, BACKUP_EXTENSION, BACKUP_FILE_NAME,
};
use tickets::cli::{Cli, Commands};
use tickets::commands::{
    companies_listing, company_added_message, company_for_tickets, company_removed_message,
    company_to_remove, goal_difference, shown_ticket, summary_figures,
};
use tickets::config::Config;
use tickets::error::CommandError;
use tickets::model::{Company, Ticket};
use tickets::removal::{Removal, RemovalAction, RemovalEvent};

fn acme() -> Company {
    Company::new(1, String::from("Acme Corp"))
}

#[test]
fn answers() {
    assert!(parse_answer("y\n").unwrap());
    assert!(parse_answer("YES\r\n").unwrap());
    assert!(parse_answer("Yes").unwrap());
    assert!(!parse_answer("n").unwrap());
    assert!(!parse_answer("No\r\n").unwrap());
    match parse_answer("Maybe\r\n") {
        Err(e @ CommandError::InvalidAnswer(_)) => {
            assert_eq!(e.message(), "Invalid answer: \"maybe\", please use [y/n].")
        }
        _ => panic!("expected an invalid answer"),
    }
    assert!(matches!(parse_answer(""), Err(CommandError::InvalidAnswer(_))));
}

#[test]
fn removal_range_must_be_ordered() {
    assert!(matches!(Removal::start(5, Some(3)), Err(CommandError::RangeEndBeforeStart)));
    assert_eq!(
        CommandError::RangeEndBeforeStart.message(),
        "`to` must be greater than `id`."
    );
}

#[test]
fn removal_of_a_range() {
    let mut r = Removal::start(3, Some(4)).unwrap();
    assert_eq!(r.heading(), "Removed tickets:");
    assert!(matches!(r.first_action(), RemovalAction::Fetch(3)));
    let found = Some(Ticket::new(3, acme(), 10));
    assert!(matches!(r.step(RemovalEvent::Fetched(found)), RemovalAction::Remove(3)));
    match r.step(RemovalEvent::Removed(true)) {
        RemovalAction::Print(s) => assert_eq!(s, "[  3] Acme Corp $10"),
        _ => panic!("expected a print"),
    }
    assert!(matches!(r.step(RemovalEvent::Printed), RemovalAction::Fetch(4)));
    let found = Some(Ticket::new(4, acme(), 20));
    assert!(r.awaits(&RemovalEvent::Fetched(None)));
    assert!(!r.awaits(&RemovalEvent::Printed));
    assert!(matches!(r.step(RemovalEvent::Fetched(found)), RemovalAction::Remove(4)));
    assert!(matches!(r.step(RemovalEvent::Removed(true)), RemovalAction::Print(_)));
    assert!(matches!(r.step(RemovalEvent::Printed), RemovalAction::Done));
    assert!(!r.awaits(&RemovalEvent::Printed));
}

#[test]
fn removal_of_one_ticket() {
    let mut r = Removal::start(2, None).unwrap();
    assert_eq!(r.heading(), "Removed ticket:");
    let found = Some(Ticket::new(2, acme(), 1500));
    assert!(matches!(r.step(RemovalEvent::Fetched(found)), RemovalAction::Remove(2)));
    match r.step(RemovalEvent::Removed(true)) {
        RemovalAction::Print(s) => assert_eq!(
            s,
            "===== TICKET =====\nID      : 2\nAmount  : $1.500\nCompany : Acme Corp"
        ),
        _ => panic!("expected a print"),
    }
    assert!(matches!(r.step(RemovalEvent::Printed), RemovalAction::Done));
}

#[test]
fn removal_stops_at_a_missing_ticket() {
    let mut r = Removal::start(1, Some(9)).unwrap();
    match r.step(RemovalEvent::Fetched(None)) {
        RemovalAction::Fail(e) => {
            assert_eq!(e.message(), "Ticket with that ID doesn't exists.")
        }
        _ => panic!("expected a failure"),
    }
    assert!(!r.awaits(&RemovalEvent::Fetched(None)));
}

#[test]
fn removal_stops_when_not_deleted() {
    let mut r = Removal::start(1, Some(1)).unwrap();
    let found = Some(Ticket::new(1, acme(), 5));
    assert!(matches!(r.step(RemovalEvent::Fetched(found)), RemovalAction::Remove(1)));
    match r.step(RemovalEvent::Removed(false)) {
        RemovalAction::Fail(e) => assert_eq!(e.message(), "Unable to remove that ticket."),
        _ => panic!("expected a failure"),
    }
}

#[test]
fn addition_of_several_tickets() {
    let mut a = Addition::start(acme(), 2500, 2);
    assert_eq!(a.heading(), "Added tickets:");
    match a.first_action() {
        AdditionAction::Insert { amount, company_id } => {
            assert_eq!(amount, 2500);
            assert_eq!(company_id, 1);
        }
        _ => panic!("expected an insertion"),
    }
    match a.step(AdditionEvent::Inserted(11)) {
        AdditionAction::Print(s) => assert_eq!(s, "[ 11] Acme Corp $2.500"),
        _ => panic!("expected a print"),
    }
    assert!(matches!(a.step(AdditionEvent::Printed), AdditionAction::Insert { .. }));
    assert!(matches!(a.step(AdditionEvent::Inserted(12)), AdditionAction::Print(_)));
    assert!(matches!(a.step(AdditionEvent::Printed), AdditionAction::Done));
    assert!(!a.awaits(&AdditionEvent::Inserted(13)));
}

#[test]
fn addition_of_one_ticket() {
    let mut a = Addition::start(acme(), 5000, 1);
    assert_eq!(a.heading(), "Added ticket:");
    assert!(matches!(a.first_action(), AdditionAction::Insert { .. }));
    match a.step(AdditionEvent::Inserted(1)) {
        AdditionAction::Print(s) => assert_eq!(
            s,
            "===== TICKET =====\nID      : 1\nAmount  : $5.000\nCompany : Acme Corp"
        ),
        _ => panic!("expected a print"),
    }
    assert!(matches!(a.step(AdditionEvent::Printed), AdditionAction::Done));
}

#[test]
fn addition_of_no_ticket() {
    let a = Addition::start(acme(), 5000, 0);
    assert_eq!(a.heading(), "Added ticket:");
    assert!(matches!(a.first_action(), AdditionAction::Done));
}

#[test]
fn unknown_company_is_refused() {
    assert!(company_for_tickets(Some(acme())).is_ok());
    match company_for_tickets(None) {
        Err(e) => assert_eq!(e.message(), "That company is not in the database."),
        Ok(_) => panic!("expected a refusal"),
    }
}

#[test]
fn show() {
    let t = Ticket::new(5, acme(), 100);
    assert_eq!(
        shown_ticket(Some(t)).unwrap(),
        "===== TICKET =====\nID      : 5\nAmount  : $100\nCompany : Acme Corp"
    );
    match shown_ticket(None) {
        Err(e) => assert_eq!(e.message(), "There are no ticket with that ID."),
        Ok(_) => panic!("expected a refusal"),
    }
}

#[test]
fn company_messages() {
    let c = Company::new(12, String::from("Stark Industries"));
    assert_eq!(
        company_added_message(&c),
        "Added company \"Stark Industries\" with ID #12."
    );
    assert_eq!(
        company_removed_message(&c, true).unwrap(),
        "Removed company \"Stark Industries\"."
    );
    match company_removed_message(&c, false) {
        Err(e) => assert_eq!(e.message(), "Unable to remove company."),
        Ok(_) => panic!("expected a refusal"),
    }
    match company_to_remove(None) {
        Err(e) => assert_eq!(e.message(), "There is no company with that ID."),
        Ok(_) => panic!("expected a refusal"),
    }
    assert_eq!(company_to_remove(Some(c)).unwrap().get_id(), 12);
}

#[test]
fn company_listing() {
    let cs = vec![acme(), Company::new(12, String::from("Stark"))];
    let lines = companies_listing(&cs).unwrap();
    assert_eq!(lines, vec!["===== COMPANIES =====", "[ 1] Acme Corp", "[12] Stark"]);
    match companies_listing(&Vec::new()) {
        Err(e) => assert_eq!(e.message(), "There are no companies in the database."),
        Ok(_) => panic!("expected a refusal"),
    }
}

#[test]
fn summary_with_goal() {
    let f = summary_figures(3, 7500, 10000).unwrap();
    assert_eq!(f.count, "3");
    assert_eq!(f.total, "7.500");
    let g = f.goal.unwrap();
    assert_eq!(g.goal, "10.000");
    assert_eq!(g.difference, "  2.500");
}

#[test]
fn summary_beyond_goal() {
    let f = summary_figures(1500, 7500, 5000).unwrap();
    assert_eq!(f.count, "1.500");
    assert_eq!(f.goal.unwrap().difference, " -2.500");
    assert_eq!(goal_difference(5000, 7500), -2500);
    assert_eq!(goal_difference(10000, 7500) + 7500, 10000);
}

#[test]
fn summary_without_goal() {
    assert!(summary_figures(1, 10, 0).unwrap().goal.is_none());
    match summary_figures(0, 0, 100) {
        Err(e) => assert_eq!(e.message(), "Database is empty."),
        Ok(_) => panic!("expected a refusal"),
    }
}

#[test]
fn backup_targets() {
    assert_eq!(backup_target(true, None), BackupTarget::InsideDirectory);
    assert_eq!(backup_target(true, Some("x.db.gz")), BackupTarget::InsideDirectory);
    assert_eq!(backup_target(false, Some("x.db.gz")), BackupTarget::AsGiven);
    assert_eq!(backup_target(false, Some(".db.gz")), BackupTarget::AsGiven);
    assert_eq!(backup_target(false, Some("x.db")), BackupTarget::AddExtension);
    assert_eq!(backup_target(false, Some("gz")), BackupTarget::AddExtension);
    assert_eq!(backup_target(false, None), BackupTarget::AddExtension);
    assert_eq!(BACKUP_FILE_NAME, "tickets.db.gz");
    assert_eq!(BACKUP_EXTENSION, "db.gz");
}

#[test]
fn restore_checks() {
    assert!(check_gzip_magic(&[0x1f, 0x8b]).is_ok());
    match check_gzip_magic(&[0, 0]) {
        Err(e) => assert_eq!(e.message(), "File is not a valid gzip file."),
        Ok(_) => panic!("expected a refusal"),
    }
    assert!(check_sqlite_header(b"SQLite format 3\0and the pages").is_ok());
    assert!(check_sqlite_header(b"SQLite format 3\0").is_ok());
    match check_sqlite_header(b"SQLite format 3") {
        Err(e) => assert_eq!(e.message(), "File is not a valid SQLite database."),
        Ok(_) => panic!("expected a refusal"),
    }
    assert!(check_sqlite_header(b"SQLite format 4\0xxxx").is_err());
    assert!(check_integrity("ok").is_ok());
    match check_integrity("*** in database main ***") {
        Err(e) => assert_eq!(e.message(), "Database integrity test failed."),
        Ok(_) => panic!("expected a refusal"),
    }
    assert!(check_backup_source(true, false).is_ok());
    assert_eq!(check_backup_source(false, false).unwrap_err().message(), "Path doesn't exists.");
    assert_eq!(check_backup_source(true, true).unwrap_err().message(), "Path is not a file.");
}

#[test]
fn command_is_required() {
    let cli = Cli { database: None, command: None };
    match cli.into_command() {
        Err(e) => assert_eq!(e.message(), "Use a command first."),
        Ok(_) => panic!("expected a refusal"),
    }
    let cli = Cli { database: None, command: Some(Commands::List) };
    assert!(matches!(cli.into_command(), Ok(Commands::List)));
}

#[test]
fn default_config_has_no_goal() {
    assert_eq!(Config::default().goal, 0);
}
