//! The failures the command line reports, and their messages.

use vstd::prelude::*;

verus! {

/// A request that cannot be carried out.
#[derive(Debug)]
pub enum CommandError {
    /// No subcommand was given.
    NoCommand,
    /// A path given on the command line does not exist.
    PathNotFound,
    /// A path that should name a file names a directory.
    NotAFile,
    /// The company named for new tickets is not registered.
    CompanyNotInDatabase,
    /// The end of a range of tickets to remove lies before its start.
    RangeEndBeforeStart,
    /// A ticket of the range to remove does not exist.
    TicketNotFound,
    /// The database did not delete a ticket.
    TicketNotRemoved,
    /// The ticket to show does not exist.
    NoTicketWithId,
    /// The summary was asked of a database without tickets.
    EmptyDatabase,
    /// The company to remove does not exist.
    NoCompanyWithId,
    /// The database did not delete a company.
    CompanyNotRemoved,
    /// No company is registered.
    NoCompanies,
    /// A backup does not start with the gzip magic number.
    NotGzip,
    /// A decompressed backup does not start with the SQLite header.
    NotSqlite,
    /// SQLite's integrity check of a backup did not answer `ok`.
    IntegrityCheckFailed,
    /// A confirmation was answered with something else than yes or no; it holds the
    /// answer as it was compared.
    InvalidAnswer(String),
}

/// The message printed for each failure.
pub open spec fn error_message(e: CommandError) -> Seq<char> {
    match e {
        CommandError::NoCommand => "Use a command first."@,
        CommandError::PathNotFound => "Path doesn't exists."@,
        CommandError::NotAFile => "Path is not a file."@,
        CommandError::CompanyNotInDatabase => "That company is not in the database."@,
        CommandError::RangeEndBeforeStart => "`to` must be greater than `id`."@,
        CommandError::TicketNotFound => "Ticket with that ID doesn't exists."@,
        CommandError::TicketNotRemoved => "Unable to remove that ticket."@,
        CommandError::NoTicketWithId => "There are no ticket with that ID."@,
        CommandError::EmptyDatabase => "Database is empty."@,
        CommandError::NoCompanyWithId => "There is no company with that ID."@,
        CommandError::CompanyNotRemoved => "Unable to remove company."@,
        CommandError::NoCompanies => "There are no companies in the database."@,
        CommandError::NotGzip => "File is not a valid gzip file."@,
        CommandError::NotSqlite => "File is not a valid SQLite database."@,
        CommandError::IntegrityCheckFailed => "Database integrity test failed."@,
        CommandError::InvalidAnswer(a) => "Invalid answer: \""@ + a@ + "\", please use [y/n]."@,
    }
}

impl CommandError {
    /// The message printed for this failure.
    pub fn message(&self) -> (s: String)
        ensures
            s@ == error_message(*self),
    {
        match self {
            CommandError::NoCommand => String::from_str("Use a command first."),
            CommandError::PathNotFound => String::from_str("Path doesn't exists."),
            CommandError::NotAFile => String::from_str("Path is not a file."),
            CommandError::CompanyNotInDatabase => String::from_str(
                "That company is not in the database.",
            ),
            CommandError::RangeEndBeforeStart => String::from_str(
                "`to` must be greater than `id`.",
            ),
            CommandError::TicketNotFound => String::from_str("Ticket with that ID doesn't exists."),
            CommandError::TicketNotRemoved => String::from_str("Unable to remove that ticket."),
            CommandError::NoTicketWithId => String::from_str("There are no ticket with that ID."),
            CommandError::EmptyDatabase => String::from_str("Database is empty."),
            CommandError::NoCompanyWithId => String::from_str("There is no company with that ID."),
            CommandError::CompanyNotRemoved => String::from_str("Unable to remove company."),
            CommandError::NoCompanies => String::from_str(
                "There are no companies in the database.",
            ),
            CommandError::NotGzip => String::from_str("File is not a valid gzip file."),
            CommandError::NotSqlite => String::from_str("File is not a valid SQLite database."),
            CommandError::IntegrityCheckFailed => String::from_str(
                "Database integrity test failed.",
            ),
            CommandError::InvalidAnswer(a) => {
                let mut s = String::from_str("Invalid answer: \"");
                s.append(a.as_str());
                s.append("\", please use [y/n].");
                s
            },
        }
    }
}

} // verus!
