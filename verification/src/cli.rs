//! The command line: the requests a user can make.

use vstd::prelude::*;

use crate::error::CommandError;

verus! {

/// A file system path, as given on the command line.
#[verifier::external_type_specification]
#[verifier::external_body]
pub struct ExPathBuf(std::path::PathBuf);

/// The parsed command line.
pub struct Cli {
    /// The database's path, when it is not the default one.
    pub database: Option<std::path::PathBuf>,
    pub command: Option<Commands>,
}

/// The subcommands.
pub enum Commands {
    /// Add `times` tickets of `amount` to the company named `company_name`.
    Add { amount: u16, company_name: String, times: usize },
    /// Remove the ticket `id`, or every ticket from `id` to `to`.
    Remove { id: u16, to: Option<u16> },
    /// Show the ticket `id`.
    Show { id: u16 },
    /// List the tickets.
    List,
    /// Summarize the tickets; `detailed` adds the counts per amount and company.
    Summary { detailed: bool },
    /// Manage the companies.
    Companies(CompaniesArgs),
    /// Export the tickets as CSV, to `path` or to the standard output.
    Csv { path: Option<std::path::PathBuf> },
    /// Delete the database.
    Drop,
    /// Write a compressed copy of the database to `output`.
    Backup { output: std::path::PathBuf },
    /// Replace the database by the backup `input`.
    Restore { input: std::path::PathBuf },
}

/// The arguments of the `companies` subcommand.
pub struct CompaniesArgs {
    pub subcmd: CompaniesCommands,
}

/// The subcommands of `companies`.
#[derive(Clone)]
pub enum CompaniesCommands {
    /// Register a company named `name`.
    Add { name: String },
    /// List the companies.
    List,
    /// Remove the company `id`.
    Remove { id: u8 },
}

impl Cli {
    /// The subcommand to run; a command line without one is refused.
    pub fn into_command(self) -> (r: Result<Commands, CommandError>)
        ensures
            self.command is None <==> r is Err,
            r matches Err(e) ==> e is NoCommand,
            r matches Ok(c) ==> self.command == Some(c),
    {
        match self.command {
            Some(c) => Ok(c),
            None => Err(CommandError::NoCommand),
        }
    }
}

} // verus!
