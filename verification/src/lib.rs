//! Ticket and company bookkeeping: the data model, its text renderings, the CSV export,
//! the summary tables and the decisions taken by the command line.

pub mod text;
pub mod model;
pub mod records;
pub mod csv_export;
pub mod tables;
pub mod error;
pub mod answer;
pub mod cli;
pub mod config;
pub mod addition;
pub mod removal;
pub mod commands;
pub mod backup;
