use vstd::prelude::*;

verus! {

/// The error that SQLite or rusqlite reports; carried, never inspected here.
#[verifier::external_type_specification]
#[verifier::external_body]
pub struct ExSqlError(rusqlite::Error);

/// An error of the command-line parser; carried, never inspected here.
#[verifier::external_type_specification]
#[verifier::external_body]
pub struct ExCliError(pico_args::Error);

/// An operating-system error; carried, never inspected here.
#[verifier::external_type_specification]
#[verifier::external_body]
pub struct ExIoError(std::io::Error);

/// Everything that can go wrong in the tool.
#[allow(inconsistent_fields)]
#[derive(Debug)]
pub enum CxdError {
    /// No writable place was found for the store file.
    CachePath,
    /// The command line could not be parsed.
    CliParse(pico_args::Error),
    /// Two operations were asked for at once.
    IncompatibleOperations(crate::cli::Op, crate::cli::Op),
    /// Two options that exclude each other were both given.
    OptionsIncompatible(String, String),
    /// An option was given without the operation it belongs to.
    OptionRequires { name: String, requires: String },
    /// An operation got the wrong number of arguments.
    WrongArgumentCount { name: String, requires: usize, found: usize },
    /// An argument had the wrong shape.
    ArgumentParse { arg: String, reason: String },
    /// A command of that name is already stored.
    CommandExists(String),
    /// No command of that name is stored.
    CommandNotFound(String),
    /// Standard input could not be read.
    Stdin,
    /// An I/O error.
    Io(std::io::Error),
    /// The named command could not be launched.
    Exec(String, std::io::Error),
    /// The backing store failed.
    Sql(rusqlite::Error),
    /// A record that the store returned lacked a field, or held one of the
    /// wrong kind; `column` is the position of the first such field.
    RowDecode { column: usize },
}

} // verus!
