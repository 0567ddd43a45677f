//! Validation of the phone numbers of a contact list.
//!
//! Rows are validated either locally against the numbering plan of the United
//! States, or remotely by a lookup provider that is queried in paced windows
//! of at most ten concurrent requests. This crate holds the rules; reading
//! and writing files, the network and the clock are left to the caller.

use vstd::prelude::*;
use vstd::string::*;

pub mod batch_window;
pub mod contacts;
pub mod dispatch_laws;
pub mod dispatcher;
pub mod lookup_client;
pub mod offline_validation;
pub mod online_validation;
pub mod percent_encoding;
pub mod progress;
pub mod rate_limiter;

verus! {

/// What a row is, as mathematics: three texts, the last of which may be unset.
pub struct RowView {
    pub internal_id: Seq<char>,
    pub phone: Seq<char>,
    pub phone_type: Option<Seq<char>>,
}

/// One contact record of the input table.
#[derive(Debug, PartialEq, Eq)]
pub struct CsvRow {
    pub internal_id: String,
    pub phone: String,
    pub phone_type: Option<String>,
}

/// The text held by an optional string.
pub open spec fn text_of(s: Option<String>) -> Option<Seq<char>> {
    match s {
        Some(t) => Some(t@),
        None => None,
    }
}

impl View for CsvRow {
    type V = RowView;

    open spec fn view(&self) -> RowView {
        RowView {
            internal_id: self.internal_id@,
            phone: self.phone@,
            phone_type: text_of(self.phone_type),
        }
    }
}

/// A copy of an optional string.
pub fn clone_text(s: &Option<String>) -> (r: Option<String>)
    ensures
        r == *s,
{
    match s {
        Some(t) => Some(t.clone()),
        None => None,
    }
}

impl Clone for CsvRow {
    fn clone(&self) -> (r: Self)
        ensures
            r == *self,
    {
        CsvRow {
            internal_id: self.internal_id.clone(),
            phone: self.phone.clone(),
            phone_type: clone_text(&self.phone_type),
        }
    }
}

/// The views of a list of rows, in order.
pub open spec fn rows_view(rows: Seq<CsvRow>) -> Seq<RowView> {
    rows.map_values(|r: CsvRow| r@)
}

/// Where the numbers are validated.
#[derive(Debug, Clone, Copy, PartialEq, Eq, Structural)]
pub enum Mode {
    Online,
    Offline,
}

/// Why a run cannot begin.
#[derive(Debug, Clone, Copy, PartialEq, Eq, Structural)]
pub enum ConfigError {
    MissingInputPath,
    MissingOutputPath,
    MissingApiKey,
}

impl ConfigError {
    /// The diagnostic shown to the operator.
    pub fn message(&self) -> (r: &'static str)
        ensures
            r@ == match *self {
                ConfigError::MissingInputPath => "Missing CSV file path"@,
                ConfigError::MissingOutputPath => "Missing output path"@,
                ConfigError::MissingApiKey => "Missing PHONE_VALIDATOR_API_KEY in env."@,
            },
    {
        match self {
            ConfigError::MissingInputPath => "Missing CSV file path",
            ConfigError::MissingOutputPath => "Missing output path",
            ConfigError::MissingApiKey => "Missing PHONE_VALIDATOR_API_KEY in env.",
        }
    }
}

/// What the command line selects.
#[derive(Debug)]
pub struct Parameters {
    pub input_path: String,
    pub output_path: String,
    pub mode: Mode,
}

/// The mode that a command line selects: online where its fourth word is
/// exactly `--online`, offline otherwise.
pub open spec fn mode_of(args: Seq<String>) -> Mode {
    if args.len() > 3 && args[3]@ == "--online"@ {
        Mode::Online
    } else {
        Mode::Offline
    }
}

impl Parameters {
    /// Reads the parameters from the words of a command line, the first of
    /// which is the program's own name.
    pub fn get(args: &Vec<String>) -> (r: Result<Parameters, ConfigError>)
        ensures
            args@.len() < 2 <==> r == Err::<Parameters, ConfigError>(ConfigError::MissingInputPath),
            args@.len() == 2 <==> r == Err::<Parameters, ConfigError>(
                ConfigError::MissingOutputPath,
            ),
            args@.len() > 2 <==> r is Ok,
            r matches Ok(p) ==> p.input_path@ == args@[1]@ && p.output_path@ == args@[2]@ && p.mode
                == mode_of(args@),
    {
        if args.len() < 2 {
            return Err(ConfigError::MissingInputPath);
        }
        if args.len() < 3 {
            return Err(ConfigError::MissingOutputPath);
        }
        let mode = Self::get_mode(args);
        Ok(Parameters { input_path: args[1].clone(), output_path: args[2].clone(), mode })
    }

    /// The mode that the command line selects.
    pub fn get_mode(args: &Vec<String>) -> (r: Mode)
        ensures
            r == mode_of(args@),
    {
        if args.len() > 3 {
            let flag = String::from_str("--online");
            if args[3] == flag {
                return Mode::Online;
            }
        }
        Mode::Offline
    }
}

/// The provider's key, or the reason to stop where none was supplied.
pub fn require_api_key(value: Option<String>) -> (r: Result<String, ConfigError>)
    ensures
        r == match value {
            Some(key) => Ok::<String, ConfigError>(key),
            None => Err::<String, ConfigError>(ConfigError::MissingApiKey),
        },
{
    match value {
        Some(key) => Ok(key),
        None => Err(ConfigError::MissingApiKey),
    }
}

} // verus!
