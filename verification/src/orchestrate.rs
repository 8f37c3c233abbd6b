//! The per-document decisions of the rename orchestrator, and the run's
//! configuration rules. The outer loop -- enumeration, the network call and
//! the rename itself -- lives with the I/O around the library; everything it
//! decides is here.

use vstd::prelude::*;

use crate::client::{interpret_response, sp_api_error, sp_extract_text};
use crate::error::IntelError;
use crate::extract::{extract_intelligence, repair_outcome, sp_stripped};
use crate::intel::{sp_decode_document, DocumentIntelligence};
use crate::paths::{sp_with_file_name, with_file_name};

verus! {

/// What the orchestrator does with one document once its record is decoded.
#[derive(Debug, Clone, PartialEq)]
pub enum RenameAction {
    /// The model suggested no filename: a normal outcome, not a failure.
    NoAction,
    /// Dry-run mode: the intended target is only reported.
    Report { target: String },
    /// Live mode: the file is renamed to the target.
    Rename { target: String },
}

/// The rename target for one suggestion: the suggested name with the `.pdf`
/// extension, in the candidate's own directory.
pub open spec fn sp_rename_target(path: Seq<char>, filename: Seq<char>) -> Seq<char> {
    sp_with_file_name(path, filename + ".pdf"@)
}

/// Decides the rename action for one decoded record. A record without a
/// filename never yields a rename attempt; dry-run mode never yields one
/// either, only a report.
pub fn plan_rename(path: &str, di: &DocumentIntelligence, dry_run: bool) -> (r: RenameAction)
    ensures
        match di@.filename {
            None => r == RenameAction::NoAction,
            Some(f) => if dry_run {
                r matches RenameAction::Report { target } && target@ == sp_rename_target(path@, f)
            } else {
                r matches RenameAction::Rename { target } && target@ == sp_rename_target(path@, f)
            },
        },
{
    match &di.filename {
        None => RenameAction::NoAction,
        Some(name) => {
            let suggestion = name.as_str().to_owned().concat(".pdf");
            let target = with_file_name(path, suggestion.as_str());
            if dry_run {
                RenameAction::Report { target }
            } else {
                RenameAction::Rename { target }
            }
        },
    }
}

/// The whole decision for one document, given the endpoint's status and
/// body: interpret the response, extract the record from the answer text,
/// and plan the rename. Every error is scoped to this document; the caller
/// reports it and proceeds to the next candidate.
pub fn decide_document(status: u16, body: &str, path: &str, dry_run: bool) -> (r: Result<
    RenameAction,
    IntelError,
>)
    ensures
        (match r {
            Ok(action) => 200 <= status < 300 && (match sp_extract_text(body@) {
                Some(t) => (match repair_outcome(sp_stripped(t)) {
                    Some(rep) => (match sp_decode_document(rep) {
                        Ok(di) => (match di.filename {
                            None => action == RenameAction::NoAction,
                            Some(f) => if dry_run {
                                action matches RenameAction::Report { target } && target@
                                    == sp_rename_target(path@, f)
                            } else {
                                action matches RenameAction::Rename { target } && target@
                                    == sp_rename_target(path@, f)
                            },
                        }),
                        Err(_) => false,
                    }),
                    None => false,
                }),
                None => false,
            }),
            Err(e) => (match e {
                IntelError::Api { error_type, message } => !(200 <= status < 300) && sp_api_error(
                    body@,
                ) == Some((error_type@, message@)),
                IntelError::Transport { status: st, raw_body } => !(200 <= status < 300) && st
                    == status && sp_api_error(body@) is None && raw_body@ == body@,
                IntelError::MalformedResponse { raw_body } => 200 <= status < 300
                    && sp_extract_text(body@) is None && raw_body@ == body@,
                IntelError::JsonRepair { original } => 200 <= status < 300 && (match
                    sp_extract_text(body@) {
                    Some(t) => original@ == t && repair_outcome(sp_stripped(t)) is None,
                    None => false,
                }),
                IntelError::JsonDecode { original, repaired } => 200 <= status < 300 && (match
                    sp_extract_text(body@) {
                    Some(t) => original@ == t && (match repair_outcome(sp_stripped(t)) {
                        Some(rep) => repaired@ == rep && sp_decode_document(rep) is Err,
                        None => false,
                    }),
                    None => false,
                }),
                _ => false,
            }),
        }),
{
    let text = match interpret_response(status, body) {
        Ok(t) => t,
        Err(e) => {
            return Err(e);
        },
    };
    let di = match extract_intelligence(text.as_str()) {
        Ok(d) => d,
        Err(e) => {
            return Err(e);
        },
    };
    Ok(plan_rename(path, &di, dry_run))
}

/// The glob pattern for the run: the command-line value where one was given,
/// else a non-empty environment value; the lack of both is a fatal
/// configuration error.
pub fn resolve_glob_pattern(cli: &str, env_value: Option<String>) -> (r: Result<
    String,
    IntelError,
>)
    ensures
        match r {
            Ok(p) => (cli@.len() > 0 && p@ == cli@) || (cli@.len() == 0 && (env_value matches Some(
                v,
            ) && v@.len() > 0 && p@ == v@)),
            Err(e) => cli@.len() == 0 && (match env_value {
                Some(v) => v@.len() == 0,
                None => true,
            }) && (e matches IntelError::Config { message: _ }),
        },
{
    if !cli.is_empty() {
        return Ok(cli.to_owned());
    }
    match env_value {
        Some(v) => {
            if v.as_str().is_empty() {
                Err(
                    IntelError::Config {
                        message: String::from_str(
                            "the glob pattern is blank on the command line and in the environment",
                        ),
                    },
                )
            } else {
                Ok(v)
            }
        },
        None => Err(
            IntelError::Config {
                message: String::from_str(
                    "the glob pattern is blank on the command line and not set in the environment",
                ),
            },
        ),
    }
}

/// The API credential for the run; its absence is a fatal configuration
/// error.
pub fn require_api_key(env_value: Option<String>) -> (r: Result<String, IntelError>)
    ensures
        match r {
            Ok(k) => env_value matches Some(v) && k@ == v@,
            Err(e) => env_value is None && (e matches IntelError::Config { message: _ }),
        },
{
    match env_value {
        Some(v) => Ok(v),
        None => Err(
            IntelError::Config {
                message: String::from_str("the API key environment variable is not set"),
            },
        ),
    }
}

} // verus!
