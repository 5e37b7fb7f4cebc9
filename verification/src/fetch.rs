//! Classification of fetch responses into pipeline values.
//!
//! The HTTP calls themselves live outside the library; what comes back is
//! reduced to plain values (a status code, and the parsed body when there
//! was one) and classified here.
use vstd::prelude::*;
use crate::model::{FetchOutcome, Instance, Moderation};

verus! {

/// What one moderation-endpoint request came back as: an HTTP response with
/// its status and, when the body was a parseable moderation array, the
/// entries; or a transport-level failure such as a timeout or a connection
/// error.
#[derive(Debug)]
pub enum ModerationResponse {
    Http { status: u16, body: Option<Vec<Moderation>> },
    TransportFailure,
}

/// How the directory call ended, beside the roster it produced.
#[derive(Clone, Copy, Debug, PartialEq, Eq, Structural)]
pub enum DirectoryStatus {
    /// HTTP 200 with a parseable envelope: the roster was listed.
    Listed,
    /// HTTP 401: the API key was rejected.
    CredentialsRejected,
    /// Any other status, or an unparseable envelope.
    DirectoryError,
}

/// Classifies one instance's moderation fetch. Only HTTP 200 with a
/// parseable body marks the list public and contributes entries; every
/// other outcome — absent endpoint, bad status, unparseable body, transport
/// failure — degrades to "no contribution", so a single unreachable
/// instance never blocks aggregation of the rest.
pub fn moderation_outcome(name: String, resp: ModerationResponse) -> (o: FetchOutcome)
    ensures
        o.source == name,
        match resp {
            ModerationResponse::Http { status, body } => match body {
                Some(entries) => if status == 200 {
                    o.is_public && o.entries == entries
                } else {
                    !o.is_public && o.entries@.len() == 0
                },
                None => !o.is_public && o.entries@.len() == 0,
            },
            ModerationResponse::TransportFailure => !o.is_public && o.entries@.len() == 0,
        },
{
    match resp {
        ModerationResponse::Http { status, body } => {
            if status == 200 {
                match body {
                    Some(entries) => FetchOutcome { source: name, is_public: true, entries },
                    None => FetchOutcome { source: name, is_public: false, entries: Vec::new() },
                }
            } else {
                FetchOutcome { source: name, is_public: false, entries: Vec::new() }
            }
        },
        ModerationResponse::TransportFailure => FetchOutcome {
            source: name,
            is_public: false,
            entries: Vec::new(),
        },
    }
}

/// Classifies the directory call. Only HTTP 200 with a parseable envelope
/// yields the listed roster; HTTP 401 signals rejected credentials; any
/// other status, or an unparseable envelope, is a directory error. Failures
/// yield an empty roster, so the run still produces an (empty) graph.
pub fn directory_instances(status: u16, body: Option<Vec<Instance>>) -> (r: (
    Vec<Instance>,
    DirectoryStatus,
))
    ensures
        status == 200 ==> match body {
            Some(list) => r.0 == list && r.1 == DirectoryStatus::Listed,
            None => r.0@.len() == 0 && r.1 == DirectoryStatus::DirectoryError,
        },
        status == 401 ==> r.0@.len() == 0 && r.1 == DirectoryStatus::CredentialsRejected,
        status != 200 && status != 401 ==> r.0@.len() == 0 && r.1
            == DirectoryStatus::DirectoryError,
{
    if status == 200 {
        match body {
            Some(list) => (list, DirectoryStatus::Listed),
            None => (Vec::new(), DirectoryStatus::DirectoryError),
        }
    } else if status == 401 {
        (Vec::new(), DirectoryStatus::CredentialsRejected)
    } else {
        (Vec::new(), DirectoryStatus::DirectoryError)
    }
}

} // verus!
