//! The domain types of the download race: server names, fetched binaries,
//! and the one kind of error an operation can report.

use vstd::prelude::*;

verus! {

/// The identifying key of one download source. A failed operation's error
/// carries its key back, so a supervisor can retry the same logical
/// operation without external bookkeeping.
#[derive(Debug, Clone)]
pub struct ServerName(pub String);

impl View for ServerName {
    type V = Seq<char>;

    open spec fn view(&self) -> Seq<char> {
        self.0@
    }
}

/// A successfully fetched artifact, carrying the provenance of which
/// server produced it. Immutable once produced.
#[derive(Debug, Clone)]
pub struct Binary {
    /// The key of the operation that produced this value.
    pub from: ServerName,
}

/// The single kind of failure an operation can report: the server
/// disconnected. It carries the key of the failed attempt.
#[derive(Debug, Clone)]
pub enum ServerError {
    /// The named server abruptly disconnected before the download finished.
    Disconnected(ServerName),
}

impl ServerError {
    /// The key of the failed attempt, for retrying the same logical
    /// operation.
    pub fn server_name(&self) -> (r: &ServerName)
        ensures
            *r == self->0,
    {
        match self {
            ServerError::Disconnected(name) => name,
        }
    }
}

} // verus!
