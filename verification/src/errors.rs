//! What can go wrong in an invocation and what follows from it, and the
//! errors and outcomes of the control plane.

use vstd::prelude::*;
use vstd::string::StringExecFns;

verus! {

/// What can go wrong in an invocation.
#[derive(Debug, Clone, Copy, PartialEq, Eq, Structural)]
pub enum Failure {
    /// The general configuration is missing, unreadable or points nowhere.
    ConfigUnavailable,
    /// The record of a profile cannot be read.
    ProfileCorrupt,
    /// The target directory is missing and the user gave up on it.
    TargetUnavailable,
    /// A file with the name of the archive exists already.
    ArchiveCollision,
    /// One file could not be opened, read or stored.
    PerFileError,
    /// The archive could not be written or closed.
    FatalArchiveError,
    /// The scheduler of the operating system refused.
    SchedulerError,
    /// The schedule has no instant within 365 days.
    NoMatchInWindow,
}

/// What follows from a failure. Every failure is reported as well.
#[derive(Debug, Clone, Copy, PartialEq, Eq, Structural)]
pub enum Reaction {
    /// The process ends with a status other than zero.
    Exit,
    /// The profile is passed over.
    SkipProfile,
    /// No archive is produced; the profile is still moved on, written back and
    /// registered.
    SkipArchive,
    /// The unfinished archive is deleted; the profile is still moved on,
    /// written back and registered.
    DropArchive,
    /// The file is left out of the archive; the other files are stored.
    SkipFile,
    /// The invocation goes on.
    Continue,
    /// `next_backup` moves on by a year.
    Fallback,
}

/// What follows from a failure. A profile that cannot be read ends the
/// process only where the profiles are loaded strictly.
pub open spec fn reaction_to(failure: Failure, strict: bool) -> Reaction {
    match failure {
        Failure::ConfigUnavailable => Reaction::Exit,
        Failure::ProfileCorrupt => if strict {
            Reaction::Exit
        } else {
            Reaction::SkipProfile
        },
        Failure::TargetUnavailable => Reaction::SkipArchive,
        Failure::ArchiveCollision => Reaction::SkipArchive,
        Failure::PerFileError => Reaction::SkipFile,
        Failure::FatalArchiveError => Reaction::DropArchive,
        Failure::SchedulerError => Reaction::Continue,
        Failure::NoMatchInWindow => Reaction::Fallback,
    }
}

impl Failure {
    /// What follows from the failure.
    pub fn reaction(&self, strict: bool) -> (r: Reaction)
        ensures
            r == reaction_to(*self, strict),
    {
        match self {
            Failure::ConfigUnavailable => Reaction::Exit,
            Failure::ProfileCorrupt => if strict {
                Reaction::Exit
            } else {
                Reaction::SkipProfile
            },
            Failure::TargetUnavailable | Failure::ArchiveCollision => Reaction::SkipArchive,
            Failure::PerFileError => Reaction::SkipFile,
            Failure::FatalArchiveError => Reaction::DropArchive,
            Failure::SchedulerError => Reaction::Continue,
            Failure::NoMatchInWindow => Reaction::Fallback,
        }
    }
}

/// What went wrong, in kind.
#[derive(Debug, Clone, Copy, PartialEq, Eq, Structural)]
pub enum ErrorKind {
    NotFound,
    Internal,
    Unkown,
}

/// What went wrong.
#[derive(Debug)]
pub struct Error {
    pub kind: ErrorKind,
    pub msg: String,
}

/// The outcome of a request.
#[derive(Debug, Clone, Copy, PartialEq, Eq, Structural)]
pub enum Status {
    Success,
    Created,
    NoContent,
    BadRequest,
    NotFound,
    Conflict,
    InternalServerError,
}

/// The name of a kind of error.
pub open spec fn kind_name(kind: ErrorKind) -> Seq<char> {
    match kind {
        ErrorKind::NotFound => "NotFound"@,
        ErrorKind::Internal => "Internal"@,
        ErrorKind::Unkown => "Unkown"@,
    }
}

/// The number of a status.
pub open spec fn status_code(status: Status) -> int {
    match status {
        Status::Success => 200,
        Status::Created => 201,
        Status::NoContent => 204,
        Status::BadRequest => 400,
        Status::NotFound => 404,
        Status::Conflict => 409,
        Status::InternalServerError => 500,
    }
}

impl Status {
    /// The number of the status.
    pub fn code(&self) -> (r: u16)
        ensures
            r == status_code(*self),
    {
        match self {
            Status::Success => 200,
            Status::Created => 201,
            Status::NoContent => 204,
            Status::BadRequest => 400,
            Status::NotFound => 404,
            Status::Conflict => 409,
            Status::InternalServerError => 500,
        }
    }
}

impl ErrorKind {
    /// The status that reports an error of this kind.
    pub fn status(&self) -> (r: Status)
        ensures
            r == (match *self {
                ErrorKind::NotFound => Status::NotFound,
                _ => Status::InternalServerError,
            }),
    {
        match self {
            ErrorKind::NotFound => Status::NotFound,
            _ => Status::InternalServerError,
        }
    }
}

impl Error {
    /// The error as text: the kind, then the message in quotes.
    pub fn describe(&self) -> (r: String)
        ensures
            r@ == kind_name(self.kind) + ": \""@ + self.msg@ + "\""@,
    {
        let mut out = String::from_str(
            match self.kind {
                ErrorKind::NotFound => "NotFound",
                ErrorKind::Internal => "Internal",
                ErrorKind::Unkown => "Unkown",
            },
        );
        out.append(": \"");
        out.append(self.msg.as_str());
        out.append("\"");
        out
    }
}

} // verus!
