//! Status of a monitored service, the kind of probe it runs, user roles,
//! and the severity levels of operator notifications.

use vstd::prelude::*;

verus! {

/// Result status of one probe, also the persisted state of a service.
///
/// `Failed` marks an internal or OS-level error, distinct from a negative
/// probe result (`Down`).
#[derive(Debug, Clone, Copy, PartialEq, Eq, Structural)]
pub enum Status {
    Pending,
    Up,
    Down,
    Failed,
}

impl Status {
    /// Integer code used in the wire format and in the database:
    /// Pending 0, Up 1, Down 2, Failed 3.
    pub open spec fn code_spec(self) -> u8 {
        match self {
            Status::Pending => 0,
            Status::Up => 1,
            Status::Down => 2,
            Status::Failed => 3,
        }
    }

    /// Integer code of this status.
    #[verifier::when_used_as_spec(code_spec)]
    pub fn code(self) -> (r: u8)
        ensures
            r == self.code_spec(),
    {
        match self {
            Status::Pending => 0,
            Status::Up => 1,
            Status::Down => 2,
            Status::Failed => 3,
        }
    }

    /// Status carried by an integer code, if the code is one of 0 to 3.
    pub open spec fn from_code_spec(code: u8) -> Option<Status> {
        if code == 0 {
            Some(Status::Pending)
        } else if code == 1 {
            Some(Status::Up)
        } else if code == 2 {
            Some(Status::Down)
        } else if code == 3 {
            Some(Status::Failed)
        } else {
            None
        }
    }

    /// Decodes an integer code back into a status.
    pub fn from_code(code: u8) -> (r: Option<Status>)
        ensures
            r == Status::from_code_spec(code),
            r is Some <==> code <= 3,
            r is Some ==> r.unwrap().code_spec() == code,
    {
        if code == 0 {
            Some(Status::Pending)
        } else if code == 1 {
            Some(Status::Up)
        } else if code == 2 {
            Some(Status::Down)
        } else if code == 3 {
            Some(Status::Failed)
        } else {
            None
        }
    }

    /// True of the statuses that count as incidents: worse than `Up`.
    pub open spec fn is_incident_spec(self) -> bool {
        self.code_spec() > 1
    }

    /// True when this status counts as an incident (`Down` or `Failed`).
    #[verifier::when_used_as_spec(is_incident_spec)]
    pub fn is_incident(self) -> (r: bool)
        ensures
            r == self.is_incident_spec(),
    {
        match self {
            Status::Down | Status::Failed => true,
            _ => false,
        }
    }
}

/// Kind of probe a service runs.
#[derive(Debug, Clone, Copy, PartialEq, Eq, Structural)]
pub enum ServiceType {
    Ping,
    Http,
}

/// Kind of monitored entity; mirrors `ServiceType` for the entity table.
#[derive(Debug, Clone, Copy, PartialEq, Eq, Structural)]
pub enum MonitorType {
    Ping,
    Http,
}

/// Role of an operator account.
#[derive(Debug, Clone, Copy, PartialEq, Eq, Structural)]
pub enum UserRole {
    Admin,
    Viewer,
}

/// Severity of an operator notification.
#[derive(Debug, Clone, Copy, PartialEq, Eq, Structural)]
pub enum Level {
    Success,
    Error,
    Info,
    Warning,
}

impl Level {
    /// Lowercase name used in the wire format.
    pub open spec fn name_spec(self) -> Seq<char> {
        match self {
            Level::Success => "success"@,
            Level::Error => "error"@,
            Level::Info => "info"@,
            Level::Warning => "warning"@,
        }
    }

    /// Lowercase name of this level.
    pub fn name(self) -> (r: &'static str)
        ensures
            r@ == self.name_spec(),
    {
        match self {
            Level::Success => "success",
            Level::Error => "error",
            Level::Info => "info",
            Level::Warning => "warning",
        }
    }
}

} // verus!
