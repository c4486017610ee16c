//! What can go wrong, told apart by whom it concerns.

use vstd::prelude::*;

verus! {

/// A condition that the user can mend: it belongs to ordinary use.
#[derive(Debug)]
pub enum UserError {
    DaemonNotFound(String),
    RequiresRoot,
    InvalidArgument(String),
}

/// A fault of the environment or of the program.
#[derive(Debug)]
pub enum SystemError {
    Launchctl(String),
}

/// Either kind of error.
#[derive(Debug)]
pub enum AngelError {
    User(UserError),
    System(SystemError),
}

impl UserError {
    /// The text that is shown for the error.
    pub open spec fn text(self) -> Seq<char> {
        match self {
            UserError::DaemonNotFound(name) => "Daemon not found: "@ + name@,
            UserError::RequiresRoot => "Sudo is required to perform this action"@,
            UserError::InvalidArgument(what) => "Invalid argument: "@ + what@,
        }
    }

    pub fn message(&self) -> (s: String)
        ensures
            s@ == self.text(),
    {
        match self {
            UserError::DaemonNotFound(name) => {
                let mut s = String::from_str("Daemon not found: ");
                s.append(name.as_str());
                s
            },
            UserError::RequiresRoot => String::from_str("Sudo is required to perform this action"),
            UserError::InvalidArgument(what) => {
                let mut s = String::from_str("Invalid argument: ");
                s.append(what.as_str());
                s
            },
        }
    }
}

impl SystemError {
    /// The text that is shown for the error.
    pub open spec fn text(self) -> Seq<char> {
        match self {
            SystemError::Launchctl(what) => "Launchctl error: "@ + what@,
        }
    }

    pub fn message(&self) -> (s: String)
        ensures
            s@ == self.text(),
    {
        match self {
            SystemError::Launchctl(what) => {
                let mut s = String::from_str("Launchctl error: ");
                s.append(what.as_str());
                s
            },
        }
    }
}

impl AngelError {
    /// The text that is shown for the error: that of the error inside.
    pub open spec fn text(self) -> Seq<char> {
        match self {
            AngelError::User(e) => e.text(),
            AngelError::System(e) => e.text(),
        }
    }

    pub fn message(&self) -> (s: String)
        ensures
            s@ == self.text(),
    {
        match self {
            AngelError::User(e) => e.message(),
            AngelError::System(e) => e.message(),
        }
    }

    /// Whether the error is one that the user can mend.
    pub fn is_user(&self) -> (b: bool)
        ensures
            b == (self is User),
    {
        match self {
            AngelError::User(_) => true,
            AngelError::System(_) => false,
        }
    }
}

impl From<UserError> for AngelError {
    fn from(e: UserError) -> (r: AngelError) {
        AngelError::User(e)
    }
}

impl vstd::std_specs::convert::FromSpecImpl<UserError> for AngelError {
    open spec fn obeys_from_spec() -> bool {
        true
    }

    open spec fn from_spec(e: UserError) -> AngelError {
        AngelError::User(e)
    }
}

impl From<SystemError> for AngelError {
    fn from(e: SystemError) -> (r: AngelError) {
        AngelError::System(e)
    }
}

impl vstd::std_specs::convert::FromSpecImpl<SystemError> for AngelError {
    open spec fn obeys_from_spec() -> bool {
        true
    }

    open spec fn from_spec(e: SystemError) -> AngelError {
        AngelError::System(e)
    }
}

} // verus!
