//! The errors of the manager.

use vstd::prelude::*;

verus! {

/// Every way in which loading a configuration or running an operation fails.
#[derive(Debug)]
pub enum ManagerError {
    /// No configuration file at the given path.
    ConfigNotFound(String),
    /// The configuration file is not valid TOML of the expected shape; the
    /// parser's message.
    ConfigParse(String),
    /// The configuration parsed but breaks a rule; the rule's message.
    ConfigValidation(String),
    /// A file-system operation failed; its message.
    Io(String),
    /// The named profile is not in the configuration.
    ProfileNotFound(String),
}

/// An error as plain values.
pub enum ManagerErrorView {
    ConfigNotFound(Seq<char>),
    ConfigParse(Seq<char>),
    ConfigValidation(Seq<char>),
    Io(Seq<char>),
    ProfileNotFound(Seq<char>),
}

impl View for ManagerError {
    type V = ManagerErrorView;

    open spec fn view(&self) -> ManagerErrorView {
        match self {
            ManagerError::ConfigNotFound(p) => ManagerErrorView::ConfigNotFound(p@),
            ManagerError::ConfigParse(m) => ManagerErrorView::ConfigParse(m@),
            ManagerError::ConfigValidation(m) => ManagerErrorView::ConfigValidation(m@),
            ManagerError::Io(m) => ManagerErrorView::Io(m@),
            ManagerError::ProfileNotFound(n) => ManagerErrorView::ProfileNotFound(n@),
        }
    }
}

/// The message of an error.
pub open spec fn error_message(e: ManagerError) -> Seq<char> {
    match e {
        ManagerError::ConfigNotFound(p) => "Configuration file not found at: "@ + p@,
        ManagerError::ConfigParse(m) => "Failed to parse configuration file: "@ + m@,
        ManagerError::ConfigValidation(m) => "Invalid configuration: "@ + m@,
        ManagerError::Io(m) => "File I/O error: "@ + m@,
        ManagerError::ProfileNotFound(n) => "Profile not found in configuration: "@ + n@,
    }
}

impl ManagerError {
    /// The message of this error, as it is shown to the user.
    pub fn message(&self) -> (s: String)
        ensures
            s@ == error_message(*self),
    {
        let (prefix, detail) = match self {
            ManagerError::ConfigNotFound(p) => ("Configuration file not found at: ", p),
            ManagerError::ConfigParse(m) => ("Failed to parse configuration file: ", m),
            ManagerError::ConfigValidation(m) => ("Invalid configuration: ", m),
            ManagerError::Io(m) => ("File I/O error: ", m),
            ManagerError::ProfileNotFound(n) => ("Profile not found in configuration: ", n),
        };
        let mut s = prefix.to_owned();
        s.append(detail.as_str());
        s
    }
}

} // verus!
