//! What can go wrong between the driver and the board.

use vstd::prelude::*;
use vstd::string::StringExecFns;

verus! {

/// A failure of the link, of a command, of an argument or of a reply.
#[derive(Debug, Clone, PartialEq, Eq)]
pub enum DeviceError {
    /// The board cannot be reached.
    ConnectionError(String),
    /// The command cannot be sent as it is, or the board did not confirm it.
    CommandError { command: String, message: String },
    /// An argument lies outside the range that the command documents.
    InvalidValue { parameter: String, value: String },
    /// The board's reply does not have the shape that the command calls for.
    InvalidResponse(String),
}

/// The mathematical content of a [`DeviceError`].
pub enum Fault {
    Connection(Seq<char>),
    Command { command: Seq<char>, message: Seq<char> },
    Value { parameter: Seq<char>, value: Seq<char> },
    Response(Seq<char>),
}

impl View for DeviceError {
    type V = Fault;

    open spec fn view(&self) -> Fault {
        match self {
            DeviceError::ConnectionError(m) => Fault::Connection(m@),
            DeviceError::CommandError { command, message } => Fault::Command {
                command: command@,
                message: message@,
            },
            DeviceError::InvalidValue { parameter, value } => Fault::Value {
                parameter: parameter@,
                value: value@,
            },
            DeviceError::InvalidResponse(m) => Fault::Response(m@),
        }
    }
}

/// The content of a result whose error is a [`DeviceError`].
pub open spec fn outcome<T: View>(r: Result<T, DeviceError>) -> Result<T::V, Fault> {
    match r {
        Ok(t) => Ok(t@),
        Err(e) => Err(e@),
    }
}

/// The content of a result that carries a plain value.
pub open spec fn plain_outcome<T>(r: Result<T, DeviceError>) -> Result<T, Fault> {
    match r {
        Ok(t) => Ok(t),
        Err(e) => Err(e@),
    }
}

impl Fault {
    /// The sentence that reports the fault to a person.
    pub open spec fn sentence(self) -> Seq<char> {
        match self {
            Fault::Connection(m) => "connection error: "@ + m,
            Fault::Command { command, message } => "command '"@ + command + "' failed: "@
                + message,
            Fault::Value { parameter, value } => "invalid value for parameter "@ + parameter
                + ": "@ + value,
            Fault::Response(m) => "invalid response: "@ + m,
        }
    }
}

impl DeviceError {
    /// The sentence that reports the error to a person: the command text and
    /// what went wrong with it, or the parameter's name and the offending
    /// value.
    pub fn describe(&self) -> (s: String)
        ensures
            s@ == self@.sentence(),
    {
        match self {
            DeviceError::ConnectionError(m) => {
                let mut s = String::from_str("connection error: ");
                s.append(m.as_str());
                s
            },
            DeviceError::CommandError { command, message } => {
                let mut s = String::from_str("command '");
                s.append(command.as_str());
                s.append("' failed: ");
                s.append(message.as_str());
                s
            },
            DeviceError::InvalidValue { parameter, value } => {
                let mut s = String::from_str("invalid value for parameter ");
                s.append(parameter.as_str());
                s.append(": ");
                s.append(value.as_str());
                s
            },
            DeviceError::InvalidResponse(m) => {
                let mut s = String::from_str("invalid response: ");
                s.append(m.as_str());
                s
            },
        }
    }
}

} // verus!
