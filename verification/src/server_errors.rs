//! The errors of serving an application and of getting its TCP listener. An I/O error is held by
//! its message.

use vstd::prelude::*;
use crate::text::push_str;

verus! {

/// An error that can occur when trying to get a TCP listener.
#[derive(Debug, Clone, PartialEq, Eq)]
pub enum GetTcpListenerError {
    /// An error occurred while trying to get a listener from `listenfd`.
    ListenFd(String),
    /// An error occurred while trying to set the TCP listener to non-blocking mode.
    SetNonblocking(String),
    /// An error occurred while trying to build a TCP listener from a standard listener.
    FromStd(String),
    /// An error occurred while trying to bind to a local address.
    Bind(String),
}

/// The message of a TCP listener error.
pub open spec fn listener_error_message(e: GetTcpListenerError) -> Seq<char> {
    match e {
        GetTcpListenerError::ListenFd(m) => "failed to get a listener from `listenfd`: "@ + m@,
        GetTcpListenerError::SetNonblocking(m) =>
            "failed to set the TCP listener to non-blocking mode: "@ + m@,
        GetTcpListenerError::FromStd(m) =>
            "failed to build a TCP listener from a standard listener: "@ + m@,
        GetTcpListenerError::Bind(m) => "failed to bind to a local address: "@ + m@,
    }
}

/// The message prefix, then the detail.
fn prefixed(prefix: &str, detail: &String) -> (res: String)
    ensures
        res@ == prefix@ + detail@,
{
    let mut res = String::from_str(prefix);
    push_str(&mut res, detail.as_str());
    res
}

impl GetTcpListenerError {
    /// The message of the error.
    pub fn to_string(&self) -> (res: String)
        ensures
            res@ == listener_error_message(*self),
    {
        match self {
            GetTcpListenerError::ListenFd(m) => prefixed("failed to get a listener from `listenfd`: ", m),
            GetTcpListenerError::SetNonblocking(m) => prefixed(
                "failed to set the TCP listener to non-blocking mode: ",
                m,
            ),
            GetTcpListenerError::FromStd(m) => prefixed(
                "failed to build a TCP listener from a standard listener: ",
                m,
            ),
            GetTcpListenerError::Bind(m) => prefixed("failed to bind to a local address: ", m),
        }
    }
}

/// An error that can occur when instantiating a server with auto-reload features.
#[derive(Debug, Clone, PartialEq, Eq)]
pub enum NewWithAutoReloadError {
    /// An error occurred while trying to get a TCP listener.
    GetTcpListener(GetTcpListenerError),
}

impl NewWithAutoReloadError {
    /// The message of the error.
    pub fn to_string(&self) -> (res: String)
        ensures
            res@ == match *self {
                NewWithAutoReloadError::GetTcpListener(e) => "failed to get a TCP listener: "@
                    + listener_error_message(e),
            },
    {
        match self {
            NewWithAutoReloadError::GetTcpListener(e) => {
                let inner = e.to_string();
                prefixed("failed to get a TCP listener: ", &inner)
            },
        }
    }
}

/// An error that can occur when trying to serve the application.
#[derive(Debug, Clone, PartialEq, Eq)]
pub enum ServeError {
    /// An error occurred while trying to serve the application.
    Io(String),
    /// An error occurred while trying to get the local address of the listener.
    LocalAddr(String),
}

impl ServeError {
    /// The message of the error.
    pub fn to_string(&self) -> (res: String)
        ensures
            res@ == match *self {
                ServeError::Io(m) => "failed to serve the application: "@ + m@,
                ServeError::LocalAddr(m) => "failed to get the local address of the listener: "@
                    + m@,
            },
    {
        match self {
            ServeError::Io(m) => prefixed("failed to serve the application: ", m),
            ServeError::LocalAddr(m) => prefixed("failed to get the local address of the listener: ", m),
        }
    }
}

} // verus!
