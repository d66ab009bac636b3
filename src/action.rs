use vstd::prelude::*;

use crate::bind::Bind;
use crate::connect::Connect;
use crate::script::Disconnect;
use crate::send::Send;
use crate::wait::Wait;

verus! {

/// Why an action failed.
#[derive(Debug, PartialEq, Eq, Clone)]
pub enum ActionError {
    ConnectError(String),
    DisconnectError,
    BindError,
    SendError(String),
    SleepError,
    WaitError,
}

impl ActionError {
    /// The short text that names the kind of failure.
    pub open spec fn spec_message(&self) -> Seq<char> {
        match self {
            ActionError::ConnectError(_) => "Connection error"@,
            ActionError::DisconnectError => "Disconnection error"@,
            ActionError::BindError => "Bind error"@,
            ActionError::SendError(_) => "Send error"@,
            ActionError::SleepError => "Sleep error"@,
            ActionError::WaitError => "Wait error"@,
        }
    }

    /// The short text that names the kind of failure.
    pub fn message(&self) -> (r: String)
        ensures
            r@ == self.spec_message(),
    {
        match self {
            ActionError::ConnectError(_) => "Connection error".to_owned(),
            ActionError::DisconnectError => "Disconnection error".to_owned(),
            ActionError::BindError => "Bind error".to_owned(),
            ActionError::SendError(_) => "Send error".to_owned(),
            ActionError::SleepError => "Sleep error".to_owned(),
            ActionError::WaitError => "Wait error".to_owned(),
        }
    }
}

/// Pauses the script for a fixed time.
#[derive(Clone, Copy, Debug, PartialEq, Eq, Structural)]
pub struct Sleep {
    pub duration_ms: u64,
}

impl Sleep {
    pub fn new(duration_ms: u64) -> (r: Sleep)
        ensures
            r.duration_ms == duration_ms,
    {
        Sleep { duration_ms }
    }

    pub fn duration_ms(&self) -> (r: u64)
        ensures
            r == self.duration_ms,
    {
        self.duration_ms
    }
}

/// One step of a node's script.
#[derive(Clone, Debug)]
pub enum Action {
    Bind(Bind),
    Connect(Connect),
    Send(Send),
    Sleep(Sleep),
    Wait(Wait),
    Disconnect(Disconnect),
}

impl Action {
    /// The upper-case name under which the action is reported.
    pub open spec fn spec_name(&self) -> Seq<char> {
        match self {
            Action::Bind(_) => "BIND"@,
            Action::Connect(_) => "CONNECT"@,
            Action::Send(_) => "SEND"@,
            Action::Sleep(_) => "SLEEP"@,
            Action::Wait(_) => "WAIT"@,
            Action::Disconnect(_) => "DISCONNECT"@,
        }
    }

    pub fn name(&self) -> (r: String)
        ensures
            r@ == self.spec_name(),
    {
        match self {
            Action::Bind(_) => "BIND".to_owned(),
            Action::Connect(_) => "CONNECT".to_owned(),
            Action::Send(_) => "SEND".to_owned(),
            Action::Sleep(_) => "SLEEP".to_owned(),
            Action::Wait(_) => "WAIT".to_owned(),
            Action::Disconnect(_) => "DISCONNECT".to_owned(),
        }
    }
}

} // verus!
