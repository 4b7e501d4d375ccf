//! What can go wrong with an adapter, by what to do about it.

use crate::text::join;
use vstd::prelude::*;

verus! {

/// What kind of error happened while connecting or polling.
#[derive(Debug)]
pub enum AdapterError {
    /// Retry in the next cycle and keep the connection.
    Transient(String),
    /// Reconnect from scratch.
    FatalConn(String),
    /// The bus is down: wait longer until the next cycle.
    Sleeping,
    /// Log and exit.
    Permanent(String),
}

/// What an adapter error says.
pub enum AdapterErrorModel {
    Transient(Seq<char>),
    FatalConn(Seq<char>),
    Sleeping,
    Permanent(Seq<char>),
}

impl View for AdapterError {
    type V = AdapterErrorModel;

    open spec fn view(&self) -> AdapterErrorModel {
        match *self {
            AdapterError::Transient(m) => AdapterErrorModel::Transient(m@),
            AdapterError::FatalConn(m) => AdapterErrorModel::FatalConn(m@),
            AdapterError::Sleeping => AdapterErrorModel::Sleeping,
            AdapterError::Permanent(m) => AdapterErrorModel::Permanent(m@),
        }
    }
}

impl AdapterErrorModel {
    /// The text of an error.
    pub open spec fn text(self) -> Seq<char> {
        match self {
            AdapterErrorModel::Transient(m) => "transient: "@ + m,
            AdapterErrorModel::FatalConn(m) => "fatal-conn: "@ + m,
            AdapterErrorModel::Sleeping => "sleeping"@,
            AdapterErrorModel::Permanent(m) => "permanent: "@ + m,
        }
    }
}

impl AdapterError {
    /// The error as text.
    pub fn describe(&self) -> (r: String)
        ensures
            r@ == self@.text(),
    {
        match self {
            AdapterError::Transient(m) => join("transient: ", m.as_str()),
            AdapterError::FatalConn(m) => join("fatal-conn: ", m.as_str()),
            AdapterError::Sleeping => "sleeping".to_owned(),
            AdapterError::Permanent(m) => join("permanent: ", m.as_str()),
        }
    }
}

/// The text of an error starts with its kind and ends with its message.
pub proof fn errors_say_their_kind(m: Seq<char>)
    ensures
        AdapterErrorModel::Transient(m).text() == "transient: "@ + m,
        AdapterErrorModel::FatalConn(m).text() == "fatal-conn: "@ + m,
        AdapterErrorModel::Permanent(m).text() == "permanent: "@ + m,
        AdapterErrorModel::Sleeping.text() == "sleeping"@,
{
}

} // verus!
