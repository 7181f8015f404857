//! Errors of the proxy, the store, the rules, replay and the certificate
//! authority, each with the message it is displayed by.
use vstd::prelude::*;

use crate::text::{concat2, concat3};

verus! {

#[derive(Debug, PartialEq, Eq)]
pub enum ProxyError {
    BindFailed { addr: String, source: String },
    UpstreamConnectFailed { target: String, source: String },
    InvalidRequest(String),
    Http(String),
    Store(String),
}

/// `a + b + c + d` on character sequences.
pub open spec fn cat4(a: Seq<char>, b: Seq<char>, c: Seq<char>, d: Seq<char>) -> Seq<char> {
    a + b + c + d
}

impl ProxyError {
    /// The display text of the error.
    pub open spec fn spec_message(&self) -> Seq<char> {
        match self {
            ProxyError::BindFailed { addr, source } => cat4(
                "failed to bind proxy address "@,
                addr@,
                ": "@,
                source@,
            ),
            ProxyError::UpstreamConnectFailed { target, source } => cat4(
                "failed to connect upstream "@,
                target@,
                ": "@,
                source@,
            ),
            ProxyError::InvalidRequest(m) => "invalid proxy request: "@ + m@,
            ProxyError::Http(m) => "http error: "@ + m@,
            ProxyError::Store(m) => "store error: "@ + m@,
        }
    }

    pub fn message(&self) -> (r: String)
        ensures
            r@ == self.spec_message(),
    {
        match self {
            ProxyError::BindFailed { addr, source } => {
                let mut r = concat3("failed to bind proxy address ", addr.as_str(), ": ");
                r.append(source.as_str());
                r
            },
            ProxyError::UpstreamConnectFailed { target, source } => {
                let mut r = concat3("failed to connect upstream ", target.as_str(), ": ");
                r.append(source.as_str());
                r
            },
            ProxyError::InvalidRequest(m) => concat2("invalid proxy request: ", m.as_str()),
            ProxyError::Http(m) => concat2("http error: ", m.as_str()),
            ProxyError::Store(m) => concat2("store error: ", m.as_str()),
        }
    }
}

#[derive(Debug, PartialEq, Eq)]
pub enum StoreError {
    Database(String),
    Serialization(String),
    NotFound,
}

impl StoreError {
    /// The display text of the error.
    pub open spec fn spec_message(&self) -> Seq<char> {
        match self {
            StoreError::Database(m) => "database error: "@ + m@,
            StoreError::Serialization(m) => "serialization error: "@ + m@,
            StoreError::NotFound => "not found"@,
        }
    }

    pub fn message(&self) -> (r: String)
        ensures
            r@ == self.spec_message(),
    {
        match self {
            StoreError::Database(m) => concat2("database error: ", m.as_str()),
            StoreError::Serialization(m) => concat2("serialization error: ", m.as_str()),
            StoreError::NotFound => "not found".to_owned(),
        }
    }
}

#[derive(Debug, PartialEq, Eq)]
pub enum RuleError {
    InvalidRule(String),
}

impl RuleError {
    /// The display text of the error.
    pub open spec fn spec_message(&self) -> Seq<char> {
        match self {
            RuleError::InvalidRule(m) => "invalid rule: "@ + m@,
        }
    }

    pub fn message(&self) -> (r: String)
        ensures
            r@ == self.spec_message(),
    {
        match self {
            RuleError::InvalidRule(m) => concat2("invalid rule: ", m.as_str()),
        }
    }
}

#[derive(Debug, PartialEq, Eq)]
pub enum ReplayError {
    NotReplayable,
    Request(String),
    Store(String),
}

impl ReplayError {
    /// The display text of the error.
    pub open spec fn spec_message(&self) -> Seq<char> {
        match self {
            ReplayError::NotReplayable => "session not replayable"@,
            ReplayError::Request(m) => "request execution failed: "@ + m@,
            ReplayError::Store(m) => "store error: "@ + m@,
        }
    }

    pub fn message(&self) -> (r: String)
        ensures
            r@ == self.spec_message(),
    {
        match self {
            ReplayError::NotReplayable => "session not replayable".to_owned(),
            ReplayError::Request(m) => concat2("request execution failed: ", m.as_str()),
            ReplayError::Store(m) => concat2("store error: ", m.as_str()),
        }
    }
}

#[derive(Debug, PartialEq, Eq)]
pub enum SecurityError {
    Io(String),
    Certificate(String),
    Tls(String),
}

impl SecurityError {
    /// The display text of the error.
    pub open spec fn spec_message(&self) -> Seq<char> {
        match self {
            SecurityError::Io(m) => "io error: "@ + m@,
            SecurityError::Certificate(m) => "certificate error: "@ + m@,
            SecurityError::Tls(m) => "tls error: "@ + m@,
        }
    }

    pub fn message(&self) -> (r: String)
        ensures
            r@ == self.spec_message(),
    {
        match self {
            SecurityError::Io(m) => concat2("io error: ", m.as_str()),
            SecurityError::Certificate(m) => concat2("certificate error: ", m.as_str()),
            SecurityError::Tls(m) => concat2("tls error: ", m.as_str()),
        }
    }
}

} // verus!
