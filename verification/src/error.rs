//! The errors of the library, and the messages they are shown with.
use vstd::prelude::*;
use crate::text::{decimal_digits, u64_text};

verus! {

#[verifier::external_type_specification]
#[verifier::external_body]
pub struct ExIoError(std::io::Error);

/// The text of an I/O error, as its `Display` writes it. It comes from the
/// operating system or the error's own payload, so nothing is promised of it.
#[verifier::external_body]
fn io_error_text(e: &std::io::Error) -> (s: String) {
    e.to_string()
}

/// An error of one of the node's subsystems.
#[derive(Debug)]
pub enum Error {
    BlockchainError(String),
    ConsensusError(String),
    GovernanceError(String),
    ShardingError(String),
    NetworkError(String),
    SmartContractError(String),
    VmError(String),
    IoError(std::io::Error),
}

/// The message of an error that carries a text, by subsystem.
pub open spec fn error_text(e: Error) -> Seq<char> {
    match e {
        Error::BlockchainError(m) => "Blockchain error: "@ + m@,
        Error::ConsensusError(m) => "Consensus error: "@ + m@,
        Error::GovernanceError(m) => "Governance error: "@ + m@,
        Error::ShardingError(m) => "Sharding error: "@ + m@,
        Error::NetworkError(m) => "Network error: "@ + m@,
        Error::SmartContractError(m) => "Smart contract error: "@ + m@,
        Error::VmError(m) => "VM error: "@ + m@,
        Error::IoError(_) => "I/O error: "@,
    }
}

/// `prefix` followed by `text`.
fn prefixed(prefix: &str, text: &String) -> (s: String)
    ensures
        s@ == prefix@ + text@,
{
    let mut s = prefix.to_owned();
    s.append(text.as_str());
    s
}

impl Error {
    /// The message the error is shown with.
    pub fn message(&self) -> (s: String)
        ensures
            !(*self is IoError) ==> s@ == error_text(*self),
            *self is IoError ==> error_text(*self).is_prefix_of(s@),
    {
        match self {
            Error::BlockchainError(m) => prefixed("Blockchain error: ", m),
            Error::ConsensusError(m) => prefixed("Consensus error: ", m),
            Error::GovernanceError(m) => prefixed("Governance error: ", m),
            Error::ShardingError(m) => prefixed("Sharding error: ", m),
            Error::NetworkError(m) => prefixed("Network error: ", m),
            Error::SmartContractError(m) => prefixed("Smart contract error: ", m),
            Error::VmError(m) => prefixed("VM error: ", m),
            Error::IoError(e) => {
                let t = io_error_text(e);
                let s = prefixed("I/O error: ", &t);
                assert(("I/O error: "@).is_prefix_of(s@)) by {
                    assert(s@.subrange(0, ("I/O error: "@).len() as int) =~= "I/O error: "@);
                }
                s
            },
        }
    }

    /// Whether the error comes from I/O (the one kind with an underlying cause).
    pub fn has_source(&self) -> (b: bool)
        ensures
            b == (*self is IoError),
    {
        match self {
            Error::IoError(_) => true,
            _ => false,
        }
    }
}

impl From<std::io::Error> for Error {
    fn from(err: std::io::Error) -> (e: Error) {
        Error::IoError(err)
    }
}

impl vstd::std_specs::convert::FromSpecImpl<std::io::Error> for Error {
    open spec fn obeys_from_spec() -> bool {
        true
    }

    open spec fn from_spec(err: std::io::Error) -> Error {
        Error::IoError(err)
    }
}

/// An error that is nothing but its message.
#[derive(Debug)]
pub struct CustomError(pub String);

impl CustomError {
    /// The message the error is shown with: its text.
    pub fn message(&self) -> (s: String)
        ensures
            s@ == self.0@,
    {
        self.0.clone()
    }
}

/// What can go wrong when working across shards.
#[derive(Debug)]
pub enum ShardingError {
    ShardNotFound(u64),
    InsufficientBalance(String),
    InvalidTransaction(String),
    ShardLockFailed(String),
    CrossShardCommunicationError(String),
}

/// The message of a sharding error.
pub open spec fn sharding_error_text(e: ShardingError) -> Seq<char> {
    match e {
        ShardingError::ShardNotFound(id) => "Shard not found: "@ + decimal_digits(id as nat),
        ShardingError::InsufficientBalance(m) => "Insufficient balance: "@ + m@,
        ShardingError::InvalidTransaction(m) => "Invalid transaction: "@ + m@,
        ShardingError::ShardLockFailed(m) => "Failed to lock shard: "@ + m@,
        ShardingError::CrossShardCommunicationError(m) => "Cross-shard communication error: "@ + m@,
    }
}

impl ShardingError {
    /// The message the error is shown with.
    pub fn message(&self) -> (s: String)
        ensures
            s@ == sharding_error_text(*self),
    {
        match self {
            ShardingError::ShardNotFound(id) => {
                let digits = u64_text(*id);
                prefixed("Shard not found: ", &digits)
            },
            ShardingError::InsufficientBalance(m) => prefixed("Insufficient balance: ", m),
            ShardingError::InvalidTransaction(m) => prefixed("Invalid transaction: ", m),
            ShardingError::ShardLockFailed(m) => prefixed("Failed to lock shard: ", m),
            ShardingError::CrossShardCommunicationError(m) => prefixed(
                "Cross-shard communication error: ",
                m,
            ),
        }
    }
}

} // verus!
