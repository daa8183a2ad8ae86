//! Errors of the storage layer.
use vstd::prelude::*;

verus! {

/// Errors that can occur in the storage layer.
#[derive(Debug)]
pub enum StorageError {
    /// A database operation failed (the database's own message).
    Database(String),
    /// A command could not be queued for the writer actor.
    ChannelSend,
    /// JSON serialization or deserialization failed.
    Json(String),
    /// Internal error (e.g. a task join failure).
    Internal(String),
    /// Invalid data in the database (e.g. an unknown enum value).
    InvalidData(String),
    /// A schema migration failed.
    Migration(String),
}

/// The message of a storage error, as it is displayed.
pub open spec fn storage_error_text(e: StorageError) -> Seq<char> {
    match e {
        StorageError::Database(m) => "database error: "@ + m@,
        StorageError::ChannelSend => "failed to send command to writer actor"@,
        StorageError::Json(m) => "json error: "@ + m@,
        StorageError::Internal(m) => "internal error: "@ + m@,
        StorageError::InvalidData(m) => "invalid data: "@ + m@,
        StorageError::Migration(m) => "migration error: "@ + m@,
    }
}

/// `prefix` followed by `rest`.
pub fn join_text(prefix: &str, rest: &str) -> (s: String)
    ensures
        s@ == prefix@ + rest@,
{
    let mut s = String::from_str(prefix);
    s.append(rest);
    s
}

impl StorageError {
    /// The message of the error.
    pub fn to_string(&self) -> (s: String)
        ensures
            s@ == storage_error_text(*self),
    {
        match self {
            StorageError::Database(m) => join_text("database error: ", m.as_str()),
            StorageError::ChannelSend => String::from_str("failed to send command to writer actor"),
            StorageError::Json(m) => join_text("json error: ", m.as_str()),
            StorageError::Internal(m) => join_text("internal error: ", m.as_str()),
            StorageError::InvalidData(m) => join_text("invalid data: ", m.as_str()),
            StorageError::Migration(m) => join_text("migration error: ", m.as_str()),
        }
    }
}

} // verus!
