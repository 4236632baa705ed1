//! Error taxonomy of the connection core.

use vstd::prelude::*;

verus! {

/// An error reported by the native engine: its numeric result code and the
/// message text that goes with it.
#[derive(Debug, Clone, PartialEq, Eq)]
pub struct EngineError {
    pub code: i32,
    pub message: String,
}

/// An error at statement or transaction level.
#[derive(Debug, Clone, PartialEq, Eq)]
pub enum Error {
    /// The engine rejected a statement; carries its code and message.
    DatabaseError(EngineError),
    /// Serializing a bind value into bytes failed; carries the cause.
    SerializationError(String),
    /// A `BEGIN` variant was requested while a transaction was already open.
    AlreadyInTransaction,
    /// `COMMIT` or `ROLLBACK` was requested with no transaction open.
    NotInTransaction,
}

/// An error while opening a connection: the engine rejected the URL or could
/// not allocate a handle.
#[derive(Debug, Clone, PartialEq, Eq)]
pub enum ConnectionError {
    BadConnection(EngineError),
}

/// The engine's fixed description of a result code: a function of the code
/// alone.
pub uninterp spec fn engine_error_text(code: int) -> Seq<char>;

/// Relies on `libsqlite3_sys::code_to_str`: the engine's description of a
/// result code, looked up from the code alone.
#[verifier::external_body]
fn error_message(err_code: i32) -> (r: String)
    ensures
        r@ == engine_error_text(err_code as int),
{
    libsqlite3_sys::code_to_str(err_code).to_string()
}

impl EngineError {
    /// Translates a bare engine result code into an [`EngineError`] carrying
    /// the engine's own description of it.
    pub fn from_code(code: i32) -> (e: EngineError)
        ensures
            e.code == code,
            e.message@ == engine_error_text(code as int),
    {
        EngineError { code, message: error_message(code) }
    }
}

} // verus!
