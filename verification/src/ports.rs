//! What the domain asks of its surroundings, as far as it can be said
//! without naming an implementation: the shape of an HTTP response, the kinds
//! of script engine, and the logger.

use vstd::prelude::*;

verus! {

/// What came back from an HTTP request.
#[derive(Debug, Clone)]
pub struct HttpResponse {
    /// The status code.
    pub status: u16,
    /// The headers, in the order received.
    pub headers: Vec<(String, String)>,
    /// The body.
    pub body: Vec<u8>,
}

/// The languages that a script engine may run.
#[derive(Debug, Clone, Copy, PartialEq, Eq, Hash, Structural)]
pub enum ScriptEngineType {
    JavaScript,
    Python,
    Lua,
    Rhai,
}

/// A logger with four levels. Logging has no result.
pub trait Logger: Send + Sync {
    /// Records a message for debugging.
    fn debug(&self, message: &str);

    /// Records a piece of information.
    fn info(&self, message: &str);

    /// Records a warning.
    fn warn(&self, message: &str);

    /// Records an error.
    fn error(&self, message: &str);
}

} // verus!
