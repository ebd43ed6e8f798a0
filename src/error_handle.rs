//! The outermost stage of the request chain: it surfaces errors that inner
//! stages attached to the response.

use vstd::prelude::*;
use crate::level::Level;
use crate::logging::LogRecord;

verus! {

/// What the error stage makes of a response.
#[derive(Debug)]
pub struct Intercepted {
    /// The status, as the inner stages set it.
    pub status: u16,
    /// The new body, when the response carried an error.
    pub body: Option<String>,
    /// The record to log, when the response carried an error.
    pub log: Option<LogRecord>,
}

/// The stage that turns an error attached to a response into its body and an
/// error-level log record.
#[derive(Clone, Copy, Debug)]
pub struct ErrorHandleMiddleware;

impl ErrorHandleMiddleware {
    /// Handles a response of `status` that carries the error whose debug text
    /// is `error`, if any. The body becomes that text and the error is logged;
    /// the status is kept. A response without error passes unchanged.
    pub fn intercept(&self, status: u16, error: Option<String>) -> (r: Intercepted)
        ensures
            r.status == status,
            match error {
                None => r.body is None && r.log is None,
                Some(e) => (r.body matches Some(b) && b@ == e@) && (r.log matches Some(l) && l.level == Level::Error
                    && l.target@ == "error"@ && l.message@ == e@),
            },
    {
        match error {
            None => Intercepted { status, body: None, log: None },
            Some(e) => {
                let record = LogRecord { level: Level::Error, target: String::from_str("error"), message: e.clone() };
                Intercepted { status, body: Some(e), log: Some(record) }
            },
        }
    }
}

} // verus!
