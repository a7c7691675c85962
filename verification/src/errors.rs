//! The typed failures that every fallible operation of this crate returns.
//!
//! The engine signals failure out of band: a negative return code or a null
//! handle, paired with a per-context error code and message.  This module
//! turns those signals into one error value, next to the failures that this
//! layer detects locally (missing write permission, bad names, malformed
//! engine output, allocation failure at initialization).

use vstd::prelude::*;

verus! {

/// The result of every fallible operation in this crate.
pub type LvmResult<T> = Result<T, LvmError>;

/// Spec-level image of an [`LvmError`].
pub ghost enum ErrorView {
    /// The engine reported a negative return code, or a null handle or list
    /// where one was required.
    Engine { code: int, message: Seq<char> },
    /// A mutating call was attempted without write permission.
    Permission,
    /// A name or path breaks the naming rules or holds an embedded NUL.
    Validation { message: Seq<char> },
    /// A value handed back by the engine does not have its expected format.
    Parse { message: Seq<char> },
    /// The engine could not allocate its own state during initialization.
    Allocation { code: int },
}

impl ErrorView {
    /// The human-readable text that [`LvmError::message`] returns.
    pub open spec fn text(self) -> Seq<char> {
        match self {
            ErrorView::Engine { message, .. } => message,
            ErrorView::Permission => "permission denied: the volume group was not opened for writing"@,
            ErrorView::Validation { message } => message,
            ErrorView::Parse { message } => message,
            ErrorView::Allocation { .. } => "the engine could not allocate its internal state"@,
        }
    }
}

/// A typed failure of one operation against the volume-management engine.
#[derive(Debug)]
pub enum LvmError {
    /// The engine reported a negative return code, or a null handle or list
    /// where one was required; carries the engine's numeric code and the
    /// message read from the context's error channel.
    Engine(i32, String),
    /// A mutating call was attempted on a session that grants no write
    /// permission; detected locally, before anything reaches the engine.
    Permission,
    /// A name or path fails the naming rules, or a string meant for the
    /// engine holds an embedded NUL that the native call cannot carry.
    Validation(String),
    /// A value returned by the engine (for example a UUID string) does not
    /// conform to its expected format; a local finding, not an engine report.
    Parse(String),
    /// The engine failed to allocate its internal state while initializing;
    /// carries the process-wide error code observed at that moment, since no
    /// context-scoped error channel exists yet.
    Allocation(i32),
}

impl View for LvmError {
    type V = ErrorView;

    open spec fn view(&self) -> ErrorView {
        match self {
            LvmError::Engine(code, message) => (ErrorView::Engine {
                code: *code as int,
                message: message@,
            }),
            LvmError::Permission => ErrorView::Permission,
            LvmError::Validation(message) => (ErrorView::Validation { message: message@ }),
            LvmError::Parse(message) => (ErrorView::Parse { message: message@ }),
            LvmError::Allocation(code) => (ErrorView::Allocation { code: *code as int }),
        }
    }
}

impl LvmError {
    /// Wrap an engine-reported error code and message pair.
    pub fn new(code: i32, message: String) -> (r: LvmError)
        ensures
            r@ == (ErrorView::Engine { code: code as int, message: message@ }),
    {
        LvmError::Engine(code, message)
    }

    /// The human-readable message carried by this error.
    pub fn message(&self) -> (r: String)
        ensures
            r@ == self@.text(),
    {
        match self {
            LvmError::Engine(_, message) => message.clone(),
            LvmError::Permission => "permission denied: the volume group was not opened for writing"
                .to_owned(),
            LvmError::Validation(message) => message.clone(),
            LvmError::Parse(message) => message.clone(),
            LvmError::Allocation(_) => "the engine could not allocate its internal state".to_owned(),
        }
    }

    /// The engine's numeric code, where one was reported.
    pub fn code(&self) -> (r: Option<i32>)
        ensures
            match self@ {
                ErrorView::Engine { code, .. } => r == Some(code as i32),
                ErrorView::Allocation { code } => r == Some(code as i32),
                _ => r is None,
            },
    {
        match self {
            LvmError::Engine(code, _) => Some(*code),
            LvmError::Allocation(code) => Some(*code),
            _ => None,
        }
    }
}

} // verus!
