//! The errors of the lifecycle operations.

use tantivy::TantivyError;
use vstd::prelude::*;

verus! {

/// The operation during which an error arose.
#[derive(Clone, Copy, Debug, PartialEq, Eq, Structural)]
pub enum Operation {
    CreateIndex,
    IndexDocument,
    DeleteRows,
    Commit,
    FreeWriter,
    ReloadReader,
    Lookup,
    Remove,
}

/// Why an operation failed.
#[derive(Debug)]
pub enum SearchError {
    /// No handle is registered for the path.
    NotFound { operation: Operation },
    /// The column at position `column` of the caller's list is not a field
    /// of the index's schema.
    Schema { operation: Operation, column: usize },
    /// A call into the engine failed.
    Engine { operation: Operation, cause: TantivyError },
    /// The writer of the handle has been drained and given up.
    State { operation: Operation },
}

impl SearchError {
    /// The operation during which the error arose.
    pub open spec fn spec_operation(&self) -> Operation {
        match self {
            SearchError::NotFound { operation } => *operation,
            SearchError::Schema { operation, .. } => *operation,
            SearchError::Engine { operation, .. } => *operation,
            SearchError::State { operation } => *operation,
        }
    }

    /// The operation during which the error arose.
    #[verifier::when_used_as_spec(spec_operation)]
    pub fn operation(&self) -> (operation: Operation)
        ensures
            operation == self.spec_operation(),
    {
        match self {
            SearchError::NotFound { operation } => *operation,
            SearchError::Schema { operation, .. } => *operation,
            SearchError::Engine { operation, .. } => *operation,
            SearchError::State { operation } => *operation,
        }
    }
}

/// The result of an engine call as the result of a step of `operation`:
/// what the engine returned on success, else the engine's error under the
/// operation's name.
pub open spec fn engine_result<T>(operation: Operation, result: Result<T, TantivyError>) -> Result<
    T,
    SearchError,
> {
    match result {
        Ok(value) => Ok(value),
        Err(cause) => Err(SearchError::Engine { operation, cause }),
    }
}

/// Turns the result of an engine call into the result of a step of
/// `operation`.
pub fn from_engine<T>(operation: Operation, result: Result<T, TantivyError>) -> (outcome: Result<
    T,
    SearchError,
>)
    ensures
        outcome == engine_result(operation, result),
{
    match result {
        Ok(value) => Ok(value),
        Err(cause) => Err(SearchError::Engine { operation, cause }),
    }
}

} // verus!
