use vstd::prelude::*;
use vstd::string::StringExecFns;

verus! {

/// The error taxonomy of the ledger access layer.
#[derive(Debug, Clone, PartialEq, Eq)]
pub enum AppError {
    /// Transport-level failure talking to a node; retryable.
    ConnectionFailure(String),
    /// Every configured endpoint is failing its health checks.
    NoHealthyEndpoints,
    /// The local admission gate has no token available.
    RateLimitExceeded,
    /// The remote (or local) resource does not exist; never retried.
    NotFound(String),
    /// Malformed address, hash or amount; fails before any remote call.
    InvalidInput(String),
    /// Submission or finality failure that may succeed when resubmitted.
    TransactionError(String),
    /// The ledger declared the transaction failed or aborted; never retried.
    TransactionAborted(String),
    /// Invalid configuration, such as an endpoint URL that does not parse.
    Config(String),
    /// The local store rejected an operation.
    Database(String),
    /// Programmer or invariant violation; never retried.
    Internal(String),
}

pub open spec fn transient(e: AppError) -> bool {
    e is ConnectionFailure || e is TransactionError
}

pub open spec fn status_of(e: AppError) -> u16 {
    match e {
        AppError::NotFound(_) => 404,
        AppError::InvalidInput(_) => 400,
        AppError::RateLimitExceeded => 429,
        AppError::NoHealthyEndpoints => 503,
        _ => 500,
    }
}

impl AppError {
    pub fn not_found(resource: &str) -> (r: Self)
        ensures
            r matches AppError::NotFound(m) && m@ == resource@,
    {
        AppError::NotFound(String::from_str(resource))
    }

    pub fn invalid_input(reason: &str) -> (r: Self)
        ensures
            r matches AppError::InvalidInput(m) && m@ == reason@,
    {
        AppError::InvalidInput(String::from_str(reason))
    }

    pub fn internal(message: &str) -> (r: Self)
        ensures
            r matches AppError::Internal(m) && m@ == message@,
    {
        AppError::Internal(String::from_str(message))
    }

    pub fn connection_error(message: &str) -> (r: Self)
        ensures
            r matches AppError::ConnectionFailure(m) && m@ == message@,
    {
        AppError::ConnectionFailure(String::from_str(message))
    }

    pub fn transaction_error(message: &str) -> (r: Self)
        ensures
            r matches AppError::TransactionError(m) && m@ == message@,
    {
        AppError::TransactionError(String::from_str(message))
    }

    pub fn transaction_aborted(message: &str) -> (r: Self)
        ensures
            r matches AppError::TransactionAborted(m) && m@ == message@,
    {
        AppError::TransactionAborted(String::from_str(message))
    }

    pub fn rate_limit_exceeded() -> (r: Self)
        ensures
            r is RateLimitExceeded,
    {
        AppError::RateLimitExceeded
    }

    pub fn no_healthy_nodes() -> (r: Self)
        ensures
            r is NoHealthyEndpoints,
    {
        AppError::NoHealthyEndpoints
    }

    pub fn config_error(message: &str) -> (r: Self)
        ensures
            r matches AppError::Config(m) && m@ == message@,
    {
        AppError::Config(String::from_str(message))
    }

    pub fn database_error(message: &str) -> (r: Self)
        ensures
            r matches AppError::Database(m) && m@ == message@,
    {
        AppError::Database(String::from_str(message))
    }

    /// Classifies a failed response of the ledger node: a missing resource,
    /// a transient upstream condition (throttling or a server error), or
    /// anything else.
    pub fn for_node_status(status: u16, message: &str) -> (r: Self)
        ensures
            status == 404 ==> (r matches AppError::NotFound(m) && m@ == message@),
            status == 429 || (500 <= status <= 599) ==> (r matches AppError::ConnectionFailure(m)
                && m@ == message@),
            status != 404 && status != 429 && !(500 <= status <= 599) ==> (r matches AppError::Internal(
                m,
            ) && m@ == message@),
    {
        if status == 404 {
            AppError::not_found(message)
        } else if status == 429 || (500 <= status && status <= 599) {
            AppError::connection_error(message)
        } else {
            AppError::internal(message)
        }
    }

    /// Whether the retry executor may repeat the call that failed with this error.
    pub fn is_transient(&self) -> (r: bool)
        ensures
            r == transient(*self),
    {
        match self {
            AppError::ConnectionFailure(_) => true,
            AppError::TransactionError(_) => true,
            _ => false,
        }
    }

    /// The HTTP status under which the API layer reports this error.
    pub fn http_status(&self) -> (r: u16)
        ensures
            r == status_of(*self),
    {
        match self {
            AppError::NotFound(_) => 404,
            AppError::InvalidInput(_) => 400,
            AppError::RateLimitExceeded => 429,
            AppError::NoHealthyEndpoints => 503,
            _ => 500,
        }
    }
}

} // verus!
