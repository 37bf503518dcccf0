//! The decisions of an agent invocation: the token and goal it needs, and the
//! iteration budget it is configured with.
use vstd::prelude::*;
use crate::text::{parse_u32, parse_u32_spec};

verus! {

/// Why an invocation is refused before it runs.
#[derive(Debug)]
pub enum InvokeError {
    /// The request carries no access token.
    MissingToken,
    /// The request body names no goal.
    MissingGoal,
}

impl InvokeError {
    /// The message reported for the error.
    pub fn message(&self) -> (msg: String)
        ensures
            msg@ == match self {
                InvokeError::MissingToken => "Missing Cf-Access-Jwt-Assertion header"@,
                InvokeError::MissingGoal => "Missing 'goal' in request body"@,
            },
    {
        match self {
            InvokeError::MissingToken => String::from_str("Missing Cf-Access-Jwt-Assertion header"),
            InvokeError::MissingGoal => String::from_str("Missing 'goal' in request body"),
        }
    }
}

/// The access token of the request, which must be there.
pub fn require_token(header: Option<String>) -> (r: Result<String, InvokeError>)
    ensures
        match header {
            Some(t) => r == Ok::<String, InvokeError>(t),
            None => r matches Err(InvokeError::MissingToken),
        },
{
    match header {
        Some(t) => Ok(t),
        None => Err(InvokeError::MissingToken),
    }
}

/// The goal of the request, which must be there.
pub fn require_goal(goal: Option<String>) -> (r: Result<String, InvokeError>)
    ensures
        match goal {
            Some(g) => r == Ok::<String, InvokeError>(g),
            None => r matches Err(InvokeError::MissingGoal),
        },
{
    match goal {
        Some(g) => Ok(g),
        None => Err(InvokeError::MissingGoal),
    }
}

/// The iteration budget when none is configured.
pub const DEFAULT_INVOKE_ITERATIONS: u32 = 5;

/// The iteration budget that the `MAX_REACT_ITERATIONS` setting gives: its
/// value read as a `u32`, or five when it is missing or not a `u32`.
pub fn max_iterations_setting(value: Option<String>) -> (n: u32)
    ensures
        n == match value {
            Some(v) => match parse_u32_spec(v@) {
                Some(k) => k,
                None => DEFAULT_INVOKE_ITERATIONS,
            },
            None => DEFAULT_INVOKE_ITERATIONS,
        },
{
    match value {
        Some(v) => match parse_u32(v.as_str()) {
            Some(k) => k,
            None => DEFAULT_INVOKE_ITERATIONS,
        },
        None => DEFAULT_INVOKE_ITERATIONS,
    }
}

} // verus!
