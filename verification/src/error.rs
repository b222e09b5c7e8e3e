//! How a navigation can end, and what can go wrong with one.

use vstd::prelude::*;
use vstd::string::StringExecFns;

verus! {

/// What can go wrong with a navigation.
#[derive(Debug, Clone)]
pub enum NavigationError {
    /// No route matches the path.
    RouteNotFound { path: String },
    /// A guard refused the navigation.
    GuardBlocked { reason: String },
    /// The parameters of the route are not valid.
    InvalidParams { message: String },
    /// The navigation failed.
    NavigationFailed { message: String },
    /// Another error.
    Custom { message: String },
}

/// The text that describes an error.
pub open spec fn error_text(error: NavigationError) -> Seq<char> {
    match error {
        NavigationError::RouteNotFound { path } => "Route not found: "@ + path@,
        NavigationError::GuardBlocked { reason } => "Navigation blocked: "@ + reason@,
        NavigationError::InvalidParams { message } => "Invalid parameters: "@ + message@,
        NavigationError::NavigationFailed { message } => "Navigation failed: "@ + message@,
        NavigationError::Custom { message } => message@,
    }
}

fn prefixed(prefix: &str, text: &String) -> (r: String)
    ensures
        r@ == prefix@ + text@,
{
    let mut r = String::from_str(prefix);
    r.append(text.as_str());
    r
}

impl NavigationError {
    /// The text that describes the error.
    pub fn to_string(&self) -> (r: String)
        ensures
            r@ == error_text(*self),
    {
        match self {
            NavigationError::RouteNotFound { path } => prefixed("Route not found: ", path),
            NavigationError::GuardBlocked { reason } => prefixed("Navigation blocked: ", reason),
            NavigationError::InvalidParams { message } => prefixed("Invalid parameters: ", message),
            NavigationError::NavigationFailed { message } => prefixed(
                "Navigation failed: ",
                message,
            ),
            NavigationError::Custom { message } => message.clone(),
        }
    }
}

/// How a navigation ended.
#[derive(Debug, Clone)]
pub enum NavigationResult {
    /// The path is current now.
    Success { path: String },
    /// No route matches the path.
    NotFound { path: String },
    /// A guard or a lifecycle hook refused the navigation.
    Blocked { reason: String, redirect: Option<String> },
    /// The navigation failed.
    Error(NavigationError),
}

impl NavigationResult {
    /// Whether the navigation succeeded.
    pub fn is_success(&self) -> (r: bool)
        ensures
            r == (self is Success),
    {
        match self {
            NavigationResult::Success { .. } => true,
            _ => false,
        }
    }

    /// Whether no route matched.
    pub fn is_not_found(&self) -> (r: bool)
        ensures
            r == (self is NotFound),
    {
        match self {
            NavigationResult::NotFound { .. } => true,
            _ => false,
        }
    }

    /// Whether the navigation was refused.
    pub fn is_blocked(&self) -> (r: bool)
        ensures
            r == (self is Blocked),
    {
        match self {
            NavigationResult::Blocked { .. } => true,
            _ => false,
        }
    }

    /// Whether the navigation failed.
    pub fn is_error(&self) -> (r: bool)
        ensures
            r == (self is Error),
    {
        match self {
            NavigationResult::Error(_) => true,
            _ => false,
        }
    }

    /// The path that a refused navigation is sent to, if it is sent anywhere.
    pub fn redirect_path(&self) -> (r: Option<&str>)
        ensures
            match self {
                NavigationResult::Blocked { redirect: Some(path), .. } => r matches Some(to) && to@
                    == path@,
                _ => r is None,
            },
    {
        match self {
            NavigationResult::Blocked { redirect: Some(path), .. } => Some(path.as_str()),
            _ => None,
        }
    }
}

} // verus!
