//! What the movie asks of the browser: navigation and fetching.

use vstd::prelude::*;
use vstd::string::StringExecFns;
use crate::strings::eq_ignore_ascii_case;
use crate::strings::folded;

verus! {

/// The method of a navigation or of a request.
#[derive(Clone, Copy, Debug, PartialEq, Eq, Structural)]
pub enum NavigationMethod {
    /// A GET request.
    Get,
    /// A POST request.
    Post,
}

/// How variables are sent with a navigation, as a movie encodes it.
#[derive(Clone, Copy, Debug, PartialEq, Eq, Structural)]
pub enum SendVarsMethod {
    /// No variables are sent.
    Nothing,
    Get,
    Post,
}

/// Whether movies may open sockets.
#[derive(Clone, Copy, Debug, PartialEq, Eq, Structural)]
pub enum SocketMode {
    /// Movies may connect to any host.
    Allow,
    /// Every connection is refused.
    Deny,
    /// The user is asked for every connection.
    Ask,
}

/// What happens to a link that opens a website.
#[derive(Clone, Copy, Debug, PartialEq, Eq, Structural)]
pub enum OpenURLMode {
    /// The website is opened.
    Allow,
    /// The user is asked first.
    Confirm,
    /// The website is not opened.
    Deny,
}

impl NavigationMethod {
    /// The navigation method for a way of sending variables.
    pub fn from_send_vars_method(s: SendVarsMethod) -> (r: Option<NavigationMethod>)
        ensures
            r == (match s {
                SendVarsMethod::Nothing => None,
                SendVarsMethod::Get => Some(NavigationMethod::Get),
                SendVarsMethod::Post => Some(NavigationMethod::Post),
            }),
    {
        match s {
            SendVarsMethod::Nothing => None,
            SendVarsMethod::Get => Some(NavigationMethod::Get),
            SendVarsMethod::Post => Some(NavigationMethod::Post),
        }
    }

    /// The navigation method that `method` names: `get` or `post`, in any
    /// case of the letters.
    pub fn from_method_str(method: &str) -> (r: Option<NavigationMethod>)
        ensures
            r == (if folded(method@) == folded("get"@) {
                Some(NavigationMethod::Get)
            } else if folded(method@) == folded("post"@) {
                Some(NavigationMethod::Post)
            } else {
                None
            }),
    {
        if eq_ignore_ascii_case(method, "get") {
            Some(NavigationMethod::Get)
        } else if eq_ignore_ascii_case(method, "post") {
            Some(NavigationMethod::Post)
        } else {
            None
        }
    }

    /// The name of the method in a request.
    pub fn as_str(&self) -> (r: &'static str)
        ensures
            r@ == (match *self {
                NavigationMethod::Get => "GET"@,
                NavigationMethod::Post => "POST"@,
            }),
    {
        match *self {
            NavigationMethod::Get => "GET",
            NavigationMethod::Post => "POST",
        }
    }
}

/// The answer to a request that succeeded.
#[derive(Debug)]
pub struct SuccessResponse {
    /// The URL after every redirect.
    pub url: String,
    /// The body of the answer.
    pub body: Vec<u8>,
    /// The status code of the answer.
    pub status: u16,
    /// Whether the request was redirected.
    pub redirected: bool,
}

/// The answer to a request that failed.
#[derive(Debug)]
pub struct ErrorResponse {
    /// The URL after every redirect.
    pub url: String,
    /// Why the request failed.
    pub message: String,
}

/// The message of a failed request: the reason and the URL, and after a
/// colon the error's own words where it has any.
pub open spec fn fetch_error_message(reason: Seq<char>, url: Seq<char>, error: Seq<char>) -> Seq<
    char,
> {
    if error.len() == 0 {
        reason + seq![' '] + url
    } else {
        reason + seq![' '] + url + seq![':', ' '] + error
    }
}

/// The failure of a request for the reason `reason`.
pub fn create_specific_fetch_error(reason: &str, url: &str, error: &str) -> (r: Result<
    SuccessResponse,
    ErrorResponse,
>)
    ensures
        r matches Err(e) && e.url@ == url@ && e.message@ == fetch_error_message(
            reason@,
            url@,
            error@,
        ),
{
    proof {
        reveal_strlit(" ");
        reveal_strlit(": ");
        reveal_strlit("");
    }
    let mut message = String::from_str(reason);
    message.append(" ");
    message.append(url);
    assert(" "@ =~= seq![' ']);
    if !crate::strings::str_eq(error, "") {
        message.append(": ");
        message.append(error);
        assert(": "@ =~= seq![':', ' ']);
        assert(error@.len() != 0) by {
            if error@.len() == 0 {
                assert(error@ =~= ""@);
            }
        }
    } else {
        assert(error@.len() == 0);
    }
    Err(ErrorResponse { url: String::from_str(url), message })
}

/// The failure of a request for a URL that is not valid.
pub fn create_fetch_error(url: &str, error: &str) -> (r: Result<SuccessResponse, ErrorResponse>)
    ensures
        r matches Err(e) && e.url@ == url@ && e.message@ == fetch_error_message(
            "Invalid URL"@,
            url@,
            error@,
        ),
{
    create_specific_fetch_error("Invalid URL", url, error)
}

} // verus!
