//! How the web UI handles requests: caching, access, redirects, logins and
//! error answers.
use vstd::prelude::*;
use vstd::string::StringSliceAdditionalSpecFns;
use vstd::utf8::encode_utf8;

use super::routes::{
    has_prefix, push_all, redirect_query, route_init_consensus, route_login, route_ui,
    spec_redirect_query, spec_route_init_consensus, spec_route_login, spec_route_ui,
    starts_with,
};
use crate::outside::{blake3_digest, blake3_hash, trim, trimmed, url_encode, url_encoded, url_path, url_path_of};

verus! {

/// Proof that a request comes from a logged-in user.
#[derive(Clone, Copy, Debug)]
pub struct UserAuth;

impl UserAuth {
    /// The proof of a successful login.
    pub fn new() -> (r: Self) {
        UserAuth
    }
}

/// An error caused by what the user asked for.
#[derive(PartialEq, Eq, Structural, Clone, Copy, Debug)]
pub enum UserRequestError {
    SomethingNotFound,
    InvalidData,
}

/// The body of an answer to a user error.
#[derive(Debug)]
pub struct UserErrorResponse {
    pub message: String,
}

/// Query of the login page: where to go after logging in.
#[derive(Debug)]
pub struct GetInput {
    pub redirect: Option<String>,
}

/// A page written as HTML.
#[derive(Clone, Debug)]
pub struct Html(pub String);

/// A value answered as JSON.
#[derive(Clone, Debug)]
pub struct AppJson<T>(pub T);

/// A link in the chain of sources of an error.
#[derive(PartialEq, Eq, Structural, Clone, Copy, Debug)]
pub enum ErrorCause {
    /// An error caused by what the user asked for.
    User(UserRequestError),
    /// Any other error.
    Other,
}

/// What went wrong inside the server.
#[derive(PartialEq, Eq, Structural, Clone, Copy, Debug)]
pub enum InternalServerError {
    /// The session store failed.
    SessionStore,
}

/// Why a request failed. Errors with a source carry its chain of causes,
/// outermost first.
#[derive(Debug)]
pub enum RequestError {
    Other { source: Vec<ErrorCause> },
    InternalServerError { msg: InternalServerError },
    LoginRequired {
        /// Path to go to after a successful login.
        path: Option<String>,
    },
    User { source: Vec<ErrorCause> },
}

/// The innermost cause of `e`: the last link of its chain of sources, or
/// the error itself when it has none.
pub open spec fn spec_root_cause(e: RequestError) -> ErrorCause {
    match e {
        RequestError::Other { source } => if source@.len() > 0 {
            source@.last()
        } else {
            ErrorCause::Other
        },
        RequestError::User { source } => if source@.len() > 0 {
            source@.last()
        } else {
            ErrorCause::Other
        },
        _ => ErrorCause::Other,
    }
}

/// The innermost cause of `e`.
pub fn root_cause(e: &RequestError) -> (r: ErrorCause)
    ensures
        r == spec_root_cause(*e),
{
    match e {
        RequestError::Other { source } => if source.len() > 0 {
            source[source.len() - 1]
        } else {
            ErrorCause::Other
        },
        RequestError::User { source } => if source.len() > 0 {
            source[source.len() - 1]
        } else {
            ErrorCause::Other
        },
        _ => ErrorCause::Other,
    }
}

/// The HTTP status answered to a user error.
pub open spec fn user_error_status(e: UserRequestError) -> u16 {
    match e {
        UserRequestError::SomethingNotFound => 404,
        UserRequestError::InvalidData => 400,
    }
}

/// The message answered to a user error: the error's name.
pub open spec fn user_error_message(e: UserRequestError) -> Seq<char> {
    match e {
        UserRequestError::SomethingNotFound => "SomethingNotFound"@,
        UserRequestError::InvalidData => "InvalidData"@,
    }
}

/// How a request error is answered.
#[derive(Debug)]
pub enum ErrorResponse {
    /// Redirect to `location`.
    Redirect { location: Vec<u8> },
    /// A JSON body `{"message": ..}` with an HTTP status.
    Json { status: u16, body: UserErrorResponse },
}

/// Where a user who must log in is sent: the login page, told where to go
/// afterwards when `path` is known (percent-encoded).
pub open spec fn spec_login_location(path: Option<Seq<char>>) -> Seq<u8> {
    match path {
        Some(p) => spec_route_login() + spec_redirect_query() + url_encoded(encode_utf8(p)),
        None => spec_route_login(),
    }
}

/// The text of an optional string.
pub open spec fn opt_text(s: Option<String>) -> Option<Seq<char>> {
    match s {
        Some(t) => Some(t@),
        None => None,
    }
}

impl UserRequestError {
    /// The answer to this error: its status and its name as the message.
    pub fn into_response(&self) -> (r: ErrorResponse)
        ensures
            r matches ErrorResponse::Json { status, body } && status == user_error_status(*self)
                && body.message@ == user_error_message(*self),
    {
        match self {
            UserRequestError::SomethingNotFound => ErrorResponse::Json {
                status: 404,
                body: UserErrorResponse { message: "SomethingNotFound".to_owned() },
            },
            UserRequestError::InvalidData => ErrorResponse::Json {
                status: 400,
                body: UserErrorResponse { message: "InvalidData".to_owned() },
            },
        }
    }
}

impl RequestError {
    /// The answer to this error: a user error at its root is answered as
    /// such; a required login redirects to the login page; anything else is
    /// an internal error.
    pub fn into_response(&self) -> (r: ErrorResponse)
        ensures
            match spec_root_cause(*self) {
                ErrorCause::User(u) => r matches ErrorResponse::Json { status, body } && status
                    == user_error_status(u) && body.message@ == user_error_message(u),
                ErrorCause::Other => match *self {
                    RequestError::LoginRequired { path } => r matches ErrorResponse::Redirect {
                        location,
                    } && location@ == spec_login_location(opt_text(path)),
                    _ => r matches ErrorResponse::Json { status, body } && status == 500
                        && body.message@ == "Internal Service Error"@,
                },
            },
    {
        match root_cause(self) {
            ErrorCause::User(u) => u.into_response(),
            ErrorCause::Other => match self {
                RequestError::LoginRequired { path } => {
                    let mut location = route_login();
                    match path {
                        Some(p) => {
                            let q = redirect_query();
                            push_all(&mut location, q.as_slice());
                            let encoded = url_encode(p.as_str());
                            push_all(&mut location, encoded.as_slice());
                            proof {
                                assert(location@ =~= spec_login_location(opt_text(*path)));
                            }
                        },
                        None => {},
                    }
                    ErrorResponse::Redirect { location }
                },
                _ => ErrorResponse::Json {
                    status: 500,
                    body: UserErrorResponse { message: "Internal Service Error".to_owned() },
                },
            },
        }
    }
}

/// What the session store says of a request.
#[derive(PartialEq, Eq, Structural, Clone, Copy, Debug)]
pub enum SessionLookup {
    /// The session holds a logged-in user.
    Authenticated,
    /// The session holds no user.
    Anonymous,
    /// The session store failed.
    StoreError,
}

/// Where to send a user who must log in: back to the page asked for when
/// it was a `GET`, otherwise to the path of the referring page, if any.
pub open spec fn spec_login_return_path(
    path: Seq<char>,
    is_get: bool,
    referer: Option<Seq<char>>,
) -> Option<Seq<char>> {
    if is_get {
        Some(path)
    } else {
        match referer {
            Some(h) => url_path_of(h),
            None => None,
        }
    }
}

/// Lets a request for `path` through when it is for the login page or
/// comes from a logged-in user; otherwise it must log in first.
pub fn require_auth(path: &str, is_get: bool, session: SessionLookup, referer: Option<&str>) -> (r:
    Result<(), RequestError>)
    ensures
        path.spec_bytes() == spec_route_login() ==> r is Ok,
        path.spec_bytes() != spec_route_login() ==> match session {
            SessionLookup::Authenticated => r is Ok,
            SessionLookup::StoreError => r matches Err(
                RequestError::InternalServerError { msg },
            ) && msg == InternalServerError::SessionStore,
            SessionLookup::Anonymous => r matches Err(RequestError::LoginRequired { path: p })
                && opt_text(p) == spec_login_return_path(
                path@,
                is_get,
                match referer {
                    Some(h) => Some(h@),
                    None => None,
                },
            ),
        },
{
    let login = route_login();
    if path.as_bytes().len() == login.len() && starts_with(path.as_bytes(), login.as_slice()) {
        proof {
            assert(path.spec_bytes() =~= spec_route_login());
        }
        return Ok(());
    }
    proof {
        if path.spec_bytes() == spec_route_login() {
            assert(path.spec_bytes().take(path.spec_bytes().len() as int) =~= path.spec_bytes());
            assert(has_prefix(path.spec_bytes(), spec_route_login()));
        }
    }
    match session {
        SessionLookup::Authenticated => Ok(()),
        SessionLookup::StoreError => Err(
            RequestError::InternalServerError { msg: InternalServerError::SessionStore },
        ),
        SessionLookup::Anonymous => {
            let return_path = if is_get {
                Some(path.to_owned())
            } else {
                match referer {
                    Some(h) => url_path(h),
                    None => None,
                }
            };
            Err(RequestError::LoginRequired { path: return_path })
        },
    }
}

/// What to do with a request given whether the consensus is set up.
#[derive(PartialEq, Eq, Structural, Clone, Copy, Debug)]
pub enum InitRedirect {
    /// Handle the request.
    Proceed,
    /// Send the user to the start page.
    RedirectToUi,
    /// Send the user to the page that sets up the consensus.
    RedirectToInit,
}

/// Before the consensus is set up, every page but the setup and login pages
/// redirects to the setup page; afterwards the setup page redirects to the
/// start page.
pub fn consensus_init_redirect(initialized: bool, path: &[u8]) -> (r: InitRedirect)
    ensures
        r == (if initialized {
            if path@ == spec_route_init_consensus() {
                InitRedirect::RedirectToUi
            } else {
                InitRedirect::Proceed
            }
        } else if path@ == spec_route_init_consensus() || path@ == spec_route_login() {
            InitRedirect::Proceed
        } else {
            InitRedirect::RedirectToInit
        }),
{
    let init = route_init_consensus();
    let login = route_login();
    let is_init = path.len() == init.len() && starts_with(path, init.as_slice());
    let is_login = path.len() == login.len() && starts_with(path, login.as_slice());
    proof {
        if is_init {
            assert(path@ =~= spec_route_init_consensus());
        }
        assert(path@.take(path@.len() as int) =~= path@);
        if path@ == spec_route_init_consensus() {
            assert(has_prefix(path@, spec_route_init_consensus()));
        }
        if is_login {
            assert(path@ =~= spec_route_login());
        }
        if path@ == spec_route_login() {
            assert(has_prefix(path@, spec_route_login()));
        }
    }
    if initialized {
        if is_init {
            InitRedirect::RedirectToUi
        } else {
            InitRedirect::Proceed
        }
    } else if is_init || is_login {
        InitRedirect::Proceed
    } else {
        InitRedirect::RedirectToInit
    }
}

/// `text/css`
pub open spec fn spec_text_css() -> Seq<u8> {
    seq![116u8, 101u8, 120u8, 116u8, 47u8, 99u8, 115u8, 115u8]
}

/// `text/html`
pub open spec fn spec_text_html() -> Seq<u8> {
    seq![116u8, 101u8, 120u8, 116u8, 47u8, 104u8, 116u8, 109u8, 108u8]
}

fn text_css() -> (r: Vec<u8>)
    ensures
        r@ == spec_text_css(),
{
    let r = vec![116u8, 101u8, 120u8, 116u8, 47u8, 99u8, 115u8, 115u8];
    proof {
        assert(r@ =~= spec_text_css());
    }
    r
}

fn text_html() -> (r: Vec<u8>)
    ensures
        r@ == spec_text_html(),
{
    let r = vec![116u8, 101u8, 120u8, 116u8, 47u8, 104u8, 116u8, 109u8, 108u8];
    proof {
        assert(r@ =~= spec_text_html());
    }
    r
}

/// How long, in seconds, a response of type `content_type` may be cached:
/// ten minutes for style sheets, never for HTML, an hour for the rest.
pub fn cache_max_age_secs(content_type: &[u8]) -> (r: Option<u32>)
    ensures
        r == (if has_prefix(content_type@, spec_text_css()) {
            Some(600u32)
        } else if has_prefix(content_type@, spec_text_html()) {
            None
        } else {
            Some(3600u32)
        }),
{
    let css = text_css();
    let html = text_html();
    if starts_with(content_type, css.as_slice()) {
        Some(10 * 60)
    } else if starts_with(content_type, html.as_slice()) {
        None
    } else {
        Some(60 * 60)
    }
}

/// The message of an error page that replaces a non-HTML error answer.
#[derive(PartialEq, Eq, Structural, Clone, Copy, Debug)]
pub enum HypermediaError {
    /// "Invalid Data", for client errors.
    InvalidData,
    /// "Server Error", for server errors.
    ServerError,
}

/// Which error page replaces an answer with status `status` and content
/// type `content_type`: none unless it is an error answer of a type other
/// than HTML.
pub fn hypermedia_error(status: u16, content_type: Option<&[u8]>) -> (r: Option<HypermediaError>)
    ensures
        r == (if !(400 <= status <= 499 || 500 <= status <= 599) || match content_type {
            None => true,
            Some(ct) => has_prefix(ct@, spec_text_html()),
        } {
            None
        } else if 400 <= status <= 499 {
            Some(HypermediaError::InvalidData)
        } else {
            Some(HypermediaError::ServerError)
        }),
{
    let client = 400 <= status && status <= 499;
    let server = 500 <= status && status <= 599;
    if !(client || server) {
        return None;
    }
    let is_html = match content_type {
        None => true,
        Some(ct) => {
            let html = text_html();
            starts_with(ct, html.as_slice())
        },
    };
    if is_html {
        None
    } else if client {
        Some(HypermediaError::InvalidData)
    } else {
        Some(HypermediaError::ServerError)
    }
}

/// `password`, without surrounding white space, hashes to `expected`.
pub open spec fn password_matches_spec(password: Seq<char>, expected: Seq<u8>) -> bool {
    blake3_digest(encode_utf8(trimmed(password))) == expected
}

/// Whether `password`, without surrounding white space, hashes to the
/// stored hash `expected`.
pub fn password_matches(password: &str, expected: &[u8; 32]) -> (r: bool)
    ensures
        r == password_matches_spec(password@, expected@),
{
    let trimmed_password = trim(password);
    let bytes = trimmed_password.as_bytes();
    let hash = blake3_hash(bytes);
    proof {
        assert(bytes@ == encode_utf8(trimmed(password@)));
        assert(hash@ == blake3_digest(encode_utf8(trimmed(password@))));
    }
    let mut i: usize = 0;
    while i < 32
        invariant
            0 <= i <= 32,
            hash@.len() == 32,
            expected@.len() == 32,
            hash@ == blake3_digest(encode_utf8(trimmed(password@))),
            forall|j: int| 0 <= j < i ==> hash@[j] == expected@[j],
        decreases 32 - i,
    {
        if hash[i] != expected[i] {
            proof {
                assert(hash@[i as int] != expected@[i as int]);
            }
            return false;
        }
        i = i + 1;
    }
    proof {
        assert(hash@ =~= expected@);
    }
    true
}

/// What a successful login leads to.
#[derive(Debug)]
pub enum LoginAction {
    /// Store the new password, then log in and go to `location`.
    ChangePasswordAndLogin { location: Vec<u8> },
    /// Log in and go to `location`.
    Login { location: Vec<u8> },
}

/// Where a user goes after logging in: the page named in the form, else
/// the start page.
pub open spec fn spec_login_redirect(redirect: Option<String>) -> Seq<u8> {
    match redirect {
        Some(r) => encode_utf8(r@),
        None => spec_route_ui(),
    }
}

/// Decides a login attempt. While the password is temporary, the
/// temporary password must be given and match, and the password typed is
/// the new one; otherwise the password typed must match. A wrong password
/// sends the user back to the login page.
pub fn login(
    is_temporary: bool,
    temp_password: Option<&str>,
    password: &str,
    redirect: Option<String>,
    expected_hash: &[u8; 32],
) -> (r: Result<LoginAction, RequestError>)
    ensures
        is_temporary && temp_password is None ==> (r matches Err(RequestError::Other { source })
            && source@ == seq![ErrorCause::Other]),
        ({
            let checked = if is_temporary {
                temp_password
            } else {
                Some(password)
            };
            checked matches Some(c) ==> if password_matches_spec(c@, expected_hash@) {
                if is_temporary {
                    (r matches Ok(LoginAction::ChangePasswordAndLogin { location }) && location@
                        == spec_login_redirect(redirect))
                } else {
                    (r matches Ok(LoginAction::Login { location }) && location@ == spec_login_redirect(
                        redirect,
                    ))
                }
            } else {
                (r matches Err(RequestError::LoginRequired { path }) && opt_text(path) == opt_text(
                    redirect,
                ))
            }
        }),
{
    let checked = if is_temporary {
        match temp_password {
            Some(t) => t,
            None => {
                let mut source: Vec<ErrorCause> = Vec::new();
                source.push(ErrorCause::Other);
                proof {
                    assert(source@ =~= seq![ErrorCause::Other]);
                }
                return Err(RequestError::Other { source });
            },
        }
    } else {
        password
    };
    if !password_matches(checked, expected_hash) {
        return Err(RequestError::LoginRequired { path: redirect });
    }
    let mut location: Vec<u8> = Vec::new();
    match &redirect {
        Some(r) => {
            push_all(&mut location, r.as_str().as_bytes());
        },
        None => {
            let ui = route_ui();
            push_all(&mut location, ui.as_slice());
        },
    }
    proof {
        assert(location@ =~= spec_login_redirect(redirect));
    }
    if is_temporary {
        Ok(LoginAction::ChangePasswordAndLogin { location })
    } else {
        Ok(LoginAction::Login { location })
    }
}

} // verus!
