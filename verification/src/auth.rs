//! Bearer-token authentication of a request, as a state machine.
//!
//! The machine reads the authorization header, has the token decoded, reads
//! the user's identifier out of the claims, has the user looked up, and
//! lets the request through. Each failure ends the request with a status
//! code of its own.

use vstd::prelude::*;
use vstd::string::*;

use crate::ids::{uuid_from_text, uuid_parse};
use crate::text::chars_of;

verus! {

/// The request is malformed.
pub const BAD_REQUEST: u16 = 400;

/// The token was not accepted.
pub const UNAUTHORIZED: u16 = 401;

/// The user could not be looked up.
pub const INTERNAL_SERVER_ERROR: u16 = 500;

/// Whether a character separates words: the characters with the Unicode
/// property `White_Space`.
pub open spec fn is_space(c: char) -> bool {
    let n = c as u32;
    (0x09 <= n <= 0x0d) || n == 0x20 || n == 0x85 || n == 0xa0 || n == 0x1680 || (0x2000 <= n
        <= 0x200a) || n == 0x2028 || n == 0x2029 || n == 0x202f || n == 0x205f || n == 0x3000
}

/// The first position at or behind `from` that holds no separator.
pub open spec fn skip_spaces(text: Seq<char>, from: int) -> int
    decreases text.len() - from,
{
    if 0 <= from < text.len() && is_space(text[from]) {
        skip_spaces(text, from + 1)
    } else {
        from
    }
}

/// The first position at or behind `from` that holds a separator, or the
/// end of the text.
pub open spec fn skip_word(text: Seq<char>, from: int) -> int
    decreases text.len() - from,
{
    if 0 <= from < text.len() && !is_space(text[from]) {
        skip_word(text, from + 1)
    } else {
        from
    }
}

/// Where the second word of a text begins; the length of the text where it
/// has fewer than two words.
pub open spec fn second_word_start(text: Seq<char>) -> int {
    skip_spaces(text, skip_word(text, skip_spaces(text, 0)))
}

/// The second of the words of a text, where words are the longest runs of
/// characters that are no separators. In `Bearer abc.def` it is `abc.def`.
pub open spec fn second_word(text: Seq<char>) -> Option<Seq<char>> {
    let start = second_word_start(text);
    if start < text.len() {
        Some(text.subrange(start, skip_word(text, start)))
    } else {
        None
    }
}

fn is_space_char(c: char) -> (r: bool)
    ensures
        r == is_space(c),
{
    let n: u32 = c as u32;
    (0x09 <= n && n <= 0x0d) || n == 0x20 || n == 0x85 || n == 0xa0 || n == 0x1680 || (0x2000
        <= n && n <= 0x200a) || n == 0x2028 || n == 0x2029 || n == 0x202f || n == 0x205f || n
        == 0x3000
}

fn spaces_end(chars: &Vec<char>, from: usize) -> (end: usize)
    requires
        from <= chars@.len(),
    ensures
        end == skip_spaces(chars@, from as int),
        from <= end <= chars@.len(),
{
    let mut i: usize = from;
    while i < chars.len() && is_space_char(chars[i])
        invariant
            from <= i <= chars@.len(),
            skip_spaces(chars@, from as int) == skip_spaces(chars@, i as int),
        decreases chars@.len() - i,
    {
        i += 1;
    }
    i
}

fn word_end(chars: &Vec<char>, from: usize) -> (end: usize)
    requires
        from <= chars@.len(),
    ensures
        end == skip_word(chars@, from as int),
        from <= end <= chars@.len(),
{
    let mut i: usize = from;
    while i < chars.len() && !is_space_char(chars[i])
        invariant
            from <= i <= chars@.len(),
            skip_word(chars@, from as int) == skip_word(chars@, i as int),
        decreases chars@.len() - i,
    {
        i += 1;
    }
    i
}

/// The token of an authorization header: its second word.
pub fn bearer_token(header: &str) -> (token: Option<String>)
    ensures
        match token {
            Some(text) => second_word(header@) == Some(text@),
            None => second_word(header@) is None,
        },
{
    let chars = chars_of(header);
    let lead = spaces_end(&chars, 0);
    let scheme_end = word_end(&chars, lead);
    let start = spaces_end(&chars, scheme_end);
    if start < chars.len() {
        let end = word_end(&chars, start);
        Some(String::from_str(header.substring_char(start, end)))
    } else {
        None
    }
}

/// How far the authentication of a request has come.
#[derive(Clone, Copy, Debug, PartialEq, Eq, Structural)]
pub enum AuthState {
    /// Nothing has been looked at.
    AwaitingHeader,
    /// The token is being decoded.
    AwaitingClaims,
    /// The user is being looked up.
    AwaitingUser,
    /// The request has been let through or turned away.
    Finished,
}

/// What the driver reports.
#[derive(Debug, PartialEq, Eq)]
pub enum AuthEvent {
    /// The authorization header as text; `None` where the request has none
    /// or it is no text.
    Header { value: Option<String> },
    /// The user identifier in the claims of the token; `None` where the
    /// token was not accepted.
    Claims { user_id: Option<String> },
    /// Whether the user was found.
    User { found: bool },
}

/// An [`AuthEvent`] as a mathematical value.
pub enum AuthEventView {
    Header { value: Option<Seq<char>> },
    Claims { user_id: Option<Seq<char>> },
    User { found: bool },
}

impl View for AuthEvent {
    type V = AuthEventView;

    open spec fn view(&self) -> AuthEventView {
        match self {
            AuthEvent::Header { value } => AuthEventView::Header {
                value: match value {
                    Some(text) => Some(text@),
                    None => None,
                },
            },
            AuthEvent::Claims { user_id } => AuthEventView::Claims {
                user_id: match user_id {
                    Some(text) => Some(text@),
                    None => None,
                },
            },
            AuthEvent::User { found } => AuthEventView::User { found: *found },
        }
    }
}

/// What the driver is asked to do.
#[derive(Debug, PartialEq, Eq)]
pub enum AuthAction {
    /// Decode `token` and report its claims.
    DecodeToken { token: String },
    /// Look the user with the UUID bits `user_id` up.
    LoadUser { user_id: u128 },
    /// Attach the user to the request and let it through.
    Forward,
    /// Turn the request away with `status`.
    Reject { status: u16 },
}

/// An [`AuthAction`] as a mathematical value.
pub enum AuthActionView {
    DecodeToken { token: Seq<char> },
    LoadUser { user_id: u128 },
    Forward,
    Reject { status: u16 },
}

impl View for AuthAction {
    type V = AuthActionView;

    open spec fn view(&self) -> AuthActionView {
        match self {
            AuthAction::DecodeToken { token } => AuthActionView::DecodeToken { token: token@ },
            AuthAction::LoadUser { user_id } => AuthActionView::LoadUser { user_id: *user_id },
            AuthAction::Forward => AuthActionView::Forward,
            AuthAction::Reject { status } => AuthActionView::Reject { status: *status },
        }
    }
}

/// Turns the request away.
pub open spec fn reject(status: u16) -> (AuthState, AuthActionView) {
    (AuthState::Finished, AuthActionView::Reject { status })
}

/// Whether the machine can answer `event` in `state`. The one report it
/// cannot answer is a header with fewer than two words.
pub open spec fn answerable(state: AuthState, event: AuthEventView) -> bool {
    state is AwaitingHeader ==> (event matches AuthEventView::Header { value: Some(text) }
        ==> second_word(text) is Some)
}

/// The transition table of the authentication.
///
/// A missing or unreadable header is a bad request, a token that is not
/// accepted is unauthorized, a user identifier that is no UUID is a bad
/// request, and a user that cannot be looked up is an internal error. A
/// report that the current state does not wait for is an internal error
/// too.
pub open spec fn auth_next(state: AuthState, event: AuthEventView) -> (AuthState, AuthActionView) {
    match state {
        AuthState::AwaitingHeader => match event {
            AuthEventView::Header { value: Some(text) } => match second_word(text) {
                Some(token) => (AuthState::AwaitingClaims, AuthActionView::DecodeToken { token }),
                None => reject(BAD_REQUEST),
            },
            AuthEventView::Header { value: None } => reject(BAD_REQUEST),
            _ => reject(INTERNAL_SERVER_ERROR),
        },
        AuthState::AwaitingClaims => match event {
            AuthEventView::Claims { user_id: Some(text) } => match uuid_parse(text) {
                Some(user_id) => (AuthState::AwaitingUser, AuthActionView::LoadUser { user_id }),
                None => reject(BAD_REQUEST),
            },
            AuthEventView::Claims { user_id: None } => reject(UNAUTHORIZED),
            _ => reject(INTERNAL_SERVER_ERROR),
        },
        AuthState::AwaitingUser => match event {
            AuthEventView::User { found: true } => (AuthState::Finished, AuthActionView::Forward),
            _ => reject(INTERNAL_SERVER_ERROR),
        },
        AuthState::Finished => reject(INTERNAL_SERVER_ERROR),
    }
}

/// Decides what becomes of claims whose user identifier reads `parsed`.
pub fn user_from_claims(parsed: Option<u128>) -> (r: (AuthState, AuthAction))
    ensures
        r.0 == (match parsed {
            Some(_) => AuthState::AwaitingUser,
            None => AuthState::Finished,
        }),
        r.1@ == (match parsed {
            Some(user_id) => AuthActionView::LoadUser { user_id },
            None => AuthActionView::Reject { status: BAD_REQUEST },
        }),
{
    match parsed {
        Some(user_id) => (AuthState::AwaitingUser, AuthAction::LoadUser { user_id }),
        None => (AuthState::Finished, AuthAction::Reject { status: BAD_REQUEST }),
    }
}

/// Advances the authentication of a request by one report.
pub fn auth_middleware(state: AuthState, event: AuthEvent) -> (r: (AuthState, AuthAction))
    requires
        answerable(state, event@),
    ensures
        (r.0, r.1@) == auth_next(state, event@),
{
    match state {
        AuthState::AwaitingHeader => match event {
            AuthEvent::Header { value: Some(text) } => match bearer_token(text.as_str()) {
                Some(token) => (AuthState::AwaitingClaims, AuthAction::DecodeToken { token }),
                None => (AuthState::Finished, AuthAction::Reject { status: BAD_REQUEST }),
            },
            AuthEvent::Header { value: None } => (
                AuthState::Finished,
                AuthAction::Reject { status: BAD_REQUEST },
            ),
            _ => (AuthState::Finished, AuthAction::Reject { status: INTERNAL_SERVER_ERROR }),
        },
        AuthState::AwaitingClaims => match event {
            AuthEvent::Claims { user_id: Some(text) } => user_from_claims(
                uuid_from_text(text.as_str()),
            ),
            AuthEvent::Claims { user_id: None } => (
                AuthState::Finished,
                AuthAction::Reject { status: UNAUTHORIZED },
            ),
            _ => (AuthState::Finished, AuthAction::Reject { status: INTERNAL_SERVER_ERROR }),
        },
        AuthState::AwaitingUser => match event {
            AuthEvent::User { found: true } => (AuthState::Finished, AuthAction::Forward),
            _ => (AuthState::Finished, AuthAction::Reject { status: INTERNAL_SERVER_ERROR }),
        },
        AuthState::Finished => (
            AuthState::Finished,
            AuthAction::Reject { status: INTERNAL_SERVER_ERROR },
        ),
    }
}

/// A request is let through only at the end of the whole check: in answer
/// to the report that the user was found, after the token was decoded and
/// the identifier in it was read as a UUID.
pub proof fn law_forward_needs_user(state: AuthState, event: AuthEventView)
    ensures
        auth_next(state, event).1 is Forward ==> state is AwaitingUser && event == (
        AuthEventView::User { found: true }),
        auth_next(state, event).1 is LoadUser ==> state is AwaitingClaims,
        auth_next(state, event).1 is DecodeToken ==> state is AwaitingHeader,
        auth_next(state, event).1 matches AuthActionView::Reject { status } ==> status
            == BAD_REQUEST || status == UNAUTHORIZED || status == INTERNAL_SERVER_ERROR,
{
}

} // verus!
