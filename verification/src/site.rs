//! The decisions of the site's request handlers: where a visitor is sent,
//! who may sign in, and which addresses the GitHub sign-in uses.
use vstd::prelude::*;

use crate::decimal::parse_i32_text;
use crate::decimal::parse_post_id;
use crate::markup::opt_text;
use crate::text::{push_str, same_text, string_from_chars};

verus! {

/// The string that the JSON pointer `pointer` selects in the JSON document
/// `body`, as `serde_json` reads it; `None` where `body` is not JSON, the
/// pointer selects nothing, or what it selects is not a string.
pub uninterp spec fn json_text_at(body: Seq<u8>, pointer: Seq<char>) -> Option<Seq<char>>;

/// Reads `body` with `serde_json::from_slice` into a `serde_json::Value`
/// and takes the string at `pointer` with `Value::pointer` and
/// `Value::as_str`.  The contract only names the result.
#[verifier::external_body]
fn json_text(body: &[u8], pointer: &str) -> (r: Option<String>)
    ensures
        opt_text(r) == json_text_at(body@, pointer@),
{
    let document = serde_json::from_slice::<serde_json::Value>(body).ok()?;
    let text = document.pointer(pointer)?.as_str()?;
    Some(text.to_owned())
}

/// The access token in GitHub's reply to a token request.
pub fn access_token_from(reply: &[u8]) -> (r: Option<String>)
    ensures
        opt_text(r) == json_text_at(reply@, "/access_token"@),
{
    json_text(reply, "/access_token")
}

/// The login in GitHub's description of an account.
pub fn login_from(account: &[u8]) -> (r: Option<String>)
    ensures
        opt_text(r) == json_text_at(account@, "/login"@),
{
    json_text(account, "/login")
}

/// The GitHub login of the site's owner, the one account that may sign in.
pub open spec fn owner_login() -> Seq<char> {
    "tcr"@
}

/// Whether a GitHub account with this login is given a session.
pub fn is_site_owner(login: &str) -> (r: bool)
    ensures
        r == (login@ == owner_login()),
{
    same_text(login, "tcr")
}

/// The session a visitor holds after GitHub reports that they signed in as
/// `login`, given the session `before` they held: the owner is given a
/// session named by their login, anyone else keeps what they had.
pub open spec fn session_after_sign_in(before: Option<Seq<char>>, login: Seq<char>) -> Option<
    Seq<char>,
> {
    if login == owner_login() {
        Some(login)
    } else {
        before
    }
}

/// The session value to store for a visitor whom GitHub reports signed in
/// as `login`; `None` where no session is given.
pub fn session_for_login(login: &str) -> (r: Option<String>)
    ensures
        opt_text(r) == (if login@ == owner_login() {
            Some(login@)
        } else {
            None
        }),
        forall|before: Option<Seq<char>>|
            #![trigger session_after_sign_in(before, login@)]
            session_after_sign_in(before, login@) == match opt_text(r) {
                Some(v) => Some(v),
                None => before,
            },
{
    if is_site_owner(login) {
        Some(login.to_owned())
    } else {
        None
    }
}

/// Once GitHub has reported a sign-in as the owner, the session kept from it
/// sends a later visit of the sign-in page home, whatever session the
/// visitor held before.
pub proof fn law_owner_sign_in_then_login_goes_home(before: Option<Seq<char>>, login: Seq<char>)
    requires
        login == owner_login(),
    ensures
        session_after_sign_in(before, login) is Some,
        login_target(session_after_sign_in(before, login) is Some) == LoginAction::Home,
{
}

/// A sign-in by anyone other than the owner leaves the visitor's session as
/// it was, so a visitor without one is still sent to sign in.
pub proof fn law_other_sign_in_keeps_session(before: Option<Seq<char>>, login: Seq<char>)
    requires
        login != owner_login(),
    ensures
        session_after_sign_in(before, login) == before,
        before is None ==> login_target(session_after_sign_in(before, login) is Some)
            == LoginAction::SignIn,
{
}

pub open spec fn authorize_url_text(client_id: Seq<char>, redirect_uri: Seq<char>) -> Seq<char> {
    "https://github.com/login/oauth/authorize?client_id="@ + client_id + "&redirect_uri="@
        + redirect_uri
}

/// Address of GitHub's sign-in page for this site.
pub fn authorize_url(client_id: &str, redirect_uri: &str) -> (r: String)
    ensures
        r@ == authorize_url_text(client_id@, redirect_uri@),
{
    let mut out: Vec<char> = Vec::new();
    push_str(&mut out, "https://github.com/login/oauth/authorize?client_id=");
    push_str(&mut out, client_id);
    push_str(&mut out, "&redirect_uri=");
    push_str(&mut out, redirect_uri);
    string_from_chars(out.as_slice())
}

pub open spec fn access_token_url_text(
    client_id: Seq<char>,
    client_secret: Seq<char>,
    code: Seq<char>,
) -> Seq<char> {
    "https://github.com/login/oauth/access_token?client_id="@ + client_id + "&client_secret="@
        + client_secret + "&code="@ + code
}

/// Address at which the code of a GitHub sign-in is exchanged for an
/// access token.
pub fn access_token_url(client_id: &str, client_secret: &str, code: &str) -> (r: String)
    ensures
        r@ == access_token_url_text(client_id@, client_secret@, code@),
{
    let mut out: Vec<char> = Vec::new();
    push_str(&mut out, "https://github.com/login/oauth/access_token?client_id=");
    push_str(&mut out, client_id);
    push_str(&mut out, "&client_secret=");
    push_str(&mut out, client_secret);
    push_str(&mut out, "&code=");
    push_str(&mut out, code);
    string_from_chars(out.as_slice())
}

pub open spec fn user_url_text(access_token: Seq<char>) -> Seq<char> {
    "https://api.github.com/user?access_token="@ + access_token
}

/// Address of the GitHub account that an access token belongs to.
pub fn user_url(access_token: &str) -> (r: String)
    ensures
        r@ == user_url_text(access_token@),
{
    let mut out: Vec<char> = Vec::new();
    push_str(&mut out, "https://api.github.com/user?access_token=");
    push_str(&mut out, access_token);
    string_from_chars(out.as_slice())
}

/// Where a visitor of the sign-in page is sent.
#[derive(Debug, PartialEq, Eq, Structural)]
pub enum LoginAction {
    /// To GitHub's sign-in page.
    SignIn,
    /// Back to the home page.
    Home,
}

/// Where the sign-in page sends a visitor with or without a session.
pub open spec fn login_target(logged_in: bool) -> LoginAction {
    if logged_in {
        LoginAction::Home
    } else {
        LoginAction::SignIn
    }
}

/// Visitors without a session are sent to sign in; the others go home.
pub fn login_action(logged_in: bool) -> (r: LoginAction)
    ensures
        r == login_target(logged_in),
{
    if logged_in {
        LoginAction::Home
    } else {
        LoginAction::SignIn
    }
}

/// What a submitted new post leads to.
#[derive(Debug, PartialEq, Eq, Structural)]
pub enum NewPostAction {
    /// The visitor has no session and is sent to sign in.
    SignIn,
    /// The post is stored, then the visitor is sent home.
    Create,
}

/// Only a signed-in visitor may create a post.
pub fn new_post_action(logged_in: bool) -> (r: NewPostAction)
    ensures
        r == (if logged_in {
            NewPostAction::Create
        } else {
            NewPostAction::SignIn
        }),
{
    if logged_in {
        NewPostAction::Create
    } else {
        NewPostAction::SignIn
    }
}

/// What a submitted edit leads to.
#[derive(Debug, PartialEq, Eq, Structural)]
pub enum EditAction {
    /// The visitor has no session and is sent to sign in.
    SignIn,
    /// The post with this id is updated, then the visitor is sent home.
    Update { id: i32 },
    /// The id field of the form is not a valid post id.
    BadId,
}

/// A signed-in visitor's edit updates the post whose id the form names.
pub fn edit_action(logged_in: bool, id_text: &str) -> (r: EditAction)
    ensures
        !logged_in ==> r == EditAction::SignIn,
        logged_in ==> r == (match parse_i32_text(id_text@) {
            Some(id) => EditAction::Update { id },
            None => EditAction::BadId,
        }),
{
    if !logged_in {
        return EditAction::SignIn;
    }
    match parse_post_id(id_text) {
        Some(id) => EditAction::Update { id },
        None => EditAction::BadId,
    }
}

/// The port the site listens on: 80 in production, 8000 otherwise.
pub fn server_port(production: bool) -> (r: u16)
    ensures
        r == (if production {
            80u16
        } else {
            8000u16
        }),
{
    if production {
        80
    } else {
        8000
    }
}

} // verus!
