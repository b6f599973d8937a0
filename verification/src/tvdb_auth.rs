//! Logging in: what is sent, and how the token that comes back is kept.

use vstd::prelude::*;
use vstd::string::*;

use crate::tvdb_errors::TvdbError;
use crate::BASE_URL;

verus! {

/// The address of the login endpoint.
pub fn login_url() -> (r: String)
    ensures
        r@ == BASE_URL@ + "/login"@,
{
    String::from_str(BASE_URL).concat("/login")
}

/// The body of a login request for `api_key`.
pub open spec fn login_body_text(api_key: Seq<char>) -> Seq<char> {
    "{\"apikey\":\""@ + api_key + "\"}"@
}

/// Builds the body of a login request for `api_key`.
pub fn login_body(api_key: &str) -> (r: String)
    ensures
        r@ == login_body_text(api_key@),
{
    String::from_str("{\"apikey\":\"").concat(api_key).concat("\"}")
}

/// The value of the `Authorization` header that presents `token`.
pub fn bearer(token: &str) -> (r: String)
    ensures
        r@ == "Bearer "@ + token@,
{
    String::from_str("Bearer ").concat(token)
}

/// A cell that can be written once.
#[verifier::external_type_specification]
#[verifier::external_body]
#[verifier::reject_recursive_types(T)]
pub struct ExOnceCell<T>(once_cell::sync::OnceCell<T>);

/// The text that a cell holds, if it holds one.
pub uninterp spec fn cell_text(cell: once_cell::sync::OnceCell<String>) -> Option<Seq<char>>;

/// Makes a cell with `OnceCell::new`, which creates an empty cell.
#[verifier::external_body]
fn empty_cell() -> (r: once_cell::sync::OnceCell<String>)
    ensures
        cell_text(r) is None,
{
    once_cell::sync::OnceCell::new()
}

/// Reads a cell with `OnceCell::get`, which gives the value held and
/// nothing for an empty cell; the value is handed out as a copy.
#[verifier::external_body]
fn cell_get(cell: &once_cell::sync::OnceCell<String>) -> (r: Option<String>)
    ensures
        r is Some <==> cell_text(*cell) is Some,
        r is Some ==> Some(r->Some_0@) == cell_text(*cell),
{
    cell.get().cloned()
}

/// Writes a cell with `OnceCell::set`, which sets the contents of an empty
/// cell and leaves a full one as it is; the answer says whether the cell
/// was empty.
#[verifier::external_body]
fn cell_set(cell: &mut once_cell::sync::OnceCell<String>, value: String) -> (r: bool)
    ensures
        r == (cell_text(*old(cell)) is None),
        r ==> cell_text(*final(cell)) == Some(value@),
        !r ==> cell_text(*final(cell)) == cell_text(*old(cell)),
{
    cell.set(value).is_ok()
}

/// The token of this process: empty until a login succeeds, then fixed.
pub struct TokenCache {
    token: once_cell::sync::OnceCell<String>,
}

impl View for TokenCache {
    type V = Option<Seq<char>>;

    closed spec fn view(&self) -> Option<Seq<char>> {
        cell_text(self.token)
    }
}

/// What `settle` does with the outcome of a login attempt: a token already
/// held stays and is the answer; otherwise a token that came is kept and is
/// the answer, and a failure is passed on and leaves the cache empty.
pub open spec fn settled(
    before: Option<Seq<char>>,
    login: Result<String, TvdbError>,
    after: Option<Seq<char>>,
    r: Result<String, TvdbError>,
) -> bool {
    match before {
        Some(held) => after == before && r is Ok && r->Ok_0@ == held,
        None => match login {
            Ok(token) => after == Some(token@) && r is Ok && r->Ok_0@ == token@,
            Err(e) => after is None && r == Err::<String, TvdbError>(e),
        },
    }
}

impl TokenCache {
    /// An empty cache.
    pub fn new() -> (r: Self)
        ensures
            r@ is None,
    {
        TokenCache { token: empty_cell() }
    }

    /// Whether a login is still to be made.
    pub fn needs_login(&self) -> (r: bool)
        ensures
            r == (self@ is None),
    {
        cell_get(&self.token).is_none()
    }

    /// The token held, if any.
    pub fn get(&self) -> (r: Option<String>)
        ensures
            r is Some <==> self@ is Some,
            r is Some ==> Some(r->Some_0@) == self@,
    {
        cell_get(&self.token)
    }

    /// Takes in the outcome of a login attempt and answers with the token
    /// to use.
    pub fn settle(&mut self, login: Result<String, TvdbError>) -> (r: Result<String, TvdbError>)
        ensures
            settled(old(self)@, login, final(self)@, r),
    {
        match cell_get(&self.token) {
            Some(held) => Ok(held),
            None => match login {
                Ok(token) => {
                    let answer = token.clone();
                    let _ = cell_set(&mut self.token, token);
                    Ok(answer)
                },
                Err(e) => Err(e),
            },
        }
    }
}

/// Once a token is held, no later outcome replaces it, and no further
/// login is asked for.
pub proof fn lemma_first_token_stays(
    before: Option<Seq<char>>,
    login: Result<String, TvdbError>,
    after: Option<Seq<char>>,
    r: Result<String, TvdbError>,
)
    requires
        before is Some,
        settled(before, login, after, r),
    ensures
        after == before,
        r is Ok,
        r->Ok_0@ == before->Some_0,
{
}

/// A failed login leaves the cache as empty as it was, so that the next
/// attempt is made afresh.
pub proof fn lemma_failure_not_kept(
    login: Result<String, TvdbError>,
    after: Option<Seq<char>>,
    r: Result<String, TvdbError>,
)
    requires
        login is Err,
        settled(None, login, after, r),
    ensures
        after is None,
        r is Err,
{
}

} // verus!
