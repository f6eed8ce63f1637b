//! The web client's view of the server API: where each call goes and what
//! credentials it carries. Sending the requests happens outside this library.

use vstd::prelude::*;
use vstd::string::*;

use crate::text::{chars_of, push_char, push_signed_decimal, signed_decimal};

verus! {

/// Calls that need no login.
#[derive(Clone, Copy)]
pub struct UnauthorizedApi {
    pub url: &'static str,
}

/// Calls made on behalf of a logged-in user.
pub struct AuthorizedApi {
    pub url: &'static str,
    pub token: String,
}

impl UnauthorizedApi {
    /// An API rooted at `url`.
    pub fn new(url: &'static str) -> (r: Self)
        ensures
            r.url == url,
    {
        Self { url }
    }

    /// Where registrations are posted.
    pub fn register_url(&self) -> (r: String)
        ensures
            r@ == self.url@ + "/auth/register"@,
    {
        let mut r = String::from_str(self.url);
        r.append("/auth/register");
        r
    }

    /// Where logins are posted.
    pub fn login_url(&self) -> (r: String)
        ensures
            r@ == self.url@ + "/auth/login"@,
    {
        let mut r = String::from_str(self.url);
        r.append("/auth/login");
        r
    }

    /// The API of the user a login answered for.
    pub fn logged_in(&self, token: String) -> (r: AuthorizedApi)
        ensures
            r.url == self.url,
            r.token == token,
    {
        AuthorizedApi::new(self.url, token)
    }

    /// Where the share card for an amount and (lowercase) unit is fetched.
    pub fn card_url(&self, amt: &str, unit_lower: &str) -> (r: String)
        ensures
            r@ == self.url@ + "/measures/card?amt="@ + amt@ + "&unit="@ + unit_lower@,
    {
        let mut r = String::from_str(self.url);
        r.append("/measures/card?amt=");
        r.append(amt);
        r.append("&unit=");
        r.append(unit_lower);
        r
    }
}

/// A search query with each space written as `%20`.
pub open spec fn spaces_encoded(q: Seq<char>) -> Seq<char>
    decreases q.len(),
{
    if q.len() == 0 {
        Seq::empty()
    } else {
        spaces_encoded(q.drop_last()) + if q.last() == ' ' {
            "%20"@
        } else {
            seq![q.last()]
        }
    }
}

impl AuthorizedApi {
    /// An API rooted at `url` that sends `token`.
    pub fn new(url: &'static str, token: String) -> (r: Self)
        ensures
            r.url == url,
            r.token == token,
    {
        Self { url, token }
    }

    /// The `Authorization` header value.
    pub fn auth_header_value(&self) -> (r: String)
        ensures
            r@ == "Bearer "@ + self.token@,
    {
        let mut r = String::from_str("Bearer ");
        r.append(self.token.as_str());
        r
    }

    /// Where the current user is fetched.
    pub fn current_user_url(&self) -> (r: String)
        ensures
            r@ == self.url@ + "/user/current"@,
    {
        let mut r = String::from_str(self.url);
        r.append("/user/current");
        r
    }

    /// Where measures are listed and added.
    pub fn measures_url(&self) -> (r: String)
        ensures
            r@ == self.url@ + "/measures"@,
    {
        let mut r = String::from_str(self.url);
        r.append("/measures");
        r
    }

    /// Where one measure is fetched, updated or deleted.
    pub fn measure_url(&self, id: i32) -> (r: String)
        ensures
            r@ == self.url@ + "/measures/"@ + signed_decimal(id as int),
    {
        let mut r = String::from_str(self.url);
        r.append("/measures/");
        push_signed_decimal(&mut r, id as i64);
        r
    }

    /// Where the emoji index is searched (60 results at most).
    pub fn emoji_search_url(&self, query: &str) -> (r: String)
        ensures
            r@ == self.url@ + "/emoji?limit=60&q="@ + spaces_encoded(query@),
    {
        let mut r = String::from_str(self.url);
        r.append("/emoji?limit=60&q=");
        let ghost start = r@;
        let cs = chars_of(query);
        let mut i: usize = 0;
        assert(cs@.take(0) =~= Seq::<char>::empty());
        while i < cs.len()
            invariant
                i <= cs.len(),
                cs@ == query@,
                r@ == start + spaces_encoded(cs@.take(i as int)),
            decreases cs.len() - i,
        {
            assert(cs@.take(i + 1).drop_last() =~= cs@.take(i as int));
            if cs[i] == ' ' {
                r.append("%20");
            } else {
                push_char(&mut r, cs[i]);
            }
            assert(r@ =~= start + spaces_encoded(cs@.take(i + 1)));
            i = i + 1;
        }
        assert(cs@.take(cs.len() as int) =~= query@);
        r
    }
}

} // verus!
