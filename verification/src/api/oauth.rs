//! Values used during app registration and the OAuth authorization flow:
//! permission scopes, the registration form, and the authorization URL.

use vstd::prelude::*;
use vstd::string::StringExecFns;
use crate::encoding::{form_encode, spec_form_encoded};

verus! {

/// One `key=value` pair of a form-encoded body, both sides encoded.
pub open spec fn spec_form_pair(key: Seq<char>, value: Seq<char>) -> Seq<char> {
    spec_form_encoded(key) + "="@ + spec_form_encoded(value)
}

/// An app registration request: the fields posted to the app-creation
/// endpoint.
#[derive(Clone, Debug)]
pub struct App {
    pub client_name: String,
    pub redirect_uris: String,
    pub scopes: Scopes,
    pub website: String,
}

impl App {
    /// The registration request as an `application/x-www-form-urlencoded`
    /// body: the four fields as encoded `key=value` pairs joined by `&`.
    pub fn as_form_urlencoded(&self) -> (r: String)
        ensures
            r@ == spec_form_pair("client_name"@, self.client_name@) + "&"@ + spec_form_pair(
                "redirect_uris"@,
                self.redirect_uris@,
            ) + "&"@ + spec_form_pair("scopes"@, self.scopes.0@) + "&"@ + spec_form_pair(
                "website"@,
                self.website@,
            ),
    {
        let mut body = form_pair("client_name", self.client_name.as_str());
        body.append("&");
        let p2 = form_pair("redirect_uris", self.redirect_uris.as_str());
        body.append(p2.as_str());
        body.append("&");
        let p3 = form_pair("scopes", self.scopes.0.as_str());
        body.append(p3.as_str());
        body.append("&");
        let p4 = form_pair("website", self.website.as_str());
        body.append(p4.as_str());
        body
    }
}

/// One form-encoded `key=value` pair.
fn form_pair(key: &str, value: &str) -> (r: String)
    ensures
        r@ == spec_form_pair(key@, value@),
{
    let mut pair = form_encode(key);
    pair.append("=");
    let v = form_encode(value);
    pair.append(v.as_str());
    pair
}

/// What a scope is called in a request parameter.
pub open spec fn spec_scope_param(s: Scope) -> Seq<char> {
    match s {
        Scope::Read => "read"@,
        Scope::Write => "write"@,
        Scope::Follow => "follow"@,
    }
}

/// The scope list as one space-separated parameter value.
pub open spec fn spec_scopes_joined(ss: Seq<Scope>) -> Seq<char>
    decreases ss.len(),
{
    if ss.len() == 0 {
        Seq::<char>::empty()
    } else if ss.len() == 1 {
        spec_scope_param(ss[0])
    } else {
        spec_scope_param(ss[0]) + " "@ + spec_scopes_joined(ss.skip(1))
    }
}

/// One permission an app can ask for.
#[derive(Clone, Copy, Debug, PartialEq, Eq, Structural)]
pub enum Scope {
    Read,
    Write,
    Follow,
}

impl Scope {
    /// The scope's name as it appears in request parameters.
    pub fn as_param(&self) -> (r: &'static str)
        ensures
            r@ == spec_scope_param(*self),
    {
        match *self {
            Scope::Read => "read",
            Scope::Write => "write",
            Scope::Follow => "follow",
        }
    }
}

/// A set of requested scopes, kept as the space-separated parameter value.
#[derive(Clone, Debug)]
pub struct Scopes(pub String);

impl Scopes {
    /// Builds the parameter value for the given scopes, space-separated, in
    /// the order given.
    pub fn new(scopes: &[Scope]) -> (r: Scopes)
        ensures
            r.0@ == spec_scopes_joined(scopes@),
    {
        let mut joined = String::new();
        let mut i: usize = 0;
        while i < scopes.len()
            invariant
                i <= scopes@.len(),
                joined@ == spec_scopes_joined(scopes@.take(i as int)),
            decreases scopes@.len() - i,
        {
            if i > 0 {
                joined.append(" ");
            }
            joined.append(scopes[i].as_param());
            proof {
                lemma_scopes_joined_take_step(scopes@, i as int);
            }
            i += 1;
        }
        proof {
            assert(scopes@.take(scopes@.len() as int) =~= scopes@);
        }
        Scopes(joined)
    }

    /// Wraps an already-joined scope string verbatim.
    pub fn from_str(scopes: &str) -> (r: Scopes)
        ensures
            r.0@ == scopes@,
    {
        Scopes(scopes.to_owned())
    }
}

/// Extending the joined parameter value by one more scope appends a space
/// (after the first scope) and the scope's name.
proof fn lemma_scopes_joined_take_step(ss: Seq<Scope>, i: int)
    requires
        0 <= i < ss.len(),
    ensures
        spec_scopes_joined(ss.take(i + 1)) == if i == 0 {
            spec_scope_param(ss[0])
        } else {
            spec_scopes_joined(ss.take(i)) + " "@ + spec_scope_param(ss[i])
        },
    decreases i,
{
    let pre = ss.take(i + 1);
    if i == 0 {
        assert(pre.len() == 1);
        assert(pre[0] == ss[0]);
    } else {
        assert(pre.skip(1) =~= ss.skip(1).take(i));
        assert(ss.take(i).skip(1) =~= ss.skip(1).take(i - 1));
        lemma_scopes_joined_take_step(ss.skip(1), i - 1);
        assert(ss.skip(1)[i - 1] == ss[i]);
        if i == 1 {
            assert(spec_scopes_joined(pre) == spec_scope_param(ss[0]) + " "@ + spec_scope_param(
                ss[1],
            ));
            assert(spec_scopes_joined(ss.take(1)) == spec_scope_param(ss[0]));
        } else {
            assert(spec_scopes_joined(pre) == spec_scope_param(ss[0]) + " "@
                + spec_scopes_joined(ss.skip(1).take(i)));
            assert(spec_scopes_joined(ss.take(i)) == spec_scope_param(ss[0]) + " "@
                + spec_scopes_joined(ss.skip(1).take(i - 1)));
            assert((spec_scope_param(ss[0]) + " "@ + spec_scopes_joined(ss.skip(1).take(i - 1)))
                + " "@ + spec_scope_param(ss[i]) =~= spec_scope_param(ss[0]) + " "@
                + (spec_scopes_joined(ss.skip(1).take(i - 1)) + " "@ + spec_scope_param(ss[i])));
        }
    }
}

/// The redirect URI that asks the service to display the authorization code
/// out of band instead of redirecting.
pub const OOB_REDIRECT_URI: &'static str = "urn:ietf:wg:oauth:2.0:oob";

/// The URL a user visits to authorize an app: the instance's authorization
/// endpoint with the client id and redirect URI passed through verbatim.
pub fn authorization_url(instance_url: &str, client_id: &str, redirect_uri: &str) -> (r: String)
    ensures
        r@ == instance_url@ + "/oauth/authorize?client_id="@ + client_id@
            + "&response_type=code&redirect_uri="@ + redirect_uri@,
{
    let mut url = instance_url.to_owned();
    url.append("/oauth/authorize?client_id=");
    url.append(client_id);
    url.append("&response_type=code&redirect_uri=");
    url.append(redirect_uri);
    url
}

/// What the service answers when an app is registered.
#[derive(Clone, Debug)]
pub struct CreateAppResponse {
    pub id: u32,
    pub redirect_uri: String,
    pub client_id: String,
    pub client_secret: String,
}

/// What the service answers when an authorization code is exchanged for a
/// token.
#[derive(Debug)]
pub struct TokenResponse {
    pub access_token: String,
    pub refresh_token: Option<String>,
    pub token_type: String,
    pub expires_in: Option<u64>,
    pub scope: Option<String>,
}

} // verus!
