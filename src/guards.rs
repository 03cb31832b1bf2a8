use vstd::prelude::*;

use crate::text::str_eq;
use crate::year::first_index_of;

verus! {

/// The credential a request carries in its `Authorization` header.
pub enum AuthToken {
    /// No header.
    Missing,
    /// `Basic <value>`.
    Basic(String),
    /// `Bearer <value>`.
    Bearer(String),
    /// `<scheme> <value>` for any other scheme, as written.
    Uncategorized(String, String),
    /// A header without a space.
    Unprefixed(String),
}

pub enum AuthTokenModel {
    Missing,
    Basic(Seq<char>),
    Bearer(Seq<char>),
    Uncategorized(Seq<char>, Seq<char>),
    Unprefixed(Seq<char>),
}

impl View for AuthToken {
    type V = AuthTokenModel;

    open spec fn view(&self) -> AuthTokenModel {
        match self {
            AuthToken::Missing => AuthTokenModel::Missing,
            AuthToken::Basic(v) => AuthTokenModel::Basic(v@),
            AuthToken::Bearer(v) => AuthTokenModel::Bearer(v@),
            AuthToken::Uncategorized(p, v) => AuthTokenModel::Uncategorized(p@, v@),
            AuthToken::Unprefixed(v) => AuthTokenModel::Unprefixed(v@),
        }
    }
}

/// What `str::to_lowercase` returns for `s`.
pub uninterp spec fn lower_of(s: Seq<char>) -> Seq<char>;

/// Relies on `str::to_lowercase`: the lower-case form of a string, which
/// depends on its characters alone.
#[verifier::external_body]
fn lowercase(s: &str) -> (r: String)
    ensures
        r@ == lower_of(s@),
{
    s.to_lowercase()
}

/// The token of a header `<prefix> <value>` whose prefix, in lower case, is
/// `lowered`.
pub open spec fn token_of_parts(prefix: Seq<char>, lowered: Seq<char>, value: Seq<char>) -> AuthTokenModel {
    if lowered == "basic"@ {
        AuthTokenModel::Basic(value)
    } else if lowered == "bearer"@ {
        AuthTokenModel::Bearer(value)
    } else {
        AuthTokenModel::Uncategorized(prefix, value)
    }
}

/// The token a header carries: split at its first space into a scheme and a
/// value, the scheme compared without regard to case.
pub open spec fn token_of(header: Option<Seq<char>>) -> AuthTokenModel {
    match header {
        None => AuthTokenModel::Missing,
        Some(h) => {
            let k = first_index_of(h, ' ');
            if k < h.len() {
                token_of_parts(h.take(k), lower_of(h.take(k)), h.skip(k + 1))
            } else {
                AuthTokenModel::Unprefixed(h)
            }
        },
    }
}

impl AuthToken {
    /// Sorts a header `<prefix> <value>` by its scheme, given the prefix in
    /// lower case as `lowered`: `basic`, `bearer`, or any other.
    pub fn from_parts(prefix: &str, lowered: &str, value: &str) -> (r: AuthToken)
        ensures
            r@ == token_of_parts(prefix@, lowered@, value@),
    {
        if str_eq(lowered, "basic") {
            AuthToken::Basic(String::from_str(value))
        } else if str_eq(lowered, "bearer") {
            AuthToken::Bearer(String::from_str(value))
        } else {
            AuthToken::Uncategorized(String::from_str(prefix), String::from_str(value))
        }
    }

    /// The token that an `Authorization` header carries (`None` when the
    /// request has no such header).
    pub fn from_header(header: Option<&str>) -> (r: AuthToken)
        ensures
            r@ == token_of(
                match header {
                    Some(h) => Some(h@),
                    None => None,
                },
            ),
    {
        match header {
            None => AuthToken::Missing,
            Some(h) => {
                let n = h.unicode_len();
                let mut k: usize = 0;
                while k < n && h.get_char(k) != ' '
                    invariant
                        n == h@.len(),
                        k <= n,
                        forall|j: int| 0 <= j < k ==> h@[j] != ' ',
                    decreases n - k,
                {
                    k = k + 1;
                }
                proof {
                    crate::year::lemma_first_index_is(h@, ' ', k as int);
                }
                if k < n {
                    let prefix = h.substring_char(0, k);
                    let value = h.substring_char(k + 1, n);
                    assert(prefix@ =~= h@.take(k as int));
                    assert(value@ =~= h@.skip(k + 1));
                    let lowered = lowercase(prefix);
                    AuthToken::from_parts(prefix, lowered.as_str(), value)
                } else {
                    AuthToken::Unprefixed(String::from_str(h))
                }
            },
        }
    }
}

/// Settings of the HTTP front end.
pub struct Config {
    /// The bearer token that requests must carry; with none, every request
    /// is let through.
    pub auth_token: Option<String>,
}

impl Config {
    /// Whether a request carrying `token` may use the automation routes.
    pub fn authorizes(&self, token: &AuthToken) -> (r: bool)
        ensures
            r == match self.auth_token {
                None => true,
                Some(t) => token@ matches AuthTokenModel::Bearer(b) && b == t@,
            },
    {
        match &self.auth_token {
            None => true,
            Some(t) => match token {
                AuthToken::Bearer(b) => str_eq(b.as_str(), t.as_str()),
                _ => false,
            },
        }
    }
}

} // verus!
