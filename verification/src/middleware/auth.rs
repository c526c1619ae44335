//! Authentication by API key, or by a bearer token where JWT is enabled.

use vstd::prelude::*;
use dashmap::DashMap;
use crate::headers::{HeaderList, HeaderListView};
use crate::middleware::{Middleware, Stage};
use crate::net::string_views;
use crate::session::{MwResult, Rejection, Session, SessionView};
use crate::shared_map::{key_set_contains, key_set_contents, key_set_insert, key_set_is_empty, key_set_new};

verus! {

/// `p` is a prefix of `s`.
pub open spec fn has_prefix(s: Seq<char>, p: Seq<char>) -> bool {
    p.len() <= s.len() && s.subrange(0, p.len() as int) == p
}

/// `p` is a prefix of `s` exactly when `s` is `p` followed by something.
pub proof fn lemma_has_prefix(s: Seq<char>, p: Seq<char>, t: Seq<char>)
    ensures
        has_prefix(p + t, p),
        has_prefix(s, p) ==> s == p + s.skip(p.len() as int),
        s.len() < p.len() ==> !has_prefix(s, p),
{
    assert((p + t).subrange(0, p.len() as int) =~= p);
    if has_prefix(s, p) {
        assert(s =~= p + s.skip(p.len() as int));
    }
}

/// Whether `p` is a prefix of `s`.
pub fn starts_with(s: &str, p: &str) -> (res: bool)
    ensures
        res == has_prefix(s@, p@),
{
    let n = p.unicode_len();
    if n > s.unicode_len() {
        return false;
    }
    let mut i: usize = 0;
    while i < n
        invariant
            n == p@.len(),
            n <= s@.len(),
            i <= n,
            forall|j: int| 0 <= j < i ==> s@[j] == p@[j],
        decreases n - i,
    {
        if s.get_char(i) != p.get_char(i) {
            assert(s@.subrange(0, n as int)[i as int] != p@[i as int]);
            return false;
        }
        i = i + 1;
    }
    assert(s@.subrange(0, n as int) =~= p@);
    true
}

/// The authentication decision: a known `x-api-key` admits; where JWT is
/// enabled, an `authorization` header that starts with `Bearer ` admits; with
/// no keys configured and JWT disabled every request is admitted; anything else
/// is unauthorized.
pub open spec fn auth_verdict(keys: Set<Seq<char>>, jwt: bool, req: HeaderListView) -> MwResult {
    if req.get("x-api-key"@) matches Some(k) && keys.contains(k) {
        Ok(())
    } else if jwt && (req.get("authorization"@) matches Some(a) && has_prefix(a, "Bearer "@)) {
        Ok(())
    } else if keys == Set::<Seq<char>>::empty() && !jwt {
        Ok(())
    } else {
        Err(Rejection::Unauthorized)
    }
}

/// A request presenting a known API key is always admitted, whatever the
/// bearer-token settings; with no key configured and bearer tokens disabled,
/// every request is admitted; a request with neither a known key nor (where
/// enabled) a bearer token is refused once a key is configured.
pub proof fn lemma_auth_admission(keys: Set<Seq<char>>, jwt: bool, req: HeaderListView)
    ensures
        (req.get("x-api-key"@) matches Some(k) && keys.contains(k)) ==> auth_verdict(keys, jwt, req) is Ok,
        (keys == Set::<Seq<char>>::empty() && !jwt) ==> auth_verdict(keys, jwt, req) is Ok,
        (jwt && (req.get("authorization"@) matches Some(a) && has_prefix(a, "Bearer "@))) ==> auth_verdict(keys, jwt, req) is Ok,
        (!jwt && !(req.get("x-api-key"@) matches Some(k) && keys.contains(k)) && keys != Set::<Seq<char>>::empty())
            ==> auth_verdict(keys, jwt, req) == Err::<(), Rejection>(Rejection::Unauthorized),
        (keys != Set::<Seq<char>>::empty() && !(req.get("x-api-key"@) matches Some(k) && keys.contains(k))
            && !(jwt && (req.get("authorization"@) matches Some(a) && has_prefix(a, "Bearer "@))))
            ==> auth_verdict(keys, jwt, req) == Err::<(), Rejection>(Rejection::Unauthorized),
{
}

/// Admits requests that present an accepted credential.
pub struct AuthMw {
    keys: DashMap<String, ()>,
    jwt_enabled: bool,
    pub_key_pem: Option<String>,
}

impl AuthMw {
    /// The accepted API keys.
    pub closed spec fn key_set(self) -> Set<Seq<char>> {
        key_set_contents(self.keys)
    }

    /// Whether bearer tokens are accepted.
    pub closed spec fn jwt(self) -> bool {
        self.jwt_enabled
    }

    /// The public key that tokens would be checked against.
    pub closed spec fn pem(self) -> Option<Seq<char>> {
        match self.pub_key_pem {
            Some(p) => Some(p@),
            None => None,
        }
    }

    /// What the middleware does at a stage: only arriving requests are checked,
    /// and the session is never changed.
    pub open spec fn spec_run(self, stage: Stage, s: SessionView) -> (SessionView, MwResult) {
        match stage {
            Stage::Request => (s, auth_verdict(self.key_set(), self.jwt(), s.req)),
            _ => (s, Ok(())),
        }
    }

    /// An authenticator accepting exactly the keys of `keys`.
    pub fn new(keys: Vec<String>, jwt_enabled: bool, pub_key_pem: Option<String>) -> (res: AuthMw)
        ensures
            res.key_set() == string_views(keys@).to_set(),
            res.jwt() == jwt_enabled,
            res.pem() == (match pub_key_pem {
                Some(p) => Some(p@),
                None => None::<Seq<char>>,
            }),
    {
        let ghost views = string_views(keys@);
        let mut map = key_set_new();
        let mut i: usize = 0;
        assert(views.take(0).to_set() =~= Set::<Seq<char>>::empty());
        while i < keys.len()
            invariant
                i <= keys.len(),
                views == string_views(keys@),
                key_set_contents(map) == views.take(i as int).to_set(),
            decreases keys.len() - i,
        {
            let k = keys[i].clone();
            key_set_insert(&mut map, k);
            proof {
                let before = views.take(i as int);
                let after = views.take(i + 1);
                assert(after =~= before.push(views[i as int]));
                assert forall|x: Seq<char>| after.contains(x) <==> (before.contains(x) || x == views[i as int]) by {
                    if after.contains(x) {
                        let j = choose|j: int| 0 <= j < after.len() && after[j] == x;
                        if j < i {
                            assert(before[j] == x);
                        }
                    }
                    if before.contains(x) {
                        let j = choose|j: int| 0 <= j < before.len() && before[j] == x;
                        assert(after[j] == x);
                    }
                    if x == views[i as int] {
                        assert(after[i as int] == x);
                    }
                }
                assert(after.to_set() =~= before.to_set().insert(views[i as int]));
            }
            i = i + 1;
        }
        assert(views.take(keys.len() as int) =~= views);
        AuthMw { keys: map, jwt_enabled, pub_key_pem }
    }

    /// The authentication decision for a request's headers.
    pub fn check(&self, req: &HeaderList) -> (res: MwResult)
        ensures
            res == auth_verdict(self.key_set(), self.jwt(), req@),
    {
        let key_name = String::from_str("x-api-key");
        if let Some(k) = req.get(&key_name) {
            if key_set_contains(&self.keys, k.as_str()) {
                return Ok(());
            }
        }
        if self.jwt_enabled {
            let auth_name = String::from_str("authorization");
            if let Some(a) = req.get(&auth_name) {
                if starts_with(a.as_str(), "Bearer ") {
                    return Ok(());
                }
            }
        }
        if key_set_is_empty(&self.keys) && !self.jwt_enabled {
            return Ok(());
        }
        Err(Rejection::Unauthorized)
    }
}

impl Middleware for AuthMw {
    fn on_request(&mut self, s: &mut Session) -> (r: MwResult)
        ensures
            *final(self) == *old(self),
            (final(s)@, r) == old(self).spec_run(Stage::Request, old(s)@),
    {
        self.check(&s.req_headers)
    }


}

} // verus!
