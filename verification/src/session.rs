//! The session resolver: a stable per-caller identifier carried in a private
//! cookie.
//!
//! The jar models the private (decrypted, authenticated) cookies of one
//! request/response exchange; a cookie the surrounding code could not decode
//! is simply not in the jar, so tampering degrades to absence. Resolution
//! returns the existing `session` value untouched, or mints a fresh
//! identifier and adds exactly one cookie for it.

use vstd::prelude::*;

use crate::phonetic_key::get_random_id;
use crate::phonetic_key::is_valid_identifier;

verus! {

/// The `SameSite` attribute of a cookie.
#[derive(Clone, Copy, Debug, PartialEq, Eq, Structural)]
pub enum SameSitePolicy {
    Strict,
    Lax,
}

/// A private cookie, already decoded: name, value and response attributes.
pub struct Cookie {
    pub name: String,
    pub value: String,
    pub domain: Option<String>,
    pub same_site: Option<SameSitePolicy>,
    pub secure: bool,
    pub permanent: bool,
}

/// The mathematical value of a [`Cookie`].
pub struct CookieView {
    pub name: Seq<char>,
    pub value: Seq<char>,
    pub domain: Option<Seq<char>>,
    pub same_site: Option<SameSitePolicy>,
    pub secure: bool,
    pub permanent: bool,
}

impl View for Cookie {
    type V = CookieView;

    open spec fn view(&self) -> CookieView {
        CookieView {
            name: self.name@,
            value: self.value@,
            domain: match self.domain {
                Some(s) => Some(s@),
                None => None,
            },
            same_site: self.same_site,
            secure: self.secure,
            permanent: self.permanent,
        }
    }
}

/// The private cookies of one request/response exchange, in the order they
/// were stored. Adding under an existing name shadows the older cookie: the
/// most recently added one is the one read back.
pub struct CookieJar {
    pub cookies: Vec<Cookie>,
}

/// The value of the most recently added cookie named `name`, if any.
pub open spec fn lookup(cookies: Seq<CookieView>, name: Seq<char>) -> Option<Seq<char>>
    decreases cookies.len(),
{
    if cookies.len() == 0 {
        None
    } else if cookies.last().name == name {
        Some(cookies.last().value)
    } else {
        lookup(cookies.drop_last(), name)
    }
}

impl View for CookieJar {
    type V = Seq<CookieView>;

    open spec fn view(&self) -> Seq<CookieView> {
        self.cookies@.map_values(|c: Cookie| c@)
    }
}

impl CookieJar {
    /// A jar with no cookies.
    pub fn new() -> (jar: Self)
        ensures
            jar@ == Seq::<CookieView>::empty(),
    {
        CookieJar { cookies: Vec::new() }
    }

    /// Store a private cookie; it shadows any older cookie of the same name.
    pub fn add_private(&mut self, cookie: Cookie)
        ensures
            final(self)@ == old(self)@.push(cookie@),
    {
        self.cookies.push(cookie);
    }

    /// Read the private cookie named `name` back from the jar.
    pub fn get_private(&self, name: &String) -> (r: Option<String>)
        ensures
            match r {
                Some(v) => lookup(self@, name@) == Some(v@),
                None => lookup(self@, name@) is None,
            },
    {
        let mut i: usize = self.cookies.len();
        proof {
            assert(self@.take(i as int) =~= self@);
        }
        while i > 0
            invariant
                i <= self.cookies.len(),
                lookup(self@, name@) == lookup(self@.take(i as int), name@),
            decreases i,
        {
            i = i - 1;
            proof {
                assert(self@.take(i + 1 as int).drop_last() =~= self@.take(i as int));
                assert(self@.take(i + 1 as int).last() == self@[i as int]);
            }
            if self.cookies[i].name == *name {
                return Some(self.cookies[i].value.clone());
            }
        }
        proof {
            assert(self@.take(0) =~= Seq::<CookieView>::empty());
        }
        None
    }
}

/// The cookie that carries a freshly minted session identifier: private,
/// named `session`, scoped to the serving site, `SameSite=Lax`, `Secure`,
/// and permanent.
pub open spec fn spec_session_cookie(value: Seq<char>) -> CookieView {
    CookieView {
        name: "session"@,
        value: value,
        domain: Some(".dscv.it"@),
        same_site: Some(SameSitePolicy::Lax),
        secure: true,
        permanent: true,
    }
}

/// A jar that had no `session` cookie reads the minted identifier back after
/// resolution: looking `session` up in the jar the resolver leaves behind
/// yields exactly the identifier it returned.
pub proof fn lemma_minted_cookie_reads_back(jar: Seq<CookieView>, id: Seq<char>)
    ensures
        lookup(jar.push(spec_session_cookie(id)), "session"@) == Some(id),
{
    assert(jar.push(spec_session_cookie(id)).last() == spec_session_cookie(id));
}

/// Resolve the caller's stable identifier. An existing `session` cookie is
/// returned unchanged and the jar is not touched; otherwise a fresh
/// identifier is minted and stored under exactly one new `session` cookie.
pub fn get_session_id(ck: &mut CookieJar) -> (id: String)
    ensures
        match lookup(old(ck)@, "session"@) {
            Some(v) => id@ == v && final(ck)@ == old(ck)@,
            None => is_valid_identifier(id@) && final(ck)@ == old(ck)@.push(
                spec_session_cookie(id@),
            ),
        },
{
    let name: String = "session".to_owned();
    match ck.get_private(&name) {
        Some(v) => v,
        None => {
            let user_id = get_random_id();
            let cookie = Cookie {
                name: "session".to_owned(),
                value: user_id.clone(),
                domain: Some(".dscv.it".to_owned()),
                same_site: Some(SameSitePolicy::Lax),
                secure: true,
                permanent: true,
            };
            ck.add_private(cookie);
            user_id
        },
    }
}

} // verus!
