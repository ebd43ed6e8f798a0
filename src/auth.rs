//! Basic-Auth credentials and the authentication stage of the request chain.
//!
//! The stage is split into decisions: [`AuthMiddleware::begin`] reads the
//! `Authorization` header and consults the credential cache, and
//! [`AuthMiddleware::complete`] takes the identity backend's verdict. The
//! caller performs the backend call in between, only when asked to.

use vstd::prelude::*;
use crate::cred_cache::{after_lookup, cache_cred, cached_password, get_cached_cred, CredCache, CredView};
use crate::text::{find_char, first_at, has_prefix, lemma_first_at_unique, starts_with};

verus! {

/// What standard base64 (with padding) decodes `text` to; `None` when the text
/// is not valid base64.
pub uninterp spec fn base64_decoded(text: Seq<char>) -> Option<Seq<u8>>;

/// The text that `bytes` read as UTF-8, each invalid sequence replaced by
/// U+FFFD.
pub uninterp spec fn utf8_lossy(bytes: Seq<u8>) -> Seq<char>;

/// Relies on `base64_simd::STANDARD.decode_to_vec`: the decoded bytes, or an
/// error when the text is not valid padded base64.
#[verifier::external_body]
fn decode_base64(text: &str) -> (r: Option<Vec<u8>>)
    ensures
        match r {
            Some(b) => base64_decoded(text@) == Some(b@),
            None => base64_decoded(text@) is None,
        },
{
    base64_simd::STANDARD.decode_to_vec(text).ok()
}

/// Relies on `String::from_utf8_lossy`: the bytes read as UTF-8, invalid
/// sequences replaced.
#[verifier::external_body]
fn lossy_text(bytes: &Vec<u8>) -> (r: String)
    ensures
        r@ == utf8_lossy(bytes@),
{
    String::from_utf8_lossy(bytes).into_owned()
}

/// A user name and password as a request presents them.
#[derive(Clone, Debug)]
pub struct Cred {
    pub username: String,
    pub password: String,
}

pub open spec fn basic_prefix() -> Seq<char> {
    seq!['B', 'a', 's', 'i', 'c', ' ']
}

/// `text` holds a colon.
pub open spec fn has_colon(text: Seq<char>) -> bool {
    exists|i: int| first_at(text, ':', i)
}

/// User name and password of a decoded payload: the text is split at its
/// first colon; without a colon there is no credential.
pub open spec fn credential_of(text: Seq<char>) -> Option<(Seq<char>, Seq<char>)> {
    if has_colon(text) {
        let i = choose|i: int| first_at(text, ':', i);
        Some((text.subrange(0, i), text.subrange(i + 1, text.len() as int)))
    } else {
        None
    }
}

/// The credential that an `Authorization` header value carries, if it has the
/// `Basic ` scheme, valid base64 and a colon in the decoded text.
pub open spec fn basic_credential(header: Seq<char>) -> Option<(Seq<char>, Seq<char>)> {
    if has_prefix(header, basic_prefix()) {
        match base64_decoded(header.subrange(6, header.len() as int)) {
            Some(bytes) => credential_of(utf8_lossy(bytes)),
            None => None,
        }
    } else {
        None
    }
}

/// The credential that an optional `Authorization` header carries.
pub open spec fn header_credential(header: Option<Seq<char>>) -> Option<(Seq<char>, Seq<char>)> {
    match header {
        Some(h) => basic_credential(h),
        None => None,
    }
}

pub open spec fn opt_view(header: Option<&str>) -> Option<Seq<char>> {
    match header {
        Some(h) => Some(h@),
        None => None,
    }
}

/// Splits a decoded payload at its first colon into user name and password.
pub fn split_credential(text: &str) -> (r: Option<Cred>)
    ensures
        match r {
            Some(c) => credential_of(text@) == Some((c.username@, c.password@)),
            None => credential_of(text@) is None,
        },
{
    match find_char(text, ':') {
        Some(i) => {
            let n = text.unicode_len();
            let username = String::from_str(text.substring_char(0, i));
            let password = String::from_str(text.substring_char(i + 1, n));
            proof {
                assert(has_colon(text@));
                let k = choose|k: int| first_at(text@, ':', k);
                lemma_first_at_unique(text@, ':', i as int, k);
            }
            Some(Cred { username, password })
        },
        None => {
            proof {
                assert forall|k: int| !first_at(text@, ':', k) by {
                    if 0 <= k < text@.len() {
                        assert(text@[k] != ':');
                    }
                }
            }
            None
        },
    }
}

/// The credential carried by an `Authorization` header value: it must start
/// with `Basic `, the rest must be valid base64, and the decoded text is split
/// at its first colon. Anything else carries no credential.
pub fn read_cred_from_basic_auth(header: &str) -> (r: Option<Cred>)
    ensures
        match r {
            Some(c) => basic_credential(header@) == Some((c.username@, c.password@)),
            None => basic_credential(header@) is None,
        },
{
    proof {
        reveal_strlit("Basic ");
        assert("Basic "@ =~= basic_prefix());
    }
    if !starts_with(header, "Basic ") {
        return None;
    }
    let n = header.unicode_len();
    let payload = header.substring_char(6, n);
    match decode_base64(payload) {
        Some(bytes) => {
            let text = lossy_text(&bytes);
            split_credential(text.as_str())
        },
        None => None,
    }
}

/// A header without the `Basic ` scheme, with a payload that is not base64,
/// or whose decoded payload holds no colon carries no credential, so
/// [`AuthMiddleware::begin`] refuses it and never asks the identity backend.
pub proof fn lemma_malformed_header_refused(header: Seq<char>)
    requires
        !has_prefix(header, basic_prefix()) || base64_decoded(header.subrange(6, header.len() as int)) is None
            || (base64_decoded(header.subrange(6, header.len() as int)) matches Some(b) && !has_colon(
            utf8_lossy(b),
        )),
    ensures
        basic_credential(header) is None,
        header_credential(Some(header)) is None,
{
}

/// Why a request was refused; both answer HTTP 401.
#[derive(Clone, Copy, Debug, PartialEq, Eq, Structural)]
pub enum AuthFailure {
    /// No usable `Basic` credential in the request.
    CredentialRequired,
    /// The identity backend did not accept the credential.
    IncorrectCredential,
}

pub open spec fn failure_message(f: AuthFailure) -> Seq<char> {
    match f {
        AuthFailure::CredentialRequired => "basic auth is required"@,
        AuthFailure::IncorrectCredential => "incorrect username or password"@,
    }
}

impl AuthFailure {
    /// The HTTP status of the refusal.
    pub fn status(&self) -> (r: u16)
        ensures
            r == 401,
    {
        401
    }

    /// The fixed body of the refusal; it never holds the password.
    pub fn message(&self) -> (r: String)
        ensures
            r@ == failure_message(*self),
    {
        match self {
            AuthFailure::CredentialRequired => String::from_str("basic auth is required"),
            AuthFailure::IncorrectCredential => String::from_str("incorrect username or password"),
        }
    }
}

/// What the authentication stage asks of its caller next.
#[derive(Debug)]
pub enum AuthStep {
    /// The request is authenticated: run the rest of the chain.
    Proceed,
    /// Answer with the refusal; the rest of the chain does not run.
    Reject(AuthFailure),
    /// Ask the identity backend about this credential, then call
    /// [`AuthMiddleware::complete`] with its verdict.
    Verify(Cred),
}

/// The authentication stage. It owns the credential cache.
pub struct AuthMiddleware {
    pub cache: CredCache,
}

impl AuthMiddleware {
    pub fn new() -> (r: AuthMiddleware)
        ensures
            r.cache@ == CredView::empty(),
    {
        AuthMiddleware { cache: CredCache::new() }
    }

    /// First decision for a request whose `Authorization` header is
    /// `authorization`, at time `now` (seconds).
    ///
    /// Without a usable credential the request is refused with
    /// [`AuthFailure::CredentialRequired`]. A credential whose password equals
    /// the fresh cached one proceeds at once; any other is handed to the
    /// identity backend.
    pub fn begin(&mut self, authorization: Option<&str>, now: u64) -> (r: AuthStep)
        ensures
            match header_credential(opt_view(authorization)) {
                None => r == AuthStep::Reject(AuthFailure::CredentialRequired) && final(self).cache@ == old(
                    self,
                ).cache@,
                Some((u, p)) => final(self).cache@ == after_lookup(old(self).cache@, u, now) && if cached_password(
                    old(self).cache@,
                    u,
                    now,
                ) == Some(p) {
                    r is Proceed
                } else {
                    r matches AuthStep::Verify(c) && c.username@ == u && c.password@ == p
                },
            },
    {
        let cred = match authorization {
            Some(h) => read_cred_from_basic_auth(h),
            None => None,
        };
        match cred {
            None => AuthStep::Reject(AuthFailure::CredentialRequired),
            Some(cred) => self.check_cached(cred, now),
        }
    }

    /// First decision for a credential already read from the request: it
    /// proceeds at once when its password equals the fresh cached one, and is
    /// otherwise handed to the identity backend.
    pub fn check_cached(&mut self, cred: Cred, now: u64) -> (r: AuthStep)
        ensures
            final(self).cache@ == after_lookup(old(self).cache@, cred.username@, now),
            if cached_password(old(self).cache@, cred.username@, now) == Some(cred.password@) {
                r is Proceed
            } else {
                r matches AuthStep::Verify(c) && c.username@ == cred.username@ && c.password@ == cred.password@
            },
    {
        let cached = get_cached_cred(&mut self.cache, cred.username.as_str(), now);
        match cached {
            Some(p) => {
                if p == cred.password {
                    AuthStep::Proceed
                } else {
                    AuthStep::Verify(cred)
                }
            },
            None => AuthStep::Verify(cred),
        }
    }

    /// Second decision, after the identity backend judged `cred`: an accepted
    /// credential is cached at time `now` and the request proceeds; a refused
    /// one answers [`AuthFailure::IncorrectCredential`].
    pub fn complete(&mut self, cred: Cred, accepted: bool, now: u64) -> (r: AuthStep)
        ensures
            accepted ==> r is Proceed && final(self).cache@ == old(self).cache@.insert(
                cred.username@,
                (cred.password@, now),
            ),
            !accepted ==> r == AuthStep::Reject(AuthFailure::IncorrectCredential) && final(self).cache@ == old(
                self,
            ).cache@,
    {
        if accepted {
            cache_cred(&mut self.cache, cred.username.as_str(), cred.password, now);
            AuthStep::Proceed
        } else {
            AuthStep::Reject(AuthFailure::IncorrectCredential)
        }
    }
}

/// Sum of the code points of a text.
pub open spec fn char_sum(s: Seq<char>) -> nat
    decreases s.len(),
{
    if s.len() == 0 {
        0
    } else {
        char_sum(s.drop_last()) + (s.last() as u32) as nat
    }
}

/// The stripe, out of `stripes`, that holds the cache entry of `username`.
pub open spec fn stripe_of(username: Seq<char>, stripes: nat) -> nat
    recommends
        stripes > 0,
{
    char_sum(username) % stripes
}

/// The stripe, out of `stripes`, that holds the cache entry of `username`.
/// A user always maps to the same stripe, so each stripe can be locked on its
/// own.
pub fn stripe_index(username: &str, stripes: usize) -> (r: usize)
    requires
        stripes > 0,
    ensures
        r == stripe_of(username@, stripes as nat),
        r < stripes,
{
    let n = username.unicode_len();
    let mut acc: usize = 0;
    let mut i: usize = 0;
    proof {
        assert(username@.subrange(0, 0) =~= Seq::<char>::empty());
        vstd::arithmetic::div_mod::lemma_small_mod(0, stripes as nat);
    }
    while i < n
        invariant
            n == username@.len(),
            i <= n,
            stripes > 0,
            acc < stripes,
            acc == char_sum(username@.subrange(0, i as int)) % (stripes as nat),
        decreases n - i,
    {
        let c = username.get_char(i) as u32 as usize;
        let d = c % stripes;
        let next = if acc >= stripes - d {
            acc - (stripes - d)
        } else {
            acc + d
        };
        proof {
            if acc >= stripes - d {
                vstd::arithmetic::div_mod::lemma_mod_sub_multiples_vanish((acc + d) as int, stripes as int);
                vstd::arithmetic::div_mod::lemma_small_mod(next as nat, stripes as nat);
            } else {
                vstd::arithmetic::div_mod::lemma_small_mod((acc + d) as nat, stripes as nat);
            }
            assert(next == (acc + d) % (stripes as int));
            let pre = username@.subrange(0, i as int);
            let step = username@.subrange(0, i + 1);
            assert(step.drop_last() =~= pre);
            assert(char_sum(step) == char_sum(pre) + c);
            vstd::arithmetic::div_mod::lemma_add_mod_noop(char_sum(pre) as int, c as int, stripes as int);
            vstd::arithmetic::div_mod::lemma_mod_twice(char_sum(pre) as int, stripes as int);
            vstd::arithmetic::div_mod::lemma_mod_twice(c as int, stripes as int);
        }
        acc = next;
        i = i + 1;
    }
    proof {
        assert(username@.subrange(0, n as int) =~= username@);
    }
    acc
}

/// Where the authentication stage sends a request, given the `Authorization`
/// header and the number of cache stripes.
#[derive(Debug)]
pub enum AuthRoute {
    /// Refuse the request at once.
    Reject(AuthFailure),
    /// Check the credential against the cache stripe `stripe` with
    /// [`AuthMiddleware::check_cached`].
    Check { stripe: usize, cred: Cred },
}

/// Reads the credential of a request and picks the cache stripe for it; a
/// request without a usable credential is refused.
pub fn route_credential(authorization: Option<&str>, stripes: usize) -> (r: AuthRoute)
    requires
        stripes > 0,
    ensures
        match header_credential(opt_view(authorization)) {
            None => r == AuthRoute::Reject(AuthFailure::CredentialRequired),
            Some((u, p)) => r matches AuthRoute::Check { stripe, cred } && stripe == stripe_of(u, stripes as nat)
                && stripe < stripes && cred.username@ == u && cred.password@ == p,
        },
{
    let cred = match authorization {
        Some(h) => read_cred_from_basic_auth(h),
        None => None,
    };
    match cred {
        None => AuthRoute::Reject(AuthFailure::CredentialRequired),
        Some(cred) => {
            let stripe = stripe_index(cred.username.as_str(), stripes);
            AuthRoute::Check { stripe, cred }
        },
    }
}

} // verus!
