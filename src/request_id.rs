//! Per-request correlation identifiers.
//!
//! Each request gets a [`RequestContext`] holding a fresh random identifier;
//! the context travels with the request, so the lines logged for one request
//! carry its identifier and no other.

use vstd::prelude::*;
use crate::text::push_char;

verus! {

/// Relies on `rand::random`: a value drawn from the thread-local generator.
/// Nothing is promised of it.
pub assume_specification<T>[ rand::random::<T> ]() -> (r: T)
    where
        rand::distributions::Standard: rand::distributions::Distribution<T>,
;

/// Length of a request identifier.
pub const REQ_ID_LEN: u8 = 7;

/// `c` is an ASCII letter or digit.
pub open spec fn is_id_char(c: char) -> bool {
    ('0' <= c && c <= '9') || ('a' <= c && c <= 'z') || ('A' <= c && c <= 'Z')
}

/// `s` is made of ASCII letters and digits only.
pub open spec fn is_id_text(s: Seq<char>) -> bool {
    forall|i: int| 0 <= i < s.len() ==> is_id_char(#[trigger] s[i])
}

/// The character at position `i` (below 62) of the identifier alphabet:
/// `0`-`9`, then `a`-`z`, then `A`-`Z`.
pub open spec fn id_char(i: int) -> char {
    if i < 10 {
        ((48 + i) as u8) as char
    } else if i < 36 {
        ((97 + (i - 10)) as u8) as char
    } else {
        ((65 + (i - 36)) as u8) as char
    }
}

/// The 62 identifier characters, in order.
pub open spec fn id_alphabet() -> Seq<char> {
    Seq::new(62, |i: int| id_char(i))
}

/// The identifier that the drawn bytes give: one character per byte, the
/// byte taken modulo 62 as a position in the alphabet.
pub open spec fn id_from(draws: Seq<u8>) -> Seq<char> {
    Seq::new(draws.len(), |k: int| id_alphabet()[(draws[k] % 62) as int])
}

/// Every identifier built from draws is made of letters and digits.
pub proof fn lemma_id_from_is_id_text(draws: Seq<u8>)
    ensures
        is_id_text(id_from(draws)),
        id_from(draws).len() == draws.len(),
{
    assert forall|k: int| 0 <= k < draws.len() implies is_id_char(#[trigger] id_from(draws)[k]) by {
        let i = (draws[k] % 62) as int;
        assert(0 <= i < 62);
    }
}

fn alphabet_char(i: u8) -> (c: char)
    requires
        i < 62,
    ensures
        c == id_alphabet()[i as int],
{
    if i < 10 {
        (48u8 + i) as char
    } else if i < 36 {
        (97u8 + (i - 10)) as char
    } else {
        (65u8 + (i - 36)) as char
    }
}

/// The identifier that the drawn bytes `draws` give.
pub fn id_from_draws(draws: &Vec<u8>) -> (r: String)
    ensures
        r@ == id_from(draws@),
{
    let mut r = String::new();
    let mut k: usize = 0;
    while k < draws.len()
        invariant
            k <= draws@.len(),
            r@ == id_from(draws@).subrange(0, k as int),
        decreases draws@.len() - k,
    {
        let c = alphabet_char(draws[k] % 62);
        push_char(&mut r, c);
        proof {
            assert(id_from(draws@).subrange(0, k + 1) =~= id_from(draws@).subrange(0, k as int).push(c));
        }
        k = k + 1;
    }
    proof {
        assert(id_from(draws@).subrange(0, draws@.len() as int) =~= id_from(draws@));
    }
    r
}

/// A string of `n` random ASCII letters and digits: the identifier of `n`
/// random bytes.
pub fn gen_n_random_str(n: u8) -> (r: String)
    ensures
        r@.len() == n,
        is_id_text(r@),
        exists|draws: Seq<u8>| draws.len() == n && r@ == id_from(draws),
{
    let mut draws: Vec<u8> = Vec::new();
    let mut k: u8 = 0;
    while k < n
        invariant
            k <= n,
            draws@.len() == k,
        decreases n - k,
    {
        draws.push(rand::random::<u8>());
        k = k + 1;
    }
    let r = id_from_draws(&draws);
    proof {
        lemma_id_from_is_id_text(draws@);
    }
    r
}

/// The identifier of the request being handled; empty outside any request.
pub struct RequestContext {
    pub request_id: String,
}

impl View for RequestContext {
    type V = Seq<char>;

    open spec fn view(&self) -> Seq<char> {
        self.request_id@
    }
}

impl RequestContext {
    /// The context of work done outside any request.
    pub fn detached() -> (r: RequestContext)
        ensures
            r@ == Seq::<char>::empty(),
    {
        RequestContext { request_id: String::new() }
    }
}

/// Gives the context a fresh random identifier.
pub fn set_req_id(ctx: &mut RequestContext)
    ensures
        final(ctx)@.len() == REQ_ID_LEN,
        is_id_text(final(ctx)@),
        exists|draws: Seq<u8>| draws.len() == REQ_ID_LEN && final(ctx)@ == id_from(draws),
{
    ctx.request_id = gen_n_random_str(REQ_ID_LEN);
}

/// The identifier held by the context.
pub fn get_req_id(ctx: &RequestContext) -> (r: String)
    ensures
        r@ == ctx@,
{
    ctx.request_id.clone()
}

} // verus!
