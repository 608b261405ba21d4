//! Stateless HMAC-signed session cookie.
//!
//! Cookie value: `v1.{expiry_unix}.{hmac_hex}` where
//! `hmac = HMAC-SHA256(SESSION_KEY, "v1.{expiry_unix}")` and
//! `SESSION_KEY = SHA-256("aardbin-session-v1:" + ACCESS_KEY)`.
//!
//! A token survives restarts (no server state), is invalidated by changing
//! the access key (the signing key derives from it), and cannot be made
//! without the signing key.

use crate::clock::unix_now_secs;
use crate::encoding::{concat_bytes, hex_encode, hex_lower_seq};
use crate::text::{
    all_digits, chars_eq, digit_char, digit_value, chars_of, cookie_value_for, dec_seq, digits_value, find_char_from,
    find_cookie_value, index_of_from, is_digit, lemma_encode_utf8_concat, lemma_index_of_from, lemma_utf8_injective, opt_view, parse_u64_chars, parse_u64_seq,
    push_char, push_str, push_u64, string_of, sub_chars,
};
use hmac::{Hmac, Mac};
use sha2::{Digest, Sha256};
use subtle::ConstantTimeEq;
use vstd::prelude::*;

verus! {

/// SHA-256 of `data`, as computed by the `sha2` crate.
pub uninterp spec fn sha256(data: Seq<u8>) -> Seq<u8>;

/// HMAC-SHA256 of `msg` under `key`, as computed by the `hmac` crate.
pub uninterp spec fn hmac_sha256(key: Seq<u8>, msg: Seq<u8>) -> Seq<u8>;

/// `sha2::Sha256::digest`.
#[verifier::external_body]
fn sha256_digest(data: &[u8]) -> (r: [u8; 32])
    ensures
        r@ == sha256(data@),
{
    Sha256::digest(data).into()
}

/// HMAC-SHA256 (`hmac::Hmac<Sha256>`) of `msg` under a 32-byte key. HMAC
/// accepts keys of any length, so the key setup cannot fail.
#[verifier::external_body]
fn hmac_sha256_tag(key: &[u8; 32], msg: &[u8]) -> (r: [u8; 32])
    ensures
        r@ == hmac_sha256(key@, msg@),
{
    let mut mac = <Hmac<Sha256> as Mac>::new_from_slice(key).expect("hmac accepts any key size");
    mac.update(msg);
    mac.finalize().into_bytes().into()
}

/// `subtle::ConstantTimeEq::ct_eq` on byte slices, converted to `bool`:
/// true exactly when both slices hold the same bytes.
#[verifier::external_body]
pub(crate) fn ct_eq_bytes(a: &[u8], b: &[u8]) -> (r: bool)
    ensures
        r == (a@ == b@),
{
    a.ct_eq(b).into()
}

/// Constant-time comparison of two strings by their UTF-8 bytes.
pub fn ct_eq_str(a: &str, b: &str) -> (r: bool)
    ensures
        r == (a@ == b@),
{
    let r = ct_eq_bytes(a.as_bytes(), b.as_bytes());
    proof {
        lemma_utf8_injective(a@, b@);
    }
    r
}


/// Name of the session cookie.
pub open spec fn cookie_name() -> Seq<char> {
    seq!['a', 'a', 'r', 'd', 'b', 'i', 'n', '_', 's', 'e', 's', 's', 'i', 'o', 'n']
}

/// Bytes that precede the access key in the key derivation.
pub open spec fn key_derivation_prefix() -> Seq<char> {
    seq![
        'a',
        'a',
        'r',
        'd',
        'b',
        'i',
        'n',
        '-',
        's',
        'e',
        's',
        's',
        'i',
        'o',
        'n',
        '-',
        'v',
        '1',
        ':',
    ]
}

/// The signing key derived from an access key.
pub open spec fn session_key_for(access_key: Seq<char>) -> Seq<u8> {
    sha256(vstd::utf8::encode_utf8(key_derivation_prefix() + access_key))
}

/// The signed message for an expiry: `v1.{expiry}`.
pub open spec fn session_message(expiry: u64) -> Seq<char> {
    seq!['v', '1', '.'] + dec_seq(expiry as nat)
}

/// The hex MAC of an expiry under `key`.
pub open spec fn session_mac_hex(key: Seq<u8>, expiry: u64) -> Seq<char> {
    hex_lower_seq(hmac_sha256(key, vstd::utf8::encode_utf8(session_message(expiry))))
}

/// The token issued for `expiry`: `v1.{expiry}.{mac}`.
pub open spec fn session_token(key: Seq<u8>, expiry: u64) -> Seq<char> {
    session_message(expiry) + seq!['.'] + session_mac_hex(key, expiry)
}

/// Is `value` a token accepted at time `now`? It splits at its first two
/// dots into `v1`, a decimal expiry (as `str::parse::<u64>` reads it) later
/// than `now`, and the MAC of that expiry.
pub open spec fn token_accepted(key: Seq<u8>, value: Seq<char>, now: u64) -> bool {
    let i = index_of_from(value, '.', 0);
    let j = index_of_from(value, '.', i + 1);
    &&& i >= 0
    &&& j >= 0
    &&& value.take(i) == seq!['v', '1']
    &&& match parse_u64_seq(value.subrange(i + 1, j)) {
        Some(e) => e > now && value.skip(j + 1) == session_mac_hex(key, e),
        None => false,
    }
}

/// The expiry of a token issued at `now`: `now + ttl`, capped at the largest
/// representable time.
pub open spec fn expiry_after(now: u64, ttl: u64) -> u64 {
    if now + ttl > u64::MAX {
        u64::MAX
    } else {
        (now + ttl) as u64
    }
}

/// The tail of the `Set-Cookie` header: `; Secure` only when requested.
pub open spec fn secure_suffix(secure: bool) -> Seq<char> {
    if secure {
        "; Secure"@
    } else {
        Seq::empty()
    }
}

/// The `Set-Cookie` header that establishes a session issued at `now`.
pub open spec fn session_set_cookie(key: Seq<u8>, ttl: u64, secure: bool, now: u64) -> Seq<char> {
    cookie_name() + "="@ + session_token(key, expiry_after(now, ttl))
        + "; Path=/; HttpOnly; SameSite=Lax; Max-Age="@ + dec_seq(ttl as nat) + secure_suffix(secure)
}

pub struct SessionManager {
    key: [u8; 32],
    ttl_secs: u64,
    cookie_secure: bool,
}

impl Clone for SessionManager {
    fn clone(&self) -> (r: Self)
        ensures
            r == *self,
    {
        SessionManager { key: self.key, ttl_secs: self.ttl_secs, cookie_secure: self.cookie_secure }
    }
}

impl SessionManager {
    /// The key that signs tokens.
    pub closed spec fn signing_key(&self) -> Seq<u8> {
        self.key@
    }

    /// Session lifetime, in seconds.
    pub closed spec fn ttl(&self) -> u64 {
        self.ttl_secs
    }

    /// Does the cookie carry the `Secure` attribute?
    pub closed spec fn secure(&self) -> bool {
        self.cookie_secure
    }

    pub fn new(access_key: &str, ttl_secs: u64, cookie_secure: bool) -> (r: Self)
        ensures
            r.signing_key() == session_key_for(access_key@),
            r.ttl() == ttl_secs,
            r.secure() == cookie_secure,
    {
        let prefix = "aardbin-session-v1:";
        proof {
            reveal_strlit("aardbin-session-v1:");
            assert(prefix@ =~= key_derivation_prefix());
            lemma_encode_utf8_concat(prefix@, access_key@);
        }
        let data = concat_bytes(prefix.as_bytes(), access_key.as_bytes());
        let key = sha256_digest(data.as_slice());
        SessionManager { key, ttl_secs, cookie_secure }
    }

    /// The hex MAC for `expiry`.
    fn mac_for(&self, expiry: u64) -> (r: String)
        ensures
            r@ == session_mac_hex(self.key@, expiry),
    {
        let mut msg = String::new();
        push_str(&mut msg, "v1.");
        push_u64(&mut msg, expiry);
        proof {
            reveal_strlit("v1.");
            assert(msg@ =~= session_message(expiry));
        }
        let tag = hmac_sha256_tag(&self.key, msg.as_str().as_bytes());
        hex_encode(&tag)
    }

    /// The token for a client authenticated at time `now`.
    pub fn issue_at(&self, now: u64) -> (r: String)
        ensures
            r@ == session_token(self.signing_key(), expiry_after(now, self.ttl())),
    {
        let expiry = now.saturating_add(self.ttl_secs);
        let mut s = String::new();
        push_str(&mut s, "v1.");
        push_u64(&mut s, expiry);
        push_char(&mut s, '.');
        let mac = self.mac_for(expiry);
        push_str(&mut s, mac.as_str());
        proof {
            reveal_strlit("v1.");
            assert(s@ =~= session_token(self.key@, expiry));
        }
        s
    }

    /// Cookie value to hand to a freshly-authenticated client.
    pub fn issue(&self) -> (r: String)
        ensures
            exists|now: u64|
                #![trigger expiry_after(now, self.ttl())]
                r@ == session_token(self.signing_key(), expiry_after(now, self.ttl())),
    {
        let now = unix_now_secs();
        self.issue_at(now)
    }

    /// Is `value` a valid, unexpired token at time `now`?
    pub fn validate_at(&self, value: &str, now: u64) -> (r: bool)
        ensures
            r == token_accepted(self.signing_key(), value@, now),
    {
        let v = chars_of(value);
        proof {
            lemma_index_of_from(v@, '.', 0);
        }
        let i = match find_char_from(&v, '.', 0) {
            Some(i) => i,
            None => return false,
        };
        proof {
            lemma_index_of_from(v@, '.', i + 1);
        }
        let j = match find_char_from(&v, '.', i + 1) {
            Some(j) => j,
            None => return false,
        };
        let head = sub_chars(&v, 0, i);
        let mut v1: Vec<char> = Vec::new();
        v1.push('v');
        v1.push('1');
        assert(v1@ =~= seq!['v', '1']);
        assert(v@.subrange(0, i as int) =~= v@.take(i as int));
        if !chars_eq(&head, &v1) {
            return false;
        }
        let num = sub_chars(&v, i + 1, j);
        let expiry = match parse_u64_chars(&num) {
            Some(e) => e,
            None => return false,
        };
        if expiry <= now {
            return false;
        }
        let expected = self.mac_for(expiry);
        let given_chars = sub_chars(&v, j + 1, v.len());
        assert(v@.subrange(j + 1, v@.len() as int) =~= v@.skip(j + 1));
        let given = string_of(&given_chars);
        ct_eq_str(expected.as_str(), given.as_str())
    }

    /// Is `value` a valid, unexpired token now?
    pub fn validate(&self, value: &str) -> (r: bool)
        ensures
            exists|now: u64|
                #![trigger token_accepted(self.signing_key(), value@, now)]
                r == token_accepted(self.signing_key(), value@, now),
    {
        let now = unix_now_secs();
        self.validate_at(value, now)
    }

    /// `Set-Cookie` header that establishes a session issued at `now`.
    pub fn issue_set_cookie_at(&self, now: u64) -> (r: String)
        ensures
            r@ == session_set_cookie(self.signing_key(), self.ttl(), self.secure(), now),
    {
        let mut s = String::new();
        push_str(&mut s, "aardbin_session=");
        let token = self.issue_at(now);
        push_str(&mut s, token.as_str());
        push_str(&mut s, "; Path=/; HttpOnly; SameSite=Lax; Max-Age=");
        push_u64(&mut s, self.ttl_secs);
        if self.cookie_secure {
            push_str(&mut s, "; Secure");
        }
        proof {
            reveal_strlit("aardbin_session=");
            reveal_strlit("=");
            assert("aardbin_session="@ =~= cookie_name() + "="@);
            if !self.cookie_secure {
                assert(s@ =~= s@ + secure_suffix(self.cookie_secure));
            }
        }
        s
    }

    /// `Set-Cookie` header that establishes the session.
    pub fn issue_set_cookie(&self) -> (r: String)
        ensures
            exists|now: u64|
                #![trigger session_set_cookie(self.signing_key(), self.ttl(), self.secure(), now)]
                r@ == session_set_cookie(self.signing_key(), self.ttl(), self.secure(), now),
    {
        let now = unix_now_secs();
        self.issue_set_cookie_at(now)
    }

    /// `Set-Cookie` header that immediately expires the session (logout).
    pub fn clear_set_cookie(&self) -> (r: String)
        ensures
            r@ == cookie_name() + "=; Path=/; HttpOnly; SameSite=Lax; Max-Age=0"@ + secure_suffix(
                self.secure(),
            ),
    {
        let mut s = String::new();
        push_str(&mut s, "aardbin_session=; Path=/; HttpOnly; SameSite=Lax; Max-Age=0");
        if self.cookie_secure {
            push_str(&mut s, "; Secure");
        }
        proof {
            reveal_strlit("aardbin_session=; Path=/; HttpOnly; SameSite=Lax; Max-Age=0");
            reveal_strlit("=; Path=/; HttpOnly; SameSite=Lax; Max-Age=0");
            assert("aardbin_session=; Path=/; HttpOnly; SameSite=Lax; Max-Age=0"@ =~= cookie_name()
                + "=; Path=/; HttpOnly; SameSite=Lax; Max-Age=0"@);
            if !self.cookie_secure {
                assert(s@ =~= s@ + secure_suffix(self.cookie_secure));
            }
        }
        s
    }
}

/// The session token carried by a `Cookie` header, if any.
pub open spec fn session_cookie_in(header: Option<Seq<char>>) -> Option<Seq<char>> {
    match header {
        Some(h) => cookie_value_for(h, cookie_name() + seq!['=']),
        None => None,
    }
}

/// The session token of a `Cookie` header value.
pub fn session_cookie_value(cookie_header: Option<&str>) -> (r: Option<String>)
    ensures
        match r {
            Some(v) => session_cookie_in(opt_view(cookie_header)) == Some(v@),
            None => session_cookie_in(opt_view(cookie_header)) is None,
        },
{
    let header = match cookie_header {
        Some(h) => h,
        None => return None,
    };
    let prefix = chars_of("aardbin_session=");
    proof {
        reveal_strlit("aardbin_session=");
        assert(prefix@ =~= cookie_name() + seq!['=']);
    }
    match find_cookie_value(header, &prefix) {
        Some(v) => Some(string_of(&v)),
        None => None,
    }
}

/// Does a `Cookie` header carry a session token accepted under `key` at
/// time `now`?
pub open spec fn has_valid_session(header: Option<Seq<char>>, key: Seq<u8>, now: u64) -> bool {
    match session_cookie_in(header) {
        Some(v) => token_accepted(key, v, now),
        None => false,
    }
}

/// Is there a valid session cookie in a `Cookie` header value?
pub fn extract_valid_session(cookie_header: Option<&str>, mgr: &SessionManager) -> (r: bool)
    ensures
        exists|now: u64|
            #![trigger has_valid_session(opt_view(cookie_header), mgr.signing_key(), now)]
            r == has_valid_session(opt_view(cookie_header), mgr.signing_key(), now),
{
    match session_cookie_value(cookie_header) {
        Some(v) => {
            let now = unix_now_secs();
            let r = mgr.validate_at(v.as_str(), now);
            assert(r == has_valid_session(opt_view(cookie_header), mgr.signing_key(), now));
            r
        },
        None => {
            assert(!has_valid_session(opt_view(cookie_header), mgr.signing_key(), 0));
            false
        },
    }
}

// ---------------------------------------------------------------------------
// Laws
// ---------------------------------------------------------------------------

proof fn lemma_dec_seq_digits(n: nat)
    ensures
        all_digits(dec_seq(n)),
        digits_value(dec_seq(n)) == n,
        dec_seq(n).len() > 0,
        dec_seq(n)[0] != '+',
        forall|k: int| 0 <= k < dec_seq(n).len() ==> #[trigger] dec_seq(n)[k] != '.',
    decreases n,
{
    assert(digit_value(digit_char(n % 10)) == n % 10);
    assert(is_digit(digit_char(n % 10)));
    if n < 10 {
        assert(dec_seq(n).drop_last() =~= Seq::<char>::empty());
        assert(dec_seq(n).last() == digit_char(n));
        assert(n % 10 == n);
        assert(digits_value(dec_seq(n)) == digits_value(Seq::<char>::empty()) * 10 + digit_value(
            digit_char(n),
        ));
    }
    if n >= 10 {
        lemma_dec_seq_digits(n / 10);
        let d = dec_seq(n / 10);
        assert(dec_seq(n).drop_last() =~= d);
        assert(dec_seq(n).last() == digit_char(n % 10));
        assert(digits_value(dec_seq(n)) == digits_value(d) * 10 + digit_value(digit_char(n % 10)));
        assert((n / 10) * 10 + n % 10 == n);
        assert(dec_seq(n)[0] == d[0]);
        assert forall|k: int| 0 <= k < dec_seq(n).len() implies is_digit(#[trigger] dec_seq(n)[k]) by {
            if k < d.len() {
                assert(dec_seq(n)[k] == d[k]);
            }
        }
    }
}

proof fn lemma_dec_parses(n: u64)
    ensures
        parse_u64_seq(dec_seq(n as nat)) == Some(n),
{
    lemma_dec_seq_digits(n as nat);
}

/// An issued token is accepted exactly until its expiry: the token for
/// `expiry` passes validation at time `now` if and only if `expiry > now`.
pub proof fn law_issued_token_valid_until_expiry(key: Seq<u8>, expiry: u64, now: u64)
    ensures
        token_accepted(key, session_token(key, expiry), now) == (expiry > now),
{
    let d = dec_seq(expiry as nat);
    let mac = session_mac_hex(key, expiry);
    let v = session_token(key, expiry);
    lemma_dec_seq_digits(expiry as nat);
    lemma_dec_parses(expiry);
    assert(v =~= seq!['v', '1', '.'] + d + seq!['.'] + mac);
    let j: int = 3 + d.len() as int;
    assert(v[2] == '.');
    assert(index_of_from(v, '.', 0) == 2) by {
        assert(v[0] == 'v');
        assert(v[1] == '1');
        assert(index_of_from(v, '.', 2) == 2);
        assert(index_of_from(v, '.', 1) == 2);
    }
    assert forall|k: int| 3 <= k < j implies index_of_from(v, '.', k) == index_of_from(v, '.', j) by {
        lemma_index_walk(v, k, j);
    }
    assert(v[j] == '.');
    assert(index_of_from(v, '.', 3) == j);
    assert(v.take(2) =~= seq!['v', '1']);
    assert(v.subrange(3, j) =~= d);
    assert(v.skip(j + 1) =~= mac);
}

proof fn lemma_index_walk(v: Seq<char>, k: int, j: int)
    requires
        3 <= k <= j < v.len(),
        forall|m: int| 3 <= m < j ==> #[trigger] v[m] != '.',
    ensures
        index_of_from(v, '.', k) == index_of_from(v, '.', j),
    decreases j - k,
{
    if k < j {
        lemma_index_walk(v, k + 1, j);
    }
}

/// A session issued by one manager is accepted by any manager built from
/// the same access key (for instance after a restart), until it expires.
pub proof fn law_session_survives_restart(
    access_key: Seq<char>,
    issuer: SessionManager,
    validator: SessionManager,
    now: u64,
    later: u64,
)
    requires
        issuer.signing_key() == session_key_for(access_key),
        validator.signing_key() == session_key_for(access_key),
    ensures
        token_accepted(
            validator.signing_key(),
            session_token(issuer.signing_key(), expiry_after(now, issuer.ttl())),
            later,
        ) == (expiry_after(now, issuer.ttl()) > later),
{
    law_issued_token_valid_until_expiry(
        issuer.signing_key(),
        expiry_after(now, issuer.ttl()),
        later,
    );
}

/// A token is bound to the key that signed it: under another key it is
/// accepted only when that key gives the same MAC for its expiry. (That
/// different access keys give different MACs rests on SHA-256 and HMAC,
/// which are not modelled here.)
pub proof fn law_token_bound_to_key(signer: Seq<u8>, other: Seq<u8>, expiry: u64, now: u64)
    ensures
        token_accepted(other, session_token(signer, expiry), now) == (expiry > now
            && session_mac_hex(other, expiry) == session_mac_hex(signer, expiry)),
{
    law_issued_token_valid_until_expiry(signer, expiry, now);
    let d = dec_seq(expiry as nat);
    let v = session_token(signer, expiry);
    lemma_dec_seq_digits(expiry as nat);
    lemma_dec_parses(expiry);
    assert(v =~= seq!['v', '1', '.'] + d + seq!['.'] + session_mac_hex(signer, expiry));
    let j: int = 3 + d.len() as int;
    assert(index_of_from(v, '.', 0) == 2) by {
        assert(v[0] == 'v');
        assert(v[1] == '1');
        assert(index_of_from(v, '.', 2) == 2);
        assert(index_of_from(v, '.', 1) == 2);
    }
    assert forall|k: int| 3 <= k < j implies index_of_from(v, '.', k) == index_of_from(v, '.', j) by {
        lemma_index_walk(v, k, j);
    }
    assert(v[j] == '.');
    assert(index_of_from(v, '.', 3) == j);
    assert(v.take(2) =~= seq!['v', '1']);
    assert(v.subrange(3, j) =~= d);
    assert(v.skip(j + 1) =~= session_mac_hex(signer, expiry));
}

/// The texts of a session: the cookie is `aardbin_session`, the signing key
/// is derived from `aardbin-session-v1:` and the access key, the signed
/// message of an expiry is `v1.{expiry}`, and the cookie is set with
/// `Path=/; HttpOnly; SameSite=Lax; Max-Age={ttl}`, then `; Secure` when
/// cookies are secure.
pub proof fn law_session_texts(key: Seq<u8>, ttl: u64, secure: bool, now: u64, expiry: u64)
    ensures
        cookie_name() == "aardbin_session"@,
        key_derivation_prefix() == "aardbin-session-v1:"@,
        session_message(expiry) == "v1."@ + dec_seq(expiry as nat),
        session_token(key, expiry) == "v1."@ + dec_seq(expiry as nat) + "."@ + session_mac_hex(
            key,
            expiry,
        ),
        session_set_cookie(key, ttl, secure, now) == "aardbin_session="@ + session_token(
            key,
            expiry_after(now, ttl),
        ) + "; Path=/; HttpOnly; SameSite=Lax; Max-Age="@ + dec_seq(ttl as nat) + (if secure {
            "; Secure"@
        } else {
            Seq::<char>::empty()
        }),
        expiry_after(now, ttl) == if now + ttl > u64::MAX {
            u64::MAX as int
        } else {
            now + ttl
        },
{
    reveal_strlit("aardbin_session");
    reveal_strlit("aardbin-session-v1:");
    reveal_strlit("v1.");
    reveal_strlit(".");
    reveal_strlit("aardbin_session=");
    reveal_strlit("=");
    assert(cookie_name() =~= "aardbin_session"@);
    assert(key_derivation_prefix() =~= "aardbin-session-v1:"@);
    assert(session_message(expiry) =~= "v1."@ + dec_seq(expiry as nat));
    assert(session_token(key, expiry) =~= "v1."@ + dec_seq(expiry as nat) + "."@ + session_mac_hex(
        key,
        expiry,
    ));
    assert(cookie_name() + "="@ =~= "aardbin_session="@);
    let t = session_token(key, expiry_after(now, ttl));
    assert(cookie_name() + "="@ + t =~= "aardbin_session="@ + t);
}

} // verus!
