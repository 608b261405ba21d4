//! Logging in with the access key, on the login form and on the JSON API.
//!
//! Both share the rate limiter: a wrong key counts as a failure of the
//! client's address, and five failures within five minutes lock the address
//! out. A successful form login clears the address's failures; a successful
//! API request does not.

use crate::ratelimit::{check_result, check_state, failure_state, success_state, IpKey, LoginRateLimiter};
use crate::clock::unix_now_secs;
use crate::session::{ct_eq_str, session_set_cookie, SessionManager};
use crate::text::{chars_of, dec_seq, opt_view, owned, push_str, push_u64, starts_with_chars, string_of, sub_chars};
use vstd::prelude::*;

verus! {

/// Whole seconds of a lockout given in nanoseconds (`Duration::as_secs`).
pub open spec fn lockout_secs(nanos: u64) -> int {
    nanos as int / 1_000_000_000
}

/// Whole minutes of a lockout, rounded up.
pub open spec fn lockout_minutes(nanos: u64) -> int {
    (lockout_secs(nanos) + 59) / 60
}

/// The login page's error line while the address is locked out.
pub open spec fn login_throttle_text(nanos: u64) -> Seq<char> {
    let m = lockout_minutes(nanos);
    "Too many attempts. Try again in "@ + dec_seq(m as nat) + " minute"@ + (if m == 1 {
        Seq::<char>::empty()
    } else {
        "s"@
    }) + "."@
}

fn push_login_throttle_text(nanos: u64) -> (r: String)
    ensures
        r@ == login_throttle_text(nanos),
{
    let secs = nanos / 1_000_000_000;
    let minutes = secs / 60 + if secs % 60 == 0 {
        0
    } else {
        1
    };
    assert(minutes == lockout_minutes(nanos));
    let mut m = owned("Too many attempts. Try again in ");
    push_u64(&mut m, minutes);
    push_str(&mut m, " minute");
    if minutes != 1 {
        push_str(&mut m, "s");
    } else {
        assert(m@ =~= m@ + Seq::<char>::empty());
    }
    push_str(&mut m, ".");
    m
}

/// How a login attempt ends.
#[derive(Debug)]
pub enum LoginOutcome {
    /// The address is locked out: 429 with this error line, and a
    /// `Retry-After` of this many seconds.
    Throttled(String, u64),
    /// Wrong key: back to the login page with `?error=1`.
    Rejected,
    /// Right key: to `/` with this `Set-Cookie` header.
    Accepted(String),
}

/// The outcome of a login attempt by `ip` with the key `submitted`, the
/// limiter going from `before` to `after`, at time `now` on the limiter's
/// clock and `issued_at` on the wall clock: a locked-out address is refused
/// before the key is looked at; a wrong key counts as a failure at `now`; the
/// right key clears the address and gets a session issued at `issued_at`.
pub open spec fn login_spec(
    r: LoginOutcome,
    before: Map<IpKey, Seq<u64>>,
    after: Map<IpKey, Seq<u64>>,
    ip: IpKey,
    submitted: Seq<char>,
    access_key: Seq<char>,
    sessions: SessionManager,
    now: u64,
    issued_at: u64,
) -> bool {
    match check_result(before, ip, now) {
        Err(n) => {
            &&& r matches LoginOutcome::Throttled(m, secs) && m@ == login_throttle_text(n) && secs
                == lockout_secs(n)
            &&& after == check_state(before, ip, now)
        },
        Ok(()) => if submitted != access_key {
            &&& r is Rejected
            &&& after == failure_state(check_state(before, ip, now), ip, now)
        } else {
            &&& r matches LoginOutcome::Accepted(c) && c@ == session_set_cookie(
                sessions.signing_key(),
                sessions.ttl(),
                sessions.secure(),
                issued_at,
            )
            &&& after == success_state(check_state(before, ip, now), ip)
        },
    }
}

/// A login attempt at time `now` on the limiter's clock, a session being
/// issued at `issued_at` on the wall clock.
pub fn login_at(
    limiter: &mut LoginRateLimiter,
    sessions: &SessionManager,
    ip: IpKey,
    submitted: &str,
    access_key: &str,
    now: u64,
    issued_at: u64,
) -> (r: LoginOutcome)
    ensures
        login_spec(r, old(limiter)@, final(limiter)@, ip, submitted@, access_key@, *sessions, now, issued_at),
{
    let checked = limiter.check_at(ip, now);
    if let Err(n) = checked {
        return LoginOutcome::Throttled(push_login_throttle_text(n), n / 1_000_000_000);
    }
    if !ct_eq_str(submitted, access_key) {
        limiter.record_failure_at(ip, now);
        return LoginOutcome::Rejected;
    }
    limiter.record_success(ip);
    LoginOutcome::Accepted(sessions.issue_set_cookie_at(issued_at))
}

/// A login attempt by `ip` with the key `submitted`, at the times read from
/// the limiter's clock and the wall clock.
pub fn login(
    limiter: &mut LoginRateLimiter,
    sessions: &SessionManager,
    ip: IpKey,
    submitted: &str,
    access_key: &str,
) -> (r: LoginOutcome)
    ensures
        exists|now: u64, issued_at: u64|
            #![trigger login_spec(r, old(limiter)@, final(limiter)@, ip, submitted@, access_key@, *sessions, now, issued_at)]
            login_spec(r, old(limiter)@, final(limiter)@, ip, submitted@, access_key@, *sessions, now, issued_at),
{
    let now = limiter.now();
    let issued_at = unix_now_secs();
    login_at(limiter, sessions, ip, submitted, access_key, now, issued_at)
}

// ---------------------------------------------------------------------------
// The JSON API
// ---------------------------------------------------------------------------

/// Proof that an API request carried the access key.
#[derive(Debug)]
pub struct ApiAuth;

/// The token of an `Authorization: Bearer <token>` header.
pub open spec fn bearer_token(h: Seq<char>) -> Option<Seq<char>> {
    if h.len() >= 7 && h.take(7) == "Bearer "@ {
        Some(h.skip(7))
    } else {
        None
    }
}

/// How the authentication of an API request ends.
#[derive(Debug, Clone, Copy, PartialEq, Eq, Structural)]
pub enum ApiAuthOutcome {
    /// The address is locked out for this many more whole seconds (429).
    Throttled(u64),
    /// No readable `Authorization` header (401).
    MissingHeader,
    /// The header is not `Bearer <token>` (401).
    BadFormat,
    /// The token is not the access key (401).
    BadKey,
    Authorized,
}

/// The JSON error text of a refusal.
pub open spec fn api_auth_error_text(o: ApiAuthOutcome) -> Seq<char> {
    match o {
        ApiAuthOutcome::Throttled(s) => "Too many attempts. Try again in "@ + dec_seq(s as nat)
            + " seconds."@,
        ApiAuthOutcome::MissingHeader => "missing Authorization header"@,
        ApiAuthOutcome::BadFormat => "invalid Authorization format"@,
        ApiAuthOutcome::BadKey => "invalid access key"@,
        ApiAuthOutcome::Authorized => Seq::empty(),
    }
}

impl ApiAuthOutcome {
    /// The HTTP status of a refusal (200 when authorized).
    pub fn status(&self) -> (r: u16)
        ensures
            r == match *self {
                ApiAuthOutcome::Throttled(_) => 429u16,
                ApiAuthOutcome::Authorized => 200u16,
                _ => 401u16,
            },
    {
        match self {
            ApiAuthOutcome::Throttled(_) => 429,
            ApiAuthOutcome::Authorized => 200,
            _ => 401,
        }
    }

    /// The error text of a refusal (empty when authorized).
    pub fn error_text(&self) -> (r: String)
        ensures
            r@ == api_auth_error_text(*self),
    {
        match self {
            ApiAuthOutcome::Throttled(s) => {
                let mut m = owned("Too many attempts. Try again in ");
                push_u64(&mut m, *s);
                push_str(&mut m, " seconds.");
                m
            },
            ApiAuthOutcome::MissingHeader => owned("missing Authorization header"),
            ApiAuthOutcome::BadFormat => owned("invalid Authorization format"),
            ApiAuthOutcome::BadKey => owned("invalid access key"),
            ApiAuthOutcome::Authorized => String::new(),
        }
    }
}

/// The outcome of an API request from `ip`, given the rate limiter's answer
/// and the `Authorization` header (`None` when absent or unreadable).
pub open spec fn api_auth_outcome(
    checked: Result<(), u64>,
    header: Option<Seq<char>>,
    access_key: Seq<char>,
) -> ApiAuthOutcome {
    match checked {
        Err(n) => ApiAuthOutcome::Throttled((n / 1_000_000_000) as u64),
        Ok(()) => match header {
            None => ApiAuthOutcome::MissingHeader,
            Some(h) => match bearer_token(h) {
                None => ApiAuthOutcome::BadFormat,
                Some(t) => if t == access_key {
                    ApiAuthOutcome::Authorized
                } else {
                    ApiAuthOutcome::BadKey
                },
            },
        },
    }
}

fn bearer_of(h: &str) -> (r: Option<String>)
    ensures
        match r {
            Some(t) => bearer_token(h@) == Some(t@),
            None => bearer_token(h@) is None,
        },
{
    let v = chars_of(h);
    let p = chars_of("Bearer ");
    proof {
        reveal_strlit("Bearer ");
    }
    if starts_with_chars(&v, &p) {
        let t = sub_chars(&v, 7, v.len());
        assert(t@ =~= h@.skip(7));
        Some(string_of(&t))
    } else {
        None
    }
}

/// The outcome of an API request from `ip`, the limiter going from
/// `before` to `after`, at time `now` on the limiter's clock: only a wrong
/// key counts as a failure (at `now`); every other outcome leaves the
/// address's failures as the check left them.
pub open spec fn api_auth_spec(
    r: ApiAuthOutcome,
    before: Map<IpKey, Seq<u64>>,
    after: Map<IpKey, Seq<u64>>,
    ip: IpKey,
    header: Option<Seq<char>>,
    access_key: Seq<char>,
    now: u64,
) -> bool {
    &&& r == api_auth_outcome(check_result(before, ip, now), header, access_key)
    &&& after == if r == ApiAuthOutcome::BadKey {
        failure_state(check_state(before, ip, now), ip, now)
    } else {
        check_state(before, ip, now)
    }
}

/// Authenticates an API request at time `now` on the limiter's clock: the
/// limiter is asked first, then the bearer token is compared in constant
/// time with the access key.
pub fn api_authorize_at(
    limiter: &mut LoginRateLimiter,
    ip: IpKey,
    auth_header: Option<&str>,
    access_key: &str,
    now: u64,
) -> (r: ApiAuthOutcome)
    ensures
        api_auth_spec(r, old(limiter)@, final(limiter)@, ip, opt_view(auth_header), access_key@, now),
{
    let checked = limiter.check_at(ip, now);
    if let Err(n) = checked {
        return ApiAuthOutcome::Throttled(n / 1_000_000_000);
    }
    let h = match auth_header {
        None => return ApiAuthOutcome::MissingHeader,
        Some(h) => h,
    };
    let token = match bearer_of(h) {
        None => return ApiAuthOutcome::BadFormat,
        Some(t) => t,
    };
    if !ct_eq_str(token.as_str(), access_key) {
        limiter.record_failure_at(ip, now);
        return ApiAuthOutcome::BadKey;
    }
    ApiAuthOutcome::Authorized
}

/// Authenticates an API request from `ip` at the time read from the
/// limiter's clock. Only a wrong key counts as a failure; success leaves the
/// counter as it is.
pub fn api_authorize(
    limiter: &mut LoginRateLimiter,
    ip: IpKey,
    auth_header: Option<&str>,
    access_key: &str,
) -> (r: ApiAuthOutcome)
    ensures
        exists|now: u64|
            #![trigger api_auth_spec(r, old(limiter)@, final(limiter)@, ip, opt_view(auth_header), access_key@, now)]
            api_auth_spec(r, old(limiter)@, final(limiter)@, ip, opt_view(auth_header), access_key@, now),
{
    let now = limiter.now();
    api_authorize_at(limiter, ip, auth_header, access_key, now)
}

/// The lockout message counts whole minutes, rounded up, and says
/// `minute` for exactly one and `minutes` otherwise: a lockout of `m`
/// minutes and `r` more seconds (`r` below 60) reads as `m` minutes when `r`
/// is 0 and as `m + 1` otherwise.
pub proof fn law_throttle_text_minutes(m: nat, r: nat, extra_nanos: nat)
    requires
        r < 60,
        extra_nanos < 1_000_000_000,
        (m * 60 + r) * 1_000_000_000 + extra_nanos <= u64::MAX,
    ensures
        ({
            let nanos = ((m * 60 + r) * 1_000_000_000 + extra_nanos) as u64;
            let shown = if r == 0 {
                m
            } else {
                m + 1
            };
            &&& lockout_secs(nanos) == m * 60 + r
            &&& login_throttle_text(nanos) == "Too many attempts. Try again in "@ + dec_seq(shown)
                + (if shown == 1 {
                " minute."@
            } else {
                " minutes."@
            })
        }),
{
    let secs = m * 60 + r;
    let nanos = ((m * 60 + r) * 1_000_000_000 + extra_nanos) as u64;
    assert(nanos as int / 1_000_000_000 == secs) by (nonlinear_arith)
        requires
            nanos == secs * 1_000_000_000 + extra_nanos,
            extra_nanos < 1_000_000_000,
    ;
    let shown: int = if r == 0 {
        m as int
    } else {
        (m + 1) as int
    };
    assert((secs + 59) / 60 == shown) by (nonlinear_arith)
        requires
            secs == m * 60 + r,
            r < 60,
            shown == if r == 0 {
                m as int
            } else {
                (m + 1) as int
            },
    ;
    reveal_strlit(" minute");
    reveal_strlit("s");
    reveal_strlit(".");
    reveal_strlit(" minute.");
    reveal_strlit(" minutes.");
    assert(" minute"@ + Seq::<char>::empty() + "."@ =~= " minute."@);
    assert(" minute"@ + "s"@ + "."@ =~= " minutes."@);
    let pre = "Too many attempts. Try again in "@ + dec_seq(shown as nat);
    assert(pre + " minute"@ + Seq::<char>::empty() + "."@ =~= pre + " minute."@);
    assert(pre + " minute"@ + "s"@ + "."@ =~= pre + " minutes."@);
}

/// An API request that is not locked out is authorized exactly when it
/// carries `Authorization: Bearer {access key}`; any other bearer token is
/// a wrong key (and counts as a failure), a header without the `Bearer `
/// prefix is refused as malformed, and a missing header as missing. A
/// locked-out address is answered with its remaining whole seconds first.
pub proof fn law_api_auth_answers(
    checked: Result<(), u64>,
    header: Option<Seq<char>>,
    access_key: Seq<char>,
    token: Seq<char>,
)
    ensures
        (checked matches Err(n)) ==> api_auth_outcome(checked, header, access_key)
            == ApiAuthOutcome::Throttled((checked->Err_0 / 1_000_000_000) as u64),
        (checked is Ok && header is None) ==> api_auth_outcome(checked, header, access_key)
            == ApiAuthOutcome::MissingHeader,
        (checked is Ok && header == Some("Bearer "@ + token)) ==> api_auth_outcome(
            checked,
            header,
            access_key,
        ) == if token == access_key {
            ApiAuthOutcome::Authorized
        } else {
            ApiAuthOutcome::BadKey
        },
        checked is Ok ==> (header matches Some(h) ==> (!(h.len() >= 7 && h.take(7) == "Bearer "@)
            ==> api_auth_outcome(checked, header, access_key) == ApiAuthOutcome::BadFormat)),
        api_auth_error_text(ApiAuthOutcome::MissingHeader) == "missing Authorization header"@,
        api_auth_error_text(ApiAuthOutcome::BadFormat) == "invalid Authorization format"@,
        api_auth_error_text(ApiAuthOutcome::BadKey) == "invalid access key"@,
{
    reveal_strlit("Bearer ");
    if header == Some("Bearer "@ + token) {
        let h = "Bearer "@ + token;
        assert(h.take(7) =~= "Bearer "@);
        assert(h.skip(7) =~= token);
    }
}

} // verus!
