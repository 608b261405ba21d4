//! Request guards: the session check in front of the pages, and the
//! rejection of cross-site `POST`s.

use crate::session::{extract_valid_session, has_valid_session, SessionManager};
use crate::text::{
    chars_of, find_sub_from, index_of_sub, lemma_index_of_sub, lower_chars, lower_seq, opt_view,
    str_eq, sub_chars,
};
use vstd::prelude::*;

verus! {

/// What the session guard holds.
#[derive(Clone)]
pub struct AuthState {
    pub sessions: std::sync::Arc<SessionManager>,
}

/// What the session guard does with a request.
#[derive(Debug, Clone, Copy, PartialEq, Eq, Structural)]
pub enum AuthVerdict {
    /// A valid session: the request goes on.
    Pass,
    /// An HTMX request without one: 401 with `HX-Redirect: /login`.
    HtmxLogin,
    /// A navigation without one: 303 to `/login`.
    RedirectLogin,
}

pub open spec fn auth_verdict_of(valid: bool, hx_request: Option<Seq<char>>) -> AuthVerdict {
    if valid {
        AuthVerdict::Pass
    } else if hx_request == Some("true"@) {
        AuthVerdict::HtmxLogin
    } else {
        AuthVerdict::RedirectLogin
    }
}

/// The session guard: is there a valid session cookie, and if not, is the
/// request an HTMX one (`HX-Request: true`)? The time is read from the
/// clock.
pub fn auth_verdict(cookie_header: Option<&str>, hx_request: Option<&str>, sessions: &SessionManager)
    -> (r: AuthVerdict)
    ensures
        exists|now: u64|
            #![trigger has_valid_session(opt_view(cookie_header), sessions.signing_key(), now)]
            r == auth_verdict_of(
                has_valid_session(opt_view(cookie_header), sessions.signing_key(), now),
                opt_view(hx_request),
            ),
{
    if extract_valid_session(cookie_header, sessions) {
        return AuthVerdict::Pass;
    }
    let htmx = match hx_request {
        Some(v) => str_eq(v, "true"),
        None => false,
    };
    if htmx {
        AuthVerdict::HtmxLogin
    } else {
        AuthVerdict::RedirectLogin
    }
}

// ---------------------------------------------------------------------------
// Cross-site POSTs
// ---------------------------------------------------------------------------

/// What the origin guard does with a request.
#[derive(Debug, Clone, Copy, PartialEq, Eq, Structural)]
pub enum OriginVerdict {
    Pass,
    /// 403 `cross-site request rejected`.
    CrossSite,
    /// 403 `origin mismatch`.
    OriginMismatch,
}

/// `Sec-Fetch-Site` values of requests made by the site itself or typed by
/// the user.
pub open spec fn fetch_site_ok(v: Seq<char>) -> bool {
    v == "same-origin"@ || v == "same-site"@ || v == "none"@
}

/// `s` without its trailing `c`s (`trim_end_matches`).
pub open spec fn trim_end_char(s: Seq<char>, c: char) -> Seq<char>
    decreases s.len(),
{
    if s.len() > 0 && s.last() == c {
        trim_end_char(s.drop_last(), c)
    } else {
        s
    }
}

/// The host of an `Origin` value: what follows the first `://` (up to a
/// further `://`, if any), without trailing `/`, in ASCII lower case.
pub open spec fn origin_host(o: Seq<char>) -> Option<Seq<char>> {
    let i = index_of_sub(o, "://"@, 0);
    if i < 0 {
        None
    } else {
        let rest = o.skip(i + 3);
        let j = index_of_sub(rest, "://"@, 0);
        let seg = if j >= 0 {
            rest.take(j)
        } else {
            rest
        };
        Some(lower_seq(trim_end_char(seg, '/')))
    }
}

/// The origin guard on the method and on the `Sec-Fetch-Site`, `Origin`
/// and `Host` headers. For the first two, the outer `Option` tells whether
/// the header is present and the inner one whether it is readable text.
pub open spec fn origin_verdict_of(
    is_post: bool,
    fetch_site: Option<Option<Seq<char>>>,
    origin: Option<Option<Seq<char>>>,
    host: Option<Seq<char>>,
) -> OriginVerdict {
    if !is_post {
        OriginVerdict::Pass
    } else if fetch_site matches Some(v) && !(v matches Some(t) && fetch_site_ok(t)) {
        OriginVerdict::CrossSite
    } else if origin matches Some(o) && !(o matches Some(ot) && origin_host(ot) matches Some(oh)
        && host matches Some(h) && oh == lower_seq(h)) {
        OriginVerdict::OriginMismatch
    } else {
        OriginVerdict::Pass
    }
}

pub open spec fn opt_opt_view(o: Option<Option<&str>>) -> Option<Option<Seq<char>>> {
    match o {
        Some(v) => Some(opt_view(v)),
        None => None,
    }
}

fn trim_end_slashes(v: &Vec<char>) -> (r: Vec<char>)
    ensures
        r@ == trim_end_char(v@, '/'),
{
    let mut j = v.len();
    assert(v@.take(j as int) =~= v@);
    while j > 0 && v[j - 1] == '/'
        invariant
            j <= v.len(),
            trim_end_char(v@, '/') == trim_end_char(v@.take(j as int), '/'),
        decreases j,
    {
        assert(v@.take(j as int).drop_last() =~= v@.take(j - 1));
        j -= 1;
    }
    assert(j > 0 ==> v@.take(j as int).last() == v@[j - 1]);
    sub_chars(v, 0, j)
}

fn host_of_origin(o: &str) -> (r: Option<Vec<char>>)
    ensures
        match r {
            Some(h) => origin_host(o@) == Some(h@),
            None => origin_host(o@) is None,
        },
{
    let v = chars_of(o);
    let sep = chars_of("://");
    proof {
        reveal_strlit("://");
        assert(sep@.len() == 3);
    }
    let i = match find_sub_from(&v, &sep, 0) {
        None => return None,
        Some(i) => i,
    };
    proof {
        lemma_index_of_sub(v@, sep@, 0);
    }
    let rest = sub_chars(&v, i + 3, v.len());
    assert(rest@ =~= o@.skip(i + 3));
    let seg = match find_sub_from(&rest, &sep, 0) {
        Some(j) => {
            proof {
                lemma_index_of_sub(rest@, sep@, 0);
            }
            sub_chars(&rest, 0, j)
        },
        None => {
            assert(rest@.subrange(0, rest@.len() as int) =~= rest@);
            sub_chars(&rest, 0, rest.len())
        },
    };
    let trimmed = trim_end_slashes(&seg);
    Some(lower_chars(&trimmed))
}

/// The origin guard in front of every route.
pub fn origin_verdict(
    is_post: bool,
    fetch_site: Option<Option<&str>>,
    origin: Option<Option<&str>>,
    host: Option<&str>,
) -> (r: OriginVerdict)
    ensures
        r == origin_verdict_of(is_post, opt_opt_view(fetch_site), opt_opt_view(origin), opt_view(host)),
{
    if !is_post {
        return OriginVerdict::Pass;
    }
    if let Some(v) = fetch_site {
        let ok = match v {
            Some(t) => str_eq(t, "same-origin") || str_eq(t, "same-site") || str_eq(t, "none"),
            None => false,
        };
        if !ok {
            return OriginVerdict::CrossSite;
        }
    }
    if let Some(o) = origin {
        let oh = match o {
            Some(ot) => host_of_origin(ot),
            None => None,
        };
        let hl = match host {
            Some(h) => {
                let hv = chars_of(h);
                Some(lower_chars(&hv))
            },
            None => None,
        };
        let same = match (oh, hl) {
            (Some(a), Some(b)) => crate::text::chars_eq(&a, &b),
            _ => false,
        };
        if !same {
            return OriginVerdict::OriginMismatch;
        }
    }
    OriginVerdict::Pass
}

/// A POST without an `Origin` header passes the guard exactly when it has
/// no `Sec-Fetch-Site` header or one that reads `same-origin`,
/// `same-site` or `none`; any other value, or one that is not text, is
/// refused as cross-site. A request that is not a POST always passes.
pub proof fn law_fetch_site_values(
    fetch_site: Option<Option<Seq<char>>>,
    origin: Option<Option<Seq<char>>>,
    host: Option<Seq<char>>,
)
    ensures
        origin_verdict_of(false, fetch_site, origin, host) == OriginVerdict::Pass,
        origin_verdict_of(true, fetch_site, None, host) == match fetch_site {
            None => OriginVerdict::Pass,
            Some(Some(v)) => if v == "same-origin"@ || v == "same-site"@ || v == "none"@ {
                OriginVerdict::Pass
            } else {
                OriginVerdict::CrossSite
            },
            Some(None) => OriginVerdict::CrossSite,
        },
        (fetch_site matches Some(v) && !(v matches Some(t) && (t == "same-origin"@ || t
            == "same-site"@ || t == "none"@))) ==> origin_verdict_of(true, fetch_site, origin, host)
            == OriginVerdict::CrossSite,
{
}

/// The session guard lets a request with a valid session through; one
/// without is sent to the login page, by `HX-Redirect` when it carries
/// `HX-Request: true` and by a redirect otherwise.
pub proof fn law_auth_verdict(valid: bool, hx_request: Option<Seq<char>>)
    ensures
        valid ==> auth_verdict_of(valid, hx_request) == AuthVerdict::Pass,
        (!valid && hx_request == Some("true"@)) ==> auth_verdict_of(valid, hx_request)
            == AuthVerdict::HtmxLogin,
        (!valid && hx_request != Some("true"@)) ==> auth_verdict_of(valid, hx_request)
            == AuthVerdict::RedirectLogin,
{
}

proof fn lemma_find_separator(s: Seq<char>, i: int, k: int)
    requires
        0 <= i <= k,
        k + 3 <= s.len(),
        s[k] == ':' && s[k + 1] == '/' && s[k + 2] == '/',
        forall|j: int| i <= j < k ==> s[j] != ':',
    ensures
        index_of_sub(s, "://"@, i) == k,
    decreases k - i,
{
    reveal_strlit("://");
    if i < k {
        assert(s.subrange(i, i + 3)[0] == s[i]);
        assert(s.subrange(i, i + 3) != "://"@);
        lemma_find_separator(s, i + 1, k);
    } else {
        assert(s.subrange(k, k + 3) =~= "://"@);
    }
}

proof fn lemma_no_separator(s: Seq<char>, i: int)
    requires
        0 <= i,
        forall|j: int| 0 <= j < s.len() ==> s[j] != '/',
    ensures
        index_of_sub(s, "://"@, i) == -1,
    decreases s.len() - i,
{
    reveal_strlit("://");
    if i + 3 <= s.len() {
        assert(s.subrange(i, i + 3)[1] == s[i + 1]);
        assert(s.subrange(i, i + 3) != "://"@);
        lemma_no_separator(s, i + 1);
    }
}

/// A POST that the `Sec-Fetch-Site` check lets through and that carries an
/// `Origin` of the form `{scheme}://{host}` passes exactly when that host
/// and the `Host` header agree up to ASCII case; an `Origin` that is not
/// text, or a request without `Host`, is refused as an origin mismatch.
pub proof fn law_origin_must_match_host(
    fetch_site: Option<Option<Seq<char>>>,
    scheme: Seq<char>,
    h: Seq<char>,
    host: Option<Seq<char>>,
)
    requires
        fetch_site is None || fetch_site == Some(Some("same-origin"@)),
        forall|j: int| 0 <= j < scheme.len() ==> scheme[j] != ':',
        forall|j: int| 0 <= j < h.len() ==> h[j] != '/',
    ensures
        origin_verdict_of(true, fetch_site, Some(Some(scheme + "://"@ + h)), host) == match host {
            Some(x) => if lower_seq(h) == lower_seq(x) {
                OriginVerdict::Pass
            } else {
                OriginVerdict::OriginMismatch
            },
            None => OriginVerdict::OriginMismatch,
        },
        origin_verdict_of(true, fetch_site, Some(None), host) == OriginVerdict::OriginMismatch,
{
    reveal_strlit("://");
    reveal_strlit("same-origin");
    let o = scheme + "://"@ + h;
    let k = scheme.len() as int;
    assert forall|j: int| 0 <= j < k implies o[j] != ':' by {
        assert(o[j] == scheme[j]);
    }
    lemma_find_separator(o, 0, k);
    let rest = o.skip(k + 3);
    assert(rest =~= h);
    lemma_no_separator(h, 0);
    assert(trim_end_char(h, '/') == h);
    assert(origin_host(o) == Some(lower_seq(h)));
}

} // verus!
