//! The decisions of the command-line client: which server and key to use,
//! when to retry a rate-limited request, and how records are printed.

use crate::text::{
    chars_of, dec_seq, int_dec_seq, opt_view, owned, parse_u64_seq, parse_u64_str, push_i64, push_str,
    push_u64, string_of, sub_chars, trim_seq, trim_str,
};
use vstd::prelude::*;

verus! {

/// The standard streams the client asks about.
#[derive(Debug, Clone, Copy, PartialEq, Eq, Structural)]
pub enum Stream {
    Stdin,
}

/// The first of the candidates that is present.
pub open spec fn first_present(a: Option<Seq<char>>, b: Option<Seq<char>>, c: Option<Seq<char>>) -> Option<
    Seq<char>,
> {
    if a is Some {
        a
    } else if b is Some {
        b
    } else {
        c
    }
}

fn first_of(a: Option<&str>, b: Option<&str>, c: Option<&str>) -> (r: Option<String>)
    ensures
        opt_view_string(r) == first_present(opt_view(a), opt_view(b), opt_view(c)),
{
    match a {
        Some(x) => Some(owned(x)),
        None => match b {
            Some(x) => Some(owned(x)),
            None => match c {
                Some(x) => Some(owned(x)),
                None => None,
            },
        },
    }
}

pub open spec fn opt_view_string(o: Option<String>) -> Option<Seq<char>> {
    match o {
        Some(s) => Some(s@),
        None => None,
    }
}

/// The server URL: `--url`, else `AARDBIN_URL`, else the config file's,
/// else `http://127.0.0.1:8080`.
pub fn resolve_url(cli_url: Option<&str>, env_url: Option<&str>, file_url: Option<&str>) -> (r:
    String)
    ensures
        r@ == match first_present(opt_view(cli_url), opt_view(env_url), opt_view(file_url)) {
            Some(u) => u,
            None => "http://127.0.0.1:8080"@,
        },
{
    match first_of(cli_url, env_url, file_url) {
        Some(u) => u,
        None => owned("http://127.0.0.1:8080"),
    }
}

/// The access key without asking: `--key`, else `AARDBIN_ACCESS_KEY`, else
/// `ACCESS_KEY`, else the config file's.
pub fn resolve_key(
    cli_key: Option<&str>,
    env_key: Option<&str>,
    env_access_key: Option<&str>,
    file_key: Option<&str>,
) -> (r: Option<String>)
    ensures
        opt_view_string(r) == match first_present(opt_view(cli_key), opt_view(env_key), opt_view(env_access_key)) {
            Some(k) => Some(k),
            None => opt_view(file_key),
        },
{
    match first_of(cli_key, env_key, env_access_key) {
        Some(k) => Some(k),
        None => match file_key {
            Some(k) => Some(owned(k)),
            None => None,
        },
    }
}

/// A key typed at the prompt: the line trimmed; nothing when it is blank.
pub fn prompted_key(line: &str) -> (r: Option<String>)
    ensures
        opt_view_string(r) == (if trim_seq(line@).len() > 0 {
            Some(trim_seq(line@))
        } else {
            None
        }),
{
    let t = trim_str(line);
    if t.len() > 0 {
        Some(string_of(&t))
    } else {
        None
    }
}

/// The error when no key could be found.
pub fn no_key_message() -> (r: String)
    ensures
        r@ == "No access key found. Set AARDBIN_ACCESS_KEY or use --key."@,
{
    owned("No access key found. Set AARDBIN_ACCESS_KEY or use --key.")
}

/// `s` without its trailing `/`s.
pub open spec fn without_trailing_slashes(s: Seq<char>) -> Seq<char>
    decreases s.len(),
{
    if s.len() > 0 && s.last() == '/' {
        without_trailing_slashes(s.drop_last())
    } else {
        s
    }
}

/// The base URL requests are made under.
pub fn base_url(url: &str) -> (r: String)
    ensures
        r@ == without_trailing_slashes(url@),
{
    let v = chars_of(url);
    let mut j = v.len();
    assert(v@.take(j as int) =~= v@);
    while j > 0 && v[j - 1] == '/'
        invariant
            j <= v.len(),
            without_trailing_slashes(v@) == without_trailing_slashes(v@.take(j as int)),
        decreases j,
    {
        assert(v@.take(j as int).drop_last() =~= v@.take(j - 1));
        j -= 1;
    }
    assert(j > 0 ==> v@.take(j as int).last() == v@[j - 1]);
    let s = sub_chars(&v, 0, j);
    string_of(&s)
}

/// The `Authorization` header value for `key`.
pub fn bearer_header(key: &str) -> (r: String)
    ensures
        r@ == "Bearer "@ + key@,
{
    let mut h = owned("Bearer ");
    push_str(&mut h, key);
    h
}

// ---------------------------------------------------------------------------
// Retrying rate-limited requests
// ---------------------------------------------------------------------------

/// How long to wait before sending again, or `None` to take the reply as
/// it is: a 429 is retried up to three times, waiting the server's
/// `Retry-After` seconds (1 when it gives none that parses, at most 30)
/// times the number of the attempt.
pub open spec fn retry_wait_of(too_many: bool, attempts: u64, retry_after: Option<Seq<char>>) -> Option<
    int,
> {
    if !too_many || attempts >= 3 {
        None
    } else {
        let ra = match retry_after {
            Some(v) => match parse_u64_seq(v) {
                Some(n) => n as int,
                None => 1,
            },
            None => 1,
        };
        let capped = if ra < 30 {
            ra
        } else {
            30
        };
        Some(capped * (attempts + 1))
    }
}

pub fn retry_wait(too_many: bool, attempts: u64, retry_after: Option<&str>) -> (r: Option<u64>)
    ensures
        match r {
            Some(w) => retry_wait_of(too_many, attempts, opt_view(retry_after)) == Some(w as int),
            None => retry_wait_of(too_many, attempts, opt_view(retry_after)) is None,
        },
{
    if !too_many || attempts >= 3 {
        return None;
    }
    let ra = match retry_after {
        Some(v) => match parse_u64_str(v) {
            Some(n) => n,
            None => 1,
        },
        None => 1,
    };
    let capped = if ra < 30 {
        ra
    } else {
        30
    };
    assert(capped * (attempts + 1) <= 90) by (nonlinear_arith)
        requires
            capped <= 30,
            attempts < 3,
    ;
    Some(capped * (attempts + 1))
}

// ---------------------------------------------------------------------------
// Printing
// ---------------------------------------------------------------------------

/// A record in `list`: `{id}  {title}{attachments}  {snippet}`, the title
/// `(untitled)` for the placeholder, the attachments ` 📎×{n}` when there
/// are any.
pub open spec fn list_line_of(
    id: Seq<char>,
    title: Seq<char>,
    untitled: bool,
    attachment_count: nat,
    snippet: Seq<char>,
) -> Seq<char> {
    id + "  "@ + (if untitled {
        "(untitled)"@
    } else {
        title
    }) + (if attachment_count > 0 {
        " 📎×"@ + dec_seq(attachment_count)
    } else {
        Seq::empty()
    }) + "  "@ + snippet
}

pub fn list_line(id: &str, title: &str, untitled: bool, attachment_count: usize, snippet: &str) -> (r:
    String)
    ensures
        r@ == list_line_of(id@, title@, untitled, attachment_count as nat, snippet@),
{
    let mut s = owned(id);
    push_str(&mut s, "  ");
    if untitled {
        push_str(&mut s, "(untitled)");
    } else {
        push_str(&mut s, title);
    }
    if attachment_count > 0 {
        push_str(&mut s, " 📎×");
        push_u64(&mut s, attachment_count as u64);
    } else {
        assert(s@ =~= s@ + Seq::<char>::empty());
    }
    push_str(&mut s, "  ");
    push_str(&mut s, snippet);
    s
}

/// The last line of `list`: `Page {page}/{total_pages} · {total} records`.
pub fn list_footer(page: i64, total_pages: i64, total: i64) -> (r: String)
    ensures
        r@ == "Page "@ + int_dec_seq(page as int) + "/"@ + int_dec_seq(total_pages as int) + " · "@
            + int_dec_seq(total as int) + " records"@,
{
    let mut s = owned("Page ");
    push_i64(&mut s, page);
    push_str(&mut s, "/");
    push_i64(&mut s, total_pages);
    push_str(&mut s, " · ");
    push_i64(&mut s, total);
    push_str(&mut s, " records");
    s
}

/// The heading of `get`: `(untitled)`, or `Title: {title}`.
pub fn title_line(title: &str, untitled: bool) -> (r: String)
    ensures
        r@ == (if untitled {
            "(untitled)"@
        } else {
            "Title: "@ + title@
        }),
{
    if untitled {
        owned("(untitled)")
    } else {
        let mut s = owned("Title: ");
        push_str(&mut s, title);
        s
    }
}

/// An attachment in `get`: `  {id} ({size} bytes) — {name}`.
pub fn attachment_line(id: &str, size_bytes: i64, name: &str) -> (r: String)
    ensures
        r@ == "  "@ + id@ + " ("@ + int_dec_seq(size_bytes as int) + " bytes) — "@ + name@,
{
    let mut s = owned("  ");
    push_str(&mut s, id);
    push_str(&mut s, " (");
    push_i64(&mut s, size_bytes);
    push_str(&mut s, " bytes) — ");
    push_str(&mut s, name);
    s
}

/// A rate-limited request is sent again at most three times; before the
/// attempt after attempt `a` (counted from 0) the client waits the
/// server's `Retry-After` seconds, at most 30 (1 when it gives none that
/// reads as a number), times `a + 1`. Any other reply is taken as it is.
pub proof fn law_retry_wait(too_many: bool, attempts: u64, retry_after: Option<Seq<char>>)
    ensures
        !too_many ==> retry_wait_of(too_many, attempts, retry_after) is None,
        attempts >= 3 ==> retry_wait_of(too_many, attempts, retry_after) is None,
        (too_many && attempts < 3) ==> retry_wait_of(too_many, attempts, retry_after) == Some(
            match retry_after {
                Some(v) => match parse_u64_seq(v) {
                    Some(n) => if n <= 30 {
                        n as int
                    } else {
                        30
                    },
                    None => 1,
                },
                None => 1,
            } * (attempts + 1),
        ),
{
}

/// A line of `list` is the id, two spaces, the title (`(untitled)` for the
/// placeholder), ` 📎×{n}` when the record has `n > 0` attachments, two
/// spaces and the snippet.
pub proof fn law_list_line_layout(
    id: Seq<char>,
    title: Seq<char>,
    untitled: bool,
    n: nat,
    snippet: Seq<char>,
)
    ensures
        list_line_of(id, title, untitled, n, snippet) == id + "  "@ + (if untitled {
            "(untitled)"@
        } else {
            title
        }) + (if n > 0 {
            " 📎×"@ + dec_seq(n)
        } else {
            Seq::<char>::empty()
        }) + "  "@ + snippet,
        list_line_of(id, title, untitled, 0, snippet) == id + "  "@ + (if untitled {
            "(untitled)"@
        } else {
            title
        }) + "  "@ + snippet,
{
    let head = id + "  "@ + (if untitled {
        "(untitled)"@
    } else {
        title
    });
    assert(head + Seq::<char>::empty() =~= head);
}

} // verus!
