//! Text shown on pages: truncation, record titles, list snippets and
//! timestamps. Template rendering itself is the application's.

use crate::text::{
    chars_of, find_char_from, index_of_from, lemma_index_of_from, opt_string_view, owned, push_char,
    push_chars, push_str, string_of, sub_chars, trim_chars, trim_seq,
};
use vstd::prelude::*;

verus! {

/// The first `max` characters, followed by `…` when anything was cut.
pub open spec fn truncate_seq(s: Seq<char>, max: nat) -> Seq<char> {
    if s.len() <= max {
        s
    } else {
        s.take(max as int).push('…')
    }
}

/// Truncates `s` to at most `max` characters (never inside a character),
/// marking a cut with `…`.
pub fn truncate_chars(s: &str, max: usize) -> (r: String)
    ensures
        r@ == truncate_seq(s@, max as nat),
{
    let v = chars_of(s);
    if v.len() <= max {
        return owned(s);
    }
    let head = sub_chars(&v, 0, max);
    let mut out = string_of(&head);
    push_char(&mut out, '…');
    assert(head@ =~= s@.take(max as int));
    out
}

/// The text before the first line break (all of it when there is none).
pub open spec fn first_line(s: Seq<char>) -> Seq<char> {
    let i = index_of_from(s, '\n', 0);
    if i >= 0 {
        s.take(i)
    } else {
        s
    }
}

/// The title a record is listed under: its own title trimmed (at most 200
/// characters), else its first content line trimmed (at most 80), else
/// `Untitled`; the flag tells whether it is that placeholder.
pub open spec fn display_title_seq(title: Seq<char>, content: Seq<char>) -> (Seq<char>, bool) {
    let t = trim_seq(title);
    let l = trim_seq(first_line(content));
    if t.len() > 0 {
        (truncate_seq(t, 200), false)
    } else if l.len() > 0 {
        (truncate_seq(l, 80), false)
    } else {
        ("Untitled"@, true)
    }
}

fn first_line_chars(v: &Vec<char>) -> (r: Vec<char>)
    ensures
        r@ == first_line(v@),
{
    let i = find_char_from(v, '\n', 0);
    proof {
        lemma_index_of_from(v@, '\n', 0);
    }
    match i {
        Some(k) => sub_chars(v, 0, k),
        None => {
            assert(v@.subrange(0, v@.len() as int) =~= v@);
            sub_chars(v, 0, v.len())
        },
    }
}

/// The title of a record and whether it is the `Untitled` placeholder.
pub fn display_title(title: &str, content: &str) -> (r: (String, bool))
    ensures
        (r.0@, r.1) == display_title_seq(title@, content@),
{
    let t = crate::text::trim_str(title);
    if t.len() > 0 {
        let ts = string_of(&t);
        return (truncate_chars(ts.as_str(), 200), false);
    }
    let c = chars_of(content);
    let line = first_line_chars(&c);
    let l = trim_chars(&line);
    if l.len() > 0 {
        let ls = string_of(&l);
        return (truncate_chars(ls.as_str(), 80), false);
    }
    (owned("Untitled"), true)
}

// ---------------------------------------------------------------------------
// Snippets
// ---------------------------------------------------------------------------

/// The non-blank lines of `s`, each trimmed (`str::lines`, `str::trim`,
/// and dropping the empty ones).
pub open spec fn trimmed_lines(s: Seq<char>) -> Seq<Seq<char>>
    decreases s.len(),
{
    let i = index_of_from(s, '\n', 0);
    let l = trim_seq(first_line(s));
    let rest = if i >= 0 {
        proof {
            lemma_index_of_from(s, '\n', 0);
        }
        trimmed_lines(s.skip(i + 1))
    } else {
        Seq::empty()
    };
    if l.len() > 0 {
        seq![l] + rest
    } else {
        rest
    }
}

/// The parts joined with `sep` between them.
pub open spec fn join_with(parts: Seq<Seq<char>>, sep: Seq<char>) -> Seq<char>
    decreases parts.len(),
{
    if parts.len() == 0 {
        Seq::empty()
    } else if parts.len() == 1 {
        parts[0]
    } else {
        parts[0] + sep + join_with(parts.drop_first(), sep)
    }
}

/// The one-line preview of a record: its non-blank lines, trimmed, joined
/// with ` · `, at most 160 characters.
pub open spec fn snippet_seq(content: Seq<char>) -> Seq<char> {
    truncate_seq(join_with(trimmed_lines(content), " · "@), 160)
}

proof fn lemma_join_push(parts: Seq<Seq<char>>, l: Seq<char>, sep: Seq<char>)
    ensures
        join_with(parts.push(l), sep) == if parts.len() == 0 {
            l
        } else {
            join_with(parts, sep) + sep + l
        },
    decreases parts.len(),
{
    if parts.len() == 0 {
        assert(parts.push(l) =~= seq![l]);
    } else if parts.len() == 1 {
        assert(parts.push(l).drop_first() =~= seq![l]);
        assert(join_with(seq![l], sep) == l);
    } else {
        lemma_join_push(parts.drop_first(), l, sep);
        assert(parts.push(l).drop_first() =~= parts.drop_first().push(l));
        assert(join_with(parts.push(l), sep) =~= parts[0] + sep + (join_with(
            parts.drop_first(),
            sep,
        ) + sep + l));
        assert(join_with(parts.push(l), sep) =~= join_with(parts, sep) + sep + l);
    }
}

/// A one-line preview of `content` for list cards.
pub fn snippet(content: &str) -> (r: String)
    ensures
        r@ == snippet_seq(content@),
{
    let mut cur = chars_of(content);
    let mut out = String::new();
    let ghost mut parts: Seq<Seq<char>> = Seq::empty();
    let mut any = false;
    loop
        invariant_except_break
            trimmed_lines(content@) == parts + trimmed_lines(cur@),
        invariant
            any == (parts.len() > 0),
            out@ == join_with(parts, " · "@),
        ensures
            out@ == join_with(trimmed_lines(content@), " · "@),
        decreases cur@.len(),
    {
        let i = find_char_from(&cur, '\n', 0);
        proof {
            lemma_index_of_from(cur@, '\n', 0);
        }
        let line = first_line_chars(&cur);
        let l = trim_chars(&line);
        if l.len() > 0 {
            proof {
                lemma_join_push(parts, l@, " · "@);
            }
            if any {
                push_str(&mut out, " · ");
            }
            push_chars(&mut out, &l);
            any = true;
            proof {
                assert(out@ =~= join_with(parts.push(l@), " · "@));
                parts = parts.push(l@);
            }
        }
        match i {
            Some(k) => {
                let next = sub_chars(&cur, k + 1, cur.len());
                proof {
                    assert(next@ =~= cur@.skip(k + 1));
                    if l@.len() > 0 {
                        assert(trimmed_lines(cur@) == seq![l@] + trimmed_lines(next@));
                    } else {
                        assert(trimmed_lines(cur@) == trimmed_lines(next@));
                    }
                    assert(trimmed_lines(content@) =~= parts + trimmed_lines(next@));
                }
                cur = next;
            },
            None => {
                proof {
                    assert(trimmed_lines(content@) =~= parts);
                }
                break;
            },
        }
    }
    truncate_chars(out.as_str(), 160)
}

// ---------------------------------------------------------------------------
// Laws
// ---------------------------------------------------------------------------

/// A truncated text never exceeds `max` characters plus the ellipsis, and
/// keeps the text's first characters.
pub proof fn law_truncate_is_prefix(s: Seq<char>, max: nat)
    ensures
        truncate_seq(s, max).len() <= max + 1,
        truncate_seq(s, max).len() <= s.len() + 1,
        forall|i: int|
            0 <= i < truncate_seq(s, max).len() && i < max ==> #[trigger] truncate_seq(s, max)[i]
                == s[i],
{
}

/// Each character of a trimmed text comes from the text.
proof fn lemma_trim_within(s: Seq<char>, c: char)
    ensures
        trim_seq(s).contains(c) ==> s.contains(c),
{
    lemma_trim_start_within(s, c);
    lemma_trim_end_within(crate::text::trim_start_seq(s), c);
}

proof fn lemma_trim_start_within(s: Seq<char>, c: char)
    ensures
        crate::text::trim_start_seq(s).contains(c) ==> s.contains(c),
    decreases s.len(),
{
    if s.len() > 0 && crate::text::is_ws(s[0]) {
        lemma_trim_start_within(s.drop_first(), c);
        if s.drop_first().contains(c) {
            let i = choose|i: int| 0 <= i < s.drop_first().len() && s.drop_first()[i] == c;
            assert(s[i + 1] == c);
        }
    }
}

proof fn lemma_trim_end_within(s: Seq<char>, c: char)
    ensures
        crate::text::trim_end_seq(s).contains(c) ==> s.contains(c),
    decreases s.len(),
{
    if s.len() > 0 && crate::text::is_ws(s.last()) {
        lemma_trim_end_within(s.drop_last(), c);
        if s.drop_last().contains(c) {
            let i = choose|i: int| 0 <= i < s.drop_last().len() && s.drop_last()[i] == c;
            assert(s[i] == c);
        }
    }
}

proof fn lemma_lines_one_line(s: Seq<char>)
    ensures
        forall|k: int|
            0 <= k < trimmed_lines(s).len() ==> !(#[trigger] trimmed_lines(s)[k]).contains('\n'),
    decreases s.len(),
{
    lemma_index_of_from(s, '\n', 0);
    let l = trim_seq(first_line(s));
    lemma_trim_within(first_line(s), '\n');
    assert(!first_line(s).contains('\n'));
    let i = index_of_from(s, '\n', 0);
    let rest = if i >= 0 {
        trimmed_lines(s.skip(i + 1))
    } else {
        Seq::empty()
    };
    if i >= 0 {
        lemma_lines_one_line(s.skip(i + 1));
    }
    assert(trimmed_lines(s) == if l.len() > 0 {
        seq![l] + rest
    } else {
        rest
    });
    assert forall|k: int| 0 <= k < trimmed_lines(s).len() implies !(
    #[trigger] trimmed_lines(s)[k]).contains('\n') by {
        if l.len() > 0 {
            if k > 0 {
                assert(trimmed_lines(s)[k] == rest[k - 1]);
            }
        } else {
            assert(trimmed_lines(s)[k] == rest[k]);
        }
    }
}

proof fn lemma_join_one_line(parts: Seq<Seq<char>>, sep: Seq<char>)
    requires
        !sep.contains('\n'),
        forall|k: int| 0 <= k < parts.len() ==> !(#[trigger] parts[k]).contains('\n'),
    ensures
        !join_with(parts, sep).contains('\n'),
    decreases parts.len(),
{
    if parts.len() > 1 {
        lemma_join_one_line(parts.drop_first(), sep);
        let j = join_with(parts, sep);
        let a = parts[0];
        let b = join_with(parts.drop_first(), sep);
        assert(!a.contains('\n'));
        assert forall|i: int| 0 <= i < j.len() implies j[i] != '\n' by {
            if i < a.len() {
                assert(j[i] == a[i]);
            } else if i < a.len() + sep.len() {
                assert(j[i] == sep[i - a.len()]);
            } else {
                assert(j[i] == b[i - a.len() - sep.len()]);
            }
        }
    } else if parts.len() == 1 {
        assert(!parts[0].contains('\n'));
    }
}

/// A snippet is a single line: it holds no line break.
pub proof fn law_snippet_is_one_line(content: Seq<char>)
    ensures
        !snippet_seq(content).contains('\n'),
{
    reveal_strlit(" · ");
    lemma_lines_one_line(content);
    lemma_join_one_line(trimmed_lines(content), " · "@);
    let j = join_with(trimmed_lines(content), " · "@);
    let r = snippet_seq(content);
    assert forall|i: int| 0 <= i < r.len() implies r[i] != '\n' by {
        if j.len() > 160 && i < 160 {
            assert(r[i] == j[i]);
        } else if j.len() <= 160 {
            assert(r[i] == j[i]);
        }
    }
}

// ---------------------------------------------------------------------------
// Timestamps
// ---------------------------------------------------------------------------

/// The format of record timestamps, in the `time` crate's description
/// language.
pub const UTC_FORMAT: &'static str = "[year]-[month]-[day] [hour]:[minute]:[second]";

/// The `time` crate's text for a Unix timestamp in UTC, in the format
/// described by `format`; `None` when the timestamp lies outside the crate's
/// range of dates or the description does not parse.
pub uninterp spec fn utc_datetime_text(ts: int, format: Seq<char>) -> Option<Seq<char>>;

/// `OffsetDateTime::from_unix_timestamp(ts)` formatted by `OffsetDateTime::format`
/// with the description `format` (`format_description::parse_borrowed`); a
/// formatting error gives the empty text.
#[verifier::external_body]
fn utc_datetime(ts: i64, format: &str) -> (r: Option<String>)
    ensures
        opt_string_view(r) == utc_datetime_text(ts as int, format@),
{
    let fmt = match time::format_description::parse_borrowed::<2>(format) {
        Ok(f) => f,
        Err(_) => return None,
    };
    match time::OffsetDateTime::from_unix_timestamp(ts) {
        Ok(dt) => Some(dt.format(&fmt).unwrap_or_default()),
        Err(_) => None,
    }
}

/// The absolute timestamp text of a record, `1970-01-01 00:00:00 UTC`; the
/// empty text for a timestamp out of range.
pub open spec fn ts_text(ts: int) -> Seq<char> {
    match utc_datetime_text(ts, UTC_FORMAT@) {
        Some(t) => t + " UTC"@,
        None => Seq::empty(),
    }
}

/// Absolute UTC timestamp text; the page's script replaces it with a local
/// relative time.
pub fn format_ts_utc(ts: i64) -> (r: String)
    ensures
        r@ == ts_text(ts as int),
{
    match utc_datetime(ts, UTC_FORMAT) {
        Some(mut s) => {
            push_str(&mut s, " UTC");
            s
        },
        None => String::new(),
    }
}

/// A record is listed under its trimmed title, cut after 200 characters
/// with `…`; without one, under its first content line trimmed, cut after
/// 80 characters; without either, under the `Untitled` placeholder.
pub proof fn law_display_title_limits(title: Seq<char>, content: Seq<char>)
    ensures
        ({
            let t = trim_seq(title);
            let l = trim_seq(first_line(content));
            let r = display_title_seq(title, content);
            &&& (t.len() > 0 && t.len() <= 200) ==> r == (t, false)
            &&& t.len() > 200 ==> r == (t.take(200).push('…'), false)
            &&& (t.len() == 0 && l.len() > 0 && l.len() <= 80) ==> r == (l, false)
            &&& (t.len() == 0 && l.len() > 80) ==> r == (l.take(80).push('…'), false)
            &&& (t.len() == 0 && l.len() == 0) ==> r == ("Untitled"@, true)
        }),
{
}

/// The preview of two non-blank lines, each already trimmed, is the two
/// joined with ` · `, cut after 160 characters with `…`.
pub proof fn law_snippet_joins_lines(a: Seq<char>, b: Seq<char>)
    requires
        a.len() > 0,
        b.len() > 0,
        trim_seq(a) == a,
        trim_seq(b) == b,
        !a.contains('\n'),
        !b.contains('\n'),
    ensures
        ({
            let j = a + " · "@ + b;
            &&& j.len() <= 160 ==> snippet_seq(a + seq!['\n'] + b) == j
            &&& j.len() > 160 ==> snippet_seq(a + seq!['\n'] + b) == j.take(160).push('…')
        }),
{
    let s = a + seq!['\n'] + b;
    lemma_index_of_from(s, '\n', 0);
    assert forall|k: int| 0 <= k < a.len() implies s[k] != '\n' by {
        assert(s[k] == a[k]);
    }
    assert(s[a.len() as int] == '\n');
    assert(index_of_from(s, '\n', 0) == a.len());
    assert(s.take(a.len() as int) =~= a);
    assert(s.skip(a.len() + 1int) =~= b);
    lemma_index_of_from(b, '\n', 0);
    if index_of_from(b, '\n', 0) >= 0 {
        assert(b.contains(b[index_of_from(b, '\n', 0)]));
    }
    assert(index_of_from(b, '\n', 0) == -1);
    assert(first_line(b) == b);
    assert(trimmed_lines(b) =~= seq![b]);
    assert(first_line(s) == a);
    assert(trimmed_lines(s) =~= seq![a] + seq![b]);
    assert((seq![a] + seq![b]).drop_first() =~= seq![b]);
    assert(join_with(seq![b], " · "@) == b);
}

/// Timestamps are written `YYYY-MM-DD hh:mm:ss`, in UTC.
pub proof fn law_timestamp_format()
    ensures
        UTC_FORMAT@ == "[year]-[month]-[day] [hour]:[minute]:[second]"@,
{
}

} // verus!
