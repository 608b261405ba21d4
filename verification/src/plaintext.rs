//! The plaintext of an encrypted record: the JSON object
//! `{"title":"...","content":"..."}`, written with the string escapes of
//! `serde_json` (`\"`, `\\`, `\b`, `\t`, `\n`, `\f`, `\r`, `\u00xx` for the
//! other control characters; everything else verbatim), as UTF-8 bytes.
//! Reading accepts more than what is written: any JSON text that holds a
//! string title and a string content, as `serde_json` reads it.

use crate::encoding::hex_lower_digit;
use crate::json::{
    hex4, hex_digit_value, lemma_skip_json, lemma_skip_ws, lemma_string_value, skip_value,
    skip_value_at, skip_ws, skip_ws_at, string_value, string_value_at, Expect, escape_value,
};
use crate::text::{chars_eq, chars_of, push_char, push_str, string_of};
use vstd::prelude::*;

verus! {

/// The escaped form of one character inside a JSON string.
pub open spec fn json_escape_char(c: char) -> Seq<char> {
    let u = c as u32;
    if c == '"' {
        seq!['\\', '"']
    } else if c == '\\' {
        seq!['\\', '\\']
    } else if u == 0x08 {
        seq!['\\', 'b']
    } else if u == 0x09 {
        seq!['\\', 't']
    } else if u == 0x0a {
        seq!['\\', 'n']
    } else if u == 0x0c {
        seq!['\\', 'f']
    } else if u == 0x0d {
        seq!['\\', 'r']
    } else if u < 0x20 {
        seq![
            '\\',
            'u',
            '0',
            '0',
            hex_lower_digit((u / 16) as nat),
            hex_lower_digit((u % 16) as nat),
        ]
    } else {
        seq![c]
    }
}

/// The escaped form of a string's contents.
pub open spec fn json_escape(s: Seq<char>) -> Seq<char>
    decreases s.len(),
{
    if s.len() == 0 {
        Seq::empty()
    } else {
        json_escape_char(s[0]) + json_escape(s.drop_first())
    }
}

/// `{"title":"`
pub open spec fn json_open() -> Seq<char> {
    seq!['{', '"', 't', 'i', 't', 'l', 'e', '"', ':', '"']
}

/// `","content":"`
pub open spec fn json_middle() -> Seq<char> {
    seq!['"', ',', '"', 'c', 'o', 'n', 't', 'e', 'n', 't', '"', ':', '"']
}

/// `"}`
pub open spec fn json_close() -> Seq<char> {
    seq!['"', '}']
}

/// The JSON text for a title and a content.
pub open spec fn plaintext_json(title: Seq<char>, content: Seq<char>) -> Seq<char> {
    json_open() + json_escape(title) + json_middle() + json_escape(content) + json_close()
}

/// The plaintext bytes that are encrypted for a record.
pub open spec fn plaintext_bytes(title: Seq<char>, content: Seq<char>) -> Seq<u8> {
    vstd::utf8::encode_utf8(plaintext_json(title, content))
}

/// Appends the escaped form of one character.
fn push_escaped_char(s: &mut String, c: char)
    ensures
        final(s)@ == old(s)@ + json_escape_char(c),
{
    let u = c as u32;
    if c == '"' {
        push_char(s, '\\');
        push_char(s, '"');
    } else if c == '\\' {
        push_char(s, '\\');
        push_char(s, '\\');
    } else if u == 0x08 {
        push_char(s, '\\');
        push_char(s, 'b');
    } else if u == 0x09 {
        push_char(s, '\\');
        push_char(s, 't');
    } else if u == 0x0a {
        push_char(s, '\\');
        push_char(s, 'n');
    } else if u == 0x0c {
        push_char(s, '\\');
        push_char(s, 'f');
    } else if u == 0x0d {
        push_char(s, '\\');
        push_char(s, 'r');
    } else if u < 0x20 {
        push_char(s, '\\');
        push_char(s, 'u');
        push_char(s, '0');
        push_char(s, '0');
        let hi = u / 16;
        let lo = u % 16;
        push_char(s, if hi < 10 { ((hi as u8) + 48) as char } else { ((hi as u8) + 87) as char });
        push_char(s, if lo < 10 { ((lo as u8) + 48) as char } else { ((lo as u8) + 87) as char });
    } else {
        push_char(s, c);
    }
    proof {
        assert(final(s)@ =~= old(s)@ + json_escape_char(c));
    }
}

/// Appends the escaped form of a string's contents.
fn push_escaped(s: &mut String, t: &str)
    ensures
        final(s)@ == old(s)@ + json_escape(t@),
{
    let v = chars_of(t);
    let mut k: usize = 0;
    let ghost start = s@;
    assert(v@.skip(0) =~= v@);
    while k < v.len()
        invariant
            k <= v.len(),
            v@ == t@,
            start == old(s)@,
            s@ + json_escape(v@.skip(k as int)) == start + json_escape(v@),
        decreases v.len() - k,
    {
        let ghost before = s@;
        push_escaped_char(s, v[k]);
        proof {
            let rest = v@.skip(k as int);
            assert(rest.drop_first() =~= v@.skip(k + 1));
            assert(json_escape(rest) == json_escape_char(rest[0]) + json_escape(rest.drop_first()));
            assert(s@ + json_escape(v@.skip(k + 1)) =~= before + json_escape(rest));
        }
        k += 1;
    }
    proof {
        assert(v@.skip(v.len() as int) =~= Seq::<char>::empty());
        assert(s@ + json_escape(Seq::<char>::empty()) =~= s@);
    }
}

/// The JSON text for a title and a content.
pub fn encode_plaintext(title: &str, content: &str) -> (r: String)
    ensures
        r@ == plaintext_json(title@, content@),
{
    let mut s = String::new();
    push_str(&mut s, "{\"title\":\"");
    push_escaped(&mut s, title);
    push_str(&mut s, "\",\"content\":\"");
    push_escaped(&mut s, content);
    push_str(&mut s, "\"}");
    proof {
        reveal_strlit("{\"title\":\"");
        reveal_strlit("\",\"content\":\"");
        reveal_strlit("\"}");
        assert(s@ =~= plaintext_json(title@, content@));
    }
    s
}

/// `std::str::from_utf8`, owned: the characters of `b` when it is valid
/// UTF-8.
#[verifier::external_body]
fn utf8_to_string(b: &[u8]) -> (r: Option<String>)
    ensures
        match r {
            Some(s) => vstd::utf8::valid_utf8(b@) && s@ == vstd::utf8::decode_utf8(b@),
            None => !vstd::utf8::valid_utf8(b@),
        },
{
    match std::str::from_utf8(b) {
        Ok(s) => Some(s.to_owned()),
        Err(_) => None,
    }
}

/// `title`, the key of the title member.
pub open spec fn title_key() -> Seq<char> {
    seq!['t', 'i', 't', 'l', 'e']
}

/// `content`, the key of the content member.
pub open spec fn content_key() -> Seq<char> {
    seq!['c', 'o', 'n', 't', 'e', 'n', 't']
}

/// A string value after optional whitespace from `s[i]` on: its
/// characters and the index past its closing quote.
pub open spec fn string_field(s: Seq<char>, i: int) -> Option<(Seq<char>, int)> {
    let j = skip_ws(s, i);
    if 0 <= j < s.len() && s[j] == '"' {
        string_value(s, j + 1)
    } else {
        None
    }
}

/// Reads the members of the record object from `s[i]` on, just after its
/// opening brace (`first`) or after a member, given the title and content
/// read so far: the title and content read in all, and the index past the
/// closing brace. A member whose key is neither `title` nor `content` is
/// skipped whatever its value; a title or content that is not a string, or
/// that comes a second time, refuses the text.
pub open spec fn record_members(
    s: Seq<char>,
    i: int,
    first: bool,
    title: Option<Seq<char>>,
    content: Option<Seq<char>>,
) -> Option<(Option<Seq<char>>, Option<Seq<char>>, int)>
    decreases s.len() - i,
{
    if i < 0 || i > s.len() {
        None
    } else {
        let j = skip_ws(s, i);
        proof {
            lemma_skip_ws(s, i);
        }
        if j >= s.len() {
            None
        } else if s[j] == '}' {
            Some((title, content, j + 1))
        } else if !first && s[j] != ',' {
            None
        } else {
            let q = if first {
                j
            } else {
                skip_ws(s, j + 1)
            };
            proof {
                lemma_skip_ws(s, j + 1);
            }
            if q >= s.len() || s[q] != '"' {
                None
            } else {
                match string_value(s, q + 1) {
                    None => None,
                    Some((key, e)) => {
                        proof {
                            lemma_string_value(s, q + 1);
                            lemma_skip_ws(s, e);
                        }
                        let k = skip_ws(s, e);
                        if k >= s.len() || s[k] != ':' {
                            None
                        } else if key == title_key() || key == content_key() {
                            if (key == title_key() && title is Some) || (key == content_key()
                                && content is Some) {
                                None
                            } else {
                                match string_field(s, k + 1) {
                                    Some((x, e2)) => {
                                        proof {
                                            lemma_skip_ws(s, k + 1);
                                            lemma_string_value(s, skip_ws(s, k + 1) + 1);
                                        }
                                        if key == title_key() {
                                            record_members(s, e2, false, Some(x), content)
                                        } else {
                                            record_members(s, e2, false, title, Some(x))
                                        }
                                    },
                                    None => None,
                                }
                            }
                        } else {
                            match skip_value(s, k + 1) {
                                Some(e2) => {
                                    proof {
                                        lemma_skip_json(s, Expect::Value, k + 1, Seq::empty());
                                    }
                                    record_members(s, e2, false, title, content)
                                },
                                None => None,
                            }
                        }
                    },
                }
            }
        }
    }
}

/// The title and content that a JSON text holds, read as `serde_json`
/// reads a struct with the two string fields `title` and `content`: either
/// an object that has each of them once (other members are skipped), or an
/// array of exactly the two strings, in that order; whitespace around
/// tokens, and nothing else after the value.
pub open spec fn record_from_chars(s: Seq<char>) -> Option<(Seq<char>, Seq<char>)> {
    let j = skip_ws(s, 0);
    if j >= s.len() {
        None
    } else if s[j] == '{' {
        match record_members(s, j + 1, true, None, None) {
            Some((Some(t), Some(c), e)) => if skip_ws(s, e) == s.len() {
                Some((t, c))
            } else {
                None
            },
            _ => None,
        }
    } else if s[j] == '[' {
        match string_field(s, j + 1) {
            Some((t, e1)) => {
                let k = skip_ws(s, e1);
                if 0 <= k < s.len() && s[k] == ',' {
                    match string_field(s, k + 1) {
                        Some((c, e2)) => {
                            let m = skip_ws(s, e2);
                            if 0 <= m < s.len() && s[m] == ']' && skip_ws(s, m + 1) == s.len() {
                                Some((t, c))
                            } else {
                                None
                            }
                        },
                        None => None,
                    }
                } else {
                    None
                }
            },
            None => None,
        }
    } else {
        None
    }
}

/// The title and content that plaintext bytes hold: `None` unless they are
/// UTF-8 text that `record_from_chars` reads.
pub open spec fn record_from_bytes(b: Seq<u8>) -> Option<(Seq<char>, Seq<char>)> {
    if vstd::utf8::valid_utf8(b) {
        record_from_chars(vstd::utf8::decode_utf8(b))
    } else {
        None
    }
}

pub open spec fn chars_opt(o: Option<Vec<char>>) -> Option<Seq<char>> {
    match o {
        Some(v) => Some(v@),
        None => None,
    }
}

/// `string_field`.
fn string_field_at(v: &Vec<char>, i: usize) -> (r: Option<(Vec<char>, usize)>)
    requires
        i <= v.len(),
    ensures
        match r {
            Some((x, e)) => string_field(v@, i as int) == Some((x@, e as int)),
            None => string_field(v@, i as int) is None,
        },
{
    let j = skip_ws_at(v, i);
    proof {
        lemma_skip_ws(v@, i as int);
    }
    if j < v.len() && v[j] == '"' {
        string_value_at(v, j + 1)
    } else {
        None
    }
}

/// `record_members` from just after the opening brace.
fn record_members_at(v: &Vec<char>, start: usize) -> (r: Option<
    (Option<Vec<char>>, Option<Vec<char>>, usize),
>)
    requires
        start <= v.len(),
    ensures
        match r {
            Some((t, c, e)) => record_members(v@, start as int, true, None, None) == Some(
                (chars_opt(t), chars_opt(c), e as int),
            ) && e <= v.len(),
            None => record_members(v@, start as int, true, None, None) is None,
        },
{
    let title_chars = chars_of("title");
    let content_chars = chars_of("content");
    proof {
        reveal_strlit("title");
        reveal_strlit("content");
        assert(title_chars@ =~= title_key());
        assert(content_chars@ =~= content_key());
    }
    let mut first = true;
    let mut title: Option<Vec<char>> = None;
    let mut content: Option<Vec<char>> = None;
    let mut i = start;
    loop
        invariant
            i <= v.len(),
            title_chars@ == title_key(),
            content_chars@ == content_key(),
            record_members(v@, start as int, true, None, None) == record_members(
                v@,
                i as int,
                first,
                chars_opt(title),
                chars_opt(content),
            ),
        decreases v.len() - i,
    {
        let j = skip_ws_at(v, i);
        proof {
            lemma_skip_ws(v@, i as int);
        }
        if j >= v.len() {
            return None;
        }
        if v[j] == '}' {
            return Some((title, content, j + 1));
        }
        if !first && v[j] != ',' {
            return None;
        }
        let q = if first {
            j
        } else {
            skip_ws_at(v, j + 1)
        };
        proof {
            lemma_skip_ws(v@, j + 1);
        }
        if q >= v.len() || v[q] != '"' {
            return None;
        }
        let (key, e) = match string_value_at(v, q + 1) {
            Some(x) => x,
            None => {
                return None;
            },
        };
        proof {
            lemma_string_value(v@, q + 1);
        }
        let k = skip_ws_at(v, e);
        proof {
            lemma_skip_ws(v@, e as int);
        }
        if k >= v.len() || v[k] != ':' {
            return None;
        }
        let is_title = chars_eq(&key, &title_chars);
        let is_content = chars_eq(&key, &content_chars);
        if is_title || is_content {
            if (is_title && title.is_some()) || (is_content && content.is_some()) {
                return None;
            }
            match string_field_at(v, k + 1) {
                Some((x, e2)) => {
                    proof {
                        lemma_skip_ws(v@, k + 1);
                        lemma_string_value(v@, skip_ws(v@, k + 1) + 1);
                    }
                    if is_title {
                        title = Some(x);
                    } else {
                        content = Some(x);
                    }
                    i = e2;
                },
                None => {
                    return None;
                },
            }
        } else {
            match skip_value_at(v, k + 1) {
                Some(e2) => {
                    proof {
                        lemma_skip_json(v@, Expect::Value, k + 1, Seq::empty());
                    }
                    i = e2;
                },
                None => {
                    return None;
                },
            }
        }
        first = false;
    }
}

/// `record_from_chars`.
fn record_from_chars_at(v: &Vec<char>) -> (r: Option<(Vec<char>, Vec<char>)>)
    ensures
        match r {
            Some((t, c)) => record_from_chars(v@) == Some((t@, c@)),
            None => record_from_chars(v@) is None,
        },
{
    let j = skip_ws_at(v, 0);
    proof {
        lemma_skip_ws(v@, 0);
    }
    if j >= v.len() {
        return None;
    }
    if v[j] == '{' {
        match record_members_at(v, j + 1) {
            Some((Some(t), Some(c), e)) => {
                if skip_ws_at(v, e) == v.len() {
                    Some((t, c))
                } else {
                    None
                }
            },
            _ => None,
        }
    } else if v[j] == '[' {
        let (t, e1) = match string_field_at(v, j + 1) {
            Some(x) => x,
            None => {
                return None;
            },
        };
        proof {
            lemma_skip_ws(v@, j + 1);
            lemma_string_value(v@, skip_ws(v@, j + 1) + 1);
        }
        let k = skip_ws_at(v, e1);
        proof {
            lemma_skip_ws(v@, e1 as int);
        }
        if !(k < v.len() && v[k] == ',') {
            return None;
        }
        let (c, e2) = match string_field_at(v, k + 1) {
            Some(x) => x,
            None => {
                return None;
            },
        };
        proof {
            lemma_skip_ws(v@, k + 1);
            lemma_string_value(v@, skip_ws(v@, k + 1) + 1);
        }
        let m = skip_ws_at(v, e2);
        proof {
            lemma_skip_ws(v@, e2 as int);
        }
        if m < v.len() && v[m] == ']' && skip_ws_at(v, m + 1) == v.len() {
            Some((t, c))
        } else {
            None
        }
    } else {
        None
    }
}

/// Decodes record plaintext as `serde_json::from_slice` reads it into a
/// struct with the string fields `title` and `content`.
pub fn decode_plaintext(b: &[u8]) -> (r: Option<(String, String)>)
    ensures
        match r {
            Some((t, c)) => record_from_bytes(b@) == Some((t@, c@)),
            None => record_from_bytes(b@) is None,
        },
{
    let s = match utf8_to_string(b) {
        Some(s) => s,
        None => {
            return None;
        },
    };
    let v = chars_of(s.as_str());
    match record_from_chars_at(&v) {
        Some((t, c)) => Some((string_of(&t), string_of(&c))),
        None => None,
    }
}

/// A character that JSON strings hold as it is.
spec fn is_plain(c: char) -> bool {
    c != '"' && c != '\\' && (c as u32) >= 0x20
}

/// Where the escaped form of `c` stands at `s[i..]`, reading it gives
/// back `c`.
proof fn lemma_read_escaped_char(s: Seq<char>, i: int, c: char)
    requires
        0 <= i,
        i + json_escape_char(c).len() <= s.len(),
        forall|m: int| 0 <= m < json_escape_char(c).len() ==> s[i + m] == json_escape_char(c)[m],
    ensures
        is_plain(c) ==> json_escape_char(c) == seq![c] && s[i] == c,
        !is_plain(c) ==> s[i] == '\\' && escape_value(s, i) == Some(
            (c, json_escape_char(c).len() as int),
        ),
{
    let e = json_escape_char(c);
    let u = c as u32;
    vstd::utf8::char_u32_cast(c, u);
    if is_plain(c) {
        assert(s[i] == e[0]);
    } else {
        assert(s[i] == e[0]);
        assert(s[i + 1] == e[1]);
        if u < 0x20 && u != 0x08 && u != 0x09 && u != 0x0a && u != 0x0c && u != 0x0d {
            assert(s[i + 2] == e[2]);
            assert(s[i + 3] == e[3]);
            assert(s[i + 4] == e[4]);
            assert(s[i + 5] == e[5]);
            assert(hex_digit_value(hex_lower_digit((u / 16) as nat)) == Some((u / 16) as int));
            assert(hex_digit_value(hex_lower_digit((u % 16) as nat)) == Some((u % 16) as int));
            assert((u / 16) * 16 + u % 16 == u);
            assert(hex4(s, i + 2) == Some(u as int));
        }
    }
}

/// Reading the escaped form of `x` followed by a quote gives back `x` and
/// stops past that quote.
proof fn lemma_string_roundtrip(s: Seq<char>, pre: Seq<char>, x: Seq<char>, rest: Seq<char>)
    requires
        rest.len() > 0,
        rest[0] == '"',
        s == pre + json_escape(x) + rest,
    ensures
        string_value(s, pre.len() as int) == Some((x, pre.len() + json_escape(x).len() + 1int)),
    decreases x.len(),
{
    let i = pre.len() as int;
    if x.len() == 0 {
        assert(s[i] == rest[0]);
    } else {
        let c = x[0];
        let e = json_escape_char(c);
        let tail = x.drop_first();
        assert(json_escape(x) == e + json_escape(tail));
        let n = e.len() as int;
        assert(s =~= (pre + e) + json_escape(tail) + rest);
        assert forall|m: int| 0 <= m < n implies s[i + m] == e[m] by {
            assert(s[i + m] == (pre + e)[i + m]);
        }
        lemma_string_roundtrip(s, pre + e, tail, rest);
        lemma_read_escaped_char(s, i, c);
        assert(seq![c] + tail =~= x);
    }
}

/// The keys are written as they are: they hold nothing to escape.
proof fn lemma_keys_unescaped()
    ensures
        json_escape(title_key()) == title_key(),
        json_escape(content_key()) == content_key(),
{
    reveal_with_fuel(json_escape, 8);
    let t = title_key();
    assert(json_escape(t) =~= t);
    let c = content_key();
    assert(json_escape(c) =~= c);
}

/// The members after the title: the content and the closing brace.
proof fn lemma_members_after_title(s: Seq<char>, p: int, q: int, t: Seq<char>, c: Seq<char>)
    requires
        0 <= p,
        p + 12 <= q < s.len(),
        s[p] == ',',
        s[p + 1] == '"',
        string_value(s, p + 2) == Some((content_key(), p + 10)),
        s[p + 10] == ':',
        s[p + 11] == '"',
        string_value(s, p + 12) == Some((c, q)),
        s[q] == '}',
    ensures
        record_members(s, p, false, Some(t), None) == Some((Some(t), Some(c), q + 1)),
{
    assert(skip_ws(s, q) == q);
    assert(record_members(s, q, false, Some(t), Some(c)) == Some((Some(t), Some(c), q + 1)));
    assert(skip_ws(s, p + 11) == p + 11);
    assert(string_field(s, p + 11) == Some((c, q)));
    assert(skip_ws(s, p + 10) == p + 10);
    assert(skip_ws(s, p + 1) == p + 1);
    assert(skip_ws(s, p) == p);
    assert(content_key() != title_key()) by {
        assert(content_key().len() != title_key().len());
    }
}

/// The members from the opening brace on: the title, then the rest.
proof fn lemma_members_from_title(s: Seq<char>, p: int, t: Seq<char>, rest: (
    Option<Seq<char>>,
    Option<Seq<char>>,
    int,
))
    requires
        10 < p <= s.len(),
        s[1] == '"',
        string_value(s, 2) == Some((title_key(), 8int)),
        s[8] == ':',
        s[9] == '"',
        string_value(s, 10) == Some((t, p)),
        record_members(s, p, false, Some(t), None) == Some(rest),
    ensures
        record_members(s, 1, true, None, None) == Some(rest),
{
    assert(skip_ws(s, 9) == 9);
    assert(string_field(s, 9) == Some((t, p)));
    assert(skip_ws(s, 8) == 8);
    assert(skip_ws(s, 1) == 1);
}

/// Decoding the plaintext written for a record gives back its title and
/// content.
#[verifier::rlimit(40)]
pub proof fn law_plaintext_decodes(t: Seq<char>, c: Seq<char>)
    ensures
        record_from_bytes(plaintext_bytes(t, c)) == Some((t, c)),
{
    let s = plaintext_json(t, c);
    vstd::utf8::encode_utf8_valid_utf8(s);
    vstd::utf8::encode_utf8_decode_utf8(s);
    lemma_keys_unescaped();
    let l1 = json_escape(t).len() as int;
    let l2 = json_escape(c).len() as int;
    let len = s.len() as int;
    let a = json_open();
    let m = json_middle();
    let z = json_close();
    let et = json_escape(t);
    let ec = json_escape(c);
    assert(s =~= a + et + m + ec + z);
    assert(len == 25 + l1 + l2);
    // the key `title`
    let pre_k1 = seq!['{', '"'];
    let rest_k1 = seq!['"', ':', '"'] + et + m + ec + z;
    assert(s =~= pre_k1 + json_escape(title_key()) + rest_k1);
    lemma_string_roundtrip(s, pre_k1, title_key(), rest_k1);
    // the title
    let rest_t = m + ec + z;
    assert(s =~= a + et + rest_t);
    lemma_string_roundtrip(s, a, t, rest_t);
    // the key `content`
    let pre_k2 = a + et + seq!['"', ',', '"'];
    let rest_k2 = seq!['"', ':', '"'] + ec + z;
    assert(s =~= pre_k2 + json_escape(content_key()) + rest_k2);
    lemma_string_roundtrip(s, pre_k2, content_key(), rest_k2);
    // the content
    let pre_c = a + et + m;
    assert(s =~= pre_c + ec + z);
    lemma_string_roundtrip(s, pre_c, c, z);
    assert(s[0] == '{' && s[1] == '"' && s[8] == ':' && s[9] == '"') by {
        assert(s =~= a + (et + m + ec + z));
    }
    let p = 11 + l1;
    assert(s[p] == ',' && s[p + 1] == '"' && s[p + 10] == ':' && s[p + 11] == '"') by {
        assert(s =~= (a + et) + m + (ec + z));
        assert(s[p] == m[1]);
        assert(s[p + 1] == m[2]);
        assert(s[p + 10] == m[11]);
        assert(s[p + 11] == m[12]);
    }
    let q = 23 + l1 + l2;
    assert(s[q + 1] == '}') by {
        assert(s =~= pre_c + ec + z);
        assert(s[q + 1] == z[1]);
    }
    lemma_members_after_title(s, p, q + 1, t, c);
    lemma_members_from_title(s, p, t, (Some(t), Some(c), len));
    assert(skip_ws(s, len) == len);
    assert(skip_ws(s, 0) == 0);
    assert(record_from_chars(s) == Some((t, c)));
}

/// The plaintext determines the title and the content: distinct records
/// never share a plaintext.
pub proof fn law_plaintext_injective(t1: Seq<char>, c1: Seq<char>, t2: Seq<char>, c2: Seq<char>)
    requires
        plaintext_bytes(t1, c1) == plaintext_bytes(t2, c2),
    ensures
        t1 == t2,
        c1 == c2,
{
    law_plaintext_decodes(t1, c1);
    law_plaintext_decodes(t2, c2);
}

} // verus!
