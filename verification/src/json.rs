//! Reading JSON text, character by character, the way `serde_json` reads a
//! slice: insignificant whitespace, strings and their escapes, numbers,
//! literals, and whole values that are read only to be skipped.
//!
//! Every reader starts at an index into the text and gives back the index
//! just past what it read, or `None` where the text is not JSON there.

use vstd::prelude::*;

verus! {

/// The four characters JSON allows between tokens.
pub open spec fn is_json_ws(c: char) -> bool {
    c == ' ' || c == '\t' || c == '\n' || c == '\r'
}

/// The first index at or after `i` that is not whitespace.
pub open spec fn skip_ws(s: Seq<char>, i: int) -> int
    decreases s.len() - i,
{
    if 0 <= i < s.len() && is_json_ws(s[i]) {
        skip_ws(s, i + 1)
    } else {
        i
    }
}

pub open spec fn is_digit(c: char) -> bool {
    48 <= (c as u32) <= 57
}

/// The first index at or after `i` that is not a decimal digit.
pub open spec fn skip_digits(s: Seq<char>, i: int) -> int
    decreases s.len() - i,
{
    if 0 <= i < s.len() && is_digit(s[i]) {
        skip_digits(s, i + 1)
    } else {
        i
    }
}

/// The value of a hex digit, in either case.
pub open spec fn hex_digit_value(c: char) -> Option<int> {
    let u = c as u32;
    if 48 <= u <= 57 {
        Some(u - 48)
    } else if 97 <= u <= 102 {
        Some(u - 87)
    } else if 65 <= u <= 70 {
        Some(u - 55)
    } else {
        None
    }
}

/// The number written by the four hex digits at `s[i..i + 4]`.
pub open spec fn hex4(s: Seq<char>, i: int) -> Option<int> {
    if 0 <= i && i + 4 <= s.len() && hex_digit_value(s[i]) is Some && hex_digit_value(s[i + 1]) is Some
        && hex_digit_value(s[i + 2]) is Some && hex_digit_value(s[i + 3]) is Some {
        Some(
            hex_digit_value(s[i])->Some_0 * 4096 + hex_digit_value(s[i + 1])->Some_0 * 256
                + hex_digit_value(s[i + 2])->Some_0 * 16 + hex_digit_value(s[i + 3])->Some_0,
        )
    } else {
        None
    }
}

/// The character that a one-letter escape `\e` stands for.
pub open spec fn simple_escape(e: char) -> Option<char> {
    if e == '"' {
        Some('"')
    } else if e == '\\' {
        Some('\\')
    } else if e == '/' {
        Some('/')
    } else if e == 'b' {
        Some('\u{8}')
    } else if e == 'f' {
        Some('\u{c}')
    } else if e == 'n' {
        Some('\n')
    } else if e == 'r' {
        Some('\r')
    } else if e == 't' {
        Some('\t')
    } else {
        None
    }
}

pub open spec fn is_high_surrogate(n: int) -> bool {
    0xD800 <= n <= 0xDBFF
}

pub open spec fn is_low_surrogate(n: int) -> bool {
    0xDC00 <= n <= 0xDFFF
}

/// The escape that starts with the backslash at `s[i]`, in a string whose
/// value is kept: the character it stands for and its length. A `\u`
/// escape of a high surrogate must be followed by one of a low surrogate;
/// a lone surrogate is refused.
pub open spec fn escape_value(s: Seq<char>, i: int) -> Option<(char, int)> {
    if i < 0 || i + 1 >= s.len() {
        None
    } else if simple_escape(s[i + 1]) is Some {
        Some((simple_escape(s[i + 1])->Some_0, 2))
    } else if s[i + 1] == 'u' {
        match hex4(s, i + 2) {
            None => None,
            Some(n) => if is_low_surrogate(n) {
                None
            } else if is_high_surrogate(n) {
                if i + 7 < s.len() && s[i + 6] == '\\' && s[i + 7] == 'u' {
                    match hex4(s, i + 8) {
                        Some(m) => if is_low_surrogate(m) {
                            Some(((((n - 0xD800) * 1024 + (m - 0xDC00)) + 0x10000) as char, 12))
                        } else {
                            None
                        },
                        None => None,
                    }
                } else {
                    None
                }
            } else {
                Some((n as char, 6))
            },
        }
    } else {
        None
    }
}

/// Reads the rest of a string whose opening quote is just before `s[i]`:
/// the characters it stands for and the index past its closing quote.
pub open spec fn string_value(s: Seq<char>, i: int) -> Option<(Seq<char>, int)>
    decreases s.len() - i,
{
    if i < 0 || i >= s.len() {
        None
    } else if s[i] == '"' {
        Some((Seq::empty(), i + 1))
    } else if s[i] == '\\' {
        match escape_value(s, i) {
            Some((c, n)) => match string_value(s, i + n) {
                Some((r, j)) => Some((seq![c] + r, j)),
                None => None,
            },
            None => None,
        }
    } else if (s[i] as u32) < 0x20 {
        None
    } else {
        match string_value(s, i + 1) {
            Some((r, j)) => Some((seq![s[i]] + r, j)),
            None => None,
        }
    }
}

/// Skips the rest of a string that is read only to be skipped: escapes
/// must be well formed, but a `\u` escape is any four hex digits.
pub open spec fn skip_string(s: Seq<char>, i: int) -> Option<int>
    decreases s.len() - i,
{
    if i < 0 || i >= s.len() {
        None
    } else if s[i] == '"' {
        Some(i + 1)
    } else if s[i] == '\\' {
        if i + 1 < s.len() && simple_escape(s[i + 1]) is Some {
            skip_string(s, i + 2)
        } else if i + 1 < s.len() && s[i + 1] == 'u' && hex4(s, i + 2) is Some {
            skip_string(s, i + 6)
        } else {
            None
        }
    } else if (s[i] as u32) < 0x20 {
        None
    } else {
        skip_string(s, i + 1)
    }
}

/// Skips a number that starts at `s[i]`: an optional minus, an integer part
/// without leading zeros, an optional fraction with at least one digit, an
/// optional exponent with at least one digit.
pub open spec fn skip_number(s: Seq<char>, i: int) -> Option<int> {
    let p = if 0 <= i < s.len() && s[i] == '-' {
        i + 1
    } else {
        i
    };
    if !(0 <= p < s.len() && is_digit(s[p])) {
        None
    } else {
        let q = if s[p] == '0' {
            p + 1
        } else {
            skip_digits(s, p + 1)
        };
        if s[p] == '0' && q < s.len() && is_digit(s[q]) {
            None
        } else {
            let frac = q < s.len() && s[q] == '.';
            let r = if frac {
                skip_digits(s, q + 1)
            } else {
                q
            };
            if frac && r == q + 1 {
                None
            } else if r < s.len() && (s[r] == 'e' || s[r] == 'E') {
                let t = if r + 1 < s.len() && (s[r + 1] == '+' || s[r + 1] == '-') {
                    r + 2
                } else {
                    r + 1
                };
                if t < s.len() && is_digit(s[t]) {
                    Some(skip_digits(s, t + 1))
                } else {
                    None
                }
            } else {
                Some(r)
            }
        }
    }
}

/// Skips a string, number or literal that starts at `s[j]`.
pub open spec fn scalar_end(s: Seq<char>, j: int) -> Option<int> {
    if !(0 <= j < s.len()) {
        None
    } else if s[j] == '"' {
        skip_string(s, j + 1)
    } else if s[j] == 'n' {
        if j + 4 <= s.len() && s[j + 1] == 'u' && s[j + 2] == 'l' && s[j + 3] == 'l' {
            Some(j + 4)
        } else {
            None
        }
    } else if s[j] == 't' {
        if j + 4 <= s.len() && s[j + 1] == 'r' && s[j + 2] == 'u' && s[j + 3] == 'e' {
            Some(j + 4)
        } else {
            None
        }
    } else if s[j] == 'f' {
        if j + 5 <= s.len() && s[j + 1] == 'a' && s[j + 2] == 'l' && s[j + 3] == 's' && s[j + 4]
            == 'e' {
            Some(j + 5)
        } else {
            None
        }
    } else if s[j] == '-' || is_digit(s[j]) {
        skip_number(s, j)
    } else {
        None
    }
}

/// What a skip expects next.
#[derive(PartialEq, Eq, Structural, Clone, Copy)]
pub enum Expect {
    /// A value.
    Value,
    /// An object member: a key, a colon and a value.
    Member,
    /// What follows a complete value inside the open containers.
    After,
}

/// Skips JSON from `s[i]` on, expecting `e`, inside the containers still
/// open in `open` (`[` or `{`, innermost last). The result is the index
/// past the value once no container is open.
pub open spec fn skip_json(s: Seq<char>, e: Expect, i: int, open: Seq<char>) -> Option<int>
    decreases s.len() - i,
{
    if i < 0 || i > s.len() {
        None
    } else {
        let j = skip_ws(s, i);
        proof {
            lemma_skip_ws(s, i);
        }
        match e {
            Expect::Value => if j >= s.len() {
                None
            } else if s[j] == '[' || s[j] == '{' {
                let k = skip_ws(s, j + 1);
                proof {
                    lemma_skip_ws(s, j + 1);
                }
                if k < s.len() && ((s[j] == '[' && s[k] == ']') || (s[j] == '{' && s[k] == '}')) {
                    skip_json(s, Expect::After, k + 1, open)
                } else if s[j] == '[' {
                    skip_json(s, Expect::Value, j + 1, open.push('['))
                } else {
                    skip_json(s, Expect::Member, j + 1, open.push('{'))
                }
            } else {
                match scalar_end(s, j) {
                    Some(end) => {
                        proof {
                            lemma_scalar_end(s, j);
                        }
                        skip_json(s, Expect::After, end, open)
                    },
                    None => None,
                }
            },
            Expect::Member => if j < s.len() && s[j] == '"' {
                match skip_string(s, j + 1) {
                    Some(end) => {
                        proof {
                            lemma_skip_string(s, j + 1);
                            lemma_skip_ws(s, end);
                        }
                        let k = skip_ws(s, end);
                        if k < s.len() && s[k] == ':' {
                            skip_json(s, Expect::Value, k + 1, open)
                        } else {
                            None
                        }
                    },
                    None => None,
                }
            } else {
                None
            },
            Expect::After => if open.len() == 0 {
                Some(i)
            } else if j >= s.len() {
                None
            } else if s[j] == ',' {
                if open.last() == '[' {
                    skip_json(s, Expect::Value, j + 1, open)
                } else {
                    skip_json(s, Expect::Member, j + 1, open)
                }
            } else if (s[j] == ']' && open.last() == '[') || (s[j] == '}' && open.last() == '{') {
                skip_json(s, Expect::After, j + 1, open.drop_last())
            } else {
                None
            },
        }
    }
}

/// Skips one whole value starting at `s[i]`, leading whitespace included.
pub open spec fn skip_value(s: Seq<char>, i: int) -> Option<int> {
    skip_json(s, Expect::Value, i, Seq::empty())
}

/// Skipping never moves back, nor past the end of the text.
pub proof fn lemma_skip_json(s: Seq<char>, e: Expect, i: int, open: Seq<char>)
    ensures
        skip_json(s, e, i, open) matches Some(r) ==> i <= r <= s.len(),
    decreases s.len() - i,
{
    if 0 <= i <= s.len() {
        lemma_skip_ws(s, i);
        let j = skip_ws(s, i);
        match e {
            Expect::Value => if j < s.len() {
                if s[j] == '[' || s[j] == '{' {
                    lemma_skip_ws(s, j + 1);
                    let k = skip_ws(s, j + 1);
                    if k < s.len() && ((s[j] == '[' && s[k] == ']') || (s[j] == '{' && s[k] == '}')) {
                        lemma_skip_json(s, Expect::After, k + 1, open);
                    } else if s[j] == '[' {
                        lemma_skip_json(s, Expect::Value, j + 1, open.push('['));
                    } else {
                        lemma_skip_json(s, Expect::Member, j + 1, open.push('{'));
                    }
                } else if let Some(end) = scalar_end(s, j) {
                    lemma_scalar_end(s, j);
                    lemma_skip_json(s, Expect::After, end, open);
                }
            },
            Expect::Member => if j < s.len() && s[j] == '"' {
                if let Some(end) = skip_string(s, j + 1) {
                    lemma_skip_string(s, j + 1);
                    lemma_skip_ws(s, end);
                    let k = skip_ws(s, end);
                    if k < s.len() && s[k] == ':' {
                        lemma_skip_json(s, Expect::Value, k + 1, open);
                    }
                }
            },
            Expect::After => if open.len() > 0 && j < s.len() {
                if s[j] == ',' {
                    if open.last() == '[' {
                        lemma_skip_json(s, Expect::Value, j + 1, open);
                    } else {
                        lemma_skip_json(s, Expect::Member, j + 1, open);
                    }
                } else if (s[j] == ']' && open.last() == '[') || (s[j] == '}' && open.last() == '{') {
                    lemma_skip_json(s, Expect::After, j + 1, open.drop_last());
                }
            },
        }
    }
}

pub proof fn lemma_skip_ws(s: Seq<char>, i: int)
    requires
        0 <= i <= s.len(),
    ensures
        i <= skip_ws(s, i) <= s.len(),
        skip_ws(s, i) < s.len() ==> !is_json_ws(s[skip_ws(s, i)]),
    decreases s.len() - i,
{
    if i < s.len() && is_json_ws(s[i]) {
        lemma_skip_ws(s, i + 1);
    }
}

pub proof fn lemma_skip_digits(s: Seq<char>, i: int)
    requires
        0 <= i <= s.len(),
    ensures
        i <= skip_digits(s, i) <= s.len(),
        skip_digits(s, i) < s.len() ==> !is_digit(s[skip_digits(s, i)]),
    decreases s.len() - i,
{
    if i < s.len() && is_digit(s[i]) {
        lemma_skip_digits(s, i + 1);
    }
}

pub proof fn lemma_skip_string(s: Seq<char>, i: int)
    ensures
        skip_string(s, i) matches Some(e) ==> i < e <= s.len(),
    decreases s.len() - i,
{
    if 0 <= i < s.len() && s[i] != '"' {
        if s[i] == '\\' {
            if i + 1 < s.len() && simple_escape(s[i + 1]) is Some {
                lemma_skip_string(s, i + 2);
            } else if i + 1 < s.len() && s[i + 1] == 'u' && hex4(s, i + 2) is Some {
                lemma_skip_string(s, i + 6);
            }
        } else {
            lemma_skip_string(s, i + 1);
        }
    }
}

pub proof fn lemma_string_value(s: Seq<char>, i: int)
    ensures
        string_value(s, i) matches Some((r, e)) ==> i < e <= s.len(),
    decreases s.len() - i,
{
    if 0 <= i < s.len() && s[i] != '"' {
        if s[i] == '\\' {
            if let Some((c, n)) = escape_value(s, i) {
                lemma_string_value(s, i + n);
            }
        } else {
            lemma_string_value(s, i + 1);
        }
    }
}

pub proof fn lemma_scalar_end(s: Seq<char>, j: int)
    ensures
        scalar_end(s, j) matches Some(e) ==> j < e <= s.len(),
{
    if 0 <= j < s.len() {
        if s[j] == '"' {
            lemma_skip_string(s, j + 1);
        } else if s[j] == '-' || is_digit(s[j]) {
            let p = if s[j] == '-' {
                j + 1
            } else {
                j
            };
            if 0 <= p < s.len() && is_digit(s[p]) {
                lemma_skip_digits(s, p + 1);
                let q = if s[p] == '0' {
                    p + 1
                } else {
                    skip_digits(s, p + 1)
                };
                if q < s.len() {
                    lemma_skip_digits(s, q + 1);
                }
                let r = if q < s.len() && s[q] == '.' {
                    skip_digits(s, q + 1)
                } else {
                    q
                };
                if r + 2 <= s.len() {
                    lemma_skip_digits(s, r + 2);
                }
                if r + 3 <= s.len() {
                    lemma_skip_digits(s, r + 3);
                }
            }
        }
    }
}


/// `char::from_u32`: the character whose scalar value is `n`, when `n` is
/// one (not a surrogate, at most `0x10FFFF`).
#[verifier::external_body]
fn char_from_scalar(n: u32) -> (r: Option<char>)
    ensures
        r == (if n < 0xD800 || (0xE000 <= n && n <= 0x10FFFF) {
            Some(n as char)
        } else {
            None
        }),
{
    char::from_u32(n)
}

/// `skip_ws`.
pub fn skip_ws_at(v: &Vec<char>, i: usize) -> (r: usize)
    requires
        i <= v.len(),
    ensures
        r == skip_ws(v@, i as int),
{
    let mut k = i;
    while k < v.len() && (v[k] == ' ' || v[k] == '\t' || v[k] == '\n' || v[k] == '\r')
        invariant
            i <= k <= v.len(),
            skip_ws(v@, k as int) == skip_ws(v@, i as int),
        decreases v.len() - k,
    {
        k += 1;
    }
    k
}

/// `skip_digits`.
fn skip_digits_at(v: &Vec<char>, i: usize) -> (r: usize)
    requires
        i <= v.len(),
    ensures
        r == skip_digits(v@, i as int),
{
    let mut k = i;
    while k < v.len() && 48 <= (v[k] as u32) && (v[k] as u32) <= 57
        invariant
            i <= k <= v.len(),
            skip_digits(v@, k as int) == skip_digits(v@, i as int),
        decreases v.len() - k,
    {
        k += 1;
    }
    k
}

fn hex_digit_at(c: char) -> (r: Option<u32>)
    ensures
        match r {
            Some(x) => hex_digit_value(c) == Some(x as int) && x < 16,
            None => hex_digit_value(c) is None,
        },
{
    let u = c as u32;
    if 48 <= u && u <= 57 {
        Some(u - 48)
    } else if 97 <= u && u <= 102 {
        Some(u - 87)
    } else if 65 <= u && u <= 70 {
        Some(u - 55)
    } else {
        None
    }
}

/// `hex4`.
fn hex4_at(v: &Vec<char>, i: usize) -> (r: Option<u32>)
    requires
        i <= v.len(),
    ensures
        match r {
            Some(x) => hex4(v@, i as int) == Some(x as int) && x <= 0xFFFF,
            None => hex4(v@, i as int) is None,
        },
{
    if v.len() - i < 4 {
        return None;
    }
    match (hex_digit_at(v[i]), hex_digit_at(v[i + 1]), hex_digit_at(v[i + 2]), hex_digit_at(v[i + 3])) {
        (Some(a), Some(b), Some(c), Some(d)) => Some(a * 4096 + b * 256 + c * 16 + d),
        _ => None,
    }
}

fn simple_escape_at(e: char) -> (r: Option<char>)
    ensures
        r == simple_escape(e),
{
    if e == '"' {
        Some('"')
    } else if e == '\\' {
        Some('\\')
    } else if e == '/' {
        Some('/')
    } else if e == 'b' {
        Some('\u{8}')
    } else if e == 'f' {
        Some('\u{c}')
    } else if e == 'n' {
        Some('\n')
    } else if e == 'r' {
        Some('\r')
    } else if e == 't' {
        Some('\t')
    } else {
        None
    }
}

/// `escape_value`.
fn escape_value_at(v: &Vec<char>, i: usize) -> (r: Option<(char, usize)>)
    requires
        i < v.len(),
    ensures
        match r {
            Some((c, n)) => escape_value(v@, i as int) == Some((c, n as int)) && 2 <= n <= 12,
            None => escape_value(v@, i as int) is None,
        },
{
    if i + 1 >= v.len() {
        return None;
    }
    if let Some(c) = simple_escape_at(v[i + 1]) {
        return Some((c, 2));
    }
    if v[i + 1] != 'u' {
        return None;
    }
    let n = match hex4_at(v, i + 2) {
        Some(n) => n,
        None => return None,
    };
    if 0xDC00 <= n && n <= 0xDFFF {
        return None;
    }
    if 0xD800 <= n && n <= 0xDBFF {
        if v.len() - i > 7 && v[i + 6] == '\\' && v[i + 7] == 'u' {
            match hex4_at(v, i + 8) {
                Some(m) => if 0xDC00 <= m && m <= 0xDFFF {
                    let x = (n - 0xD800) * 1024 + (m - 0xDC00) + 0x10000;
                    match char_from_scalar(x) {
                        Some(c) => Some((c, 12)),
                        None => None,
                    }
                } else {
                    None
                },
                None => None,
            }
        } else {
            None
        }
    } else {
        match char_from_scalar(n) {
            Some(c) => Some((c, 6)),
            None => None,
        }
    }
}

/// `string_value`.
pub fn string_value_at(v: &Vec<char>, start: usize) -> (r: Option<(Vec<char>, usize)>)
    requires
        start <= v.len(),
    ensures
        match r {
            Some((out, j)) => string_value(v@, start as int) == Some((out@, j as int)),
            None => string_value(v@, start as int) is None,
        },
{
    let mut out: Vec<char> = Vec::new();
    let mut i = start;
    loop
        invariant
            start <= i <= v.len(),
            string_value(v@, start as int) == match string_value(v@, i as int) {
                Some((r, j)) => Some((out@ + r, j)),
                None => None,
            },
        decreases v.len() - i,
    {
        if i >= v.len() {
            return None;
        }
        let c = v[i];
        if c == '"' {
            proof {
                assert(out@ + Seq::<char>::empty() =~= out@);
            }
            return Some((out, i + 1));
        } else if c == '\\' {
            match escape_value_at(v, i) {
                Some((d, n)) => {
                    proof {
                        let inner = string_value(v@, i + n);
                        if inner is Some {
                            let (r, j) = inner->Some_0;
                            assert(out@.push(d) + r =~= out@ + (seq![d] + r));
                        }
                    }
                    if n > v.len() - i {
                        return None;
                    }
                    out.push(d);
                    i = i + n;
                },
                None => {
                    return None;
                },
            }
        } else if (c as u32) < 0x20 {
            return None;
        } else {
            proof {
                let inner = string_value(v@, i + 1);
                if inner is Some {
                    let (r, j) = inner->Some_0;
                    assert(out@.push(c) + r =~= out@ + (seq![c] + r));
                }
            }
            out.push(c);
            i = i + 1;
        }
    }
}

/// `skip_string`.
fn skip_string_at(v: &Vec<char>, start: usize) -> (r: Option<usize>)
    requires
        start <= v.len(),
    ensures
        match r {
            Some(j) => skip_string(v@, start as int) == Some(j as int),
            None => skip_string(v@, start as int) is None,
        },
{
    let mut i = start;
    loop
        invariant
            start <= i <= v.len(),
            skip_string(v@, start as int) == skip_string(v@, i as int),
        decreases v.len() - i,
    {
        if i >= v.len() {
            return None;
        }
        let c = v[i];
        if c == '"' {
            return Some(i + 1);
        } else if c == '\\' {
            if i + 1 < v.len() && simple_escape_at(v[i + 1]).is_some() {
                if i + 2 > v.len() {
                    return None;
                }
                i = i + 2;
            } else if i + 1 < v.len() && v[i + 1] == 'u' && hex4_at(v, i + 2).is_some() {
                i = i + 6;
            } else {
                return None;
            }
        } else if (c as u32) < 0x20 {
            return None;
        } else {
            i = i + 1;
        }
    }
}

/// `skip_number`.
fn skip_number_at(v: &Vec<char>, i: usize) -> (r: Option<usize>)
    requires
        i <= v.len(),
    ensures
        match r {
            Some(j) => skip_number(v@, i as int) == Some(j as int),
            None => skip_number(v@, i as int) is None,
        },
{
    let p = if i < v.len() && v[i] == '-' {
        i + 1
    } else {
        i
    };
    if !(p < v.len() && 48 <= (v[p] as u32) && (v[p] as u32) <= 57) {
        return None;
    }
    let q = if v[p] == '0' {
        p + 1
    } else {
        skip_digits_at(v, p + 1)
    };
    proof {
        lemma_skip_digits(v@, p + 1);
    }
    if v[p] == '0' && q < v.len() && 48 <= (v[q] as u32) && (v[q] as u32) <= 57 {
        return None;
    }
    let frac = q < v.len() && v[q] == '.';
    let r = if frac {
        skip_digits_at(v, q + 1)
    } else {
        q
    };
    proof {
        if frac {
            lemma_skip_digits(v@, q + 1);
        }
    }
    if frac && r == q + 1 {
        None
    } else if r < v.len() && (v[r] == 'e' || v[r] == 'E') {
        let t = if r + 1 < v.len() && (v[r + 1] == '+' || v[r + 1] == '-') {
            r + 2
        } else {
            r + 1
        };
        if t < v.len() && 48 <= (v[t] as u32) && (v[t] as u32) <= 57 {
            Some(skip_digits_at(v, t + 1))
        } else {
            None
        }
    } else {
        Some(r)
    }
}

/// `scalar_end`.
fn scalar_end_at(v: &Vec<char>, j: usize) -> (r: Option<usize>)
    requires
        j <= v.len(),
    ensures
        match r {
            Some(e) => scalar_end(v@, j as int) == Some(e as int),
            None => scalar_end(v@, j as int) is None,
        },
{
    if j >= v.len() {
        return None;
    }
    let c = v[j];
    let rest = v.len() - j;
    if c == '"' {
        skip_string_at(v, j + 1)
    } else if c == 'n' {
        if rest >= 4 && v[j + 1] == 'u' && v[j + 2] == 'l' && v[j + 3] == 'l' {
            Some(j + 4)
        } else {
            None
        }
    } else if c == 't' {
        if rest >= 4 && v[j + 1] == 'r' && v[j + 2] == 'u' && v[j + 3] == 'e' {
            Some(j + 4)
        } else {
            None
        }
    } else if c == 'f' {
        if rest >= 5 && v[j + 1] == 'a' && v[j + 2] == 'l' && v[j + 3] == 's' && v[j + 4] == 'e' {
            Some(j + 5)
        } else {
            None
        }
    } else if c == '-' || (48 <= (c as u32) && (c as u32) <= 57) {
        skip_number_at(v, j)
    } else {
        None
    }
}

/// `skip_value`: skips one whole value, with the containers it opens kept
/// on a stack rather than in nested calls.
pub fn skip_value_at(v: &Vec<char>, start: usize) -> (r: Option<usize>)
    requires
        start <= v.len(),
    ensures
        match r {
            Some(j) => skip_value(v@, start as int) == Some(j as int),
            None => skip_value(v@, start as int) is None,
        },
{
    let mut e = Expect::Value;
    let mut i = start;
    let mut open: Vec<char> = Vec::new();
    loop
        invariant
            i <= v.len(),
            skip_value(v@, start as int) == skip_json(v@, e, i as int, open@),
        decreases v.len() - i,
    {
        let j = skip_ws_at(v, i);
        proof {
            lemma_skip_ws(v@, i as int);
        }
        match e {
            Expect::Value => {
                if j >= v.len() {
                    return None;
                }
                if v[j] == '[' || v[j] == '{' {
                    let k = skip_ws_at(v, j + 1);
                    proof {
                        lemma_skip_ws(v@, j + 1);
                    }
                    if k < v.len() && ((v[j] == '[' && v[k] == ']') || (v[j] == '{' && v[k] == '}')) {
                        e = Expect::After;
                        i = k + 1;
                    } else if v[j] == '[' {
                        open.push('[');
                        i = j + 1;
                    } else {
                        open.push('{');
                        e = Expect::Member;
                        i = j + 1;
                    }
                } else {
                    match scalar_end_at(v, j) {
                        Some(end) => {
                            proof {
                                lemma_scalar_end(v@, j as int);
                            }
                            e = Expect::After;
                            i = end;
                        },
                        None => {
                            return None;
                        },
                    }
                }
            },
            Expect::Member => {
                if !(j < v.len() && v[j] == '"') {
                    return None;
                }
                match skip_string_at(v, j + 1) {
                    Some(end) => {
                        proof {
                            lemma_skip_string(v@, j + 1);
                        }
                        let k = skip_ws_at(v, end);
                        proof {
                            lemma_skip_ws(v@, end as int);
                        }
                        if k < v.len() && v[k] == ':' {
                            e = Expect::Value;
                            i = k + 1;
                        } else {
                            return None;
                        }
                    },
                    None => {
                        return None;
                    },
                }
            },
            Expect::After => {
                if open.len() == 0 {
                    return Some(i);
                }
                if j >= v.len() {
                    return None;
                }
                let top = open[open.len() - 1];
                proof {
                    assert(open@.last() == top);
                }
                if v[j] == ',' {
                    if top == '[' {
                        e = Expect::Value;
                    } else {
                        e = Expect::Member;
                    }
                    i = j + 1;
                } else if (v[j] == ']' && top == '[') || (v[j] == '}' && top == '{') {
                    let ghost before = open@;
                    open.pop();
                    proof {
                        assert(open@ =~= before.drop_last());
                    }
                    i = j + 1;
                } else {
                    return None;
                }
            },
        }
    }
}

} // verus!
