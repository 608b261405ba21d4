//! Character-level text utilities shared by the other modules.
//!
//! Strings are modelled by their `Seq<char>` view; the helpers here move
//! between `&str`, `Vec<char>` and `String` and implement the handful of
//! `str` operations (trimming, prefix tests, decimal numbers) that the rest
//! of the library needs, each with an exact contract.

use vstd::prelude::*;

verus! {

// ---------------------------------------------------------------------------
// Whitespace
// ---------------------------------------------------------------------------

/// Unicode `White_Space`, the property behind `char::is_whitespace`.
pub open spec fn is_ws(c: char) -> bool {
    let u = c as u32;
    ||| (0x09 <= u && u <= 0x0d)
    ||| u == 0x20
    ||| u == 0x85
    ||| u == 0xa0
    ||| u == 0x1680
    ||| (0x2000 <= u && u <= 0x200a)
    ||| u == 0x2028
    ||| u == 0x2029
    ||| u == 0x202f
    ||| u == 0x205f
    ||| u == 0x3000
}

pub fn is_whitespace(c: char) -> (b: bool)
    ensures
        b == is_ws(c),
{
    let u = c as u32;
    (0x09 <= u && u <= 0x0d) || u == 0x20 || u == 0x85 || u == 0xa0 || u == 0x1680 || (0x2000
        <= u && u <= 0x200a) || u == 0x2028 || u == 0x2029 || u == 0x202f || u == 0x205f || u
        == 0x3000
}

/// `str::trim_start`: drop leading whitespace.
pub open spec fn trim_start_seq(s: Seq<char>) -> Seq<char>
    decreases s.len(),
{
    if s.len() > 0 && is_ws(s[0]) {
        trim_start_seq(s.drop_first())
    } else {
        s
    }
}

/// `str::trim_end`: drop trailing whitespace.
pub open spec fn trim_end_seq(s: Seq<char>) -> Seq<char>
    decreases s.len(),
{
    if s.len() > 0 && is_ws(s.last()) {
        trim_end_seq(s.drop_last())
    } else {
        s
    }
}

/// `str::trim`.
pub open spec fn trim_seq(s: Seq<char>) -> Seq<char> {
    trim_end_seq(trim_start_seq(s))
}

/// UTF-8 encoding distributes over concatenation.
pub proof fn lemma_encode_utf8_concat(a: Seq<char>, b: Seq<char>)
    ensures
        vstd::utf8::encode_utf8(a + b) == vstd::utf8::encode_utf8(a) + vstd::utf8::encode_utf8(b),
    decreases a.len(),
{
    if a.len() > 0 {
        assert((a + b).drop_first() =~= a.drop_first() + b);
        assert((a + b)[0] == a[0]);
        lemma_encode_utf8_concat(a.drop_first(), b);
        assert(vstd::utf8::encode_utf8(a + b) =~= vstd::utf8::encode_utf8(a) + vstd::utf8::encode_utf8(b));
    } else {
        assert(a + b =~= b);
        assert(vstd::utf8::encode_utf8(a) =~= Seq::<u8>::empty());
        assert(vstd::utf8::encode_utf8(a) + vstd::utf8::encode_utf8(b) =~= vstd::utf8::encode_utf8(b));
    }
}

/// UTF-8 encoding is one-to-one.
pub proof fn lemma_utf8_injective(a: Seq<char>, b: Seq<char>)
    ensures
        (vstd::utf8::encode_utf8(a) == vstd::utf8::encode_utf8(b)) == (a == b),
{
    vstd::utf8::encode_utf8_decode_utf8(a);
    vstd::utf8::encode_utf8_decode_utf8(b);
}

/// The view of an optional owned string.
pub open spec fn opt_string_view(o: Option<String>) -> Option<Seq<char>> {
    match o {
        Some(s) => Some(s@),
        None => None,
    }
}

/// The view of an optional string slice.
pub open spec fn opt_view(o: Option<&str>) -> Option<Seq<char>> {
    match o {
        Some(s) => Some(s@),
        None => None,
    }
}

// ---------------------------------------------------------------------------
// Conversions between &str, Vec<char> and String
// ---------------------------------------------------------------------------

/// The characters of `s`, in order.
pub fn chars_of(s: &str) -> (v: Vec<char>)
    ensures
        v@ == s@,
{
    let mut v: Vec<char> = Vec::new();
    for c in it: s.chars()
        invariant
            v@ == it.seq().take(it.index() as int),
            it.seq() == s@,
    {
        v.push(c);
    }
    v
}

/// Appends one character (`String::push`).
#[verifier::external_body]
pub(crate) fn push_char(s: &mut String, c: char)
    ensures
        final(s)@ == old(s)@.push(c),
{
    s.push(c);
}

/// Appends a string slice (`String::push_str`).
#[verifier::external_body]
pub(crate) fn push_str(s: &mut String, t: &str)
    ensures
        final(s)@ == old(s)@ + t@,
{
    s.push_str(t);
}

/// Appends a sequence of characters.
pub fn push_chars(s: &mut String, v: &Vec<char>)
    ensures
        final(s)@ == old(s)@ + v@,
{
    let mut i: usize = 0;
    while i < v.len()
        invariant
            i <= v.len(),
            s@ == old(s)@ + v@.take(i as int),
        decreases v.len() - i,
    {
        push_char(s, v[i]);
        i += 1;
        assert(v@.take(i as int) == v@.take(i - 1).push(v@[i - 1]));
    }
    assert(v@.take(v.len() as int) == v@);
}

/// A `String` holding exactly the characters of `v`.
pub fn string_of(v: &Vec<char>) -> (s: String)
    ensures
        s@ == v@,
{
    let mut s = String::new();
    push_chars(&mut s, v);
    s
}

/// An owned copy of a string slice.
pub fn owned(s: &str) -> (r: String)
    ensures
        r@ == s@,
{
    s.to_owned()
}

/// The characters `v[lo..hi]`.
pub fn sub_chars(v: &Vec<char>, lo: usize, hi: usize) -> (r: Vec<char>)
    requires
        lo <= hi <= v.len(),
    ensures
        r@ == v@.subrange(lo as int, hi as int),
{
    let mut r: Vec<char> = Vec::new();
    let mut i = lo;
    while i < hi
        invariant
            lo <= i <= hi <= v.len(),
            r@ == v@.subrange(lo as int, i as int),
        decreases hi - i,
    {
        r.push(v[i]);
        i += 1;
    }
    r
}

/// Character-wise equality of two sequences.
pub fn chars_eq(a: &Vec<char>, b: &Vec<char>) -> (r: bool)
    ensures
        r == (a@ == b@),
{
    if a.len() != b.len() {
        return false;
    }
    let mut i: usize = 0;
    while i < a.len()
        invariant
            i <= a.len() == b.len(),
            forall|j: int| 0 <= j < i ==> a@[j] == b@[j],
        decreases a.len() - i,
    {
        if a[i] != b[i] {
            return false;
        }
        i += 1;
    }
    assert(a@ =~= b@);
    true
}

/// Equality of two string slices by their characters.
pub fn str_eq(a: &str, b: &str) -> (r: bool)
    ensures
        r == (a@ == b@),
{
    let va = chars_of(a);
    let vb = chars_of(b);
    chars_eq(&va, &vb)
}

/// Does `v` start with `p`?
pub fn starts_with_chars(v: &Vec<char>, p: &Vec<char>) -> (r: bool)
    ensures
        r == (p@.len() <= v@.len() && v@.take(p@.len() as int) == p@),
{
    if p.len() > v.len() {
        return false;
    }
    let mut i: usize = 0;
    while i < p.len()
        invariant
            i <= p.len() <= v.len(),
            forall|j: int| 0 <= j < i ==> v@[j] == p@[j],
        decreases p.len() - i,
    {
        if v[i] != p[i] {
            assert(v@.take(p@.len() as int)[i as int] != p@[i as int]);
            return false;
        }
        i += 1;
    }
    assert(v@.take(p@.len() as int) =~= p@);
    true
}

// ---------------------------------------------------------------------------
// Trimming
// ---------------------------------------------------------------------------

proof fn lemma_trim_start_step(s: Seq<char>, i: int)
    requires
        0 <= i < s.len(),
        is_ws(s[i]),
    ensures
        trim_start_seq(s.skip(i)) == trim_start_seq(s.skip(i + 1)),
{
    assert(s.skip(i).drop_first() =~= s.skip(i + 1));
}

proof fn lemma_trim_end_step(s: Seq<char>, j: int)
    requires
        0 < j <= s.len(),
        is_ws(s[j - 1]),
    ensures
        trim_end_seq(s.take(j)) == trim_end_seq(s.take(j - 1)),
{
    assert(s.take(j).drop_last() =~= s.take(j - 1));
}

/// The bounds of `str::trim` applied to `v[lo..hi]`: the trimmed text is
/// `v[a..b]`.
pub fn trim_bounds(v: &Vec<char>, lo: usize, hi: usize) -> (r: (usize, usize))
    requires
        lo <= hi <= v.len(),
    ensures
        lo <= r.0 <= r.1 <= hi,
        v@.subrange(r.0 as int, r.1 as int) == trim_seq(v@.subrange(lo as int, hi as int)),
{
    let ghost w = v@.subrange(lo as int, hi as int);
    let mut i: usize = lo;
    assert(w.skip(0) =~= w);
    while i < hi && is_whitespace(v[i])
        invariant
            lo <= i <= hi <= v.len(),
            w == v@.subrange(lo as int, hi as int),
            trim_start_seq(w) == trim_start_seq(w.skip(i - lo)),
        decreases hi - i,
    {
        proof {
            assert(w[i - lo] == v@[i as int]);
            lemma_trim_start_step(w, i - lo);
        }
        i += 1;
    }
    let ghost start = w.skip(i - lo);
    assert(trim_start_seq(w) == start) by {
        if i < hi {
            assert(start[0] == v@[i as int]);
        }
    }
    let mut j: usize = hi;
    assert(start.take((j - i) as int) =~= start);
    while j > i && is_whitespace(v[j - 1])
        invariant
            lo <= i <= j <= hi <= v.len(),
            w == v@.subrange(lo as int, hi as int),
            start == w.skip(i - lo),
            trim_end_seq(start) == trim_end_seq(start.take((j - i) as int)),
        decreases j,
    {
        proof {
            assert(start[j - 1 - i] == v@[j - 1]);
            lemma_trim_end_step(start, (j - i) as int);
        }
        j -= 1;
    }
    assert(start.take((j - i) as int) =~= v@.subrange(i as int, j as int));
    assert(trim_end_seq(start.take((j - i) as int)) == start.take((j - i) as int)) by {
        if j > i {
            assert(start.take((j - i) as int).last() == v@[j - 1]);
        }
    }
    (i, j)
}

/// `str::trim` on a character vector.
pub fn trim_chars(v: &Vec<char>) -> (r: Vec<char>)
    ensures
        r@ == trim_seq(v@),
{
    let (a, b) = trim_bounds(v, 0, v.len());
    assert(v@.subrange(0, v@.len() as int) =~= v@);
    sub_chars(v, a, b)
}

/// `str::trim`, producing the trimmed characters.
pub fn trim_str(s: &str) -> (r: Vec<char>)
    ensures
        r@ == trim_seq(s@),
{
    let v = chars_of(s);
    trim_chars(&v)
}


// ---------------------------------------------------------------------------
// Searching
// ---------------------------------------------------------------------------

/// The first index `k >= i` with `s[k] == c`, or -1 when there is none.
pub open spec fn index_of_from(s: Seq<char>, c: char, i: int) -> int
    decreases s.len() - i,
{
    if i < 0 || i >= s.len() {
        -1
    } else if s[i] == c {
        i
    } else {
        index_of_from(s, c, i + 1)
    }
}

pub proof fn lemma_index_of_from(s: Seq<char>, c: char, i: int)
    requires
        0 <= i,
    ensures
        index_of_from(s, c, i) == -1 || (i <= index_of_from(s, c, i) < s.len() && s[index_of_from(
            s,
            c,
            i,
        )] == c),
        forall|j: int|
            i <= j < s.len() && (index_of_from(s, c, i) == -1 || j < index_of_from(s, c, i))
                ==> #[trigger] s[j] != c,
    decreases s.len() - i,
{
    if i < s.len() && s[i] != c {
        lemma_index_of_from(s, c, i + 1);
    }
}

/// Finds `c` in `v` at or after `from`.
pub fn find_char_from(v: &Vec<char>, c: char, from: usize) -> (r: Option<usize>)
    requires
        from <= v.len(),
    ensures
        match r {
            Some(k) => index_of_from(v@, c, from as int) == k as int,
            None => index_of_from(v@, c, from as int) == -1,
        },
{
    let mut i = from;
    while i < v.len()
        invariant
            from <= i <= v.len(),
            index_of_from(v@, c, from as int) == index_of_from(v@, c, i as int),
        decreases v.len() - i,
    {
        if v[i] == c {
            return Some(i);
        }
        i += 1;
    }
    None
}

// ---------------------------------------------------------------------------
// Cookie headers
// ---------------------------------------------------------------------------

/// The value of the first `;`-separated pair of a `Cookie` header that,
/// once trimmed, starts with `prefix` (such as `name=`): what follows the
/// prefix.
pub open spec fn cookie_value_for(h: Seq<char>, prefix: Seq<char>) -> Option<Seq<char>>
    decreases h.len(),
{
    let i = index_of_from(h, ';', 0);
    let seg = if i >= 0 {
        h.take(i)
    } else {
        h
    };
    let t = trim_seq(seg);
    if prefix.len() <= t.len() && t.take(prefix.len() as int) == prefix {
        Some(t.skip(prefix.len() as int))
    } else if i >= 0 {
        proof {
            lemma_index_of_from(h, ';', 0);
        }
        cookie_value_for(h.skip(i + 1), prefix)
    } else {
        None
    }
}

proof fn lemma_index_of_skip(s: Seq<char>, c: char, pos: int, i: int)
    requires
        0 <= pos <= s.len(),
        0 <= i,
    ensures
        index_of_from(s.skip(pos), c, i) == (if index_of_from(s, c, pos + i) == -1 {
            -1
        } else {
            index_of_from(s, c, pos + i) - pos
        }),
    decreases s.len() - pos - i,
{
    if pos + i < s.len() && s[pos + i] != c {
        lemma_index_of_skip(s, c, pos, i + 1);
    }
}

/// Does `p` occur in `v` at position `at`?
pub fn matches_at(v: &Vec<char>, at: usize, p: &Vec<char>) -> (r: bool)
    requires
        at <= v.len(),
    ensures
        r == (p@.len() <= v@.len() - at && v@.subrange(at as int, at + p@.len()) == p@),
{
    if p.len() > v.len() - at {
        return false;
    }
    let mut j: usize = 0;
    while j < p.len()
        invariant
            j <= p.len() <= v.len() - at,
            forall|k: int| 0 <= k < j ==> v@[at + k] == p@[k],
        decreases p.len() - j,
    {
        if v[at + j] != p[j] {
            assert(v@.subrange(at as int, at + p@.len())[j as int] != p@[j as int]);
            return false;
        }
        j += 1;
    }
    assert(v@.subrange(at as int, at + p@.len()) =~= p@);
    true
}

/// The first index `k >= i` where `p` occurs in `s`, or -1 when there is
/// none.
pub open spec fn index_of_sub(s: Seq<char>, p: Seq<char>, i: int) -> int
    decreases s.len() - i,
{
    if i < 0 || i + p.len() > s.len() {
        -1
    } else if p.len() == 0 || s.subrange(i, i + p.len()) == p {
        i
    } else {
        index_of_sub(s, p, i + 1)
    }
}

pub proof fn lemma_index_of_sub(s: Seq<char>, p: Seq<char>, i: int)
    requires
        0 <= i,
    ensures
        index_of_sub(s, p, i) == -1 || (i <= index_of_sub(s, p, i) && index_of_sub(s, p, i)
            + p.len() <= s.len()),
    decreases s.len() - i,
{
    if i + p.len() <= s.len() && p.len() > 0 && s.subrange(i, i + p.len()) != p {
        lemma_index_of_sub(s, p, i + 1);
    }
}

/// Finds `p` in `v` at or after `from`.
pub fn find_sub_from(v: &Vec<char>, p: &Vec<char>, from: usize) -> (r: Option<usize>)
    requires
        from <= v.len(),
    ensures
        match r {
            Some(k) => index_of_sub(v@, p@, from as int) == k as int,
            None => index_of_sub(v@, p@, from as int) == -1,
        },
{
    let mut i = from;
    while i < v.len() && p.len() <= v.len() - i
        invariant
            from <= i <= v.len(),
            index_of_sub(v@, p@, from as int) == index_of_sub(v@, p@, i as int),
        decreases v.len() - i,
    {
        if matches_at(v, i, p) {
            return Some(i);
        }
        if p.len() == 0 {
            assert(v@.subrange(i as int, i as int) =~= p@);
        }
        i += 1;
    }
    if i == v.len() && p.len() == 0 {
        return Some(i);
    }
    None
}

/// Where the value `cookie_value_for(h, prefix)` lies in `h`: the value is
/// `h[a..b]`.
pub fn find_cookie_span(h: &Vec<char>, prefix: &Vec<char>) -> (r: Option<(usize, usize)>)
    ensures
        match r {
            Some((a, b)) => a <= b <= h@.len() && cookie_value_for(h@, prefix@) == Some(
                h@.subrange(a as int, b as int),
            ),
            None => cookie_value_for(h@, prefix@) is None,
        },
{
    let mut pos: usize = 0;
    assert(h@.skip(0) =~= h@);
    loop
        invariant
            pos <= h.len(),
            cookie_value_for(h@, prefix@) == cookie_value_for(h@.skip(pos as int), prefix@),
        decreases h.len() - pos,
    {
        let ghost cur = h@.skip(pos as int);
        let k = find_char_from(h, ';', pos);
        proof {
            lemma_index_of_skip(h@, ';', pos as int, 0);
            lemma_index_of_from(h@, ';', pos as int);
        }
        let end = match k {
            Some(k) => k,
            None => h.len(),
        };
        proof {
            let i = index_of_from(cur, ';', 0);
            if i >= 0 {
                assert(cur.take(i) =~= h@.subrange(pos as int, end as int));
            } else {
                assert(cur =~= h@.subrange(pos as int, end as int));
            }
        }
        let (a, b) = trim_bounds(h, pos, end);
        let ghost t = h@.subrange(a as int, b as int);
        if matches_at(h, a, prefix) && prefix.len() <= b - a {
            proof {
                assert(t.take(prefix@.len() as int) =~= h@.subrange(a as int, a + prefix@.len()));
                assert(t.skip(prefix@.len() as int) =~= h@.subrange(a + prefix@.len(), b as int));
            }
            return Some((a + prefix.len(), b));
        }
        proof {
            if prefix@.len() <= t.len() && t.take(prefix@.len() as int) == prefix@ {
                assert(t.take(prefix@.len() as int) =~= h@.subrange(a as int, a + prefix@.len()));
            }
        }
        match k {
            Some(k) => {
                proof {
                    assert(cur.skip(k - pos + 1) =~= h@.skip(k + 1));
                }
                pos = k + 1;
            },
            None => {
                return None;
            },
        }
    }
}

/// Looks up the pair starting with `prefix` in a `Cookie` header.
pub fn find_cookie_value(header: &str, prefix: &Vec<char>) -> (r: Option<Vec<char>>)
    ensures
        match r {
            Some(v) => cookie_value_for(header@, prefix@) == Some(v@),
            None => cookie_value_for(header@, prefix@) is None,
        },
{
    let mut cur = chars_of(header);
    loop
        invariant
            cookie_value_for(header@, prefix@) == cookie_value_for(cur@, prefix@),
        decreases cur@.len(),
    {
        let i = find_char_from(&cur, ';', 0);
        proof {
            lemma_index_of_from(cur@, ';', 0);
        }
        let seg = match i {
            Some(k) => sub_chars(&cur, 0, k),
            None => sub_chars(&cur, 0, cur.len()),
        };
        proof {
            if i is None {
                assert(cur@.subrange(0, cur@.len() as int) =~= cur@);
            }
        }
        let t = trim_chars(&seg);
        if starts_with_chars(&t, prefix) {
            return Some(sub_chars(&t, prefix.len(), t.len()));
        }
        match i {
            Some(k) => {
                let next = sub_chars(&cur, k + 1, cur.len());
                assert(next@ =~= cur@.skip(k + 1));
                cur = next;
            },
            None => {
                return None;
            },
        }
    }
}

// ---------------------------------------------------------------------------
// ASCII case
// ---------------------------------------------------------------------------

/// `char::to_ascii_lowercase`.
pub open spec fn ascii_lower(c: char) -> char {
    if 'A' <= c && c <= 'Z' {
        ((c as u32) + 32) as char
    } else {
        c
    }
}

/// `str::to_ascii_lowercase`.
pub open spec fn lower_seq(s: Seq<char>) -> Seq<char> {
    s.map_values(|c: char| ascii_lower(c))
}

pub fn lower_ascii(c: char) -> (r: char)
    ensures
        r == ascii_lower(c),
{
    if 'A' <= c && c <= 'Z' {
        ((c as u8) + 32) as char
    } else {
        c
    }
}

/// ASCII lower case of every character.
pub fn lower_chars(v: &Vec<char>) -> (r: Vec<char>)
    ensures
        r@ == lower_seq(v@),
{
    let mut w: Vec<char> = Vec::new();
    let mut i: usize = 0;
    while i < v.len()
        invariant
            i <= v.len(),
            w@ == lower_seq(v@.take(i as int)),
        decreases v.len() - i,
    {
        w.push(lower_ascii(v[i]));
        i += 1;
        assert(w@ =~= lower_seq(v@.take(i as int)));
    }
    assert(v@.take(v.len() as int) =~= v@);
    w
}

// ---------------------------------------------------------------------------
// Decimal numbers
// ---------------------------------------------------------------------------

/// The ASCII digit for `d < 10`.
pub open spec fn digit_char(d: nat) -> char {
    ((d + 48) as u8) as char
}

/// Decimal representation of `n`, as `Display` for unsigned integers prints it.
pub open spec fn dec_seq(n: nat) -> Seq<char>
    decreases n,
{
    if n < 10 {
        seq![digit_char(n)]
    } else {
        dec_seq(n / 10).push(digit_char(n % 10))
    }
}

/// Decimal representation of a signed integer (`-` sign for negatives).
pub open spec fn int_dec_seq(i: int) -> Seq<char> {
    if i < 0 {
        seq!['-'] + dec_seq((-i) as nat)
    } else {
        dec_seq(i as nat)
    }
}

/// Is `c` an ASCII decimal digit?
pub open spec fn is_digit(c: char) -> bool {
    '0' <= c && c <= '9'
}

/// The value of a decimal digit.
pub open spec fn digit_value(c: char) -> nat {
    (c as u32 - 48) as nat
}

/// The number that the (all-digit) sequence `d` denotes.
pub open spec fn digits_value(d: Seq<char>) -> nat
    decreases d.len(),
{
    if d.len() == 0 {
        0
    } else {
        digits_value(d.drop_last()) * 10 + digit_value(d.last())
    }
}

pub open spec fn all_digits(d: Seq<char>) -> bool {
    forall|k: int| 0 <= k < d.len() ==> is_digit(#[trigger] d[k])
}

/// `<u64 as FromStr>::from_str`: an optional `+`, then one or more ASCII
/// digits whose value fits in `u64`.
pub open spec fn parse_u64_seq(s: Seq<char>) -> Option<u64> {
    let d = if s.len() > 0 && s[0] == '+' {
        s.drop_first()
    } else {
        s
    };
    if d.len() > 0 && all_digits(d) && digits_value(d) <= u64::MAX {
        Some(digits_value(d) as u64)
    } else {
        None
    }
}

proof fn lemma_digits_value_push(d: Seq<char>, c: char)
    ensures
        digits_value(d.push(c)) == digits_value(d) * 10 + digit_value(c),
{
    assert(d.push(c).drop_last() =~= d);
}

proof fn lemma_digits_value_monotone(d: Seq<char>, i: int)
    requires
        0 <= i <= d.len(),
        all_digits(d),
    ensures
        digits_value(d.take(i)) <= digits_value(d),
    decreases d.len() - i,
{
    if i < d.len() {
        lemma_digits_value_monotone(d, i + 1);
        assert(d.take(i + 1) =~= d.take(i).push(d[i]));
        lemma_digits_value_push(d.take(i), d[i]);
    } else {
        assert(d.take(i) =~= d);
    }
}

/// Parses a `u64` exactly as `str::parse::<u64>` does.
pub fn parse_u64_chars(s: &Vec<char>) -> (r: Option<u64>)
    ensures
        r == parse_u64_seq(s@),
{
    let mut i: usize = 0;
    if s.len() > 0 && s[0] == '+' {
        i = 1;
    }
    let ghost d = if s@.len() > 0 && s@[0] == '+' {
        s@.drop_first()
    } else {
        s@
    };
    assert(d =~= s@.skip(i as int));
    if i >= s.len() {
        return None;
    }
    let mut acc: u64 = 0;
    let mut k: usize = i;
    while k < s.len()
        invariant
            i <= k <= s.len(),
            i < s.len() || i == s.len(),
            d == s@.skip(i as int),
            d == (if s@.len() > 0 && s@[0] == '+' {
                s@.drop_first()
            } else {
                s@
            }),
            all_digits(d.take((k - i) as int)),
            acc as nat == digits_value(d.take((k - i) as int)),
        decreases s.len() - k,
    {
        let c = s[k];
        if !('0' <= c && c <= '9') {
            proof {
                assert(d[(k - i) as int] == c);
                assert(!is_digit(d[(k - i) as int]));
                assert(!all_digits(d));
            }
            return None;
        }
        let dv = (c as u32 - 48) as u64;
        proof {
            assert(d.take((k - i + 1) as int) =~= d.take((k - i) as int).push(c));
            lemma_digits_value_push(d.take((k - i) as int), c);
        }
        if acc > (u64::MAX - dv) / 10 {
            proof {
                assert(acc * 10 + dv > u64::MAX) by (nonlinear_arith)
                    requires
                        acc > (u64::MAX - dv) / 10,
                        dv <= 9,
                ;
                let t = d.take((k - i + 1) as int);
                assert(digits_value(t) == acc * 10 + dv);
                if all_digits(d) {
                    lemma_digits_value_monotone(d, (k - i + 1) as int);
                    assert(digits_value(d) > u64::MAX);
                }
            }
            return None;
        }
        proof {
            assert(acc * 10 + dv <= u64::MAX) by (nonlinear_arith)
                requires
                    acc <= (u64::MAX - dv) / 10,
                    dv <= 9,
            ;
        }
        acc = acc * 10 + dv;
        k += 1;
    }
    assert(d.take((k - i) as int) =~= d);
    Some(acc)
}

/// Parses a `u64` from a string slice exactly as `str::parse::<u64>` does.
pub fn parse_u64_str(s: &str) -> (r: Option<u64>)
    ensures
        r == parse_u64_seq(s@),
{
    let v = chars_of(s);
    parse_u64_chars(&v)
}

/// Decimal representation of `n`.
pub fn u64_dec_chars(n: u64) -> (v: Vec<char>)
    ensures
        v@ == dec_seq(n as nat),
    decreases n,
{
    if n < 10 {
        let c = ((n as u8) + 48) as char;
        let mut v: Vec<char> = Vec::new();
        v.push(c);
        assert(v@ =~= seq![digit_char(n as nat)]);
        v
    } else {
        let mut v = u64_dec_chars(n / 10);
        let c = (((n % 10) as u8) + 48) as char;
        v.push(c);
        v
    }
}

/// Appends the decimal representation of `n` to `s`.
pub fn push_u64(s: &mut String, n: u64)
    ensures
        final(s)@ == old(s)@ + dec_seq(n as nat),
{
    let v = u64_dec_chars(n);
    push_chars(s, &v);
}

/// Appends the decimal representation of a signed `n` to `s`.
pub fn push_i64(s: &mut String, n: i64)
    ensures
        final(s)@ == old(s)@ + int_dec_seq(n as int),
{
    if n < 0 {
        push_char(s, '-');
        let m: u64 = if n == i64::MIN {
            9223372036854775808u64
        } else {
            (-n) as u64
        };
        let v = u64_dec_chars(m);
        push_chars(s, &v);
        assert(old(s)@ + int_dec_seq(n as int) =~= old(s)@.push('-') + dec_seq(m as nat));
    } else {
        push_u64(s, n as u64);
    }
}

} // verus!
