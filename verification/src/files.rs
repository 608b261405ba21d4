//! Attachment storage layout and the download headers of attachments.
//!
//! Attachment files live in `{data_dir}/attachments/{uuid}`; uploads are
//! written to `{data_dir}/tmp/{uuid}` first and renamed when complete. The
//! file operations themselves are the application's; this module fixes the
//! paths, the `Content-Disposition` header, the MIME type and the size text.

use crate::encoding::hex_lower_digit;
use crate::text::{
    chars_of, dec_seq, digit_char, int_dec_seq, push_char, push_chars, push_i64, push_str, push_u64,
    str_eq,
};
use vstd::prelude::*;

verus! {

// ---------------------------------------------------------------------------
// Paths
// ---------------------------------------------------------------------------

/// `PathBuf::join` of a relative name without separators: the name follows
/// the directory, with a `/` between them unless the directory is empty or
/// already ends with one.
pub open spec fn join_seq(dir: Seq<char>, name: Seq<char>) -> Seq<char> {
    if dir.len() == 0 {
        name
    } else if dir.last() == '/' {
        dir + name
    } else {
        dir + seq!['/'] + name
    }
}

/// Does `s` contain `..`?
pub open spec fn has_dot_dot(s: Seq<char>) -> bool {
    exists|i: int| 0 <= i < s.len() - 1 && s[i] == '.' && #[trigger] s[i + 1] == '.'
}

pub fn join_path(dir: &str, name: &str) -> (r: String)
    ensures
        r@ == join_seq(dir@, name@),
{
    let d = chars_of(dir);
    let mut s = String::new();
    push_chars(&mut s, &d);
    if d.len() > 0 && d[d.len() - 1] != '/' {
        push_char(&mut s, '/');
    }
    push_str(&mut s, name);
    proof {
        if d@.len() > 0 {
            assert(d@.last() == d@[d@.len() - 1]);
        }
    }
    s
}

/// A lower-case hex digit.
pub open spec fn is_lower_hex(c: char) -> bool {
    ('0' <= c && c <= '9') || ('a' <= c && c <= 'f')
}

/// The text form of a UUID: 36 characters, `-` at 8, 13, 18 and 23,
/// lower-case hex digits elsewhere.
pub open spec fn is_uuid_text(s: Seq<char>) -> bool {
    &&& s.len() == 36
    &&& forall|i: int|
        0 <= i < 36 ==> if i == 8 || i == 13 || i == 18 || i == 23 {
            #[trigger] s[i] == '-'
        } else {
            is_lower_hex(s[i])
        }
}

/// `uuid::Uuid::new_v4()` as text (`Display`, the hyphenated lower-case
/// form): a random UUID. Which one is up to chance; only its shape is
/// stated.
#[verifier::external_body]
fn random_uuid_text() -> (r: String)
    ensures
        is_uuid_text(r@),
{
    uuid::Uuid::new_v4().to_string()
}

/// A fresh random id for a record or an attachment. It is a UUID, so it
/// is safe as a file name.
pub fn new_id() -> (r: String)
    ensures
        is_uuid_text(r@),
        !r@.contains('/'),
        !has_dot_dot(r@),
{
    let r = random_uuid_text();
    proof {
        assert forall|i: int| 0 <= i < r@.len() implies r@[i] != '/' && r@[i] != '.' by {
            if i == 8 || i == 13 || i == 18 || i == 23 {
                assert(r@[i] == '-');
            } else {
                assert(is_lower_hex(r@[i]));
            }
        }
    }
    r
}

/// Is a file of the attachments directory named after a known attachment?
/// Files that are not are reported as orphans (and left alone).
pub fn is_known_attachment(name: &str, known_ids: &Vec<String>) -> (r: bool)
    ensures
        r == exists|i: int| 0 <= i < known_ids@.len() && #[trigger] known_ids@[i]@ == name@,
{
    let mut i: usize = 0;
    while i < known_ids.len()
        invariant
            i <= known_ids.len(),
            forall|k: int| 0 <= k < i ==> #[trigger] known_ids@[k]@ != name@,
        decreases known_ids.len() - i,
    {
        if str_eq(known_ids[i].as_str(), name) {
            return true;
        }
        i += 1;
    }
    false
}

/// Where attachment files and upload temp files live.
pub struct FileStore {
    attachments_dir: String,
    tmp_dir: String,
}

impl Clone for FileStore {
    fn clone(&self) -> (r: Self)
        ensures
            r.attachments_dir_view() == self.attachments_dir_view(),
            r.tmp_dir_view() == self.tmp_dir_view(),
    {
        FileStore { attachments_dir: self.attachments_dir.clone(), tmp_dir: self.tmp_dir.clone() }
    }
}

impl FileStore {
    pub closed spec fn attachments_dir_view(&self) -> Seq<char> {
        self.attachments_dir@
    }

    pub closed spec fn tmp_dir_view(&self) -> Seq<char> {
        self.tmp_dir@
    }

    /// The layout under `data_dir`: `attachments/` and `tmp/`. Creating the
    /// directories is the caller's business.
    pub fn layout(data_dir: &str) -> (r: FileStore)
        ensures
            r.attachments_dir_view() == join_seq(data_dir@, "attachments"@),
            r.tmp_dir_view() == join_seq(data_dir@, "tmp"@),
    {
        FileStore {
            attachments_dir: join_path(data_dir, "attachments"),
            tmp_dir: join_path(data_dir, "tmp"),
        }
    }

    /// The directory of attachment files.
    pub fn attachments_dir(&self) -> (r: &str)
        ensures
            r@ == self.attachments_dir_view(),
    {
        self.attachments_dir.as_str()
    }

    /// The directory of upload temp files.
    pub fn tmp_dir(&self) -> (r: &str)
        ensures
            r@ == self.tmp_dir_view(),
    {
        self.tmp_dir.as_str()
    }

    /// The file of attachment `id`. Ids are UUIDs generated by the server,
    /// never user input; one holding `/` or `..` is refused.
    pub fn attachment_path(&self, id: &str) -> (r: String)
        requires
            !id@.contains('/'),
            !has_dot_dot(id@),
        ensures
            r@ == join_seq(self.attachments_dir_view(), id@),
    {
        join_path(self.attachments_dir.as_str(), id)
    }

    /// The temp file of upload `id`.
    pub fn tmp_path(&self, id: &str) -> (r: String)
        requires
            !id@.contains('/'),
            !has_dot_dot(id@),
        ensures
            r@ == join_seq(self.tmp_dir_view(), id@),
    {
        join_path(self.tmp_dir.as_str(), id)
    }
}

// ---------------------------------------------------------------------------
// Content-Disposition (RFC 5987 filename*)
// ---------------------------------------------------------------------------

pub open spec fn is_ascii_alnum(c: char) -> bool {
    ('a' <= c && c <= 'z') || ('A' <= c && c <= 'Z') || ('0' <= c && c <= '9')
}

/// The ASCII fallback character for one character of a file name.
pub open spec fn fallback_char(c: char) -> char {
    if is_ascii_alnum(c) || c == '.' || c == '-' || c == '_' || c == ' ' {
        c
    } else {
        '_'
    }
}

/// The sanitized ASCII `filename` fallback: unsafe characters become `_`,
/// and an empty name becomes `file`.
pub open spec fn fallback_name(name: Seq<char>) -> Seq<char> {
    if name.len() == 0 {
        seq!['f', 'i', 'l', 'e']
    } else {
        Seq::new(name.len(), |i: int| fallback_char(name[i]))
    }
}

/// The upper-case hex digit for a nibble.
pub open spec fn hex_upper_digit(n: nat) -> char {
    if n < 10 {
        ((n + 48) as u8) as char
    } else {
        ((n + 55) as u8) as char
    }
}

/// Percent-encoding of one byte: unreserved bytes verbatim, space as `%20`,
/// anything else as `%XX` in upper case.
pub open spec fn pct_byte(b: u8) -> Seq<char> {
    let c = b as char;
    if is_ascii_alnum(c) || b == 46 || b == 45 || b == 95 {
        seq![c]
    } else {
        seq!['%', hex_upper_digit((b / 16) as nat), hex_upper_digit((b % 16) as nat)]
    }
}

pub open spec fn pct_encode(bytes: Seq<u8>) -> Seq<char>
    decreases bytes.len(),
{
    if bytes.len() == 0 {
        Seq::empty()
    } else {
        pct_byte(bytes[0]) + pct_encode(bytes.drop_first())
    }
}

/// The fallback name cannot break out of its quotes: it holds only ASCII
/// letters, digits, `.`, `-`, `_` and spaces, and is never empty.
pub proof fn law_fallback_name_is_safe(name: Seq<char>)
    ensures
        fallback_name(name).len() > 0,
        forall|i: int|
            0 <= i < fallback_name(name).len() ==> {
                let c = #[trigger] fallback_name(name)[i];
                is_ascii_alnum(c) || c == '.' || c == '-' || c == '_' || c == ' '
            },
{
}

/// The percent-encoded name holds only unreserved ASCII characters and `%`
/// escapes: no quote, no space, no separator.
pub proof fn law_pct_encode_is_unreserved(bytes: Seq<u8>)
    ensures
        forall|i: int|
            0 <= i < pct_encode(bytes).len() ==> {
                let c = #[trigger] pct_encode(bytes)[i];
                is_ascii_alnum(c) || c == '.' || c == '-' || c == '_' || c == '%'
            },
    decreases bytes.len(),
{
    if bytes.len() > 0 {
        law_pct_encode_is_unreserved(bytes.drop_first());
        let h = pct_byte(bytes[0]);
        let t = pct_encode(bytes.drop_first());
        assert(pct_encode(bytes) == h + t);
        assert forall|i: int| 0 <= i < pct_encode(bytes).len() implies {
            let c = #[trigger] pct_encode(bytes)[i];
            is_ascii_alnum(c) || c == '.' || c == '-' || c == '_' || c == '%'
        } by {
            if i < h.len() {
                let b = bytes[0];
                if !(is_ascii_alnum(b as char) || b == 46 || b == 45 || b == 95) {
                    assert(b / 16 < 16 && b % 16 < 16);
                }
            } else {
                assert(pct_encode(bytes)[i] == t[i - h.len()]);
            }
        }
    }
}

/// `{kind}; filename="{fallback}"; filename*=UTF-8''{percent-encoded}`.
pub open spec fn content_disposition_seq(kind: Seq<char>, name: Seq<char>) -> Seq<char> {
    kind + "; filename=\""@ + fallback_name(name) + "\"; filename*=UTF-8''"@ + pct_encode(
        vstd::utf8::encode_utf8(name),
    )
}

fn is_alnum(c: char) -> (r: bool)
    ensures
        r == is_ascii_alnum(c),
{
    ('a' <= c && c <= 'z') || ('A' <= c && c <= 'Z') || ('0' <= c && c <= '9')
}

fn upper_hex(n: u8) -> (c: char)
    requires
        n < 16,
    ensures
        c == hex_upper_digit(n as nat),
{
    if n < 10 {
        (n + 48) as char
    } else {
        (n + 55) as char
    }
}

/// RFC 5987 `Content-Disposition` with UTF-8 filename support.
pub fn content_disposition(kind: &str, original_filename: &str) -> (r: String)
    ensures
        r@ == content_disposition_seq(kind@, original_filename@),
{
    let name = chars_of(original_filename);
    let mut fallback: Vec<char> = Vec::new();
    let mut i: usize = 0;
    while i < name.len()
        invariant
            i <= name.len(),
            fallback@ == Seq::new(i as nat, |k: int| fallback_char(name@[k])),
        decreases name.len() - i,
    {
        let c = name[i];
        let d = if is_alnum(c) || c == '.' || c == '-' || c == '_' || c == ' ' {
            c
        } else {
            '_'
        };
        fallback.push(d);
        i += 1;
        assert(fallback@ =~= Seq::new(i as nat, |k: int| fallback_char(name@[k])));
    }
    if fallback.len() == 0 {
        fallback.push('f');
        fallback.push('i');
        fallback.push('l');
        fallback.push('e');
    }
    proof {
        assert(fallback@ =~= fallback_name(original_filename@));
    }
    let bytes = original_filename.as_bytes();
    let mut encoded = String::new();
    let mut k: usize = 0;
    assert(bytes@.skip(0) =~= bytes@);
    while k < bytes.len()
        invariant
            k <= bytes@.len(),
            bytes@ == vstd::utf8::encode_utf8(original_filename@),
            encoded@ + pct_encode(bytes@.skip(k as int)) == pct_encode(bytes@),
        decreases bytes@.len() - k,
    {
        let b = bytes[k];
        let ghost before = encoded@;
        let c = b as char;
        if is_alnum(c) || b == 46 || b == 45 || b == 95 {
            push_char(&mut encoded, c);
        } else {
            push_char(&mut encoded, '%');
            push_char(&mut encoded, upper_hex(b / 16));
            push_char(&mut encoded, upper_hex(b % 16));
        }
        proof {
            let rest = bytes@.skip(k as int);
            assert(rest.drop_first() =~= bytes@.skip(k + 1));
            assert(encoded@ =~= before + pct_byte(b));
            assert(encoded@ + pct_encode(bytes@.skip(k + 1)) =~= before + pct_encode(rest));
        }
        k += 1;
    }
    proof {
        assert(bytes@.skip(bytes@.len() as int) =~= Seq::<u8>::empty());
        assert(encoded@ + Seq::<char>::empty() =~= encoded@);
    }
    let mut s = String::new();
    push_str(&mut s, kind);
    push_str(&mut s, "; filename=\"");
    push_chars(&mut s, &fallback);
    push_str(&mut s, "\"; filename*=UTF-8''");
    push_str(&mut s, encoded.as_str());
    s
}

// ---------------------------------------------------------------------------
// MIME types
// ---------------------------------------------------------------------------

/// `mime_guess::from_path(name).first_or_octet_stream()` as text: the MIME
/// type registered for the name's extension, `application/octet-stream`
/// when there is none.
pub uninterp spec fn mime_for_name(name: Seq<char>) -> Seq<char>;

/// `mime_guess::from_path(..).first_or_octet_stream()`, as a string.
#[verifier::external_body]
fn mime_from_extension(filename: &str) -> (r: String)
    ensures
        r@ == mime_for_name(filename@),
{
    mime_guess::from_path(filename).first_or_octet_stream().to_string()
}

/// The MIME type recorded for an upload: the declared one when it is
/// non-empty, else the one guessed from the file name's extension.
pub open spec fn guess_mime_seq(filename: Seq<char>, declared: Option<Seq<char>>) -> Seq<char> {
    match declared {
        Some(t) if t.len() > 0 => t,
        _ => mime_for_name(filename),
    }
}

pub fn guess_mime(filename: &str, declared: Option<&str>) -> (r: String)
    ensures
        r@ == guess_mime_seq(filename@, crate::text::opt_view(declared)),
{
    match declared {
        Some(t) if !t.is_empty() => crate::text::owned(t),
        _ => mime_from_extension(filename),
    }
}

/// MIME types allowed to be served inline.
pub open spec fn inline_whitelisted(mime: Seq<char>) -> bool {
    mime == "image/png"@ || mime == "image/jpeg"@ || mime == "image/gif"@ || mime == "image/webp"@
}

pub fn is_inline_whitelisted(mime: &str) -> (r: bool)
    ensures
        r == inline_whitelisted(mime@),
{
    str_eq(mime, "image/png") || str_eq(mime, "image/jpeg") || str_eq(mime, "image/gif")
        || str_eq(mime, "image/webp")
}

/// The disposition of a download: `inline` only when `?inline=1` was asked
/// for and the MIME type is a whitelisted image; `attachment` otherwise.
pub open spec fn disposition_kind_seq(inline_param: Option<Seq<char>>, mime: Seq<char>) -> Seq<
    char,
> {
    if inline_param == Some("1"@) && inline_whitelisted(mime) {
        "inline"@
    } else {
        "attachment"@
    }
}

pub fn disposition_kind(inline_param: Option<&str>, mime: &str) -> (r: &'static str)
    ensures
        r@ == disposition_kind_seq(crate::text::opt_view(inline_param), mime@),
{
    let asked = match inline_param {
        Some(p) => str_eq(p, "1"),
        None => false,
    };
    if asked && is_inline_whitelisted(mime) {
        "inline"
    } else {
        "attachment"
    }
}

// ---------------------------------------------------------------------------
// Human-readable sizes
// ---------------------------------------------------------------------------

/// `n / d` rounded to the nearest integer, ties to the even one: how a
/// binary value is rounded when it is formatted with fewer digits, and how
/// an integer is rounded to the nearest `f64`.
pub open spec fn round_half_even(n: int, d: int) -> int {
    let q = n / d;
    let r = n % d;
    if 2 * r > d {
        q + 1
    } else if 2 * r < d {
        q
    } else if q % 2 == 0 {
        q
    } else {
        q + 1
    }
}

/// The spacing of `f64` values around a non-negative integer `n`: 1 below
/// 2^53, doubling with each further bit of `n`.
pub open spec fn f64_unit(n: int) -> int
    decreases n,
{
    if n < 0x20000000000000 {
        1
    } else {
        2 * f64_unit(n / 2)
    }
}

/// The value of `n as f64` for a non-negative integer `n`: `n` rounded to
/// the nearest multiple of its `f64` spacing, ties to even.
pub open spec fn as_f64_value(n: int) -> int {
    round_half_even(n, f64_unit(n)) * f64_unit(n)
}

/// The size text: `{bytes} B` below 1 KiB, whole KiB (`{:.0}`) below
/// 1 MiB, else MiB with one decimal (`{:.1}`), each figure rounded from the
/// exact binary value the way float formatting rounds it.
pub open spec fn human_size_seq(bytes: int) -> Seq<char> {
    if bytes >= 1048576 {
        let tenths = round_half_even(as_f64_value(bytes) * 10, 1048576);
        dec_seq((tenths / 10) as nat) + seq!['.', digit_char((tenths % 10) as nat)] + " MB"@
    } else if bytes >= 1024 {
        dec_seq(round_half_even(bytes, 1024) as nat) + " KB"@
    } else {
        int_dec_seq(bytes) + " B"@
    }
}

proof fn lemma_round_half_even_bounds(n: int, d: int)
    requires
        n >= 0,
        d > 0,
    ensures
        n / d <= round_half_even(n, d) <= n / d + 1,
        round_half_even(n, d) * d <= n + d,
        round_half_even(n, d) >= 0,
{
    let q = n / d;
    let r = n % d;
    assert(n == d * q + r && 0 <= r < d) by (nonlinear_arith)
        requires
            d > 0,
            q == n / d,
            r == n % d,
    ;
    assert(q >= 0) by (nonlinear_arith)
        requires
            n >= 0,
            d > 0,
            q == n / d,
    ;
    assert((q + 1) * d == d * q + d) by (nonlinear_arith);
    assert(q * d == d * q) by (nonlinear_arith);
}

fn round_half_even_u128(n: u128, d: u128) -> (r: u128)
    requires
        d > 0,
        n < 0x10000000000000000000000000,
    ensures
        r == round_half_even(n as int, d as int),
{
    let q = n / d;
    let r = n % d;
    proof {
        lemma_round_half_even_bounds(n as int, d as int);
        assert(q <= n) by (nonlinear_arith)
            requires
                d > 0,
                q == n / d,
        ;
    }
    if r > d - r {
        q + 1
    } else if r < d - r {
        q
    } else if q % 2 == 0 {
        q
    } else {
        q + 1
    }
}

/// A byte count as text: `512 B`, `2 KB`, `5.0 MB`.
pub fn human_size(bytes: i64) -> (r: String)
    ensures
        r@ == human_size_seq(bytes as int),
{
    let mut s = String::new();
    if bytes >= 1048576 {
        let n = bytes as u64;
        let mut m: u64 = n;
        let mut p: u64 = 1;
        while m >= 0x20000000000000
            invariant
                1 <= p <= n,
                n == bytes,
                bytes >= 1048576,
                m as int == n as int / p as int,
                f64_unit(n as int) == p * f64_unit(m as int),
            decreases m,
        {
            proof {
                assert(2 * p <= n) by (nonlinear_arith)
                    requires
                        p >= 1,
                        m == n / p,
                        m >= 0x20000000000000,
                ;
                vstd::arithmetic::div_mod::lemma_div_denominator(n as int, p as int, 2);
                let u = f64_unit(m as int / 2);
                assert(f64_unit(m as int) == 2 * u);
                assert(p * (2 * u) == (p * 2) * u) by (nonlinear_arith);
            }
            m = m / 2;
            p = p * 2;
        }
        proof {
            lemma_round_half_even_bounds(n as int, p as int);
        }
        let k = round_half_even_u128(n as u128, p as u128);
        assert(k * p <= 2 * n) by (nonlinear_arith)
            requires
                k * p <= n + p,
                p <= n,
        ;
        let f = k * (p as u128);
        assert(f == as_f64_value(bytes as int));
        let tenths = round_half_even_u128(f * 10, 1048576);
        proof {
            lemma_round_half_even_bounds(f * 10, 1048576);
        }
        push_u64(&mut s, (tenths / 10) as u64);
        push_char(&mut s, '.');
        let d = (tenths % 10) as u8;
        push_char(&mut s, (d + 48) as char);
        push_str(&mut s, " MB");
        assert(s@ =~= human_size_seq(bytes as int));
    } else if bytes >= 1024 {
        let k = round_half_even_u128(bytes as u128, 1024);
        proof {
            lemma_round_half_even_bounds(bytes as int, 1024);
        }
        push_u64(&mut s, k as u64);
        push_str(&mut s, " KB");
        assert(s@ =~= human_size_seq(bytes as int));
    } else {
        push_i64(&mut s, bytes);
        push_str(&mut s, " B");
        assert(s@ =~= human_size_seq(bytes as int));
    }
    s
}

/// The inline whitelist is exactly `image/png`, `image/jpeg`, `image/gif`
/// and `image/webp`: a download is shown inline exactly when `?inline=1`
/// was asked for and its type is one of these four, and it is an
/// attachment otherwise.
pub proof fn law_inline_whitelist(inline_param: Option<Seq<char>>, mime: Seq<char>)
    ensures
        inline_whitelisted(mime) <==> (mime == "image/png"@ || mime == "image/jpeg"@ || mime
            == "image/gif"@ || mime == "image/webp"@),
        disposition_kind_seq(inline_param, mime) == (if inline_param == Some("1"@) && (mime
            == "image/png"@ || mime == "image/jpeg"@ || mime == "image/gif"@ || mime
            == "image/webp"@) {
            "inline"@
        } else {
            "attachment"@
        }),
{
}

/// A character that a file name may keep as it is in both `filename`
/// forms.
pub open spec fn plain_name_char(c: char) -> bool {
    ('a' <= c && c <= 'z') || ('A' <= c && c <= 'Z') || ('0' <= c && c <= '9') || c == '.' || c
        == '-' || c == '_'
}

/// The value of an upper-case hex digit.
pub open spec fn upper_hex_value(c: char) -> Option<int> {
    if '0' <= c && c <= '9' {
        Some(c as int - 48)
    } else if 'A' <= c && c <= 'F' {
        Some(c as int - 55)
    } else {
        None
    }
}

/// Each byte of the `filename*` form reads back: letters, digits, `.`,
/// `-` and `_` stand for themselves, and every other byte is `%` and two
/// upper-case hex digits that give back its value (a space is `%20`).
pub proof fn law_pct_byte_reads_back(b: u8)
    ensures
        plain_name_char(b as char) ==> pct_byte(b) == seq![b as char],
        !plain_name_char(b as char) ==> {
            let e = pct_byte(b);
            &&& e.len() == 3
            &&& e[0] == '%'
            &&& upper_hex_value(e[1]) matches Some(h) && upper_hex_value(e[2]) matches Some(l) && h
                * 16 + l == b
        },
        b == 32 ==> pct_byte(b) == seq!['%', '2', '0'],
{
    if !plain_name_char(b as char) {
        let h = (b / 16) as nat;
        let l = (b % 16) as nat;
        assert(h < 16 && l < 16);
        assert(h * 16 + l == b);
    }
}

/// The ASCII `filename` keeps each letter, digit, `.`, `-`, `_` and space
/// of the name and puts `_` for every other character; an empty name is
/// `file`.
pub proof fn law_fallback_name_per_char(name: Seq<char>)
    ensures
        name.len() == 0 ==> fallback_name(name) == seq!['f', 'i', 'l', 'e'],
        name.len() > 0 ==> fallback_name(name).len() == name.len(),
        name.len() > 0 ==> forall|i: int|
            0 <= i < name.len() ==> #[trigger] fallback_name(name)[i] == if plain_name_char(name[i])
                || name[i] == ' ' {
                name[i]
            } else {
                '_'
            },
{
}

proof fn lemma_plain_name_encodes_as_itself(name: Seq<char>)
    requires
        forall|i: int| 0 <= i < name.len() ==> plain_name_char(#[trigger] name[i]),
    ensures
        pct_encode(vstd::utf8::encode_utf8(name)) == name,
    decreases name.len(),
{
    if name.len() > 0 {
        let c = name[0];
        let u = c as u32;
        assert(u <= 0x7F);
        assert(u & 0x7F == u) by (bit_vector)
            requires
                u <= 0x7F,
        ;
        vstd::utf8::char_u32_cast(c, u);
        let b = vstd::utf8::leading_byte_width_1(u);
        assert(b == u);
        assert(vstd::utf8::encode_utf8(name) == seq![b] + vstd::utf8::encode_utf8(name.drop_first()));
        let rest = name.drop_first();
        assert forall|i: int| 0 <= i < rest.len() implies plain_name_char(#[trigger] rest[i]) by {
            assert(rest[i] == name[i + 1]);
        }
        lemma_plain_name_encodes_as_itself(rest);
        let bs = seq![b] + vstd::utf8::encode_utf8(rest);
        assert(bs.drop_first() =~= vstd::utf8::encode_utf8(rest));
        assert(pct_byte(b) == seq![c]);
        assert(seq![c] + rest =~= name);
    }
}

/// A name made only of letters, digits, `.`, `-` and `_` appears as it is
/// in both forms of the header.
pub proof fn law_plain_name_disposition(kind: Seq<char>, name: Seq<char>)
    requires
        name.len() > 0,
        forall|i: int| 0 <= i < name.len() ==> plain_name_char(#[trigger] name[i]),
    ensures
        content_disposition_seq(kind, name) == kind + "; filename=\""@ + name
            + "\"; filename*=UTF-8''"@ + name,
{
    lemma_plain_name_encodes_as_itself(name);
    assert(fallback_name(name) =~= name);
}

/// The recorded MIME type is the declared one whenever it is not empty,
/// and the one guessed from the file name otherwise.
pub proof fn law_declared_mime_first(filename: Seq<char>, declared: Option<Seq<char>>)
    ensures
        (declared matches Some(t) && t.len() > 0) ==> guess_mime_seq(filename, declared)
            == declared->Some_0,
        !(declared matches Some(t) && t.len() > 0) ==> guess_mime_seq(filename, declared)
            == mime_for_name(filename),
{
}

/// Sizes: below 1024 bytes the count of bytes; a whole number of KiB below
/// 1 MiB as that number with `KB`; a whole number of MiB as that number,
/// `.0` and `MB`; and any size from 1 KiB to below 1 MiB as the number of
/// KiB nearest to it.
pub proof fn law_human_size_units(b: int, k: int, m: int)
    ensures
        0 <= b < 1024 ==> human_size_seq(b) == dec_seq(b as nat) + " B"@,
        1 <= k < 1024 ==> human_size_seq(k * 1024) == dec_seq(k as nat) + " KB"@,
        1 <= m < 0x200000000 ==> human_size_seq(m * 1048576) == dec_seq(m as nat) + seq!['.', '0']
            + " MB"@,
        1024 <= b < 1048576 ==> exists|n: int|
            #![trigger dec_seq(n as nat)]
            0 <= n && human_size_seq(b) == dec_seq(n as nat) + " KB"@ && -512 <= n * 1024 - b <= 512,
{
    if 1 <= k < 1024 {
        let n = k * 1024;
        assert(n / 1024 == k && n % 1024 == 0) by (nonlinear_arith)
            requires
                n == k * 1024,
        ;
        assert(round_half_even(n, 1024) == k);
    }
    if 1 <= m < 0x200000000 {
        let n = m * 1048576;
        assert(n < 0x20000000000000) by (nonlinear_arith)
            requires
                n == m * 1048576,
                m < 0x200000000,
        ;
        assert(f64_unit(n) == 1);
        assert(n / 1 == n && n % 1 == 0);
        assert(round_half_even(n, 1) == n);
        assert(as_f64_value(n) == n);
        let t = n * 10;
        assert(t / 1048576 == m * 10 && t % 1048576 == 0) by (nonlinear_arith)
            requires
                n == m * 1048576,
                t == n * 10,
        ;
        assert(round_half_even(t, 1048576) == m * 10);
        assert((m * 10) / 10 == m && (m * 10) % 10 == 0);
        assert(digit_char(0) == '0');
    }
    if 1024 <= b < 1048576 {
        lemma_round_half_even_bounds(b, 1024);
        let n = round_half_even(b, 1024);
        let q = b / 1024;
        let r = b % 1024;
        assert(b == 1024 * q + r && 0 <= r < 1024) by (nonlinear_arith)
            requires
                q == b / 1024,
                r == b % 1024,
        ;
        assert(-512 <= n * 1024 - b <= 512);
        assert(human_size_seq(b) == dec_seq(n as nat) + " KB"@);
    }
}

/// A file of the store lies directly in its directory: the name follows
/// the directory after exactly one `/` (none is added when the directory
/// already ends with one, and an empty directory adds nothing).
pub proof fn law_join_one_separator(dir: Seq<char>, name: Seq<char>)
    ensures
        (dir.len() > 0 && dir.last() != '/') ==> join_seq(dir, name) == dir + "/"@ + name,
        (dir.len() > 0 && dir.last() == '/') ==> join_seq(dir, name) == dir + name,
        dir.len() == 0 ==> join_seq(dir, name) == name,
{
    reveal_strlit("/");
    assert("/"@ =~= seq!['/']);
}

} // verus!
