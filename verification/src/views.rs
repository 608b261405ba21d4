//! What the pages and the JSON API show of the stored rows: paging, the
//! record cards of the list, the edit form, and the JSON bodies.

use crate::crypto::{opened_record, Crypto};
use crate::files::{human_size, human_size_seq};
use crate::form::PendingUpload;
use crate::render::{
    display_title, display_title_seq, format_ts_utc, snippet, snippet_seq, ts_text,
};
use crate::text::{owned, push_str, str_eq};
use vstd::prelude::*;

verus! {

// ---------------------------------------------------------------------------
// Stored rows
// ---------------------------------------------------------------------------

/// A stored record: its id, its encrypted blob and its timestamps.
#[derive(Debug)]
pub struct RecordRow {
    pub id: String,
    pub blob: Vec<u8>,
    pub created_at: i64,
    pub updated_at: i64,
}

/// A stored attachment.
#[derive(Debug)]
pub struct AttachmentRow {
    pub id: String,
    pub record_id: String,
    pub original_filename: String,
    pub size_bytes: i64,
    pub mime_type: String,
    pub created_at: i64,
}

/// The row of an upload once its record is `record_id`, stored at `ts`.
pub fn attachment_row_for(u: &PendingUpload, record_id: &str, ts: i64) -> (r: AttachmentRow)
    ensures
        r.id@ == u.id@,
        r.record_id@ == record_id@,
        r.original_filename@ == u.original_filename@,
        r.size_bytes == u.size as i64,
        r.mime_type@ == u.mime_type@,
        r.created_at == ts,
{
    AttachmentRow {
        id: owned(u.id.as_str()),
        record_id: owned(record_id),
        original_filename: owned(u.original_filename.as_str()),
        size_bytes: #[verifier::truncate] (u.size as i64),
        mime_type: owned(u.mime_type.as_str()),
        created_at: ts,
    }
}

// ---------------------------------------------------------------------------
// Paging
// ---------------------------------------------------------------------------

/// Integer division rounding toward zero, as `/` on Rust integers.
pub open spec fn div_toward_zero(a: int, b: int) -> int {
    let q = (if a < 0 {
        -a
    } else {
        a
    }) / (if b < 0 {
        -b
    } else {
        b
    });
    if (a < 0) == (b < 0) {
        q
    } else {
        -q
    }
}

/// The number of pages for `total` records, `page_size` a page; at least 1.
pub open spec fn total_pages_of(total: int, page_size: int) -> int {
    let p = div_toward_zero(total + page_size - 1, page_size);
    if p < 1 {
        1
    } else {
        p
    }
}

/// The number of pages. Defined where `total + page_size - 1` and its
/// quotient by `page_size` are: a page size other than zero, and no
/// `i64::MIN / -1`.
pub fn total_pages(total: i64, page_size: i64) -> (r: i64)
    requires
        page_size != 0,
        i64::MIN <= total + page_size <= i64::MAX,
        i64::MIN <= total + page_size - 1,
        !(total + page_size - 1 == i64::MIN && page_size == -1),
    ensures
        r == total_pages_of(total as int, page_size as int),
        r >= 1,
{
    let n = (total + page_size - 1) as i128;
    let d = page_size as i128;
    let na: u128 = if n < 0 {
        (-n) as u128
    } else {
        n as u128
    };
    let da: u128 = if d < 0 {
        (-d) as u128
    } else {
        d as u128
    };
    let q: u128 = na / da;
    assert(q <= na) by (nonlinear_arith)
        requires
            da >= 1,
            q == na / da,
    ;
    assert(da >= 2 ==> q <= na / 2) by (nonlinear_arith)
        requires
            da >= 1,
            q == na / da,
    ;
    let p: i128 = if (n < 0) == (d < 0) {
        q as i128
    } else {
        -(q as i128)
    };
    if p < 1 {
        1
    } else {
        p as i64
    }
}

/// `page` brought into `1..=total_pages`.
pub open spec fn clamp_page_of(page: int, total_pages: int) -> int {
    if page < 1 {
        1
    } else if page > total_pages {
        total_pages
    } else {
        page
    }
}

pub fn clamp_page(page: i64, total_pages: i64) -> (r: i64)
    requires
        total_pages >= 1,
    ensures
        r == clamp_page_of(page as int, total_pages as int),
        1 <= r <= total_pages,
{
    if page < 1 {
        1
    } else if page > total_pages {
        total_pages
    } else {
        page
    }
}

/// The first row of page `page` (pages below 1 count as page 1).
pub open spec fn page_offset_of(page: int, page_size: int) -> int {
    let p = if page < 1 {
        1
    } else {
        page
    };
    (p - 1) * page_size
}

pub fn page_offset(page: i64, page_size: i64) -> (r: i64)
    requires
        i64::MIN <= page_offset_of(page as int, page_size as int) <= i64::MAX,
    ensures
        r == page_offset_of(page as int, page_size as int),
{
    let p = if page < 1 {
        1
    } else {
        page
    };
    (p - 1) * page_size
}

/// The page to list again, if any: the first listing was of page
/// `fetched`, the page to show is `page`; when the first listing came back
/// empty and the page shown is another one (the request went past the
/// end), that page is listed.
pub open spec fn refetch_of(first_rows_empty: bool, fetched: int, page: int) -> Option<int> {
    if first_rows_empty && page != fetched {
        Some(page)
    } else {
        None
    }
}

pub fn page_to_refetch(first_rows_empty: bool, fetched: i64, page: i64) -> (r: Option<i64>)
    ensures
        match r {
            Some(p) => refetch_of(first_rows_empty, fetched as int, page as int) == Some(p as int),
            None => refetch_of(first_rows_empty, fetched as int, page as int) is None,
        },
{
    if first_rows_empty && page != fetched {
        Some(page)
    } else {
        None
    }
}

/// The rows a listing of page `p` gives out of all rows in list order:
/// `LIMIT n OFFSET page_offset_of(p, n)`.
pub open spec fn page_rows<A>(all: Seq<A>, p: int, n: int) -> Seq<A> {
    let off = page_offset_of(p, n);
    if off >= all.len() {
        Seq::empty()
    } else if off + n >= all.len() {
        all.skip(off)
    } else {
        all.subrange(off, off + n)
    }
}

/// A listed page is always the rows of the page it is shown as: the
/// request is clamped into `1..=total_pages`, and a request past the end
/// shows the last page's rows.
pub proof fn law_listed_page_is_clamped_page<A>(all: Seq<A>, requested: int, n: int)
    requires
        n >= 1,
    ensures
        ({
            let fetched = if requested < 1 {
                1
            } else {
                requested
            };
            let first = page_rows(all, fetched, n);
            let page = clamp_page_of(requested, total_pages_of(all.len() as int, n));
            let shown = match refetch_of(first.len() == 0, fetched, page) {
                Some(p) => page_rows(all, p, n),
                None => first,
            };
            shown == page_rows(all, page, n)
        }),
{
    let len = all.len() as int;
    let q = (len + n - 1) / n;
    assert(div_toward_zero(len + n - 1, n) == q);
    assert(q * n >= len) by (nonlinear_arith)
        requires
            n >= 1,
            len >= 0,
            q == (len + n - 1) / n,
    ;
    let tp = total_pages_of(len, n);
    if requested > tp {
        assert((requested - 1) * n >= tp * n) by (nonlinear_arith)
            requires
                requested - 1 >= tp,
                n >= 1,
        ;
        assert(tp * n >= q * n) by (nonlinear_arith)
            requires
                tp >= q,
                n >= 1,
        ;
    }
}

/// Query parameters of the JSON list: a page (default 1) and a page size
/// (default `default_page_size`), each at least 1.
pub fn api_page_params(page: Option<i64>, page_size: Option<i64>, default_page_size: i64) -> (r: (
    i64,
    i64,
))
    ensures
        r.0 == (match page {
            Some(p) => if p < 1 {
                1
            } else {
                p
            },
            None => 1,
        }),
        r.1 == ({
            let s = match page_size {
                Some(s) => s,
                None => default_page_size,
            };
            if s < 1 {
                1
            } else {
                s
            }
        }),
{
    let s = match page_size {
        Some(s) => s,
        None => default_page_size,
    };
    let p = match page {
        Some(p) => p,
        None => 1,
    };
    (
        if p < 1 {
            1
        } else {
            p
        },
        if s < 1 {
            1
        } else {
            s
        },
    )
}

// ---------------------------------------------------------------------------
// Attachments of the listed records
// ---------------------------------------------------------------------------

/// The attachments of record `id`, in their order.
pub open spec fn attachments_of(all: Seq<AttachmentRow>, id: Seq<char>) -> Seq<AttachmentRow> {
    all.filter(|a: AttachmentRow| a.record_id@ == id)
}

/// Rows are given their attachments once: a row repeating an earlier id
/// gets none.
pub open spec fn repeats_earlier(rows: Seq<RecordRow>, i: int) -> bool {
    exists|j: int| 0 <= j < i && #[trigger] rows[j].id@ == rows[i].id@
}

/// The attachments a listed row is shown with.
pub open spec fn row_attachments(rows: Seq<RecordRow>, i: int, all: Seq<AttachmentRow>) -> Seq<
    AttachmentRow,
> {
    if repeats_earlier(rows, i) {
        Seq::empty()
    } else {
        attachments_of(all, rows[i].id@)
    }
}

/// The number of attachments of record `id` and the file name of the first.
fn attachment_stats(all: &Vec<AttachmentRow>, id: &str) -> (r: (usize, Option<String>))
    ensures
        r.0 == attachments_of(all@, id@).len(),
        match r.1 {
            Some(n) => attachments_of(all@, id@).len() > 0 && n@ == attachments_of(
                all@,
                id@,
            )[0].original_filename@,
            None => attachments_of(all@, id@).len() == 0,
        },
{
    let mut count: usize = 0;
    let mut first: Option<String> = None;
    let mut i: usize = 0;
    reveal(Seq::filter);
    assert(all@.take(0).filter(|a: AttachmentRow| a.record_id@ == id@) =~= Seq::<
        AttachmentRow,
    >::empty());
    while i < all.len()
        invariant
            i <= all.len(),
            count == attachments_of(all@.take(i as int), id@).len(),
            match first {
                Some(n) => attachments_of(all@.take(i as int), id@).len() > 0 && n@
                    == attachments_of(all@.take(i as int), id@)[0].original_filename@,
                None => attachments_of(all@.take(i as int), id@).len() == 0,
            },
        decreases all.len() - i,
    {
        let a = &all[i];
        proof {
            assert(all@.take(i + 1).drop_last() =~= all@.take(i as int));
            reveal(Seq::filter);
            assert(all@.take(i + 1) =~= all@.take(i as int).push(all@[i as int]));
        }
        if str_eq(a.record_id.as_str(), id) {
            if count == 0 {
                first = Some(owned(a.original_filename.as_str()));
            }
            count = count + 1;
        }
        i += 1;
    }
    assert(all@.take(all.len() as int) =~= all@);
    (count, first)
}

fn seen_before(rows: &Vec<RecordRow>, i: usize) -> (r: bool)
    requires
        i < rows.len(),
    ensures
        r == repeats_earlier(rows@, i as int),
{
    let mut j: usize = 0;
    while j < i
        invariant
            j <= i < rows.len(),
            forall|k: int| 0 <= k < j ==> rows@[k].id@ != rows@[i as int].id@,
        decreases i - j,
    {
        if str_eq(rows[j].id.as_str(), rows[i].id.as_str()) {
            return true;
        }
        j += 1;
    }
    false
}

// ---------------------------------------------------------------------------
// The list page
// ---------------------------------------------------------------------------

/// One card of the record list.
#[derive(Debug)]
pub struct RecordView {
    pub id: String,
    pub title: String,
    pub untitled: bool,
    pub snippet: String,
    pub updated_ts: i64,
    pub updated_text: String,
    pub attachment_count: i64,
    pub first_attachment_name: String,
    pub extra_attachments: i64,
    pub undecryptable: bool,
}

/// Title, placeholder flag and snippet of a record that opened; blanks for
/// one that did not.
pub open spec fn shown_text(opened: Option<(Seq<char>, Seq<char>)>) -> (Seq<char>, bool, Seq<char>) {
    match opened {
        Some((t, c)) => (display_title_seq(t, c).0, display_title_seq(t, c).1, snippet_seq(c)),
        None => (Seq::empty(), false, Seq::empty()),
    }
}

/// The card of `row` shown with the attachments `atts`.
pub open spec fn is_card_of(v: RecordView, key: Seq<u8>, row: RecordRow, atts: Seq<AttachmentRow>) -> bool {
    let opened = opened_record(key, row.blob@);
    &&& v.id@ == row.id@
    &&& (v.title@, v.untitled, v.snippet@) == shown_text(opened)
    &&& v.undecryptable == opened is None
    &&& v.updated_ts == row.updated_at
    &&& v.updated_text@ == ts_text(row.updated_at as int)
    &&& v.attachment_count == atts.len() as i64
    &&& v.first_attachment_name@ == (if atts.len() > 0 {
        atts[0].original_filename@
    } else {
        Seq::empty()
    })
    &&& v.extra_attachments == (if v.attachment_count >= 1 {
        v.attachment_count - 1
    } else {
        0
    })
}

fn shown(crypto: &Crypto, row: &RecordRow) -> (r: (String, bool, String, bool))
    ensures
        (r.0@, r.1, r.2@) == shown_text(opened_record(crypto.key(), row.blob@)),
        r.3 == opened_record(crypto.key(), row.blob@) is None,
{
    match crypto.decrypt(row.blob.as_slice()) {
        Ok((title, content)) => {
            let (t, untitled) = display_title(title.as_str(), content.as_str());
            (t, untitled, snippet(content.as_str()), false)
        },
        Err(_) => (String::new(), false, String::new(), true),
    }
}

/// The card of record `rows[i]` among the listed rows.
fn record_view(crypto: &Crypto, rows: &Vec<RecordRow>, i: usize, all: &Vec<AttachmentRow>) -> (r:
    RecordView)
    requires
        i < rows.len(),
    ensures
        is_card_of(r, crypto.key(), rows@[i as int], row_attachments(rows@, i as int, all@)),
{
    let row = &rows[i];
    let (count, first) = if seen_before(rows, i) {
        (0, None)
    } else {
        attachment_stats(all, row.id.as_str())
    };
    let (title, untitled, snip, undecryptable) = shown(crypto, row);
    let count = #[verifier::truncate] (count as i64);
    RecordView {
        id: owned(row.id.as_str()),
        title,
        untitled,
        snippet: snip,
        updated_ts: row.updated_at,
        updated_text: format_ts_utc(row.updated_at),
        attachment_count: count,
        first_attachment_name: match first {
            Some(n) => n,
            None => String::new(),
        },
        extra_attachments: if count >= 1 {
            count - 1
        } else {
            0
        },
        undecryptable,
    }
}

/// The list page (or its partial).
#[derive(Debug)]
pub struct ListView {
    pub records: Vec<RecordView>,
    pub page: i64,
    pub total_pages: i64,
    pub has_prev: bool,
    pub has_next: bool,
    pub total: i64,
}

/// The list page showing `rows` as page `page` of `total_pages`, each row
/// with its attachments among `all`.
pub fn list_view(
    crypto: &Crypto,
    page: i64,
    total_pages: i64,
    total: i64,
    rows: &Vec<RecordRow>,
    all: &Vec<AttachmentRow>,
) -> (r: ListView)
    ensures
        r.records@.len() == rows@.len(),
        forall|i: int|
            0 <= i < rows@.len() ==> is_card_of(
                #[trigger] r.records@[i],
                crypto.key(),
                rows@[i],
                row_attachments(rows@, i, all@),
            ),
        r.page == page,
        r.total_pages == total_pages,
        r.has_prev == (page > 1),
        r.has_next == (page < total_pages),
        r.total == total,
{
    let mut records: Vec<RecordView> = Vec::new();
    let mut i: usize = 0;
    while i < rows.len()
        invariant
            i <= rows.len(),
            records@.len() == i,
            forall|k: int|
                0 <= k < i ==> is_card_of(
                    #[trigger] records@[k],
                    crypto.key(),
                    rows@[k],
                    row_attachments(rows@, k, all@),
                ),
        decreases rows.len() - i,
    {
        records.push(record_view(crypto, rows, i, all));
        i += 1;
    }
    ListView {
        records,
        page,
        total_pages,
        has_prev: page > 1,
        has_next: page < total_pages,
        total,
    }
}

// ---------------------------------------------------------------------------
// Query strings and forms
// ---------------------------------------------------------------------------

/// `?page=&page_size=` of the JSON list.
#[derive(Debug, Clone, Copy)]
pub struct ApiListQuery {
    pub page: Option<i64>,
    pub page_size: Option<i64>,
}

/// `?inline=` of an attachment download.
#[derive(Debug)]
pub struct InlineQuery {
    pub inline: Option<String>,
}

/// `?error=` of the login page.
#[derive(Debug)]
pub struct LoginQuery {
    pub error: Option<String>,
}

/// The login form.
#[derive(Debug)]
pub struct LoginForm {
    pub access_key: String,
}

/// `?page=` of the list partial.
#[derive(Debug, Clone, Copy)]
pub struct PageQuery {
    pub page: Option<i64>,
}

/// The error line of the login page: shown whenever `?error=` is present,
/// whatever its value.
pub fn login_error_text(q: &LoginQuery) -> (r: Option<String>)
    ensures
        match r {
            Some(t) => q.error is Some && t@ == "Invalid access key"@,
            None => q.error is None,
        },
{
    match &q.error {
        Some(_) => Some(owned("Invalid access key")),
        None => None,
    }
}

// ---------------------------------------------------------------------------
// Attachments and the record form
// ---------------------------------------------------------------------------

/// An attachment as the edit form lists it.
#[derive(Debug)]
pub struct AttachmentView {
    pub id: String,
    pub record_id: String,
    pub original_filename: String,
    pub size_text: String,
}

pub open spec fn is_attachment_view_of(v: AttachmentView, a: AttachmentRow) -> bool {
    &&& v.id@ == a.id@
    &&& v.record_id@ == a.record_id@
    &&& v.original_filename@ == a.original_filename@
    &&& v.size_text@ == human_size_seq(a.size_bytes as int)
}

pub fn attachment_view(a: &AttachmentRow) -> (r: AttachmentView)
    ensures
        is_attachment_view_of(r, *a),
{
    AttachmentView {
        id: owned(a.id.as_str()),
        record_id: owned(a.record_id.as_str()),
        original_filename: owned(a.original_filename.as_str()),
        size_text: human_size(a.size_bytes),
    }
}

/// The attachments of the edit form, in order.
pub fn attachment_views(all: &Vec<AttachmentRow>) -> (r: Vec<AttachmentView>)
    ensures
        r@.len() == all@.len(),
        forall|i: int| 0 <= i < all@.len() ==> is_attachment_view_of(#[trigger] r@[i], all@[i]),
{
    let mut r: Vec<AttachmentView> = Vec::new();
    let mut i: usize = 0;
    while i < all.len()
        invariant
            i <= all.len(),
            r@.len() == i,
            forall|k: int| 0 <= k < i ==> is_attachment_view_of(#[trigger] r@[k], all@[k]),
        decreases all.len() - i,
    {
        r.push(attachment_view(&all[i]));
        i += 1;
    }
    r
}

/// The record form, for a new record or for editing one.
#[derive(Debug)]
pub struct FormView {
    pub mode: String,
    pub action: String,
    pub id: String,
    pub title: String,
    pub content: String,
    pub attachments: Vec<AttachmentView>,
    pub max_attachment_human: String,
    pub max_attachment_bytes: u64,
}

/// The empty form of a new record, posting to `/records`.
pub fn new_form_view(max_attachment_bytes: u64) -> (r: FormView)
    ensures
        r.mode@ == "new"@,
        r.action@ == "/records"@,
        r.id@ == Seq::<char>::empty(),
        r.title@ == Seq::<char>::empty(),
        r.content@ == Seq::<char>::empty(),
        r.attachments@.len() == 0,
        r.max_attachment_human@ == human_size_seq((max_attachment_bytes as i64) as int),
        r.max_attachment_bytes == max_attachment_bytes,
{
    FormView {
        mode: owned("new"),
        action: owned("/records"),
        id: String::new(),
        title: String::new(),
        content: String::new(),
        attachments: Vec::new(),
        max_attachment_human: human_size(#[verifier::truncate] (max_attachment_bytes as i64)),
        max_attachment_bytes,
    }
}

/// The form editing record `id`, posting to `/records/{id}`.
pub fn edit_form_view(
    id: &str,
    title: String,
    content: String,
    attachments: &Vec<AttachmentRow>,
    max_attachment_bytes: u64,
) -> (r: FormView)
    ensures
        r.mode@ == "edit"@,
        r.action@ == "/records/"@ + id@,
        r.id@ == id@,
        r.title@ == title@,
        r.content@ == content@,
        r.attachments@.len() == attachments@.len(),
        forall|i: int|
            0 <= i < attachments@.len() ==> is_attachment_view_of(
                #[trigger] r.attachments@[i],
                attachments@[i],
            ),
        r.max_attachment_human@ == human_size_seq((max_attachment_bytes as i64) as int),
        r.max_attachment_bytes == max_attachment_bytes,
{
    let mut action = owned("/records/");
    push_str(&mut action, id);
    FormView {
        mode: owned("edit"),
        action,
        id: owned(id),
        title,
        content,
        attachments: attachment_views(attachments),
        max_attachment_human: human_size(#[verifier::truncate] (max_attachment_bytes as i64)),
        max_attachment_bytes,
    }
}

// ---------------------------------------------------------------------------
// JSON bodies
// ---------------------------------------------------------------------------

/// An attachment in a JSON record.
#[derive(Debug)]
pub struct ApiAttachmentMeta {
    pub id: String,
    pub original_filename: String,
    pub size_bytes: i64,
    pub mime_type: String,
}

/// A record as `GET /api/records/{id}` returns it.
#[derive(Debug)]
pub struct ApiRecord {
    pub id: String,
    pub title: String,
    pub content: String,
    pub untitled: bool,
    pub updated_at: i64,
    pub created_at: i64,
    pub attachments: Vec<ApiAttachmentMeta>,
}

/// A record in the JSON list.
#[derive(Debug)]
pub struct ApiRecordSummary {
    pub id: String,
    pub title: String,
    pub untitled: bool,
    pub snippet: String,
    pub updated_at: i64,
    pub attachment_count: usize,
}

/// The JSON list.
#[derive(Debug)]
pub struct ApiListResponse {
    pub records: Vec<ApiRecordSummary>,
    pub page: i64,
    pub page_size: i64,
    pub total: i64,
    pub total_pages: i64,
}

pub open spec fn is_meta_of(m: ApiAttachmentMeta, a: AttachmentRow) -> bool {
    &&& m.id@ == a.id@
    &&& m.original_filename@ == a.original_filename@
    &&& m.size_bytes == a.size_bytes
    &&& m.mime_type@ == a.mime_type@
}

/// The JSON record of `row` with its attachments; `None` when the record
/// does not decrypt (answered with 422 `undecryptable`).
pub fn api_record(crypto: &Crypto, row: &RecordRow, attachments: &Vec<AttachmentRow>) -> (r:
    Option<ApiRecord>)
    ensures
        match r {
            Some(rec) => {
                &&& opened_record(crypto.key(), row.blob@) matches Some((t, c))
                &&& (rec.title@, rec.untitled) == display_title_seq(t, c)
                &&& rec.content@ == c
                &&& rec.id@ == row.id@
                &&& rec.updated_at == row.updated_at
                &&& rec.created_at == row.created_at
                &&& rec.attachments@.len() == attachments@.len()
                &&& forall|i: int|
                    0 <= i < attachments@.len() ==> is_meta_of(
                        #[trigger] rec.attachments@[i],
                        attachments@[i],
                    )
            },
            None => opened_record(crypto.key(), row.blob@) is None,
        },
{
    match crypto.decrypt(row.blob.as_slice()) {
        Ok((title, content)) => {
            let (shown_title, untitled) = display_title(title.as_str(), content.as_str());
            let mut metas: Vec<ApiAttachmentMeta> = Vec::new();
            let mut i: usize = 0;
            while i < attachments.len()
                invariant
                    i <= attachments.len(),
                    metas@.len() == i,
                    forall|k: int| 0 <= k < i ==> is_meta_of(#[trigger] metas@[k], attachments@[k]),
                decreases attachments.len() - i,
            {
                let a = &attachments[i];
                metas.push(
                    ApiAttachmentMeta {
                        id: owned(a.id.as_str()),
                        original_filename: owned(a.original_filename.as_str()),
                        size_bytes: a.size_bytes,
                        mime_type: owned(a.mime_type.as_str()),
                    },
                );
                i += 1;
            }
            Some(
                ApiRecord {
                    id: owned(row.id.as_str()),
                    title: shown_title,
                    content,
                    untitled,
                    updated_at: row.updated_at,
                    created_at: row.created_at,
                    attachments: metas,
                },
            )
        },
        Err(_) => None,
    }
}

pub open spec fn is_summary_of(
    v: ApiRecordSummary,
    key: Seq<u8>,
    row: RecordRow,
    atts: Seq<AttachmentRow>,
) -> bool {
    &&& v.id@ == row.id@
    &&& (v.title@, v.untitled, v.snippet@) == shown_text(opened_record(key, row.blob@))
    &&& v.updated_at == row.updated_at
    &&& v.attachment_count == atts.len()
}

/// The JSON list showing `rows` as page `page`, each row with its
/// attachments among `all`.
pub fn api_list_response(
    crypto: &Crypto,
    page: i64,
    page_size: i64,
    total: i64,
    total_pages: i64,
    rows: &Vec<RecordRow>,
    all: &Vec<AttachmentRow>,
) -> (r: ApiListResponse)
    ensures
        r.records@.len() == rows@.len(),
        forall|i: int|
            0 <= i < rows@.len() ==> is_summary_of(
                #[trigger] r.records@[i],
                crypto.key(),
                rows@[i],
                row_attachments(rows@, i, all@),
            ),
        r.page == page,
        r.page_size == page_size,
        r.total == total,
        r.total_pages == total_pages,
{
    let mut records: Vec<ApiRecordSummary> = Vec::new();
    let mut i: usize = 0;
    while i < rows.len()
        invariant
            i <= rows.len(),
            records@.len() == i,
            forall|k: int|
                0 <= k < i ==> is_summary_of(
                    #[trigger] records@[k],
                    crypto.key(),
                    rows@[k],
                    row_attachments(rows@, k, all@),
                ),
        decreases rows.len() - i,
    {
        let row = &rows[i];
        let count = if seen_before(rows, i) {
            0
        } else {
            attachment_stats(all, row.id.as_str()).0
        };
        let (title, untitled, snip, _) = shown(crypto, row);
        records.push(
            ApiRecordSummary {
                id: owned(row.id.as_str()),
                title,
                untitled,
                snippet: snip,
                updated_at: row.updated_at,
                attachment_count: count,
            },
        );
        i += 1;
    }
    ApiListResponse { records, page, page_size, total, total_pages }
}

} // verus!
