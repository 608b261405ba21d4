//! The record form: reading a `multipart/form-data` submission of a title,
//! a content and any number of files, under the size limits.
//!
//! The application streams the parts and the file bytes; for each part and
//! each chunk it asks [`RecordForm`] what to do, and stops with the
//! returned [`FormError`] (after removing the files already stored).

use crate::files::{guess_mime, guess_mime_seq, human_size, human_size_seq};
use crate::text::{dec_seq, opt_view, owned, push_str, push_u64, string_of, trim_seq, trim_str};
use crate::render::{truncate_chars, truncate_seq};
use vstd::prelude::*;

verus! {

/// The limits a submission is held to.
#[derive(Debug, Clone, Copy)]
pub struct FormLimits {
    pub max_request_bytes: u64,
    pub max_content_bytes: usize,
    pub max_attachment_bytes: u64,
}

/// Why a submission is refused: too large as a whole (413), or with an
/// unusable part (422). Each carries the text of the reply.
#[derive(Debug)]
pub enum FormError {
    TooLarge(String),
    Unprocessable(String),
}

impl View for FormError {
    /// `(true, text)` for "too large", `(false, text)` for "unprocessable".
    type V = (bool, Seq<char>);

    open spec fn view(&self) -> (bool, Seq<char>) {
        match self {
            FormError::TooLarge(m) => (true, m@),
            FormError::Unprocessable(m) => (false, m@),
        }
    }
}

impl FormError {
    /// The HTTP status of the reply.
    pub fn status(&self) -> (r: u16)
        ensures
            r == (if self@.0 {
                413u16
            } else {
                422u16
            }),
    {
        match self {
            FormError::TooLarge(_) => 413,
            FormError::Unprocessable(_) => 422,
        }
    }

    /// The text of the reply.
    pub fn message(&self) -> (r: String)
        ensures
            r@ == self@.1,
    {
        match self {
            FormError::TooLarge(m) => owned(m.as_str()),
            FormError::Unprocessable(m) => owned(m.as_str()),
        }
    }
}

/// The reply to a request declared larger than the limit.
pub open spec fn declared_too_large_text(max: u64) -> Seq<char> {
    "Request too large (max "@ + dec_seq(max as nat) + " bytes)"@
}

/// Refuses a request whose declared `Content-Length` exceeds the limit.
pub fn check_content_length(limits: &FormLimits, content_length: Option<u64>) -> (r: Result<
    (),
    FormError,
>)
    ensures
        match r {
            Ok(()) => !(content_length matches Some(n) && n > limits.max_request_bytes),
            Err(e) => content_length matches Some(n) && n > limits.max_request_bytes && e@ == (
                true,
                declared_too_large_text(limits.max_request_bytes),
            ),
        },
{
    match content_length {
        Some(n) if n > limits.max_request_bytes => {
            let mut m = owned("Request too large (max ");
            push_u64(&mut m, limits.max_request_bytes);
            push_str(&mut m, " bytes)");
            Err(FormError::TooLarge(m))
        },
        _ => Ok(()),
    }
}

/// The parts of the form.
#[derive(Debug, Clone, Copy, PartialEq, Eq, Structural)]
pub enum FieldKind {
    Title,
    Content,
    Files,
    Other,
}

pub open spec fn field_kind_of(name: Seq<char>) -> FieldKind {
    if name == "title"@ {
        FieldKind::Title
    } else if name == "content"@ {
        FieldKind::Content
    } else if name == "files"@ {
        FieldKind::Files
    } else {
        FieldKind::Other
    }
}

/// The kind of a part by its name (a part without a name is `Other`).
pub fn field_kind(name: Option<&str>) -> (r: FieldKind)
    ensures
        r == field_kind_of(
            match name {
                Some(n) => n@,
                None => Seq::empty(),
            },
        ),
{
    match name {
        None => {
            proof {
                reveal_strlit("title");
                reveal_strlit("content");
                reveal_strlit("files");
                assert("title"@.len() == 5);
                assert("content"@.len() == 7);
                assert("files"@.len() == 5);
            }
            FieldKind::Other
        },
        Some(n) => if crate::text::str_eq(n, "title") {
            FieldKind::Title
        } else if crate::text::str_eq(n, "content") {
            FieldKind::Content
        } else if crate::text::str_eq(n, "files") {
            FieldKind::Files
        } else {
            FieldKind::Other
        },
    }
}

/// Is a file part worth storing? Browsers send a part with an empty file
/// name when nothing was selected; a part without a file name is skipped
/// too.
pub fn wants_file(file_name: Option<&str>) -> (r: bool)
    ensures
        r == (opt_view(file_name) matches Some(f) && f.len() > 0),
{
    match file_name {
        Some(f) => !f.is_empty(),
        None => false,
    }
}

/// An attachment stored under `id`, waiting for its record to be written.
#[derive(Debug)]
pub struct PendingUpload {
    pub id: String,
    pub original_filename: String,
    pub mime_type: String,
    pub size: u64,
}

impl View for PendingUpload {
    type V = (Seq<char>, Seq<char>, Seq<char>, u64);

    open spec fn view(&self) -> (Seq<char>, Seq<char>, Seq<char>, u64) {
        (self.id@, self.original_filename@, self.mime_type@, self.size)
    }
}

/// A fully read submission.
#[derive(Debug)]
pub struct ParsedRecordForm {
    pub title: String,
    pub content: String,
    pub uploads: Vec<PendingUpload>,
}

/// The reply when the request as a whole grows past its limit.
pub open spec fn too_large_text() -> Seq<char> {
    "Request too large"@
}

/// The reply when the content field is over its limit.
pub open spec fn content_too_large_text(max: usize) -> Seq<char> {
    "Content too large (max "@ + dec_seq(max as nat) + " bytes)"@
}

/// The reply when one file is over its limit.
pub open spec fn file_too_large_text(filename: Seq<char>, max: u64) -> Seq<char> {
    "\""@ + filename + "\" exceeds max attachment size ("@ + human_size_seq(
        (max as i64) as int,
    ) + ")"@
}

/// The size of a text in bytes.
pub open spec fn byte_len(s: Seq<char>) -> nat {
    vstd::utf8::encode_utf8(s).len()
}

/// A submission being read.
pub struct RecordForm {
    limits: FormLimits,
    title: String,
    content: String,
    uploads: Vec<PendingUpload>,
    total_bytes: u64,
}

impl RecordForm {
    pub closed spec fn limits_of(&self) -> FormLimits {
        self.limits
    }

    pub closed spec fn title_view(&self) -> Seq<char> {
        self.title@
    }

    pub closed spec fn content_view(&self) -> Seq<char> {
        self.content@
    }

    pub closed spec fn uploads_view(&self) -> Seq<(Seq<char>, Seq<char>, Seq<char>, u64)> {
        self.uploads@.map_values(|u: PendingUpload| u@)
    }

    /// The bytes counted so far against the request limit.
    pub closed spec fn total(&self) -> u64 {
        self.total_bytes
    }

    /// An empty submission: no title, no content, no file, nothing counted.
    pub fn new(limits: FormLimits) -> (r: Self)
        ensures
            r.limits_of() == limits,
            r.title_view() == Seq::<char>::empty(),
            r.content_view() == Seq::<char>::empty(),
            r.uploads_view() == Seq::<(Seq<char>, Seq<char>, Seq<char>, u64)>::empty(),
            r.total() == 0,
    {
        let r = RecordForm {
            limits,
            title: String::new(),
            content: String::new(),
            uploads: Vec::new(),
            total_bytes: 0,
        };
        assert(r.uploads_view() =~= Seq::<(Seq<char>, Seq<char>, Seq<char>, u64)>::empty());
        r
    }

    pub fn total_bytes(&self) -> (r: u64)
        ensures
            r == self.total(),
    {
        self.total_bytes
    }

    /// The files stored so far (removed by the caller when it gives up).
    pub fn uploads(&self) -> (r: &Vec<PendingUpload>)
        ensures
            r@.map_values(|u: PendingUpload| u@) == self.uploads_view(),
    {
        &self.uploads
    }

    /// A `title` or `content` part with its text. The bytes count against
    /// the request limit; the content has a limit of its own; the title is
    /// kept trimmed and cut to 200 characters, the content as it is.
    pub fn text_field(&mut self, is_title: bool, text: &str) -> (r: Result<(), FormError>)
        requires
            old(self).total() + byte_len(text@) <= u64::MAX,
        ensures
            final(self).limits_of() == old(self).limits_of(),
            final(self).uploads_view() == old(self).uploads_view(),
            final(self).total() == old(self).total() + byte_len(text@),
            ({
                let lim = old(self).limits_of();
                if final(self).total() > lim.max_request_bytes {
                    r matches Err(e) && e@ == (true, too_large_text())
                } else if !is_title && byte_len(text@) > lim.max_content_bytes {
                    r matches Err(e) && e@ == (false, content_too_large_text(lim.max_content_bytes))
                } else {
                    &&& r is Ok
                    &&& final(self).title_view() == (if is_title {
                        truncate_seq(trim_seq(text@), 200)
                    } else {
                        old(self).title_view()
                    })
                    &&& final(self).content_view() == (if is_title {
                        old(self).content_view()
                    } else {
                        text@
                    })
                }
            }),
    {
        let len = text.as_bytes().len();
        self.total_bytes = self.total_bytes + len as u64;
        if self.total_bytes > self.limits.max_request_bytes {
            return Err(FormError::TooLarge(owned("Request too large")));
        }
        if !is_title && len > self.limits.max_content_bytes {
            let mut m = owned("Content too large (max ");
            push_u64(&mut m, self.limits.max_content_bytes as u64);
            push_str(&mut m, " bytes)");
            return Err(FormError::Unprocessable(m));
        }
        if is_title {
            let t = trim_str(text);
            let ts = string_of(&t);
            self.title = truncate_chars(ts.as_str(), 200);
        } else {
            self.content = owned(text);
        }
        Ok(())
    }

    /// A part that is neither text nor file: its bytes are counted, nothing
    /// else (the part is drained).
    pub fn other_field(&mut self, len: u64)
        requires
            old(self).total() + len <= u64::MAX,
        ensures
            final(self).limits_of() == old(self).limits_of(),
            final(self).title_view() == old(self).title_view(),
            final(self).content_view() == old(self).content_view(),
            final(self).uploads_view() == old(self).uploads_view(),
            final(self).total() == old(self).total() + len,
    {
        self.total_bytes = self.total_bytes + len;
    }

    /// A chunk of `len` bytes of the file `filename`, of which `size` bytes
    /// came before. The chunk counts against the file's limit, then
    /// against the request's.
    pub fn file_chunk(&mut self, filename: &str, size: &mut u64, len: u64) -> (r: Result<
        (),
        FormError,
    >)
        requires
            *old(size) <= old(self).total(),
            old(self).total() + len <= u64::MAX,
        ensures
            final(self).limits_of() == old(self).limits_of(),
            final(self).title_view() == old(self).title_view(),
            final(self).content_view() == old(self).content_view(),
            final(self).uploads_view() == old(self).uploads_view(),
            final(self).total() == old(self).total() + len,
            *final(size) == *old(size) + len,
            *final(size) <= final(self).total(),
            ({
                let lim = old(self).limits_of();
                if *final(size) > lim.max_attachment_bytes {
                    r matches Err(e) && e@ == (
                        false,
                        file_too_large_text(filename@, lim.max_attachment_bytes),
                    )
                } else if final(self).total() > lim.max_request_bytes {
                    r matches Err(e) && e@ == (true, too_large_text())
                } else {
                    r is Ok
                }
            }),
    {
        *size = *size + len;
        self.total_bytes = self.total_bytes + len;
        if *size > self.limits.max_attachment_bytes {
            let mut m = owned("\"");
            push_str(&mut m, filename);
            push_str(&mut m, "\" exceeds max attachment size (");
            let max_text = human_size(#[verifier::truncate] (self.limits.max_attachment_bytes as i64));
            push_str(&mut m, max_text.as_str());
            push_str(&mut m, ")");
            return Err(FormError::Unprocessable(m));
        }
        if self.total_bytes > self.limits.max_request_bytes {
            return Err(FormError::TooLarge(owned("Request too large")));
        }
        Ok(())
    }

    /// A file completely stored under `id`: it joins the uploads, with the
    /// declared MIME type when there is one, else the one its name suggests.
    pub fn add_upload(&mut self, id: String, filename: String, declared: Option<&str>, size: u64)
        ensures
            final(self).limits_of() == old(self).limits_of(),
            final(self).title_view() == old(self).title_view(),
            final(self).content_view() == old(self).content_view(),
            final(self).total() == old(self).total(),
            final(self).uploads_view() == old(self).uploads_view().push(
                (id@, filename@, guess_mime_seq(filename@, opt_view(declared)), size),
            ),
    {
        let mime_type = guess_mime(filename.as_str(), declared);
        let u = PendingUpload { id, original_filename: filename, mime_type, size };
        let ghost uv = u@;
        self.uploads.push(u);
        assert(self.uploads_view() =~= old(self).uploads_view().push(uv));
    }

    /// The submission as read.
    pub fn finish(self) -> (r: ParsedRecordForm)
        ensures
            r.title@ == self.title_view(),
            r.content@ == self.content_view(),
            r.uploads@.map_values(|u: PendingUpload| u@) == self.uploads_view(),
    {
        ParsedRecordForm { title: self.title, content: self.content, uploads: self.uploads }
    }
}

} // verus!
