//! What a read hands to a model: the contents in an envelope that marks them as
//! data, or a refusal that says what to do instead.
use vstd::prelude::*;
use vstd::utf8::{decode_utf8, encode_utf8, valid_utf8};

use crate::backend::is_transcript;
use crate::base64text::{
    base64_decoded, base64_len, base64_text, compact, compacted, decode, decoding, encode, is_ascii_space,
    is_base64_char,
};
use crate::diag::{fact_texts, note, DiagnosticReport};
use crate::proto::{CanonicalPath, Principal, Severity};
use crate::read::{Integrity, ReadContent, ReadResponse};
use crate::sniff::{
    ascii_text_is_no_container, bears_signature, classify_unrecognised, identified, identify, pdf_header_at, unrecognised,
    Bom, Class, Container, TextEvidence, Unrecognised,
};
use crate::text::{
    begins_with, byte_hex, byte_text, decimal, decimal_text, decimal_wide, decoded, mentions, nearest, nearest_to, own,
    rounding_is_to_the_nearest,
};
use crate::texts::{
    ARCHIVE_ADVICE, BAD_BASE64_A, BAD_BASE64_B, BASE64_NOTE, BINARY_A, BINARY_B, BINARY_C, BINARY_D, BINARY_E,
    BINARY_F, BINARY_G, BYTE_EVIDENCE, CONTAINER_CONFABULATION, DATABASE_ADVICE, DOCUMENT_ADVICE, ENCODING_A,
    ENCODING_B, ENCODING_C, ENCODING_D, ENVELOPE_A, ENVELOPE_B, ENVELOPE_C, ENVELOPE_D, FINDING_A, FINDING_B,
    FINDING_C, FINDING_D, FINDING_E, FINDING_F, FINDING_REMEDY, IMAGE_ADVICE, LARGE_BASE64_NOTE, LARGE_TEXT_NOTE,
    MARK_EVIDENCE, TOO_LARGE_A, TOO_LARGE_B, TOO_LARGE_C, TOO_LARGE_D, TOO_LARGE_E, TOO_LARGE_F, UNKNOWN_ADVICE,
    UNKNOWN_CONFABULATION, UNKNOWN_FORMAT,
};

verus! {

/// How large a body one read may hand over by default, in bytes.
pub const DEFAULT_MAX_INLINE_BYTES: usize = 1048576;

/// How large a body can be and still be passed back in one write, in bytes.
pub const WRITEBACK_BUDGET_BYTES: usize = 131072;

/// How contents are written in a tool argument or a read result.
#[derive(Clone, Copy, Debug, PartialEq, Eq, Structural)]
pub enum ContentEncoding {
    /// As the text that they are.
    Utf8,
    /// As the base64 of their bytes.
    Base64,
}

impl Default for ContentEncoding {
    fn default() -> (r: ContentEncoding)
        ensures
            r == ContentEncoding::Utf8,
    {
        ContentEncoding::Utf8
    }
}

impl ContentEncoding {
    /// The word for it.
    pub open spec fn name_text(self) -> Seq<char> {
        match self {
            ContentEncoding::Utf8 => "utf8"@,
            ContentEncoding::Base64 => "base64"@,
        }
    }

    /// The word for it.
    pub fn name(self) -> (r: &'static str)
        ensures
            r@ == self.name_text(),
    {
        match self {
            ContentEncoding::Utf8 => "utf8",
            ContentEncoding::Base64 => "base64",
        }
    }
}

/// The bytes that some content stands for: the text itself, or what its base64
/// decodes to, white space not counting.
pub open spec fn content_bytes(content: Seq<char>, encoding: ContentEncoding) -> Result<Seq<u8>, Seq<char>> {
    match encoding {
        ContentEncoding::Utf8 => Ok(encode_utf8(content)),
        ContentEncoding::Base64 => match base64_decoded(compacted(encode_utf8(content))) {
            Ok(bytes) => Ok(bytes),
            Err(why) => Err(BAD_BASE64_A@ + why + BAD_BASE64_B@),
        },
    }
}

/// A copy of some bytes.
pub(crate) fn copy_bytes(b: &[u8]) -> (r: Vec<u8>)
    ensures
        r@ == b@,
{
    let mut r: Vec<u8> = Vec::new();
    let mut i: usize = 0;
    while i < b.len()
        invariant
            i <= b@.len(),
            r@ == b@.take(i as int),
        decreases b@.len() - i,
    {
        r.push(b[i]);
        i = i + 1;
        assert(r@ =~= b@.take(i as int));
    }
    assert(b@.take(b@.len() as int) =~= b@);
    r
}

/// What a decoding of base64 comes to for a model: a refusal says how the content
/// has to be written.
pub fn decoded_content(decoded: Result<Vec<u8>, String>) -> (r: Result<Vec<u8>, String>)
    ensures
        decoding(r) == match decoding(decoded) {
            Ok(bytes) => Ok(bytes),
            Err(why) => Err(BAD_BASE64_A@ + why + BAD_BASE64_B@),
        },
{
    match decoded {
        Ok(bytes) => Ok(bytes),
        Err(why) => {
            let mut e = own(BAD_BASE64_A);
            e.append(why.as_str());
            e.append(BAD_BASE64_B);
            Err(e)
        },
    }
}

/// The bytes that a model's content stands for.
pub fn decode_content(content: String, encoding: ContentEncoding) -> (r: Result<Vec<u8>, String>)
    ensures
        decoding(r) == content_bytes(content@, encoding),
{
    match encoding {
        ContentEncoding::Utf8 => Ok(copy_bytes(content.as_str().as_bytes())),
        ContentEncoding::Base64 => {
            let packed = compact(content.as_str().as_bytes());
            decoded_content(decode(packed.as_slice()))
        },
    }
}

/// The body of a read.
pub struct Body {
    /// The text of it.
    pub text: String,
    /// How the contents are written in it.
    pub encoding: ContentEncoding,
    /// How many bytes the contents have.
    pub raw: usize,
}

/// The text of a body, how the contents are written in it, and how many bytes
/// they have.
pub open spec fn body_form(content: ReadContent) -> (Seq<char>, ContentEncoding, nat) {
    match content {
        ReadContent::Inline { bytes } => if valid_utf8(bytes@) {
            (decode_utf8(bytes@), ContentEncoding::Utf8, bytes@.len())
        } else {
            (base64_text(bytes@), ContentEncoding::Base64, bytes@.len())
        },
        ReadContent::Ref { content_ref } => (
            "[content available by reference: "@ + content_ref@ + "]"@,
            ContentEncoding::Utf8,
            0,
        ),
    }
}

proof fn nothing_to_compact(bytes: Seq<u8>)
    requires
        forall|i: int| 0 <= i < bytes.len() ==> !is_ascii_space(#[trigger] bytes[i]),
    ensures
        compacted(bytes) == bytes,
    decreases bytes.len(),
{
    if bytes.len() > 0 {
        let d = bytes.drop_last();
        assert forall|i: int| 0 <= i < d.len() implies !is_ascii_space(#[trigger] d[i]) by {
            assert(d[i] == bytes[i]);
        }
        nothing_to_compact(d);
        assert(d.push(bytes.last()) =~= bytes);
    }
}

proof fn base64_has_no_space(text: Seq<char>)
    requires
        forall|i: int| 0 <= i < text.len() ==> is_base64_char(#[trigger] text[i]),
    ensures
        compacted(encode_utf8(text)) == encode_utf8(text),
        encode_utf8(text).len() == text.len(),
{
    assert(vstd::utf8::is_ascii_chars(text)) by {
        assert forall|i: int| 0 <= i < text.len() implies #[trigger] text[i] as u32 <= 127 by {
            assert(is_base64_char(text[i]));
        }
    }
    vstd::utf8::is_ascii_chars_encode_utf8(text);
    let bytes = encode_utf8(text);
    assert forall|i: int| 0 <= i < bytes.len() implies !is_ascii_space(#[trigger] bytes[i]) by {
        assert(is_base64_char(text[i]));
        assert(text[i] as u8 == bytes[i]);
    }
    nothing_to_compact(bytes);
}

/// The body of a read. Text is handed over as text, and anything else as
/// base64; either way, passing the body back unchanged gives the same bytes. A
/// base64 body passed back as if it were text is recognised for what it is.
pub fn body_of(content: &ReadContent) -> (r: Body)
    ensures
        r.text@ == body_form(*content).0,
        r.encoding == body_form(*content).1,
        r.raw == body_form(*content).2,
        content matches ReadContent::Inline { bytes } ==> content_bytes(r.text@, r.encoding) == Ok::<Seq<u8>, Seq<char>>(bytes@),
        content matches ReadContent::Inline { bytes } ==> (r.encoding == ContentEncoding::Base64 ==> is_transcript(encode_utf8(r.text@), bytes@)),
{
    match content {
        ReadContent::Inline { bytes } => match decoded(bytes.as_slice()) {
            Ok(text) => {
                proof {
                    vstd::utf8::decode_utf8_encode_utf8(bytes@);
                }
                Body { text, encoding: ContentEncoding::Utf8, raw: bytes.len() }
            },
            Err(_) => {
                let text = encode(bytes.as_slice());
                proof {
                    base64_has_no_space(text@);
                }
                Body { text, encoding: ContentEncoding::Base64, raw: bytes.len() }
            },
        },
        ReadContent::Ref { content_ref } => {
            let mut text = own("[content available by reference: ");
            text.append(content_ref.as_str());
            text.append("]");
            Body { text, encoding: ContentEncoding::Utf8, raw: 0 }
        },
    }
}

/// A body that does not fit into one result.
#[derive(Debug)]
pub struct BodyTooLarge {
    /// Its size as rendered, in bytes.
    pub rendered: usize,
    /// The size of the contents, in bytes.
    pub raw: usize,
    /// How the contents were to be written.
    pub encoding: &'static str,
    /// The limit, in bytes.
    pub cap: usize,
}

impl BodyTooLarge {
    /// What a model is told.
    pub open spec fn text(&self, uri: Seq<char>) -> Seq<char> {
        TOO_LARGE_A@ + uri + TOO_LARGE_B@ + decimal_text(self.rendered as nat) + TOO_LARGE_C@ + decimal_text(self.raw as nat)
            + TOO_LARGE_D@ + self.encoding@ + TOO_LARGE_E@ + decimal_text(self.cap as nat) + TOO_LARGE_F@
    }

    /// What a model is told.
    pub fn message(&self, uri: &str) -> (r: String)
        ensures
            r@ == self.text(uri@),
    {
        let mut s = own(TOO_LARGE_A);
        s.append(uri);
        s.append(TOO_LARGE_B);
        s.append(decimal(self.rendered as u64).as_str());
        s.append(TOO_LARGE_C);
        s.append(decimal(self.raw as u64).as_str());
        s.append(TOO_LARGE_D);
        s.append(self.encoding);
        s.append(TOO_LARGE_E);
        s.append(decimal(self.cap as u64).as_str());
        s.append(TOO_LARGE_F);
        s
    }
}

/// The header of the envelope.
pub open spec fn header_text(resp: ReadResponse, encoding: ContentEncoding, writable: bool) -> Seq<char> {
    let version = match resp.version {
        Some(v) => v@,
        None => "<unverified>"@,
    };
    let base = "integrity="@ + resp.integrity.name_text() + " version="@ + version + " encoding="@ + encoding.name_text()
        + " writable_inline="@ + (if writable { "true"@ } else { "false"@ });
    let with_origin = match resp.recovered_from {
        Some(rf) => base + " recovered_from="@ + rf.version@ + " interrupted_writer="@ + rf.interrupted_writer@,
        None => base,
    };
    match resp.open_conflicts {
        Some(n) => with_origin + " open_conflicts="@ + decimal_text(n as nat),
        None => with_origin,
    }
}

/// The remark on how a body may be written back.
pub open spec fn note_text(encoding: ContentEncoding, writable: bool) -> Seq<char> {
    match (encoding, writable) {
        (ContentEncoding::Base64, true) => BASE64_NOTE@,
        (ContentEncoding::Base64, false) => LARGE_BASE64_NOTE@,
        (ContentEncoding::Utf8, false) => LARGE_TEXT_NOTE@,
        (ContentEncoding::Utf8, true) => ""@,
    }
}

/// The envelope round a body.
pub open spec fn envelope_text(resp: ReadResponse, body: Seq<char>, encoding: ContentEncoding) -> Seq<char> {
    let writable = encode_utf8(body).len() <= WRITEBACK_BUDGET_BYTES;
    ENVELOPE_A@ + header_text(resp, encoding, writable) + ENVELOPE_B@ + note_text(encoding, writable) + ENVELOPE_C@ + body
        + ENVELOPE_D@
}

fn header(resp: &ReadResponse, encoding: ContentEncoding, writable: bool) -> (r: String)
    ensures
        r@ == header_text(*resp, encoding, writable),
{
    let mut s = own("integrity=");
    s.append(resp.integrity.name());
    s.append(" version=");
    match &resp.version {
        Some(v) => s.append(v.as_str()),
        None => s.append("<unverified>"),
    }
    s.append(" encoding=");
    s.append(encoding.name());
    s.append(" writable_inline=");
    s.append(if writable { "true" } else { "false" });
    if let Some(rf) = &resp.recovered_from {
        s.append(" recovered_from=");
        s.append(rf.version.as_str());
        s.append(" interrupted_writer=");
        s.append(rf.interrupted_writer.as_str());
    }
    if let Some(n) = &resp.open_conflicts {
        s.append(" open_conflicts=");
        s.append(decimal(*n as u64).as_str());
    }
    s
}

/// The envelope round a body: header, remark and body, fenced and marked as data.
/// A body over the limit is refused and never cut short, since what is cut short
/// and written back would destroy the rest of the file.
pub fn wrap(resp: &ReadResponse, body: &Body, max_inline_bytes: usize) -> (r: Result<String, BodyTooLarge>)
    ensures
        ({
            let rendered = encode_utf8(body.text@).len();
            match r {
                Ok(text) => rendered <= max_inline_bytes && text@ == envelope_text(*resp, body.text@, body.encoding),
                Err(e) => rendered > max_inline_bytes && e.rendered == rendered && e.raw == body.raw
                    && e.encoding@ == body.encoding.name_text() && e.cap == max_inline_bytes,
            }
        }),
{
    let rendered: usize = body.text.as_str().as_bytes().len();
    if rendered > max_inline_bytes {
        return Err(BodyTooLarge { rendered, raw: body.raw, encoding: body.encoding.name(), cap: max_inline_bytes });
    }
    let writable = rendered <= WRITEBACK_BUDGET_BYTES;
    let mut s = own(ENVELOPE_A);
    s.append(header(resp, body.encoding, writable).as_str());
    s.append(ENVELOPE_B);
    match (body.encoding, writable) {
        (ContentEncoding::Base64, true) => s.append(BASE64_NOTE),
        (ContentEncoding::Base64, false) => s.append(LARGE_BASE64_NOTE),
        (ContentEncoding::Utf8, false) => s.append(LARGE_TEXT_NOTE),
        (ContentEncoding::Utf8, true) => s.append(""),
    }
    s.append(ENVELOPE_C);
    s.append(body.text.as_str());
    s.append(ENVELOPE_D);
    Ok(s)
}

/// The envelope of a read, or why it does not fit.
pub fn render_envelope(resp: &ReadResponse, max_inline_bytes: usize) -> (r: Result<String, BodyTooLarge>)
    ensures
        ({
            let (body, encoding, raw) = body_form(resp.content);
            let rendered = encode_utf8(body).len();
            match r {
                Ok(text) => rendered <= max_inline_bytes && text@ == envelope_text(*resp, body, encoding),
                Err(e) => rendered > max_inline_bytes && e.rendered == rendered && e.raw == raw
                    && e.encoding@ == encoding.name_text() && e.cap == max_inline_bytes,
            }
        }),
{
    wrap(resp, &body_of(&resp.content), max_inline_bytes)
}

/// Why a read is refused.
#[derive(Debug)]
pub enum RefusalKind {
    /// The file is a container.
    Container(Container),
    /// The file is text in another encoding.
    NonUtf8Text(TextEvidence),
    /// The file is neither text nor anything known.
    UnknownBinary,
}

/// A read that is refused because its bytes cannot be read as text.
#[derive(Debug)]
pub struct NotAnalysable {
    /// Why.
    pub kind: RefusalKind,
    /// How many bytes there are.
    pub raw: usize,
}

/// Whether some bytes stop being UTF-8 at a place.
pub open spec fn stops_at(bytes: Seq<u8>, n: usize) -> bool {
    &&& n < bytes.len()
    &&& valid_utf8(bytes.take(n as int))
    &&& forall|m: int| n < m <= bytes.len() ==> !valid_utf8(#[trigger] bytes.take(m))
}

/// Whether `kind` is what some bytes are refused for.
pub open spec fn refuses(bytes: Seq<u8>, kind: RefusalKind) -> bool {
    match identified(bytes) {
        Some(c) => kind == RefusalKind::Container(c),
        None => exists|n: usize| #[trigger] stops_at(bytes, n) && match unrecognised(bytes, n) {
            Unrecognised::NonUtf8Text(ev) => kind == RefusalKind::NonUtf8Text(ev),
            Unrecognised::Binary => kind == RefusalKind::UnknownBinary,
        },
    }
}

/// The bytes that a guard judges.
pub open spec fn judged(content: ReadContent) -> Option<Seq<u8>> {
    match content {
        ReadContent::Inline { bytes } => Some(bytes@),
        ReadContent::Ref { content_ref } => None,
    }
}

/// Whether contents are kept from a caller who did not ask for bytes: a container
/// is, however its bytes read, and so is anything that is not UTF-8.
pub open spec fn is_guarded(content: ReadContent, allow_binary: bool) -> bool {
    !allow_binary && (judged(content) matches Some(bytes) && (identified(bytes) is Some || !valid_utf8(bytes)))
}

/// Refuses a read whose bytes cannot be read as text, unless the caller asked
/// for the bytes: a container by what it is, however its bytes read, and
/// anything that is not UTF-8.
pub fn binary_guard(resp: &ReadResponse, allow_binary: bool) -> (r: Option<NotAnalysable>)
    ensures
        is_guarded(resp.content, allow_binary) ==> (r matches Some(n) && (judged(resp.content) matches Some(bytes)
            && n.raw == bytes.len() && refuses(bytes, n.kind))),
        !is_guarded(resp.content, allow_binary) ==> r is None,
{
    if allow_binary {
        return None;
    }
    let bytes = match &resp.content {
        ReadContent::Inline { bytes } => bytes,
        ReadContent::Ref { content_ref: _ } => return None,
    };
    if let Some(c) = identify(bytes.as_slice()) {
        return Some(NotAnalysable { kind: RefusalKind::Container(c), raw: bytes.len() });
    }
    let n = match decoded(bytes.as_slice()) {
        Ok(_) => return None,
        Err(n) => n,
    };
    assert(stops_at(bytes@, n));
    let kind = match classify_unrecognised(bytes.as_slice(), n) {
        Unrecognised::NonUtf8Text(ev) => RefusalKind::NonUtf8Text(ev),
        Unrecognised::Binary => RefusalKind::UnknownBinary,
    };
    Some(NotAnalysable { kind, raw: bytes.len() })
}

/// What the bytes of a text in another encoding prove.
pub open spec fn evidence_text(ev: TextEvidence) -> Seq<char> {
    if ev.bom matches Some(b) && b != Bom::Utf8 {
        MARK_EVIDENCE@
    } else {
        BYTE_EVIDENCE@ + byte_text(ev.first_invalid_byte) + ", at offset "@ + decimal_text(ev.first_invalid_offset as nat)
    }
}

/// What can be done about bytes that are no text.
pub open spec fn advice_text(container: Option<Container>) -> Seq<char> {
    match container {
        Some(c) => match c.class_of() {
            Class::Document => DOCUMENT_ADVICE@,
            Class::Archive => ARCHIVE_ADVICE@,
            Class::Image => IMAGE_ADVICE@,
            Class::Database => DATABASE_ADVICE@,
        },
        None => UNKNOWN_ADVICE@,
    }
}

impl NotAnalysable {
    /// The container, where the refusal is about one.
    pub open spec fn container(&self) -> Option<Container> {
        match self.kind {
            RefusalKind::Container(c) => Some(c),
            _ => None,
        }
    }

    /// What is said of text in another encoding.
    pub open spec fn encoding_text(uri: Seq<char>, ev: TextEvidence) -> Seq<char> {
        ENCODING_A@ + uri + ENCODING_B@ + ev.looks_like.label_text() + ENCODING_C@ + evidence_text(ev) + ENCODING_D@
    }

    /// What is said of bytes that are no text.
    pub open spec fn binary_text(&self, uri: Seq<char>) -> Seq<char> {
        let what = match self.container() {
            Some(c) => c.label_text(),
            None => UNKNOWN_FORMAT@,
        };
        let confabulation = if self.container() is Some {
            CONTAINER_CONFABULATION@
        } else {
            UNKNOWN_CONFABULATION@
        };
        BINARY_A@ + uri + BINARY_B@ + what + BINARY_C@ + decimal_text(base64_len(self.raw as nat)) + BINARY_D@ + decimal_text(
            self.raw as nat,
        ) + BINARY_E@ + confabulation + BINARY_F@ + advice_text(self.container()) + BINARY_G@
    }

    /// What a model is told.
    pub open spec fn text(&self, uri: Seq<char>) -> Seq<char> {
        match self.kind {
            RefusalKind::NonUtf8Text(ev) => Self::encoding_text(uri, ev),
            _ => self.binary_text(uri),
        }
    }

    /// The line for the audit trail.
    pub open spec fn summary_text(&self) -> Seq<char> {
        match self.kind {
            RefusalKind::Container(c) => c.label_text() + " container, "@ + decimal_text(self.raw as nat) + " bytes"@,
            RefusalKind::NonUtf8Text(ev) => "text in "@ + ev.looks_like.label_text() + ", first invalid byte "@ + byte_text(
                ev.first_invalid_byte,
            ) + " at offset "@ + decimal_text(ev.first_invalid_offset as nat),
            RefusalKind::UnknownBinary => "unrecognised binary, "@ + decimal_text(self.raw as nat) + " bytes"@,
        }
    }

    /// The line for the audit trail: what was refused and why, without advice.
    pub fn audit_summary(&self) -> (r: String)
        ensures
            r@ == self.summary_text(),
    {
        match &self.kind {
            RefusalKind::Container(c) => {
                let mut s = own(c.label());
                s.append(" container, ");
                s.append(decimal(self.raw as u64).as_str());
                s.append(" bytes");
                s
            },
            RefusalKind::NonUtf8Text(ev) => {
                let mut s = own("text in ");
                s.append(ev.looks_like.label());
                s.append(", first invalid byte ");
                s.append(byte_hex(ev.first_invalid_byte).as_str());
                s.append(" at offset ");
                s.append(decimal(ev.first_invalid_offset as u64).as_str());
                s
            },
            RefusalKind::UnknownBinary => {
                let mut s = own("unrecognised binary, ");
                s.append(decimal(self.raw as u64).as_str());
                s.append(" bytes");
                s
            },
        }
    }

    /// What is said of text in another encoding.
    pub fn encoding_message(uri: &str, ev: &TextEvidence) -> (r: String)
        ensures
            r@ == Self::encoding_text(uri@, *ev),
    {
        let marked = match ev.bom {
            Some(Bom::Utf16Le) | Some(Bom::Utf16Be) | Some(Bom::Utf32Le) | Some(Bom::Utf32Be) => true,
            _ => false,
        };
        let evidence = if marked {
            own(MARK_EVIDENCE)
        } else {
            let mut e = own(BYTE_EVIDENCE);
            e.append(byte_hex(ev.first_invalid_byte).as_str());
            e.append(", at offset ");
            e.append(decimal(ev.first_invalid_offset as u64).as_str());
            e
        };
        let mut s = own(ENCODING_A);
        s.append(uri);
        s.append(ENCODING_B);
        s.append(ev.looks_like.label());
        s.append(ENCODING_C);
        s.append(evidence.as_str());
        s.append(ENCODING_D);
        s
    }

    /// What is said of bytes that are no text.
    pub fn binary_message(&self, uri: &str) -> (r: String)
        ensures
            r@ == self.binary_text(uri@),
    {
        let container = match &self.kind {
            RefusalKind::Container(c) => Some(*c),
            _ => None,
        };
        let what = match container {
            Some(c) => c.label(),
            None => UNKNOWN_FORMAT,
        };
        let confabulation = if container.is_some() {
            CONTAINER_CONFABULATION
        } else {
            UNKNOWN_CONFABULATION
        };
        let advice = match container {
            Some(c) => match c.class() {
                Class::Document => DOCUMENT_ADVICE,
                Class::Archive => ARCHIVE_ADVICE,
                Class::Image => IMAGE_ADVICE,
                Class::Database => DATABASE_ADVICE,
            },
            None => UNKNOWN_ADVICE,
        };
        let chars: u128 = (self.raw as u128 + 2) / 3 * 4;
        let mut s = own(BINARY_A);
        s.append(uri);
        s.append(BINARY_B);
        s.append(what);
        s.append(BINARY_C);
        s.append(decimal_wide(chars).as_str());
        s.append(BINARY_D);
        s.append(decimal(self.raw as u64).as_str());
        s.append(BINARY_E);
        s.append(confabulation);
        s.append(BINARY_F);
        s.append(advice);
        s.append(BINARY_G);
        s
    }

    /// What a model is told. Text in another encoding has a message of its own:
    /// nothing is wrong with it, and it is not called binary.
    pub fn message(&self, uri: &str) -> (r: String)
        ensures
            r@ == self.text(uri@),
    {
        match &self.kind {
            RefusalKind::NonUtf8Text(ev) => Self::encoding_message(uri, ev),
            _ => self.binary_message(uri),
        }
    }

    /// The word for the refusal in the audit trail.
    pub open spec fn reason_text(&self) -> Seq<char> {
        match self.kind {
            RefusalKind::Container(_) => "binary_container"@,
            RefusalKind::NonUtf8Text(_) => "non_utf8_text"@,
            RefusalKind::UnknownBinary => "unknown_binary"@,
        }
    }

    /// The word for the refusal in the audit trail.
    pub fn reason(&self) -> (r: &'static str)
        ensures
            r@ == self.reason_text(),
    {
        match &self.kind {
            RefusalKind::Container(_) => "binary_container",
            RefusalKind::NonUtf8Text(_) => "non_utf8_text",
            RefusalKind::UnknownBinary => "unknown_binary",
        }
    }
}

/// A share of a whole in per cent, to the nearest decimal; of two that are equally
/// near, the even one.
pub open spec fn percent_text(part: nat, whole: nat) -> Seq<char> {
    let permille = if whole == 0 { 0 } else { nearest_to(part * 1000, whole) };
    decimal_text(permille / 10) + "."@ + decimal_text(permille % 10) + "%"@
}

fn percent(part: usize, whole: usize) -> (r: String)
    ensures
        r@ == percent_text(part as nat, whole as nat),
{
    let permille: u128 = if whole == 0 { 0 } else { nearest(part as u128 * 1000, whole as u128) };
    let mut s = decimal_wide(permille / 10);
    s.append(".");
    s.append(decimal_wide(permille % 10).as_str());
    s.append("%");
    s
}

/// What is known of a text in another encoding, by name.
pub open spec fn finding_facts(ev: TextEvidence, raw: nat) -> Seq<(Seq<char>, Seq<char>)> {
    seq![
        ("byte_order_mark"@, match ev.bom {
            Some(b) => b.label_text(),
            None => "none"@,
        }),
        ("first_invalid_byte"@, byte_text(ev.first_invalid_byte)),
        ("first_invalid_offset"@, decimal_text(ev.first_invalid_offset as nat)),
        ("high_byte_ratio"@, percent_text(ev.high_bytes as nat, ev.len as nat)),
        ("looks_like"@, ev.looks_like.code_text()),
        ("size_bytes"@, decimal_text(raw)),
    ]
}

/// The finding on a text in another encoding. No other refusal is a finding: a
/// container on a share is as it should be.
pub fn encoding_finding(uri: &str, refusal: &NotAnalysable, path: Option<CanonicalPath>) -> (r: Option<DiagnosticReport>)
    ensures
        match refusal.kind {
            RefusalKind::NonUtf8Text(ev) => r matches Some(d) && {
                &&& d.code@ == "NON_UTF8_TEXT"@
                &&& d.title@ == "A text file on the share is not saved as UTF-8"@
                &&& d.severity == Severity::Warning
                &&& d.path == path
                &&& d.principal@ == ""@
                &&& d.host is None
                &&& d.detail@ == FINDING_A@ + uri@ + FINDING_B@ + ev.looks_like.code_text() + FINDING_C@ + decimal_text(
                    refusal.raw as nat,
                ) + FINDING_D@ + byte_text(ev.first_invalid_byte) + FINDING_E@ + decimal_text(
                    ev.first_invalid_offset as nat,
                ) + FINDING_F@
                &&& d.remedy@ == FINDING_REMEDY@
                &&& fact_texts(d.facts@) == finding_facts(ev, refusal.raw as nat)
            },
            _ => r is None,
        },
{
    match &refusal.kind {
        RefusalKind::NonUtf8Text(ev) => {
            let mut facts: Vec<(String, String)> = Vec::new();
            assert(fact_texts(facts@) =~= Seq::empty());
            note(&mut facts, "byte_order_mark", match ev.bom {
                Some(b) => b.label(),
                None => "none",
            });
            note(&mut facts, "first_invalid_byte", byte_hex(ev.first_invalid_byte).as_str());
            note(&mut facts, "first_invalid_offset", decimal(ev.first_invalid_offset as u64).as_str());
            note(&mut facts, "high_byte_ratio", percent(ev.high_bytes, ev.len).as_str());
            note(&mut facts, "looks_like", ev.looks_like.code());
            note(&mut facts, "size_bytes", decimal(refusal.raw as u64).as_str());
            assert(fact_texts(facts@) =~= finding_facts(*ev, refusal.raw as nat));
            let mut detail = own(FINDING_A);
            detail.append(uri);
            detail.append(FINDING_B);
            detail.append(ev.looks_like.code());
            detail.append(FINDING_C);
            detail.append(decimal(refusal.raw as u64).as_str());
            detail.append(FINDING_D);
            detail.append(byte_hex(ev.first_invalid_byte).as_str());
            detail.append(FINDING_E);
            detail.append(decimal(ev.first_invalid_offset as u64).as_str());
            detail.append(FINDING_F);
            Some(
                DiagnosticReport {
                    code: own("NON_UTF8_TEXT"),
                    title: own("A text file on the share is not saved as UTF-8"),
                    severity: Severity::Warning,
                    path,
                    principal: Principal(own("")),
                    host: None,
                    detail,
                    remedy: own(FINDING_REMEDY),
                    facts,
                },
            )
        },
        _ => None,
    }
}

/// What a read comes to for a model.
pub enum ReadAnswer {
    /// The envelope.
    Served(String),
    /// The contents do not fit.
    TooLarge(String),
    /// The contents cannot be read as text.
    Refused(NotAnalysable),
}

/// What a read comes to: refused for what it is before it is refused for its
/// size, so that the message names the real problem.
pub fn answer_read(resp: &ReadResponse, allow_binary: bool, max_inline_bytes: usize, uri: &str) -> (r: ReadAnswer)
    ensures
        is_guarded(resp.content, allow_binary) ==> (r matches ReadAnswer::Refused(n) && (judged(resp.content) matches Some(
            bytes,
        ) && n.raw == bytes.len() && refuses(bytes, n.kind))),
        !is_guarded(resp.content, allow_binary) ==> ({
            let (body, encoding, raw) = body_form(resp.content);
            if encode_utf8(body).len() <= max_inline_bytes {
                r matches ReadAnswer::Served(text) && text@ == envelope_text(*resp, body, encoding)
            } else {
                r matches ReadAnswer::TooLarge(text) && exists|e: BodyTooLarge|
                    e.rendered == encode_utf8(body).len() && e.raw == raw && e.encoding@ == encoding.name_text()
                        && e.cap == max_inline_bytes && text@ == #[trigger] e.text(uri@)
            }
        }),
{
    if let Some(refusal) = binary_guard(resp, allow_binary) {
        return ReadAnswer::Refused(refusal);
    }
    match render_envelope(resp, max_inline_bytes) {
        Ok(text) => ReadAnswer::Served(text),
        Err(e) => {
            let text = e.message(uri);
            ReadAnswer::TooLarge(text)
        },
    }
}

/// Text that is written as text comes back as that text: what a write of it puts
/// into a file, a read hands over unchanged, and it is kept back only where its
/// bytes are those of a container.
pub proof fn written_text_is_readable(content: Seq<char>, bytes: Vec<u8>)
    requires
        content_bytes(content, ContentEncoding::Utf8) == Ok::<Seq<u8>, Seq<char>>(bytes@),
    ensures
        body_form(ReadContent::Inline { bytes }) == (content, ContentEncoding::Utf8, bytes@.len()),
        is_guarded(ReadContent::Inline { bytes }, false) <==> identified(bytes@) is Some,
{
    vstd::utf8::encode_utf8_valid_utf8(content);
    vstd::utf8::encode_utf8_decode_utf8(content);
}

/// Breaking a base64 text into lines does not hide it: what is recognised is the
/// text without its white space.
pub proof fn line_breaks_hide_nothing(content: Seq<u8>, wrapped: Seq<u8>, current: Seq<u8>)
    requires
        compacted(wrapped) == compacted(content),
    ensures
        is_transcript(wrapped, current) == is_transcript(content, current),
{
}

/// Whatever some bytes that are not UTF-8 look like, they are kept back: what
/// they look like decides on the words alone.
pub proof fn looking_like_text_does_not_serve(bytes: Vec<u8>, n: usize)
    requires
        stops_at(bytes@, n),
    ensures
        is_guarded(ReadContent::Inline { bytes }, false),
        identified(bytes@) is None ==> refuses(
            bytes@,
            match unrecognised(bytes@, n) {
                Unrecognised::NonUtf8Text(ev) => RefusalKind::NonUtf8Text(ev),
                Unrecognised::Binary => RefusalKind::UnknownBinary,
            },
        ),
{
    assert(bytes@.take(bytes@.len() as int) =~= bytes@);
}

/// Readable contents that begin like no container are served to whoever asks, and
/// whoever asks for the bytes gets them, whatever they are.
pub proof fn readable_contents_are_served(bytes: Vec<u8>)
    ensures
        valid_utf8(bytes@) && identified(bytes@) is None ==> !is_guarded(ReadContent::Inline { bytes }, false),
        !is_guarded(ReadContent::Inline { bytes }, true),
        !valid_utf8(bytes@) ==> is_guarded(ReadContent::Inline { bytes }, false),
        identified(bytes@) is Some ==> is_guarded(ReadContent::Inline { bytes }, false),
{
}

/// Plain ASCII text that does not begin with the letters of a container is served.
pub proof fn ascii_text_is_served(bytes: Vec<u8>)
    requires
        forall|i: int| 0 <= i < bytes@.len() ==> 0x20 <= #[trigger] bytes@[i] <= 0x7e || bytes@[i] == 0x09 || bytes@[i] == 0x0a || bytes@[i]
            == 0x0d,
        forall|at: int| at + 5 <= 1024 ==> !#[trigger] pdf_header_at(bytes@, at),
        !bears_signature(bytes@, Container::Gif),
        !bears_signature(bytes@, Container::WebP),
        !bears_signature(bytes@, Container::Bzip2),
        valid_utf8(bytes@),
    ensures
        !is_guarded(ReadContent::Inline { bytes }, false),
{
    ascii_text_is_no_container(bytes@);
}

/// What a refusal says of the contents: the container that they are, and for what is
/// none, whether they look like text.
pub proof fn a_refusal_says_what_it_is(bytes: Seq<u8>, n: usize, kind: RefusalKind)
    requires
        stops_at(bytes, n) || identified(bytes) is Some,
        refuses(bytes, kind),
    ensures
        kind matches RefusalKind::Container(c) ==> identified(bytes) == Some(c),
        identified(bytes) is Some ==> kind is Container,
        identified(bytes) is None ==> (kind is UnknownBinary <==> unrecognised(bytes, n) is Binary),
        identified(bytes) is None ==> (kind matches RefusalKind::NonUtf8Text(ev) ==> ev.first_invalid_offset == n),
{
    if identified(bytes) is None {
        let m = choose|m: usize|
            #[trigger] stops_at(bytes, m) && match unrecognised(bytes, m) {
                Unrecognised::NonUtf8Text(ev) => kind == RefusalKind::NonUtf8Text(ev),
                Unrecognised::Binary => kind == RefusalKind::UnknownBinary,
            };
        if m < n {
            assert(!valid_utf8(bytes.take(n as int)));
        } else if n < m {
            assert(!valid_utf8(bytes.take(m as int)));
        }
    }
}

/// Text is handed over as text and anything else as base64, and either way the number
/// of bytes is that of the contents.
pub proof fn a_body_is_of_the_contents(bytes: Vec<u8>)
    ensures
        valid_utf8(bytes@) ==> body_form(ReadContent::Inline { bytes }).1 == ContentEncoding::Utf8 && encode_utf8(
            body_form(ReadContent::Inline { bytes }).0,
        ) == bytes@,
        !valid_utf8(bytes@) ==> body_form(ReadContent::Inline { bytes }).1 == ContentEncoding::Base64 && body_form(
            ReadContent::Inline { bytes },
        ).0 == base64_text(bytes@),
        body_form(ReadContent::Inline { bytes }).2 == bytes@.len(),
{
    if valid_utf8(bytes@) {
        vstd::utf8::decode_utf8_encode_utf8(bytes@);
    }
}

/// An envelope holds its body whole and unchanged, behind everything that is said of it
/// and before the mark that ends it; and it says that the body can be written back in
/// one piece exactly where it has at most 131072 bytes.
pub proof fn an_envelope_holds_its_body(resp: ReadResponse, body: Seq<char>, encoding: ContentEncoding)
    ensures
        ({
            let text = envelope_text(resp, body, encoding);
            let end = text.len() - ENVELOPE_D@.len();
            &&& end >= body.len()
            &&& text.subrange(end - body.len(), end) == body
            &&& text.skip(end) == ENVELOPE_D@
            &&& begins_with(text, ENVELOPE_A@ + header_text(resp, encoding, encode_utf8(body).len() <= 131072))
        }),
{
    let writable = encode_utf8(body).len() <= 131072;
    let text = envelope_text(resp, body, encoding);
    let end = text.len() - ENVELOPE_D@.len();
    assert(text.subrange(end - body.len(), end) =~= body);
    assert(text.skip(end) =~= ENVELOPE_D@);
    let rest = ENVELOPE_B@ + note_text(encoding, writable) + ENVELOPE_C@ + body + ENVELOPE_D@;
    let front = ENVELOPE_A@ + header_text(resp, encoding, writable);
    assert(text =~= front + rest);
    assert(text.take(front.len() as int) =~= front);
}

/// Whether a text ends with another.
pub open spec fn ends_with(s: Seq<char>, t: Seq<char>) -> bool {
    t.len() <= s.len() && s.skip(s.len() - t.len()) == t
}

/// The header says how far the contents can be trusted, which version they are, how they
/// are written and whether they can be written back; then where recovered contents come
/// from, and how many conflicts are open, where that is known.
pub proof fn a_header_says_what_is_known(resp: ReadResponse, encoding: ContentEncoding, writable: bool)
    ensures
        ({
            let trust = match resp.integrity {
                Integrity::Verified => "Verified"@,
                Integrity::Recovered => "Recovered"@,
                Integrity::Unverified => "Unverified"@,
            };
            let form = match encoding {
                ContentEncoding::Utf8 => "utf8"@,
                ContentEncoding::Base64 => "base64"@,
            };
            let back = if writable { "true"@ } else { "false"@ };
            let head = header_text(resp, encoding, writable);
            &&& resp.version is None ==> begins_with(
                head,
                "integrity="@ + trust + " version="@ + "<unverified>"@ + " encoding="@ + form + " writable_inline="@ + back,
            )
            &&& resp.version matches Some(v) ==> begins_with(
                head,
                "integrity="@ + trust + " version="@ + v@ + " encoding="@ + form + " writable_inline="@ + back,
            )
            &&& resp.recovered_from is None && resp.open_conflicts is None ==> ends_with(head, " writable_inline="@ + back)
            &&& resp.open_conflicts matches Some(n) ==> ends_with(head, " open_conflicts="@ + decimal_text(n as nat))
            &&& resp.recovered_from matches Some(rf) ==> (resp.open_conflicts is None ==> ends_with(
                head,
                " recovered_from="@ + rf.version@ + " interrupted_writer="@ + rf.interrupted_writer@,
            ))
        }),
{
    let version = match resp.version {
        Some(v) => v@,
        None => "<unverified>"@,
    };
    let back = if writable { "true"@ } else { "false"@ };
    let start = "integrity="@ + resp.integrity.name_text() + " version="@ + version + " encoding="@ + encoding.name_text();
    let base = start + " writable_inline="@ + back;
    let head = header_text(resp, encoding, writable);
    assert(head.take(base.len() as int) =~= base);
    let last = " writable_inline="@ + back;
    if resp.recovered_from is None && resp.open_conflicts is None {
        assert(head.skip(head.len() - last.len()) =~= last);
    }
    if let Some(n) = resp.open_conflicts {
        let count = " open_conflicts="@ + decimal_text(n as nat);
        assert(head.skip(head.len() - count.len()) =~= count);
    }
    if let Some(rf) = resp.recovered_from {
        let origin = " recovered_from="@ + rf.version@ + " interrupted_writer="@ + rf.interrupted_writer@;
        if resp.open_conflicts is None {
            assert(head.skip(head.len() - origin.len()) =~= origin);
        }
    }
}

/// Text is taken as it is, and base64 for what it decodes to, white space aside.
pub proof fn content_is_taken_as_it_is_marked(content: Seq<char>)
    ensures
        content_bytes(content, ContentEncoding::Utf8) == Ok::<Seq<u8>, Seq<char>>(encode_utf8(content)),
        base64_decoded(compacted(encode_utf8(content))) matches Ok(bytes) ==> content_bytes(content, ContentEncoding::Base64) == Ok::<
            Seq<u8>,
            Seq<char>,
        >(bytes),
        base64_decoded(compacted(encode_utf8(content))) is Err ==> content_bytes(content, ContentEncoding::Base64) is Err,
{
}

/// A share in per cent is written with one decimal, to the nearest one.
pub proof fn a_share_is_to_the_nearest_decimal(part: nat, whole: nat)
    requires
        whole > 0,
    ensures
        exists|p: nat|
            #[trigger] decimal_text(p / 10) + seq!['.'] + decimal_text(p % 10) + seq!['%'] == percent_text(part, whole) && 2 * (p * whole)
                <= 2 * (part * 1000) + whole && 2 * (part * 1000) <= 2 * (p * whole) + whole,
{
    reveal_strlit(".");
    reveal_strlit("%");
    assert("."@ =~= seq!['.']);
    assert("%"@ =~= seq!['%']);
    rounding_is_to_the_nearest(part * 1000, whole);
    let p = nearest_to(part * 1000, whole);
    assert(decimal_text(p / 10) + seq!['.'] + decimal_text(p % 10) + seq!['%'] == percent_text(part, whole));
}

/// A refusal of bytes that are no text names the file, what it is, and how many bytes there
/// are, and gives the advice for its class.
pub proof fn a_refusal_names_the_file_and_its_kind(n: NotAnalysable, uri: Seq<char>)
    ensures
        mentions(n.text(uri), uri),
        n.kind matches RefusalKind::Container(c) ==> mentions(n.text(uri), c.label_text()) && mentions(
            n.text(uri),
            match c.class_of() {
                Class::Document => DOCUMENT_ADVICE@,
                Class::Archive => ARCHIVE_ADVICE@,
                Class::Image => IMAGE_ADVICE@,
                Class::Database => DATABASE_ADVICE@,
            },
        ) && mentions(n.text(uri), decimal_text(n.raw as nat)) && mentions(n.text(uri), decimal_text((n.raw as nat + 2) / 3 * 4)),
        n.kind matches RefusalKind::NonUtf8Text(ev) ==> mentions(n.text(uri), ev.looks_like.label_text()),
{
    match n.kind {
        RefusalKind::NonUtf8Text(ev) => {
            let look = ev.looks_like.label_text();
            let p0 = ENCODING_A@ + uri;
            mentions_last(ENCODING_A@, uri);
            let p1 = p0 + ENCODING_B@;
            still_mentions(p0, ENCODING_B@, uri, look, look, look, look);
            mentions_last(p1, look);
            let p2 = p1 + look;
            still_mentions(p1, look, uri, look, look, look, look);
            let p3 = p2 + ENCODING_C@;
            still_mentions(p2, ENCODING_C@, uri, look, look, look, look);
            let p4 = p3 + evidence_text(ev);
            still_mentions(p3, evidence_text(ev), uri, look, look, look, look);
            still_mentions(p4, ENCODING_D@, uri, look, look, look, look);
        },
        _ => {
            let what = match n.container() {
                Some(c) => c.label_text(),
                None => UNKNOWN_FORMAT@,
            };
            let said = if n.container() is Some {
                CONTAINER_CONFABULATION@
            } else {
                UNKNOWN_CONFABULATION@
            };
            let chars = decimal_text(base64_len(n.raw as nat));
            let raw = decimal_text(n.raw as nat);
            let advice = advice_text(n.container());
            let p0 = BINARY_A@ + uri;
            mentions_last(BINARY_A@, uri);
            let p1 = p0 + BINARY_B@;
            still_mentions(p0, BINARY_B@, uri, what, chars, raw, advice);
            let p2 = p1 + what;
            still_mentions(p1, what, uri, what, chars, raw, advice);
            mentions_last(p1, what);
            let p3 = p2 + BINARY_C@;
            still_mentions(p2, BINARY_C@, uri, what, chars, raw, advice);
            let p4 = p3 + chars;
            still_mentions(p3, chars, uri, what, chars, raw, advice);
            mentions_last(p3, chars);
            let p5 = p4 + BINARY_D@;
            still_mentions(p4, BINARY_D@, uri, what, chars, raw, advice);
            let p6 = p5 + raw;
            still_mentions(p5, raw, uri, what, chars, raw, advice);
            mentions_last(p5, raw);
            let p7 = p6 + BINARY_E@;
            still_mentions(p6, BINARY_E@, uri, what, chars, raw, advice);
            let p8 = p7 + said;
            still_mentions(p7, said, uri, what, chars, raw, advice);
            let p9 = p8 + BINARY_F@;
            still_mentions(p8, BINARY_F@, uri, what, chars, raw, advice);
            let p10 = p9 + advice;
            still_mentions(p9, advice, uri, what, chars, raw, advice);
            mentions_last(p9, advice);
            still_mentions(p10, BINARY_G@, uri, what, chars, raw, advice);
        },
    }
}

proof fn mentions_last(s: Seq<char>, part: Seq<char>)
    ensures
        mentions(s + part, part),
{
    assert(s + part =~= s + part + Seq::<char>::empty());
}

proof fn mentions_grows(s: Seq<char>, t: Seq<char>, part: Seq<char>)
    ensures
        mentions(s, part) ==> mentions(s + t, part),
{
    if mentions(s, part) {
        let (a, b) = choose|a: Seq<char>, b: Seq<char>| s == #[trigger] (a + part + b);
        assert(s + t =~= a + part + (b + t));
    }
}

/// What a text mentions it still mentions when it goes on.
proof fn still_mentions(s: Seq<char>, t: Seq<char>, a: Seq<char>, b: Seq<char>, c: Seq<char>, d: Seq<char>, e: Seq<char>)
    ensures
        mentions(s, a) ==> mentions(s + t, a),
        mentions(s, b) ==> mentions(s + t, b),
        mentions(s, c) ==> mentions(s + t, c),
        mentions(s, d) ==> mentions(s + t, d),
        mentions(s, e) ==> mentions(s + t, e),
{
    mentions_grows(s, t, a);
    mentions_grows(s, t, b);
    mentions_grows(s, t, c);
    mentions_grows(s, t, d);
    mentions_grows(s, t, e);
}

/// A body in base64 comes with the remark on how to write it back, and one that is too large
/// for that with the warning not to.
pub proof fn a_remark_goes_with_what_needs_one(resp: ReadResponse, body: Seq<char>, encoding: ContentEncoding)
    ensures
        ({
            let text = envelope_text(resp, body, encoding);
            let large = encode_utf8(body).len() > 131072;
            &&& encoding == ContentEncoding::Base64 && !large ==> mentions(text, BASE64_NOTE@)
            &&& encoding == ContentEncoding::Base64 && large ==> mentions(text, LARGE_BASE64_NOTE@)
            &&& encoding == ContentEncoding::Utf8 && large ==> mentions(text, LARGE_TEXT_NOTE@)
        }),
{
    let writable = encode_utf8(body).len() <= 131072;
    let note = note_text(encoding, writable);
    let front = ENVELOPE_A@ + header_text(resp, encoding, writable) + ENVELOPE_B@;
    mentions_last(front, note);
    mentions_grows(front + note, ENVELOPE_C@, note);
    mentions_grows(front + note + ENVELOPE_C@, body, note);
    mentions_grows(front + note + ENVELOPE_C@ + body, ENVELOPE_D@, note);
}

/// A refusal goes into the audit trail under the word for its kind, and with what it is and
/// how many bytes there are.
pub proof fn a_refusal_is_audited_for_what_it_is(n: NotAnalysable)
    ensures
        n.kind is Container ==> n.reason_text() == "binary_container"@,
        n.kind is NonUtf8Text ==> n.reason_text() == "non_utf8_text"@,
        n.kind is UnknownBinary ==> n.reason_text() == "unknown_binary"@,
        n.kind matches RefusalKind::Container(c) ==> mentions(n.summary_text(), c.label_text()) && mentions(
            n.summary_text(),
            decimal_text(n.raw as nat),
        ),
        n.kind matches RefusalKind::NonUtf8Text(ev) ==> mentions(n.summary_text(), ev.looks_like.label_text()) && mentions(
            n.summary_text(),
            byte_text(ev.first_invalid_byte),
        ) && mentions(n.summary_text(), decimal_text(ev.first_invalid_offset as nat)),
        n.kind is UnknownBinary ==> mentions(n.summary_text(), decimal_text(n.raw as nat)),
{
    let t = n.summary_text();
    let none = Seq::<char>::empty();
    let raw = decimal_text(n.raw as nat);
    match n.kind {
        RefusalKind::Container(c) => {
            assert(t =~= none + c.label_text() + (" container, "@ + raw + " bytes"@));
            assert(t =~= (c.label_text() + " container, "@) + raw + " bytes"@);
        },
        RefusalKind::NonUtf8Text(ev) => {
            let look = ev.looks_like.label_text();
            let byte = byte_text(ev.first_invalid_byte);
            let at = decimal_text(ev.first_invalid_offset as nat);
            assert(t =~= "text in "@ + look + (", first invalid byte "@ + byte + " at offset "@ + at));
            assert(t =~= ("text in "@ + look + ", first invalid byte "@) + byte + (" at offset "@ + at));
            assert(t =~= ("text in "@ + look + ", first invalid byte "@ + byte + " at offset "@) + at + none);
        },
        RefusalKind::UnknownBinary => assert(t =~= "unrecognised binary, "@ + raw + " bytes"@),
    }
}

/// The finding on a text in another encoding tells the evidence by name, in the order of the
/// names.
pub proof fn a_finding_tells_the_evidence(ev: TextEvidence, raw: nat)
    ensures
        finding_facts(ev, raw).len() == 6,
        finding_facts(ev, raw).contains(("looks_like"@, ev.looks_like.code_text())),
        finding_facts(ev, raw).contains(("first_invalid_byte"@, byte_text(ev.first_invalid_byte))),
        finding_facts(ev, raw).contains(("first_invalid_offset"@, decimal_text(ev.first_invalid_offset as nat))),
        finding_facts(ev, raw).contains(("size_bytes"@, decimal_text(raw))),
        finding_facts(ev, raw).contains(("high_byte_ratio"@, percent_text(ev.high_bytes as nat, ev.len as nat))),
        ev.bom is None ==> finding_facts(ev, raw).contains(("byte_order_mark"@, "none"@)),
        ev.bom matches Some(b) ==> finding_facts(ev, raw).contains(("byte_order_mark"@, b.label_text())),
{
    let f = finding_facts(ev, raw);
    assert(f[0].0 == "byte_order_mark"@);
    assert(f[1] == ("first_invalid_byte"@, byte_text(ev.first_invalid_byte)));
    assert(f[2] == ("first_invalid_offset"@, decimal_text(ev.first_invalid_offset as nat)));
    assert(f[3] == ("high_byte_ratio"@, percent_text(ev.high_bytes as nat, ev.len as nat)));
    assert(f[4] == ("looks_like"@, ev.looks_like.code_text()));
    assert(f[5] == ("size_bytes"@, decimal_text(raw)));
}

/// The evidence is the mark where there is one, and else the first byte that is not UTF-8 and
/// where it stands.
pub proof fn evidence_is_told(ev: TextEvidence)
    ensures
        ev.bom is None ==> mentions(evidence_text(ev), byte_text(ev.first_invalid_byte)) && mentions(
            evidence_text(ev),
            decimal_text(ev.first_invalid_offset as nat),
        ),
{
    if ev.bom is None {
        let t = evidence_text(ev);
        let byte = byte_text(ev.first_invalid_byte);
        let at = decimal_text(ev.first_invalid_offset as nat);
        assert(t =~= BYTE_EVIDENCE@ + byte + (", at offset "@ + at));
        assert(t =~= (BYTE_EVIDENCE@ + byte + ", at offset "@) + at + Seq::<char>::empty());
    }
}

} // verus!
