//! What a file is, told from its bytes.
//!
//! Containers are told by their signatures and never by their names. What is
//! neither a container nor UTF-8 is looked at once more, to tell text in another
//! encoding from bytes that are no text at all.
use vstd::prelude::*;
use vstd::utf8::valid_utf8;

use crate::text::decoded;

verus! {

/// A format whose bytes are not to be read as text.
#[derive(Clone, Copy, Debug, PartialEq, Eq, Structural)]
pub enum Container {
    /// A PDF document.
    Pdf,
    /// A docx, xlsx or pptx.
    Ooxml,
    /// An odt, ods or odp.
    OpenDocument,
    /// A doc, xls or ppt.
    LegacyOffice,
    /// A zip archive.
    Zip,
    /// A gzip archive.
    Gzip,
    /// A bzip2 archive.
    Bzip2,
    /// An xz archive.
    Xz,
    /// A 7-Zip archive.
    SevenZip,
    /// A RAR archive.
    Rar,
    /// A PNG image.
    Png,
    /// A JPEG image.
    Jpeg,
    /// A GIF image.
    Gif,
    /// A TIFF image.
    Tiff,
    /// A WebP image.
    WebP,
    /// A SQLite database.
    Sqlite,
}

/// What kind of thing a container holds.
#[derive(Clone, Copy, Debug, PartialEq, Eq, Structural)]
pub enum Class {
    /// Text that can be extracted.
    Document,
    /// Other files.
    Archive,
    /// A picture.
    Image,
    /// Tables.
    Database,
}

impl Container {
    /// What the container is called.
    pub open spec fn label_text(self) -> Seq<char> {
        match self {
            Container::Pdf => "a PDF document"@,
            Container::Ooxml => "an Office document (docx/xlsx/pptx)"@,
            Container::OpenDocument => "an OpenDocument file (odt/ods/odp)"@,
            Container::LegacyOffice => "a legacy Office document (doc/xls/ppt)"@,
            Container::Zip => "a zip archive"@,
            Container::Gzip => "a gzip archive"@,
            Container::Bzip2 => "a bzip2 archive"@,
            Container::Xz => "an xz archive"@,
            Container::SevenZip => "a 7-Zip archive"@,
            Container::Rar => "a RAR archive"@,
            Container::Png => "a PNG image"@,
            Container::Jpeg => "a JPEG image"@,
            Container::Gif => "a GIF image"@,
            Container::Tiff => "a TIFF image"@,
            Container::WebP => "a WebP image"@,
            Container::Sqlite => "a SQLite database"@,
        }
    }

    /// What the container is called.
    pub fn label(self) -> (r: &'static str)
        ensures
            r@ == self.label_text(),
    {
        match self {
            Container::Pdf => "a PDF document",
            Container::Ooxml => "an Office document (docx/xlsx/pptx)",
            Container::OpenDocument => "an OpenDocument file (odt/ods/odp)",
            Container::LegacyOffice => "a legacy Office document (doc/xls/ppt)",
            Container::Zip => "a zip archive",
            Container::Gzip => "a gzip archive",
            Container::Bzip2 => "a bzip2 archive",
            Container::Xz => "an xz archive",
            Container::SevenZip => "a 7-Zip archive",
            Container::Rar => "a RAR archive",
            Container::Png => "a PNG image",
            Container::Jpeg => "a JPEG image",
            Container::Gif => "a GIF image",
            Container::Tiff => "a TIFF image",
            Container::WebP => "a WebP image",
            Container::Sqlite => "a SQLite database",
        }
    }

    /// What kind of thing the container holds.
    pub open spec fn class_of(self) -> Class {
        match self {
            Container::Pdf | Container::Ooxml | Container::OpenDocument | Container::LegacyOffice => Class::Document,
            Container::Zip | Container::Gzip | Container::Bzip2 | Container::Xz | Container::SevenZip | Container::Rar => Class::Archive,
            Container::Png | Container::Jpeg | Container::Gif | Container::Tiff | Container::WebP => Class::Image,
            Container::Sqlite => Class::Database,
        }
    }

    /// What kind of thing the container holds.
    pub fn class(self) -> (r: Class)
        ensures
            r == self.class_of(),
    {
        match self {
            Container::Pdf | Container::Ooxml | Container::OpenDocument | Container::LegacyOffice => Class::Document,
            Container::Zip | Container::Gzip | Container::Bzip2 | Container::Xz | Container::SevenZip | Container::Rar => Class::Archive,
            Container::Png | Container::Jpeg | Container::Gif | Container::Tiff | Container::WebP => Class::Image,
            Container::Sqlite => Class::Database,
        }
    }
}

/// How far into a file a PDF header may stand.
pub const PDF_HEADER_WINDOW: usize = 1024;

/// Whether some bytes begin with a signature.
pub open spec fn starts(bytes: Seq<u8>, magic: Seq<u8>) -> bool {
    magic.len() <= bytes.len() && bytes.take(magic.len() as int) == magic
}

/// Whether some bytes hold a signature at a place.
pub open spec fn holds_at(bytes: Seq<u8>, magic: Seq<u8>, at: int) -> bool {
    0 <= at && at + magic.len() <= bytes.len() && bytes.subrange(at, at + magic.len()) == magic
}

fn found_at(bytes: &[u8], magic: &[u8], at: usize) -> (r: bool)
    ensures
        r == holds_at(bytes@, magic@, at as int),
{
    if at > bytes.len() || magic.len() > bytes.len() - at {
        return false;
    }
    let len = bytes.len();
    let mut i: usize = 0;
    while i < magic.len()
        invariant
            len == bytes@.len(),
            i <= magic@.len(),
            at + magic@.len() <= len,
            forall|k: int| 0 <= k < i ==> bytes@[at + k] == magic@[k],
        decreases magic@.len() - i,
    {
        if bytes[at + i] != magic[i] {
            assert(bytes@.subrange(at as int, at + magic@.len())[i as int] != magic@[i as int]);
            return false;
        }
        i = i + 1;
    }
    assert(bytes@.subrange(at as int, at + magic@.len()) =~= magic@);
    true
}

fn begins(bytes: &[u8], magic: &[u8]) -> (r: bool)
    ensures
        r == starts(bytes@, magic@),
{
    let r = found_at(bytes, magic, 0);
    proof {
        if magic@.len() <= bytes@.len() {
            assert(bytes@.subrange(0, magic@.len() as int) =~= bytes@.take(magic@.len() as int));
        }
    }
    r
}

/// `%PDF-`
pub open spec fn pdf_magic() -> Seq<u8> {
    seq![0x25u8, 0x50, 0x44, 0x46, 0x2d]
}

/// `PK` and the mark of an entry, of an empty archive, or of a spanned one.
pub open spec fn is_zip(bytes: Seq<u8>) -> bool {
    ||| starts(bytes, seq![0x50u8, 0x4b, 0x03, 0x04])
    ||| starts(bytes, seq![0x50u8, 0x4b, 0x05, 0x06])
    ||| starts(bytes, seq![0x50u8, 0x4b, 0x07, 0x08])
}

/// `[Content_Types].xml`
pub open spec fn ooxml_name() -> Seq<u8> {
    seq![0x5bu8, 0x43, 0x6f, 0x6e, 0x74, 0x65, 0x6e, 0x74, 0x5f, 0x54, 0x79, 0x70, 0x65, 0x73, 0x5d, 0x2e, 0x78, 0x6d, 0x6c]
}

/// `mimetype`
pub open spec fn odf_name() -> Seq<u8> {
    seq![0x6du8, 0x69, 0x6d, 0x65, 0x74, 0x79, 0x70, 0x65]
}

/// The name of the first entry of a zip archive, where the bytes hold it whole:
/// its length stands at 26, and the name itself at 30.
pub open spec fn first_entry(bytes: Seq<u8>) -> Option<Seq<u8>> {
    if bytes.len() < 30 {
        None
    } else {
        let len = bytes[26] as int + 256 * bytes[27] as int;
        if 30 + len <= bytes.len() {
            Some(bytes.subrange(30, 30 + len))
        } else {
            None
        }
    }
}

/// What a zip archive is, by the name of its first entry.
pub open spec fn zip_kind(bytes: Seq<u8>) -> Container {
    match first_entry(bytes) {
        Some(name) => if name == ooxml_name() {
            Container::Ooxml
        } else if name == odf_name() {
            Container::OpenDocument
        } else {
            Container::Zip
        },
        None => Container::Zip,
    }
}

/// What a zip archive is.
pub fn zip_flavour(bytes: &[u8]) -> (r: Container)
    ensures
        r == zip_kind(bytes@),
{
    if bytes.len() < 30 {
        return Container::Zip;
    }
    let len: usize = bytes[26] as usize + 256 * (bytes[27] as usize);
    if len > bytes.len() - 30 {
        return Container::Zip;
    }
    let ooxml: [u8; 19] = [0x5b, 0x43, 0x6f, 0x6e, 0x74, 0x65, 0x6e, 0x74, 0x5f, 0x54, 0x79, 0x70, 0x65, 0x73, 0x5d, 0x2e, 0x78, 0x6d, 0x6c];
    let odf: [u8; 8] = [0x6d, 0x69, 0x6d, 0x65, 0x74, 0x79, 0x70, 0x65];
    assert(ooxml@ =~= ooxml_name());
    assert(odf@ =~= odf_name());
    if len == 19 && found_at(bytes, ooxml.as_slice(), 30) {
        return Container::Ooxml;
    }
    if len == 8 && found_at(bytes, odf.as_slice(), 30) {
        return Container::OpenDocument;
    }
    Container::Zip
}

/// Whether some bytes are a PDF: the header at the very start, or, in bytes that
/// are no text, within the window in which readers accept it.
pub open spec fn is_pdf(bytes: Seq<u8>) -> bool {
    ||| starts(bytes, pdf_magic())
    ||| !valid_utf8(bytes) && exists|at: int| #[trigger] holds_at(bytes, pdf_magic(), at) && at + 5 <= PDF_HEADER_WINDOW
}

/// Whether some bytes are a PDF.
pub fn starts_with_pdf(bytes: &[u8]) -> (r: bool)
    ensures
        r == is_pdf(bytes@),
{
    let magic: [u8; 5] = [0x25, 0x50, 0x44, 0x46, 0x2d];
    assert(magic@ =~= pdf_magic());
    if begins(bytes, magic.as_slice()) {
        return true;
    }
    if decoded(bytes).is_ok() {
        return false;
    }
    let mut at: usize = 0;
    while at + 5 <= PDF_HEADER_WINDOW && at < bytes.len()
        invariant
            magic@ == pdf_magic(),
            !valid_utf8(bytes@),
            at <= bytes@.len(),
            at <= PDF_HEADER_WINDOW,
            forall|k: int| 0 <= k < at ==> !#[trigger] holds_at(bytes@, pdf_magic(), k),
        decreases bytes@.len() - at,
    {
        if found_at(bytes, magic.as_slice(), at) {
            return true;
        }
        at = at + 1;
    }
    false
}

/// `BZh` and a digit for the size of a block, then the mark of a block, or that of
/// the end where there is none. The three letters alone would take prose for an
/// archive.
pub open spec fn is_bzip2(bytes: Seq<u8>) -> bool {
    &&& starts(bytes, seq![0x42u8, 0x5a, 0x68])
    &&& bytes.len() > 3 && 0x31 <= bytes[3] <= 0x39
    &&& holds_at(bytes, seq![0x31u8, 0x41, 0x59, 0x26, 0x53, 0x59], 4) || holds_at(
        bytes,
        seq![0x17u8, 0x72, 0x45, 0x38, 0x50, 0x90],
        4,
    )
}

fn begins_bzip2(bytes: &[u8]) -> (r: bool)
    ensures
        r == is_bzip2(bytes@),
{
    let head: [u8; 3] = [0x42, 0x5a, 0x68];
    let block: [u8; 6] = [0x31, 0x41, 0x59, 0x26, 0x53, 0x59];
    let end: [u8; 6] = [0x17, 0x72, 0x45, 0x38, 0x50, 0x90];
    assert(head@ =~= seq![0x42u8, 0x5a, 0x68]);
    assert(block@ =~= seq![0x31u8, 0x41, 0x59, 0x26, 0x53, 0x59]);
    assert(end@ =~= seq![0x17u8, 0x72, 0x45, 0x38, 0x50, 0x90]);
    begins(bytes, head.as_slice()) && bytes.len() > 3 && 0x31 <= bytes[3] && bytes[3] <= 0x39 && (found_at(
        bytes,
        block.as_slice(),
        4,
    ) || found_at(bytes, end.as_slice(), 4))
}

/// What container some bytes are, by the signatures in the order in which they
/// are tried.
pub open spec fn identified(bytes: Seq<u8>) -> Option<Container> {
    if bytes.len() < 4 {
        None
    } else if is_zip(bytes) {
        Some(zip_kind(bytes))
    } else if is_pdf(bytes) {
        Some(Container::Pdf)
    } else if starts(bytes, seq![0xd0u8, 0xcf, 0x11, 0xe0, 0xa1, 0xb1, 0x1a, 0xe1]) {
        Some(Container::LegacyOffice)
    } else if starts(bytes, seq![0x89u8, 0x50, 0x4e, 0x47, 0x0d, 0x0a, 0x1a, 0x0a]) {
        Some(Container::Png)
    } else if starts(bytes, seq![0x53u8, 0x51, 0x4c, 0x69, 0x74, 0x65, 0x20, 0x66, 0x6f, 0x72, 0x6d, 0x61, 0x74, 0x20, 0x33, 0x00]) {
        Some(Container::Sqlite)
    } else if starts(bytes, seq![0xfdu8, 0x37, 0x7a, 0x58, 0x5a, 0x00]) {
        Some(Container::Xz)
    } else if starts(bytes, seq![0x37u8, 0x7a, 0xbc, 0xaf, 0x27, 0x1c]) {
        Some(Container::SevenZip)
    } else if starts(bytes, seq![0x52u8, 0x61, 0x72, 0x21, 0x1a, 0x07]) {
        Some(Container::Rar)
    } else if starts(bytes, seq![0x47u8, 0x49, 0x46, 0x38, 0x37, 0x61]) || starts(bytes, seq![0x47u8, 0x49, 0x46, 0x38, 0x39, 0x61]) {
        Some(Container::Gif)
    } else if starts(bytes, seq![0x52u8, 0x49, 0x46, 0x46]) && holds_at(bytes, seq![0x57u8, 0x45, 0x42, 0x50], 8) {
        Some(Container::WebP)
    } else if starts(bytes, seq![0xffu8, 0xd8, 0xff]) {
        Some(Container::Jpeg)
    } else if starts(bytes, seq![0x49u8, 0x49, 0x2a, 0x00]) || starts(bytes, seq![0x4du8, 0x4d, 0x00, 0x2a]) {
        Some(Container::Tiff)
    } else if is_bzip2(bytes) {
        Some(Container::Bzip2)
    } else if starts(bytes, seq![0x1fu8, 0x8b]) {
        Some(Container::Gzip)
    } else {
        None
    }
}

fn begins_zip(bytes: &[u8]) -> (r: bool)
    ensures
        r == is_zip(bytes@),
{
    let entry: [u8; 4] = [0x50, 0x4b, 0x03, 0x04];
    let empty: [u8; 4] = [0x50, 0x4b, 0x05, 0x06];
    let spanned: [u8; 4] = [0x50, 0x4b, 0x07, 0x08];
    assert(entry@ =~= seq![0x50u8, 0x4b, 0x03, 0x04]);
    assert(empty@ =~= seq![0x50u8, 0x4b, 0x05, 0x06]);
    assert(spanned@ =~= seq![0x50u8, 0x4b, 0x07, 0x08]);
    begins(bytes, entry.as_slice()) || begins(bytes, empty.as_slice()) || begins(bytes, spanned.as_slice())
}

/// What container some bytes are.
pub fn identify(bytes: &[u8]) -> (r: Option<Container>)
    ensures
        r == identified(bytes@),
{
    if bytes.len() < 4 {
        return None;
    }
    if begins_zip(bytes) {
        return Some(zip_flavour(bytes));
    }
    if starts_with_pdf(bytes) {
        return Some(Container::Pdf);
    }
    let ole: [u8; 8] = [0xd0, 0xcf, 0x11, 0xe0, 0xa1, 0xb1, 0x1a, 0xe1];
    assert(ole@ =~= seq![0xd0u8, 0xcf, 0x11, 0xe0, 0xa1, 0xb1, 0x1a, 0xe1]);
    if begins(bytes, ole.as_slice()) {
        return Some(Container::LegacyOffice);
    }
    let png: [u8; 8] = [0x89, 0x50, 0x4e, 0x47, 0x0d, 0x0a, 0x1a, 0x0a];
    assert(png@ =~= seq![0x89u8, 0x50, 0x4e, 0x47, 0x0d, 0x0a, 0x1a, 0x0a]);
    if begins(bytes, png.as_slice()) {
        return Some(Container::Png);
    }
    let sqlite: [u8; 16] = [0x53, 0x51, 0x4c, 0x69, 0x74, 0x65, 0x20, 0x66, 0x6f, 0x72, 0x6d, 0x61, 0x74, 0x20, 0x33, 0x00];
    assert(sqlite@ =~= seq![0x53u8, 0x51, 0x4c, 0x69, 0x74, 0x65, 0x20, 0x66, 0x6f, 0x72, 0x6d, 0x61, 0x74, 0x20, 0x33, 0x00]);
    if begins(bytes, sqlite.as_slice()) {
        return Some(Container::Sqlite);
    }
    let xz: [u8; 6] = [0xfd, 0x37, 0x7a, 0x58, 0x5a, 0x00];
    assert(xz@ =~= seq![0xfdu8, 0x37, 0x7a, 0x58, 0x5a, 0x00]);
    if begins(bytes, xz.as_slice()) {
        return Some(Container::Xz);
    }
    let seven: [u8; 6] = [0x37, 0x7a, 0xbc, 0xaf, 0x27, 0x1c];
    assert(seven@ =~= seq![0x37u8, 0x7a, 0xbc, 0xaf, 0x27, 0x1c]);
    if begins(bytes, seven.as_slice()) {
        return Some(Container::SevenZip);
    }
    let rar: [u8; 6] = [0x52, 0x61, 0x72, 0x21, 0x1a, 0x07];
    assert(rar@ =~= seq![0x52u8, 0x61, 0x72, 0x21, 0x1a, 0x07]);
    if begins(bytes, rar.as_slice()) {
        return Some(Container::Rar);
    }
    let gif87: [u8; 6] = [0x47, 0x49, 0x46, 0x38, 0x37, 0x61];
    let gif89: [u8; 6] = [0x47, 0x49, 0x46, 0x38, 0x39, 0x61];
    assert(gif87@ =~= seq![0x47u8, 0x49, 0x46, 0x38, 0x37, 0x61]);
    assert(gif89@ =~= seq![0x47u8, 0x49, 0x46, 0x38, 0x39, 0x61]);
    if begins(bytes, gif87.as_slice()) || begins(bytes, gif89.as_slice()) {
        return Some(Container::Gif);
    }
    let riff: [u8; 4] = [0x52, 0x49, 0x46, 0x46];
    let webp: [u8; 4] = [0x57, 0x45, 0x42, 0x50];
    assert(riff@ =~= seq![0x52u8, 0x49, 0x46, 0x46]);
    assert(webp@ =~= seq![0x57u8, 0x45, 0x42, 0x50]);
    if begins(bytes, riff.as_slice()) && found_at(bytes, webp.as_slice(), 8) {
        return Some(Container::WebP);
    }
    let jpeg: [u8; 3] = [0xff, 0xd8, 0xff];
    assert(jpeg@ =~= seq![0xffu8, 0xd8, 0xff]);
    if begins(bytes, jpeg.as_slice()) {
        return Some(Container::Jpeg);
    }
    let tiff_le: [u8; 4] = [0x49, 0x49, 0x2a, 0x00];
    let tiff_be: [u8; 4] = [0x4d, 0x4d, 0x00, 0x2a];
    assert(tiff_le@ =~= seq![0x49u8, 0x49, 0x2a, 0x00]);
    assert(tiff_be@ =~= seq![0x4du8, 0x4d, 0x00, 0x2a]);
    if begins(bytes, tiff_le.as_slice()) || begins(bytes, tiff_be.as_slice()) {
        return Some(Container::Tiff);
    }
    if begins_bzip2(bytes) {
        return Some(Container::Bzip2);
    }
    let gz: [u8; 2] = [0x1f, 0x8b];
    assert(gz@ =~= seq![0x1fu8, 0x8b]);
    if begins(bytes, gz.as_slice()) {
        return Some(Container::Gzip);
    }
    None
}

/// A byte-order mark.
#[derive(Clone, Copy, Debug, PartialEq, Eq, Structural)]
pub enum Bom {
    /// That of UTF-8.
    Utf8,
    /// That of UTF-16, little-endian.
    Utf16Le,
    /// That of UTF-16, big-endian.
    Utf16Be,
    /// That of UTF-32, little-endian.
    Utf32Le,
    /// That of UTF-32, big-endian.
    Utf32Be,
}

/// The mark that some bytes begin with. The mark of UTF-32LE begins with that of
/// UTF-16LE, so the longer one goes first.
pub open spec fn bom_of(bytes: Seq<u8>) -> Option<Bom> {
    if starts(bytes, seq![0xffu8, 0xfe, 0x00, 0x00]) {
        Some(Bom::Utf32Le)
    } else if starts(bytes, seq![0x00u8, 0x00, 0xfe, 0xff]) {
        Some(Bom::Utf32Be)
    } else if starts(bytes, seq![0xefu8, 0xbb, 0xbf]) {
        Some(Bom::Utf8)
    } else if starts(bytes, seq![0xffu8, 0xfe]) {
        Some(Bom::Utf16Le)
    } else if starts(bytes, seq![0xfeu8, 0xff]) {
        Some(Bom::Utf16Be)
    } else {
        None
    }
}

impl Bom {
    /// What the mark is called.
    pub open spec fn label_text(self) -> Seq<char> {
        match self {
            Bom::Utf8 => "utf-8"@,
            Bom::Utf16Le => "utf-16le"@,
            Bom::Utf16Be => "utf-16be"@,
            Bom::Utf32Le => "utf-32le"@,
            Bom::Utf32Be => "utf-32be"@,
        }
    }

    /// What the mark is called.
    pub fn label(self) -> (r: &'static str)
        ensures
            r@ == self.label_text(),
    {
        match self {
            Bom::Utf8 => "utf-8",
            Bom::Utf16Le => "utf-16le",
            Bom::Utf16Be => "utf-16be",
            Bom::Utf32Le => "utf-32le",
            Bom::Utf32Be => "utf-32be",
        }
    }

    /// The mark that some bytes begin with.
    pub fn detect(bytes: &[u8]) -> (r: Option<Bom>)
        ensures
            r == bom_of(bytes@),
    {
        let u32le: [u8; 4] = [0xff, 0xfe, 0x00, 0x00];
        let u32be: [u8; 4] = [0x00, 0x00, 0xfe, 0xff];
        let u8: [u8; 3] = [0xef, 0xbb, 0xbf];
        let u16le: [u8; 2] = [0xff, 0xfe];
        let u16be: [u8; 2] = [0xfe, 0xff];
        assert(u32le@ =~= seq![0xffu8, 0xfe, 0x00, 0x00]);
        assert(u32be@ =~= seq![0x00u8, 0x00, 0xfe, 0xff]);
        assert(u8@ =~= seq![0xefu8, 0xbb, 0xbf]);
        assert(u16le@ =~= seq![0xffu8, 0xfe]);
        assert(u16be@ =~= seq![0xfeu8, 0xff]);
        if begins(bytes, u32le.as_slice()) {
            Some(Bom::Utf32Le)
        } else if begins(bytes, u32be.as_slice()) {
            Some(Bom::Utf32Be)
        } else if begins(bytes, u8.as_slice()) {
            Some(Bom::Utf8)
        } else if begins(bytes, u16le.as_slice()) {
            Some(Bom::Utf16Le)
        } else if begins(bytes, u16be.as_slice()) {
            Some(Bom::Utf16Be)
        } else {
            None
        }
    }
}

/// An encoding that text on a share may be in.
#[derive(Clone, Copy, Debug, PartialEq, Eq, Structural)]
pub enum TextEncoding {
    /// UTF-16, little-endian.
    Utf16Le,
    /// UTF-16, big-endian.
    Utf16Be,
    /// UTF-32, little-endian.
    Utf32Le,
    /// UTF-32, big-endian.
    Utf32Be,
    /// One of the single-byte code pages.
    SingleByte,
    /// Marked as UTF-8, and not UTF-8.
    Utf8Mislabelled,
    /// Text, and no telling which.
    Unknown,
}

impl TextEncoding {
    /// What the encoding is called in a sentence.
    pub open spec fn label_text(self) -> Seq<char> {
        match self {
            TextEncoding::Utf16Le => "UTF-16, little-endian"@,
            TextEncoding::Utf16Be => "UTF-16, big-endian"@,
            TextEncoding::Utf32Le => "UTF-32, little-endian"@,
            TextEncoding::Utf32Be => "UTF-32, big-endian"@,
            TextEncoding::SingleByte => "a single-byte code page (Windows-1252 or a relative, which cannot be told apart from the bytes alone)"@,
            TextEncoding::Utf8Mislabelled => "something other than the UTF-8 its byte-order mark claims"@,
            TextEncoding::Unknown => "an encoding that cannot be identified from its bytes"@,
        }
    }

    /// What the encoding is called in a sentence.
    pub fn label(self) -> (r: &'static str)
        ensures
            r@ == self.label_text(),
    {
        match self {
            TextEncoding::Utf16Le => "UTF-16, little-endian",
            TextEncoding::Utf16Be => "UTF-16, big-endian",
            TextEncoding::Utf32Le => "UTF-32, little-endian",
            TextEncoding::Utf32Be => "UTF-32, big-endian",
            TextEncoding::SingleByte => "a single-byte code page (Windows-1252 or a relative, which cannot be told apart from the bytes alone)",
            TextEncoding::Utf8Mislabelled => "something other than the UTF-8 its byte-order mark claims",
            TextEncoding::Unknown => "an encoding that cannot be identified from its bytes",
        }
    }

    /// What the encoding is called in a record.
    pub open spec fn code_text(self) -> Seq<char> {
        match self {
            TextEncoding::Utf16Le => "utf-16le"@,
            TextEncoding::Utf16Be => "utf-16be"@,
            TextEncoding::Utf32Le => "utf-32le"@,
            TextEncoding::Utf32Be => "utf-32be"@,
            TextEncoding::SingleByte => "single-byte-code-page"@,
            TextEncoding::Utf8Mislabelled => "utf-8-bom-but-not-utf-8"@,
            TextEncoding::Unknown => "unknown"@,
        }
    }

    /// What the encoding is called in a record.
    pub fn code(self) -> (r: &'static str)
        ensures
            r@ == self.code_text(),
    {
        match self {
            TextEncoding::Utf16Le => "utf-16le",
            TextEncoding::Utf16Be => "utf-16be",
            TextEncoding::Utf32Le => "utf-32le",
            TextEncoding::Utf32Be => "utf-32be",
            TextEncoding::SingleByte => "single-byte-code-page",
            TextEncoding::Utf8Mislabelled => "utf-8-bom-but-not-utf-8",
            TextEncoding::Unknown => "unknown",
        }
    }
}

/// What speaks for some bytes being text in another encoding.
#[derive(Clone, Copy, Debug, PartialEq, Eq, Structural)]
pub struct TextEvidence {
    /// The encoding they look to be in.
    pub looks_like: TextEncoding,
    /// The mark they begin with.
    pub bom: Option<Bom>,
    /// Where they stop being UTF-8.
    pub first_invalid_offset: usize,
    /// The byte at that place.
    pub first_invalid_byte: u8,
    /// How many of them are above the ASCII range.
    pub high_bytes: usize,
    /// How many there are.
    pub len: usize,
}

/// What bytes are that are neither a container nor UTF-8.
#[derive(Clone, Copy, Debug, PartialEq, Eq, Structural)]
pub enum Unrecognised {
    /// Text in another encoding.
    NonUtf8Text(TextEvidence),
    /// No text.
    Binary,
}

/// The control characters that text has: tab, line feed, form feed, carriage
/// return.
pub open spec fn is_layout(b: u8) -> bool {
    b == 0x09 || b == 0x0a || b == 0x0c || b == 0x0d
}

/// The control characters that text does not have.
pub open spec fn is_stray(b: u8) -> bool {
    (b < 0x20 && !is_layout(b)) || b == 0x7f
}

/// Whether text has this control character.
pub fn is_allowed_control(b: u8) -> (r: bool)
    ensures
        r == is_layout(b),
{
    b == 0x09 || b == 0x0a || b == 0x0c || b == 0x0d
}

/// Whether this is a control character that text does not have.
pub fn is_stray_control(b: u8) -> (r: bool)
    ensures
        r == is_stray(b),
{
    (b < 0x20 && !is_allowed_control(b)) || b == 0x7f
}

/// The counts by which text is told from other bytes.
pub struct Tally {
    /// Bytes above the ASCII range.
    pub high: nat,
    /// Zero bytes at even places.
    pub nul_even: nat,
    /// Zero bytes at odd places.
    pub nul_odd: nat,
    /// Control characters that text does not have, zero bytes apart.
    pub strays: nat,
}

/// The counts of some bytes.
pub open spec fn tally(bytes: Seq<u8>) -> Tally
    decreases bytes.len(),
{
    if bytes.len() == 0 {
        Tally { high: 0, nul_even: 0, nul_odd: 0, strays: 0 }
    } else {
        let t = tally(bytes.drop_last());
        let b = bytes.last();
        let even = (bytes.len() - 1) % 2 == 0;
        Tally {
            high: t.high + if b >= 0x80 { 1nat } else { 0nat },
            nul_even: t.nul_even + if b == 0 && even { 1nat } else { 0nat },
            nul_odd: t.nul_odd + if b == 0 && !even { 1nat } else { 0nat },
            strays: t.strays + if b != 0 && is_stray(b) { 1nat } else { 0nat },
        }
    }
}

impl Tally {
    /// How many zero bytes there are.
    pub open spec fn nuls(self) -> nat {
        self.nul_even + self.nul_odd
    }

    /// The zero bytes at the places, even or odd, that have more of them.
    pub open spec fn dominant(self) -> nat {
        if self.nul_even >= self.nul_odd {
            self.nul_even
        } else {
            self.nul_odd
        }
    }

    /// Whether `len` bytes with these counts look like UTF-16 without a mark: a
    /// quarter of them zero, nine in ten of those at even or at odd places, and
    /// of the others fewer than one in twenty a control character.
    pub open spec fn is_utf16(self, len: nat) -> bool {
        let other = len - self.nuls();
        &&& self.nuls() > 0
        &&& other > 0
        &&& 4 * self.nuls() >= len
        &&& 10 * self.dominant() >= 9 * self.nuls()
        &&& 20 * self.strays < other
    }

    /// Whether `len` bytes with these counts look like a single-byte code page:
    /// fewer than three in ten above the ASCII range.
    pub open spec fn is_sparse(self, len: nat) -> bool {
        10 * self.high < 3 * len
    }
}

/// The encoding that some bytes look to be in, and the mark that says so; none
/// where they do not look like text.
pub open spec fn encoding_of(bytes: Seq<u8>) -> Option<(TextEncoding, Option<Bom>)> {
    let t = tally(bytes);
    match bom_of(bytes) {
        Some(bom) => Some(
            (
                match bom {
                    Bom::Utf8 => TextEncoding::Utf8Mislabelled,
                    Bom::Utf16Le => TextEncoding::Utf16Le,
                    Bom::Utf16Be => TextEncoding::Utf16Be,
                    Bom::Utf32Le => TextEncoding::Utf32Le,
                    Bom::Utf32Be => TextEncoding::Utf32Be,
                },
                Some(bom),
            ),
        ),
        None => if t.is_utf16(bytes.len()) {
            Some((if t.nul_odd >= t.nul_even { TextEncoding::Utf16Le } else { TextEncoding::Utf16Be }, None))
        } else if t.nuls() == 0 && t.strays == 0 && bytes.len() > 0 {
            Some((if t.is_sparse(bytes.len()) { TextEncoding::SingleByte } else { TextEncoding::Unknown }, None))
        } else {
            None
        },
    }
}

/// What some bytes are that stop being UTF-8 at `first_invalid`.
pub open spec fn unrecognised(bytes: Seq<u8>, first_invalid: usize) -> Unrecognised {
    match encoding_of(bytes) {
        Some((looks_like, bom)) => Unrecognised::NonUtf8Text(
            TextEvidence {
                looks_like,
                bom,
                first_invalid_offset: first_invalid,
                first_invalid_byte: if first_invalid < bytes.len() { bytes[first_invalid as int] } else { 0 },
                high_bytes: tally(bytes).high as usize,
                len: bytes.len() as usize,
            },
        ),
        None => Unrecognised::Binary,
    }
}

proof fn tally_bounds(bytes: Seq<u8>)
    ensures
        tally(bytes).high <= bytes.len(),
        tally(bytes).nuls() + tally(bytes).strays <= bytes.len(),
    decreases bytes.len(),
{
    if bytes.len() > 0 {
        tally_bounds(bytes.drop_last());
    }
}

/// What some bytes are that stop being UTF-8 at `first_invalid_offset`: a mark
/// decides, then the zero bytes of UTF-16, then the absence of anything that
/// text does not have.
pub fn classify_unrecognised(bytes: &[u8], first_invalid_offset: usize) -> (r: Unrecognised)
    ensures
        r == unrecognised(bytes@, first_invalid_offset),
{
    let len = bytes.len();
    let first_invalid_byte: u8 = if first_invalid_offset < len { bytes[first_invalid_offset] } else { 0 };
    let mut high: usize = 0;
    let mut nul_even: usize = 0;
    let mut nul_odd: usize = 0;
    let mut strays: usize = 0;
    let mut i: usize = 0;
    while i < len
        invariant
            len == bytes@.len(),
            i <= len,
            high == tally(bytes@.take(i as int)).high,
            nul_even == tally(bytes@.take(i as int)).nul_even,
            nul_odd == tally(bytes@.take(i as int)).nul_odd,
            strays == tally(bytes@.take(i as int)).strays,
        decreases len - i,
    {
        let b = bytes[i];
        proof {
            assert(bytes@.take(i + 1).drop_last() =~= bytes@.take(i as int));
            tally_bounds(bytes@.take(i as int));
        }
        if b >= 0x80 {
            high = high + 1;
        }
        if b == 0 {
            if i % 2 == 0 {
                nul_even = nul_even + 1;
            } else {
                nul_odd = nul_odd + 1;
            }
        } else if is_stray_control(b) {
            strays = strays + 1;
        }
        i = i + 1;
    }
    proof {
        assert(bytes@.take(len as int) =~= bytes@);
        tally_bounds(bytes@);
    }
    let nuls: usize = nul_even + nul_odd;
    let other: usize = len - nuls;
    let dominant: usize = if nul_even >= nul_odd { nul_even } else { nul_odd };
    let utf16 = nuls > 0 && other > 0 && 4 * (nuls as u128) >= len as u128 && 10 * (dominant as u128) >= 9 * (nuls as u128)
        && 20 * (strays as u128) < other as u128;
    let sparse = 10 * (high as u128) < 3 * (len as u128);
    let (looks_like, bom) = match Bom::detect(bytes) {
        Some(bom) => {
            let enc = match bom {
                Bom::Utf8 => TextEncoding::Utf8Mislabelled,
                Bom::Utf16Le => TextEncoding::Utf16Le,
                Bom::Utf16Be => TextEncoding::Utf16Be,
                Bom::Utf32Le => TextEncoding::Utf32Le,
                Bom::Utf32Be => TextEncoding::Utf32Be,
            };
            (enc, Some(bom))
        },
        None => if utf16 {
            (if nul_odd >= nul_even { TextEncoding::Utf16Le } else { TextEncoding::Utf16Be }, None)
        } else if nuls == 0 && strays == 0 && len > 0 {
            (if sparse { TextEncoding::SingleByte } else { TextEncoding::Unknown }, None)
        } else {
            return Unrecognised::Binary;
        },
    };
    Unrecognised::NonUtf8Text(
        TextEvidence { looks_like, bom, first_invalid_offset, first_invalid_byte, high_bytes: high, len },
    )
}

/// Fewer than four bytes are too few to judge.
pub proof fn too_short_to_judge(bytes: Seq<u8>)
    requires
        bytes.len() < 4,
    ensures
        identified(bytes) is None,
{
}

/// Text that mentions a PDF header is no PDF: in valid UTF-8 the header counts
/// at the very start only.
pub proof fn text_is_pdf_only_at_its_start(bytes: Seq<u8>)
    requires
        valid_utf8(bytes),
        identified(bytes) == Some(Container::Pdf),
    ensures
        starts(bytes, pdf_magic()),
{
}

/// A byte-order mark settles the encoding, whatever the bytes behind it.
pub proof fn a_mark_decides(bytes: Seq<u8>, first_invalid: usize)
    requires
        bom_of(bytes) is Some,
    ensures
        unrecognised(bytes, first_invalid) matches Unrecognised::NonUtf8Text(ev) && ev.bom == bom_of(bytes),
{
}

/// Whether some bytes hold others at a place, one by one.
pub open spec fn has_bytes(bytes: Seq<u8>, at: int, those: Seq<u8>) -> bool {
    &&& 0 <= at
    &&& at + those.len() <= bytes.len()
    &&& forall|k: int| 0 <= k < those.len() ==> bytes[at + k] == #[trigger] those[k]
}

proof fn holding_is_having(bytes: Seq<u8>, those: Seq<u8>, at: int)
    ensures
        holds_at(bytes, those, at) <==> has_bytes(bytes, at, those),
        at == 0 ==> (starts(bytes, those) <==> has_bytes(bytes, 0, those)),
{
    if 0 <= at && at + those.len() <= bytes.len() {
        let part = bytes.subrange(at, at + those.len());
        if holds_at(bytes, those, at) {
            assert forall|k: int| 0 <= k < those.len() implies bytes[at + k] == #[trigger] those[k] by {
                assert(part[k] == bytes[at + k]);
            }
        }
        if has_bytes(bytes, at, those) {
            assert(part =~= those);
        }
        if at == 0 {
            assert(part =~= bytes.take(those.len() as int));
        }
    }
}

/// Whether the five bytes of `%PDF-` stand at a place.
pub open spec fn pdf_header_at(bytes: Seq<u8>, at: int) -> bool {
    &&& 0 <= at
    &&& at + 5 <= bytes.len()
    &&& bytes[at] == 0x25
    &&& bytes[at + 1] == 0x50
    &&& bytes[at + 2] == 0x44
    &&& bytes[at + 3] == 0x46
    &&& bytes[at + 4] == 0x2d
}

proof fn pdf_header_is_five_bytes(bytes: Seq<u8>, at: int)
    ensures
        holds_at(bytes, pdf_magic(), at) <==> pdf_header_at(bytes, at),
        at == 0 ==> (starts(bytes, pdf_magic()) <==> pdf_header_at(bytes, 0)),
{
    let m = pdf_magic();
    holding_is_having(bytes, m, at);
    if has_bytes(bytes, at, m) {
        assert(bytes[at + 0] == m[0] && bytes[at + 1] == m[1] && bytes[at + 2] == m[2] && bytes[at + 3] == m[3] && bytes[at + 4] == m[4]);
    }
}

/// Nothing is taken for a PDF that does not hold `%PDF-`: at its start, or within
/// its first 1024 bytes where it is not UTF-8. So readable text that begins
/// otherwise is never refused as one.
pub proof fn a_pdf_holds_its_header(bytes: Seq<u8>)
    requires
        identified(bytes) == Some(Container::Pdf),
    ensures
        exists|at: int| #[trigger] pdf_header_at(bytes, at) && at + 5 <= 1024 && (at == 0 || !valid_utf8(bytes)),
{
    pdf_header_is_five_bytes(bytes, 0);
    if pdf_header_at(bytes, 0) {
        assert(pdf_header_at(bytes, 0) && 0 + 5 <= 1024);
    } else {
        let at = choose|at: int| #[trigger] holds_at(bytes, pdf_magic(), at) && at + 5 <= PDF_HEADER_WINDOW;
        pdf_header_is_five_bytes(bytes, at);
    }
}

/// Readable text whose first five bytes are not `%PDF-` is no PDF, whatever it
/// says further on.
pub proof fn readable_text_is_no_pdf(bytes: Seq<u8>)
    requires
        valid_utf8(bytes),
        !pdf_header_at(bytes, 0),
    ensures
        identified(bytes) != Some(Container::Pdf),
{
    pdf_header_is_five_bytes(bytes, 0);
}

/// A PDF is known by its header: at the start always, and anywhere within the
/// first 1024 bytes in what is not UTF-8, unless it is a zip archive.
pub proof fn a_pdf_header_is_recognised(bytes: Seq<u8>, at: int)
    requires
        pdf_header_at(bytes, at),
        at == 0 || (!valid_utf8(bytes) && at + 5 <= 1024 && bytes[0] != 0x50),
    ensures
        identified(bytes) == Some(Container::Pdf),
{
    pdf_header_is_five_bytes(bytes, at);
    pdf_header_is_five_bytes(bytes, 0);
    holding_is_having(bytes, seq![0x50u8, 0x4b, 0x03, 0x04], 0);
    holding_is_having(bytes, seq![0x50u8, 0x4b, 0x05, 0x06], 0);
    holding_is_having(bytes, seq![0x50u8, 0x4b, 0x07, 0x08], 0);
    if is_zip(bytes) {
        assert(bytes[0int + 0] == seq![0x50u8, 0x4b, 0x03, 0x04][0] || bytes[0int + 0] == seq![0x50u8, 0x4b, 0x05, 0x06][0] || bytes[0int + 0]
            == seq![0x50u8, 0x4b, 0x07, 0x08][0]);
    }
}

/// The bytes by which a container is known.
pub open spec fn bears_signature(bytes: Seq<u8>, c: Container) -> bool {
    let zip = bytes.len() >= 4 && bytes[0] == 0x50 && bytes[1] == 0x4b && ((bytes[2] == 3 && bytes[3] == 4) || (bytes[2] == 5
        && bytes[3] == 6) || (bytes[2] == 7 && bytes[3] == 8));
    match c {
        Container::Pdf => exists|at: int| #[trigger] pdf_header_at(bytes, at),
        Container::Zip => zip,
        Container::Ooxml => zip && bytes.len() >= 49 && bytes[26] == 19 && bytes[27] == 0 && has_bytes(
            bytes,
            30,
            seq![0x5bu8, 0x43, 0x6f, 0x6e, 0x74, 0x65, 0x6e, 0x74, 0x5f, 0x54, 0x79, 0x70, 0x65, 0x73, 0x5d, 0x2e, 0x78, 0x6d, 0x6c],
        ),
        Container::OpenDocument => zip && bytes.len() >= 38 && bytes[26] == 8 && bytes[27] == 0 && has_bytes(
            bytes,
            30,
            seq![0x6du8, 0x69, 0x6d, 0x65, 0x74, 0x79, 0x70, 0x65],
        ),
        Container::LegacyOffice => has_bytes(bytes, 0, seq![0xd0u8, 0xcf, 0x11, 0xe0, 0xa1, 0xb1, 0x1a, 0xe1]),
        Container::Png => has_bytes(bytes, 0, seq![0x89u8, 0x50, 0x4e, 0x47, 0x0d, 0x0a, 0x1a, 0x0a]),
        Container::Sqlite => has_bytes(
            bytes,
            0,
            seq![0x53u8, 0x51, 0x4c, 0x69, 0x74, 0x65, 0x20, 0x66, 0x6f, 0x72, 0x6d, 0x61, 0x74, 0x20, 0x33, 0x00],
        ),
        Container::Xz => has_bytes(bytes, 0, seq![0xfdu8, 0x37, 0x7a, 0x58, 0x5a, 0x00]),
        Container::SevenZip => has_bytes(bytes, 0, seq![0x37u8, 0x7a, 0xbc, 0xaf, 0x27, 0x1c]),
        Container::Rar => has_bytes(bytes, 0, seq![0x52u8, 0x61, 0x72, 0x21, 0x1a, 0x07]),
        Container::Gif => bytes.len() >= 6 && bytes[0] == 0x47 && bytes[1] == 0x49 && bytes[2] == 0x46 && bytes[3] == 0x38 && (bytes[4]
            == 0x37 || bytes[4] == 0x39) && bytes[5] == 0x61,
        Container::WebP => has_bytes(bytes, 0, seq![0x52u8, 0x49, 0x46, 0x46]) && has_bytes(bytes, 8, seq![0x57u8, 0x45, 0x42, 0x50]),
        Container::Jpeg => has_bytes(bytes, 0, seq![0xffu8, 0xd8, 0xff]),
        Container::Tiff => has_bytes(bytes, 0, seq![0x49u8, 0x49, 0x2a, 0x00]) || has_bytes(bytes, 0, seq![0x4du8, 0x4d, 0x00, 0x2a]),
        Container::Bzip2 => has_bytes(bytes, 0, seq![0x42u8, 0x5a, 0x68]) && bytes.len() >= 10 && 0x31 <= bytes[3] <= 0x39 && (has_bytes(
            bytes,
            4,
            seq![0x31u8, 0x41, 0x59, 0x26, 0x53, 0x59],
        ) || has_bytes(bytes, 4, seq![0x17u8, 0x72, 0x45, 0x38, 0x50, 0x90])),
        Container::Gzip => bytes.len() >= 2 && bytes[0] == 0x1f && bytes[1] == 0x8b,
    }
}

proof fn first_bytes(bytes: Seq<u8>, m: Seq<u8>)
    ensures
        starts(bytes, m) <==> has_bytes(bytes, 0, m),
        has_bytes(bytes, 0, m) && m.len() > 0 ==> bytes[0] == m[0],
        has_bytes(bytes, 0, m) && m.len() > 1 ==> bytes[1] == m[1],
        has_bytes(bytes, 0, m) && m.len() > 2 ==> bytes[2] == m[2],
        has_bytes(bytes, 0, m) && m.len() > 3 ==> bytes[3] == m[3],
        has_bytes(bytes, 0, m) && m.len() > 4 ==> bytes[4] == m[4],
        has_bytes(bytes, 0, m) && m.len() > 5 ==> bytes[5] == m[5],
{
    holding_is_having(bytes, m, 0);
    if has_bytes(bytes, 0, m) {
        assert(m.len() > 0 ==> bytes[0int + 0] == m[0]);
        assert(m.len() > 1 ==> bytes[0int + 1] == m[1]);
        assert(m.len() > 2 ==> bytes[0int + 2] == m[2]);
        assert(m.len() > 3 ==> bytes[0int + 3] == m[3]);
        assert(m.len() > 4 ==> bytes[0int + 4] == m[4]);
        assert(m.len() > 5 ==> bytes[0int + 5] == m[5]);
    }
}

/// What each test on the first bytes comes to.
proof fn signatures_one_by_one(bytes: Seq<u8>)
    ensures
        is_zip(bytes) <==> bears_signature(bytes, Container::Zip),
        starts(bytes, seq![0xd0u8, 0xcf, 0x11, 0xe0, 0xa1, 0xb1, 0x1a, 0xe1]) <==> bears_signature(bytes, Container::LegacyOffice),
        starts(bytes, seq![0x89u8, 0x50, 0x4e, 0x47, 0x0d, 0x0a, 0x1a, 0x0a]) <==> bears_signature(bytes, Container::Png),
        starts(bytes, seq![0x53u8, 0x51, 0x4c, 0x69, 0x74, 0x65, 0x20, 0x66, 0x6f, 0x72, 0x6d, 0x61, 0x74, 0x20, 0x33, 0x00])
            <==> bears_signature(bytes, Container::Sqlite),
        starts(bytes, seq![0xfdu8, 0x37, 0x7a, 0x58, 0x5a, 0x00]) <==> bears_signature(bytes, Container::Xz),
        starts(bytes, seq![0x37u8, 0x7a, 0xbc, 0xaf, 0x27, 0x1c]) <==> bears_signature(bytes, Container::SevenZip),
        starts(bytes, seq![0x52u8, 0x61, 0x72, 0x21, 0x1a, 0x07]) <==> bears_signature(bytes, Container::Rar),
        starts(bytes, seq![0x47u8, 0x49, 0x46, 0x38, 0x37, 0x61]) || starts(bytes, seq![0x47u8, 0x49, 0x46, 0x38, 0x39, 0x61])
            <==> bears_signature(bytes, Container::Gif),
        starts(bytes, seq![0x52u8, 0x49, 0x46, 0x46]) && holds_at(bytes, seq![0x57u8, 0x45, 0x42, 0x50], 8)
            <==> bears_signature(bytes, Container::WebP),
        starts(bytes, seq![0xffu8, 0xd8, 0xff]) <==> bears_signature(bytes, Container::Jpeg),
        starts(bytes, seq![0x49u8, 0x49, 0x2a, 0x00]) || starts(bytes, seq![0x4du8, 0x4d, 0x00, 0x2a]) <==> bears_signature(
            bytes,
            Container::Tiff,
        ),
        is_bzip2(bytes) <==> bears_signature(bytes, Container::Bzip2),
        starts(bytes, seq![0x1fu8, 0x8b]) <==> bears_signature(bytes, Container::Gzip),
{
    let z1 = seq![0x50u8, 0x4b, 0x03, 0x04];
    let z2 = seq![0x50u8, 0x4b, 0x05, 0x06];
    let z3 = seq![0x50u8, 0x4b, 0x07, 0x08];
    first_bytes(bytes, z1);
    first_bytes(bytes, z2);
    first_bytes(bytes, z3);
    first_bytes(bytes, seq![0xd0u8, 0xcf, 0x11, 0xe0, 0xa1, 0xb1, 0x1a, 0xe1]);
    first_bytes(bytes, seq![0x89u8, 0x50, 0x4e, 0x47, 0x0d, 0x0a, 0x1a, 0x0a]);
    first_bytes(bytes, seq![0x53u8, 0x51, 0x4c, 0x69, 0x74, 0x65, 0x20, 0x66, 0x6f, 0x72, 0x6d, 0x61, 0x74, 0x20, 0x33, 0x00]);
    first_bytes(bytes, seq![0xfdu8, 0x37, 0x7a, 0x58, 0x5a, 0x00]);
    first_bytes(bytes, seq![0x37u8, 0x7a, 0xbc, 0xaf, 0x27, 0x1c]);
    first_bytes(bytes, seq![0x52u8, 0x61, 0x72, 0x21, 0x1a, 0x07]);
    first_bytes(bytes, seq![0x47u8, 0x49, 0x46, 0x38, 0x37, 0x61]);
    first_bytes(bytes, seq![0x47u8, 0x49, 0x46, 0x38, 0x39, 0x61]);
    first_bytes(bytes, seq![0x52u8, 0x49, 0x46, 0x46]);
    holding_is_having(bytes, seq![0x57u8, 0x45, 0x42, 0x50], 8);
    first_bytes(bytes, seq![0xffu8, 0xd8, 0xff]);
    first_bytes(bytes, seq![0x49u8, 0x49, 0x2a, 0x00]);
    first_bytes(bytes, seq![0x4du8, 0x4d, 0x00, 0x2a]);
    first_bytes(bytes, seq![0x42u8, 0x5a, 0x68]);
    holding_is_having(bytes, seq![0x31u8, 0x41, 0x59, 0x26, 0x53, 0x59], 4);
    holding_is_having(bytes, seq![0x17u8, 0x72, 0x45, 0x38, 0x50, 0x90], 4);
    first_bytes(bytes, seq![0x1fu8, 0x8b]);
}

/// What some bytes are taken for, they bear the signature of: nothing is refused
/// as a container that does not begin like one.
pub proof fn a_container_bears_its_signature(bytes: Seq<u8>)
    ensures
        identified(bytes) matches Some(c) ==> bytes.len() >= 4 && bears_signature(bytes, c),
{
    signatures_one_by_one(bytes);
    if identified(bytes) == Some(Container::Pdf) {
        a_pdf_holds_its_header(bytes);
    }
    let ooxml = seq![0x5bu8, 0x43, 0x6f, 0x6e, 0x74, 0x65, 0x6e, 0x74, 0x5f, 0x54, 0x79, 0x70, 0x65, 0x73, 0x5d, 0x2e, 0x78, 0x6d, 0x6c];
    let odf = seq![0x6du8, 0x69, 0x6d, 0x65, 0x74, 0x79, 0x70, 0x65];
    holding_is_having(bytes, ooxml, 30);
    holding_is_having(bytes, odf, 30);
    if let Some(name) = first_entry(bytes) {
        assert(ooxml.len() == 19 && odf.len() == 8);
    }
}

/// A signature is recognised, whatever follows it, in bytes that hold no PDF
/// header where one would count; and what a zip archive is goes by the name of its
/// first entry.
pub proof fn signatures_are_recognised(bytes: Seq<u8>, c: Container)
    requires
        bytes.len() >= 4,
        bears_signature(bytes, c),
        c != Container::Pdf,
        c != Container::Zip,
        c == Container::Ooxml || c == Container::OpenDocument || forall|at: int| at + 5 <= 1024 ==> !#[trigger] pdf_header_at(bytes, at),
    ensures
        identified(bytes) == Some(c),
{
    signatures_one_by_one(bytes);
    let ooxml = seq![0x5bu8, 0x43, 0x6f, 0x6e, 0x74, 0x65, 0x6e, 0x74, 0x5f, 0x54, 0x79, 0x70, 0x65, 0x73, 0x5d, 0x2e, 0x78, 0x6d, 0x6c];
    let odf = seq![0x6du8, 0x69, 0x6d, 0x65, 0x74, 0x79, 0x70, 0x65];
    holding_is_having(bytes, ooxml, 30);
    holding_is_having(bytes, odf, 30);
    if c == Container::Ooxml {
        assert(first_entry(bytes) == Some(bytes.subrange(30, 49)));
    } else if c == Container::OpenDocument {
        assert(first_entry(bytes) == Some(bytes.subrange(30, 38)));
        assert(bytes.subrange(30, 38).len() != ooxml_name().len());
    } else {
        pdf_header_is_five_bytes(bytes, 0);
        assert(!pdf_header_at(bytes, 0));
        if is_pdf(bytes) {
            let at = choose|at: int| #[trigger] holds_at(bytes, pdf_magic(), at) && at + 5 <= PDF_HEADER_WINDOW;
            pdf_header_is_five_bytes(bytes, at);
        }
        first_bytes(bytes, seq![0xd0u8, 0xcf, 0x11, 0xe0, 0xa1, 0xb1, 0x1a, 0xe1]);
        first_bytes(bytes, seq![0x89u8, 0x50, 0x4e, 0x47, 0x0d, 0x0a, 0x1a, 0x0a]);
        first_bytes(bytes, seq![0x53u8, 0x51, 0x4c, 0x69, 0x74, 0x65, 0x20, 0x66, 0x6f, 0x72, 0x6d, 0x61, 0x74, 0x20, 0x33, 0x00]);
        first_bytes(bytes, seq![0xfdu8, 0x37, 0x7a, 0x58, 0x5a, 0x00]);
        first_bytes(bytes, seq![0x37u8, 0x7a, 0xbc, 0xaf, 0x27, 0x1c]);
        first_bytes(bytes, seq![0x52u8, 0x61, 0x72, 0x21, 0x1a, 0x07]);
        first_bytes(bytes, seq![0x52u8, 0x49, 0x46, 0x46]);
        first_bytes(bytes, seq![0xffu8, 0xd8, 0xff]);
        first_bytes(bytes, seq![0x49u8, 0x49, 0x2a, 0x00]);
        first_bytes(bytes, seq![0x4du8, 0x4d, 0x00, 0x2a]);
        first_bytes(bytes, seq![0x42u8, 0x5a, 0x68]);
    }
}

/// An archive that begins like a zip is one of the three kinds of it, and a plain
/// one unless its first entry says otherwise.
pub proof fn a_zip_is_a_zip(bytes: Seq<u8>)
    requires
        bears_signature(bytes, Container::Zip),
    ensures
        identified(bytes) == Some(Container::Zip) || identified(bytes) == Some(Container::Ooxml) || identified(bytes) == Some(
            Container::OpenDocument,
        ),
        !bears_signature(bytes, Container::Ooxml) && !bears_signature(bytes, Container::OpenDocument) ==> identified(bytes) == Some(
            Container::Zip,
        ),
{
    signatures_one_by_one(bytes);
    a_container_bears_its_signature(bytes);
}

/// Plain ASCII text is no container, unless it begins with the letters of one
/// that has letters alone for its signature.
pub proof fn ascii_text_is_no_container(bytes: Seq<u8>)
    requires
        forall|i: int| 0 <= i < bytes.len() ==> 0x20 <= #[trigger] bytes[i] <= 0x7e || bytes[i] == 0x09 || bytes[i] == 0x0a || bytes[i]
            == 0x0d,
        forall|at: int| at + 5 <= 1024 ==> !#[trigger] pdf_header_at(bytes, at),
        !bears_signature(bytes, Container::Gif),
        !bears_signature(bytes, Container::WebP),
        !bears_signature(bytes, Container::Bzip2),
    ensures
        identified(bytes) is None,
{
    a_container_bears_its_signature(bytes);
    if let Some(c) = identified(bytes) {
        if c == Container::Pdf {
            a_pdf_holds_its_header(bytes);
        }
        let sqlite = seq![0x53u8, 0x51, 0x4c, 0x69, 0x74, 0x65, 0x20, 0x66, 0x6f, 0x72, 0x6d, 0x61, 0x74, 0x20, 0x33, 0x00];
        if c == Container::Sqlite {
            assert(bytes[0int + 15] == sqlite[15]);
        }
        first_bytes(bytes, seq![0xd0u8, 0xcf, 0x11, 0xe0, 0xa1, 0xb1, 0x1a, 0xe1]);
        first_bytes(bytes, seq![0x89u8, 0x50, 0x4e, 0x47, 0x0d, 0x0a, 0x1a, 0x0a]);
        first_bytes(bytes, seq![0xfdu8, 0x37, 0x7a, 0x58, 0x5a, 0x00]);
        first_bytes(bytes, seq![0x37u8, 0x7a, 0xbc, 0xaf, 0x27, 0x1c]);
        first_bytes(bytes, seq![0x52u8, 0x61, 0x72, 0x21, 0x1a, 0x07]);
        first_bytes(bytes, seq![0xffu8, 0xd8, 0xff]);
        first_bytes(bytes, seq![0x49u8, 0x49, 0x2a, 0x00]);
        first_bytes(bytes, seq![0x4du8, 0x4d, 0x00, 0x2a]);
        assert(0x09 <= bytes[0] <= 0x7e && bytes[2] >= 0x09 && bytes[3] >= 0x09);
        if c == Container::Rar {
            assert(bytes[5] >= 0x09);
        }
    }
}

/// How many of some bytes are of a kind, by their place and value.
pub open spec fn how_many(bytes: Seq<u8>, kind: spec_fn(int, u8) -> bool) -> nat
    decreases bytes.len(),
{
    if bytes.len() == 0 {
        0
    } else {
        how_many(bytes.drop_last(), kind) + if kind(bytes.len() - 1, bytes.last()) {
            1nat
        } else {
            0nat
        }
    }
}

/// How many zero bytes stand at places of one parity.
pub open spec fn zeros(bytes: Seq<u8>, parity: int) -> nat {
    how_many(bytes, |i: int, b: u8| b == 0 && i % 2 == parity)
}

/// How many control characters there are that text does not have, zero bytes
/// apart.
pub open spec fn controls(bytes: Seq<u8>) -> nat {
    how_many(bytes, |i: int, b: u8| (0 < b < 0x20 && b != 0x09 && b != 0x0a && b != 0x0c && b != 0x0d) || b == 0x7f)
}

/// How many bytes are above the ASCII range.
pub open spec fn above_ascii(bytes: Seq<u8>) -> nat {
    how_many(bytes, |i: int, b: u8| b >= 0x80)
}

proof fn tally_counts(bytes: Seq<u8>)
    ensures
        tally(bytes).high == above_ascii(bytes),
        tally(bytes).nul_even == zeros(bytes, 0),
        tally(bytes).nul_odd == zeros(bytes, 1),
        tally(bytes).strays == controls(bytes),
    decreases bytes.len(),
{
    if bytes.len() > 0 {
        tally_counts(bytes.drop_last());
    }
}

/// Whether some bytes begin with a byte-order mark.
pub open spec fn is_marked(bytes: Seq<u8>) -> bool {
    ||| bytes.len() >= 2 && bytes[0] == 0xff && bytes[1] == 0xfe
    ||| bytes.len() >= 2 && bytes[0] == 0xfe && bytes[1] == 0xff
    ||| bytes.len() >= 3 && bytes[0] == 0xef && bytes[1] == 0xbb && bytes[2] == 0xbf
    ||| bytes.len() >= 4 && bytes[0] == 0 && bytes[1] == 0 && bytes[2] == 0xfe && bytes[3] == 0xff
}

/// A byte-order mark is known by its bytes, the longer one of two that begin alike
/// first; there is none where the bytes begin otherwise.
pub proof fn marks_are_told_by_their_bytes(bytes: Seq<u8>)
    ensures
        ({
            let le = bytes.len() >= 2 && bytes[0] == 0xff && bytes[1] == 0xfe;
            let wide = bytes.len() >= 4 && bytes[2] == 0 && bytes[3] == 0;
            &&& bom_of(bytes) is Some <==> is_marked(bytes)
            &&& bom_of(bytes) == Some(Bom::Utf32Le) <==> le && wide
            &&& bom_of(bytes) == Some(Bom::Utf16Le) <==> le && !wide
            &&& bom_of(bytes) == Some(Bom::Utf16Be) <==> bytes.len() >= 2 && bytes[0] == 0xfe && bytes[1] == 0xff
            &&& bom_of(bytes) == Some(Bom::Utf8) <==> bytes.len() >= 3 && bytes[0] == 0xef && bytes[1] == 0xbb && bytes[2] == 0xbf
            &&& bom_of(bytes) == Some(Bom::Utf32Be) <==> bytes.len() >= 4 && bytes[0] == 0 && bytes[1] == 0 && bytes[2] == 0xfe
                && bytes[3] == 0xff
        }),
{
    first_bytes(bytes, seq![0xffu8, 0xfe, 0x00, 0x00]);
    first_bytes(bytes, seq![0x00u8, 0x00, 0xfe, 0xff]);
    first_bytes(bytes, seq![0xefu8, 0xbb, 0xbf]);
    first_bytes(bytes, seq![0xffu8, 0xfe]);
    first_bytes(bytes, seq![0xfeu8, 0xff]);
}

/// A mark is believed about the encoding, except that of UTF-8 on what is not
/// UTF-8; and the evidence tells where the bytes stop being UTF-8, by which byte,
/// and how many there are and how many above the ASCII range.
pub proof fn evidence_is_of_the_bytes(bytes: Seq<u8>, first_invalid: usize, ev: TextEvidence)
    requires
        bytes.len() <= usize::MAX,
        first_invalid < bytes.len(),
        unrecognised(bytes, first_invalid) == Unrecognised::NonUtf8Text(ev),
    ensures
        ev.first_invalid_offset == first_invalid,
        ev.first_invalid_byte == bytes[first_invalid as int],
        ev.len == bytes.len(),
        ev.high_bytes == above_ascii(bytes),
        ev.bom == bom_of(bytes),
        ev.bom == Some(Bom::Utf8) ==> ev.looks_like == TextEncoding::Utf8Mislabelled,
        ev.bom == Some(Bom::Utf16Le) ==> ev.looks_like == TextEncoding::Utf16Le,
        ev.bom == Some(Bom::Utf16Be) ==> ev.looks_like == TextEncoding::Utf16Be,
        ev.bom == Some(Bom::Utf32Le) ==> ev.looks_like == TextEncoding::Utf32Le,
        ev.bom == Some(Bom::Utf32Be) ==> ev.looks_like == TextEncoding::Utf32Be,
{
    tally_counts(bytes);
    tally_bounds(bytes);
}

proof fn none_counted(bytes: Seq<u8>, kind: spec_fn(int, u8) -> bool)
    ensures
        how_many(bytes, kind) == 0 <==> forall|i: int| 0 <= i < bytes.len() ==> !kind(i, #[trigger] bytes[i]),
        how_many(bytes, kind) <= bytes.len(),
    decreases bytes.len(),
{
    if bytes.len() > 0 {
        let d = bytes.drop_last();
        none_counted(d, kind);
        if how_many(bytes, kind) == 0 {
            assert forall|i: int| 0 <= i < bytes.len() implies !kind(i, #[trigger] bytes[i]) by {
                if i < d.len() {
                    assert(d[i] == bytes[i]);
                }
            }
        }
        if forall|i: int| 0 <= i < bytes.len() ==> !kind(i, #[trigger] bytes[i]) {
            assert forall|i: int| 0 <= i < d.len() implies !kind(i, #[trigger] d[i]) by {
                assert(d[i] == bytes[i]);
            }
            assert(!kind(bytes.len() - 1, bytes[bytes.len() - 1]));
        }
    }
}

/// Bytes without a zero or another control character that text does not have are
/// told as text: in a code page where fewer than three in ten are above the ASCII
/// range, and in an unknown encoding otherwise.
pub proof fn printable_bytes_are_text(bytes: Seq<u8>, first_invalid: usize)
    requires
        bytes.len() > 0,
        !is_marked(bytes),
        forall|i: int| 0 <= i < bytes.len() ==> (#[trigger] bytes[i] >= 0x20 && bytes[i] != 0x7f) || bytes[i] == 0x09 || bytes[i] == 0x0a
            || bytes[i] == 0x0c || bytes[i] == 0x0d,
    ensures
        unrecognised(bytes, first_invalid) matches Unrecognised::NonUtf8Text(ev) && ev.bom is None && ev.looks_like == (if 10
            * above_ascii(bytes) < 3 * bytes.len() {
            TextEncoding::SingleByte
        } else {
            TextEncoding::Unknown
        }),
{
    marks_are_told_by_their_bytes(bytes);
    tally_counts(bytes);
    none_counted(bytes, |i: int, b: u8| b == 0 && i % 2 == 0);
    none_counted(bytes, |i: int, b: u8| b == 0 && i % 2 == 1);
    none_counted(bytes, |i: int, b: u8| (0 < b < 0x20 && b != 0x09 && b != 0x0a && b != 0x0c && b != 0x0d) || b == 0x7f);
}

/// One control character that text does not have makes unmarked bytes without
/// zeros no text.
pub proof fn a_control_character_makes_it_binary(bytes: Seq<u8>, first_invalid: usize, at: int)
    requires
        !is_marked(bytes),
        0 <= at < bytes.len(),
        (0 < bytes[at] < 0x20 && bytes[at] != 0x09 && bytes[at] != 0x0a && bytes[at] != 0x0c && bytes[at] != 0x0d) || bytes[at] == 0x7f,
        forall|i: int| 0 <= i < bytes.len() ==> #[trigger] bytes[i] != 0,
    ensures
        unrecognised(bytes, first_invalid) is Binary,
{
    marks_are_told_by_their_bytes(bytes);
    tally_counts(bytes);
    none_counted(bytes, |i: int, b: u8| b == 0 && i % 2 == 0);
    none_counted(bytes, |i: int, b: u8| b == 0 && i % 2 == 1);
    none_counted(bytes, |i: int, b: u8| (0 < b < 0x20 && b != 0x09 && b != 0x0a && b != 0x0c && b != 0x0d) || b == 0x7f);
}

/// Unmarked bytes with zeros among them are text only as UTF-16: a quarter of them
/// zero, nine in ten of the zeros at even places or at odd ones, and fewer than
/// one in twenty of the rest a control character. Which of the two places has more
/// tells the byte order.
pub proof fn zeros_mean_utf16_or_binary(bytes: Seq<u8>, first_invalid: usize)
    requires
        !is_marked(bytes),
        zeros(bytes, 0) + zeros(bytes, 1) > 0,
    ensures
        ({
            let even = zeros(bytes, 0);
            let odd = zeros(bytes, 1);
            let rest = bytes.len() - even - odd;
            let wide = 4 * (even + odd) >= bytes.len() && (10 * even >= 9 * (even + odd) || 10 * odd >= 9 * (even + odd)) && 20
                * controls(bytes) < rest;
            match unrecognised(bytes, first_invalid) {
                Unrecognised::NonUtf8Text(ev) => wide && ev.bom is None && ev.looks_like == (if odd >= even {
                    TextEncoding::Utf16Le
                } else {
                    TextEncoding::Utf16Be
                }),
                Unrecognised::Binary => !wide,
            }
        }),
{
    marks_are_told_by_their_bytes(bytes);
    tally_counts(bytes);
    tally_bounds(bytes);
}

proof fn wide_counts(bytes: Seq<u8>, zero_at: int)
    requires
        zero_at == 0 || zero_at == 1,
        forall|i: int| 0 <= i < bytes.len() ==> if i % 2 == zero_at {
            #[trigger] bytes[i] == 0
        } else {
            0x20 <= bytes[i] <= 0x7e || bytes[i] == 0x0a || bytes[i] == 0x0d || bytes[i] == 0x09
        },
    ensures
        zeros(bytes, zero_at) == (bytes.len() + 1 - zero_at) / 2,
        zeros(bytes, 1 - zero_at) == 0,
        controls(bytes) == 0,
    decreases bytes.len(),
{
    if bytes.len() > 0 {
        let d = bytes.drop_last();
        assert forall|i: int| 0 <= i < d.len() implies if i % 2 == zero_at {
            #[trigger] d[i] == 0
        } else {
            0x20 <= d[i] <= 0x7e || d[i] == 0x0a || d[i] == 0x0d || d[i] == 0x09
        } by {
            assert(d[i] == bytes[i]);
        }
        wide_counts(d, zero_at);
        assert(bytes[bytes.len() - 1] == bytes.last());
    }
}

/// ASCII text in UTF-16 without a mark is told as that, in its byte order.
pub proof fn ascii_in_utf16_is_told(bytes: Seq<u8>, zero_at: int, first_invalid: usize)
    requires
        bytes.len() >= 2,
        bytes.len() % 2 == 0,
        zero_at == 0 || zero_at == 1,
        forall|i: int| 0 <= i < bytes.len() ==> if i % 2 == zero_at {
            #[trigger] bytes[i] == 0
        } else {
            0x20 <= bytes[i] <= 0x7e || bytes[i] == 0x0a || bytes[i] == 0x0d || bytes[i] == 0x09
        },
    ensures
        unrecognised(bytes, first_invalid) matches Unrecognised::NonUtf8Text(ev) && ev.looks_like == (if zero_at == 1 {
            TextEncoding::Utf16Le
        } else {
            TextEncoding::Utf16Be
        }),
{
    wide_counts(bytes, zero_at);
    assert(bytes[0] <= 0x7e && bytes[1] <= 0x7e && (bytes[0] != 0 || bytes[1] != 0));
    assert(!is_marked(bytes));
    zeros_mean_utf16_or_binary(bytes, first_invalid);
}

/// What a container holds: documents hold text that can be extracted, archives other files,
/// images a picture, and databases tables.
pub proof fn containers_are_of_their_class(c: Container)
    ensures
        c.class_of() == Class::Document <==> c == Container::Pdf || c == Container::Ooxml || c == Container::OpenDocument || c
            == Container::LegacyOffice,
        c.class_of() == Class::Image <==> c == Container::Png || c == Container::Jpeg || c == Container::Gif || c == Container::Tiff || c
            == Container::WebP,
        c.class_of() == Class::Database <==> c == Container::Sqlite,
{
}

/// Each container is called by its own name.
pub proof fn containers_are_called_by_their_names(c: Container)
    ensures
        c == Container::Pdf ==> c.label_text() == "a PDF document"@,
        c == Container::Ooxml ==> c.label_text() == "an Office document (docx/xlsx/pptx)"@,
        c == Container::OpenDocument ==> c.label_text() == "an OpenDocument file (odt/ods/odp)"@,
        c == Container::LegacyOffice ==> c.label_text() == "a legacy Office document (doc/xls/ppt)"@,
        c == Container::Zip ==> c.label_text() == "a zip archive"@,
        c == Container::Gzip ==> c.label_text() == "a gzip archive"@,
        c == Container::Bzip2 ==> c.label_text() == "a bzip2 archive"@,
        c == Container::Xz ==> c.label_text() == "an xz archive"@,
        c == Container::SevenZip ==> c.label_text() == "a 7-Zip archive"@,
        c == Container::Rar ==> c.label_text() == "a RAR archive"@,
        c == Container::Png ==> c.label_text() == "a PNG image"@,
        c == Container::Jpeg ==> c.label_text() == "a JPEG image"@,
        c == Container::Gif ==> c.label_text() == "a GIF image"@,
        c == Container::Tiff ==> c.label_text() == "a TIFF image"@,
        c == Container::WebP ==> c.label_text() == "a WebP image"@,
        c == Container::Sqlite ==> c.label_text() == "a SQLite database"@,
{
}

/// An encoding goes into a record under its own word.
pub proof fn encodings_are_recorded_by_their_words(e: TextEncoding)
    ensures
        e == TextEncoding::Utf16Le ==> e.code_text() == "utf-16le"@,
        e == TextEncoding::Utf16Be ==> e.code_text() == "utf-16be"@,
        e == TextEncoding::Utf32Le ==> e.code_text() == "utf-32le"@,
        e == TextEncoding::Utf32Be ==> e.code_text() == "utf-32be"@,
        e == TextEncoding::SingleByte ==> e.code_text() == "single-byte-code-page"@,
        e == TextEncoding::Utf8Mislabelled ==> e.code_text() == "utf-8-bom-but-not-utf-8"@,
        e == TextEncoding::Unknown ==> e.code_text() == "unknown"@,
{
}

} // verus!
