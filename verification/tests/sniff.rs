use chapr_endpoint::sniff::{
    classify_unrecognised, identify, is_allowed_control, is_stray_control, starts_with_pdf, zip_flavour, Bom, Class,
    Container, TextEncoding, TextEvidence, Unrecognised, PDF_HEADER_WINDOW,
};

fn zip_with_first_entry(name: &[u8]) -> Vec<u8> {
    let mut v = vec![0u8; 30];
    v[..4].copy_from_slice(b"PK\x03\x04");
    let len = u16::try_from(name.len()).unwrap().to_le_bytes();
    v[26] = len[0];
    v[27] = len[1];
    v.extend_from_slice(name);
    v
}

#[test]
fn identifies_a_pdf_at_offset_zero() {
    assert_eq!(identify(b"%PDF-1.7\n1 0 obj"), Some(Container::Pdf));
}

#[test]
fn identifies_a_pdf_behind_a_preamble() {
    let mut v = vec![b'\n'; 200];
    v.extend_from_slice(b"%PDF-1.4\nstream\n");
    v.extend_from_slice(&[0xFF, 0xFE, 0x00, 0x80]);
    assert_eq!(identify(&v), Some(Container::Pdf));
}

#[test]
fn a_pdf_marker_past_the_window_is_not_a_pdf() {
    let mut v = vec![0xFFu8; PDF_HEADER_WINDOW + 64];
    v.extend_from_slice(b"%PDF-1.4");
    assert_eq!(identify(&v), None);
}

#[test]
fn a_pdf_marker_that_just_fits_the_window_is_a_pdf() {
    let mut v = vec![0xFFu8; PDF_HEADER_WINDOW - 5];
    v.extend_from_slice(b"%PDF-1.4");
    assert!(starts_with_pdf(&v));
    v.insert(0, 0xFF);
    assert!(!starts_with_pdf(&v));
}

#[test]
fn readable_prose_discussing_the_pdf_header_is_still_served() {
    let prose = b"The %PDF- header identifies the format; see section 4.";
    assert!(std::str::from_utf8(prose).is_ok(), "fixture must be valid UTF-8");
    assert_eq!(identify(prose), None);
}

#[test]
fn a_valid_utf8_pdf_at_offset_zero_is_still_refused() {
    let uncompressed = b"%PDF-1.4\n1 0 obj\n<< /Type /Catalog >>\nendobj\n";
    assert!(
        std::str::from_utf8(uncompressed).is_ok(),
        "an uncompressed PDF can be entirely ASCII — that is the point"
    );
    assert_eq!(identify(uncompressed), Some(Container::Pdf));
}

#[test]
fn tells_ooxml_from_a_plain_zip() {
    assert_eq!(identify(&zip_with_first_entry(b"[Content_Types].xml")), Some(Container::Ooxml));
    assert_eq!(identify(&zip_with_first_entry(b"mimetype")), Some(Container::OpenDocument));
    assert_eq!(identify(&zip_with_first_entry(b"readme.txt")), Some(Container::Zip));
    assert_eq!(zip_flavour(&zip_with_first_entry(b"mimetypes")), Container::Zip);
}

#[test]
fn a_truncated_zip_header_degrades_instead_of_panicking() {
    assert_eq!(identify(b"PK\x03\x04short"), Some(Container::Zip));
    let mut lying = zip_with_first_entry(b"x");
    lying[26] = 0x0F;
    lying[27] = 0x27;
    assert_eq!(identify(&lying), Some(Container::Zip));
}

#[test]
fn identifies_the_long_unambiguous_signatures() {
    assert_eq!(identify(b"\x89PNG\r\n\x1A\n....."), Some(Container::Png));
    assert_eq!(identify(b"\xFF\xD8\xFF\xE0junk"), Some(Container::Jpeg));
    assert_eq!(identify(b"GIF89a..."), Some(Container::Gif));
    assert_eq!(identify(b"SQLite format 3\0rest"), Some(Container::Sqlite));
    assert_eq!(identify(b"\xD0\xCF\x11\xE0\xA1\xB1\x1A\xE1rest"), Some(Container::LegacyOffice));
    assert_eq!(identify(b"\x1F\x8B\x08\x00"), Some(Container::Gzip));
    assert_eq!(identify(b"RIFF\x00\x00\x00\x00WEBPVP8 "), Some(Container::WebP));
}

#[test]
fn identifies_the_remaining_signatures() {
    assert_eq!(identify(b"GIF87a..."), Some(Container::Gif));
    assert_eq!(identify(b"\xFD7zXZ\x00rest"), Some(Container::Xz));
    assert_eq!(identify(b"7z\xBC\xAF\x27\x1Crest"), Some(Container::SevenZip));
    assert_eq!(identify(b"Rar!\x1A\x07\x00"), Some(Container::Rar));
    assert_eq!(identify(b"II*\0rest"), Some(Container::Tiff));
    assert_eq!(identify(b"MM\0*rest"), Some(Container::Tiff));
    assert_eq!(identify(b"BZh91AY&SY\x00"), Some(Container::Bzip2));
    assert_eq!(identify(b"BZh1\x17\x72\x45\x38\x50\x90\0\0\0\0"), Some(Container::Bzip2));
    assert_eq!(identify(b"PK\x05\x06\0\0"), Some(Container::Zip));
    assert_eq!(identify(b"PK\x07\x08\0\0"), Some(Container::Zip));
    assert_eq!(identify(b"RIFF\x00\x00\x00\x00WAVE"), None);
}

#[test]
fn two_letter_bitmap_magic_is_deliberately_not_matched() {
    assert_eq!(identify(b"BMW annual report 2026"), None);
}

#[test]
fn plain_text_and_markup_are_not_containers() {
    assert_eq!(identify(b"# A markdown heading\n\nSome prose."), None);
    assert_eq!(identify(b"<?xml version=\"1.0\"?><root/>"), None);
    assert_eq!(identify(b"name,amount\nacme,100\n"), None);
    assert_eq!(identify(b"{\"key\": \"value\"}"), None);
}

#[test]
fn too_short_to_judge_is_not_a_container() {
    assert_eq!(identify(b""), None);
    assert_eq!(identify(b"PK"), None);
}

#[test]
fn every_container_has_a_label_and_a_class() {
    let all = [
        Container::Pdf,
        Container::Ooxml,
        Container::OpenDocument,
        Container::LegacyOffice,
        Container::Zip,
        Container::Gzip,
        Container::Bzip2,
        Container::Xz,
        Container::SevenZip,
        Container::Rar,
        Container::Png,
        Container::Jpeg,
        Container::Gif,
        Container::Tiff,
        Container::WebP,
        Container::Sqlite,
    ];
    for c in all {
        assert!(!c.label().is_empty(), "{c:?} has no label");
        assert!(c.label().starts_with('a'), "{c:?} label must read as a noun phrase");
        let _ = c.class();
    }
    assert_eq!(Container::Rar.class(), Class::Archive);
    assert_eq!(Container::LegacyOffice.class(), Class::Document);
    assert_eq!(Container::Tiff.class(), Class::Image);
    assert_eq!(Container::Sqlite.class(), Class::Database);
}

fn classify(bytes: &[u8]) -> Unrecognised {
    let off = std::str::from_utf8(bytes).expect_err("fixture must not be valid UTF-8").valid_up_to();
    classify_unrecognised(bytes, off)
}

fn text(bytes: &[u8]) -> TextEvidence {
    match classify(bytes) {
        Unrecognised::NonUtf8Text(e) => e,
        Unrecognised::Binary => panic!("expected text, got Binary"),
    }
}

fn cp1252_danish() -> Vec<u8> {
    let mut v = b"Tilbud til ".to_vec();
    v.push(0xE6);
    v.extend_from_slice(b"ble A/S\r\nPris: 100 kr\r\nSagsbeh: S");
    v.push(0xF8);
    v.extend_from_slice(b"ren ");
    v.push(0xC5);
    v.extend_from_slice(b"strup\r\n");
    v
}

fn utf16(s: &str, little_endian: bool, bom: bool) -> Vec<u8> {
    let mut v = Vec::new();
    if bom {
        v.extend_from_slice(if little_endian { &[0xFF, 0xFE] } else { &[0xFE, 0xFF] });
    }
    for u in s.encode_utf16() {
        v.extend_from_slice(&if little_endian { u.to_le_bytes() } else { u.to_be_bytes() });
    }
    v
}

#[test]
fn danish_text_in_a_code_page_is_text_not_binary() {
    let ev = text(&cp1252_danish());
    assert_eq!(ev.looks_like, TextEncoding::SingleByte);
    assert_eq!(ev.bom, None);
    assert_eq!(ev.first_invalid_offset, 11);
    assert_eq!(ev.first_invalid_byte, 0xE6);
    let high_byte_ratio = ev.high_bytes as f32 / ev.len as f32;
    assert!(high_byte_ratio < 0.1, "prose is mostly ASCII: {high_byte_ratio}");
}

#[test]
fn a_code_page_csv_is_text() {
    let mut v = b"navn;beloeb\nF".to_vec();
    v.push(0xE5);
    v.extend_from_slice(b"rup;100\n");
    assert_eq!(text(&v).looks_like, TextEncoding::SingleByte);
}

#[test]
fn a_single_high_byte_is_still_text() {
    let ev = text(&[0x41, 0x42, 0xE5, 0x43, 0x44]);
    assert_eq!(ev.looks_like, TextEncoding::SingleByte);
    assert_eq!(ev.first_invalid_byte, 0xE5);
    assert_eq!((ev.high_bytes, ev.len), (1, 5));
}

#[test]
fn utf16_is_recognised_with_and_without_a_bom() {
    let s = "Tilbud til \u{e6}ble A/S\r\n";
    let le_bom = text(&utf16(s, true, true));
    assert_eq!(le_bom.looks_like, TextEncoding::Utf16Le);
    assert_eq!(le_bom.bom, Some(Bom::Utf16Le));

    let be_bom = text(&utf16(s, false, true));
    assert_eq!(be_bom.looks_like, TextEncoding::Utf16Be);
    assert_eq!(be_bom.bom, Some(Bom::Utf16Be));

    let le = text(&utf16(s, true, false));
    assert_eq!(le.looks_like, TextEncoding::Utf16Le);
    assert_eq!(le.bom, None);

    let be = text(&utf16(s, false, false));
    assert_eq!(be.looks_like, TextEncoding::Utf16Be);
    assert_eq!(be.bom, None);
}

#[test]
fn utf32_boms_are_not_mistaken_for_utf16() {
    let mut le = vec![0xFF, 0xFE, 0x00, 0x00];
    le.extend_from_slice(&[0x41, 0x00, 0x00, 0x00]);
    assert_eq!(text(&le).looks_like, TextEncoding::Utf32Le);

    let mut be = vec![0x00, 0x00, 0xFE, 0xFF];
    be.extend_from_slice(&[0x00, 0x00, 0x00, 0x41]);
    assert_eq!(text(&be).looks_like, TextEncoding::Utf32Be);
}

#[test]
fn a_utf8_bom_over_non_utf8_bytes_is_named_as_mislabelled() {
    let mut v = vec![0xEF, 0xBB, 0xBF];
    v.extend_from_slice(&cp1252_danish());
    let ev = text(&v);
    assert_eq!(ev.looks_like, TextEncoding::Utf8Mislabelled);
    assert_eq!(ev.bom, Some(Bom::Utf8));
}

#[test]
fn genuinely_binary_bytes_are_still_binary() {
    let mut blob = vec![0x00, 0x01, 0x02, 0x03, 0x1B, 0x7F, 0xFF, 0xFE];
    blob.extend((0u8..=255).rev());
    assert_eq!(classify(&blob), Unrecognised::Binary);
}

#[test]
fn a_run_of_nuls_is_not_utf16() {
    assert!(std::str::from_utf8(&[0x00; 64]).is_ok(), "NUL is valid UTF-8");
    let mut mostly_nul = vec![0x00; 60];
    mostly_nul.extend_from_slice(&[0x01, 0x02, 0x1B, 0xFF]);
    assert_eq!(classify(&mostly_nul), Unrecognised::Binary);
}

#[test]
fn dense_high_bytes_are_text_of_an_unnamed_encoding() {
    let dense: Vec<u8> = (0..200).map(|i| 0x80 + (i % 0x40) as u8).collect();
    assert_eq!(text(&dense).looks_like, TextEncoding::Unknown);
}

#[test]
fn three_high_bytes_in_ten_are_too_many_for_a_code_page() {
    let mut v = vec![b'a'; 7];
    v.extend_from_slice(&[0xE5, 0xE6, 0xF8]);
    assert_eq!(text(&v).looks_like, TextEncoding::Unknown);
    v.push(b'a');
    assert_eq!(text(&v).looks_like, TextEncoding::SingleByte);
}

#[test]
fn labels_codes_and_controls_are_fixed() {
    assert_eq!(Bom::Utf32Be.label(), "utf-32be");
    assert_eq!(TextEncoding::SingleByte.code(), "single-byte-code-page");
    assert_eq!(TextEncoding::Utf8Mislabelled.label(), "something other than the UTF-8 its byte-order mark claims");
    assert_eq!(Bom::detect(b"plain"), None);
    assert!(is_allowed_control(b'\t') && !is_stray_control(b'\t'));
    assert!(!is_allowed_control(0x1B) && is_stray_control(0x1B));
    assert!(is_stray_control(0x7F) && !is_stray_control(b' '));
}

#[test]
fn three_letters_are_no_archive() {
    assert_eq!(identify(b"BZhang: quarterly notes"), None);
    assert_eq!(identify(b"BZh91AY"), None);
    assert_eq!(identify(b"BZh01AY&SY"), None);
    assert_eq!(identify(b"BZh9 is a prefix"), None);
}
