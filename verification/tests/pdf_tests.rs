use poster_maker::decimal::{write_decimal, write_padded_decimal};
use poster_maker::pdf::{stream_object, write_pdf, PageChunk};

fn count_bytes(haystack: &[u8], needle: &[u8]) -> usize {
    haystack
        .windows(needle.len())
        .filter(|window| *window == needle)
        .count()
}

fn chunk(content: &str, image: &[u8], w: u32, h: u32) -> PageChunk {
    PageChunk {
        content: content.to_string(),
        image: image.to_vec(),
        image_w: w,
        image_h: h,
    }
}

#[test]
fn decimal_numerals() {
    assert_eq!(write_decimal(0), b"0".to_vec());
    assert_eq!(write_decimal(7), b"7".to_vec());
    assert_eq!(write_decimal(1234567890), b"1234567890".to_vec());
    assert_eq!(write_decimal(u64::MAX), b"18446744073709551615".to_vec());
    assert_eq!(write_padded_decimal(0), b"0000000000".to_vec());
    assert_eq!(write_padded_decimal(15), b"0000000015".to_vec());
    assert_eq!(write_padded_decimal(12345678901), b"12345678901".to_vec());
}

#[test]
fn stream_object_frames_its_data() {
    assert_eq!(
        stream_object(b"abc"),
        b"<< /Length 3 >>\nstream\nabc\nendstream".to_vec()
    );
    assert_eq!(stream_object(b""), b"<< /Length 0 >>\nstream\n\nendstream".to_vec());
}

#[test]
fn empty_document() {
    let pdf = write_pdf("595.276", "841.890", &Vec::new());
    let expected_head = b"%PDF-1.4\n%\xE2\xE3\xCF\xD3\n1 0 obj\n<< /Type /Catalog /Pages 2 0 R >>\nendobj\n2 0 obj\n<< /Type /Pages /Kids [] /Count 0 >>\nendobj\n";
    assert!(pdf.starts_with(expected_head));
    let tail = format!(
        "xref\n0 3\n0000000000 65535 f \n0000000015 00000 n \n0000000064 00000 n \ntrailer\n<< /Size 3 /Root 1 0 R >>\nstartxref\n{}\n%%EOF\n",
        expected_head.len()
    );
    assert_eq!(&pdf[expected_head.len()..], tail.as_bytes());
}

#[test]
fn two_page_document_structure() {
    let pages = vec![
        chunk("q\n1 0 0 1 0 0 cm\n/Im0 Do\nQ\n", &[0xFF, 0xD8, 0xFF, 0xD9], 10, 20),
        chunk("second", &[1, 2, 3], 7, 8),
    ];
    let pdf = write_pdf("841.890", "595.276", &pages);
    assert!(pdf.starts_with(b"%PDF-1.4"));
    assert!(pdf.ends_with(b"%%EOF\n"));
    assert_eq!(count_bytes(&pdf, b"/Type /Page "), 2);
    assert_eq!(count_bytes(&pdf, b"/Subtype /Image"), 2);
    assert_eq!(count_bytes(&pdf, b"/MediaBox [0 0 841.890 595.276]"), 2);
    assert_eq!(count_bytes(&pdf, b"/Kids [3 0 R 6 0 R ] /Count 2"), 1);
    assert_eq!(count_bytes(&pdf, b"/Im0 5 0 R"), 1);
    assert_eq!(count_bytes(&pdf, b"/Contents 4 0 R"), 1);
    assert_eq!(count_bytes(&pdf, b"/Im0 8 0 R"), 1);
    assert_eq!(count_bytes(&pdf, b"/Contents 7 0 R"), 1);
    assert_eq!(count_bytes(&pdf, b"/Width 10 /Height 20"), 1);
    assert_eq!(count_bytes(&pdf, b"/Width 7 /Height 8"), 1);
    assert_eq!(count_bytes(&pdf, b"<< /Length 6 >>\nstream\nsecond\nendstream"), 1);
}

#[test]
fn cross_reference_offsets_point_at_objects() {
    let pages = vec![
        chunk("abc", &[9; 100], 3, 4),
        chunk("de", &[7; 33], 5, 6),
        chunk("", &[], 1, 1),
    ];
    let pdf = write_pdf("1.000", "2.000", &pages);
    let marker = b"startxref\n";
    let xref_at = pdf.windows(marker.len()).rposition(|w| w == marker).unwrap();
    let after = String::from_utf8(pdf[xref_at + marker.len()..].to_vec()).unwrap();
    let start: usize = after.lines().next().unwrap().parse().unwrap();
    assert_eq!(&pdf[start..start + 5], b"xref\n");
    let table = String::from_utf8(pdf[start..].to_vec()).unwrap();
    let mut lines = table.lines();
    assert_eq!(lines.next(), Some("xref"));
    assert_eq!(lines.next(), Some("0 12"));
    assert_eq!(lines.next(), Some("0000000000 65535 f "));
    for k in 1..=11usize {
        let row = lines.next().unwrap();
        assert!(row.ends_with(" 00000 n "), "{row}");
        let off: usize = row[..10].parse().unwrap();
        let expected = format!("{k} 0 obj\n");
        assert_eq!(&pdf[off..off + expected.len()], expected.as_bytes());
    }
    assert_eq!(lines.next(), Some("trailer"));
    assert_eq!(lines.next(), Some("<< /Size 12 /Root 1 0 R >>"));
}
