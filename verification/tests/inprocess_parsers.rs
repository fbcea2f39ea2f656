use extractous::{
    extract_html_text, extract_xlsx_from_bytes, extract_xml_text, pdf_outcome_from_text,
    DocumentFormat, Error, PureRustExtractor,
};

#[test]
fn html_extraction_reads_text_and_metadata() {
    let html = b"<html><head><style>p { color: red; }</style></head>\
<body><p>First paragraph.</p><p>Second one.</p>\
<script>var hidden = 1;</script></body></html>";
    let (text, meta) = extract_html_text(html).unwrap();
    assert!(text.contains("First paragraph."));
    assert!(text.contains("Second one."));
    assert!(!text.contains("color"));
    assert!(!text.contains("hidden"));
    assert!(text.contains('\n'));
    assert_eq!(
        meta.get(&"Content-Type".to_string()),
        Some(&vec!["text/html".to_string()])
    );
    assert_eq!(
        meta.get(&"Parser".to_string()),
        Some(&vec!["pure-rust-html".to_string()])
    );
    assert_eq!(
        meta.get(&"File-Size".to_string()),
        Some(&vec![html.len().to_string()])
    );
}

#[test]
fn html_extraction_rejects_invalid_utf8() {
    let err = extract_html_text(&[0x3c, 0x70, 0x3e, 0xff, 0xfe]).unwrap_err();
    assert!(matches!(err, Error::ParseError(_)));
}

#[test]
fn xml_extraction_keeps_character_data() {
    let xml = b"<?xml version=\"1.0\"?><root><a>alpha</a><b>beta</b>\
<c><![CDATA[x < y]]></c></root>";
    let (text, meta) = extract_xml_text(xml).unwrap();
    assert!(text.contains("alpha"));
    assert!(text.contains("beta"));
    assert!(text.contains("x &lt; y"));
    assert_eq!(
        meta.get(&"Content-Type".to_string()),
        Some(&vec!["application/xml".to_string()])
    );
    assert_eq!(
        meta.get(&"Parser".to_string()),
        Some(&vec!["pure-rust-xml".to_string()])
    );
}

#[test]
fn malformed_xml_is_a_parse_error() {
    let err = extract_xml_text(b"<root><unclosed></root>").unwrap_err();
    match err {
        Error::ParseError(msg) => assert!(msg.starts_with("XML parse error: ")),
        other => panic!("unexpected error {:?}", other),
    }
}

#[test]
fn pdf_garbage_is_a_parse_error() {
    let data = b"not a pdf at all";
    let parsed = pdf_extract::extract_text_from_mem(data)
        .map_err(|e| format!("PDF extraction from bytes failed: {}", e));
    assert!(parsed.is_err());
    let err = pdf_outcome_from_text(parsed, data.len() as u64).unwrap_err();
    match err {
        Error::ParseError(msg) => {
            assert!(msg.starts_with("PDF extraction from bytes failed: "))
        }
        other => panic!("unexpected error {:?}", other),
    }
}

#[test]
fn xlsx_garbage_is_a_parse_error() {
    let err = extract_xlsx_from_bytes(b"PK\x03\x04 but not really a zip".to_vec()).unwrap_err();
    match err {
        Error::ParseError(msg) => assert!(msg.starts_with("Excel extraction failed: ")),
        other => panic!("unexpected error {:?}", other),
    }
}

#[test]
fn unsupported_formats_are_rejected_with_their_name() {
    let ex = PureRustExtractor::new();
    let err = ex.extract_bytes(b"a,b\nc,d", DocumentFormat::Csv).unwrap_err();
    match err {
        Error::ParseError(msg) => {
            assert_eq!(msg, "Format Csv not supported by pure Rust parsers")
        }
        other => panic!("unexpected error {:?}", other),
    }
    // The PDF parser runs only outside the library, so the byte dispatch
    // rejects it too.
    let err = ex.extract_bytes(b"%PDF-1.4", DocumentFormat::Pdf).unwrap_err();
    match err {
        Error::ParseError(msg) => {
            assert_eq!(msg, "Format Pdf not supported by pure Rust parsers")
        }
        other => panic!("unexpected error {:?}", other),
    }
}

#[test]
fn fast_path_extraction_caps_text_length() {
    let mut html = String::from("<html><body>");
    for _ in 0..200 {
        html.push_str("<p>some repeated paragraph text</p>");
    }
    html.push_str("</body></html>");
    let ex = PureRustExtractor::with_max_length(50);
    let (text, _meta) = ex
        .extract_bytes(html.as_bytes(), DocumentFormat::Html)
        .unwrap();
    assert!(text.len() <= 50);
    assert!(text.contains("some repeated"));
}

fn build_minimal_pdf() -> Vec<u8> {
    let mut pdf: Vec<u8> = Vec::new();
    let mut offsets = [0usize; 6];
    pdf.extend_from_slice(b"%PDF-1.4\n");
    offsets[1] = pdf.len();
    pdf.extend_from_slice(b"1 0 obj\n<< /Type /Catalog /Pages 2 0 R >>\nendobj\n");
    offsets[2] = pdf.len();
    pdf.extend_from_slice(b"2 0 obj\n<< /Type /Pages /Kids [3 0 R] /Count 1 >>\nendobj\n");
    offsets[3] = pdf.len();
    pdf.extend_from_slice(
        b"3 0 obj\n<< /Type /Page /Parent 2 0 R /MediaBox [0 0 612 792] \
/Resources << /Font << /F1 5 0 R >> >> /Contents 4 0 R >>\nendobj\n",
    );
    let stream = b"BT /F1 24 Tf 72 720 Td (Hello PDF) Tj ET";
    offsets[4] = pdf.len();
    pdf.extend_from_slice(format!("4 0 obj\n<< /Length {} >>\nstream\n", stream.len()).as_bytes());
    pdf.extend_from_slice(stream);
    pdf.extend_from_slice(b"\nendstream\nendobj\n");
    offsets[5] = pdf.len();
    pdf.extend_from_slice(b"5 0 obj\n<< /Type /Font /Subtype /Type1 /BaseFont /Helvetica >>\nendobj\n");
    let xref_pos = pdf.len();
    pdf.extend_from_slice(b"xref\n0 6\n0000000000 65535 f \n");
    for off in offsets.iter().skip(1) {
        pdf.extend_from_slice(format!("{:010} 00000 n \n", off).as_bytes());
    }
    pdf.extend_from_slice(
        format!("trailer\n<< /Size 6 /Root 1 0 R >>\nstartxref\n{}\n%%EOF\n", xref_pos).as_bytes(),
    );
    pdf
}

#[test]
fn pdf_extraction_reads_page_text() {
    let pdf = build_minimal_pdf();
    let parsed = pdf_extract::extract_text_from_mem(&pdf)
        .map_err(|e| format!("PDF extraction from bytes failed: {}", e));
    let (text, meta) = pdf_outcome_from_text(parsed, pdf.len() as u64).unwrap();
    assert!(text.contains("Hello PDF"));
    assert_eq!(
        meta.get(&"Content-Type".to_string()),
        Some(&vec!["application/pdf".to_string()])
    );
    assert_eq!(
        meta.get(&"File-Size".to_string()),
        Some(&vec![pdf.len().to_string()])
    );
}

#[test]
fn pdf_outcome_caps_text_at_the_configured_length() {
    let ex = PureRustExtractor::with_max_length(5);
    let (text, meta) = ex
        .extract_pdf_outcome(Ok("a longer parsed text".to_string()), 20)
        .unwrap();
    assert_eq!(text, "a lon");
    assert_eq!(
        meta.get(&"Parser".to_string()),
        Some(&vec!["pure-rust-pdf".to_string()])
    );
    let err = ex
        .extract_pdf_outcome(Err("boom".to_string()), 20)
        .unwrap_err();
    match err {
        Error::ParseError(msg) => assert_eq!(msg, "boom"),
        other => panic!("unexpected error {:?}", other),
    }
}
