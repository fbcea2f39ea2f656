use extractous::{detect_format_from_bytes, detect_format_from_extension, DocumentFormat};

#[test]
fn test_pdf_detection() {
    let pdf_header = b"%PDF-1.4\n";
    assert_eq!(detect_format_from_bytes(pdf_header), DocumentFormat::Pdf);
}

#[test]
fn test_office_detection() {
    let zip_header = b"PK\x03\x04";
    assert_eq!(detect_format_from_bytes(zip_header), DocumentFormat::Docx);
}

#[test]
fn test_html_detection() {
    let html_content = b"<!DOCTYPE html><html>";
    assert_eq!(detect_format_from_bytes(html_content), DocumentFormat::Html);
}

#[test]
fn test_csv_detection() {
    let csv_content = b"name,age,city\nJohn,25,NYC\n";
    assert_eq!(detect_format_from_bytes(csv_content), DocumentFormat::Csv);
}

#[test]
fn test_json_detection() {
    let json_content = b"{\n  \"name\": \"test\"\n}";
    assert_eq!(detect_format_from_bytes(json_content), DocumentFormat::Json);
}

#[test]
fn short_buffers_are_unknown() {
    assert_eq!(detect_format_from_bytes(b""), DocumentFormat::Unknown);
    assert_eq!(detect_format_from_bytes(b"%PD"), DocumentFormat::Unknown);
    assert_eq!(detect_format_from_bytes(b"ab"), DocumentFormat::Unknown);
}

#[test]
fn office_archive_disambiguation_scans_first_bytes() {
    let mut xlsx = b"PK\x03\x04".to_vec();
    xlsx.extend_from_slice(b"xl/workbook.xml");
    xlsx.resize(200, 0u8);
    assert_eq!(detect_format_from_bytes(&xlsx), DocumentFormat::Xlsx);

    let mut docx = b"PK\x03\x04".to_vec();
    docx.extend_from_slice(b"word/document.xml");
    docx.resize(200, 0u8);
    assert_eq!(detect_format_from_bytes(&docx), DocumentFormat::Docx);

    let mut pptx = b"PK\x03\x04".to_vec();
    pptx.extend_from_slice(b"ppt/slides/slide1.xml");
    pptx.resize(200, 0u8);
    assert_eq!(detect_format_from_bytes(&pptx), DocumentFormat::Pptx);

    // An ambiguous archive defaults to Docx.
    let mut plain = b"PK\x03\x04".to_vec();
    plain.resize(200, 0u8);
    assert_eq!(detect_format_from_bytes(&plain), DocumentFormat::Docx);
}

#[test]
fn text_heuristics_on_unmagical_buffers() {
    assert_eq!(
        detect_format_from_bytes(b"just a plain sentence"),
        DocumentFormat::Text
    );
    assert_eq!(
        detect_format_from_bytes(b"  <root><child/></root>"),
        DocumentFormat::Xml
    );
    assert_eq!(
        detect_format_from_bytes(b"   {\"compact\":true}"),
        DocumentFormat::Json
    );
    assert_eq!(
        detect_format_from_bytes(b"  <!doctype HTML><p>x</p>"),
        DocumentFormat::Html
    );
    // Invalid UTF-8 with no magic is unknown.
    assert_eq!(
        detect_format_from_bytes(&[0x41, 0x42, 0xff, 0xfe, 0x41]),
        DocumentFormat::Unknown
    );
    // Too many commas on the first line is not CSV.
    let wide = "a,".repeat(30) + "\nsecond line";
    assert_eq!(detect_format_from_bytes(wide.as_bytes()), DocumentFormat::Text);
}

#[test]
fn csv_needs_two_lines() {
    assert_eq!(detect_format_from_bytes(b"a,b,c single line"), DocumentFormat::Text);
    assert_eq!(detect_format_from_bytes(b"a,b,c\nd,e"), DocumentFormat::Csv);
}

#[test]
fn extension_table_is_case_insensitive() {
    assert_eq!(detect_format_from_extension("pdf"), DocumentFormat::Pdf);
    assert_eq!(detect_format_from_extension("PDF"), DocumentFormat::Pdf);
    assert_eq!(detect_format_from_extension("Docx"), DocumentFormat::Docx);
    assert_eq!(detect_format_from_extension("xlsx"), DocumentFormat::Xlsx);
    assert_eq!(detect_format_from_extension("pptx"), DocumentFormat::Pptx);
    assert_eq!(detect_format_from_extension("HTML"), DocumentFormat::Html);
    assert_eq!(detect_format_from_extension("htm"), DocumentFormat::Html);
    assert_eq!(detect_format_from_extension("xml"), DocumentFormat::Xml);
    assert_eq!(detect_format_from_extension("csv"), DocumentFormat::Csv);
    assert_eq!(detect_format_from_extension("txt"), DocumentFormat::Text);
    assert_eq!(detect_format_from_extension("md"), DocumentFormat::Text);
    assert_eq!(detect_format_from_extension("rst"), DocumentFormat::Text);
    assert_eq!(detect_format_from_extension("json"), DocumentFormat::Json);
    assert_eq!(detect_format_from_extension("exe"), DocumentFormat::Unknown);
    assert_eq!(detect_format_from_extension(""), DocumentFormat::Unknown);
}
