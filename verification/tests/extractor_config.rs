use extractous::{
    CharSet, Error, ExtractionStage, Extractor, Metadata, OfficeParserConfig, PdfOcrStrategy,
    PdfParserConfig, TesseractOcrConfig, MMAP_THRESHOLD,
};

#[test]
fn extractor_builder_chains() {
    let extractor = Extractor::new()
        .set_extract_string_max_length(1000)
        .set_encoding(CharSet::US_ASCII)
        .set_xml_output(true)
        .set_use_mmap(false)
        .set_mmap_threshold(1024 * 1024)
        .set_enable_parallel(false)
        .set_use_pure_rust(false)
        .set_enable_text_cleaning(true);
    assert_eq!(extractor.extract_string_max_length, 1000);
    assert_eq!(extractor.encoding, CharSet::US_ASCII);
    assert!(extractor.xml_output);
    assert!(!extractor.use_mmap);
    assert_eq!(extractor.mmap_threshold, 1024 * 1024);
    assert!(!extractor.enable_parallel);
    assert!(!extractor.use_pure_rust);
    assert!(extractor.enable_text_cleaning);
}

#[test]
fn extractor_defaults() {
    let e = Extractor::new();
    assert_eq!(e.extract_string_max_length, 500000);
    assert_eq!(e.encoding, CharSet::UTF_8);
    assert!(!e.xml_output);
    assert!(e.use_mmap);
    assert_eq!(e.mmap_threshold, MMAP_THRESHOLD);
    assert!(!e.enable_text_cleaning);
    assert_eq!(e.pdf_config, PdfParserConfig::new());
    assert_eq!(e.office_config, OfficeParserConfig::new());
    assert_eq!(e.ocr_config, TesseractOcrConfig::new());
}

#[test]
fn config_builders_set_fields() {
    let pdf = PdfParserConfig::new()
        .set_ocr_strategy(PdfOcrStrategy::OCR_ONLY)
        .set_extract_annotation_text(false);
    assert_eq!(pdf.ocr_strategy, PdfOcrStrategy::OCR_ONLY);
    assert!(!pdf.extract_annotation_text);
    assert!(!pdf.extract_inline_images);

    let office = OfficeParserConfig::new().set_extract_macros(true);
    assert!(office.extract_macros);
    assert!(office.include_headers_and_footers);

    let ocr = TesseractOcrConfig::new().set_language("deu".to_string());
    assert_eq!(ocr.language, "deu");
    assert_eq!(ocr.density, 300);
    assert_eq!(ocr.timeout_seconds, 120);
}

#[test]
fn charset_names() {
    assert_eq!(CharSet::UTF_8.name(), "UTF_8");
    assert_eq!(CharSet::US_ASCII.name(), "US_ASCII");
    assert_eq!(CharSet::UTF_16BE.name(), "UTF_16BE");
    assert_eq!(CharSet::default(), CharSet::UTF_8);
}

#[test]
fn post_processing_is_off_by_default() {
    let e = Extractor::new();
    let m = Metadata::new();
    let (text, meta) = e.post_process_text("  spaced   out  ".to_string(), m);
    assert_eq!(text, "  spaced   out  ");
    assert_eq!(meta.len(), 0);
}

#[test]
fn post_processing_normalizes_large_text_and_truncates() {
    let e = Extractor::new()
        .set_enable_text_cleaning(true)
        .set_extract_string_max_length(100);
    let big = "word  word   ".repeat(500);
    let (text, meta) = e.post_process_text(big, Metadata::new());
    assert!(text.len() <= 103);
    assert!(text.ends_with("..."));
    assert!(!text.contains("  "));
    assert_eq!(
        meta.get(&"Text-Processing".to_string()),
        Some(&vec!["lightweight".to_string()])
    );
}

#[test]
fn small_text_is_left_alone_even_when_cleaning() {
    let e = Extractor::new().set_enable_text_cleaning(true);
    let (text, meta) = e.post_process_text("tiny   text".to_string(), Metadata::new());
    assert_eq!(text, "tiny   text");
    assert_eq!(meta.len(), 0);
}

#[test]
fn extraction_plans_follow_configuration() {
    let e = Extractor::new();
    assert_eq!(
        e.plan_file_extraction(Some(MMAP_THRESHOLD + 1)),
        vec![
            ExtractionStage::FastPath,
            ExtractionStage::MappedBytes,
            ExtractionStage::Bridge
        ]
    );
    assert_eq!(
        e.plan_file_extraction(Some(10)),
        vec![ExtractionStage::FastPath, ExtractionStage::Bridge]
    );
    assert_eq!(
        e.plan_file_extraction(None),
        vec![ExtractionStage::FastPath, ExtractionStage::Bridge]
    );
    let plain = Extractor::new().set_use_pure_rust(false).set_use_mmap(false);
    assert_eq!(
        plain.plan_file_extraction(Some(usize::MAX)),
        vec![ExtractionStage::Bridge]
    );
}

#[test]
fn metadata_merges_duplicate_keys() {
    let mut m = Metadata::new();
    assert!(m.is_empty());
    m.insert("Author".to_string(), vec!["First".to_string()]);
    m.insert("Title".to_string(), vec!["Doc".to_string()]);
    m.insert("Author".to_string(), vec!["Second".to_string()]);
    assert_eq!(m.len(), 2);
    assert_eq!(
        m.get(&"Author".to_string()),
        Some(&vec!["First".to_string(), "Second".to_string()])
    );
    assert_eq!(m.get(&"Missing".to_string()), None);
}

#[test]
fn error_messages_carry_their_cause() {
    let e = Error::IoError("file gone".to_string());
    assert_eq!(e.message(), "file gone");
    let e = Error::ParseError("bad input".to_string());
    assert_eq!(e.message(), "bad input");
    let e = Error::BridgeError("vm fault".to_string());
    assert_eq!(e.message(), "vm fault");
    let e = Error::EncodingError("bad utf8".to_string());
    assert_eq!(e.message(), "bad utf8");
    let e = Error::ConfigError("bad cap".to_string());
    assert_eq!(e.message(), "bad cap");
}

#[test]
fn string_extraction_plans_skip_memory_mapping() {
    let e = Extractor::new();
    assert_eq!(
        e.plan_string_extraction(),
        vec![ExtractionStage::FastPath, ExtractionStage::Bridge]
    );
    let plain = Extractor::new().set_use_pure_rust(false);
    assert_eq!(plain.plan_string_extraction(), vec![ExtractionStage::Bridge]);
}

#[test]
fn negative_length_cap_disables_truncation() {
    let e = Extractor::new()
        .set_enable_text_cleaning(true)
        .set_extract_string_max_length(-1);
    let big = "word ".repeat(2000);
    let (text, _meta) = e.post_process_text(big.clone(), Metadata::new());
    assert!(text.len() >= 5000);
}
