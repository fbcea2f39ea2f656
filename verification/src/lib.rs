//! Text and metadata extraction from heterogeneous document formats.
//!
//! The library holds the verified core of an extraction pipeline: format
//! detection from magic bytes and extensions, typed parser configuration
//! built through chainable setters, in-process parsers for PDF, HTML,
//! XML and spreadsheets, whitespace normalization and smart truncation,
//! and the data-driven plan that orders the fast path, memory mapping
//! and the foreign-runtime bridge. File and network I/O and the bridge
//! itself live outside the library and consume these pieces.

pub mod config;
pub mod errors;
pub mod format;
pub mod metadata;
pub mod numfmt;
pub mod parsers;
pub mod strutil;
pub mod text;

pub use config::{CharSet, ExtractionStage, Extractor, OfficeParserConfig, PdfOcrStrategy,
    PdfParserConfig, TesseractOcrConfig};
pub use errors::{Error, ExtractResult};
pub use format::{detect_format_from_bytes, detect_format_from_extension, DocumentFormat};
pub use metadata::Metadata;
pub use numfmt::u64_to_string;
pub use parsers::{extract_html_text, extract_xlsx_from_bytes, extract_xml_text,
    html_text_from_events, pdf_outcome_from_text, xlsx_text_from_sheet, xml_text_from_events,
    PureRustExtractor, XmlEvent};
pub use text::{clean_document_text, clean_text_fast, extract_text_content, normalize_whitespace,
    truncate_text_smart, truncate_to_char_boundary, validate_utf8_fast, CharClass, TextStats};

use vstd::prelude::*;

verus! {

/// Default buffer size for streamed reads.
pub const DEFAULT_BUF_SIZE: usize = 262144;

/// Buffer size for memory-mapped operations.
pub const LARGE_BUF_SIZE: usize = 1048576;

/// Files larger than this many bytes are routed through memory mapping
/// when it is enabled.
pub const MMAP_THRESHOLD: usize = 524288;

} // verus!
