use vstd::prelude::*;
use crate::metadata::{spec_insert, Metadata};
use crate::text::{seq_blen, spec_normalize, spec_truncate};

verus! {

/// The character encodings a stream can be decoded with.
#[derive(Clone, Copy, Debug, PartialEq, Eq, Hash, Structural)]
#[allow(non_camel_case_types)]
pub enum CharSet {
    UTF_8,
    US_ASCII,
    UTF_16BE,
}

impl CharSet {
    /// The name of the encoding, as the foreign runtime expects it.
    pub open spec fn spec_name(self) -> Seq<char> {
        match self {
            CharSet::UTF_8 => "UTF_8"@,
            CharSet::US_ASCII => "US_ASCII"@,
            CharSet::UTF_16BE => "UTF_16BE"@,
        }
    }

    /// The name of the encoding as a string.
    pub fn name(&self) -> (r: String)
        ensures
            r@ == self.spec_name(),
    {
        match self {
            CharSet::UTF_8 => "UTF_8".to_owned(),
            CharSet::US_ASCII => "US_ASCII".to_owned(),
            CharSet::UTF_16BE => "UTF_16BE".to_owned(),
        }
    }
}

impl Default for CharSet {
    /// The default encoding is UTF-8.
    fn default() -> (r: Self)
        ensures
            r == CharSet::UTF_8,
    {
        CharSet::UTF_8
    }
}

/// When the PDF parser runs OCR.
#[derive(Clone, Copy, Debug, PartialEq, Eq, Structural)]
#[allow(non_camel_case_types)]
pub enum PdfOcrStrategy {
    NO_OCR,
    OCR_ONLY,
    OCR_AND_TEXT_EXTRACTION,
    AUTO,
}

impl Default for PdfOcrStrategy {
    /// By default the parser decides on its own.
    fn default() -> (r: Self)
        ensures
            r == PdfOcrStrategy::AUTO,
    {
        PdfOcrStrategy::AUTO
    }
}

/// Tuning for the PDF parser. Immutable once built: every setter returns
/// a new value.
#[derive(Clone, Copy, Debug, PartialEq, Eq, Structural)]
pub struct PdfParserConfig {
    pub ocr_strategy: PdfOcrStrategy,
    pub extract_inline_images: bool,
    pub extract_unique_inline_images_only: bool,
    pub extract_marked_content: bool,
    pub extract_annotation_text: bool,
}

impl Default for PdfParserConfig {
    fn default() -> (r: Self)
        ensures
            r == PdfParserConfig::spec_default(),
    {
        PdfParserConfig {
            ocr_strategy: PdfOcrStrategy::AUTO,
            extract_inline_images: false,
            extract_unique_inline_images_only: false,
            extract_marked_content: false,
            extract_annotation_text: true,
        }
    }
}

impl PdfParserConfig {
    /// The default field values.
    pub open spec fn spec_default() -> Self {
        PdfParserConfig {
            ocr_strategy: PdfOcrStrategy::AUTO,
            extract_inline_images: false,
            extract_unique_inline_images_only: false,
            extract_marked_content: false,
            extract_annotation_text: true,
        }
    }

    pub fn new() -> (r: Self)
        ensures
            r == PdfParserConfig::spec_default(),
    {
        Self::default()
    }

    pub fn set_ocr_strategy(self, val: PdfOcrStrategy) -> (r: Self)
        ensures
            r == (PdfParserConfig { ocr_strategy: val, ..self }),
    {
        PdfParserConfig { ocr_strategy: val, ..self }
    }

    pub fn set_extract_inline_images(self, val: bool) -> (r: Self)
        ensures
            r == (PdfParserConfig { extract_inline_images: val, ..self }),
    {
        PdfParserConfig { extract_inline_images: val, ..self }
    }

    pub fn set_extract_unique_inline_images_only(self, val: bool) -> (r: Self)
        ensures
            r == (PdfParserConfig { extract_unique_inline_images_only: val, ..self }),
    {
        PdfParserConfig { extract_unique_inline_images_only: val, ..self }
    }

    pub fn set_extract_marked_content(self, val: bool) -> (r: Self)
        ensures
            r == (PdfParserConfig { extract_marked_content: val, ..self }),
    {
        PdfParserConfig { extract_marked_content: val, ..self }
    }

    pub fn set_extract_annotation_text(self, val: bool) -> (r: Self)
        ensures
            r == (PdfParserConfig { extract_annotation_text: val, ..self }),
    {
        PdfParserConfig { extract_annotation_text: val, ..self }
    }
}

/// Tuning for the Office document parser. Immutable once built.
#[derive(Clone, Copy, Debug, PartialEq, Eq, Structural)]
pub struct OfficeParserConfig {
    pub extract_macros: bool,
    pub include_deleted_content: bool,
    pub include_move_from_content: bool,
    pub include_shape_based_content: bool,
    pub include_headers_and_footers: bool,
    pub concatenate_phonetic_runs: bool,
    pub extract_all_alternatives_from_msg: bool,
}

impl Default for OfficeParserConfig {
    fn default() -> (r: Self)
        ensures
            r == OfficeParserConfig::spec_default(),
    {
        OfficeParserConfig {
            extract_macros: false,
            include_deleted_content: false,
            include_move_from_content: false,
            include_shape_based_content: true,
            include_headers_and_footers: true,
            concatenate_phonetic_runs: true,
            extract_all_alternatives_from_msg: false,
        }
    }
}

impl OfficeParserConfig {
    /// The default field values.
    pub open spec fn spec_default() -> Self {
        OfficeParserConfig {
            extract_macros: false,
            include_deleted_content: false,
            include_move_from_content: false,
            include_shape_based_content: true,
            include_headers_and_footers: true,
            concatenate_phonetic_runs: true,
            extract_all_alternatives_from_msg: false,
        }
    }

    pub fn new() -> (r: Self)
        ensures
            r == OfficeParserConfig::spec_default(),
    {
        Self::default()
    }

    pub fn set_extract_macros(self, val: bool) -> (r: Self)
        ensures
            r == (OfficeParserConfig { extract_macros: val, ..self }),
    {
        OfficeParserConfig { extract_macros: val, ..self }
    }

    pub fn set_include_deleted_content(self, val: bool) -> (r: Self)
        ensures
            r == (OfficeParserConfig { include_deleted_content: val, ..self }),
    {
        OfficeParserConfig { include_deleted_content: val, ..self }
    }

    pub fn set_include_move_from_content(self, val: bool) -> (r: Self)
        ensures
            r == (OfficeParserConfig { include_move_from_content: val, ..self }),
    {
        OfficeParserConfig { include_move_from_content: val, ..self }
    }

    pub fn set_include_shape_based_content(self, val: bool) -> (r: Self)
        ensures
            r == (OfficeParserConfig { include_shape_based_content: val, ..self }),
    {
        OfficeParserConfig { include_shape_based_content: val, ..self }
    }

    pub fn set_include_headers_and_footers(self, val: bool) -> (r: Self)
        ensures
            r == (OfficeParserConfig { include_headers_and_footers: val, ..self }),
    {
        OfficeParserConfig { include_headers_and_footers: val, ..self }
    }

    pub fn set_concatenate_phonetic_runs(self, val: bool) -> (r: Self)
        ensures
            r == (OfficeParserConfig { concatenate_phonetic_runs: val, ..self }),
    {
        OfficeParserConfig { concatenate_phonetic_runs: val, ..self }
    }

    pub fn set_extract_all_alternatives_from_msg(self, val: bool) -> (r: Self)
        ensures
            r == (OfficeParserConfig { extract_all_alternatives_from_msg: val, ..self }),
    {
        OfficeParserConfig { extract_all_alternatives_from_msg: val, ..self }
    }
}

/// Tuning for Tesseract OCR. Immutable once built.
#[derive(Clone, Debug, PartialEq, Eq)]
pub struct TesseractOcrConfig {
    pub density: i32,
    pub depth: i32,
    pub timeout_seconds: i32,
    pub enable_image_preprocessing: bool,
    pub apply_rotation: bool,
    pub language: String,
}

impl TesseractOcrConfig {
    /// The default field values: 300 dpi, 4-bit depth, a 120 second
    /// timeout, no preprocessing or rotation, English.
    pub open spec fn spec_default() -> Self {
        TesseractOcrConfig {
            density: 300,
            depth: 4,
            timeout_seconds: 120,
            enable_image_preprocessing: false,
            apply_rotation: false,
            language: arbitrary(),
        }
    }

    /// Whether a configuration holds the default values, the language
    /// given as characters.
    pub open spec fn is_default(self) -> bool {
        &&& self.density == 300
        &&& self.depth == 4
        &&& self.timeout_seconds == 120
        &&& self.enable_image_preprocessing == false
        &&& self.apply_rotation == false
        &&& self.language@ == "eng"@
    }

    pub fn new() -> (r: Self)
        ensures
            r.is_default(),
    {
        TesseractOcrConfig {
            density: 300,
            depth: 4,
            timeout_seconds: 120,
            enable_image_preprocessing: false,
            apply_rotation: false,
            language: "eng".to_owned(),
        }
    }

    pub fn set_density(self, val: i32) -> (r: Self)
        ensures
            r == (TesseractOcrConfig { density: val, ..self }),
    {
        TesseractOcrConfig { density: val, ..self }
    }

    pub fn set_depth(self, val: i32) -> (r: Self)
        ensures
            r == (TesseractOcrConfig { depth: val, ..self }),
    {
        TesseractOcrConfig { depth: val, ..self }
    }

    pub fn set_timeout_seconds(self, val: i32) -> (r: Self)
        ensures
            r == (TesseractOcrConfig { timeout_seconds: val, ..self }),
    {
        TesseractOcrConfig { timeout_seconds: val, ..self }
    }

    pub fn set_enable_image_preprocessing(self, val: bool) -> (r: Self)
        ensures
            r == (TesseractOcrConfig { enable_image_preprocessing: val, ..self }),
    {
        TesseractOcrConfig { enable_image_preprocessing: val, ..self }
    }

    pub fn set_apply_rotation(self, val: bool) -> (r: Self)
        ensures
            r == (TesseractOcrConfig { apply_rotation: val, ..self }),
    {
        TesseractOcrConfig { apply_rotation: val, ..self }
    }

    pub fn set_language(self, val: String) -> (r: Self)
        ensures
            r == (TesseractOcrConfig { language: val, ..self }),
    {
        TesseractOcrConfig { language: val, ..self }
    }
}

impl Default for TesseractOcrConfig {
    fn default() -> (r: Self)
        ensures
            r.is_default(),
    {
        Self::new()
    }
}

/// One stage of the extraction pipeline, in fallback order: the
/// in-process fast-path parser, memory-mapped bytes, and the
/// foreign-runtime bridge.
#[derive(Clone, Copy, Debug, PartialEq, Eq, Structural)]
pub enum ExtractionStage {
    FastPath,
    MappedBytes,
    Bridge,
}

/// The extractor: all configuration for one extraction pipeline, built
/// through chainable setters that each return a new value.
#[derive(Clone, Debug, PartialEq, Eq)]
pub struct Extractor {
    pub extract_string_max_length: i32,
    pub encoding: CharSet,
    pub pdf_config: PdfParserConfig,
    pub office_config: OfficeParserConfig,
    pub ocr_config: TesseractOcrConfig,
    pub xml_output: bool,
    pub use_mmap: bool,
    pub mmap_threshold: usize,
    pub enable_parallel: bool,
    pub use_pure_rust: bool,
    pub enable_text_cleaning: bool,
}

impl Extractor {
    /// The default extractor: a 500000 byte string cap, UTF-8, default
    /// parser configs, plain text output, memory mapping over the
    /// threshold, parallel batches and the fast path on, text cleaning
    /// off.
    pub open spec fn is_default(self) -> bool {
        &&& self.extract_string_max_length == 500000
        &&& self.encoding == CharSet::UTF_8
        &&& self.pdf_config == PdfParserConfig::spec_default()
        &&& self.office_config == OfficeParserConfig::spec_default()
        &&& self.ocr_config.is_default()
        &&& self.xml_output == false
        &&& self.use_mmap == true
        &&& self.mmap_threshold == crate::MMAP_THRESHOLD
        &&& self.enable_parallel == true
        &&& self.use_pure_rust == true
        &&& self.enable_text_cleaning == false
    }

    pub fn new() -> (r: Self)
        ensures
            r.is_default(),
    {
        Extractor {
            extract_string_max_length: 500000,
            encoding: CharSet::UTF_8,
            pdf_config: PdfParserConfig::new(),
            office_config: OfficeParserConfig::new(),
            ocr_config: TesseractOcrConfig::new(),
            xml_output: false,
            use_mmap: true,
            mmap_threshold: crate::MMAP_THRESHOLD,
            enable_parallel: true,
            use_pure_rust: true,
            enable_text_cleaning: false,
        }
    }

    /// Caps the length of text returned by the string extraction
    /// operations.
    pub fn set_extract_string_max_length(self, max_length: i32) -> (r: Self)
        ensures
            r == (Extractor { extract_string_max_length: max_length, ..self }),
    {
        Extractor { extract_string_max_length: max_length, ..self }
    }

    /// Sets the encoding used when extracting to a stream.
    pub fn set_encoding(self, encoding: CharSet) -> (r: Self)
        ensures
            r == (Extractor { encoding: encoding, ..self }),
    {
        Extractor { encoding: encoding, ..self }
    }

    /// Sets the PDF parser configuration.
    pub fn set_pdf_config(self, config: PdfParserConfig) -> (r: Self)
        ensures
            r == (Extractor { pdf_config: config, ..self }),
    {
        Extractor { pdf_config: config, ..self }
    }

    /// Sets the Office parser configuration.
    pub fn set_office_config(self, config: OfficeParserConfig) -> (r: Self)
        ensures
            r == (Extractor { office_config: config, ..self }),
    {
        Extractor { office_config: config, ..self }
    }

    /// Sets the OCR configuration.
    pub fn set_ocr_config(self, config: TesseractOcrConfig) -> (r: Self)
        ensures
            r == (Extractor { ocr_config: config, ..self }),
    {
        Extractor { ocr_config: config, ..self }
    }

    /// Chooses markup output instead of plain text.
    pub fn set_xml_output(self, xml_output: bool) -> (r: Self)
        ensures
            r == (Extractor { xml_output: xml_output, ..self }),
    {
        Extractor { xml_output: xml_output, ..self }
    }

    /// Enables or disables memory-mapped reads for large files.
    pub fn set_use_mmap(self, use_mmap: bool) -> (r: Self)
        ensures
            r == (Extractor { use_mmap: use_mmap, ..self }),
    {
        Extractor { use_mmap: use_mmap, ..self }
    }

    /// Sets the file size above which memory mapping is used.
    pub fn set_mmap_threshold(self, threshold: usize) -> (r: Self)
        ensures
            r == (Extractor { mmap_threshold: threshold, ..self }),
    {
        Extractor { mmap_threshold: threshold, ..self }
    }

    /// Enables or disables parallel batch extraction.
    pub fn set_enable_parallel(self, enable_parallel: bool) -> (r: Self)
        ensures
            r == (Extractor { enable_parallel: enable_parallel, ..self }),
    {
        Extractor { enable_parallel: enable_parallel, ..self }
    }

    /// Enables or disables the in-process fast-path parsers.
    pub fn set_use_pure_rust(self, use_pure_rust: bool) -> (r: Self)
        ensures
            r == (Extractor { use_pure_rust: use_pure_rust, ..self }),
    {
        Extractor { use_pure_rust: use_pure_rust, ..self }
    }

    /// Enables or disables post-extraction text cleaning.
    pub fn set_enable_text_cleaning(self, enable_text_cleaning: bool) -> (r: Self)
        ensures
            r == (Extractor { enable_text_cleaning: enable_text_cleaning, ..self }),
    {
        Extractor { enable_text_cleaning: enable_text_cleaning, ..self }
    }

    /// The effective string length cap as a byte count: a negative
    /// configured cap disables truncation.
    pub open spec fn spec_max_len(self) -> int {
        if self.extract_string_max_length >= 0 {
            self.extract_string_max_length as int
        } else {
            usize::MAX as int
        }
    }

    /// What post-processing does: with cleaning off, text and metadata
    /// pass through; with it on, text over 5000 bytes is
    /// whitespace-normalized and marked in the metadata, and text over
    /// the configured cap is truncated.
    pub open spec fn spec_post_process(self, t: Seq<char>, m: Seq<crate::metadata::MetaEntry>) -> (
        Seq<char>,
        Seq<crate::metadata::MetaEntry>,
    ) {
        if !self.enable_text_cleaning {
            (t, m)
        } else {
            let t1 = if seq_blen(t) > 5000 {
                spec_normalize(t)
            } else {
                t
            };
            let m1 = if seq_blen(t) > 5000 {
                spec_insert(m, "Text-Processing"@, seq!["lightweight"@])
            } else {
                m
            };
            let t2 = if seq_blen(t1) > self.spec_max_len() {
                spec_truncate(t1, self.spec_max_len())
            } else {
                t1
            };
            (t2, m1)
        }
    }

    /// Post-processes extracted text: when cleaning is enabled, large
    /// text is whitespace-normalized (and the metadata records that), and
    /// text over the configured cap is truncated at a word boundary.
    pub fn post_process_text(&self, text: String, metadata: Metadata) -> (r: (String, Metadata))
        requires
            metadata.wf(),
        ensures
            r.0@ == self.spec_post_process(text@, metadata@).0,
            r.1@ == self.spec_post_process(text@, metadata@).1,
            r.1.wf(),
    {
        if !self.enable_text_cleaning {
            return (text, metadata);
        }
        let mut text = text;
        let mut metadata = metadata;
        let blen0 = text.as_str().as_bytes().len();
        if blen0 > 5000 {
            text = crate::text::normalize_whitespace(text.as_str());
            let mut vals: Vec<String> = Vec::new();
            vals.push("lightweight".to_owned());
            proof {
                assert(vals.deep_view() =~= seq!["lightweight"@]);
            }
            metadata.insert("Text-Processing".to_owned(), vals);
        }
        let cap: usize = if self.extract_string_max_length >= 0 {
            self.extract_string_max_length as usize
        } else {
            usize::MAX
        };
        let blen1 = text.as_str().as_bytes().len();
        if blen1 > cap {
            text = crate::text::truncate_text_smart(text.as_str(), cap);
        }
        (text, metadata)
    }

    /// The ordered extraction plan for a file source: the fast path first
    /// when it is enabled, then the memory-mapped route when mapping is
    /// enabled and the known file size exceeds the threshold, and the
    /// bridge as the last resort.
    pub open spec fn spec_plan(self, file_size: Option<usize>) -> Seq<ExtractionStage> {
        let mapped: Seq<ExtractionStage> = if self.use_mmap && file_size is Some
            && file_size->Some_0 > self.mmap_threshold {
            seq![ExtractionStage::MappedBytes]
        } else {
            seq![]
        };
        let base = mapped + seq![ExtractionStage::Bridge];
        if self.use_pure_rust {
            seq![ExtractionStage::FastPath] + base
        } else {
            base
        }
    }

    /// The ordered plan for extracting to a string: the fast path first
    /// when it is enabled, then the bridge. The string path never maps
    /// memory, since the bridge returns the capped string itself.
    pub open spec fn spec_string_plan(self) -> Seq<ExtractionStage> {
        if self.use_pure_rust {
            seq![ExtractionStage::FastPath, ExtractionStage::Bridge]
        } else {
            seq![ExtractionStage::Bridge]
        }
    }

    /// Plans the stages a string extraction tries, in order. Every plan
    /// ends with the bridge, so extraction is always attempted.
    pub fn plan_string_extraction(&self) -> (r: Vec<ExtractionStage>)
        ensures
            r@ == self.spec_string_plan(),
            r@.len() >= 1,
            r@.last() == ExtractionStage::Bridge,
    {
        let mut r: Vec<ExtractionStage> = Vec::new();
        if self.use_pure_rust {
            r.push(ExtractionStage::FastPath);
        }
        r.push(ExtractionStage::Bridge);
        proof {
            assert(r@ =~= self.spec_string_plan());
        }
        r
    }

    /// Plans the stages a file extraction tries, in order. Every plan
    /// ends with the bridge, so extraction is always attempted.
    pub fn plan_file_extraction(&self, file_size: Option<usize>) -> (r: Vec<ExtractionStage>)
        ensures
            r@ == self.spec_plan(file_size),
            r@.len() >= 1,
            r@.last() == ExtractionStage::Bridge,
    {
        let mut r: Vec<ExtractionStage> = Vec::new();
        if self.use_pure_rust {
            r.push(ExtractionStage::FastPath);
        }
        let big = match file_size {
            Some(sz) => self.use_mmap && sz > self.mmap_threshold,
            None => false,
        };
        if big {
            r.push(ExtractionStage::MappedBytes);
        }
        r.push(ExtractionStage::Bridge);
        proof {
            assert(r@ =~= self.spec_plan(file_size));
            assert(r@.last() == ExtractionStage::Bridge);
        }
        r
    }
}

impl Default for Extractor {
    fn default() -> (r: Self)
        ensures
            r.is_default(),
    {
        Self::new()
    }
}

} // verus!
