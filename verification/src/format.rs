use vstd::prelude::*;
use vstd::string::StringSliceAdditionalSpecFns;
use vstd::utf8::{decode_utf8, valid_utf8};
use crate::strutil::whitespace_char;

verus! {

/// The document-format tags that detection can produce.
#[derive(Clone, Copy, Debug, PartialEq, Eq, Structural)]
pub enum DocumentFormat {
    Pdf,
    Docx,
    Xlsx,
    Pptx,
    Html,
    Xml,
    Csv,
    Text,
    Json,
    Unknown,
}

/// The first four bytes of the buffer equal the given magic sequence.
pub open spec fn magic4(b: Seq<u8>, m0: u8, m1: u8, m2: u8, m3: u8) -> bool {
    b.len() >= 4 && b[0] == m0 && b[1] == m1 && b[2] == m2 && b[3] == m3
}

fn match4(b: &[u8], m0: u8, m1: u8, m2: u8, m3: u8) -> (r: bool)
    requires
        b@.len() >= 4,
    ensures
        r == magic4(b@, m0, m1, m2, m3),
{
    b[0] == m0 && b[1] == m1 && b[2] == m2 && b[3] == m3
}

/// The pattern occurs in the buffer at position `i`.
pub open spec fn match_at(b: Seq<u8>, pat: Seq<u8>, i: int) -> bool {
    &&& 0 <= i
    &&& i + pat.len() <= b.len()
    &&& forall|j: int| 0 <= j < pat.len() ==> b[i + j] == pat[j]
}

/// The pattern occurs somewhere in the buffer, ending at or before `end`.
pub open spec fn contains_within(b: Seq<u8>, pat: Seq<u8>, end: int) -> bool {
    exists|i: int| i + pat.len() <= end && match_at(b, pat, i)
}

fn slice_match_at(b: &[u8], pat: &[u8], i: usize) -> (r: bool)
    requires
        i + pat@.len() <= b@.len(),
    ensures
        r == match_at(b@, pat@, i as int),
{
    let bn = b.len();
    let n = pat.len();
    let mut j: usize = 0;
    while j < n
        invariant
            bn == b@.len(),
            n == pat@.len(),
            i + n <= b@.len(),
            0 <= j <= n,
            forall|k: int| 0 <= k < j ==> b@[i + k] == pat@[k],
        decreases n - j,
    {
        if b[i + j] != pat[j] {
            return false;
        }
        j += 1;
    }
    true
}

fn contains_bytes_within(b: &[u8], pat: &[u8], end: usize) -> (r: bool)
    requires
        end <= b@.len(),
        pat@.len() >= 1,
    ensures
        r == contains_within(b@, pat@, end as int),
{
    let n = pat.len();
    if end < n {
        return false;
    }
    let last = end - n;
    let mut i: usize = 0;
    while i <= last
        invariant
            n == pat@.len(),
            end <= b@.len(),
            n <= end,
            last == end - n,
            0 <= i <= last + 1,
            forall|k: int| 0 <= k < i ==> !match_at(b@, pat@, k),
        decreases last + 1 - i,
    {
        if slice_match_at(b, pat, i) {
            return true;
        }
        i += 1;
    }
    false
}

/// Which Office tag a ZIP-led buffer gets: the first 100 bytes are scanned
/// for the `word/`, `xl/` and `ppt/` archive path prefixes (only when more
/// than 100 bytes are present), and an ambiguous archive defaults to Docx.
pub open spec fn spec_detect_office(b: Seq<u8>) -> DocumentFormat {
    if b.len() > 100 {
        if contains_within(b, seq![0x77u8, 0x6fu8, 0x72u8, 0x64u8, 0x2fu8], 100) {
            DocumentFormat::Docx
        } else if contains_within(b, seq![0x78u8, 0x6cu8, 0x2fu8], 100) {
            DocumentFormat::Xlsx
        } else if contains_within(b, seq![0x70u8, 0x70u8, 0x74u8, 0x2fu8], 100) {
            DocumentFormat::Pptx
        } else {
            DocumentFormat::Docx
        }
    } else {
        DocumentFormat::Docx
    }
}

fn detect_office_format(buffer: &[u8]) -> (r: DocumentFormat)
    ensures
        r == spec_detect_office(buffer@),
{
    if buffer.len() > 100 {
        let word_pat: [u8; 5] = [0x77, 0x6f, 0x72, 0x64, 0x2f];
        let xl_pat: [u8; 3] = [0x78, 0x6c, 0x2f];
        let ppt_pat: [u8; 4] = [0x70, 0x70, 0x74, 0x2f];
        proof {
            assert(word_pat@ =~= seq![0x77u8, 0x6fu8, 0x72u8, 0x64u8, 0x2fu8]);
            assert(xl_pat@ =~= seq![0x78u8, 0x6cu8, 0x2fu8]);
            assert(ppt_pat@ =~= seq![0x70u8, 0x70u8, 0x74u8, 0x2fu8]);
        }
        if contains_bytes_within(buffer, &word_pat, 100) {
            DocumentFormat::Docx
        } else if contains_bytes_within(buffer, &xl_pat, 100) {
            DocumentFormat::Xlsx
        } else if contains_bytes_within(buffer, &ppt_pat, 100) {
            DocumentFormat::Pptx
        } else {
            DocumentFormat::Docx
        }
    } else {
        DocumentFormat::Docx
    }
}

/// Index of the first occurrence of `x` at or after `i`, or the length when
/// the byte does not occur.
pub open spec fn find_byte(b: Seq<u8>, x: u8, i: int) -> int
    decreases b.len() - i,
{
    if i < 0 || i >= b.len() {
        b.len() as int
    } else if b[i] == x {
        i
    } else {
        find_byte(b, x, i + 1)
    }
}

/// How many times `x` occurs in `b` within `[i, j)`.
pub open spec fn count_byte(b: Seq<u8>, x: u8, i: int, j: int) -> int
    decreases j - i,
{
    if i < 0 || i >= j || j > b.len() {
        0
    } else {
        (if b[i] == x {
            1int
        } else {
            0int
        }) + count_byte(b, x, i + 1, j)
    }
}

/// The buffer has at least two text lines: some content follows the first
/// line feed.
pub open spec fn has_two_lines(b: Seq<u8>) -> bool {
    find_byte(b, 0x0a, 0) + 1 < b.len()
}

/// The CSV heuristic: at least two lines, and between 1 and 19 commas on
/// the first line.
pub open spec fn csv_shape(b: Seq<u8>) -> bool {
    &&& has_two_lines(b)
    &&& 1 <= count_byte(b, 0x2c, 0, find_byte(b, 0x0a, 0))
    &&& count_byte(b, 0x2c, 0, find_byte(b, 0x0a, 0)) <= 19
}

fn find_byte_exec(b: &[u8], x: u8) -> (r: usize)
    ensures
        r == find_byte(b@, x, 0),
        r <= b@.len(),
{
    let n = b.len();
    let mut i: usize = 0;
    while i < n
        invariant
            n == b@.len(),
            0 <= i <= n,
            find_byte(b@, x, 0) == find_byte(b@, x, i as int),
        decreases n - i,
    {
        if b[i] == x {
            return i;
        }
        i += 1;
    }
    i
}

fn count_byte_exec(b: &[u8], x: u8, to: usize) -> (r: usize)
    requires
        to <= b@.len(),
    ensures
        r == count_byte(b@, x, 0, to as int),
        r <= to,
{
    let mut i: usize = to;
    let mut c: usize = 0;
    while i > 0
        invariant
            to <= b@.len(),
            0 <= i <= to,
            c <= to - i,
            c + count_byte(b@, x, 0, i as int) == count_byte(b@, x, 0, to as int),
        decreases i,
    {
        proof {
            lemma_count_byte_split(b@, x, 0, i - 1, i as int);
            assert(count_byte(b@, x, i as int, i as int) == 0);
            assert(count_byte(b@, x, i - 1, i as int) == (if b@[i - 1] == x {
                1int
            } else {
                0int
            }));
        }
        i -= 1;
        if b[i] == x {
            c += 1;
        }
    }
    c
}

proof fn lemma_count_byte_split(b: Seq<u8>, x: u8, i: int, m: int, j: int)
    requires
        0 <= i <= m <= j <= b.len(),
    ensures
        count_byte(b, x, i, j) == count_byte(b, x, i, m) + count_byte(b, x, m, j),
    decreases m - i,
{
    if i < m {
        lemma_count_byte_split(b, x, i + 1, m, j);
    } else {
        lemma_count_byte_nonneg(b, x, m, j);
    }
}

proof fn lemma_count_byte_nonneg(b: Seq<u8>, x: u8, i: int, j: int)
    ensures
        count_byte(b, x, i, j) >= 0,
    decreases j - i,
{
    if 0 <= i && i < j && j <= b.len() {
        lemma_count_byte_nonneg(b, x, i + 1, j);
    }
}

/// Index of the first character at or after `i` that is not whitespace.
pub open spec fn trim_start_idx(cs: Seq<char>, i: int) -> int
    decreases cs.len() - i,
{
    if i < 0 || i >= cs.len() {
        cs.len() as int
    } else if whitespace_char(cs[i]) {
        trim_start_idx(cs, i + 1)
    } else {
        i
    }
}

/// `c` equals the lowercase ASCII letter `p`, ignoring ASCII case.
pub open spec fn char_ci(c: char, p: char) -> bool {
    c == p || ('a' <= p && p <= 'z' && c as u32 == p as u32 - 32)
}

fn ci_eq(c: char, p: char) -> (r: bool)
    ensures
        r == char_ci(c, p),
{
    c == p || ('a' <= p && p <= 'z' && c as u32 == p as u32 - 32)
}

/// The characters starting at `i` spell the given lowercase ASCII pattern,
/// ignoring ASCII case.
pub open spec fn starts_ci(cs: Seq<char>, i: int, pat: Seq<char>) -> bool {
    &&& 0 <= i
    &&& i + pat.len() <= cs.len()
    &&& forall|j: int| 0 <= j < pat.len() ==> char_ci(cs[i + j], pat[j])
}

/// What a buffer that matched no magic sequence gets: Unknown unless it is
/// valid UTF-8; then the CSV heuristic, then HTML / XML / JSON inferred
/// from the first non-whitespace characters, and plain Text otherwise.
pub open spec fn spec_detect_text(b: Seq<u8>) -> DocumentFormat {
    if !valid_utf8(b) {
        DocumentFormat::Unknown
    } else if csv_shape(b) {
        DocumentFormat::Csv
    } else {
        let cs = decode_utf8(b);
        let i = trim_start_idx(cs, 0);
        if starts_ci(cs, i, seq!['<', '!', 'd', 'o', 'c', 't', 'y', 'p', 'e']) || starts_ci(
            cs,
            i,
            seq!['<', 'h', 't', 'm', 'l'],
        ) {
            DocumentFormat::Html
        } else if i < cs.len() && cs[i] == '<' {
            DocumentFormat::Xml
        } else if i < cs.len() && (cs[i] == '{' || cs[i] == '[') {
            DocumentFormat::Json
        } else {
            DocumentFormat::Text
        }
    }
}

fn detect_text_format(buffer: &[u8]) -> (r: DocumentFormat)
    ensures
        r == spec_detect_text(buffer@),
{
    broadcast use vstd::utf8::encode_utf8_decode_utf8;

    let text = match core::str::from_utf8(buffer) {
        Ok(t) => t,
        Err(_) => { return DocumentFormat::Unknown; },
    };
    let blen = buffer.len();
    let nl = find_byte_exec(buffer, 0x0a);
    if nl < blen && blen - nl > 1 {
        let commas = count_byte_exec(buffer, 0x2c, nl);
        if 1 <= commas && commas <= 19 {
            return DocumentFormat::Csv;
        }
    }
    let cs = crate::strutil::chars_of(text);
    proof {
        assert(cs@ == decode_utf8(buffer@));
    }
    let n = cs.len();
    let mut i: usize = 0;
    while i < n && crate::strutil::is_whitespace_char(cs[i])
        invariant
            n == cs@.len(),
            0 <= i <= n,
            trim_start_idx(cs@, 0) == trim_start_idx(cs@, i as int),
        decreases n - i,
    {
        i += 1;
    }
    if n >= 9 && i <= n - 9 && cs[i] == '<' && cs[i + 1] == '!' && ci_eq(cs[i + 2], 'd') && ci_eq(
        cs[i + 3],
        'o',
    ) && ci_eq(cs[i + 4], 'c') && ci_eq(cs[i + 5], 't') && ci_eq(cs[i + 6], 'y') && ci_eq(
        cs[i + 7],
        'p',
    ) && ci_eq(cs[i + 8], 'e') {
        return DocumentFormat::Html;
    }
    if n >= 5 && i <= n - 5 && cs[i] == '<' && ci_eq(cs[i + 1], 'h') && ci_eq(cs[i + 2], 't') && ci_eq(
        cs[i + 3],
        'm',
    ) && ci_eq(cs[i + 4], 'l') {
        return DocumentFormat::Html;
    }
    if i < n && cs[i] == '<' {
        return DocumentFormat::Xml;
    }
    if i < n && (cs[i] == '{' || cs[i] == '[') {
        return DocumentFormat::Json;
    }
    DocumentFormat::Text
}

/// The complete classification of a byte buffer: buffers under four bytes
/// are Unknown; then the magic sequences (`%PDF`, the ZIP local-file
/// header, HTML and XML tag prefixes, a JSON brace prefix); and text
/// heuristics as the last resort.
pub open spec fn spec_detect_format(b: Seq<u8>) -> DocumentFormat {
    if b.len() < 4 {
        DocumentFormat::Unknown
    } else if magic4(b, 0x25, 0x50, 0x44, 0x46) {
        DocumentFormat::Pdf
    } else if magic4(b, 0x50, 0x4b, 0x03, 0x04) {
        spec_detect_office(b)
    } else if magic4(b, 0x3c, 0x68, 0x74, 0x6d) || magic4(b, 0x3c, 0x48, 0x54, 0x4d) || magic4(
        b,
        0x3c,
        0x21,
        0x44,
        0x4f,
    ) {
        DocumentFormat::Html
    } else if magic4(b, 0x3c, 0x3f, 0x78, 0x6d) {
        DocumentFormat::Xml
    } else if magic4(b, 0x7b, 0x0a, 0x20, 0x20) {
        DocumentFormat::Json
    } else {
        spec_detect_text(b)
    }
}

/// Classifies a byte buffer into a document format from magic bytes and
/// content heuristics. Total and deterministic: the result is a function
/// of the buffer's bytes alone.
pub fn detect_format_from_bytes(buffer: &[u8]) -> (r: DocumentFormat)
    ensures
        r == spec_detect_format(buffer@),
{
    if buffer.len() < 4 {
        return DocumentFormat::Unknown;
    }
    if match4(buffer, 0x25, 0x50, 0x44, 0x46) {
        DocumentFormat::Pdf
    } else if match4(buffer, 0x50, 0x4b, 0x03, 0x04) {
        detect_office_format(buffer)
    } else if match4(buffer, 0x3c, 0x68, 0x74, 0x6d) || match4(buffer, 0x3c, 0x48, 0x54, 0x4d)
        || match4(buffer, 0x3c, 0x21, 0x44, 0x4f) {
        DocumentFormat::Html
    } else if match4(buffer, 0x3c, 0x3f, 0x78, 0x6d) {
        DocumentFormat::Xml
    } else if match4(buffer, 0x7b, 0x0a, 0x20, 0x20) {
        DocumentFormat::Json
    } else {
        detect_text_format(buffer)
    }
}


impl DocumentFormat {
    /// The tag's name, as it reads in messages.
    pub open spec fn spec_name(self) -> Seq<char> {
        match self {
            DocumentFormat::Pdf => "Pdf"@,
            DocumentFormat::Docx => "Docx"@,
            DocumentFormat::Xlsx => "Xlsx"@,
            DocumentFormat::Pptx => "Pptx"@,
            DocumentFormat::Html => "Html"@,
            DocumentFormat::Xml => "Xml"@,
            DocumentFormat::Csv => "Csv"@,
            DocumentFormat::Text => "Text"@,
            DocumentFormat::Json => "Json"@,
            DocumentFormat::Unknown => "Unknown"@,
        }
    }

    /// The tag's name as a string.
    pub fn name(&self) -> (r: String)
        ensures
            r@ == self.spec_name(),
    {
        match self {
            DocumentFormat::Pdf => "Pdf".to_owned(),
            DocumentFormat::Docx => "Docx".to_owned(),
            DocumentFormat::Xlsx => "Xlsx".to_owned(),
            DocumentFormat::Pptx => "Pptx".to_owned(),
            DocumentFormat::Html => "Html".to_owned(),
            DocumentFormat::Xml => "Xml".to_owned(),
            DocumentFormat::Csv => "Csv".to_owned(),
            DocumentFormat::Text => "Text".to_owned(),
            DocumentFormat::Json => "Json".to_owned(),
            DocumentFormat::Unknown => "Unknown".to_owned(),
        }
    }
}



/// The characters spell the given lowercase ASCII word, ignoring ASCII
/// case.
pub open spec fn word_ci(cs: Seq<char>, w: Seq<char>) -> bool {
    cs.len() == w.len() && starts_ci(cs, 0, w)
}

fn matches_word(cs: &Vec<char>, w: &[char]) -> (r: bool)
    ensures
        r == word_ci(cs@, w@),
{
    let n = w.len();
    if cs.len() != n {
        return false;
    }
    let mut j: usize = 0;
    while j < n
        invariant
            n == w@.len(),
            cs@.len() == n,
            0 <= j <= n,
            forall|k: int| 0 <= k < j ==> char_ci(cs@[k], w@[k]),
        decreases n - j,
    {
        if !ci_eq(cs[j], w[j]) {
            return false;
        }
        j += 1;
    }
    true
}

/// The format a file extension maps to: the fixed, case-insensitive
/// extension table, with Unknown for everything else.
pub open spec fn spec_detect_extension(cs: Seq<char>) -> DocumentFormat {
    if word_ci(cs, seq!['p', 'd', 'f']) {
        DocumentFormat::Pdf
    } else if word_ci(cs, seq!['d', 'o', 'c', 'x']) {
        DocumentFormat::Docx
    } else if word_ci(cs, seq!['x', 'l', 's', 'x']) {
        DocumentFormat::Xlsx
    } else if word_ci(cs, seq!['p', 'p', 't', 'x']) {
        DocumentFormat::Pptx
    } else if word_ci(cs, seq!['h', 't', 'm', 'l']) || word_ci(cs, seq!['h', 't', 'm']) {
        DocumentFormat::Html
    } else if word_ci(cs, seq!['x', 'm', 'l']) {
        DocumentFormat::Xml
    } else if word_ci(cs, seq!['c', 's', 'v']) {
        DocumentFormat::Csv
    } else if word_ci(cs, seq!['t', 'x', 't']) || word_ci(cs, seq!['m', 'd']) || word_ci(
        cs,
        seq!['r', 's', 't'],
    ) {
        DocumentFormat::Text
    } else if word_ci(cs, seq!['j', 's', 'o', 'n']) {
        DocumentFormat::Json
    } else {
        DocumentFormat::Unknown
    }
}

/// Classifies a file extension, ignoring ASCII case: the fastest
/// detection step, used before any content is read.
pub fn detect_format_from_extension(ext: &str) -> (r: DocumentFormat)
    ensures
        r == spec_detect_extension(ext@),
{
    let cs = crate::strutil::chars_of(ext);
    let pdf: [char; 3] = ['p', 'd', 'f'];
    let docx: [char; 4] = ['d', 'o', 'c', 'x'];
    let xlsx: [char; 4] = ['x', 'l', 's', 'x'];
    let pptx: [char; 4] = ['p', 'p', 't', 'x'];
    let html: [char; 4] = ['h', 't', 'm', 'l'];
    let htm: [char; 3] = ['h', 't', 'm'];
    let xml: [char; 3] = ['x', 'm', 'l'];
    let csv: [char; 3] = ['c', 's', 'v'];
    let txt: [char; 3] = ['t', 'x', 't'];
    let md: [char; 2] = ['m', 'd'];
    let rst: [char; 3] = ['r', 's', 't'];
    let json: [char; 4] = ['j', 's', 'o', 'n'];
    proof {
        assert(pdf@ =~= seq!['p', 'd', 'f']);
        assert(docx@ =~= seq!['d', 'o', 'c', 'x']);
        assert(xlsx@ =~= seq!['x', 'l', 's', 'x']);
        assert(pptx@ =~= seq!['p', 'p', 't', 'x']);
        assert(html@ =~= seq!['h', 't', 'm', 'l']);
        assert(htm@ =~= seq!['h', 't', 'm']);
        assert(xml@ =~= seq!['x', 'm', 'l']);
        assert(csv@ =~= seq!['c', 's', 'v']);
        assert(txt@ =~= seq!['t', 'x', 't']);
        assert(md@ =~= seq!['m', 'd']);
        assert(rst@ =~= seq!['r', 's', 't']);
        assert(json@ =~= seq!['j', 's', 'o', 'n']);
    }
    if matches_word(&cs, &pdf) {
        DocumentFormat::Pdf
    } else if matches_word(&cs, &docx) {
        DocumentFormat::Docx
    } else if matches_word(&cs, &xlsx) {
        DocumentFormat::Xlsx
    } else if matches_word(&cs, &pptx) {
        DocumentFormat::Pptx
    } else if matches_word(&cs, &html) || matches_word(&cs, &htm) {
        DocumentFormat::Html
    } else if matches_word(&cs, &xml) {
        DocumentFormat::Xml
    } else if matches_word(&cs, &csv) {
        DocumentFormat::Csv
    } else if matches_word(&cs, &txt) || matches_word(&cs, &md) || matches_word(&cs, &rst) {
        DocumentFormat::Text
    } else if matches_word(&cs, &json) {
        DocumentFormat::Json
    } else {
        DocumentFormat::Unknown
    }
}


} // verus!
