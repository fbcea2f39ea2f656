use vstd::prelude::*;
use crate::strutil::{alphabetic_char, ascii_punctuation_char, control_char, is_control_char,
    is_whitespace_char, numeric_char, uppercase_char, whitespace_char};
use vstd::string::StringSliceAdditionalSpecFns;
use vstd::utf8::{decode_utf8, encode_utf8, is_char_boundary, valid_utf8};

verus! {

/// The sequence with its leading whitespace removed.
pub open spec fn trim_start_chars(s: Seq<char>) -> Seq<char>
    decreases s.len(),
{
    if s.len() > 0 && whitespace_char(s[0]) {
        trim_start_chars(s.drop_first())
    } else {
        s
    }
}

/// The sequence with its trailing whitespace removed.
pub open spec fn trim_end_chars(s: Seq<char>) -> Seq<char>
    decreases s.len(),
{
    if s.len() > 0 && whitespace_char(s.last()) {
        trim_end_chars(s.drop_last())
    } else {
        s
    }
}

/// The sequence with whitespace removed from both ends, as `str::trim`
/// removes it.
pub open spec fn spec_trim(s: Seq<char>) -> Seq<char> {
    trim_start_chars(trim_end_chars(s))
}

/// No two consecutive characters are both whitespace.
pub open spec fn no_adjacent_ws(s: Seq<char>) -> bool {
    forall|i: int| #![trigger s[i]] 0 <= i && i + 1 < s.len() ==> !(whitespace_char(s[i])
        && whitespace_char(s[i + 1]))
}

/// Neither the first nor the last character is whitespace.
pub open spec fn no_boundary_ws(s: Seq<char>) -> bool {
    &&& s.len() > 0 ==> !whitespace_char(s[0])
    &&& s.len() > 0 ==> !whitespace_char(s.last())
}

/// Every whitespace character in the sequence is a plain space.
pub open spec fn ws_only_space(s: Seq<char>) -> bool {
    forall|i: int| 0 <= i < s.len() && whitespace_char(s[i]) ==> s[i] == ' '
}

fn trim_vec(v: &Vec<char>) -> (r: Vec<char>)
    ensures
        r@ == spec_trim(v@),
{
    let n = v.len();
    proof {
        assert(v@.take(n as int) =~= v@);
    }
    let mut b: usize = n;
    while b > 0 && is_whitespace_char(v[b - 1])
        invariant
            n == v@.len(),
            0 <= b <= n,
            trim_end_chars(v@) == trim_end_chars(v@.take(b as int)),
        decreases b,
    {
        proof {
            assert(v@.take(b as int).drop_last() =~= v@.take(b - 1));
        }
        b -= 1;
    }
    proof {
        assert(trim_end_chars(v@.take(b as int)) == v@.take(b as int));
    }
    let mut a: usize = 0;
    proof {
        assert(v@.take(b as int).skip(0) =~= v@.take(b as int));
    }
    while a < b && is_whitespace_char(v[a])
        invariant
            n == v@.len(),
            0 <= a <= b <= n,
            trim_end_chars(v@) == v@.take(b as int),
            trim_start_chars(v@.take(b as int)) == trim_start_chars(
                v@.take(b as int).skip(a as int),
            ),
        decreases b - a,
    {
        proof {
            assert(v@.take(b as int).skip(a as int).drop_first() =~= v@.take(b as int).skip(
                a + 1,
            ));
        }
        a += 1;
    }
    proof {
        assert(trim_start_chars(v@.take(b as int).skip(a as int)) == v@.take(b as int).skip(
            a as int,
        ));
    }
    let mut r: Vec<char> = Vec::new();
    let mut i: usize = a;
    while i < b
        invariant
            n == v@.len(),
            a <= i <= b <= n,
            r@ == v@.subrange(a as int, i as int),
        decreases b - i,
    {
        let c = v[i];
        r.push(c);
        proof {
            assert(r@ =~= v@.subrange(a as int, i + 1));
        }
        i += 1;
    }
    proof {
        assert(r@ =~= v@.take(b as int).skip(a as int));
    }
    r
}

/// The whitespace-collapsed form of the characters from position `i` on:
/// each run of whitespace becomes a single space, tracked by whether the
/// previous character already produced one.
pub open spec fn norm_ws_from(s: Seq<char>, i: int, sp: bool) -> Seq<char>
    decreases s.len() - i,
{
    if i < 0 || i >= s.len() {
        seq![]
    } else if whitespace_char(s[i]) {
        if sp {
            norm_ws_from(s, i + 1, true)
        } else {
            seq![' '] + norm_ws_from(s, i + 1, true)
        }
    } else {
        seq![s[i]] + norm_ws_from(s, i + 1, false)
    }
}

/// What `normalize_whitespace` returns: whitespace runs collapsed to single
/// spaces, then both ends trimmed.
pub open spec fn spec_normalize(s: Seq<char>) -> Seq<char> {
    spec_trim(norm_ws_from(s, 0, false))
}

proof fn lemma_norm_props(s: Seq<char>, i: int, sp: bool)
    requires
        0 <= i,
    ensures
        no_adjacent_ws(norm_ws_from(s, i, sp)),
        ws_only_space(norm_ws_from(s, i, sp)),
        sp && norm_ws_from(s, i, sp).len() > 0 ==> !whitespace_char(norm_ws_from(s, i, sp)[0]),
    decreases s.len() - i,
{
    if i >= s.len() {
    } else if whitespace_char(s[i]) {
        lemma_norm_props(s, i + 1, true);
        if !sp {
            let rest = norm_ws_from(s, i + 1, true);
            let r = seq![' '] + rest;
            assert forall|k: int| #![trigger r[k]] 0 <= k && k + 1 < r.len() implies !(whitespace_char(r[k])
                && whitespace_char(r[k + 1])) by {
                if k == 0 {
                    assert(r[1] == rest[0]);
                } else {
                    assert(r[k] == rest[k - 1] && r[k + 1] == rest[k]);
                }
            }
            assert forall|k: int| #![trigger r[k]] 0 <= k < r.len() && whitespace_char(r[k]) implies r[k] == ' ' by {
                if k > 0 {
                    assert(r[k] == rest[k - 1]);
                }
            }
        }
    } else {
        lemma_norm_props(s, i + 1, false);
        let rest = norm_ws_from(s, i + 1, false);
        let r = seq![s[i]] + rest;
        assert forall|k: int| #![trigger r[k]] 0 <= k && k + 1 < r.len() implies !(whitespace_char(r[k])
            && whitespace_char(r[k + 1])) by {
            if k == 0 {
                assert(r[0] == s[i] && r[1] == rest[0]);
            } else {
                assert(r[k] == rest[k - 1] && r[k + 1] == rest[k]);
            }
        }
        assert forall|k: int| #![trigger r[k]] 0 <= k < r.len() && whitespace_char(r[k]) implies r[k] == ' ' by {
            if k > 0 {
                assert(r[k] == rest[k - 1]);
            }
        }
    }
}

proof fn lemma_trim_start_props(s: Seq<char>)
    ensures
        trim_start_chars(s).len() > 0 ==> !whitespace_char(trim_start_chars(s)[0]),
        trim_start_chars(s).len() > 0 ==> trim_start_chars(s).last() == s.last(),
        no_adjacent_ws(s) ==> no_adjacent_ws(trim_start_chars(s)),
        ws_only_space(s) ==> ws_only_space(trim_start_chars(s)),
        s.len() > 0 && !whitespace_char(s.last()) ==> trim_start_chars(s).len() > 0,
    decreases s.len(),
{
    if s.len() > 0 && whitespace_char(s[0]) {
        lemma_trim_start_props(s.drop_first());
        let d = s.drop_first();
        assert(d.len() > 0 ==> d.last() == s.last());
        assert(no_adjacent_ws(s) ==> no_adjacent_ws(d)) by {
            if no_adjacent_ws(s) {
                assert forall|k: int| #![trigger d[k]] 0 <= k && k + 1 < d.len() implies !(whitespace_char(d[k])
                    && whitespace_char(d[k + 1])) by {
                    assert(d[k] == s[k + 1] && d[k + 1] == s[k + 2]);
                }
            }
        }
        assert(ws_only_space(s) ==> ws_only_space(d)) by {
            if ws_only_space(s) {
                assert forall|k: int| #![trigger d[k]] 0 <= k < d.len() && whitespace_char(d[k]) implies d[k]
                    == ' ' by {
                    assert(d[k] == s[k + 1]);
                }
            }
        }
        if s.len() > 0 && !whitespace_char(s.last()) {
            assert(d.len() > 0);
            assert(d.last() == s.last());
        }
    }
}

proof fn lemma_trim_end_props(s: Seq<char>)
    ensures
        trim_end_chars(s).len() > 0 ==> !whitespace_char(trim_end_chars(s).last()),
        no_adjacent_ws(s) ==> no_adjacent_ws(trim_end_chars(s)),
        ws_only_space(s) ==> ws_only_space(trim_end_chars(s)),
        trim_end_chars(s).len() > 0 ==> trim_end_chars(s)[0] == s[0],
    decreases s.len(),
{
    if s.len() > 0 && whitespace_char(s.last()) {
        lemma_trim_end_props(s.drop_last());
        let d = s.drop_last();
        assert(no_adjacent_ws(s) ==> no_adjacent_ws(d)) by {
            if no_adjacent_ws(s) {
                assert forall|k: int| #![trigger d[k]] 0 <= k && k + 1 < d.len() implies !(whitespace_char(d[k])
                    && whitespace_char(d[k + 1])) by {
                    assert(d[k] == s[k] && d[k + 1] == s[k + 1]);
                }
            }
        }
        assert(ws_only_space(s) ==> ws_only_space(d)) by {
            if ws_only_space(s) {
                assert forall|k: int| #![trigger d[k]] 0 <= k < d.len() && whitespace_char(d[k]) implies d[k]
                    == ' ' by {
                    assert(d[k] == s[k]);
                }
            }
        }
    }
}

/// Properties of the normalized form: no whitespace run survives, the ends
/// are clean, and every surviving whitespace character is a space.
pub proof fn lemma_normalize_props(s: Seq<char>)
    ensures
        no_adjacent_ws(spec_normalize(s)),
        no_boundary_ws(spec_normalize(s)),
        ws_only_space(spec_normalize(s)),
{
    lemma_norm_props(s, 0, false);
    let m = norm_ws_from(s, 0, false);
    lemma_trim_end_props(m);
    lemma_trim_start_props(trim_end_chars(m));
}

proof fn lemma_norm_fixed(r: Seq<char>, i: int, sp: bool)
    requires
        0 <= i <= r.len(),
        no_adjacent_ws(r),
        ws_only_space(r),
        sp ==> (i < r.len() ==> !whitespace_char(r[i])),
    ensures
        norm_ws_from(r, i, sp) == r.skip(i),
    decreases r.len() - i,
{
    if i >= r.len() {
        assert(r.skip(i) =~= seq![]);
    } else if whitespace_char(r[i]) {
        assert(r[i] == ' ');
        if i + 1 < r.len() {
            assert(!(whitespace_char(r[i]) && whitespace_char(r[i + 1])));
        }
        lemma_norm_fixed(r, i + 1, true);
        assert(seq![' '] + r.skip(i + 1) =~= r.skip(i));
    } else {
        lemma_norm_fixed(r, i + 1, false);
        assert(seq![r[i]] + r.skip(i + 1) =~= r.skip(i));
    }
}

proof fn lemma_trim_noop(s: Seq<char>)
    requires
        no_boundary_ws(s),
    ensures
        spec_trim(s) == s,
{
}

/// Normalizing is idempotent: a second application changes nothing.
pub proof fn lemma_normalize_idempotent(s: Seq<char>)
    ensures
        spec_normalize(spec_normalize(s)) == spec_normalize(s),
{
    lemma_normalize_props(s);
    let r = spec_normalize(s);
    lemma_norm_fixed(r, 0, false);
    assert(r.skip(0) =~= r);
    lemma_trim_noop(r);
}

/// Collapses every run of whitespace to a single space and trims both
/// ends. The result has no two consecutive whitespace characters and no
/// leading or trailing whitespace, and a second application is a no-op.
pub fn normalize_whitespace(input: &str) -> (r: String)
    ensures
        r@ == spec_normalize(input@),
        no_adjacent_ws(r@),
        no_boundary_ws(r@),
        spec_normalize(r@) == r@,
{
    let cs = crate::strutil::chars_of(input);
    let n = cs.len();
    let mut out: Vec<char> = Vec::new();
    let mut sp = false;
    let mut i: usize = 0;
    while i < n
        invariant
            n == cs@.len(),
            cs@ == input@,
            0 <= i <= n,
            norm_ws_from(cs@, 0, false) == out@ + norm_ws_from(cs@, i as int, sp),
        decreases n - i,
    {
        let c = cs[i];
        if is_whitespace_char(c) {
            if !sp {
                out.push(' ');
                sp = true;
            }
        } else {
            out.push(c);
            sp = false;
        }
        i += 1;
    }
    proof {
        assert(norm_ws_from(cs@, n as int, sp) =~= Seq::<char>::empty());
        assert(out@ =~= norm_ws_from(cs@, 0, false));
    }
    let trimmed = trim_vec(&out);
    let r = crate::strutil::string_from_chars(&trimmed);
    proof {
        lemma_normalize_props(input@);
        lemma_normalize_idempotent(input@);
    }
    r
}


/// The cleaned form of the characters from position `i` on: a tab or line
/// break becomes one space and absorbs the whitespace run after it, other
/// control characters are dropped, and everything else is kept.
pub open spec fn clean_from(s: Seq<char>, i: int, absorbing: bool) -> Seq<char>
    decreases s.len() - i,
{
    if i < 0 || i >= s.len() {
        seq![]
    } else if absorbing && whitespace_char(s[i]) {
        clean_from(s, i + 1, true)
    } else if s[i] == '\t' || s[i] == '\r' || s[i] == '\n' {
        seq![' '] + clean_from(s, i + 1, true)
    } else if control_char(s[i]) {
        clean_from(s, i + 1, false)
    } else {
        seq![s[i]] + clean_from(s, i + 1, false)
    }
}

/// What `clean_text_fast` returns: the cleaned characters, trimmed.
pub open spec fn spec_clean_text(s: Seq<char>) -> Seq<char> {
    spec_trim(clean_from(s, 0, false))
}

/// Cleans text: tabs and line breaks collapse with the whitespace run that
/// follows them into a single space, other control characters are removed,
/// and the ends are trimmed.
pub fn clean_text_fast(input: &str) -> (r: String)
    ensures
        r@ == spec_clean_text(input@),
{
    let cs = crate::strutil::chars_of(input);
    let n = cs.len();
    let mut out: Vec<char> = Vec::new();
    let mut absorbing = false;
    let mut i: usize = 0;
    while i < n
        invariant
            n == cs@.len(),
            cs@ == input@,
            0 <= i <= n,
            clean_from(cs@, 0, false) == out@ + clean_from(cs@, i as int, absorbing),
        decreases n - i,
    {
        let c = cs[i];
        if absorbing && is_whitespace_char(c) {
        } else if c == '\t' || c == '\r' || c == '\n' {
            out.push(' ');
            absorbing = true;
        } else if is_control_char(c) {
            absorbing = false;
        } else {
            out.push(c);
            absorbing = false;
        }
        i += 1;
    }
    proof {
        assert(clean_from(cs@, n as int, absorbing) =~= Seq::<char>::empty());
        assert(out@ =~= clean_from(cs@, 0, false));
    }
    let trimmed = trim_vec(&out);
    crate::strutil::string_from_chars(&trimmed)
}

/// The last element of a sequence, if any.
pub open spec fn last_of(s: Seq<char>) -> Option<char> {
    if s.len() > 0 {
        Some(s.last())
    } else {
        None
    }
}

/// The text kept from a markup buffer, scanning from position `i`: a `<`
/// opens a tag (inserting one separating space unless the text so far ends
/// with one), a `>` closes it, characters inside tags are dropped and
/// characters outside are kept. `last` is the most recently kept character.
pub open spec fn strip_from(s: Seq<char>, i: int, in_tag: bool, last: Option<char>) -> Seq<char>
    decreases s.len() - i,
{
    if i < 0 || i >= s.len() {
        seq![]
    } else if s[i] == '<' {
        if last is Some && last != Some(' ') {
            seq![' '] + strip_from(s, i + 1, true, Some(' '))
        } else {
            strip_from(s, i + 1, true, last)
        }
    } else if s[i] == '>' {
        strip_from(s, i + 1, false, last)
    } else if !in_tag {
        seq![s[i]] + strip_from(s, i + 1, false, Some(s[i]))
    } else {
        strip_from(s, i + 1, true, last)
    }
}

/// What `extract_text_content` returns: the markup-stripped text,
/// whitespace-normalized.
pub open spec fn spec_extract_text(s: Seq<char>) -> Seq<char> {
    spec_normalize(strip_from(s, 0, false, None))
}

/// Extracts the text content from mixed markup such as HTML: everything
/// between `<` and `>` is dropped, tag boundaries separate words, and the
/// result is whitespace-normalized.
pub fn extract_text_content(input: &str) -> (r: String)
    ensures
        r@ == spec_extract_text(input@),
{
    let cs = crate::strutil::chars_of(input);
    let n = cs.len();
    let mut out: Vec<char> = Vec::new();
    let mut in_tag = false;
    let mut i: usize = 0;
    while i < n
        invariant
            n == cs@.len(),
            cs@ == input@,
            0 <= i <= n,
            strip_from(cs@, 0, false, None) == out@ + strip_from(
                cs@,
                i as int,
                in_tag,
                last_of(out@),
            ),
        decreases n - i,
    {
        let c = cs[i];
        if c == '<' {
            if out.len() > 0 && out[out.len() - 1] != ' ' {
                out.push(' ');
            }
            in_tag = true;
        } else if c == '>' {
            in_tag = false;
        } else if !in_tag {
            out.push(c);
        }
        i += 1;
    }
    proof {
        assert(strip_from(cs@, n as int, in_tag, last_of(out@)) =~= Seq::<char>::empty());
        assert(out@ =~= strip_from(cs@, 0, false, None));
    }
    let joined = crate::strutil::string_from_chars(&out);
    normalize_whitespace(joined.as_str())
}



/// An ASCII whitespace byte, as `u8::is_ascii_whitespace` reports it.
pub open spec fn ascii_ws_byte(x: u8) -> bool {
    x == 0x20 || x == 0x09 || x == 0x0a || x == 0x0c || x == 0x0d
}

fn is_ascii_ws_byte(x: u8) -> (r: bool)
    ensures
        r == ascii_ws_byte(x),
{
    x == 0x20 || x == 0x09 || x == 0x0a || x == 0x0c || x == 0x0d
}

fn is_continuation(x: u8) -> (r: bool)
    ensures
        r == vstd::utf8::is_continuation_byte(x),
{
    0x80 <= x && x <= 0xbf
}

/// The largest position in `[1, t]` that holds an ASCII whitespace byte,
/// or 0 when there is none: the word boundary the backward scan finds.
pub open spec fn ws_scan(b: Seq<u8>, t: int) -> int
    decreases t,
{
    if t <= 0 {
        0
    } else if t < b.len() && ascii_ws_byte(b[t]) {
        t
    } else {
        ws_scan(b, t - 1)
    }
}

/// The largest character boundary at or below `t`.
pub open spec fn boundary_floor(b: Seq<u8>, t: int) -> int
    decreases t,
{
    if t <= 0 {
        0
    } else if is_char_boundary(b, t) {
        t
    } else {
        boundary_floor(b, t - 1)
    }
}

/// The byte position where truncation cuts: the nearest whitespace at or
/// before the limit, unless that lies more than 50 bytes back, in which
/// case the limit itself; in either case moved down to a character
/// boundary.
pub open spec fn spec_truncate_cut(b: Seq<u8>, n: int) -> int {
    let w = ws_scan(b, n);
    let lim = if n >= 50 {
        n - 50
    } else {
        0
    };
    let t = if w < lim {
        n
    } else {
        w
    };
    boundary_floor(b, t)
}

/// What `truncate_text_smart` returns: the input itself when its byte
/// length is within the limit, and otherwise the decoded prefix up to the
/// cut position followed by an ellipsis.
pub open spec fn spec_truncate(s: Seq<char>, n: int) -> Seq<char> {
    let b = encode_utf8(s);
    if b.len() <= n {
        s
    } else {
        decode_utf8(b.subrange(0, spec_truncate_cut(b, n))) + seq!['.', '.', '.']
    }
}

/// Truncates text to at most `max_length` bytes plus an ellipsis,
/// preferring a word boundary within 50 bytes below the limit and never
/// splitting a multi-byte character. Input within the limit is returned
/// unchanged.
pub fn truncate_text_smart(input: &str, max_length: usize) -> (r: String)
    ensures
        r@ == spec_truncate(input@, max_length as int),
        encode_utf8(input@).len() <= max_length ==> r@ == input@,
        encode_utf8(r@).len() <= max_length + 3,
        encode_utf8(input@).len() > max_length ==> r@.len() >= 3 && r@.subrange(
            r@.len() - 3,
            r@.len() as int,
        ) == seq!['.', '.', '.'],
{
    let bytes = input.as_bytes();
    let blen = bytes.len();
    if blen <= max_length {
        return input.to_owned();
    }
    proof {
        vstd::utf8::encode_utf8_valid_utf8(input@);
        assert(bytes@ == encode_utf8(input@));
    }
    let ghost b = bytes@;
    let mut t: usize = max_length;
    while t > 0 && !is_ascii_ws_byte(bytes[t])
        invariant
            blen == b.len(),
            max_length < blen,
            bytes@ == b,
            0 <= t <= max_length,
            ws_scan(b, max_length as int) == ws_scan(b, t as int),
        decreases t,
    {
        t -= 1;
    }
    proof {
        assert(t == ws_scan(b, max_length as int));
    }
    let w = t;
    let lim: usize = if max_length >= 50 {
        max_length - 50
    } else {
        0
    };
    let mut cut: usize = if w < lim {
        max_length
    } else {
        w
    };
    let ghost cut0 = cut as int;
    while cut > 0 && is_continuation(bytes[cut])
        invariant
            blen == b.len(),
            max_length < blen,
            bytes@ == b,
            valid_utf8(b),
            0 <= cut <= max_length,
            boundary_floor(b, cut0) == boundary_floor(b, cut as int),
        decreases cut,
    {
        proof {
            vstd::utf8::is_char_boundary_iff_not_is_continuation_byte(b, cut as int);
        }
        cut -= 1;
    }
    proof {
        if cut > 0 {
            vstd::utf8::is_char_boundary_iff_not_is_continuation_byte(b, cut as int);
        }
        assert(is_char_boundary(b, cut as int));
        assert(cut as int == spec_truncate_cut(b, max_length as int));
    }
    let mut out: Vec<u8> = Vec::new();
    let mut i: usize = 0;
    while i < cut
        invariant
            blen == b.len(),
            bytes@ == b,
            cut < blen,
            0 <= i <= cut,
            out@ == b.subrange(0, i as int),
        decreases cut - i,
    {
        let x = bytes[i];
        out.push(x);
        proof {
            assert(out@ =~= b.subrange(0, i + 1));
        }
        i += 1;
    }
    out.push(0x2e);
    out.push(0x2e);
    out.push(0x2e);
    proof {
        let pre = b.subrange(0, cut as int);
        let full = out@;
        assert(full =~= pre + seq![0x2eu8, 0x2eu8, 0x2eu8]);
        vstd::utf8::valid_utf8_split(b, cut as int);
        assert(valid_utf8(pre));
        assert(full.subrange(0, cut as int) =~= pre);
        assert(vstd::utf8::partial_valid_utf8(full, cut as int));
        assert(forall|k: int|
            0 <= cut as int <= k < cut + 3 <= full.len() ==> #[trigger] vstd::utf8::is_leading_byte_width_1(
                full[k],
            ));
        vstd::utf8::partial_valid_utf8_extend_ascii_block(full, cut as int, cut + 3);
        assert(full.subrange(0, cut + 3) =~= full);
        assert(valid_utf8(full));
        vstd::utf8::is_char_boundary_iff_not_is_continuation_byte(full, cut as int);
        assert(is_char_boundary(full, cut as int));
        vstd::utf8::decode_utf8_split(full, cut as int);
        let ell = full.subrange(cut as int, full.len() as int);
        assert(ell =~= seq![0x2eu8, 0x2eu8, 0x2eu8]);
        lemma_decode_ellipsis(ell);
        assert(decode_utf8(full) == decode_utf8(pre) + seq!['.', '.', '.']);
        vstd::utf8::decode_utf8_encode_utf8(full);
    }
    let r = crate::strutil::string_of_bytes(out);
    proof {
        assert(r@.subrange(r@.len() - 3, r@.len() as int) =~= seq!['.', '.', '.']);
    }
    r
}

proof fn lemma_decode_ellipsis(e: Seq<u8>)
    requires
        e =~= seq![0x2eu8, 0x2eu8, 0x2eu8],
    ensures
        valid_utf8(e),
        decode_utf8(e) == seq!['.', '.', '.'],
{
    assert((0x2eu8 & 0x7f) == 0x2eu8) by (bit_vector);
    assert(vstd::utf8::is_leading_byte_width_1(0x2eu8));
    let e1 = e.subrange(1, 3);
    let e2 = e.subrange(2, 3);
    let e3 = e.subrange(3, 3);
    assert(vstd::utf8::valid_first_scalar(e));
    assert(vstd::utf8::length_of_first_scalar(e) == 1);
    assert(vstd::utf8::pop_first_scalar(e) =~= e1);
    assert(vstd::utf8::valid_first_scalar(e1));
    assert(vstd::utf8::pop_first_scalar(e1) =~= e2);
    assert(vstd::utf8::valid_first_scalar(e2));
    assert(vstd::utf8::pop_first_scalar(e2) =~= e3);
    assert(e3.len() == 0);
    assert(valid_utf8(e3));
    assert(valid_utf8(e2));
    assert(valid_utf8(e1));
    assert(valid_utf8(e));
    assert(vstd::utf8::decode_first_scalar(e) == 0x2eu32);
    assert(vstd::utf8::decode_first_scalar(e1) == 0x2eu32);
    assert(vstd::utf8::decode_first_scalar(e2) == 0x2eu32);
    assert(0x2eu32 as char == '.');
    assert(decode_utf8(e3) =~= Seq::<char>::empty());
    assert(decode_utf8(e2) =~= seq!['.']);
    assert(decode_utf8(e1) =~= seq!['.', '.']);
    assert(decode_utf8(e) =~= seq!['.', '.', '.']);
}



/// Checks that a byte buffer is valid UTF-8.
pub fn validate_utf8_fast(bytes: &[u8]) -> (r: bool)
    ensures
        r == valid_utf8(bytes@),
{
    core::str::from_utf8(bytes).is_ok()
}

/// The classification a character gets when counted: the first matching
/// class of alphabetic, numeric, whitespace and ASCII punctuation, in that
/// order.
pub enum CharClass {
    Alpha,
    Num,
    Ws,
    Punct,
    Other,
}

/// The class of one character.
pub open spec fn char_class(c: char) -> CharClass {
    if alphabetic_char(c) {
        CharClass::Alpha
    } else if numeric_char(c) {
        CharClass::Num
    } else if whitespace_char(c) {
        CharClass::Ws
    } else if ascii_punctuation_char(c) {
        CharClass::Punct
    } else {
        CharClass::Other
    }
}

/// How many characters of the sequence fall in the given class.
pub open spec fn count_class(s: Seq<char>, cls: CharClass) -> int
    decreases s.len(),
{
    if s.len() == 0 {
        0
    } else {
        count_class(s.drop_last(), cls) + if char_class(s.last()) == cls {
            1int
        } else {
            0int
        }
    }
}

/// Character counts by class for a piece of text.
#[derive(Clone, Copy, Debug, PartialEq, Eq, Structural)]
pub struct TextStats {
    pub total_chars: usize,
    pub alphabetic: usize,
    pub numeric: usize,
    pub whitespace: usize,
    pub punctuation: usize,
}

impl TextStats {
    /// Counts the characters of the text by class: alphabetic, numeric,
    /// whitespace and ASCII punctuation, each character counted in the
    /// first class that fits it.
    pub fn analyze(text: &str) -> (st: TextStats)
        ensures
            st.total_chars == text@.len(),
            st.alphabetic == count_class(text@, CharClass::Alpha),
            st.numeric == count_class(text@, CharClass::Num),
            st.whitespace == count_class(text@, CharClass::Ws),
            st.punctuation == count_class(text@, CharClass::Punct),
    {
        let cs = crate::strutil::chars_of(text);
        let n = cs.len();
        let mut a: usize = 0;
        let mut nu: usize = 0;
        let mut w: usize = 0;
        let mut pu: usize = 0;
        let mut i: usize = 0;
        while i < n
            invariant
                n == cs@.len(),
                cs@ == text@,
                0 <= i <= n,
                a <= i && nu <= i && w <= i && pu <= i,
                a == count_class(cs@.take(i as int), CharClass::Alpha),
                nu == count_class(cs@.take(i as int), CharClass::Num),
                w == count_class(cs@.take(i as int), CharClass::Ws),
                pu == count_class(cs@.take(i as int), CharClass::Punct),
            decreases n - i,
        {
            proof {
                assert(cs@.take(i + 1).drop_last() =~= cs@.take(i as int));
                assert(cs@.take(i + 1).last() == cs@[i as int]);
            }
            let c = cs[i];
            if crate::strutil::is_alphabetic_char(c) {
                a += 1;
            } else if crate::strutil::is_numeric_char(c) {
                nu += 1;
            } else if is_whitespace_char(c) {
                w += 1;
            } else if crate::strutil::is_ascii_punctuation_char(c) {
                pu += 1;
            }
            i += 1;
        }
        proof {
            assert(cs@.take(n as int) =~= cs@);
        }
        TextStats { total_chars: n, alphabetic: a, numeric: nu, whitespace: w, punctuation: pu }
    }

    /// The meaningful-text heuristic: at least ten characters, an
    /// alphanumeric fraction above six tenths, and a whitespace fraction
    /// below four tenths.
    pub open spec fn spec_meaningful(self) -> bool {
        &&& self.total_chars >= 10
        &&& 10 * (self.alphabetic + self.numeric) > 6 * self.total_chars
        &&& 10 * self.whitespace < 4 * self.total_chars
    }

    /// Estimates whether the counted text reads as meaningful content.
    pub fn is_meaningful_text(&self) -> (r: bool)
        ensures
            r == self.spec_meaningful(),
    {
        if self.total_chars < 10 {
            return false;
        }
        let an: u128 = self.alphabetic as u128 + self.numeric as u128;
        let tot: u128 = self.total_chars as u128;
        let ws: u128 = self.whitespace as u128;
        an * 10 > tot * 6 && ws * 10 < tot * 4
    }
}

/// The byte length of one character's UTF-8 encoding.
pub open spec fn char_blen(c: char) -> int {
    vstd::utf8::encode_scalar(c as u32).len() as int
}

/// The byte length of a character sequence's UTF-8 encoding.
pub open spec fn seq_blen(s: Seq<char>) -> int {
    encode_utf8(s).len() as int
}

fn char_len(c: char) -> (r: usize)
    ensures
        r == char_blen(c),
        1 <= r <= 4,
{
    let u = c as u32;
    if u < 0x80 {
        1
    } else if u < 0x800 {
        2
    } else if u < 0x10000 {
        3
    } else {
        4
    }
}

proof fn lemma_encode_concat(a: Seq<char>, b: Seq<char>)
    ensures
        encode_utf8(a + b) == encode_utf8(a) + encode_utf8(b),
    decreases a.len(),
{
    if a.len() == 0 {
        assert(a + b =~= b);
        assert(encode_utf8(a) + encode_utf8(b) =~= encode_utf8(b));
    } else {
        assert((a + b).drop_first() =~= a.drop_first() + b);
        lemma_encode_concat(a.drop_first(), b);
        assert(encode_utf8(a + b) =~= encode_utf8(a) + encode_utf8(b));
    }
}

proof fn lemma_blen_take_step(v: Seq<char>, j: int)
    requires
        0 <= j < v.len(),
    ensures
        seq_blen(v.take(j + 1)) == seq_blen(v.take(j)) + char_blen(v[j]),
{
    assert(v.take(j + 1) =~= v.take(j) + seq![v[j]]);
    lemma_encode_concat(v.take(j), seq![v[j]]);
    let single = seq![v[j]];
    assert(single.len() == 1 && single[0] == v[j]);
    assert(single.drop_first() =~= Seq::<char>::empty());
    assert(encode_utf8(single) == vstd::utf8::encode_scalar(single[0] as u32) + encode_utf8(
        single.drop_first(),
    ));
    assert(encode_utf8(Seq::<char>::empty()) =~= Seq::<u8>::empty());
    assert(encode_utf8(single) =~= vstd::utf8::encode_scalar(v[j] as u32));
}

proof fn lemma_blen_mono(v: Seq<char>, j: int)
    requires
        0 <= j <= v.len(),
    ensures
        seq_blen(v.take(j)) <= seq_blen(v),
{
    assert(v =~= v.take(j) + v.skip(j));
    lemma_encode_concat(v.take(j), v.skip(j));
}

fn blen_capped(v: &Vec<char>, cap: usize) -> (r: usize)
    requires
        1 <= cap <= 100,
    ensures
        seq_blen(v@) < cap ==> r == seq_blen(v@),
        seq_blen(v@) >= cap ==> cap <= r <= seq_blen(v@),
{
    let n = v.len();
    let mut acc: usize = 0;
    let mut j: usize = 0;
    while j < n
        invariant
            n == v@.len(),
            cap <= 100,
            0 <= j <= n,
            acc < cap,
            acc == seq_blen(v@.take(j as int)),
        decreases n - j,
    {
        proof {
            lemma_blen_take_step(v@, j as int);
        }
        let cl = char_len(v[j]);
        acc += cl;
        j += 1;
        if acc >= cap {
            proof {
                lemma_blen_mono(v@, j as int);
            }
            return acc;
        }
    }
    proof {
        assert(v@.take(n as int) =~= v@);
    }
    acc
}

/// Every character is uppercase or whitespace: the shape of a shouting
/// header or footer line.
pub open spec fn all_upper_or_ws(t: Seq<char>) -> bool {
    forall|i: int| 0 <= i < t.len() ==> uppercase_char(#[trigger] t[i]) || whitespace_char(t[i])
}

fn all_upper_or_ws_exec(t: &Vec<char>) -> (r: bool)
    ensures
        r == all_upper_or_ws(t@),
{
    let n = t.len();
    let mut j: usize = 0;
    while j < n
        invariant
            n == t@.len(),
            0 <= j <= n,
            forall|k: int| 0 <= k < j ==> uppercase_char(#[trigger] t@[k]) || whitespace_char(t@[k]),
        decreases n - j,
    {
        let c = t[j];
        if !crate::strutil::is_uppercase_char(c) && !is_whitespace_char(c) {
            return false;
        }
        j += 1;
    }
    true
}

/// Index of the first line feed at or after `p`, or the length when there
/// is none.
pub open spec fn find_nl(s: Seq<char>, p: int) -> int
    decreases s.len() - p,
{
    if p < 0 || p >= s.len() {
        s.len() as int
    } else if s[p] == '\n' {
        p
    } else {
        find_nl(s, p + 1)
    }
}

proof fn lemma_find_nl_ge(s: Seq<char>, p: int)
    ensures
        0 <= p <= s.len() ==> find_nl(s, p) >= p,
        find_nl(s, p) <= s.len(),
    decreases s.len() - p,
{
    if 0 <= p < s.len() && s[p] != '\n' {
        lemma_find_nl_ge(s, p + 1);
    }
}

/// The line with a trailing carriage return removed, as `str::lines`
/// strips it.
pub open spec fn strip_cr(l: Seq<char>) -> Seq<char> {
    if l.len() > 0 && l.last() == '\r' {
        l.drop_last()
    } else {
        l
    }
}

/// What one line contributes to the cleaned document: nothing when its
/// trimmed form is empty, under three bytes, or a short all-caps header;
/// otherwise its cleaned text followed by a line feed, when that text is
/// nonempty.
pub open spec fn line_emit(l: Seq<char>) -> Seq<char> {
    let t = spec_trim(l);
    if t.len() == 0 {
        seq![]
    } else if seq_blen(t) < 3 {
        seq![]
    } else if seq_blen(t) < 20 && all_upper_or_ws(t) {
        seq![]
    } else {
        let c = spec_clean_text(t);
        if c.len() == 0 {
            seq![]
        } else {
            c + seq!['\n']
        }
    }
}

/// The concatenated contributions of the lines from position `p` on.
pub open spec fn clean_doc_from(s: Seq<char>, p: int) -> Seq<char>
    decreases s.len() - p,
    via clean_doc_from_dec
{
    if p < 0 || p >= s.len() {
        seq![]
    } else {
        let i = find_nl(s, p);
        let nxt = if i + 1 <= s.len() {
            i + 1
        } else {
            s.len() as int
        };
        line_emit(strip_cr(s.subrange(p, i))) + clean_doc_from(s, nxt)
    }
}

#[via_fn]
proof fn clean_doc_from_dec(s: Seq<char>, p: int) {
    if 0 <= p < s.len() {
        lemma_find_nl_ge(s, p);
    }
}

/// What `clean_document_text` returns: the per-line contributions,
/// trimmed.
pub open spec fn spec_clean_document(s: Seq<char>) -> Seq<char> {
    spec_trim(clean_doc_from(s, 0))
}

/// Cleans a document line by line: empty lines, very short lines and
/// short all-caps header or footer lines are dropped, and every kept line
/// is cleaned and ends with a line feed; the result is trimmed.
pub fn clean_document_text(input: &str) -> (r: String)
    ensures
        r@ == spec_clean_document(input@),
{
    let cs = crate::strutil::chars_of(input);
    let n = cs.len();
    let mut out: Vec<char> = Vec::new();
    let mut p: usize = 0;
    while p < n
        invariant
            n == cs@.len(),
            cs@ == input@,
            0 <= p <= n,
            clean_doc_from(cs@, 0) == out@ + clean_doc_from(cs@, p as int),
        decreases n - p,
    {
        let ghost p0 = p as int;
        let ghost out_start = out@;
        let mut i: usize = p;
        while i < n && cs[i] != '\n'
            invariant
                n == cs@.len(),
                p <= i <= n,
                find_nl(cs@, p as int) == find_nl(cs@, i as int),
            decreases n - i,
        {
            i += 1;
        }
        proof {
            assert(i as int == find_nl(cs@, p as int));
        }
        let mut line: Vec<char> = Vec::new();
        let mut j: usize = p;
        while j < i
            invariant
                n == cs@.len(),
                p <= j <= i <= n,
                line@ == cs@.subrange(p as int, j as int),
            decreases i - j,
        {
            let c = cs[j];
            line.push(c);
            proof {
                assert(line@ =~= cs@.subrange(p as int, j + 1));
            }
            j += 1;
        }
        if line.len() > 0 && line[line.len() - 1] == '\r' {
            line.pop();
        }
        proof {
            assert(line@ =~= strip_cr(cs@.subrange(p0, i as int)));
        }
        let ghost lseq = strip_cr(cs@.subrange(p0, i as int));
        let t = trim_vec(&line);
        if t.len() > 0 {
            let bl = blen_capped(&t, 20);
            if bl >= 3 {
                let short_caps = bl < 20 && all_upper_or_ws_exec(&t);
                if !short_caps {
                    let tstr = crate::strutil::string_from_chars(&t);
                    let cleaned = clean_text_fast(tstr.as_str());
                    let cv = crate::strutil::chars_of(cleaned.as_str());
                    if cv.len() > 0 {
                        let m = cv.len();
                        let mut k: usize = 0;
                        while k < m
                            invariant
                                m == cv@.len(),
                                0 <= k <= m,
                                out@ == out_start + cv@.take(k as int),
                            decreases m - k,
                        {
                            let c = cv[k];
                            out.push(c);
                            proof {
                                assert(out@ =~= out_start + cv@.take(k + 1));
                            }
                            k += 1;
                        }
                        out.push('\n');
                        proof {
                            assert(cv@.take(m as int) =~= cv@);
                            assert(line_emit(lseq) == cv@ + seq!['\n']);
                            assert(out@ =~= out_start + line_emit(lseq));
                        }
                    } else {
                        proof {
                            assert(line_emit(lseq) =~= Seq::<char>::empty());
                            assert(out@ =~= out_start + line_emit(lseq));
                        }
                    }
                } else {
                    proof {
                        assert(line_emit(lseq) =~= Seq::<char>::empty());
                        assert(out@ =~= out_start + line_emit(lseq));
                    }
                }
            } else {
                proof {
                    assert(line_emit(lseq) =~= Seq::<char>::empty());
                    assert(out@ =~= out_start + line_emit(lseq));
                }
            }
        } else {
            proof {
                assert(line_emit(lseq) =~= Seq::<char>::empty());
                assert(out@ =~= out_start + line_emit(lseq));
            }
        }
        if i < n {
            p = i + 1;
        } else {
            p = n;
        }
        proof {
            assert(clean_doc_from(cs@, p0) == line_emit(lseq) + clean_doc_from(cs@, p as int));
            assert(clean_doc_from(cs@, 0) =~= out@ + clean_doc_from(cs@, p as int));
        }
    }
    proof {
        assert(clean_doc_from(cs@, n as int) =~= Seq::<char>::empty());
        assert(out@ =~= clean_doc_from(cs@, 0));
    }
    let trimmed = trim_vec(&out);
    crate::strutil::string_from_chars(&trimmed)
}



/// A plain byte-length cap: text over the limit is cut at the largest
/// character boundary at or below it, with no ellipsis.
pub open spec fn spec_cap_bytes(s: Seq<char>, n: int) -> Seq<char> {
    let b = encode_utf8(s);
    if b.len() <= n {
        s
    } else {
        decode_utf8(b.subrange(0, boundary_floor(b, n)))
    }
}

/// Truncates text to at most `max_length` bytes, cutting at a character
/// boundary; text within the limit is returned unchanged.
pub fn truncate_to_char_boundary(text: String, max_length: usize) -> (r: String)
    ensures
        r@ == spec_cap_bytes(text@, max_length as int),
        encode_utf8(r@).len() <= max_length,
{
    let bytes = text.as_str().as_bytes();
    let blen = bytes.len();
    if blen <= max_length {
        return text;
    }
    proof {
        vstd::utf8::encode_utf8_valid_utf8(text@);
    }
    let ghost b = bytes@;
    let mut cut: usize = max_length;
    while cut > 0 && is_continuation(bytes[cut])
        invariant
            blen == b.len(),
            max_length < blen,
            bytes@ == b,
            b == encode_utf8(text@),
            valid_utf8(b),
            0 <= cut <= max_length,
            boundary_floor(b, max_length as int) == boundary_floor(b, cut as int),
        decreases cut,
    {
        proof {
            vstd::utf8::is_char_boundary_iff_not_is_continuation_byte(b, cut as int);
        }
        cut -= 1;
    }
    proof {
        if cut > 0 {
            vstd::utf8::is_char_boundary_iff_not_is_continuation_byte(b, cut as int);
        }
        assert(is_char_boundary(b, cut as int));
        assert(cut as int == boundary_floor(b, max_length as int));
    }
    let mut out: Vec<u8> = Vec::new();
    let mut i: usize = 0;
    while i < cut
        invariant
            blen == b.len(),
            bytes@ == b,
            cut < blen,
            0 <= i <= cut,
            out@ == b.subrange(0, i as int),
        decreases cut - i,
    {
        let x = bytes[i];
        out.push(x);
        proof {
            assert(out@ =~= b.subrange(0, i + 1));
        }
        i += 1;
    }
    proof {
        vstd::utf8::valid_utf8_split(b, cut as int);
        assert(out@ =~= b.subrange(0, cut as int));
        vstd::utf8::decode_utf8_encode_utf8(out@);
    }
    crate::strutil::string_of_bytes(out)
}


} // verus!
