//! Character-level text primitives shared by the parsers.
//!
//! Everything here works on `Seq<char>` models: the executable helpers take
//! `Vec<char>` buffers and are specified against the spec functions below.
use vstd::prelude::*;

verus! {

/// The characters of a string slice, in order.
pub fn chars_of(s: &str) -> (out: Vec<char>)
    ensures
        out@ == s@,
{
    let mut out: Vec<char> = Vec::new();
    for c in it: s.chars()
        invariant
            out@ == it.seq().take(it.index() as int),
    {
        out.push(c);
    }
    out
}

/// `String`'s `FromIterator<char>`: a string holding exactly the given characters.
#[verifier::external_body]
pub fn string_of(chars: &Vec<char>) -> (s: String)
    ensures
        s@ == chars@,
{
    chars.iter().collect()
}

/// The copy of `s[a..b]`.
pub fn slice_of(s: &Vec<char>, a: usize, b: usize) -> (r: Vec<char>)
    requires
        a <= b <= s.len(),
    ensures
        r@ == s@.subrange(a as int, b as int),
{
    let mut r: Vec<char> = Vec::new();
    let mut i = a;
    while i < b
        invariant
            a <= i <= b <= s.len(),
            r@ == s@.subrange(a as int, i as int),
        decreases b - i,
    {
        r.push(s[i]);
        i += 1;
        assert(r@ =~= s@.subrange(a as int, i as int));
    }
    r
}

/// Appends all characters of `src` to `dst`.
pub fn append_chars(dst: &mut Vec<char>, src: &Vec<char>)
    ensures
        final(dst)@ == old(dst)@ + src@,
{
    let mut i: usize = 0;
    while i < src.len()
        invariant
            i <= src.len(),
            dst@ == old(dst)@ + src@.take(i as int),
        decreases src.len() - i,
    {
        dst.push(src[i]);
        i += 1;
        assert(dst@ =~= old(dst)@ + src@.take(i as int));
    }
    assert(src@.take(src.len() as int) =~= src@);
}

/// Appends the characters of a string slice to `dst`.
pub fn append_str(dst: &mut Vec<char>, src: &str)
    ensures
        final(dst)@ == old(dst)@ + src@,
{
    let v = chars_of(src);
    append_chars(dst, &v);
}

/// Character-wise equality of two buffers.
pub fn same_chars(a: &Vec<char>, b: &Vec<char>) -> (r: bool)
    ensures
        r == (a@ == b@),
{
    if a.len() != b.len() {
        return false;
    }
    let mut i: usize = 0;
    while i < a.len()
        invariant
            a.len() == b.len(),
            i <= a.len(),
            forall|j: int| 0 <= j < i ==> a@[j] == b@[j],
        decreases a.len() - i,
    {
        if a[i] != b[i] {
            return false;
        }
        i += 1;
    }
    assert(a@ =~= b@);
    true
}

/// Whether the buffer spells the given literal.
pub fn is_word(a: &Vec<char>, lit: &str) -> (r: bool)
    ensures
        r == (a@ == lit@),
{
    let w = chars_of(lit);
    same_chars(a, &w)
}

/// Whether `s` starts with `p`.
pub open spec fn has_prefix(s: Seq<char>, p: Seq<char>) -> bool {
    p.len() <= s.len() && s.take(p.len() as int) == p
}

/// Whether `s` ends with `p`.
pub open spec fn has_suffix(s: Seq<char>, p: Seq<char>) -> bool {
    p.len() <= s.len() && s.skip(s.len() - p.len()) == p
}

pub fn starts_with(s: &Vec<char>, p: &Vec<char>) -> (r: bool)
    ensures
        r == has_prefix(s@, p@),
{
    if p.len() > s.len() {
        return false;
    }
    let mut i: usize = 0;
    while i < p.len()
        invariant
            p.len() <= s.len(),
            i <= p.len(),
            forall|j: int| 0 <= j < i ==> s@[j] == p@[j],
        decreases p.len() - i,
    {
        if s[i] != p[i] {
            assert(s@.take(p.len() as int)[i as int] != p@[i as int]);
            return false;
        }
        i += 1;
    }
    assert(s@.take(p.len() as int) =~= p@);
    true
}

pub fn ends_with(s: &Vec<char>, p: &Vec<char>) -> (r: bool)
    ensures
        r == has_suffix(s@, p@),
{
    if p.len() > s.len() {
        return false;
    }
    let off = s.len() - p.len();
    let mut i: usize = 0;
    while i < p.len()
        invariant
            p.len() <= s.len(),
            off == s.len() - p.len(),
            i <= p.len(),
            forall|j: int| 0 <= j < i ==> s@[off + j] == p@[j],
        decreases p.len() - i,
    {
        if s[off + i] != p[i] {
            assert(s@.skip(off as int)[i as int] != p@[i as int]);
            return false;
        }
        i += 1;
    }
    assert(s@.skip(off as int) =~= p@);
    true
}

/// Whether the last character of `s` is `c`.
pub fn ends_with_char(s: &Vec<char>, c: char) -> (r: bool)
    ensures
        r == (s@.len() > 0 && s@.last() == c),
{
    s.len() > 0 && s[s.len() - 1] == c
}

// ---------------------------------------------------------------------------
// Whitespace and trimming
// ---------------------------------------------------------------------------

/// Unicode `White_Space`, the set `char::is_whitespace` recognises.
pub open spec fn is_ws(c: char) -> bool {
    let u = c as u32;
    ||| 0x09 <= u <= 0x0D
    ||| u == 0x20
    ||| u == 0x85
    ||| u == 0xA0
    ||| u == 0x1680
    ||| 0x2000 <= u <= 0x200A
    ||| u == 0x2028
    ||| u == 0x2029
    ||| u == 0x202F
    ||| u == 0x205F
    ||| u == 0x3000
}

pub fn is_whitespace(c: char) -> (b: bool)
    ensures
        b == is_ws(c),
{
    let u = c as u32;
    (0x09 <= u && u <= 0x0D) || u == 0x20 || u == 0x85 || u == 0xA0 || u == 0x1680 || (0x2000
        <= u && u <= 0x200A) || u == 0x2028 || u == 0x2029 || u == 0x202F || u == 0x205F || u
        == 0x3000
}

/// `s` without its leading whitespace.
pub open spec fn trim_start(s: Seq<char>) -> Seq<char>
    decreases s.len(),
{
    if s.len() > 0 && is_ws(s[0]) {
        trim_start(s.drop_first())
    } else {
        s
    }
}

/// `s` without its trailing whitespace.
pub open spec fn trim_end(s: Seq<char>) -> Seq<char>
    decreases s.len(),
{
    if s.len() > 0 && is_ws(s.last()) {
        trim_end(s.drop_last())
    } else {
        s
    }
}

/// `str::trim`: `s` without leading and trailing whitespace.
pub open spec fn trim(s: Seq<char>) -> Seq<char> {
    trim_end(trim_start(s))
}

/// Whether every character of `s` is whitespace.
pub open spec fn all_ws(s: Seq<char>) -> bool {
    forall|i: int| 0 <= i < s.len() ==> is_ws(#[trigger] s[i])
}

pub proof fn lemma_trim_start_all_ws(s: Seq<char>)
    ensures
        (trim_start(s).len() == 0) == all_ws(s),
    decreases s.len(),
{
    if s.len() > 0 && is_ws(s[0]) {
        lemma_trim_start_all_ws(s.drop_first());
        if all_ws(s.drop_first()) {
            assert forall|i: int| 0 <= i < s.len() implies is_ws(#[trigger] s[i]) by {
                if i > 0 {
                    assert(s[i] == s.drop_first()[i - 1]);
                }
            }
        }
        if all_ws(s) {
            assert forall|i: int| 0 <= i < s.drop_first().len() implies is_ws(
                #[trigger] s.drop_first()[i],
            ) by {
                assert(s.drop_first()[i] == s[i + 1]);
            }
        }
    }
}

pub proof fn lemma_trim_end_len(s: Seq<char>)
    ensures
        (trim_end(s).len() == 0) == (s.len() == 0 || (all_ws(s))),
    decreases s.len(),
{
    if s.len() > 0 && is_ws(s.last()) {
        lemma_trim_end_len(s.drop_last());
        if all_ws(s.drop_last()) {
            assert forall|i: int| 0 <= i < s.len() implies is_ws(#[trigger] s[i]) by {
                if i < s.len() - 1 {
                    assert(s[i] == s.drop_last()[i]);
                }
            }
        }
        if all_ws(s) {
            assert forall|i: int| 0 <= i < s.drop_last().len() implies is_ws(
                #[trigger] s.drop_last()[i],
            ) by {
                assert(s.drop_last()[i] == s[i]);
            }
        }
    } else if s.len() > 0 {
        assert(!is_ws(s[s.len() - 1]));
    }
}

/// Trimming gives the empty sequence exactly for all-whitespace input.
pub proof fn lemma_trim_empty(s: Seq<char>)
    ensures
        (trim(s).len() == 0) == all_ws(s),
{
    lemma_trim_start_all_ws(s);
    lemma_trim_end_len(trim_start(s));
    if trim_start(s).len() > 0 {
        // trim_start(s) begins with a non-whitespace character
        lemma_trim_start_shape(s);
        assert(!is_ws(trim_start(s)[0]));
    }
}

proof fn lemma_trim_start_shape(s: Seq<char>)
    ensures
        trim_start(s).len() > 0 ==> !is_ws(trim_start(s)[0]),
    decreases s.len(),
{
    if s.len() > 0 && is_ws(s[0]) {
        lemma_trim_start_shape(s.drop_first());
    }
}

/// Bounds of the trimmed part of `s[lo..hi]`.
pub fn trim_range(s: &Vec<char>, lo: usize, hi: usize) -> (r: (usize, usize))
    requires
        lo <= hi <= s.len(),
    ensures
        lo <= r.0 <= r.1 <= hi,
        s@.subrange(r.0 as int, r.1 as int) == trim(s@.subrange(lo as int, hi as int)),
{
    let mut a = lo;
    while a < hi && is_whitespace(s[a])
        invariant
            lo <= a <= hi <= s.len(),
            trim_start(s@.subrange(lo as int, hi as int)) == trim_start(
                s@.subrange(a as int, hi as int),
            ),
        decreases hi - a,
    {
        assert(s@.subrange(a as int, hi as int).drop_first() =~= s@.subrange(
            a + 1,
            hi as int,
        ));
        a += 1;
    }
    let mut b = hi;
    while b > a && is_whitespace(s[b - 1])
        invariant
            lo <= a <= b <= hi <= s.len(),
            trim_end(s@.subrange(a as int, hi as int)) == trim_end(
                s@.subrange(a as int, b as int),
            ),
        decreases b - a,
    {
        assert(s@.subrange(a as int, b as int).drop_last() =~= s@.subrange(
            a as int,
            b - 1,
        ));
        b -= 1;
    }
    (a, b)
}

/// `str::trim` on a character buffer.
pub fn trim_chars(s: &Vec<char>) -> (r: Vec<char>)
    ensures
        r@ == trim(s@),
{
    let (a, b) = trim_range(s, 0, s.len());
    assert(s@.subrange(0, s.len() as int) =~= s@);
    slice_of(s, a, b)
}

/// Whether `s` is empty after trimming.
pub fn is_blank(s: &Vec<char>) -> (r: bool)
    ensures
        r == (trim(s@).len() == 0),
{
    let (a, b) = trim_range(s, 0, s.len());
    assert(s@.subrange(0, s.len() as int) =~= s@);
    a == b
}

// ---------------------------------------------------------------------------
// ASCII case
// ---------------------------------------------------------------------------

/// `char::to_ascii_lowercase`.
pub open spec fn ascii_lower(c: char) -> char {
    if 'A' <= c <= 'Z' {
        ((c as u32) + 32) as char
    } else {
        c
    }
}

/// `char::to_ascii_uppercase`.
pub open spec fn ascii_upper(c: char) -> char {
    if 'a' <= c <= 'z' {
        ((c as u32) - 32) as char
    } else {
        c
    }
}

pub fn to_ascii_lower(c: char) -> (r: char)
    ensures
        r == ascii_lower(c),
{
    if 'A' <= c && c <= 'Z' {
        let u = (c as u32) + 32;
        assert(0x61 <= u <= 0x7A);
        char_from_ascii(u)
    } else {
        c
    }
}

pub fn to_ascii_upper(c: char) -> (r: char)
    ensures
        r == ascii_upper(c),
{
    if 'a' <= c && c <= 'z' {
        let u = (c as u32) - 32;
        char_from_ascii(u)
    } else {
        c
    }
}

/// The character with the given code below 128.
fn char_from_ascii(u: u32) -> (c: char)
    requires
        u < 128,
    ensures
        c == u as char,
{
    let b = u as u8;
    b as char
}

/// `str::eq_ignore_ascii_case`.
pub open spec fn eq_ignore_ascii_case(a: Seq<char>, b: Seq<char>) -> bool {
    a.len() == b.len() && forall|i: int|
        0 <= i < a.len() ==> ascii_lower(#[trigger] a[i]) == ascii_lower(b[i])
}

pub fn same_ignoring_ascii_case(a: &Vec<char>, b: &Vec<char>) -> (r: bool)
    ensures
        r == eq_ignore_ascii_case(a@, b@),
{
    if a.len() != b.len() {
        return false;
    }
    let mut i: usize = 0;
    while i < a.len()
        invariant
            a.len() == b.len(),
            i <= a.len(),
            forall|j: int| 0 <= j < i ==> ascii_lower(#[trigger] a@[j]) == ascii_lower(b@[j]),
        decreases a.len() - i,
    {
        if to_ascii_lower(a[i]) != to_ascii_lower(b[i]) {
            return false;
        }
        i += 1;
    }
    true
}

/// `str::eq_ignore_ascii_case` against a literal.
pub fn is_word_ignoring_ascii_case(a: &Vec<char>, lit: &str) -> (r: bool)
    ensures
        r == eq_ignore_ascii_case(a@, lit@),
{
    let w = chars_of(lit);
    same_ignoring_ascii_case(a, &w)
}

/// `str::to_ascii_lowercase` on the model.
pub open spec fn ascii_lower_seq(s: Seq<char>) -> Seq<char> {
    s.map_values(|c: char| ascii_lower(c))
}

/// `str::to_ascii_uppercase` on the model.
pub open spec fn ascii_upper_seq(s: Seq<char>) -> Seq<char> {
    s.map_values(|c: char| ascii_upper(c))
}

pub fn lower_ascii_chars(s: &Vec<char>) -> (r: Vec<char>)
    ensures
        r@ == ascii_lower_seq(s@),
{
    let mut r: Vec<char> = Vec::new();
    let mut i: usize = 0;
    while i < s.len()
        invariant
            i <= s.len(),
            r@ == ascii_lower_seq(s@.take(i as int)),
        decreases s.len() - i,
    {
        let c = to_ascii_lower(s[i]);
        r.push(c);
        i += 1;
        assert(r@ =~= ascii_lower_seq(s@.take(i as int)));
    }
    assert(s@.take(s.len() as int) =~= s@);
    r
}

pub fn upper_ascii_chars(s: &Vec<char>) -> (r: Vec<char>)
    ensures
        r@ == ascii_upper_seq(s@),
{
    let mut r: Vec<char> = Vec::new();
    let mut i: usize = 0;
    while i < s.len()
        invariant
            i <= s.len(),
            r@ == ascii_upper_seq(s@.take(i as int)),
        decreases s.len() - i,
    {
        let c = to_ascii_upper(s[i]);
        r.push(c);
        i += 1;
        assert(r@ =~= ascii_upper_seq(s@.take(i as int)));
    }
    assert(s@.take(s.len() as int) =~= s@);
    r
}

// ---------------------------------------------------------------------------
// Unicode case mapping (std)
// ---------------------------------------------------------------------------

/// What `str::to_lowercase` returns for a string with the given characters.
pub uninterp spec fn unicode_lowercase(s: Seq<char>) -> Seq<char>;

/// Whether every character is ASCII.
pub open spec fn all_ascii(s: Seq<char>) -> bool {
    forall|i: int| 0 <= i < s.len() ==> (#[trigger] s[i] as u32) < 128
}

/// The lowercase form of a text as `str::to_lowercase` gives it: on ASCII text
/// the ASCII lowercase letters, and otherwise the named Unicode result.
pub open spec fn lowercase(s: Seq<char>) -> Seq<char> {
    if all_ascii(s) {
        ascii_lower_seq(s)
    } else {
        unicode_lowercase(s)
    }
}

/// `str::to_lowercase`: the full Unicode lowercase mapping of `s`.
///
/// The contract names the result (`unicode_lowercase` of the input characters)
/// and states what std documents of ASCII text: the Unicode lowercase mapping of
/// an ASCII character is its ASCII lowercase. The Unicode tables that decide the
/// rest are not restated here.
#[verifier::external_body]
pub fn to_unicode_lowercase(s: &Vec<char>) -> (r: Vec<char>)
    ensures
        all_ascii(s@) ==> r@ == ascii_lower_seq(s@),
        !all_ascii(s@) ==> r@ == unicode_lowercase(s@),
{
    let text: String = s.iter().collect();
    text.to_lowercase().chars().collect()
}

// ---------------------------------------------------------------------------
// Decimal numbers
// ---------------------------------------------------------------------------

/// Whether `c` is an ASCII decimal digit.
pub open spec fn is_digit(c: char) -> bool {
    '0' <= c <= '9'
}

/// The value of an ASCII decimal digit.
pub open spec fn digit_value(c: char) -> int {
    (c as u32) - ('0' as u32)
}

/// Whether every character of `s` is an ASCII decimal digit.
pub open spec fn all_digits(s: Seq<char>) -> bool {
    forall|i: int| 0 <= i < s.len() ==> is_digit(#[trigger] s[i])
}

/// The value of a string of decimal digits, most significant first.
pub open spec fn digits_value(s: Seq<char>) -> int
    decreases s.len(),
{
    if s.len() == 0 {
        0
    } else {
        digits_value(s.drop_last()) * 10 + digit_value(s.last())
    }
}

/// The digits of `s`, once an optional leading `+` is removed.
pub open spec fn unsigned_digits(s: Seq<char>) -> Seq<char> {
    if s.len() > 0 && s[0] == '+' {
        s.drop_first()
    } else {
        s
    }
}

/// `str::parse::<T>()` for an unsigned integer type whose largest value is `max`:
/// an optional `+`, then one or more ASCII digits whose value does not exceed `max`.
pub open spec fn parse_unsigned(s: Seq<char>, max: int) -> Option<int> {
    let d = unsigned_digits(s);
    if d.len() > 0 && all_digits(d) && digits_value(d) <= max {
        Some(digits_value(d))
    } else {
        None
    }
}

/// `str::parse::<usize>()` on the model.
pub open spec fn parse_usize_spec(s: Seq<char>) -> Option<usize> {
    match parse_unsigned(s, usize::MAX as int) {
        Some(v) => Some(v as usize),
        None => None,
    }
}

pub proof fn lemma_digits_value_nonneg(s: Seq<char>)
    requires
        all_digits(s),
    ensures
        digits_value(s) >= 0,
    decreases s.len(),
{
    if s.len() > 0 {
        assert(all_digits(s.drop_last())) by {
            assert forall|i: int| 0 <= i < s.drop_last().len() implies is_digit(
                #[trigger] s.drop_last()[i],
            ) by {
                assert(s.drop_last()[i] == s[i]);
            }
        }
        lemma_digits_value_nonneg(s.drop_last());
        assert(is_digit(s[s.len() - 1]));
    }
}

/// Parses `s[lo..hi]` as an unsigned decimal no larger than `max`, as `str::parse` does.
pub fn parse_unsigned_range(s: &Vec<char>, lo: usize, hi: usize, max: u64) -> (r: Option<u64>)
    requires
        lo <= hi <= s.len(),
    ensures
        r == (match parse_unsigned(s@.subrange(lo as int, hi as int), max as int) {
            Some(v) => Some(v as u64),
            None => None::<u64>,
        }),
{
    let ghost t = s@.subrange(lo as int, hi as int);
    let mut start = lo;
    if lo < hi && s[lo] == '+' {
        start = lo + 1;
    }
    assert(unsigned_digits(t) =~= s@.subrange(start as int, hi as int));
    if start == hi {
        return None;
    }
    let mut value: u64 = 0;
    let mut i = start;
    while i < hi
        invariant
            lo <= start <= i <= hi <= s.len(),
            start < hi,
            unsigned_digits(s@.subrange(lo as int, hi as int)) == s@.subrange(start as int, hi as int),
            all_digits(s@.subrange(start as int, i as int)),
            digits_value(s@.subrange(start as int, i as int)) == value as int,
            value <= max,
        decreases hi - i,
    {
        let c = s[i];
        if !('0' <= c && c <= '9') {
            proof {
                let d = s@.subrange(start as int, hi as int);
                assert(d[i - start] == c);
                assert(!all_digits(d));
            }
            return None;
        }
        let dv = (c as u32 - '0' as u32) as u64;
        let ghost prev = s@.subrange(start as int, i as int);
        let ghost next = s@.subrange(start as int, i + 1);
        assert(next.drop_last() =~= prev);
        assert(all_digits(next)) by {
            assert forall|j: int| 0 <= j < next.len() implies is_digit(#[trigger] next[j]) by {
                if j < prev.len() {
                    assert(next[j] == prev[j]);
                }
            }
        }
        if (value as u128) * 10 + (dv as u128) > max as u128 {
            // value * 10 + dv > max: every longer prefix is too large as well
            proof {
                assert(digits_value(next) == value * 10 + dv);
                assert(s@.subrange(start as int, hi as int).take((i + 1 - start) as int) =~= next);
                lemma_prefix_too_large(s@.subrange(start as int, hi as int), (i + 1 - start) as int, max as int);
            }
            return None;
        }
        value = value * 10 + dv;
        i += 1;
    }
    Some(value)
}

/// Once a prefix of a digit string exceeds `max`, so does the whole string.
proof fn lemma_prefix_too_large(d: Seq<char>, k: int, max: int)
    requires
        0 < k <= d.len(),
        all_digits(d.take(k)),
        digits_value(d.take(k)) > max,
        max >= 0,
    ensures
        !all_digits(d) || digits_value(d) > max,
    decreases d.len() - k,
{
    if k == d.len() {
        assert(d.take(k) =~= d);
    } else if all_digits(d) {
        let n = d.take(k + 1);
        assert(n.drop_last() =~= d.take(k));
        assert(is_digit(d[k]));
        assert(all_digits(n)) by {
            assert forall|j: int| 0 <= j < n.len() implies is_digit(#[trigger] n[j]) by {
                assert(n[j] == d[j]);
            }
        }
        lemma_digits_value_nonneg(d.take(k));
        lemma_prefix_too_large(d, k + 1, max);
    }
}

/// `str::parse::<usize>()` on `s[lo..hi]`.
pub fn parse_usize_range(s: &Vec<char>, lo: usize, hi: usize) -> (r: Option<usize>)
    requires
        lo <= hi <= s.len(),
    ensures
        r == parse_usize_spec(s@.subrange(lo as int, hi as int)),
{
    let r = parse_unsigned_range(s, lo, hi, usize::MAX as u64);
    let ghost t = s@.subrange(lo as int, hi as int);
    assert(usize::MAX as u64 as int == usize::MAX as int);
    match r {
        Some(v) => {
            assert(parse_unsigned(t, usize::MAX as int) is Some);
            let ghost pv = parse_unsigned(t, usize::MAX as int)->0;
            assert(0 <= pv <= usize::MAX) by {
                lemma_digits_value_nonneg(unsigned_digits(t));
            }
            assert(v as int == pv);
            Some(v as usize)
        },
        None => None,
    }
}

/// `str::parse::<usize>()` on a whole buffer.
pub fn parse_usize(s: &Vec<char>) -> (r: Option<usize>)
    ensures
        r == parse_usize_spec(s@),
{
    assert(s@.subrange(0, s.len() as int) =~= s@);
    parse_usize_range(s, 0, s.len())
}

/// The decimal digits of `n`, most significant first (no leading zeros; `0` is `"0"`).
pub open spec fn decimal(n: nat) -> Seq<char>
    decreases n,
{
    if n < 10 {
        seq![digit_char(n)]
    } else {
        decimal(n / 10).push(digit_char(n % 10))
    }
}

/// The ASCII digit for a value below ten.
pub open spec fn digit_char(d: nat) -> char {
    ((d + 48) as u32) as char
}

/// `n.to_string()` for an unsigned integer.
pub fn decimal_chars(n: u64) -> (r: Vec<char>)
    ensures
        r@ == decimal(n as nat),
{
    decimal_chars_wide(n as u128)
}

/// `n.to_string()` for a 128-bit unsigned integer.
pub fn decimal_chars_wide(n: u128) -> (r: Vec<char>)
    ensures
        r@ == decimal(n as nat),
    decreases n,
{
    if n < 10 {
        let c = char_from_ascii((n + 48) as u32);
        let mut r: Vec<char> = Vec::new();
        r.push(c);
        assert(r@ =~= seq![digit_char(n as nat)]);
        r
    } else {
        let mut r = decimal_chars_wide(n / 10);
        let c = char_from_ascii((n % 10 + 48) as u32);
        r.push(c);
        r
    }
}

/// `format!("{:0w$}", n)`: the decimal digits of `n`, left-padded with zeros to width `w`.
pub open spec fn zero_padded(n: nat, w: nat) -> Seq<char> {
    let d = decimal(n);
    if d.len() >= w {
        d
    } else {
        Seq::new((w - d.len()) as nat, |i: int| '0') + d
    }
}

pub fn zero_padded_chars(n: u64, w: usize) -> (r: Vec<char>)
    ensures
        r@ == zero_padded(n as nat, w as nat),
{
    let d = decimal_chars(n);
    if d.len() >= w {
        return d;
    }
    let mut r: Vec<char> = Vec::new();
    let pad = w - d.len();
    let mut i: usize = 0;
    while i < pad
        invariant
            i <= pad,
            r@ == Seq::new(i as nat, |k: int| '0'),
        decreases pad - i,
    {
        r.push('0');
        i += 1;
        assert(r@ =~= Seq::new(i as nat, |k: int| '0'));
    }
    append_chars(&mut r, &d);
    r
}

// ---------------------------------------------------------------------------
// Splitting
// ---------------------------------------------------------------------------

/// The first index at which `c` occurs in `s`, if any.
pub open spec fn find_char(s: Seq<char>, c: char) -> Option<int>
    decreases s.len(),
{
    if s.len() == 0 {
        None
    } else if s[0] == c {
        Some(0)
    } else {
        match find_char(s.drop_first(), c) {
            Some(i) => Some(i + 1),
            None => None,
        }
    }
}

pub proof fn lemma_find_char(s: Seq<char>, c: char)
    ensures
        find_char(s, c) matches Some(i) ==> 0 <= i < s.len() && s[i] == c && forall|j: int|
            0 <= j < i ==> s[j] != c,
        find_char(s, c) is None ==> forall|j: int| 0 <= j < s.len() ==> s[j] != c,
    decreases s.len(),
{
    if s.len() > 0 && s[0] != c {
        lemma_find_char(s.drop_first(), c);
        assert forall|j: int| 0 < j < s.len() implies s[j] == s.drop_first()[j - 1] by {}
    }
}

/// Characterisation of `find_char` by the first occurrence.
pub proof fn lemma_find_char_at(s: Seq<char>, c: char, k: int)
    requires
        0 <= k <= s.len(),
        forall|j: int| 0 <= j < k ==> s[j] != c,
    ensures
        k < s.len() && s[k] == c ==> find_char(s, c) == Some(k),
        k == s.len() ==> find_char(s, c) is None,
    decreases k,
{
    if k > 0 {
        assert forall|j: int| 0 <= j < k - 1 implies s.drop_first()[j] != c by {
            assert(s.drop_first()[j] == s[j + 1]);
        }
        if k < s.len() && s[k] == c {
            assert(s.drop_first()[k - 1] == s[k]);
        }
        lemma_find_char_at(s.drop_first(), c, k - 1);
    }
}

/// `str::split(c)`: the pieces of `s` between occurrences of `c` (at least one piece).
pub open spec fn split_on(s: Seq<char>, c: char) -> Seq<Seq<char>>
    decreases s.len(),
{
    match find_char(s, c) {
        Some(i) => {
            if 0 <= i < s.len() {
                seq![s.take(i)] + split_on(s.skip(i + 1), c)
            } else {
                seq![s]
            }
        },
        None => seq![s],
    }
}

/// `str::split_inclusive(c)`: the pieces of `s`, each keeping its terminating `c`;
/// no empty last piece.
pub open spec fn split_inclusive(s: Seq<char>, c: char) -> Seq<Seq<char>>
    decreases s.len(),
{
    if s.len() == 0 {
        seq![]
    } else {
        match find_char(s, c) {
            Some(i) => {
                if 0 <= i < s.len() {
                    seq![s.take(i + 1)] + split_inclusive(s.skip(i + 1), c)
                } else {
                    seq![s]
                }
            },
            None => seq![s],
        }
    }
}

/// One line of `str::lines`: a piece of `split_inclusive('\n')` without its line ending.
pub open spec fn strip_line_ending(l: Seq<char>) -> Seq<char> {
    if l.len() > 0 && l.last() == '\n' {
        let m = l.drop_last();
        if m.len() > 0 && m.last() == '\r' {
            m.drop_last()
        } else {
            m
        }
    } else {
        l
    }
}

/// `str::lines`.
pub open spec fn lines(s: Seq<char>) -> Seq<Seq<char>> {
    split_inclusive(s, '\n').map_values(|l: Seq<char>| strip_line_ending(l))
}

/// Bounds `[start, end)` in `s` of the pieces that `split_on(s[lo..hi], c)` yields.
pub fn split_ranges(s: &Vec<char>, lo: usize, hi: usize, c: char) -> (r: Vec<(usize, usize)>)
    requires
        lo <= hi <= s.len(),
    ensures
        r@.len() == split_on(s@.subrange(lo as int, hi as int), c).len(),
        forall|k: int|
            0 <= k < r@.len() ==> lo <= (#[trigger] r@[k]).0 <= r@[k].1 <= hi && s@.subrange(
                r@[k].0 as int,
                r@[k].1 as int,
            ) == split_on(s@.subrange(lo as int, hi as int), c)[k],
{
    let mut r: Vec<(usize, usize)> = Vec::new();
    let mut start = lo;
    let mut i = lo;
    let ghost mut done: Seq<Seq<char>> = seq![];
    while i < hi
        invariant
            lo <= start <= i <= hi <= s.len(),
            forall|j: int| start <= j < i ==> s@[j] != c,
            split_on(s@.subrange(lo as int, hi as int), c) == done + split_on(
                s@.subrange(start as int, hi as int),
                c,
            ),
            r@.len() == done.len(),
            forall|k: int|
                0 <= k < r@.len() ==> lo <= (#[trigger] r@[k]).0 <= r@[k].1 <= hi
                    && s@.subrange(r@[k].0 as int, r@[k].1 as int) == done[k],
        decreases hi - i,
    {
        if s[i] == c {
            let ghost rest = s@.subrange(start as int, hi as int);
            proof {
                assert forall|j: int| 0 <= j < i - start implies rest[j] != c by {
                    assert(rest[j] == s@[start + j]);
                }
                lemma_find_char_at(rest, c, i - start);
                assert(rest.take(i - start) =~= s@.subrange(start as int, i as int));
                assert(rest.skip(i - start + 1) =~= s@.subrange(i + 1, hi as int));
                assert(seq![rest.take(i - start)] + split_on(rest.skip(i - start + 1), c)
                    =~= split_on(rest, c));
                done = done.push(s@.subrange(start as int, i as int));
                assert(split_on(s@.subrange(lo as int, hi as int), c) =~= done + split_on(
                    s@.subrange(i + 1, hi as int),
                    c,
                ));
            }
            r.push((start, i));
            start = i + 1;
        }
        i += 1;
    }
    proof {
        let rest = s@.subrange(start as int, hi as int);
        assert forall|j: int| 0 <= j < rest.len() implies rest[j] != c by {
            assert(rest[j] == s@[start + j]);
        }
        lemma_find_char_at(rest, c, rest.len() as int);
        done = done.push(rest);
    }
    r.push((start, hi));
    r
}

/// Bounds of the pieces of `split_inclusive(s[lo..hi], c)`.
pub fn split_inclusive_ranges(s: &Vec<char>, lo: usize, hi: usize, c: char) -> (r: Vec<
    (usize, usize),
>)
    requires
        lo <= hi <= s.len(),
    ensures
        r@.len() == split_inclusive(s@.subrange(lo as int, hi as int), c).len(),
        forall|k: int|
            0 <= k < r@.len() ==> lo <= (#[trigger] r@[k]).0 < r@[k].1 <= hi && s@.subrange(
                r@[k].0 as int,
                r@[k].1 as int,
            ) == split_inclusive(s@.subrange(lo as int, hi as int), c)[k],
{
    let mut r: Vec<(usize, usize)> = Vec::new();
    let mut start = lo;
    let mut i = lo;
    let ghost mut done: Seq<Seq<char>> = seq![];
    while i < hi
        invariant
            lo <= start <= i <= hi <= s.len(),
            forall|j: int| start <= j < i ==> s@[j] != c,
            split_inclusive(s@.subrange(lo as int, hi as int), c) == done + split_inclusive(
                s@.subrange(start as int, hi as int),
                c,
            ),
            r@.len() == done.len(),
            forall|k: int|
                0 <= k < r@.len() ==> lo <= (#[trigger] r@[k]).0 < r@[k].1 <= hi
                    && s@.subrange(r@[k].0 as int, r@[k].1 as int) == done[k],
        decreases hi - i,
    {
        if s[i] == c {
            let ghost rest = s@.subrange(start as int, hi as int);
            proof {
                assert forall|j: int| 0 <= j < i - start implies rest[j] != c by {
                    assert(rest[j] == s@[start + j]);
                }
                lemma_find_char_at(rest, c, i - start);
                assert(rest.take(i - start + 1) =~= s@.subrange(start as int, i + 1));
                assert(rest.skip(i - start + 1) =~= s@.subrange(i + 1, hi as int));
                assert(seq![rest.take(i - start + 1)] + split_inclusive(
                    rest.skip(i - start + 1),
                    c,
                ) =~= split_inclusive(rest, c));
                done = done.push(s@.subrange(start as int, i + 1));
                assert(split_inclusive(s@.subrange(lo as int, hi as int), c) =~= done
                    + split_inclusive(s@.subrange(i + 1, hi as int), c));
            }
            r.push((start, i + 1));
            start = i + 1;
        }
        i += 1;
    }
    let ghost rest = s@.subrange(start as int, hi as int);
    if start < hi {
        proof {
            assert forall|j: int| 0 <= j < rest.len() implies rest[j] != c by {
                assert(rest[j] == s@[start + j]);
            }
            lemma_find_char_at(rest, c, rest.len() as int);
            done = done.push(rest);
        }
        r.push((start, hi));
    } else {
        assert(rest.len() == 0);
        assert(done + split_inclusive(rest, c) =~= done);
    }
    r
}

/// Bounds `[a, b)` of the `k`-th line of `s`, as `str::lines` yields it.
pub fn line_ranges(s: &Vec<char>) -> (r: Vec<(usize, usize)>)
    ensures
        r@.len() == lines(s@).len(),
        forall|k: int|
            0 <= k < r@.len() ==> (#[trigger] r@[k]).0 <= r@[k].1 <= s.len() && s@.subrange(
                r@[k].0 as int,
                r@[k].1 as int,
            ) == lines(s@)[k],
{
    let pieces = split_inclusive_ranges(s, 0, s.len(), '\n');
    assert(s@.subrange(0, s.len() as int) =~= s@);
    let mut r: Vec<(usize, usize)> = Vec::new();
    let mut k: usize = 0;
    while k < pieces.len()
        invariant
            k <= pieces.len(),
            pieces@.len() == split_inclusive(s@, '\n').len(),
            forall|j: int|
                0 <= j < pieces@.len() ==> 0 <= (#[trigger] pieces@[j]).0 < pieces@[j].1 <= s.len()
                    && s@.subrange(pieces@[j].0 as int, pieces@[j].1 as int) == split_inclusive(
                    s@,
                    '\n',
                )[j],
            r@.len() == k,
            forall|j: int|
                0 <= j < k ==> (#[trigger] r@[j]).0 <= r@[j].1 <= s.len() && s@.subrange(
                    r@[j].0 as int,
                    r@[j].1 as int,
                ) == strip_line_ending(split_inclusive(s@, '\n')[j]),
        decreases pieces.len() - k,
    {
        let (a, b) = pieces[k];
        let ghost l = s@.subrange(a as int, b as int);
        let mut e = b;
        if s[b - 1] == '\n' {
            e = b - 1;
            assert(l.drop_last() =~= s@.subrange(a as int, e as int));
            if e > a && s[e - 1] == '\r' {
                assert(s@.subrange(a as int, e as int).drop_last() =~= s@.subrange(
                    a as int,
                    e - 1,
                ));
                e = e - 1;
            }
        }
        r.push((a, e));
        k += 1;
    }
    r
}


/// `str::split_whitespace`: the maximal runs of non-whitespace characters of `s`.
pub open spec fn split_ws(s: Seq<char>) -> Seq<Seq<char>>
    decreases s.len(),
{
    if s.len() == 0 {
        seq![]
    } else {
        let p = split_ws(s.drop_last());
        let c = s.last();
        if is_ws(c) {
            p
        } else if s.len() >= 2 && !is_ws(s[s.len() - 2]) && p.len() > 0 {
            p.drop_last().push(p.last().push(c))
        } else {
            p.push(seq![c])
        }
    }
}

/// Bounds of the pieces of `split_ws(s[lo..hi])`.
pub fn split_ws_ranges(s: &Vec<char>, lo: usize, hi: usize) -> (r: Vec<(usize, usize)>)
    requires
        lo <= hi <= s.len(),
    ensures
        r@.len() == split_ws(s@.subrange(lo as int, hi as int)).len(),
        forall|k: int|
            0 <= k < r@.len() ==> lo <= (#[trigger] r@[k]).0 <= r@[k].1 <= hi && s@.subrange(
                r@[k].0 as int,
                r@[k].1 as int,
            ) == split_ws(s@.subrange(lo as int, hi as int))[k],
{
    let mut r: Vec<(usize, usize)> = Vec::new();
    let mut i = lo;
    while i < hi
        invariant
            lo <= i <= hi <= s.len(),
            r@.len() == split_ws(s@.subrange(lo as int, i as int)).len(),
            forall|k: int|
                0 <= k < r@.len() ==> lo <= (#[trigger] r@[k]).0 <= r@[k].1 <= i && s@.subrange(
                    r@[k].0 as int,
                    r@[k].1 as int,
                ) == split_ws(s@.subrange(lo as int, i as int))[k],
            i > lo && !is_ws(s@[i - 1]) ==> r@.len() > 0 && r@.last().1 == i,
        decreases hi - i,
    {
        let ghost prev = s@.subrange(lo as int, i as int);
        let ghost cur = s@.subrange(lo as int, i + 1);
        assert(cur.drop_last() =~= prev);
        assert(cur.last() == s@[i as int]);
        let c = s[i];
        if is_whitespace(c) {
        } else if i > lo && !is_whitespace(s[i - 1]) {
            assert(cur[cur.len() - 2] == s@[i - 1]);
            let last = r.len() - 1;
            let (a, _) = r[last];
            assert(s@.subrange(a as int, i + 1) =~= s@.subrange(a as int, i as int).push(c));
            r.set(last, (a, i + 1));
        } else {
            assert(i > lo ==> cur[cur.len() - 2] == s@[i - 1]);
            r.push((i, i + 1));
            assert(s@.subrange(i as int, i + 1) =~= seq![c]);
        }
        i += 1;
    }
    r
}

/// The first index at which `p` occurs in `s`, if any (`str::find` with a string pattern).
pub open spec fn find_sub(s: Seq<char>, p: Seq<char>) -> Option<int>
    decreases s.len(),
{
    if s.len() < p.len() {
        None
    } else if s.take(p.len() as int) == p {
        Some(0)
    } else if s.len() == 0 {
        None
    } else {
        match find_sub(s.drop_first(), p) {
            Some(i) => Some(i + 1),
            None => None,
        }
    }
}

/// Whether `p` occurs in `s` at index `j`.
pub open spec fn occurs_at(s: Seq<char>, p: Seq<char>, j: int) -> bool {
    0 <= j && j + p.len() <= s.len() && s.subrange(j, j + p.len()) == p
}

/// Characterisation of `find_sub` by the first occurrence.
pub proof fn lemma_find_sub_from(s: Seq<char>, p: Seq<char>, k: int)
    requires
        0 <= k <= s.len(),
        forall|j: int| 0 <= j < k ==> !#[trigger] occurs_at(s, p, j),
    ensures
        occurs_at(s, p, k) ==> find_sub(s, p) == Some(k),
        k + p.len() > s.len() ==> find_sub(s, p) is None,
    decreases k,
{
    if k > 0 {
        let t = s.drop_first();
        if s.len() >= p.len() {
            assert(s.take(p.len() as int) =~= s.subrange(0, p.len() as int));
        }
        assert forall|j: int| 0 <= j < k - 1 implies !#[trigger] occurs_at(t, p, j) by {
            assert(!occurs_at(s, p, j + 1));
            if j + p.len() <= t.len() {
                assert(t.subrange(j, j + p.len()) =~= s.subrange(j + 1, j + 1 + p.len()));
            }
        }
        assert(!occurs_at(s, p, 0));
        if k + p.len() <= s.len() {
            assert(t.subrange(k - 1, k - 1 + p.len()) =~= s.subrange(k, k + p.len()));
        }
        lemma_find_sub_from(t, p, k - 1);
    } else {
        if p.len() <= s.len() {
            assert(s.take(p.len() as int) =~= s.subrange(0, p.len() as int));
        }
    }
}

/// The first index at which `p` occurs in `s`.
pub fn find_substring(s: &Vec<char>, p: &Vec<char>) -> (r: Option<usize>)
    ensures
        match r {
            Some(i) => find_sub(s@, p@) == Some(i as int) && i + p@.len() <= s@.len(),
            None => find_sub(s@, p@) is None,
        },
{
    if s.len() < p.len() {
        proof {
            lemma_find_sub_from(s@, p@, 0);
        }
        return None;
    }
    if p.len() == 0 {
        assert(s@.subrange(0, 0) =~= p@);
        proof {
            lemma_find_sub_from(s@, p@, 0);
        }
        return Some(0);
    }
    let n = s.len();
    let last = n - p.len();
    let mut i: usize = 0;
    while i <= last
        invariant
            n == s@.len(),
            last + p@.len() == s@.len(),
            p@.len() > 0,
            i <= last + 1,
            forall|j: int| 0 <= j < i ==> !#[trigger] occurs_at(s@, p@, j),
        decreases last + 1 - i,
    {
        let mut m: usize = 0;
        while m < p.len() && s[i + m] == p[m]
            invariant
                i <= last,
                n == s@.len(),
                last + p@.len() == s@.len(),
                m <= p@.len(),
                forall|t: int| 0 <= t < m ==> s@[i + t] == p@[t],
            decreases p@.len() - m,
        {
            m += 1;
        }
        if m == p.len() {
            assert(s@.subrange(i as int, i + p@.len()) =~= p@);
            proof {
                lemma_find_sub_from(s@, p@, i as int);
            }
            return Some(i);
        }
        assert(s@.subrange(i as int, i + p@.len())[m as int] != p@[m as int]);
        i += 1;
    }
    proof {
        lemma_find_sub_from(s@, p@, i as int);
    }
    None
}

/// The first index at which `c` occurs in `s` (`str::find` with a `char`).
pub fn find_char_index(s: &Vec<char>, c: char) -> (r: Option<usize>)
    ensures
        match r {
            Some(i) => find_char(s@, c) == Some(i as int) && i < s@.len(),
            None => find_char(s@, c) is None,
        },
{
    let mut i: usize = 0;
    while i < s.len()
        invariant
            i <= s@.len(),
            forall|j: int| 0 <= j < i ==> s@[j] != c,
        decreases s@.len() - i,
    {
        if s[i] == c {
            proof {
                lemma_find_char_at(s@, c, i as int);
            }
            return Some(i);
        }
        i += 1;
    }
    proof {
        lemma_find_char_at(s@, c, i as int);
    }
    None
}

/// `char::len_utf8`: the number of bytes of `c` in UTF-8.
pub open spec fn utf8_width(c: char) -> nat {
    let u = c as u32;
    if u < 0x80 {
        1
    } else if u < 0x800 {
        2
    } else if u < 0x10000 {
        3
    } else {
        4
    }
}

/// The number of bytes of `s` in UTF-8 (`str::len`).
pub open spec fn utf8_len(s: Seq<char>) -> nat
    decreases s.len(),
{
    if s.len() == 0 {
        0
    } else {
        utf8_len(s.drop_last()) + utf8_width(s.last())
    }
}

/// Whether byte offset `n` of `s`'s UTF-8 form falls between two characters
/// (`str::is_char_boundary`).
pub open spec fn byte_boundary(s: Seq<char>, n: nat) -> bool {
    exists|k: int| 0 <= k <= s.len() && utf8_len(s.take(k)) == n
}

/// Whether `c` is an ASCII character.
pub open spec fn is_ascii_char(c: char) -> bool {
    (c as u32) < 0x80
}

/// The UTF-8 length of a character buffer.
pub fn utf8_length(s: &Vec<char>) -> (r: u128)
    ensures
        r == utf8_len(s@),
{
    let mut total: u128 = 0;
    let mut i: usize = 0;
    while i < s.len()
        invariant
            i <= s@.len(),
            total == utf8_len(s@.take(i as int)),
            total <= 4 * i,
        decreases s@.len() - i,
    {
        assert(s@.take(i + 1).drop_last() =~= s@.take(i as int));
        let u = s[i] as u32;
        let w: u128 = if u < 0x80 {
            1
        } else if u < 0x800 {
            2
        } else if u < 0x10000 {
            3
        } else {
            4
        };
        total = total + w;
        i += 1;
    }
    assert(s@.take(s@.len() as int) =~= s@);
    total
}

/// The decimal text of `n` is a non-empty string of digits worth `n`.
pub proof fn lemma_decimal_digits(n: nat)
    ensures
        decimal(n).len() > 0,
        all_digits(decimal(n)),
        digits_value(decimal(n)) == n,
    decreases n,
{
    let c = digit_char(n % 10);
    assert(c as u32 == (n % 10) + 48);
    assert(digit_value(c) == n % 10);
    if n < 10 {
        assert(decimal(n) == seq![c]);
        assert(seq![c].drop_last() =~= Seq::<char>::empty());
        assert(digits_value(seq![c]) == digits_value(Seq::<char>::empty()) * 10 + digit_value(c));
    } else {
        lemma_decimal_digits(n / 10);
        let d = decimal(n / 10);
        let e = decimal(n);
        assert(e.drop_last() =~= d);
        assert forall|i: int| 0 <= i < e.len() implies is_digit(#[trigger] e[i]) by {
            if i < d.len() {
                assert(e[i] == d[i]);
            }
        }
    }
}

/// `str::parse::<usize>()` reads back the decimal text of any `usize`.
pub proof fn lemma_parse_decimal(n: usize)
    ensures
        parse_usize_spec(decimal(n as nat)) == Some(n),
{
    lemma_decimal_digits(n as nat);
    let d = decimal(n as nat);
    assert(is_digit(d[0]));
    assert(unsigned_digits(d) == d);
}

// ---------------------------------------------------------------------------
// Joining lines
// ---------------------------------------------------------------------------

/// A sequence with non-whitespace characters at both ends is its own trim.
pub proof fn lemma_trim_id(s: Seq<char>)
    requires
        s.len() > 0,
        !is_ws(s[0]),
        !is_ws(s.last()),
    ensures
        trim(s) == s,
{
}

proof fn lemma_trim_end_prefix(x: Seq<char>)
    ensures
        trim_end(x).len() <= x.len(),
        trim_end(x) == x.take(trim_end(x).len() as int),
        trim_end(x).len() > 0 ==> !is_ws(trim_end(x).last()),
    decreases x.len(),
{
    if x.len() > 0 && is_ws(x.last()) {
        lemma_trim_end_prefix(x.drop_last());
        assert(x.drop_last().take(trim_end(x).len() as int) =~= x.take(trim_end(x).len() as int));
    } else {
        assert(x.take(x.len() as int) =~= x);
    }
}

/// A non-empty sequence that is its own trim has non-whitespace characters at both ends.
pub proof fn lemma_trimmed_ends(s: Seq<char>)
    requires
        trim(s) == s,
        s.len() > 0,
    ensures
        !is_ws(s[0]),
        !is_ws(s.last()),
{
    let x = trim_start(s);
    lemma_trim_end_prefix(x);
    lemma_trim_start_shape(s);
    assert(s[0] == x[0]);
}

/// The text whose lines are `ls`: each line followed by `\n`.
pub open spec fn join_lines(ls: Seq<Seq<char>>) -> Seq<char>
    decreases ls.len(),
{
    if ls.len() == 0 {
        seq![]
    } else {
        join_lines(ls.drop_last()) + ls.last().push('\n')
    }
}

pub proof fn lemma_join_lines_concat(a: Seq<Seq<char>>, b: Seq<Seq<char>>)
    ensures
        join_lines(a + b) == join_lines(a) + join_lines(b),
    decreases b.len(),
{
    if b.len() == 0 {
        assert(a + b =~= a);
        assert(join_lines(a) + join_lines(b) =~= join_lines(a));
    } else {
        lemma_join_lines_concat(a, b.drop_last());
        assert((a + b).drop_last() =~= a + b.drop_last());
        assert((a + b).last() == b.last());
        assert(join_lines(a + b) =~= join_lines(a) + join_lines(b));
    }
}

/// The text of one line.
pub proof fn lemma_join_one_line(l: Seq<char>)
    ensures
        join_lines(seq![l]) == l.push('\n'),
{
    let e = Seq::<Seq<char>>::empty();
    assert(seq![l].drop_last() =~= e);
    assert(seq![l].last() == l);
    assert(join_lines(e) =~= Seq::<char>::empty());
    assert(join_lines(seq![l]) =~= join_lines(e) + l.push('\n'));
}

/// A line that `str::lines` gives back as it is: no `\n`, and no `\r` at its end.
pub open spec fn plain_line(l: Seq<char>) -> bool {
    !l.contains('\n') && !(l.len() > 0 && l.last() == '\r')
}

/// Every line of `ls` is plain.
pub open spec fn all_plain(ls: Seq<Seq<char>>) -> bool {
    forall|i: int| 0 <= i < ls.len() ==> plain_line(#[trigger] ls[i])
}

/// The lines of a plain line, its `\n`, and more text.
proof fn lemma_lines_cons(first: Seq<char>, r: Seq<char>)
    requires
        plain_line(first),
    ensures
        lines(first.push('\n') + r) == seq![first] + lines(r),
{
    let x = first.push('\n') + r;
    let k = first.len() as int;
    assert forall|j: int| 0 <= j < k implies x[j] != '\n' by {
        assert(x[j] == first[j]);
        if first[j] == '\n' {
            assert(first.contains('\n'));
        }
    }
    assert(x[k] == '\n');
    lemma_find_char_at(x, '\n', k);
    assert(x.take(k + 1) =~= first.push('\n'));
    assert(x.skip(k + 1) =~= r);
    assert(strip_line_ending(first.push('\n')) =~= first);
    let pieces = split_inclusive(x, '\n');
    assert(pieces == seq![first.push('\n')] + split_inclusive(r, '\n'));
    assert(lines(x) =~= seq![first] + lines(r));
}

/// `str::lines` gives back the plain lines that were joined.
pub proof fn lemma_lines_join(ls: Seq<Seq<char>>)
    requires
        all_plain(ls),
    ensures
        lines(join_lines(ls)) == ls,
    decreases ls.len(),
{
    if ls.len() == 0 {
        assert(lines(join_lines(ls)) =~= ls);
    } else {
        let first = ls[0];
        let rest = ls.drop_first();
        assert(ls =~= seq![first] + rest);
        lemma_join_lines_concat(seq![first], rest);
        lemma_join_one_line(first);
        assert(join_lines(ls) =~= first.push('\n') + join_lines(rest));
        assert(plain_line(ls[0]));
        assert forall|i: int| 0 <= i < rest.len() implies plain_line(#[trigger] rest[i]) by {
            assert(rest[i] == ls[i + 1]);
        }
        lemma_lines_join(rest);
        lemma_lines_cons(first, join_lines(rest));
        assert(lines(join_lines(ls)) =~= ls);
    }
}

/// The pieces of `split(s, '\n')` hold no `\n`, and joined as lines they give `s`
/// and a final `\n`.
pub proof fn lemma_split_on_lines(n: Seq<char>)
    ensures
        join_lines(split_on(n, '\n')) == n.push('\n'),
        forall|i: int|
            0 <= i < split_on(n, '\n').len() ==> !(#[trigger] split_on(n, '\n')[i]).contains('\n'),
    decreases n.len(),
{
    lemma_find_char(n, '\n');
    match find_char(n, '\n') {
        Some(i) => {
            let a = n.take(i);
            let b = n.skip(i + 1);
            lemma_split_on_lines(b);
            lemma_join_lines_concat(seq![a], split_on(b, '\n'));
            lemma_join_one_line(a);
            assert(n.push('\n') =~= a.push('\n') + b.push('\n'));
            let sp = split_on(n, '\n');
            assert(sp == seq![a] + split_on(b, '\n'));
            assert forall|j: int| 0 <= j < sp.len() implies !(#[trigger] sp[j]).contains('\n') by {
                if j == 0 {
                    if a.contains('\n') {
                        let w = choose|w: int| 0 <= w < a.len() && a[w] == '\n';
                        assert(n[w] == '\n');
                    }
                } else {
                    assert(sp[j] == split_on(b, '\n')[j - 1]);
                }
            }
        },
        None => {
            assert(split_on(n, '\n') =~= seq![n]);
            lemma_join_one_line(n);
        },
    }
}

/// Whether no character of `s` is whitespace.
pub open spec fn no_ws(s: Seq<char>) -> bool {
    forall|i: int| 0 <= i < s.len() ==> !is_ws(#[trigger] s[i])
}

/// A word with no whitespace splits into itself.
pub proof fn lemma_split_ws_word(w: Seq<char>)
    requires
        w.len() > 0,
        no_ws(w),
    ensures
        split_ws(w) == seq![w],
    decreases w.len(),
{
    let c = w.last();
    assert(!is_ws(w[w.len() - 1]));
    if w.len() == 1 {
        assert(w.drop_last() =~= Seq::<char>::empty());
        assert(split_ws(Seq::<char>::empty()) =~= Seq::<Seq<char>>::empty());
        assert(w =~= seq![c]);
        assert(Seq::<Seq<char>>::empty().push(seq![c]) =~= seq![w]);
    } else {
        let v = w.drop_last();
        assert(no_ws(v)) by {
            assert forall|i: int| 0 <= i < v.len() implies !is_ws(#[trigger] v[i]) by {
                assert(v[i] == w[i]);
            }
        }
        lemma_split_ws_word(v);
        assert(!is_ws(w[w.len() - 2]));
        assert(v.push(c) =~= w);
        assert(seq![v].drop_last().push(seq![v].last().push(c)) =~= seq![w]);
    }
}

/// Two words with one space between them split into the two words.
pub proof fn lemma_split_ws_pair(a: Seq<char>, b: Seq<char>)
    requires
        a.len() > 0,
        b.len() > 0,
        no_ws(a),
        no_ws(b),
    ensures
        split_ws(a.push(' ') + b) == seq![a, b],
    decreases b.len(),
{
    let s = a.push(' ') + b;
    let c = b.last();
    assert(!is_ws(b[b.len() - 1]));
    assert(s.last() == c);
    if b.len() == 1 {
        assert(s.drop_last() =~= a.push(' '));
        assert(a.push(' ').drop_last() =~= a);
        assert(is_ws(' '));
        lemma_split_ws_word(a);
        assert(split_ws(a.push(' ')) == split_ws(a));
        assert(s[s.len() - 2] == ' ');
        assert(b =~= seq![c]);
        assert(seq![a].push(seq![c]) =~= seq![a, b]);
    } else {
        let v = b.drop_last();
        assert(no_ws(v)) by {
            assert forall|i: int| 0 <= i < v.len() implies !is_ws(#[trigger] v[i]) by {
                assert(v[i] == b[i]);
            }
        }
        lemma_split_ws_pair(a, v);
        assert(s.drop_last() =~= a.push(' ') + v);
        assert(s[s.len() - 2] == b[b.len() - 2]);
        assert(!is_ws(b[b.len() - 2]));
        assert(v.push(c) =~= b);
        assert(seq![a, v].drop_last().push(seq![a, v].last().push(c)) =~= seq![a, b]);
    }
}


// ---------------------------------------------------------------------------
// Lines kept with their line breaks
// ---------------------------------------------------------------------------

/// The pieces, one after another.
pub open spec fn concat_lines(ls: Seq<Seq<char>>) -> Seq<char>
    decreases ls.len(),
{
    if ls.len() == 0 {
        seq![]
    } else {
        concat_lines(ls.drop_last()) + ls.last()
    }
}

pub proof fn lemma_concat_lines_append(a: Seq<Seq<char>>, b: Seq<Seq<char>>)
    ensures
        concat_lines(a + b) == concat_lines(a) + concat_lines(b),
    decreases b.len(),
{
    if b.len() == 0 {
        assert(a + b =~= a);
        assert(concat_lines(a) + concat_lines(b) =~= concat_lines(a));
    } else {
        lemma_concat_lines_append(a, b.drop_last());
        assert((a + b).drop_last() =~= a + b.drop_last());
        assert((a + b).last() == b.last());
        assert(concat_lines(a + b) =~= concat_lines(a) + concat_lines(b));
    }
}

pub proof fn lemma_concat_one_line(l: Seq<char>)
    ensures
        concat_lines(seq![l]) == l,
{
    assert(seq![l].drop_last() =~= Seq::<Seq<char>>::empty());
    assert(concat_lines(seq![l]) =~= concat_lines(Seq::<Seq<char>>::empty()) + l);
}

/// A line of text: non-empty, with a line break at most at its end.
pub open spec fn one_line(l: Seq<char>) -> bool {
    l.len() > 0 && forall|j: int| 0 <= j < l.len() - 1 ==> l[j] != '\n'
}

/// A line of text ending with its line break.
pub open spec fn full_line(l: Seq<char>) -> bool {
    one_line(l) && l.last() == '\n'
}

/// Text empty or ending with a line break.
pub open spec fn ends_at_line_end(s: Seq<char>) -> bool {
    s.len() == 0 || s.last() == '\n'
}

/// The first piece of a text that starts with a full line is that line.
proof fn lemma_split_inclusive_cons(first: Seq<char>, r: Seq<char>)
    requires
        full_line(first),
    ensures
        split_inclusive(first + r, '\n') == seq![first] + split_inclusive(r, '\n'),
{
    let x = first + r;
    let k = first.len() - 1;
    assert forall|j: int| 0 <= j < k implies x[j] != '\n' by {
        assert(x[j] == first[j]);
    }
    assert(x[k] == '\n');
    lemma_find_char_at(x, '\n', k);
    assert(x.take(k + 1) =~= first);
    assert(x.skip(k + 1) =~= r);
}

/// Splitting full lines joined together gives them back.
pub proof fn lemma_split_full_lines(ls: Seq<Seq<char>>)
    requires
        forall|i: int| 0 <= i < ls.len() ==> full_line(#[trigger] ls[i]),
    ensures
        split_inclusive(concat_lines(ls), '\n') == ls,
    decreases ls.len(),
{
    if ls.len() == 0 {
        assert(split_inclusive(concat_lines(ls), '\n') =~= ls);
    } else {
        let first = ls[0];
        let rest = ls.drop_first();
        assert(ls =~= seq![first] + rest);
        lemma_concat_lines_append(seq![first], rest);
        lemma_concat_one_line(first);
        assert forall|i: int| 0 <= i < rest.len() implies full_line(#[trigger] rest[i]) by {
            assert(rest[i] == ls[i + 1]);
        }
        lemma_split_full_lines(rest);
        assert(full_line(ls[0]));
        lemma_split_inclusive_cons(first, concat_lines(rest));
        assert(split_inclusive(concat_lines(ls), '\n') =~= ls);
    }
}

/// The pieces of a text are its lines: each piece is one line, every piece but
/// the last ends with its line break, and together they give back the text.
pub proof fn lemma_split_inclusive_pieces(s: Seq<char>)
    ensures
        concat_lines(split_inclusive(s, '\n')) == s,
        forall|i: int|
            0 <= i < split_inclusive(s, '\n').len() ==> one_line(
                #[trigger] split_inclusive(s, '\n')[i],
            ),
        forall|i: int|
            0 <= i < split_inclusive(s, '\n').len() - 1 ==> (#[trigger] split_inclusive(
                s,
                '\n',
            )[i]).last() == '\n',
        ends_at_line_end(s) ==> forall|i: int|
            0 <= i < split_inclusive(s, '\n').len() ==> (#[trigger] split_inclusive(
                s,
                '\n',
            )[i]).last() == '\n',
    decreases s.len(),
{
    let sp = split_inclusive(s, '\n');
    if s.len() == 0 {
        assert(sp =~= Seq::<Seq<char>>::empty());
    } else {
        lemma_find_char(s, '\n');
        match find_char(s, '\n') {
            Some(i) => {
                let a = s.take(i + 1);
                let b = s.skip(i + 1);
                lemma_split_inclusive_pieces(b);
                assert(sp == seq![a] + split_inclusive(b, '\n'));
                lemma_concat_lines_append(seq![a], split_inclusive(b, '\n'));
                lemma_concat_one_line(a);
                assert(s =~= a + b);
                assert(one_line(a)) by {
                    assert forall|j: int| 0 <= j < a.len() - 1 implies a[j] != '\n' by {
                        assert(a[j] == s[j]);
                    }
                }
                assert(a.last() == '\n');
                if ends_at_line_end(s) && b.len() > 0 {
                    assert(b.last() == s.last());
                }
                assert forall|j: int| 0 <= j < sp.len() implies one_line(#[trigger] sp[j]) by {
                    if j > 0 {
                        assert(sp[j] == split_inclusive(b, '\n')[j - 1]);
                    }
                }
                assert forall|j: int| 0 <= j < sp.len() - 1 implies (#[trigger] sp[j]).last()
                    == '\n' by {
                    if j > 0 {
                        assert(sp[j] == split_inclusive(b, '\n')[j - 1]);
                    }
                }
                if ends_at_line_end(s) {
                    assert forall|j: int| 0 <= j < sp.len() implies (#[trigger] sp[j]).last()
                        == '\n' by {
                        if j > 0 {
                            assert(sp[j] == split_inclusive(b, '\n')[j - 1]);
                        }
                    }
                }
            },
            None => {
                assert(sp =~= seq![s]);
                lemma_concat_one_line(s);
                assert(one_line(s));
            },
        }
    }
}

/// Splitting text that starts with whole lines splits those lines apart from the rest.
pub proof fn lemma_split_inclusive_concat(a: Seq<char>, b: Seq<char>)
    requires
        ends_at_line_end(a),
    ensures
        split_inclusive(a + b, '\n') == split_inclusive(a, '\n') + split_inclusive(b, '\n'),
    decreases a.len(),
{
    if a.len() == 0 {
        assert(a + b =~= b);
        assert(split_inclusive(a, '\n') =~= Seq::<Seq<char>>::empty());
        assert(split_inclusive(a, '\n') + split_inclusive(b, '\n') =~= split_inclusive(b, '\n'));
    } else {
        lemma_find_char(a, '\n');
        let i = find_char(a, '\n')->0;
        assert(a[a.len() - 1] == '\n');
        assert(find_char(a, '\n') is Some);
        let first = a.take(i + 1);
        assert(full_line(first)) by {
            assert forall|j: int| 0 <= j < first.len() - 1 implies first[j] != '\n' by {
                assert(first[j] == a[j]);
            }
        }
        let a2 = a.skip(i + 1);
        assert(a =~= first + a2);
        assert(a + b =~= first + (a2 + b));
        lemma_split_inclusive_cons(first, a2);
        lemma_split_inclusive_cons(first, a2 + b);
        if a2.len() > 0 {
            assert(a2.last() == a.last());
        }
        lemma_split_inclusive_concat(a2, b);
        assert(split_inclusive(a + b, '\n') =~= split_inclusive(a, '\n') + split_inclusive(b, '\n'));
    }
}

/// A character after the end of a text adds no earlier occurrence of a pattern
/// that does not end with it.
pub proof fn lemma_find_sub_push(s: Seq<char>, p: Seq<char>, c: char)
    requires
        p.len() > 0,
        p.last() != c,
    ensures
        find_sub(s.push(c), p) == find_sub(s, p),
    decreases s.len(),
{
    let x = s.push(c);
    if x.len() < p.len() {
    } else if x.take(p.len() as int) == p {
        if p.len() <= s.len() {
            assert(x.take(p.len() as int) =~= s.take(p.len() as int));
        } else {
            assert(x.take(p.len() as int) =~= x);
            assert(x.last() == c);
        }
    } else if s.len() == 0 {
        assert(x.drop_first() =~= Seq::<char>::empty());
    } else {
        assert(x.drop_first() =~= s.drop_first().push(c));
        lemma_find_sub_push(s.drop_first(), p, c);
        if s.len() >= p.len() {
            assert(x.take(p.len() as int) =~= s.take(p.len() as int));
        }
    }
}

proof fn lemma_trim_start_push(s: Seq<char>, w: char)
    requires
        is_ws(w),
    ensures
        trim_start(s.push(w)) == if trim_start(s).len() > 0 {
            trim_start(s).push(w)
        } else {
            Seq::<char>::empty()
        },
    decreases s.len(),
{
    if s.len() == 0 {
        assert(s.push(w).drop_first() =~= Seq::<char>::empty());
        assert(s.push(w)[0] == w);
        assert(trim_start(Seq::<char>::empty()) =~= Seq::<char>::empty());
    } else if is_ws(s[0]) {
        assert(s.push(w)[0] == s[0]);
        assert(s.push(w).drop_first() =~= s.drop_first().push(w));
        lemma_trim_start_push(s.drop_first(), w);
    } else {
        assert(s.push(w)[0] == s[0]);
    }
}

/// Trailing whitespace does not change the trim.
pub proof fn lemma_trim_push_ws(s: Seq<char>, w: char)
    requires
        is_ws(w),
    ensures
        trim(s.push(w)) == trim(s),
{
    lemma_trim_start_push(s, w);
    if trim_start(s).len() > 0 {
        assert(trim_start(s).push(w).drop_last() =~= trim_start(s));
    }
}

/// Leading whitespace does not change the trim.
pub proof fn lemma_trim_prefix_ws(w: Seq<char>, t: Seq<char>)
    requires
        all_ws(w),
    ensures
        trim(w + t) == trim(t),
    decreases w.len(),
{
    if w.len() > 0 {
        assert((w + t)[0] == w[0]);
        assert((w + t).drop_first() =~= w.drop_first() + t);
        assert(all_ws(w.drop_first())) by {
            assert forall|i: int| 0 <= i < w.drop_first().len() implies is_ws(
                #[trigger] w.drop_first()[i],
            ) by {
                assert(w.drop_first()[i] == w[i + 1]);
            }
        }
        lemma_trim_prefix_ws(w.drop_first(), t);
    } else {
        assert(w + t =~= t);
    }
}

/// Trailing whitespace does not change the trim.
pub proof fn lemma_trim_suffix_ws(t: Seq<char>, w: Seq<char>)
    requires
        all_ws(w),
    ensures
        trim(t + w) == trim(t),
    decreases w.len(),
{
    if w.len() > 0 {
        let v = w.drop_last();
        assert(all_ws(v)) by {
            assert forall|i: int| 0 <= i < v.len() implies is_ws(#[trigger] v[i]) by {
                assert(v[i] == w[i]);
            }
        }
        lemma_trim_suffix_ws(t, v);
        assert(t + w =~= (t + v).push(w.last()));
        assert(is_ws(w[w.len() - 1]));
        lemma_trim_push_ws(t + v, w.last());
    } else {
        assert(t + w =~= t);
    }
}

/// Trimming twice is trimming once.
pub proof fn lemma_trim_twice(x: Seq<char>)
    ensures
        trim(trim(x)) == trim(x),
{
    let t = trim(x);
    if t.len() > 0 {
        lemma_trim_end_prefix(trim_start(x));
        lemma_trim_start_shape(x);
        assert(t[0] == trim_start(x)[0]);
        lemma_trim_id(t);
    }
}

/// The pieces of a text with a line break added after its unfinished last line.
pub proof fn lemma_split_push_nl(t: Seq<char>)
    requires
        t.len() > 0,
        t.last() != '\n',
    ensures
        split_inclusive(t.push('\n'), '\n').len() == split_inclusive(t, '\n').len(),
        split_inclusive(t, '\n').len() > 0,
        split_inclusive(t.push('\n'), '\n') == split_inclusive(t, '\n').drop_last().push(
            split_inclusive(t, '\n').last().push('\n'),
        ),
    decreases t.len(),
{
    let x = t.push('\n');
    lemma_find_char(t, '\n');
    match find_char(t, '\n') {
        Some(i) => {
            assert forall|j: int| 0 <= j < i implies x[j] != '\n' by {
                assert(x[j] == t[j]);
            }
            lemma_find_char_at(x, '\n', i);
            let rest = t.skip(i + 1);
            assert(i < t.len() - 1);
            assert(rest.len() > 0 && rest.last() == t.last());
            assert(x.take(i + 1) =~= t.take(i + 1));
            assert(x.skip(i + 1) =~= rest.push('\n'));
            lemma_split_push_nl(rest);
            let a = split_inclusive(t, '\n');
            let b = split_inclusive(rest, '\n');
            assert(a == seq![t.take(i + 1)] + b);
            assert(split_inclusive(x, '\n') == seq![t.take(i + 1)] + split_inclusive(
                rest.push('\n'),
                '\n',
            ));
            assert(split_inclusive(x, '\n') =~= a.drop_last().push(a.last().push('\n')));
        },
        None => {
            assert forall|j: int| 0 <= j < t.len() implies x[j] != '\n' by {
                assert(x[j] == t[j]);
            }
            lemma_find_char_at(x, '\n', t.len() as int);
            assert(x.take(t.len() as int + 1) =~= x);
            assert(x.skip(t.len() as int + 1) =~= Seq::<char>::empty());
            assert(split_inclusive(t, '\n') =~= seq![t]);
            assert(split_inclusive(Seq::<char>::empty(), '\n') =~= Seq::<Seq<char>>::empty());
            assert(split_inclusive(x, '\n') =~= seq![x]);
        },
    }
}

} // verus!
