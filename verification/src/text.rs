//! Building and reading text: decimal and hexadecimal numerals, string concatenation.

use vstd::prelude::*;
use vstd::string::{StringExecFns, StrSliceExecFns};
use vstd::utf8::{valid_utf8, decode_utf8};

verus! {

/// The character of a decimal digit.
pub open spec fn digit_char(d: int) -> char {
    (48 + d) as char
}

/// The character of an upper-case hexadecimal digit.
pub open spec fn hex_char(d: int) -> char {
    if d < 10 { (48 + d) as char } else { (55 + d) as char }
}

/// The decimal numeral of `n`, without leading zeros.
pub open spec fn decimal(n: nat) -> Seq<char>
    decreases n,
{
    if n < 10 {
        seq![digit_char(n as int)]
    } else {
        decimal(n / 10).push(digit_char((n % 10) as int))
    }
}

/// The two-digit zero-padded numeral of `n` (below 100).
pub open spec fn two_digits(n: nat) -> Seq<char> {
    seq![digit_char((n / 10) as int), digit_char((n % 10) as int)]
}

/// The eight-digit zero-padded upper-case hexadecimal numeral of `v`.
pub open spec fn hex8(v: u32) -> Seq<char> {
    seq![
        hex_char((v / 0x1000_0000) as int % 16),
        hex_char((v / 0x100_0000) as int % 16),
        hex_char((v / 0x10_0000) as int % 16),
        hex_char((v / 0x1_0000) as int % 16),
        hex_char((v / 0x1000) as int % 16),
        hex_char((v / 0x100) as int % 16),
        hex_char((v / 0x10) as int % 16),
        hex_char(v as int % 16),
    ]
}

/// Append one character to a string.
///
/// Calls `String::push`, which appends the character at the end; the contract
/// states exactly that.
#[verifier::external_body]
pub(crate) fn push_char(s: &mut String, c: char)
    ensures
        final(s)@ == old(s)@.push(c),
{
    s.push(c);
}

/// The text that `String::from_utf8_lossy` makes of `bytes`.
pub uninterp spec fn utf8_lossy(bytes: Seq<u8>) -> Seq<char>;

/// Decode bytes as UTF-8, replacing invalid sequences with U+FFFD.
///
/// Calls `String::from_utf8_lossy`. The contract names the result, and states
/// what its documentation states: valid UTF-8 decodes to the text it encodes.
#[verifier::external_body]
pub(crate) fn from_utf8_lossy(bytes: &[u8]) -> (s: String)
    ensures
        s@ == utf8_lossy(bytes@),
        valid_utf8(bytes@) ==> s@ == decode_utf8(bytes@),
{
    String::from_utf8_lossy(bytes).into_owned()
}

/// A new string holding `s`.
pub fn string_of(s: &str) -> (r: String)
    ensures
        r@ == s@,
{
    String::from_str(s)
}

/// The concatenation `a + b`.
pub fn concat(a: String, b: &str) -> (r: String)
    ensures
        r@ == a@ + b@,
{
    a.concat(b)
}

/// Append the decimal numeral of `n`.
pub fn push_decimal(s: &mut String, n: u64)
    ensures
        final(s)@ == old(s)@ + decimal(n as nat),
    decreases n,
{
    if n >= 10 {
        push_decimal(s, n / 10);
    }
    let d = (n % 10) as u8;
    push_char(s, (48u8 + d) as char);
    assert(final(s)@ =~= old(s)@ + decimal(n as nat));
}

/// The decimal numeral of `n`.
pub fn decimal_string(n: u64) -> (r: String)
    ensures
        r@ == decimal(n as nat),
{
    let mut s = String::new();
    push_decimal(&mut s, n);
    assert(s@ =~= decimal(n as nat));
    s
}

/// `prefix` followed by the decimal numeral of `n`.
pub fn with_decimal(prefix: &str, n: u64) -> (r: String)
    ensures
        r@ == prefix@ + decimal(n as nat),
{
    let mut s = string_of(prefix);
    push_decimal(&mut s, n);
    s
}

/// The decimal numeral of a signed `n`, with a leading `-` when negative.
pub open spec fn signed_decimal(n: int) -> Seq<char> {
    if n < 0 { seq!['-'] + decimal((-n) as nat) } else { decimal(n as nat) }
}

/// Append the decimal numeral of a signed `n`.
pub fn push_signed_decimal(s: &mut String, n: i64)
    requires
        n > i64::MIN,
    ensures
        final(s)@ == old(s)@ + signed_decimal(n as int),
{
    if n < 0 {
        push_char(s, '-');
        push_decimal(s, (-n) as u64);
        assert(final(s)@ =~= old(s)@ + signed_decimal(n as int));
    } else {
        push_decimal(s, n as u64);
    }
}

/// Append a text.
pub fn push_text(s: &mut String, t: &str)
    ensures
        final(s)@ == old(s)@ + t@,
{
    let mut cur = String::new();
    std::mem::swap(&mut cur, s);
    *s = concat(cur, t);
}

/// Append the two-digit zero-padded numeral of `n`.
pub fn push_two_digits(s: &mut String, n: u64)
    requires
        n < 100,
    ensures
        final(s)@ == old(s)@ + two_digits(n as nat),
{
    push_char(s, (48u8 + (n / 10) as u8) as char);
    push_char(s, (48u8 + (n % 10) as u8) as char);
    assert(final(s)@ =~= old(s)@ + two_digits(n as nat));
}

fn push_hex_digit(s: &mut String, d: u32)
    requires
        d < 16,
    ensures
        final(s)@ == old(s)@.push(hex_char(d as int)),
{
    let d8 = d as u8;
    let c = if d8 < 10 { (48u8 + d8) as char } else { (55u8 + d8) as char };
    push_char(s, c);
}

/// Append the eight-digit upper-case hexadecimal numeral of `v`.
pub fn push_hex8(s: &mut String, v: u32)
    ensures
        final(s)@ == old(s)@ + hex8(v),
{
    push_hex_digit(s, (v / 0x1000_0000) % 16);
    push_hex_digit(s, (v / 0x100_0000) % 16);
    push_hex_digit(s, (v / 0x10_0000) % 16);
    push_hex_digit(s, (v / 0x1_0000) % 16);
    push_hex_digit(s, (v / 0x1000) % 16);
    push_hex_digit(s, (v / 0x100) % 16);
    push_hex_digit(s, (v / 0x10) % 16);
    push_hex_digit(s, v % 16);
    assert(final(s)@ =~= old(s)@ + hex8(v));
}

/// Whether a character has the Unicode White_Space property.
pub open spec fn white_space(c: char) -> bool {
    let v = c as u32;
    (0x09 <= v <= 0x0d) || v == 0x20 || v == 0x85 || v == 0xa0 || v == 0x1680 || (0x2000 <= v <= 0x200a)
        || v == 0x2028 || v == 0x2029 || v == 0x202f || v == 0x205f || v == 0x3000
}

/// Whether a character has the Unicode White_Space property (as
/// `char::is_whitespace` tests it).
pub fn is_whitespace(c: char) -> (r: bool)
    ensures
        r == white_space(c),
{
    let v = c as u32;
    (0x09 <= v && v <= 0x0d) || v == 0x20 || v == 0x85 || v == 0xa0 || v == 0x1680 || (0x2000 <= v && v <= 0x200a)
        || v == 0x2028 || v == 0x2029 || v == 0x202f || v == 0x205f || v == 0x3000
}

/// The lower-case text that `str::to_lowercase` makes of `s`.
pub uninterp spec fn lowercase(s: Seq<char>) -> Seq<char>;

/// Whether every character of `s` is ASCII.
pub open spec fn is_ascii_text(s: Seq<char>) -> bool {
    forall|i: int| 0 <= i < s.len() ==> (#[trigger] s[i] as u32) < 128
}

/// `s` with the ASCII capitals `A`-`Z` replaced by `a`-`z`.
pub open spec fn ascii_lowercase(s: Seq<char>) -> Seq<char> {
    Seq::new(
        s.len(),
        |i: int| if 'A' <= s[i] && s[i] <= 'Z' { ((s[i] as u32) + 32) as char } else { s[i] },
    )
}

/// The lower-case text of `s`: `A`-`Z` turned into `a`-`z` for ASCII text,
/// the Unicode lower-case mapping otherwise.
pub open spec fn lower(s: Seq<char>) -> Seq<char> {
    if is_ascii_text(s) { ascii_lowercase(s) } else { lowercase(s) }
}

/// The lower-case equivalent of `s`.
///
/// Calls `str::to_lowercase` (Unicode lower-case mapping). The contract names
/// the result, and states the mapping for ASCII text, where Unicode lower-casing
/// turns `A`-`Z` into `a`-`z` and leaves every other character as it is.
#[verifier::external_body]
pub(crate) fn to_lowercase(s: &str) -> (r: String)
    ensures
        r@ == lowercase(s@),
        is_ascii_text(s@) ==> r@ == ascii_lowercase(s@),
{
    s.to_lowercase()
}

/// The words of `s[..k]` found so far, and the word being read.
pub open spec fn scan_words(s: Seq<char>, k: int) -> (Seq<Seq<char>>, Seq<char>)
    decreases k,
{
    if k <= 0 {
        (Seq::empty(), Seq::empty())
    } else {
        let (done, cur) = scan_words(s, k - 1);
        let c = s[k - 1];
        if white_space(c) {
            if cur.len() > 0 { (done.push(cur), Seq::empty()) } else { (done, Seq::empty()) }
        } else {
            (done, cur.push(c))
        }
    }
}

/// The maximal runs of non-whitespace characters of `s`, in order.
pub open spec fn words(s: Seq<char>) -> Seq<Seq<char>> {
    let (done, cur) = scan_words(s, s.len() as int);
    if cur.len() > 0 { done.push(cur) } else { done }
}

/// The views of a vector of strings.
pub open spec fn string_views(v: Seq<String>) -> Seq<Seq<char>> {
    Seq::new(v.len(), |i: int| v[i]@)
}

/// The whitespace-separated words of `s`.
pub fn split_whitespace(s: &str) -> (r: Vec<String>)
    ensures
        string_views(r@) == words(s@),
{
    let n = s.unicode_len();
    let mut done: Vec<String> = Vec::new();
    let mut cur = String::new();
    let mut k: usize = 0;
    while k < n
        invariant
            k <= n,
            n == s@.len(),
            string_views(done@) == scan_words(s@, k as int).0,
            cur@ == scan_words(s@, k as int).1,
        decreases n - k,
    {
        let c = s.get_char(k);
        if is_whitespace(c) {
            if cur.unicode_len() > 0 {
                let ghost old_done = string_views(done@);
                done.push(cur);
                assert(string_views(done@) =~= old_done.push(scan_words(s@, k as int).1));
            }
            cur = String::new();
        } else {
            push_char(&mut cur, c);
        }
        k = k + 1;
        assert(string_views(done@) =~= scan_words(s@, k as int).0);
    }
    if cur.unicode_len() > 0 {
        let ghost old_done = string_views(done@);
        done.push(cur);
        assert(string_views(done@) =~= old_done.push(scan_words(s@, n as int).1));
    }
    done
}

/// The value of a non-empty run of decimal digits.
pub open spec fn digits_value(s: Seq<char>) -> Option<int>
    decreases s.len(),
{
    if s.len() == 0 {
        None
    } else {
        let c = s.last();
        if '0' <= c && c <= '9' {
            let d = (c as int) - 48;
            if s.len() == 1 {
                Some(d)
            } else {
                match digits_value(s.drop_last()) {
                    Some(v) => Some(10 * v + d),
                    None => None,
                }
            }
        } else {
            None
        }
    }
}

/// A run of digits has a non-negative value.
pub proof fn lemma_digits_value_nonneg(s: Seq<char>)
    ensures
        digits_value(s) matches Some(v) ==> v >= 0,
    decreases s.len(),
{
    if s.len() > 1 {
        lemma_digits_value_nonneg(s.drop_last());
    }
}

/// An unsigned parse gives a value within `0..=max`.
pub proof fn lemma_parse_unsigned_range(s: Seq<char>, max: int)
    ensures
        parse_unsigned(s, max) matches Some(v) ==> 0 <= v <= max,
{
    let body = if s.len() > 0 && s[0] == '+' { s.drop_first() } else { s };
    lemma_digits_value_nonneg(body);
}

/// The value of an optional `+` followed by decimal digits, when at most `max`.
pub open spec fn parse_unsigned(s: Seq<char>, max: int) -> Option<int> {
    let body = if s.len() > 0 && s[0] == '+' { s.drop_first() } else { s };
    match digits_value(body) {
        Some(v) => if v <= max { Some(v) } else { None },
        None => None,
    }
}

/// The value of an optional sign followed by decimal digits, when within `min..=max`.
pub open spec fn parse_signed(s: Seq<char>, min: int, max: int) -> Option<int> {
    if s.len() > 0 && s[0] == '-' {
        match digits_value(s.drop_first()) {
            Some(v) => if -v >= min { Some(-v) } else { None },
            None => None,
        }
    } else {
        let body = if s.len() > 0 && s[0] == '+' { s.drop_first() } else { s };
        match digits_value(body) {
            Some(v) => if v <= max { Some(v) } else { None },
            None => None,
        }
    }
}

/// A run that holds a character other than a digit has no value.
proof fn lemma_digits_value_non_digit(s: Seq<char>, i: int)
    requires
        0 <= i < s.len(),
        !('0' <= s[i] && s[i] <= '9'),
    ensures
        digits_value(s) is None,
    decreases s.len(),
{
    if i < s.len() - 1 {
        lemma_digits_value_non_digit(s.drop_last(), i);
    }
}

/// The value of the characters of `s` from `start` on, when they are a
/// non-empty run of decimal digits whose value is at most `max`.
fn digits_at_most(s: &str, start: usize, max: u32) -> (r: Option<u32>)
    requires
        start <= s@.len(),
        max <= 65535,
    ensures
        match digits_value(s@.skip(start as int)) {
            Some(v) => if v <= max { r == Some(v as u32) } else { r is None },
            None => r is None,
        },
{
    let n = s.unicode_len();
    if start == n {
        assert(s@.skip(start as int) =~= Seq::<char>::empty());
        return None;
    }
    let mut value: u32 = 0;
    let mut over = false;
    let mut k: usize = start;
    while k < n
        invariant
            n == s@.len(),
            start < n,
            start <= k <= n,
            max <= 65535,
            !over ==> value <= max,
            k > start ==> (digits_value(s@.subrange(start as int, k as int)) matches Some(w) && (if over {
                w > max
            } else {
                w == value
            })),
            k == start ==> !over && value == 0,
            forall|j: int| start <= j < k ==> '0' <= #[trigger] s@[j] && s@[j] <= '9',
        decreases n - k,
    {
        let c = s.get_char(k);
        if !('0' <= c && c <= '9') {
            proof {
                lemma_digits_value_non_digit(s@.skip(start as int), k - start);
            }
            return None;
        }
        let ghost p = s@.subrange(start as int, k as int);
        let ghost q = s@.subrange(start as int, k + 1);
        proof {
            assert(q.drop_last() =~= p);
            assert(q.last() == c);
        }
        let d = (c as u32) - 48;
        if !over {
            let next = 10 * value + d;
            if next > max {
                over = true;
            } else {
                value = next;
            }
        }
        k = k + 1;
    }
    assert(s@.subrange(start as int, n as int) =~= s@.skip(start as int));
    if over {
        None
    } else {
        Some(value)
    }
}

/// Parse a decimal `u8`: an optional `+` followed by digits, of value at most 255.
pub fn parse_u8(s: &str) -> (r: Option<u8>)
    ensures
        match parse_unsigned(s@, 255) {
            Some(v) => r == Some(v as u8),
            None => r is None,
        },
{
    let start: usize = if s.unicode_len() > 0 && s.get_char(0) == '+' { 1 } else { 0 };
    assert(s@.skip(start as int) =~= (if s@.len() > 0 && s@[0] == '+' { s@.drop_first() } else { s@ }));
    proof {
        lemma_digits_value_nonneg(s@.skip(start as int));
    }
    match digits_at_most(s, start, 255) {
        Some(v) => Some(v as u8),
        None => None,
    }
}

/// Parse a decimal `u16`: an optional `+` followed by digits, of value at most 65535.
pub fn parse_u16(s: &str) -> (r: Option<u16>)
    ensures
        match parse_unsigned(s@, 65535) {
            Some(v) => r == Some(v as u16),
            None => r is None,
        },
{
    let start: usize = if s.unicode_len() > 0 && s.get_char(0) == '+' { 1 } else { 0 };
    assert(s@.skip(start as int) =~= (if s@.len() > 0 && s@[0] == '+' { s@.drop_first() } else { s@ }));
    proof {
        lemma_digits_value_nonneg(s@.skip(start as int));
    }
    match digits_at_most(s, start, 65535) {
        Some(v) => Some(v as u16),
        None => None,
    }
}

/// Parse a decimal `i8`: an optional `+` or `-` followed by digits, of value
/// within -128..=127.
pub fn parse_i8(s: &str) -> (r: Option<i8>)
    ensures
        match parse_signed(s@, -128, 127) {
            Some(v) => r == Some(v as i8),
            None => r is None,
        },
{
    if s.unicode_len() > 0 && s.get_char(0) == '-' {
        assert(s@.skip(1) =~= s@.drop_first());
        proof {
            lemma_digits_value_nonneg(s@.skip(1));
        }
        match digits_at_most(s, 1, 128) {
            Some(v) => Some((0 - (v as i32)) as i8),
            None => None,
        }
    } else {
        let start: usize = if s.unicode_len() > 0 && s.get_char(0) == '+' { 1 } else { 0 };
        assert(s@.skip(start as int) =~= (if s@.len() > 0 && s@[0] == '+' { s@.drop_first() } else { s@ }));
        proof {
            lemma_digits_value_nonneg(s@.skip(start as int));
        }
        match digits_at_most(s, start, 127) {
            Some(v) => Some(v as i8),
            None => None,
        }
    }
}

/// Whether `s` equals the text `t`.
pub fn string_is(s: &String, t: &str) -> (r: bool)
    ensures
        r == (s@ == t@),
{
    let other = string_of(t);
    *s == other
}

} // verus!
