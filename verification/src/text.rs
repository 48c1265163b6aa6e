//! Text helpers: lossy UTF-8 decoding of C strings read from another
//! process, and the handful of character tests the parsers need.
use vstd::prelude::*;

verus! {

/// The characters `String::from_utf8_lossy` makes of `bytes`.
pub uninterp spec fn utf8_lossy(bytes: Seq<u8>) -> Seq<char>;

/// Every byte is below 0x80.
pub open spec fn all_ascii(bytes: Seq<u8>) -> bool {
    forall|i: int| 0 <= i < bytes.len() ==> #[trigger] bytes[i] < 0x80
}

/// The characters of ASCII bytes, one for one.
pub open spec fn ascii_chars(bytes: Seq<u8>) -> Seq<char> {
    bytes.map_values(|b: u8| b as char)
}

/// `String::from_utf8_lossy(bytes)` as an owned string. The standard library
/// documents that valid UTF-8 is decoded as such, so ASCII bytes come out one
/// character each, and that invalid sequences become U+FFFD; since UTF-8
/// writes U+0000 only as a zero byte, bytes without one give text without
/// NUL. Other inputs are only named.
#[verifier::external_body]
pub(crate) fn lossy_utf8(bytes: &[u8]) -> (s: String)
    ensures
        s@ == utf8_lossy(bytes@),
        all_ascii(bytes@) ==> s@ == ascii_chars(bytes@),
        (forall|i: int| 0 <= i < bytes@.len() ==> #[trigger] bytes@[i] != 0) ==> forall|j: int|
            0 <= j < s@.len() ==> #[trigger] s@[j] != '\0',
{
    String::from_utf8_lossy(bytes).to_string()
}

/// Index of the first zero byte, or the length when there is none.
pub open spec fn first_nul(raw: Seq<u8>) -> int
    decreases raw.len(),
{
    if raw.len() == 0 {
        0
    } else if raw[0] == 0 {
        0
    } else {
        1 + first_nul(raw.drop_first())
    }
}

proof fn lemma_first_nul_facts(raw: Seq<u8>)
    ensures
        0 <= first_nul(raw) <= raw.len(),
        forall|k: int| 0 <= k < first_nul(raw) ==> raw[k] != 0,
        first_nul(raw) < raw.len() ==> raw[first_nul(raw)] == 0,
    decreases raw.len(),
{
    if raw.len() > 0 && raw[0] != 0 {
        lemma_first_nul_facts(raw.drop_first());
        assert forall|k: int| 0 <= k < first_nul(raw) implies raw[k] != 0 by {
            if k > 0 {
                assert(raw[k] == raw.drop_first()[k - 1]);
            }
        }
    }
}

/// The position of the first zero byte of `raw`, or its length.
pub fn find_nul(raw: &[u8]) -> (end: usize)
    ensures
        end == first_nul(raw@),
        end <= raw@.len(),
{
    proof {
        lemma_first_nul_facts(raw@);
    }
    let mut i: usize = 0;
    while i < raw.len()
        invariant
            0 <= i <= raw@.len(),
            forall|k: int| 0 <= k < i ==> raw@[k] != 0,
            0 <= first_nul(raw@) <= raw@.len(),
            forall|k: int| 0 <= k < first_nul(raw@) ==> raw@[k] != 0,
            first_nul(raw@) < raw@.len() ==> raw@[first_nul(raw@)] == 0,
        decreases raw@.len() - i,
    {
        if raw[i] == 0 {
            return i;
        }
        i = i + 1;
    }
    i
}

/// The text of a NUL-terminated byte buffer: the bytes before the first zero
/// byte (all of them when there is none), decoded lossily as UTF-8.
pub open spec fn c_string_text(raw: Seq<u8>) -> Seq<char> {
    utf8_lossy(raw.take(first_nul(raw)))
}

/// Decodes the NUL-terminated text in `raw`: the bytes before the first
/// zero byte, decoded lossily, with no NUL in the text; ASCII bytes give
/// their characters one for one.
pub fn c_string_from_bytes(raw: &[u8]) -> (s: String)
    ensures
        s@ == c_string_text(raw@),
        forall|j: int| 0 <= j < s@.len() ==> #[trigger] s@[j] != '\0',
        all_ascii(raw@.take(first_nul(raw@))) ==> s@ == ascii_chars(raw@.take(first_nul(raw@))),
{
    let end = find_nul(raw);
    let head = vstd::slice::slice_subrange(raw, 0, end);
    proof {
        assert(head@ =~= raw@.take(end as int));
        lemma_first_nul_facts(raw@);
        assert forall|i: int| 0 <= i < head@.len() implies #[trigger] head@[i] != 0 by {
            assert(head@[i] == raw@[i]);
        }
    }
    lossy_utf8(head)
}

/// The characters of `text`, in order.
pub(crate) fn chars_of(text: &str) -> (v: Vec<char>)
    ensures
        v@ == text@,
{
    let mut v: Vec<char> = Vec::new();
    for c in it: text.chars()
        invariant
            v@ == it.seq().take(it.index() as int),
            it.seq() == text@,
    {
        v.push(c);
    }
    v
}

/// The characters with the Unicode `White_Space` property, those that
/// `char::is_whitespace` accepts and `str::split_whitespace` splits on.
pub open spec fn is_white_space(c: char) -> bool {
    let v = c as u32;
    ||| 0x09 <= v <= 0x0d
    ||| v == 0x20
    ||| v == 0x85
    ||| v == 0xa0
    ||| v == 0x1680
    ||| 0x2000 <= v <= 0x200a
    ||| v == 0x2028
    ||| v == 0x2029
    ||| v == 0x202f
    ||| v == 0x205f
    ||| v == 0x3000
}

/// Whether `c` has the Unicode `White_Space` property.
pub(crate) fn white_space(c: char) -> (r: bool)
    ensures
        r == is_white_space(c),
{
    let v = c as u32;
    (0x09 <= v && v <= 0x0d) || v == 0x20 || v == 0x85 || v == 0xa0 || v == 0x1680 || (0x2000
        <= v && v <= 0x200a) || v == 0x2028 || v == 0x2029 || v == 0x202f || v == 0x205f || v
        == 0x3000
}

/// `t` without its leading white space.
pub open spec fn trim_start(t: Seq<char>) -> Seq<char>
    decreases t.len(),
{
    if t.len() > 0 && is_white_space(t[0]) {
        trim_start(t.drop_first())
    } else {
        t
    }
}

/// `t` without its trailing white space.
pub open spec fn trim_end(t: Seq<char>) -> Seq<char>
    decreases t.len(),
{
    if t.len() > 0 && is_white_space(t.last()) {
        trim_end(t.drop_last())
    } else {
        t
    }
}

/// `t` without leading and trailing white space, as `str::trim` gives it.
pub open spec fn trimmed(t: Seq<char>) -> Seq<char> {
    trim_end(trim_start(t))
}

/// `str::trim`, owned. Its documentation defines the white space it removes
/// at both ends as the characters with the Unicode `White_Space` property,
/// which is what `is_white_space` lists.
#[verifier::external_body]
pub(crate) fn trim_text(text: &str) -> (r: String)
    ensures
        r@ == trimmed(text@),
{
    text.trim().to_string()
}

/// The ASCII lower-case of a character: `A` to `Z` become `a` to `z`, every
/// other character stays.
pub open spec fn ascii_lower(c: char) -> char {
    if 'A' <= c <= 'Z' {
        ((c as u32) + 32) as char
    } else {
        c
    }
}

/// The ASCII upper-case of a character: `a` to `z` become `A` to `Z`, every
/// other character stays.
pub open spec fn ascii_upper(c: char) -> char {
    if 'a' <= c <= 'z' {
        ((c as u32) - 32) as char
    } else {
        c
    }
}

/// `str::to_ascii_lowercase`. Its documentation maps the ASCII letters `A` to
/// `Z` to `a` to `z` and leaves every other character as it is.
#[verifier::external_body]
pub(crate) fn ascii_lowercase(text: &str) -> (r: String)
    ensures
        r@ == text@.map_values(|c: char| ascii_lower(c)),
{
    text.to_ascii_lowercase()
}

/// `str::to_ascii_uppercase`. Its documentation maps the ASCII letters `a` to
/// `z` to `A` to `Z` and leaves every other character as it is.
#[verifier::external_body]
pub(crate) fn ascii_uppercase(text: &str) -> (r: String)
    ensures
        r@ == text@.map_values(|c: char| ascii_upper(c)),
{
    text.to_ascii_uppercase()
}

/// `text` ends with `suffix`.
pub open spec fn has_suffix(text: Seq<char>, suffix: Seq<char>) -> bool {
    &&& suffix.len() <= text.len()
    &&& text.subrange(text.len() - suffix.len(), text.len() as int) == suffix
}

/// `text` starts with `prefix`.
pub open spec fn has_prefix(text: Seq<char>, prefix: Seq<char>) -> bool {
    &&& prefix.len() <= text.len()
    &&& text.subrange(0, prefix.len() as int) == prefix
}

/// `str::strip_prefix`, owned: the text after `prefix` where the text starts
/// with it, as its documentation says.
#[verifier::external_body]
pub(crate) fn strip_prefix_text(text: &str, prefix: &str) -> (r: Option<String>)
    ensures
        match r {
            Some(rest) => has_prefix(text@, prefix@) && rest@ == text@.subrange(
                prefix@.len() as int,
                text@.len() as int,
            ),
            None => !has_prefix(text@, prefix@),
        },
{
    text.strip_prefix(prefix).map(|rest| rest.to_string())
}

/// `str::strip_suffix`, owned: the text before `suffix` where the text ends
/// with it, as its documentation says.
#[verifier::external_body]
pub(crate) fn strip_suffix_text(text: &str, suffix: &str) -> (r: Option<String>)
    ensures
        match r {
            Some(rest) => has_suffix(text@, suffix@) && rest@ == text@.subrange(
                0,
                text@.len() - suffix@.len(),
            ),
            None => !has_suffix(text@, suffix@),
        },
{
    text.strip_suffix(suffix).map(|rest| rest.to_string())
}

/// `pattern` occurs in `text`.
pub open spec fn contains_text(text: Seq<char>, pattern: Seq<char>) -> bool {
    exists|i: int| 0 <= i && i + pattern.len() <= text.len() && #[trigger] text.subrange(i, i + pattern.len()) == pattern
}

/// Whether `pattern` occurs in `text`.
pub(crate) fn contains_chars(text: &Vec<char>, pattern: &Vec<char>) -> (r: bool)
    ensures
        r == contains_text(text@, pattern@),
{
    if pattern.len() > text.len() {
        return false;
    }
    let last = text.len() - pattern.len();
    let mut i: usize = 0;
    while i <= last
        invariant
            last + pattern@.len() == text@.len(),
            text@.len() <= usize::MAX,
            forall|k: int| 0 <= k < i ==> #[trigger] text@.subrange(k, k + pattern@.len()) != pattern@,
        decreases last + 1 - i,
    {
        let mut j: usize = 0;
        let mut same = true;
        while j < pattern.len()
            invariant
                i <= last,
                last + pattern@.len() == text@.len(),
                text@.len() <= usize::MAX,
                j <= pattern@.len(),
                same <==> forall|m: int| 0 <= m < j ==> text@[i + m] == pattern@[m],
            decreases pattern.len() - j,
        {
            if text[i + j] != pattern[j] {
                same = false;
            }
            j = j + 1;
        }
        if same {
            assert(text@.subrange(i as int, i + pattern@.len()) =~= pattern@);
            return true;
        }
        proof {
            let m = choose|m: int| 0 <= m < pattern@.len() && text@[i + m] != pattern@[m];
            assert(text@.subrange(i as int, i + pattern@.len())[m] != pattern@[m]);
        }
        if i == last {
            proof {
                assert forall|k: int|
                    0 <= k && k + pattern@.len() <= text@.len() implies #[trigger] text@.subrange(
                    k,
                    k + pattern@.len(),
                ) != pattern@ by {
                    assert(k <= last);
                }
            }
            return false;
        }
        i = i + 1;
    }
    false
}


// ---------------------------------------------------------------------------
// Numbers as text
// ---------------------------------------------------------------------------

/// The ASCII digit of a value below sixteen, with upper-case letters.
pub open spec fn upper_hex_digit(d: nat) -> u8 {
    if d < 10 {
        (48 + d) as u8
    } else {
        (55 + d) as u8
    }
}

/// The decimal digits of `n`, as ASCII bytes.
pub open spec fn decimal_digits(n: nat) -> Seq<u8>
    decreases n,
{
    if n < 10 {
        seq![(48 + n) as u8]
    } else {
        decimal_digits(n / 10).push((48 + n % 10) as u8)
    }
}

/// The upper-case hexadecimal digits of `n`, as ASCII bytes.
pub open spec fn upper_hex_digits(n: nat) -> Seq<u8>
    decreases n,
{
    if n < 16 {
        seq![upper_hex_digit(n)]
    } else {
        upper_hex_digits(n / 16).push(upper_hex_digit(n % 16))
    }
}

proof fn lemma_decimal_digits_ascii(n: nat)
    ensures
        all_ascii(decimal_digits(n)),
    decreases n,
{
    if n >= 10 {
        lemma_decimal_digits_ascii(n / 10);
    }
}

proof fn lemma_upper_hex_digits_ascii(n: nat)
    ensures
        all_ascii(upper_hex_digits(n)),
    decreases n,
{
    if n >= 16 {
        lemma_upper_hex_digits_ascii(n / 16);
    }
}

pub(crate) fn push_decimal_digits(out: &mut Vec<u8>, n: u64)
    ensures
        final(out)@ == old(out)@ + decimal_digits(n as nat),
    decreases n,
{
    if n >= 10 {
        push_decimal_digits(out, n / 10);
    }
    out.push((48 + n % 10) as u8);
    proof {
        if n >= 10 {
            assert(final(out)@ =~= old(out)@ + decimal_digits(n as nat));
        }
    }
}

fn push_upper_hex_digits(out: &mut Vec<u8>, n: u64)
    ensures
        final(out)@ == old(out)@ + upper_hex_digits(n as nat),
    decreases n,
{
    if n >= 16 {
        push_upper_hex_digits(out, n / 16);
    }
    let d = n % 16;
    let digit: u8 = if d < 10 {
        (48 + d) as u8
    } else {
        (55 + d) as u8
    };
    out.push(digit);
    proof {
        if n >= 16 {
            assert(final(out)@ =~= old(out)@ + upper_hex_digits(n as nat));
        }
    }
}

/// `prefix` followed by the decimal digits of `n`.
pub fn decimal_text(prefix: &[u8], n: u64) -> (s: String)
    requires
        all_ascii(prefix@),
    ensures
        s@ == ascii_chars(prefix@ + decimal_digits(n as nat)),
{
    let mut bytes: Vec<u8> = Vec::new();
    let mut i: usize = 0;
    while i < prefix.len()
        invariant
            i <= prefix@.len(),
            bytes@ == prefix@.take(i as int),
        decreases prefix.len() - i,
    {
        bytes.push(prefix[i]);
        i = i + 1;
        assert(bytes@ =~= prefix@.take(i as int));
    }
    assert(prefix@.take(prefix@.len() as int) =~= prefix@);
    push_decimal_digits(&mut bytes, n);
    proof {
        lemma_decimal_digits_ascii(n as nat);
        assert(all_ascii(bytes@)) by {
            assert forall|k: int| 0 <= k < bytes@.len() implies #[trigger] bytes@[k] < 0x80 by {
                if k < prefix@.len() {
                    assert(bytes@[k] == prefix@[k]);
                } else {
                    assert(bytes@[k] == decimal_digits(n as nat)[k - prefix@.len()]);
                }
            }
        }
    }
    lossy_utf8(bytes.as_slice())
}

/// `prefix` followed by the upper-case hexadecimal digits of `n`.
pub fn upper_hex_text(prefix: &[u8], n: u64) -> (s: String)
    requires
        all_ascii(prefix@),
    ensures
        s@ == ascii_chars(prefix@ + upper_hex_digits(n as nat)),
{
    let mut bytes: Vec<u8> = Vec::new();
    let mut i: usize = 0;
    while i < prefix.len()
        invariant
            i <= prefix@.len(),
            bytes@ == prefix@.take(i as int),
        decreases prefix.len() - i,
    {
        bytes.push(prefix[i]);
        i = i + 1;
        assert(bytes@ =~= prefix@.take(i as int));
    }
    assert(prefix@.take(prefix@.len() as int) =~= prefix@);
    push_upper_hex_digits(&mut bytes, n);
    proof {
        lemma_upper_hex_digits_ascii(n as nat);
        assert(all_ascii(bytes@)) by {
            assert forall|k: int| 0 <= k < bytes@.len() implies #[trigger] bytes@[k] < 0x80 by {
                if k < prefix@.len() {
                    assert(bytes@[k] == prefix@[k]);
                } else {
                    assert(bytes@[k] == upper_hex_digits(n as nat)[k - prefix@.len()]);
                }
            }
        }
    }
    lossy_utf8(bytes.as_slice())
}

/// A decimal digit.
pub open spec fn is_decimal_digit(c: char) -> bool {
    '0' <= c && c <= '9'
}

/// The value of a string of decimal digits.
pub open spec fn decimal_value(digits: Seq<char>) -> int
    decreases digits.len(),
{
    if digits.len() == 0 {
        0
    } else {
        decimal_value(digits.drop_last()) * 10 + (digits.last() as int - '0' as int)
    }
}

/// The `u64` a numeral denotes: an optional `+` and then at least one
/// decimal digit and nothing else, of a value that fits.
pub open spec fn u64_numeral(text: Seq<char>) -> Option<u64> {
    let digits = if text.len() > 0 && text[0] == '+' {
        text.drop_first()
    } else {
        text
    };
    if digits.len() > 0 && (forall|i: int| 0 <= i < digits.len() ==> #[trigger] is_decimal_digit(digits[i]))
        && decimal_value(digits) <= u64::MAX {
        Some(decimal_value(digits) as u64)
    } else {
        None
    }
}

/// `text.parse::<u64>()`. Its documentation takes an optional `+` followed by
/// decimal digits only, refusing anything else and values that overflow.
#[verifier::external_body]
pub(crate) fn parse_u64(text: &str) -> (r: Option<u64>)
    ensures
        r == u64_numeral(text@),
{
    text.parse::<u64>().ok()
}

} // verus!
