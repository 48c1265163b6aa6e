//! Byte signatures: a textual pattern of hex bytes, wildcards and gaps, and
//! the search for the places where such a pattern occurs in a byte image.
//!
//! A pattern is a whitespace-separated list of tokens. `?` or `??` matches any
//! byte, `...` is a gap of at most `MAX_GAP_BYTES` bytes, and a two-character
//! hex token matches that byte exactly. The gaps cut the pattern into segments;
//! each segment after the first must start within `MAX_GAP_BYTES` bytes of the
//! end of the previous one.
use vstd::prelude::*;
use vstd::utf8::encode_utf8;
use vstd::utf8::encode_scalar;

use crate::text::{chars_of, is_white_space, white_space};

verus! {

/// How far past the end of one segment the next one may start.
pub const MAX_GAP_BYTES: usize = 96;

/// One token of a byte pattern.
#[derive(Debug, Clone, Copy, PartialEq, Eq, Structural)]
pub enum PatternToken {
    Exact(u8),
    Any,
    Gap,
}

/// Why a pattern could not be parsed; each variant carries the offending token.
#[derive(Debug, Clone, PartialEq, Eq)]
pub enum PatternError {
    /// A token that is neither a wildcard, a gap nor two bytes of text long.
    InvalidToken { token: Vec<char> },
    /// A two-byte token that is not a hex byte.
    InvalidHex { token: Vec<char> },
}

// ---------------------------------------------------------------------------
// Splitting a sequence into the runs between separators
// ---------------------------------------------------------------------------

/// Scans `s` from the left, returning the runs closed so far and the run still
/// open at the end. A separator closes the open run when it is not empty.
pub open spec fn split_runs<A>(s: Seq<A>, is_sep: spec_fn(A) -> bool) -> (Seq<Seq<A>>, Seq<A>)
    decreases s.len(),
{
    if s.len() == 0 {
        (Seq::empty(), Seq::empty())
    } else {
        let (done, open) = split_runs(s.drop_last(), is_sep);
        if is_sep(s.last()) {
            if open.len() > 0 {
                (done.push(open), Seq::empty())
            } else {
                (done, Seq::empty())
            }
        } else {
            (done, open.push(s.last()))
        }
    }
}

/// The maximal non-empty runs of `s` that contain no separator, in order.
pub open spec fn runs<A>(s: Seq<A>, is_sep: spec_fn(A) -> bool) -> Seq<Seq<A>> {
    let (done, open) = split_runs(s, is_sep);
    if open.len() > 0 {
        done.push(open)
    } else {
        done
    }
}

/// Every run is non-empty and holds no separator.
pub proof fn lemma_runs_are_clean<A>(s: Seq<A>, is_sep: spec_fn(A) -> bool)
    ensures
        forall|i: int|
            0 <= i < runs(s, is_sep).len() ==> #[trigger] runs(s, is_sep)[i].len() > 0,
        forall|i: int, j: int|
            0 <= i < runs(s, is_sep).len() && 0 <= j < runs(s, is_sep)[i].len() ==> !is_sep(
                #[trigger] runs(s, is_sep)[i][j],
            ),
{
    lemma_split_runs_clean(s, is_sep);
}

proof fn lemma_split_runs_clean<A>(s: Seq<A>, is_sep: spec_fn(A) -> bool)
    ensures
        forall|i: int|
            0 <= i < split_runs(s, is_sep).0.len() ==> #[trigger] split_runs(s, is_sep).0[i].len()
                > 0,
        forall|i: int, j: int|
            0 <= i < split_runs(s, is_sep).0.len() && 0 <= j < split_runs(s, is_sep).0[i].len()
                ==> !is_sep(#[trigger] split_runs(s, is_sep).0[i][j]),
        forall|j: int|
            0 <= j < split_runs(s, is_sep).1.len() ==> !is_sep(#[trigger] split_runs(s, is_sep).1[j]),
    decreases s.len(),
{
    if s.len() > 0 {
        lemma_split_runs_clean(s.drop_last(), is_sep);
        let (done, open) = split_runs(s.drop_last(), is_sep);
        if is_sep(s.last()) && open.len() > 0 {
            let d = done.push(open);
            assert forall|i: int| 0 <= i < d.len() implies #[trigger] d[i].len() > 0 by {
                if i < done.len() {
                    assert(d[i] == done[i]);
                }
            }
            assert forall|i: int, j: int| 0 <= i < d.len() && 0 <= j < d[i].len() implies !is_sep(
                #[trigger] d[i][j],
            ) by {
                if i < done.len() {
                    assert(d[i] == done[i]);
                }
            }
        }
    }
}

// ---------------------------------------------------------------------------
// Text
// ---------------------------------------------------------------------------

/// `is_white_space` as a separator predicate.
pub open spec fn white_space_sep() -> spec_fn(char) -> bool {
    |c: char| is_white_space(c)
}

/// The words of a text: what `str::split_whitespace` yields.
pub open spec fn words(text: Seq<char>) -> Seq<Seq<char>> {
    runs(text, white_space_sep())
}

/// The views of a sequence of vectors.
pub open spec fn views<T>(v: Seq<Vec<T>>) -> Seq<Seq<T>> {
    v.map_values(|x: Vec<T>| x@)
}

fn split_words(text: &Vec<char>) -> (w: Vec<Vec<char>>)
    ensures
        views(w@) == words(text@),
{
    let mut done: Vec<Vec<char>> = Vec::new();
    let mut open: Vec<char> = Vec::new();
    let mut i: usize = 0;
    while i < text.len()
        invariant
            i <= text.len(),
            (views(done@), open@) == split_runs(text@.take(i as int), white_space_sep()),
        decreases text.len() - i,
    {
        let c = text[i];
        proof {
            assert(text@.take(i + 1).drop_last() =~= text@.take(i as int));
        }
        if white_space(c) {
            if open.len() > 0 {
                let ghost before = done@;
                done.push(open);
                open = Vec::new();
                proof {
                    assert(views(done@) =~= views(before).push(
                        split_runs(text@.take(i as int), white_space_sep()).1,
                    ));
                }
            }
        } else {
            open.push(c);
        }
        i = i + 1;
    }
    proof {
        assert(text@.take(i as int) =~= text@);
    }
    if open.len() > 0 {
        let ghost before = done@;
        let ghost o = open@;
        done.push(open);
        proof {
            assert(views(done@) =~= views(before).push(o));
        }
    }
    done
}

// ---------------------------------------------------------------------------
// Tokens
// ---------------------------------------------------------------------------

/// The value of a hex digit of either case.
pub open spec fn hex_digit_value(c: char) -> Option<u8> {
    let v = c as u32;
    if 0x30 <= v <= 0x39 {
        Some((v - 0x30) as u8)
    } else if 0x41 <= v <= 0x46 {
        Some((v - 0x37) as u8)
    } else if 0x61 <= v <= 0x66 {
        Some((v - 0x57) as u8)
    } else {
        None
    }
}

/// What `u8::from_str_radix(token, 16)` gives for a two-character token: two
/// hex digits, or a `+` sign and one hex digit.
pub open spec fn hex_byte(t: Seq<char>) -> Option<u8> {
    if t.len() != 2 {
        None
    } else if t[0] == '+' {
        hex_digit_value(t[1])
    } else {
        match (hex_digit_value(t[0]), hex_digit_value(t[1])) {
            (Some(high), Some(low)) => Some((high * 16 + low) as u8),
            _ => None,
        }
    }
}

/// The token a word stands for, if it stands for one: `?` and `??` are
/// wildcards, `...` is a gap, and a word of two UTF-8 bytes is a hex byte.
pub open spec fn token_kind(t: Seq<char>) -> Option<PatternToken> {
    if t == seq!['?'] || t == seq!['?', '?'] {
        Some(PatternToken::Any)
    } else if t == seq!['.', '.', '.'] {
        Some(PatternToken::Gap)
    } else if encode_utf8(t).len() != 2 {
        None
    } else {
        match hex_byte(t) {
            Some(b) => Some(PatternToken::Exact(b)),
            None => None,
        }
    }
}

/// `e` is the error that the word `t` is refused with.
pub open spec fn error_for_word(e: PatternError, t: Seq<char>) -> bool {
    match e {
        PatternError::InvalidToken { token } => token@ == t && encode_utf8(t).len() != 2,
        PatternError::InvalidHex { token } => token@ == t && encode_utf8(t).len() == 2,
    }
}

/// The radix-16 value of a hex digit of either case: `0` to `9` count from
/// zero, `a` to `f` and `A` to `F` from ten.
pub open spec fn radix16_value(c: char) -> int {
    if c <= '9' {
        c as int - '0' as int
    } else if c <= 'F' {
        c as int - 'A' as int + 10
    } else {
        c as int - 'a' as int + 10
    }
}

/// `c` is a hex digit of either case.
pub open spec fn is_hex_char(c: char) -> bool {
    ('0' <= c <= '9') || ('a' <= c <= 'f') || ('A' <= c <= 'F')
}

/// Every hex digit of either case has its radix-16 value, and nothing else
/// is a digit.
pub proof fn lemma_hex_digits(c: char)
    ensures
        is_hex_char(c) ==> hex_digit_value(c) == Some(radix16_value(c) as u8),
        is_hex_char(c) ==> 0 <= radix16_value(c) < 16,
        !is_hex_char(c) ==> hex_digit_value(c) is None,
{
}

/// A word of two hex digits, of either case, is the exact byte they spell,
/// the first digit the high one.
pub proof fn lemma_hex_word(a: char, b: char)
    requires
        is_hex_char(a),
        is_hex_char(b),
    ensures
        token_kind(seq![a, b]) == Some(PatternToken::Exact((radix16_value(a) * 16 + radix16_value(b)) as u8)),
{
    let t = seq![a, b];
    assert(t.drop_first() =~= seq![b]);
    assert(t.drop_first().drop_first() =~= Seq::<char>::empty());
    assert(encode_utf8(Seq::<char>::empty()).len() == 0);
    assert(encode_scalar(b as u32).len() == 1);
    assert(encode_scalar(a as u32).len() == 1);
    assert(encode_utf8(seq![b]).len() == 1) by {
        assert(seq![b].drop_first() =~= Seq::<char>::empty());
    }
    assert(encode_utf8(t).len() == 2);
    assert(t != seq!['?']);
    assert(t != seq!['?', '?']) by {
        assert(t[0] == a);
    }
    assert(t != seq!['.', '.', '.']);
}

/// A pattern whose every word is two hex digits, of either case, parses to
/// the exact bytes those words spell, in order.
pub proof fn lemma_hex_pattern(text: Seq<char>)
    requires
        forall|i: int|
            0 <= i < words(text).len() ==> (#[trigger] words(text)[i]).len() == 2 && is_hex_char(
                words(text)[i][0],
            ) && is_hex_char(words(text)[i][1]),
    ensures
        pattern_tokens(text) == Some(
            words(text).map_values(
                |w: Seq<char>| PatternToken::Exact((radix16_value(w[0]) * 16 + radix16_value(w[1])) as u8),
            ),
        ),
{
    let ws = words(text);
    assert forall|i: int| 0 <= i < ws.len() implies #[trigger] token_kind(ws[i]) == Some(
        PatternToken::Exact((radix16_value(ws[i][0]) * 16 + radix16_value(ws[i][1])) as u8),
    ) by {
        assert(ws[i] =~= seq![ws[i][0], ws[i][1]]);
        lemma_hex_word(ws[i][0], ws[i][1]);
    }
    assert(ws.map_values(|w: Seq<char>| token_kind(w)->0) =~= ws.map_values(
        |w: Seq<char>| PatternToken::Exact((radix16_value(w[0]) * 16 + radix16_value(w[1])) as u8),
    ));
}

fn hex_digit(c: char) -> (r: Option<u8>)
    ensures
        r == hex_digit_value(c),
        is_hex_char(c) ==> r == Some(radix16_value(c) as u8),
        !is_hex_char(c) ==> r is None,
{
    let v = c as u32;
    if 0x30 <= v && v <= 0x39 {
        Some((v - 0x30) as u8)
    } else if 0x41 <= v && v <= 0x46 {
        Some((v - 0x37) as u8)
    } else if 0x61 <= v && v <= 0x66 {
        Some((v - 0x57) as u8)
    } else {
        None
    }
}

proof fn lemma_encode_utf8_len_at_least(t: Seq<char>)
    ensures
        encode_utf8(t).len() >= t.len(),
    decreases t.len(),
{
    if t.len() > 0 {
        lemma_encode_utf8_len_at_least(t.drop_first());
    }
}

proof fn lemma_char_utf8_len(c: char)
    ensures
        vstd::utf8::encode_scalar(c as u32).len() == (if (c as u32) < 0x80 {
            1int
        } else if (c as u32) < 0x800 {
            2int
        } else {
            3int + (if (c as u32) < 0x10000 { 0int } else { 1int })
        }),
{
    let v = c as u32;
    assert(v <= 0xD7FF || (0xE000 <= v && v <= 0x10FFFF));
}

/// Whether the UTF-8 encoding of `t` is two bytes long.
fn two_utf8_bytes(t: &Vec<char>) -> (r: bool)
    ensures
        r == (encode_utf8(t@).len() == 2),
{
    proof {
        reveal_with_fuel(encode_utf8, 3);
        lemma_encode_utf8_len_at_least(t@);
        if t@.len() == 1 {
            assert(t@.drop_first() =~= Seq::<char>::empty());
            lemma_char_utf8_len(t@[0]);
        } else if t@.len() == 2 {
            assert(t@.drop_first().drop_first() =~= Seq::<char>::empty());
            lemma_char_utf8_len(t@[0]);
            lemma_char_utf8_len(t@[1]);
            assert(t@.drop_first()[0] == t@[1]);
        }
    }
    if t.len() == 1 {
        let v = t[0] as u32;
        0x80 <= v && v <= 0x7ff
    } else if t.len() == 2 {
        (t[0] as u32) < 0x80 && (t[1] as u32) < 0x80
    } else {
        false
    }
}

fn parse_hex_byte(t: &Vec<char>) -> (r: Option<u8>)
    ensures
        r == hex_byte(t@),
{
    if t.len() != 2 {
        None
    } else if t[0] == '+' {
        hex_digit(t[1])
    } else {
        match (hex_digit(t[0]), hex_digit(t[1])) {
            (Some(high), Some(low)) => Some(high * 16 + low),
            _ => None,
        }
    }
}

fn parse_token(word: Vec<char>) -> (r: Result<PatternToken, PatternError>)
    ensures
        match r {
            Ok(token) => token_kind(word@) == Some(token),
            Err(e) => token_kind(word@) is None && error_for_word(e, word@),
        },
{
    if (word.len() == 1 && word[0] == '?') || (word.len() == 2 && word[0] == '?' && word[1]
        == '?') {
        proof {
            if word@.len() == 1 {
                assert(word@ =~= seq!['?']);
            } else {
                assert(word@ =~= seq!['?', '?']);
            }
        }
        return Ok(PatternToken::Any);
    }
    if word.len() == 3 && word[0] == '.' && word[1] == '.' && word[2] == '.' {
        assert(word@ =~= seq!['.', '.', '.']);
        return Ok(PatternToken::Gap);
    }
    proof {
        assert(word@ != seq!['?'] && word@ != seq!['?', '?'] && word@ != seq!['.', '.', '.']) by {
            if word@ == seq!['?'] {
                assert(word@[0] == '?');
            }
            if word@ == seq!['?', '?'] {
                assert(word@[0] == '?' && word@[1] == '?');
            }
            if word@ == seq!['.', '.', '.'] {
                assert(word@[0] == '.' && word@[1] == '.' && word@[2] == '.');
            }
        }
    }
    if !two_utf8_bytes(&word) {
        return Err(PatternError::InvalidToken { token: word });
    }
    match parse_hex_byte(&word) {
        Some(value) => Ok(PatternToken::Exact(value)),
        None => Err(PatternError::InvalidHex { token: word }),
    }
}

/// The tokens of a pattern text, where every word of it is a token.
pub open spec fn pattern_tokens(text: Seq<char>) -> Option<Seq<PatternToken>> {
    if forall|i: int| 0 <= i < words(text).len() ==> #[trigger] token_kind(words(text)[i]) is Some {
        Some(words(text).map_values(|w: Seq<char>| token_kind(w)->0))
    } else {
        None
    }
}

/// Parses a whitespace-separated byte pattern.
///
/// Each word becomes one token (see `token_kind`); the first word that is no
/// token makes the whole parse fail with the error for that word.
pub fn parse_pattern(pattern: &str) -> (r: Result<Vec<PatternToken>, PatternError>)
    ensures
        r is Ok <==> forall|i: int|
            0 <= i < words(pattern@).len() ==> #[trigger] token_kind(words(pattern@)[i]) is Some,
        r is Ok <==> pattern_tokens(pattern@) is Some,
        r matches Ok(tokens) ==> pattern_tokens(pattern@) == Some(tokens@),
        match r {
            Ok(tokens) => {
                &&& tokens@.len() == words(pattern@).len()
                &&& forall|i: int|
                    0 <= i < tokens@.len() ==> token_kind(words(pattern@)[i]) == Some(
                        #[trigger] tokens@[i],
                    )
            },
            Err(e) => exists|k: int|
                0 <= k < words(pattern@).len() && #[trigger] token_kind(words(pattern@)[k]) is None
                    && (forall|j: int| 0 <= j < k ==> token_kind(words(pattern@)[j]) is Some)
                    && error_for_word(e, words(pattern@)[k]),
        },
{
    let text = chars_of(pattern);
    let ws = split_words(&text);
    let ghost toks = words(pattern@);
    let mut tokens: Vec<PatternToken> = Vec::new();
    let mut i: usize = 0;
    while i < ws.len()
        invariant
            i <= ws.len(),
            views(ws@) == toks,
            toks == words(pattern@),
            tokens@.len() == i,
            forall|j: int| 0 <= j < i ==> token_kind(toks[j]) == Some(#[trigger] tokens@[j]),
        decreases ws.len() - i,
    {
        let word = ws[i].clone();
        assert(word@ == toks[i as int]);
        match parse_token(word) {
            Ok(token) => tokens.push(token),
            Err(e) => {
                proof {
                    assert forall|j: int| 0 <= j < i implies token_kind(toks[j]) is Some by {
                        assert(token_kind(toks[j]) == Some(tokens@[j]));
                    }
                    assert(token_kind(toks[i as int]) is None);
                    assert(!(forall|j: int|
                        0 <= j < toks.len() ==> #[trigger] token_kind(toks[j]) is Some));
                }
                return Err(e);
            },
        }
        i = i + 1;
    }
    proof {
        assert forall|j: int| 0 <= j < toks.len() implies #[trigger] token_kind(toks[j]) is Some by {
            assert(token_kind(toks[j]) == Some(tokens@[j]));
        }
        assert(tokens@ =~= toks.map_values(|w: Seq<char>| token_kind(w)->0));
    }
    Ok(tokens)
}

// ---------------------------------------------------------------------------
// Matching
// ---------------------------------------------------------------------------

/// `Gap` as a separator predicate.
pub open spec fn gap_sep() -> spec_fn(PatternToken) -> bool {
    |t: PatternToken| t is Gap
}

/// The segments of a pattern: its maximal runs of tokens between gaps.
pub open spec fn segments(pattern: Seq<PatternToken>) -> Seq<Seq<PatternToken>> {
    runs(pattern, gap_sep())
}

/// Whether one token accepts one byte.
pub open spec fn token_accepts(token: PatternToken, byte: u8) -> bool {
    match token {
        PatternToken::Exact(expected) => expected == byte,
        PatternToken::Any => true,
        PatternToken::Gap => false,
    }
}

/// Whether `segment` lies in `bytes` at `start`, every token accepting its byte.
pub open spec fn segment_matches_at(bytes: Seq<u8>, start: int, segment: Seq<PatternToken>) -> bool {
    &&& 0 <= start
    &&& start + segment.len() <= bytes.len()
    &&& forall|i: int| 0 <= i < segment.len() ==> token_accepts(segment[i], #[trigger] bytes[start + i])
}

/// The last start the search for a segment of `len` tokens may try, when the
/// search begins at `search_start`: no more than `MAX_GAP_BYTES` further, and
/// not past the point where the segment would run off the end.
pub open spec fn last_search_start(bytes_len: int, len: int, search_start: int) -> int {
    let max_start = if bytes_len >= len { bytes_len - len } else { 0 };
    if max_start < search_start + MAX_GAP_BYTES { max_start } else { search_start + MAX_GAP_BYTES }
}

/// Whether the segments from `index` on can be placed one after the other,
/// the first of them starting between `search_start` and `MAX_GAP_BYTES`
/// bytes after it, and each later one likewise after the end of the one before.
pub open spec fn rest_matches(
    bytes: Seq<u8>,
    segs: Seq<Seq<PatternToken>>,
    index: nat,
    search_start: int,
) -> bool
    decreases segs.len() - index,
{
    if index >= segs.len() {
        true
    } else {
        let segment = segs[index as int];
        if segment.len() == 0 || search_start >= bytes.len() {
            false
        } else {
            exists|start: int|
                search_start <= start <= last_search_start(bytes.len() as int, segment.len() as int, search_start)
                    && #[trigger] segment_matches_at(bytes, start, segment) && rest_matches(
                    bytes,
                    segs,
                    index + 1,
                    start + segment.len(),
                )
        }
    }
}

/// Whether `pattern` occurs in `bytes` at `start`: its first segment lies there
/// and the later segments follow within the allowed gaps.
pub open spec fn pattern_matches_at(bytes: Seq<u8>, pattern: Seq<PatternToken>, start: int) -> bool {
    let segs = segments(pattern);
    &&& segs.len() > 0
    &&& segment_matches_at(bytes, start, segs[0])
    &&& rest_matches(bytes, segs, 1, start + segs[0].len())
}

/// A pattern without gaps is one segment: it occurs where its tokens accept
/// the bytes one for one.
pub proof fn lemma_gap_free_pattern_matches_directly(bytes: Seq<u8>, pattern: Seq<PatternToken>, start: int)
    requires
        pattern.len() > 0,
        forall|i: int| 0 <= i < pattern.len() ==> !(#[trigger] pattern[i] is Gap),
    ensures
        segments(pattern) == seq![pattern],
        pattern_matches_at(bytes, pattern, start) <==> segment_matches_at(bytes, start, pattern),
{
    lemma_split_without_separator(pattern, gap_sep());
    assert(segments(pattern) =~= seq![pattern]);
    let segs = segments(pattern);
    assert(rest_matches(bytes, segs, 1, start + pattern.len()));
}

proof fn lemma_split_without_separator<A>(s: Seq<A>, is_sep: spec_fn(A) -> bool)
    requires
        forall|i: int| 0 <= i < s.len() ==> !is_sep(#[trigger] s[i]),
    ensures
        split_runs(s, is_sep) == (Seq::<Seq<A>>::empty(), s),
    decreases s.len(),
{
    if s.len() > 0 {
        lemma_split_without_separator(s.drop_last(), is_sep);
        assert(s.drop_last().push(s.last()) =~= s);
    } else {
        assert(s =~= Seq::<A>::empty());
    }
}

/// `start` is the first place at which `pattern` occurs in `bytes`.
pub open spec fn is_first_match(bytes: Seq<u8>, pattern: Seq<PatternToken>, start: int) -> bool {
    &&& pattern_matches_at(bytes, pattern, start)
    &&& forall|t: int| 0 <= t < start ==> !#[trigger] pattern_matches_at(bytes, pattern, t)
}

/// `pattern` occurs nowhere in `bytes`.
pub open spec fn occurs_nowhere(bytes: Seq<u8>, pattern: Seq<PatternToken>) -> bool {
    forall|s: int| !#[trigger] pattern_matches_at(bytes, pattern, s)
}

/// The first of the positions `find_matches` returns, when it was allowed at
/// least one, is the first occurrence; none returned means none exists.
pub proof fn lemma_first_found(
    bytes: Seq<u8>,
    pattern: Seq<PatternToken>,
    limit: usize,
    found: Seq<usize>,
)
    requires
        limit >= 1,
        found.len() <= limit,
        forall|i: int|
            0 <= i < found.len() ==> pattern_matches_at(bytes, pattern, #[trigger] found[i] as int),
        forall|i: int, j: int| 0 <= i < j < found.len() ==> found[i] < found[j],
        forall|s: int|
            #[trigger] pattern_matches_at(bytes, pattern, s) && (found.len() < limit || (found.len()
                > 0 && s < found.last())) ==> found.contains(s as usize),
    ensures
        found.len() == 0 <==> occurs_nowhere(bytes, pattern),
        found.len() > 0 ==> is_first_match(bytes, pattern, found[0] as int),
{
    if found.len() > 0 {
        assert(pattern_matches_at(bytes, pattern, found[0] as int));
        assert forall|t: int| 0 <= t < found[0] implies !#[trigger] pattern_matches_at(bytes, pattern, t) by {
            if pattern_matches_at(bytes, pattern, t) {
                if found.len() > 1 {
                    assert(found[0] < found.last());
                }
                assert(found.contains(t as usize));
                let k = choose|k: int| 0 <= k < found.len() && found[k] == t as usize;
                if k > 0 {
                    assert(found[0] < found[k]);
                }
            }
        }
    } else {
        assert forall|s: int| !#[trigger] pattern_matches_at(bytes, pattern, s) by {
            if pattern_matches_at(bytes, pattern, s) {
                assert(found.contains(s as usize));
            }
        }
    }
}

/// The first place at which `pattern` occurs in `bytes`, if it occurs.
pub open spec fn first_match(bytes: Seq<u8>, pattern: Seq<PatternToken>) -> Option<int> {
    if exists|s: int| is_first_match(bytes, pattern, s) {
        Some(choose|s: int| is_first_match(bytes, pattern, s))
    } else {
        None
    }
}

/// `first_match` names the first occurrence, and nothing where there is none.
pub proof fn lemma_first_match(bytes: Seq<u8>, pattern: Seq<PatternToken>, s: int)
    ensures
        is_first_match(bytes, pattern, s) ==> first_match(bytes, pattern) == Some(s),
        occurs_nowhere(bytes, pattern) ==> first_match(bytes, pattern) is None,
{
    if is_first_match(bytes, pattern, s) {
        let t = choose|t: int| is_first_match(bytes, pattern, t);
        assert(is_first_match(bytes, pattern, t));
        if t < s {
            assert(!pattern_matches_at(bytes, pattern, t));
        } else if s < t {
            assert(!pattern_matches_at(bytes, pattern, s));
        }
    }
    if occurs_nowhere(bytes, pattern) {
        if exists|t: int| is_first_match(bytes, pattern, t) {
            let t = choose|t: int| is_first_match(bytes, pattern, t);
            assert(pattern_matches_at(bytes, pattern, t));
        }
    }
}

/// The first place at which `pattern` occurs in `bytes`, if it occurs.
pub fn find_first_match(bytes: &[u8], pattern: &[PatternToken], limit: usize) -> (r: Option<usize>)
    requires
        limit >= 1,
    ensures
        r == match first_match(bytes@, pattern@) {
            Some(s) => Some(s as usize),
            None => None::<usize>,
        },
        r matches Some(s) ==> first_match(bytes@, pattern@) == Some(s as int),
{
    let found = find_matches(bytes, pattern, limit);
    proof {
        lemma_first_found(bytes@, pattern@, limit, found@);
    }
    if found.len() > 0 {
        proof {
            lemma_first_match(bytes@, pattern@, found@[0] as int);
        }
        Some(found[0])
    } else {
        proof {
            lemma_first_match(bytes@, pattern@, 0);
        }
        None
    }
}

fn is_gap(token: PatternToken) -> (r: bool)
    ensures
        r == (token is Gap),
{
    match token {
        PatternToken::Gap => true,
        _ => false,
    }
}

fn split_segments(pattern: &[PatternToken]) -> (segs: Vec<Vec<PatternToken>>)
    ensures
        views(segs@) == segments(pattern@),
{
    let mut done: Vec<Vec<PatternToken>> = Vec::new();
    let mut open: Vec<PatternToken> = Vec::new();
    let mut i: usize = 0;
    while i < pattern.len()
        invariant
            i <= pattern.len(),
            (views(done@), open@) == split_runs(pattern@.take(i as int), gap_sep()),
        decreases pattern.len() - i,
    {
        let token = pattern[i];
        proof {
            assert(pattern@.take(i + 1).drop_last() =~= pattern@.take(i as int));
        }
        if is_gap(token) {
            if open.len() > 0 {
                let ghost before = done@;
                done.push(open);
                open = Vec::new();
                proof {
                    assert(views(done@) =~= views(before).push(
                        split_runs(pattern@.take(i as int), gap_sep()).1,
                    ));
                }
            }
        } else {
            open.push(token);
        }
        i = i + 1;
    }
    proof {
        assert(pattern@.take(i as int) =~= pattern@);
    }
    if open.len() > 0 {
        let ghost before = done@;
        let ghost o = open@;
        done.push(open);
        proof {
            assert(views(done@) =~= views(before).push(o));
        }
    }
    done
}

fn segment_matches(bytes: &[u8], start: usize, segment: &[PatternToken]) -> (r: bool)
    ensures
        r == segment_matches_at(bytes@, start as int, segment@),
{
    let _bytes_len = bytes.len();
    let end = match start.checked_add(segment.len()) {
        Some(end) => end,
        None => return false,
    };
    if end > bytes.len() {
        return false;
    }
    let mut i: usize = 0;
    while i < segment.len()
        invariant
            i <= segment.len(),
            start + segment.len() <= bytes.len(),
            forall|j: int| 0 <= j < i ==> token_accepts(segment@[j], #[trigger] bytes@[start + j]),
        decreases segment.len() - i,
    {
        let accepted = match segment[i] {
            PatternToken::Exact(expected) => expected == bytes[start + i],
            PatternToken::Any => true,
            PatternToken::Gap => false,
        };
        if !accepted {
            assert(!token_accepts(segment@[i as int], bytes@[start + i]));
            return false;
        }
        i = i + 1;
    }
    true
}

fn match_remaining_segments(
    bytes: &[u8],
    segs: &Vec<Vec<PatternToken>>,
    index: usize,
    search_start: usize,
) -> (r: bool)
    ensures
        r == rest_matches(bytes@, views(segs@), index as nat, search_start as int),
    decreases segs.len() - index,
{
    if index >= segs.len() {
        return true;
    }
    let segment = segs[index].as_slice();
    assert(segment@ == views(segs@)[index as int]);
    if segment.len() == 0 || search_start >= bytes.len() {
        return false;
    }
    let max_start = bytes.len().saturating_sub(segment.len());
    let reach = search_start.saturating_add(MAX_GAP_BYTES);
    let search_end = if max_start < reach {
        max_start
    } else {
        reach
    };
    assert(search_end == last_search_start(bytes@.len() as int, segment@.len() as int, search_start as int));
    let mut start = search_start;
    while start <= search_end
        invariant
            search_start <= start,
            search_start < bytes@.len(),
            segment@.len() > 0,
            search_end < bytes.len(),
            index < segs.len(),
            segment@ == views(segs@)[index as int],
            search_end == last_search_start(bytes@.len() as int, segment@.len() as int, search_start as int),
            forall|s: int|
                search_start <= s < start ==> !(#[trigger] segment_matches_at(bytes@, s, segment@)
                    && rest_matches(bytes@, views(segs@), index as nat + 1, s + segment@.len())),
        decreases search_end + 1 - start,
    {
        if segment_matches(bytes, start, segment) {
            if match_remaining_segments(bytes, segs, index + 1, start + segment.len()) {
                assert(segment_matches_at(bytes@, start as int, segment@));
                return true;
            }
        }
        start = start + 1;
    }
    false
}

/// The positions at which `pattern` occurs in `bytes`, in ascending order, at
/// most `limit` of them: the first `limit` when there are more.
pub fn find_matches(bytes: &[u8], pattern: &[PatternToken], limit: usize) -> (found: Vec<usize>)
    ensures
        found@.len() <= limit,
        forall|i: int|
            0 <= i < found@.len() ==> pattern_matches_at(bytes@, pattern@, #[trigger] found@[i] as int),
        forall|i: int, j: int| 0 <= i < j < found@.len() ==> found@[i] < found@[j],
        forall|s: int|
            #[trigger] pattern_matches_at(bytes@, pattern@, s) && (found@.len() < limit || (
            found@.len() > 0 && s < found@.last())) ==> found@.contains(s as usize),
{
    let mut found: Vec<usize> = Vec::new();
    let segs = split_segments(pattern);
    proof {
        lemma_runs_are_clean(pattern@, gap_sep());
    }
    if pattern.len() == 0 || bytes.len() == 0 || limit == 0 || segs.len() == 0 {
        proof {
            if pattern@.len() == 0 {
                assert(pattern@ =~= Seq::<PatternToken>::empty());
                assert(segments(pattern@).len() == 0);
            }
            if bytes@.len() == 0 {
                assert forall|s: int| !pattern_matches_at(bytes@, pattern@, s) by {
                    if segments(pattern@).len() > 0 {
                        assert(segments(pattern@)[0].len() > 0);
                    }
                }
            }
        }
        return found;
    }
    let first = segs[0].as_slice();
    assert(first@ == segments(pattern@)[0]);
    assert(first@.len() > 0);
    if bytes.len() < first.len() {
        return found;
    }
    let _bytes_len = bytes.len();
    let last_start = bytes.len() - first.len();
    let mut start: usize = 0;
    while start <= last_start
        invariant
            last_start == bytes@.len() - first@.len(),
            bytes@.len() <= usize::MAX,
            first@.len() > 0,
            0 < segs@.len(),
            first@ == segments(pattern@)[0],
            views(segs@) == segments(pattern@),
            found@.len() < limit,
            forall|i: int|
                0 <= i < found@.len() ==> pattern_matches_at(bytes@, pattern@, #[trigger] found@[i] as int),
            forall|i: int| 0 <= i < found@.len() ==> #[trigger] found@[i] < start,
            forall|i: int, j: int| 0 <= i < j < found@.len() ==> found@[i] < found@[j],
            forall|s: int|
                0 <= s < start && #[trigger] pattern_matches_at(bytes@, pattern@, s) ==> found@.contains(s as usize),
        decreases last_start + 1 - start,
    {
        if segment_matches(bytes, start, first) {
            if match_remaining_segments(bytes, &segs, 1, start + first.len()) {
                let ghost before = found@;
                found.push(start);
                proof {
                    assert(found@[found@.len() - 1] == start);
                    assert forall|s: int|
                        0 <= s < start + 1 && #[trigger] pattern_matches_at(bytes@, pattern@, s)
                        implies found@.contains(s as usize) by {
                        if s < start {
                            assert(before.contains(s as usize));
                            let k = choose|k: int| 0 <= k < before.len() && before[k] == s as usize;
                            assert(found@[k] == s as usize);
                        } else {
                            assert(found@[found@.len() - 1] == s as usize);
                        }
                    }
                }
                if found.len() >= limit {
                    return found;
                }
            }
        }
        start = start + 1;
    }
    proof {
        assert forall|s: int| #[trigger] pattern_matches_at(bytes@, pattern@, s) implies found@.contains(s as usize) by {
            assert(s <= last_start);
        }
    }
    found
}

} // verus!
