use vstd::prelude::*;
use crate::pattern::{PatternToken, token_matches};

verus! {

/// `pattern` occurs in `buffer` starting at offset `k`.
pub open spec fn matches_at(buffer: Seq<u8>, pattern: Seq<PatternToken>, k: int) -> bool {
    &&& 0 <= k
    &&& k + pattern.len() <= buffer.len()
    &&& forall|i: int| 0 <= i < pattern.len() ==> token_matches(#[trigger] pattern[i], buffer[k + i])
}

/// `r` is the lowest offset at which `pattern` occurs in `buffer`, or `None`
/// when it occurs nowhere.
pub open spec fn is_first_match(buffer: Seq<u8>, pattern: Seq<PatternToken>, r: Option<usize>) -> bool {
    match r {
        Some(k) => matches_at(buffer, pattern, k as int) && forall|j: int|
            0 <= j < k ==> !#[trigger] matches_at(buffer, pattern, j),
        None => forall|j: int| !#[trigger] matches_at(buffer, pattern, j),
    }
}

/// A shift of `s` after a mismatch whose last aligned buffer byte is `b` skips
/// no alignment that could match: no token before the last one that accepts
/// `b` lies within `s` positions of the end of the pattern.
pub open spec fn safe_shift(pattern: Seq<PatternToken>, b: u8, s: int) -> bool {
    &&& 1 <= s <= pattern.len()
    &&& forall|j: int|
        0 <= j < pattern.len() - 1 && token_matches(#[trigger] pattern[j], b) ==> s <= pattern.len() - 1 - j
}

/// Builds the skip table: for every byte value, how far the window may slide
/// when that byte sits under the last pattern position and the window fails.
///
/// A wildcard before the last position caps every entry at its distance from
/// the end; an exact byte lowers only its own entry.
fn build_skip_table(pattern: &[PatternToken]) -> (table: Vec<usize>)
    requires
        pattern@.len() >= 1,
    ensures
        table@.len() == 256,
        forall|b: u8| safe_shift(pattern@, b, #[trigger] table@[b as int] as int),
{
    let len = pattern.len();
    let mut table: Vec<usize> = Vec::new();
    let mut n: usize = 0;
    while n < 256
        invariant
            n <= 256,
            table@.len() == n,
            forall|k: int| 0 <= k < n ==> #[trigger] table@[k] == len,
        decreases 256 - n,
    {
        table.push(len);
        n = n + 1;
    }
    let mut i: usize = 0;
    while i + 1 < len
        invariant
            len == pattern@.len(),
            len >= 1,
            i < len,
            table@.len() == 256,
            forall|k: int| 0 <= k < 256 ==> 1 <= #[trigger] table@[k] <= len,
            forall|k: int, j: int|
                0 <= k < 256 && 0 <= j < i && token_matches(#[trigger] pattern@[j], k as u8)
                    ==> #[trigger] table@[k] <= len - 1 - j,
        decreases len - i,
    {
        let shift = len - 1 - i;
        match pattern[i] {
            PatternToken::ExactByte(b) => {
                if shift < table[b as usize] {
                    table.set(b as usize, shift);
                }
            },
            PatternToken::Wildcard => {
                let mut k: usize = 0;
                while k < 256
                    invariant
                        len == pattern@.len(),
                        i + 1 < len,
                        shift == len - 1 - i,
                        k <= 256,
                        table@.len() == 256,
                        forall|m: int| 0 <= m < 256 ==> 1 <= #[trigger] table@[m] <= len,
                        forall|m: int| 0 <= m < k ==> #[trigger] table@[m] <= shift,
                        forall|m: int, j: int|
                            0 <= m < 256 && 0 <= j < i && token_matches(#[trigger] pattern@[j], m as u8)
                                ==> #[trigger] table@[m] <= len - 1 - j,
                    decreases 256 - k,
                {
                    if shift < table[k] {
                        table.set(k, shift);
                    }
                    k = k + 1;
                }
            },
        }
        i = i + 1;
    }
    assert forall|b: u8| safe_shift(pattern@, b, #[trigger] table@[b as int] as int) by {
        assert(0 <= b as int && (b as int) < 256);
        assert forall|j: int|
            0 <= j < pattern@.len() - 1 && token_matches(#[trigger] pattern@[j], b)
                implies table@[b as int] <= pattern@.len() - 1 - j by {
            assert(((b as int) as u8) == b);
        }
    }
    table
}

/// Compares the window ending at buffer index `c` with the pattern, last
/// token first.
fn window_matches(buffer: &[u8], pattern: &[PatternToken], c: usize) -> (r: bool)
    requires
        pattern@.len() >= 1,
        pattern@.len() - 1 <= c < buffer@.len(),
    ensures
        r == matches_at(buffer@, pattern@, c - pattern@.len() + 1),
{
    let len = pattern.len();
    let start = c - (len - 1);
    let mut i: usize = len;
    while i > 0
        invariant
            len == pattern@.len(),
            start == c + 1 - len,
            c < buffer@.len(),
            i <= len,
            forall|j: int| i <= j < len ==> token_matches(#[trigger] pattern@[j], buffer@[start + j]),
        decreases i,
    {
        let j = i - 1;
        if !pattern[j].accepts(buffer[start + j]) {
            return false;
        }
        i = j;
    }
    true
}

/// Finds the lowest offset at which `pattern` occurs in `buffer`.
///
/// Every exact token must equal the byte under it and every wildcard accepts
/// any byte. The window slides by a per-byte skip distance after each
/// mismatch. An empty pattern occurs at offset 0.
pub fn search(buffer: &[u8], pattern: &[PatternToken]) -> (r: Option<usize>)
    ensures
        is_first_match(buffer@, pattern@, r),
{
    let len = pattern.len();
    if len == 0 {
        assert(matches_at(buffer@, pattern@, 0));
        return Some(0);
    }
    if len > buffer.len() {
        return None;
    }
    let table = build_skip_table(pattern);
    let mut c: usize = len - 1;
    while c < buffer.len()
        invariant
            len == pattern@.len(),
            len >= 1,
            len - 1 <= c,
            table@.len() == 256,
            forall|b: u8| safe_shift(pattern@, b, #[trigger] table@[b as int] as int),
            forall|j: int| 0 <= j < c - len + 1 ==> !#[trigger] matches_at(buffer@, pattern@, j),
        decreases buffer@.len() + len - c,
    {
        if window_matches(buffer, pattern, c) {
            return Some(c - (len - 1));
        }
        let b = buffer[c];
        let shift = table[b as usize];
        assert(safe_shift(pattern@, b, shift as int));
        assert forall|j: int| 0 <= j < c + shift - len + 1 implies !#[trigger] matches_at(buffer@, pattern@, j) by {
            if j >= c - len + 1 && j != c - len + 1 {
                let d = j - (c - len + 1);
                let p = len - 1 - d;
                if matches_at(buffer@, pattern@, j) {
                    assert(token_matches(pattern@[p], buffer@[j + p]));
                    assert(j + p == c);
                }
            }
        }
        if shift > buffer.len() - c {
            assert forall|j: int| #![trigger matches_at(buffer@, pattern@, j)] !matches_at(buffer@, pattern@, j) by {
                if j >= c + shift - len + 1 {
                    assert(j + len > buffer@.len());
                }
            }
            return None;
        }
        c = c + shift;
    }
    assert forall|j: int| #![trigger matches_at(buffer@, pattern@, j)] !matches_at(buffer@, pattern@, j) by {
        if j >= c - len + 1 {
            assert(j + len > buffer@.len());
        }
    }
    None
}

/// Every token of the pattern is an exact byte.
pub open spec fn has_no_wildcards(pattern: Seq<PatternToken>) -> bool {
    forall|i: int| 0 <= i < pattern.len() ==> (#[trigger] pattern[i]) is ExactByte
}

/// Every token of the pattern is a wildcard.
pub open spec fn all_wildcards(pattern: Seq<PatternToken>) -> bool {
    forall|i: int| 0 <= i < pattern.len() ==> (#[trigger] pattern[i]) is Wildcard
}

/// The bytes of a pattern without wildcards.
pub open spec fn literal_bytes(pattern: Seq<PatternToken>) -> Seq<u8> {
    Seq::new(pattern.len(), |i: int| pattern[i]->ExactByte_0)
}

/// `needle` is the run of `buffer` that starts at `k`.
pub open spec fn occurs_at(buffer: Seq<u8>, needle: Seq<u8>, k: int) -> bool {
    0 <= k && k + needle.len() <= buffer.len() && buffer.subrange(k, k + needle.len()) == needle
}

/// `r` is the lowest offset of a plain substring occurrence of `needle`, or
/// `None` when there is none.
pub open spec fn is_first_occurrence(buffer: Seq<u8>, needle: Seq<u8>, r: Option<usize>) -> bool {
    match r {
        Some(k) => occurs_at(buffer, needle, k as int) && forall|j: int|
            0 <= j < k ==> !#[trigger] occurs_at(buffer, needle, j),
        None => forall|j: int| !#[trigger] occurs_at(buffer, needle, j),
    }
}

proof fn lemma_exact_match_iff_occurs(buffer: Seq<u8>, pattern: Seq<PatternToken>, k: int)
    requires
        has_no_wildcards(pattern),
    ensures
        matches_at(buffer, pattern, k) <==> occurs_at(buffer, literal_bytes(pattern), k),
{
    let needle = literal_bytes(pattern);
    if 0 <= k && k + pattern.len() <= buffer.len() {
        let run = buffer.subrange(k, k + needle.len());
        if matches_at(buffer, pattern, k) {
            assert forall|i: int| 0 <= i < needle.len() implies run[i] == needle[i] by {
                assert(token_matches(pattern[i], buffer[k + i]));
            }
            assert(run =~= needle);
        }
        if occurs_at(buffer, needle, k) {
            assert forall|i: int| 0 <= i < pattern.len() implies token_matches(
                #[trigger] pattern[i],
                buffer[k + i],
            ) by {
                assert(run[i] == needle[i]);
            }
        }
    }
}

/// Without wildcards, a signature search is a plain substring search: it
/// gives exactly the result of searching for the pattern's bytes.
pub proof fn lemma_exact_pattern_is_substring_search(
    buffer: Seq<u8>,
    pattern: Seq<PatternToken>,
    r: Option<usize>,
)
    requires
        has_no_wildcards(pattern),
    ensures
        is_first_match(buffer, pattern, r) <==> is_first_occurrence(buffer, literal_bytes(pattern), r),
{
    let needle = literal_bytes(pattern);
    assert forall|k: int|
        #![trigger matches_at(buffer, pattern, k)]
        #![trigger occurs_at(buffer, needle, k)]
        matches_at(buffer, pattern, k) == occurs_at(buffer, needle, k) by {
        lemma_exact_match_iff_occurs(buffer, pattern, k);
    }
}

/// A pattern made only of wildcards, and no longer than the buffer, is found
/// at offset 0.
pub proof fn lemma_all_wildcards_match_at_start(
    buffer: Seq<u8>,
    pattern: Seq<PatternToken>,
    r: Option<usize>,
)
    requires
        all_wildcards(pattern),
        pattern.len() <= buffer.len(),
        is_first_match(buffer, pattern, r),
    ensures
        r == Some(0usize),
{
    assert(matches_at(buffer, pattern, 0));
}

/// At a reported offset every exact token equals the byte under it.
pub proof fn lemma_found_offset_agrees(buffer: Seq<u8>, pattern: Seq<PatternToken>, k: usize)
    requires
        is_first_match(buffer, pattern, Some(k)),
    ensures
        k + pattern.len() <= buffer.len(),
        forall|i: int|
            0 <= i < pattern.len() ==> (#[trigger] pattern[i]) is Wildcard || buffer[k + i]
                == pattern[i]->ExactByte_0,
{
    assert forall|i: int| 0 <= i < pattern.len() implies (#[trigger] pattern[i]) is Wildcard
        || buffer[k + i] == pattern[i]->ExactByte_0 by {
        assert(token_matches(pattern[i], buffer[k + i]));
    }
}

/// A pattern longer than the buffer is never found.
pub proof fn lemma_longer_pattern_not_found(buffer: Seq<u8>, pattern: Seq<PatternToken>, r: Option<usize>)
    requires
        pattern.len() > buffer.len(),
        is_first_match(buffer, pattern, r),
    ensures
        r is None,
{
}

/// The search result is determined by the buffer and the pattern alone, so
/// repeating a search gives the same answer.
pub proof fn lemma_search_result_unique(
    buffer: Seq<u8>,
    pattern: Seq<PatternToken>,
    r1: Option<usize>,
    r2: Option<usize>,
)
    requires
        is_first_match(buffer, pattern, r1),
        is_first_match(buffer, pattern, r2),
    ensures
        r1 == r2,
{
    match (r1, r2) {
        (Some(a), Some(b)) => {
            if a < b {
                assert(matches_at(buffer, pattern, a as int));
            } else if b < a {
                assert(matches_at(buffer, pattern, b as int));
            }
        },
        (Some(a), None) => {
            assert(matches_at(buffer, pattern, a as int));
        },
        (None, Some(b)) => {
            assert(matches_at(buffer, pattern, b as int));
        },
        (None, None) => {},
    }
}

} // verus!
