//! Byte-level text positioning.
//!
//! Compiler spans address source text by byte offset.  The editor protocol
//! wants line/character positions: the line is the number of line breaks
//! strictly before the offset, and the character is the number of characters
//! from the start of that line up to the offset.  On UTF-8 text the number of
//! characters in a byte range equals the number of bytes that are not UTF-8
//! continuation bytes, which lets both counts be computed in one pass over
//! the bytes.

use vstd::prelude::*;

verus! {

use vstd::utf8::is_continuation_byte;

/// A line/character position inside one document, zero-based.
/// The character is a count of characters (Unicode scalar values), not bytes.
#[derive(Clone, Copy, Debug, PartialEq, Eq, Structural)]
pub struct Position {
    pub line: usize,
    pub character: usize,
}

/// A half-open region of one document, as two positions.
#[derive(Clone, Copy, Debug, PartialEq, Eq, Structural)]
pub struct SrcRange {
    pub start: Position,
    pub end: Position,
}

/// Number of line-break bytes in `s` strictly before offset `n`.
pub open spec fn line_count(s: Seq<u8>, n: int) -> int
    decreases n,
{
    if n <= 0 {
        0
    } else {
        line_count(s, n - 1) + if s[n - 1] == 10 {
            1int
        } else {
            0int
        }
    }
}

/// Offset of the first byte of the line that offset `n` falls on: one past
/// the last line break strictly before `n`, or zero if there is none.
pub open spec fn line_start(s: Seq<u8>, n: int) -> int
    decreases n,
{
    if n <= 0 {
        0
    } else if s[n - 1] == 10 {
        n
    } else {
        line_start(s, n - 1)
    }
}

/// Number of characters encoded in `s[from..to]`: the bytes there that do
/// not continue a multi-byte UTF-8 sequence.
pub open spec fn char_count(s: Seq<u8>, from: int, to: int) -> int
    decreases to - from,
{
    if to <= from {
        0
    } else {
        char_count(s, from, to - 1) + if is_continuation_byte(s[to - 1]) {
            0int
        } else {
            1int
        }
    }
}

/// The position that byte offset `n` of `s` converts to.
pub open spec fn position_at(s: Seq<u8>, n: int) -> Position {
    Position {
        line: line_count(s, n) as usize,
        character: char_count(s, line_start(s, n), n) as usize,
    }
}

/// The range between byte offsets `start` and `end` of `s`.
pub open spec fn range_at(s: Seq<u8>, start: int, end: int) -> SrcRange {
    SrcRange { start: position_at(s, start), end: position_at(s, end) }
}

proof fn lemma_line_count_bound(s: Seq<u8>, n: int)
    requires
        0 <= n <= s.len(),
    ensures
        0 <= line_count(s, n) <= n,
    decreases n,
{
    if n > 0 {
        lemma_line_count_bound(s, n - 1);
    }
}

proof fn lemma_line_start_bound(s: Seq<u8>, n: int)
    requires
        0 <= n <= s.len(),
    ensures
        0 <= line_start(s, n) <= n,
    decreases n,
{
    if n > 0 && s[n - 1] != 10 {
        lemma_line_start_bound(s, n - 1);
    }
}

proof fn lemma_char_count_bound(s: Seq<u8>, from: int, to: int)
    requires
        0 <= from <= to <= s.len(),
    ensures
        0 <= char_count(s, from, to) <= to - from,
    decreases to - from,
{
    if to > from {
        lemma_char_count_bound(s, from, to - 1);
    }
}

/// Convert a byte offset into `source` to a line/character position.
/// An offset past the end of the text is treated as the end of the text.
pub fn calc_position(source: &[u8], offset: usize) -> (r: Position)
    ensures
        r == position_at(source@, clamp_offset(source@, offset as int)),
{
    let n: usize = if offset <= source.len() {
        offset
    } else {
        source.len()
    };
    let mut line: usize = 0;
    let mut start: usize = 0;
    let mut i: usize = 0;
    proof {
        lemma_line_count_bound(source@, n as int);
    }
    while i < n
        invariant
            0 <= i <= n <= source@.len(),
            line == line_count(source@, i as int),
            start == line_start(source@, i as int),
            line <= i,
            start <= i,
        decreases n - i,
    {
        proof {
            lemma_line_count_bound(source@, i + 1);
        }
        if source[i] == 10 {
            line = line + 1;
            start = i + 1;
        }
        i = i + 1;
    }
    let mut chars: usize = 0;
    let mut j: usize = start;
    proof {
        lemma_char_count_bound(source@, start as int, n as int);
    }
    while j < n
        invariant
            line_start(source@, n as int) == start,
            start <= j <= n <= source@.len(),
            chars == char_count(source@, start as int, j as int),
            chars <= j - start,
        decreases n - j,
    {
        proof {
            lemma_char_count_bound(source@, start as int, j + 1);
        }
        let b = source[j];
        if !(0x80 <= b && b <= 0xbf) {
            chars = chars + 1;
        }
        j = j + 1;
    }
    Position { line, character: chars }
}

/// `offset`, held back to the length of `s`.
pub open spec fn clamp_offset(s: Seq<u8>, offset: int) -> int {
    if offset <= s.len() {
        offset
    } else {
        s.len() as int
    }
}

/// The range that byte offsets `start` and `end` of `source` convert to,
/// each first clamped to the text length.
pub open spec fn clamped_range_at(s: Seq<u8>, start: int, end: int) -> SrcRange {
    range_at(s, clamp_offset(s, start), clamp_offset(s, end))
}

/// Convert a pair of byte offsets into `source` to a range.
pub fn calc_range(source: &[u8], start: usize, end: usize) -> (r: SrcRange)
    ensures
        r == clamped_range_at(source@, start as int, end as int),
{
    SrcRange { start: calc_position(source, start), end: calc_position(source, end) }
}

/// True when `needle` occurs in `hay` starting at byte offset `i`.
pub open spec fn match_at(hay: Seq<u8>, needle: Seq<u8>, i: int) -> bool {
    &&& 0 <= i
    &&& i + needle.len() <= hay.len()
    &&& hay.subrange(i, i + needle.len() as int) == needle
}

/// The first offset at which `needle` occurs in `hay`, if any.
pub open spec fn find_first(hay: Seq<u8>, needle: Seq<u8>) -> Option<int>
    decreases hay.len(),
{
    if match_at(hay, needle, 0) {
        Some(0int)
    } else if hay.len() == 0 {
        None
    } else {
        match find_first(hay.skip(1), needle) {
            Some(i) => Some(i + 1),
            None => None,
        }
    }
}

proof fn lemma_find_first_spec(hay: Seq<u8>, needle: Seq<u8>)
    ensures
        match find_first(hay, needle) {
            Some(i) => match_at(hay, needle, i) && forall|j: int|
                0 <= j < i ==> !match_at(hay, needle, j),
            None => forall|j: int| !match_at(hay, needle, j),
        },
    decreases hay.len(),
{
    if match_at(hay, needle, 0) {
    } else if hay.len() == 0 {
        assert forall|j: int| !match_at(hay, needle, j) by {
            if match_at(hay, needle, j) {
                assert(hay.subrange(j, j + needle.len() as int) == needle);
            }
        }
    } else {
        lemma_find_first_spec(hay.skip(1), needle);
        assert forall|j: int| 1 <= j implies (match_at(hay, needle, j) <==> match_at(
            hay.skip(1),
            needle,
            j - 1,
        )) by {
            if match_at(hay, needle, j) {
                assert(hay.skip(1).subrange(j - 1, j - 1 + needle.len() as int) =~= hay.subrange(
                    j,
                    j + needle.len() as int,
                ));
            }
            if match_at(hay.skip(1), needle, j - 1) {
                assert(hay.subrange(j, j + needle.len() as int) =~= hay.skip(1).subrange(
                    j - 1,
                    j - 1 + needle.len() as int,
                ));
            }
        }
        match find_first(hay.skip(1), needle) {
            Some(i) => {
                assert(match_at(hay, needle, i + 1));
            },
            None => {
                assert forall|j: int| !match_at(hay, needle, j) by {
                    if j >= 1 {
                        assert(!match_at(hay.skip(1), needle, j - 1));
                    }
                }
            },
        }
    }
}

/// Search `hay` for the first occurrence of `needle`, returning its byte
/// offset.  The empty needle matches at offset zero.
pub fn find_in(hay: &[u8], needle: &[u8]) -> (r: Option<usize>)
    ensures
        match r {
            Some(i) => find_first(hay@, needle@) == Some(i as int),
            None => find_first(hay@, needle@) is None,
        },
{
    proof {
        lemma_find_first_spec(hay@, needle@);
    }
    if needle.len() > hay.len() {
        proof {
            if find_first(hay@, needle@) is Some {
                let i = find_first(hay@, needle@)->Some_0;
                assert(match_at(hay@, needle@, i));
            }
        }
        return None;
    }
    let mut i: usize = 0;
    while i <= hay.len() - needle.len()
        invariant
            needle@.len() <= hay@.len(),
            0 <= i <= hay@.len() - needle@.len() + 1,
            forall|j: int| 0 <= j < i ==> !match_at(hay@, needle@, j),
        decreases hay@.len() - i,
    {
        let mut k: usize = 0;
        let mut ok = true;
        while k < needle.len()
            invariant
                0 <= k <= needle@.len(),
                i + needle@.len() <= hay@.len() <= usize::MAX,
                ok <==> hay@.subrange(i as int, i + k as int) =~= needle@.take(k as int),
            decreases needle@.len() - k,
        {
            proof {
                assert(hay@.subrange(i as int, i + k + 1).drop_last() =~= hay@.subrange(
                    i as int,
                    i + k as int,
                ));
                assert(needle@.take(k + 1).drop_last() =~= needle@.take(k as int));
            }
            if hay[i + k] != needle[k] {
                ok = false;
                proof {
                    assert(hay@.subrange(i as int, i + k + 1)[k as int] == hay@[i + k]);
                    assert(needle@.take(k + 1)[k as int] == needle@[k as int]);
                }
            } else {
                proof {
                    if ok {
                        assert(hay@.subrange(i as int, i + k + 1) =~= hay@.subrange(
                            i as int,
                            i + k as int,
                        ).push(hay@[i + k]));
                        assert(needle@.take(k + 1) =~= needle@.take(k as int).push(
                            needle@[k as int],
                        ));
                    }
                }
                if !ok {
                    proof {
                        if hay@.subrange(i as int, i + k + 1) =~= needle@.take(k + 1) {
                            assert(hay@.subrange(i as int, i + k + 1).drop_last()
                                == needle@.take(k + 1).drop_last());
                        }
                    }
                }
            }
            k = k + 1;
        }
        if ok {
            proof {
                assert(needle@.take(needle@.len() as int) =~= needle@);
                assert(match_at(hay@, needle@, i as int));
                lemma_find_first_spec(hay@, needle@);
            }
            return Some(i);
        }
        proof {
            assert(needle@.take(needle@.len() as int) =~= needle@);
            assert(!match_at(hay@, needle@, i as int));
        }
        i = i + 1;
    }
    proof {
        if find_first(hay@, needle@) is Some {
            let w = find_first(hay@, needle@)->Some_0;
            assert(match_at(hay@, needle@, w));
        }
    }
    None
}

} // verus!
