//! Operations on text that the extraction needs: equality of two string
//! slices, and the removal of surrounding whitespace.

use vstd::prelude::*;
use vstd::string::StringSliceAdditionalSpecFns;
use vstd::utf8::encode_utf8_decode_utf8;

verus! {

/// The characters of an optional string.
pub open spec fn text_of(s: Option<String>) -> Option<Seq<char>> {
    match s {
        Some(t) => Some(t@),
        None => None,
    }
}

/// Whether two string slices hold the same characters.
pub fn same_text(a: &str, b: &str) -> (r: bool)
    ensures
        r == (a@ == b@),
{
    let x = a.as_bytes();
    let y = b.as_bytes();
    proof {
        encode_utf8_decode_utf8(a@);
        encode_utf8_decode_utf8(b@);
    }
    if x.len() != y.len() {
        return false;
    }
    let mut i: usize = 0;
    while i < x.len()
        invariant
            i <= x.len(),
            x.len() == y.len(),
            x@ == a.spec_bytes(),
            y@ == b.spec_bytes(),
            forall|j: int| 0 <= j < i ==> x@[j] == y@[j],
        decreases x.len() - i,
    {
        if x[i] != y[i] {
            return false;
        }
        i += 1;
    }
    assert(x@ =~= y@);
    true
}

/// Whether a character is whitespace: one of the 25 characters that have the
/// Unicode property `White_Space`.
pub open spec fn white_space(c: char) -> bool {
    ||| '\u{9}' <= c <= '\u{d}'
    ||| c == ' '
    ||| c == '\u{85}'
    ||| c == '\u{a0}'
    ||| c == '\u{1680}'
    ||| '\u{2000}' <= c <= '\u{200a}'
    ||| c == '\u{2028}'
    ||| c == '\u{2029}'
    ||| c == '\u{202f}'
    ||| c == '\u{205f}'
    ||| c == '\u{3000}'
}

/// Calls `char::is_whitespace`, which tells whether a character has the
/// property `White_Space`. The contract says which characters those are;
/// it is believed, not proved.
#[verifier::external_body]
fn is_whitespace(c: char) -> (r: bool)
    ensures
        r == white_space(c),
{
    c.is_whitespace()
}

/// The first position from `from` on that holds no whitespace, or the length
/// where there is none.
pub open spec fn skip_white(s: Seq<char>, from: int) -> int
    decreases s.len() - from,
{
    if 0 <= from < s.len() && white_space(s[from]) {
        skip_white(s, from + 1)
    } else {
        from
    }
}

/// The end of the text before `to` once the whitespace at its end is taken
/// off, not below `floor`.
pub open spec fn drop_white(s: Seq<char>, floor: int, to: int) -> int
    decreases to,
{
    if 0 <= floor < to <= s.len() && white_space(s[to - 1]) {
        drop_white(s, floor, to - 1)
    } else {
        to
    }
}

/// The text without the whitespace at its start and at its end.
pub open spec fn trimmed(s: Seq<char>) -> Seq<char> {
    let start = skip_white(s, 0);
    s.subrange(start, drop_white(s, start, s.len() as int))
}

proof fn lemma_skip_white(s: Seq<char>, from: int, start: int)
    requires
        0 <= from <= start <= s.len(),
        forall|j: int| from <= j < start ==> white_space(s[j]),
        start < s.len() ==> !white_space(s[start]),
    ensures
        skip_white(s, from) == start,
    decreases start - from,
{
    if from < start {
        lemma_skip_white(s, from + 1, start);
    }
}

proof fn lemma_drop_white(s: Seq<char>, floor: int, end: int, to: int)
    requires
        0 <= floor <= end <= to <= s.len(),
        forall|j: int| end <= j < to ==> white_space(s[j]),
        floor < end ==> !white_space(s[end - 1]),
    ensures
        drop_white(s, floor, to) == end,
    decreases to - end,
{
    if end < to {
        lemma_drop_white(s, floor, end, to - 1);
    }
}

/// What a trimmed text is: a stretch of the text, with nothing but
/// whitespace before it and behind it, that neither begins nor ends with
/// whitespace.
pub proof fn law_trimmed(s: Seq<char>)
    ensures
        ({
            let start = skip_white(s, 0);
            let end = drop_white(s, start, s.len() as int);
            &&& 0 <= start <= end <= s.len()
            &&& trimmed(s) == s.subrange(start, end)
            &&& forall|j: int| 0 <= j < start ==> white_space(#[trigger] s[j])
            &&& forall|j: int| end <= j < s.len() ==> white_space(#[trigger] s[j])
            &&& start < end ==> !white_space(s[start]) && !white_space(s[end - 1])
        }),
{
    lemma_skip_white_is(s, 0);
    lemma_drop_white_is(s, skip_white(s, 0), s.len() as int);
}

proof fn lemma_skip_white_is(s: Seq<char>, from: int)
    requires
        0 <= from <= s.len(),
    ensures
        from <= skip_white(s, from) <= s.len(),
        forall|j: int| from <= j < skip_white(s, from) ==> white_space(#[trigger] s[j]),
        skip_white(s, from) < s.len() ==> !white_space(s[skip_white(s, from)]),
    decreases s.len() - from,
{
    if from < s.len() && white_space(s[from]) {
        lemma_skip_white_is(s, from + 1);
    }
}

proof fn lemma_drop_white_is(s: Seq<char>, floor: int, to: int)
    requires
        0 <= floor <= to <= s.len(),
    ensures
        floor <= drop_white(s, floor, to) <= to,
        forall|j: int| drop_white(s, floor, to) <= j < to ==> white_space(#[trigger] s[j]),
        floor < drop_white(s, floor, to) ==> !white_space(s[drop_white(s, floor, to) - 1]),
    decreases to,
{
    if floor < to && white_space(s[to - 1]) {
        lemma_drop_white_is(s, floor, to - 1);
    }
}

/// A copy of the text without the whitespace at its start and at its end.
pub fn trim(s: &str) -> (r: String)
    ensures
        r@ == trimmed(s@),
{
    let n = s.unicode_len();
    let mut start: usize = 0;
    let mut end: usize = 0;
    let mut at: usize = 0;
    for c in it: s.chars()
        invariant
            n == s@.len(),
            it.seq() == s@,
            at == it.index(),
            start <= end <= at,
            forall|j: int| 0 <= j < start ==> white_space(s@[j]),
            start == end ==> start == at,
            start < end ==> !white_space(s@[start as int]) && !white_space(s@[end - 1]),
            forall|j: int| end <= j < at ==> white_space(s@[j]),
    {
        if is_whitespace(c) {
            if start == end {
                start = at + 1;
                end = at + 1;
            }
        } else {
            end = at + 1;
        }
        at += 1;
    }
    proof {
        lemma_skip_white(s@, 0, start as int);
        lemma_drop_white(s@, start as int, end as int, n as int);
    }
    s.substring_char(start, end).to_owned()
}

} // verus!
