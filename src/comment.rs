//! Classification of comment text as a prompt annotation.
use vstd::prelude::*;
use crate::text::{alnum_of, chars_of, is_alphanumeric, lower_of, lowercase};

verus! {

/// Number of characters in the annotation marker `@prompt`.
pub const MARKER_LEN: usize = 7;

/// The annotation marker, `@prompt`.
pub open spec fn marker() -> Seq<char> {
    seq!['@', 'p', 'r', 'o', 'm', 'p', 't']
}

/// The marker occurs in `s` starting at index `i`.
pub open spec fn marker_at(s: Seq<char>, i: int) -> bool {
    0 <= i && i + 7 <= s.len() && s.subrange(i, i + 7) == marker()
}

/// The first index at or after `i` where the marker occurs, if any.
pub open spec fn first_marker_from(s: Seq<char>, i: int) -> Option<int>
    decreases s.len() - i,
{
    if i < 0 || i + 7 > s.len() {
        None
    } else if marker_at(s, i) {
        Some(i)
    } else {
        first_marker_from(s, i + 1)
    }
}

/// The character at index `i`, if there is one, does not continue a word:
/// it is neither alphanumeric nor an underscore.
pub open spec fn word_boundary(s: Seq<char>, i: int) -> bool {
    0 <= i < s.len() ==> !(alnum_of(s[i]) || s[i] == '_')
}

/// Verdict on already case-folded comment text: `None` without a marker,
/// otherwise whether the first marker stands alone between word boundaries.
pub open spec fn folded_verdict(s: Seq<char>) -> Option<bool> {
    match first_marker_from(s, 0) {
        None => None,
        Some(i) => Some(word_boundary(s, i - 1) && word_boundary(s, i + 7)),
    }
}

/// Verdict on raw comment text: the verdict on its lower-cased form.
pub open spec fn comment_verdict(s: Seq<char>) -> Option<bool> {
    folded_verdict(lower_of(s))
}

proof fn lemma_no_marker_before(s: Seq<char>, i: int, j: int)
    requires
        0 <= j <= i,
        forall|k: int| j <= k < i ==> !marker_at(s, k),
    ensures
        first_marker_from(s, j) == first_marker_from(s, i),
    decreases i - j,
{
    if j < i {
        lemma_no_marker_before(s, i, j + 1);
    }
}

fn marker_at_exec(s: &Vec<char>, i: usize) -> (r: bool)
    requires
        i + 7 <= s@.len() <= usize::MAX,
    ensures
        r == marker_at(s@, i as int),
{
    let r = s[i] == '@' && s[i + 1] == 'p' && s[i + 2] == 'r' && s[i + 3] == 'o' && s[i + 4]
        == 'm' && s[i + 5] == 'p' && s[i + 6] == 't';
    assert(r ==> s@.subrange(i as int, i + 7) =~= marker());
    assert(s@.subrange(i as int, i + 7) == marker() ==> {
        &&& s@.subrange(i as int, i + 7)[0] == '@'
        &&& s@.subrange(i as int, i + 7)[1] == 'p'
        &&& s@.subrange(i as int, i + 7)[2] == 'r'
        &&& s@.subrange(i as int, i + 7)[3] == 'o'
        &&& s@.subrange(i as int, i + 7)[4] == 'm'
        &&& s@.subrange(i as int, i + 7)[5] == 'p'
        &&& s@.subrange(i as int, i + 7)[6] == 't'
    });
    r
}

/// Whether the character at index `i` (when `0 <= i < len`) continues a word.
fn boundary_exec(s: &Vec<char>, i: usize) -> (r: bool)
    ensures
        r == word_boundary(s@, i as int),
{
    if i < s.len() {
        let c = s[i];
        !(is_alphanumeric(c) || c == '_')
    } else {
        true
    }
}

/// Classifies comment text that is already lower-cased: `None` when it holds
/// no `@prompt` marker, `Some(true)` when its first marker is delimited on
/// both sides (by the text's ends or by a character that is neither
/// alphanumeric nor `_`), `Some(false)` otherwise.
pub fn parse_folded_comment(folded: &str) -> (r: Option<bool>)
    ensures
        r == folded_verdict(folded@),
{
    let s = chars_of(folded);
    let n = s.len();
    if n < MARKER_LEN {
        return None;
    }
    let mut i: usize = 0;
    while i <= n - MARKER_LEN
        invariant
            n == s@.len(),
            s@ == folded@,
            MARKER_LEN <= n,
            i + MARKER_LEN <= n + 1,
            forall|k: int| 0 <= k < i ==> !marker_at(s@, k),
        decreases n - i,
    {
        if marker_at_exec(&s, i) {
            proof {
                lemma_no_marker_before(s@, i as int, 0);
            }
            let before = if i == 0 {
                true
            } else {
                boundary_exec(&s, i - 1)
            };
            let after = boundary_exec(&s, i + MARKER_LEN);
            return Some(before && after);
        }
        i += 1;
    }
    proof {
        lemma_no_marker_before(s@, i as int, 0);
    }
    None
}

/// Classifies comment text as a prompt annotation: the text is lower-cased,
/// then classified as [`parse_folded_comment`] does.
pub fn parse_comment(comment: &str) -> (r: Option<bool>)
    ensures
        r == comment_verdict(comment@),
{
    let folded = lowercase(comment);
    parse_folded_comment(folded.as_str())
}

} // verus!
