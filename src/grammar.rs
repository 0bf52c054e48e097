//! Choosing the grammar of a source file from its name.
use vstd::prelude::*;
use crate::text::chars_of;

verus! {

/// The grammar families that recognition supports.
#[derive(Clone, Copy, Debug, PartialEq, Eq)]
pub enum Grammar {
    /// JavaScript, TypeScript and their JSX dialects.
    Ecma,
    /// Python sources and stubs.
    Python,
}

/// `c` is the lower-case ASCII letter or other character `lower`, up to
/// ASCII case.
pub open spec fn ascii_fold_eq(c: char, lower: char) -> bool {
    c == lower || ('a' <= lower <= 'z' && c as u32 + 32 == lower as u32)
}

/// `s` ends with `suffix` (given in lower case), up to ASCII case.
pub open spec fn ends_with_fold(s: Seq<char>, suffix: Seq<char>) -> bool {
    suffix.len() <= s.len() && forall|i: int|
        0 <= i < suffix.len() ==> ascii_fold_eq(
            #[trigger] s[s.len() - suffix.len() + i],
            suffix[i],
        )
}

/// The grammar of a file: Python for names ending in `.py` or `.pyi` in any
/// ASCII case, the ECMAScript family for all others.
pub open spec fn grammar_spec(filename: Seq<char>) -> Grammar {
    if ends_with_fold(filename, seq!['.', 'p', 'y']) || ends_with_fold(
        filename,
        seq!['.', 'p', 'y', 'i'],
    ) {
        Grammar::Python
    } else {
        Grammar::Ecma
    }
}

fn fold_eq(c: char, lower: char) -> (r: bool)
    ensures
        r == ascii_fold_eq(c, lower),
{
    c == lower || ('a' <= lower && lower <= 'z' && (c as u32) + 32 == lower as u32)
}

fn ends_with_exec(s: &Vec<char>, suffix: &Vec<char>) -> (r: bool)
    ensures
        r == ends_with_fold(s@, suffix@),
{
    if suffix.len() > s.len() {
        return false;
    }
    let base = s.len() - suffix.len();
    let mut i: usize = 0;
    while i < suffix.len()
        invariant
            base == s@.len() - suffix@.len(),
            suffix@.len() <= s@.len() <= usize::MAX,
            i <= suffix@.len(),
            forall|k: int| 0 <= k < i ==> ascii_fold_eq(#[trigger] s@[base + k], suffix@[k]),
        decreases suffix@.len() - i,
    {
        if !fold_eq(s[base + i], suffix[i]) {
            return false;
        }
        i += 1;
    }
    true
}

/// The grammar in which to read the file named `filename`.
pub fn grammar_of(filename: &str) -> (r: Grammar)
    ensures
        r == grammar_spec(filename@),
{
    let s = chars_of(filename);
    let py = vec!['.', 'p', 'y'];
    let pyi = vec!['.', 'p', 'y', 'i'];
    assert(py@ =~= seq!['.', 'p', 'y']);
    assert(pyi@ =~= seq!['.', 'p', 'y', 'i']);
    if ends_with_exec(&s, &py) || ends_with_exec(&s, &pyi) {
        Grammar::Python
    } else {
        Grammar::Ecma
    }
}

} // verus!
