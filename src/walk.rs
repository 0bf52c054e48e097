//! Pieces shared by the two recognizers: the identifier heuristic, the
//! state of a walk, and the ordered accumulation of prompts.
use vstd::prelude::*;
use vstd::utf8::encode_utf8;
use crate::text::{chars_of, lower_of, lowercase, slice_ok};
use crate::types::{Prompt, PromptView, prompts_view};

verus! {

/// The word `prompt`.
pub open spec fn prompt_word() -> Seq<char> {
    seq!['p', 'r', 'o', 'm', 'p', 't']
}

/// The word `prompt` occurs in `s` at index `i`.
pub open spec fn word_at(s: Seq<char>, i: int) -> bool {
    0 <= i && i + 6 <= s.len() && s.subrange(i, i + 6) == prompt_word()
}

/// `s` contains the word `prompt`.
pub open spec fn has_prompt_word(s: Seq<char>) -> bool {
    exists|i: int| word_at(s, i)
}

/// An identifier that names a prompt: its lower-cased form contains
/// `prompt`.
pub open spec fn names_prompt(name: Seq<char>) -> bool {
    has_prompt_word(lower_of(name))
}

/// Whether already lower-cased text contains the word `prompt`.
pub fn contains_prompt_word(folded: &str) -> (r: bool)
    ensures
        r == has_prompt_word(folded@),
{
    let s = chars_of(folded);
    let n = s.len();
    if n < 6 {
        assert(!has_prompt_word(folded@));
        return false;
    }
    let mut i: usize = 0;
    while i <= n - 6
        invariant
            n == s@.len(),
            s@ == folded@,
            6 <= n,
            forall|k: int| 0 <= k < i ==> !word_at(s@, k),
        decreases n - i,
    {
        if s[i] == 'p' && s[i + 1] == 'r' && s[i + 2] == 'o' && s[i + 3] == 'm' && s[i + 4] == 'p'
            && s[i + 5] == 't' {
            assert(s@.subrange(i as int, i + 6) =~= prompt_word());
            assert(word_at(s@, i as int));
            return true;
        }
        proof {
            if word_at(s@, i as int) {
                assert(s@.subrange(i as int, i + 6)[0] == 'p');
                assert(s@.subrange(i as int, i + 6)[1] == 'r');
                assert(s@.subrange(i as int, i + 6)[2] == 'o');
                assert(s@.subrange(i as int, i + 6)[3] == 'm');
                assert(s@.subrange(i as int, i + 6)[4] == 'p');
                assert(s@.subrange(i as int, i + 6)[5] == 't');
            }
        }
        i += 1;
    }
    assert(forall|k: int| word_at(s@, k) ==> 0 <= k < i);
    false
}

/// Whether an identifier names a prompt, ignoring case.
pub fn mentions_prompt(name: &str) -> (r: bool)
    ensures
        r == names_prompt(name@),
{
    let folded = lowercase(name);
    contains_prompt_word(folded.as_str())
}

/// The state of a walk over a syntax tree: the cursor's position among the
/// comments, the open scopes with their prompt-bound names, and the prompts
/// found so far.
pub struct WalkState {
    pub next: int,
    pub scopes: Seq<Set<Seq<char>>>,
    pub found: Seq<PromptView>,
}

/// The state of a walk's state from the values a walker holds.
pub open spec fn held(next: int, scopes: Seq<Set<Seq<char>>>, found: Seq<Prompt>) -> WalkState {
    WalkState { next, scopes, found: prompts_view(found) }
}

/// The state before the first node: no comment passed, the empty root scope
/// alone, no prompt.
pub open spec fn initial_state() -> WalkState {
    WalkState { next: 0, scopes: seq![Set::empty()], found: Seq::empty() }
}

/// Adds `name` to the innermost scope.
pub open spec fn mark_top(scopes: Seq<Set<Seq<char>>>, name: Seq<char>) -> Seq<Set<Seq<char>>> {
    scopes.update(scopes.len() - 1, scopes.last().insert(name))
}

/// Closes the innermost scope, unless it is the root scope.
pub open spec fn pop_top(scopes: Seq<Set<Seq<char>>>) -> Seq<Set<Seq<char>>> {
    if scopes.len() > 1 {
        scopes.drop_last()
    } else {
        scopes
    }
}

/// Where `p` goes in `s`: after every prompt that starts no later than it,
/// scanning from the end.
pub open spec fn insert_index(s: Seq<PromptView>, p: PromptView) -> int
    decreases s.len(),
{
    if s.len() == 0 || s.last().span.outer.start <= p.span.outer.start {
        s.len() as int
    } else {
        insert_index(s.drop_last(), p)
    }
}

/// `s` with `p` inserted in order of start. When a prompt of `s` already
/// starts where `p` does, `s` is left as it is: one literal makes at most
/// one prompt.
pub open spec fn insert_ordered(s: Seq<PromptView>, p: PromptView) -> Seq<PromptView> {
    let k = insert_index(s, p);
    if 0 < k <= s.len() && s[k - 1].span.outer.start == p.span.outer.start {
        s
    } else {
        s.insert(k, p)
    }
}

/// The prompts are strictly increasing by the start of their outer spans.
pub open spec fn strictly_ordered(s: Seq<PromptView>) -> bool {
    forall|i: int, j: int| 0 <= i < j < s.len() ==> s[i].span.outer.start < s[j].span.outer.start
}

/// The prompt and each of its interpolations lie in `src` on character
/// boundaries, and their text is the source text at their outer spans.
pub open spec fn faithful(src: Seq<u8>, p: PromptView) -> bool {
    &&& slice_ok(src, p.span.outer)
    &&& encode_utf8(p.exp) == src.subrange(p.span.outer.start as int, p.span.outer.end as int)
    &&& forall|j: int|
        0 <= j < p.vars.len() ==> slice_ok(src, #[trigger] p.vars[j].span.outer) && encode_utf8(
            p.vars[j].exp,
        ) == src.subrange(p.vars[j].span.outer.start as int, p.vars[j].span.outer.end as int)
}

/// Every prompt of `s` is faithful to `src`.
pub open spec fn all_faithful(src: Seq<u8>, s: Seq<PromptView>) -> bool {
    forall|i: int| 0 <= i < s.len() ==> faithful(src, #[trigger] s[i])
}

/// Every prompt of `s` names `file` as its source file.
pub open spec fn all_from(file: Seq<char>, s: Seq<PromptView>) -> bool {
    forall|i: int| 0 <= i < s.len() ==> (#[trigger] s[i]).file == file
}

proof fn lemma_insert_index(s: Seq<PromptView>, p: PromptView)
    ensures
        0 <= insert_index(s, p) <= s.len(),
        forall|j: int|
            insert_index(s, p) <= j < s.len() ==> s[j].span.outer.start > p.span.outer.start,
        insert_index(s, p) > 0 ==> s[insert_index(s, p) - 1].span.outer.start
            <= p.span.outer.start,
    decreases s.len(),
{
    if s.len() > 0 && s.last().span.outer.start > p.span.outer.start {
        let t = s.drop_last();
        lemma_insert_index(t, p);
        assert forall|j: int|
            insert_index(s, p) <= j < s.len() implies s[j].span.outer.start
            > p.span.outer.start by {
            if j < t.len() {
                assert(s[j] == t[j]);
            }
        }
    }
}

/// Inserting in order keeps a strictly increasing sequence strictly
/// increasing, and adds `p` or nothing.
pub proof fn lemma_insert_ordered(s: Seq<PromptView>, p: PromptView)
    ensures
        strictly_ordered(s) ==> strictly_ordered(insert_ordered(s, p)),
        forall|src: Seq<u8>|
            all_faithful(src, s) && faithful(src, p) ==> #[trigger] all_faithful(
                src,
                insert_ordered(s, p),
            ),
        forall|file: Seq<char>|
            all_from(file, s) && p.file == file ==> #[trigger] all_from(
                file,
                insert_ordered(s, p),
            ),
{
    lemma_insert_index(s, p);
    let k = insert_index(s, p);
    let r = insert_ordered(s, p);
    if 0 < k && s[k - 1].span.outer.start == p.span.outer.start {
        assert(r == s);
    } else {
        assert(r == s.insert(k, p));
        assert forall|i: int| 0 <= i < r.len() implies (i < k ==> r[i] == s[i]) && (i == k ==> r[i]
            == p) && (i > k ==> r[i] == s[i - 1]) by {}
        if strictly_ordered(s) {
            assert forall|i: int, j: int| 0 <= i < j < r.len() implies r[i].span.outer.start
                < r[j].span.outer.start by {
                if j == k {
                    assert(s[k - 1].span.outer.start < p.span.outer.start);
                    if i < k - 1 {
                        assert(s[i].span.outer.start < s[k - 1].span.outer.start);
                    }
                } else if i == k {
                    assert(s[j - 1].span.outer.start > p.span.outer.start);
                }
            }
        }
        assert forall|src: Seq<u8>|
            all_faithful(src, s) && faithful(src, p) implies #[trigger] all_faithful(src, r) by {
            assert forall|i: int| 0 <= i < r.len() implies faithful(src, #[trigger] r[i]) by {
                if i < k {
                    assert(faithful(src, s[i]));
                } else if i > k {
                    assert(faithful(src, s[i - 1]));
                }
            }
        }
        assert forall|file: Seq<char>|
            all_from(file, s) && p.file == file implies #[trigger] all_from(file, r) by {
            assert forall|i: int| 0 <= i < r.len() implies (#[trigger] r[i]).file == file by {
                if i < k {
                    assert(s[i].file == file);
                } else if i > k {
                    assert(s[i - 1].file == file);
                }
            }
        }
    }
}

/// Adds `p` to `found` in order of start, unless a prompt already starts
/// where `p` does.
pub fn add_ordered(found: &mut Vec<Prompt>, p: Prompt)
    ensures
        prompts_view(final(found)@) == insert_ordered(prompts_view(old(found)@), p@),
{
    let ghost s = prompts_view(found@);
    let start = p.span.outer.start;
    let mut k = found.len();
    assert(s.subrange(0, k as int) =~= s);
    while k > 0 && found[k - 1].span.outer.start > start
        invariant
            k <= found@.len(),
            s == prompts_view(found@),
            start == p@.span.outer.start,
            insert_index(s, p@) == insert_index(s.subrange(0, k as int), p@),
        decreases k,
    {
        assert(s.subrange(0, k as int).drop_last() =~= s.subrange(0, k - 1));
        k -= 1;
    }
    assert(insert_index(s.subrange(0, k as int), p@) == k);
    if k > 0 && found[k - 1].span.outer.start == start {
        return ;
    }
    found.insert(k, p);
    assert(prompts_view(found@) =~= s.insert(k as int, p@));
}

} // verus!
