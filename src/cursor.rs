//! Association cursors: forward-only pointers over a file's comments that
//! tell, node by node in document order, whether a prompt annotation precedes
//! the node.
use vstd::prelude::*;
use crate::comment::{comment_verdict, parse_comment};

verus! {

/// A comment of a source file: where it starts, and its text.
pub struct SourceComment {
    pub start: u32,
    pub text: String,
}

/// Latest-verdict scan from comment `i` up to position `pos`: each comment
/// that starts before `pos` is passed; a valid annotation arms the flag, a
/// disqualified one disarms it, any other leaves it. Returns the index of the
/// first comment not passed and the flag.
pub open spec fn latest_scan(cs: Seq<SourceComment>, i: int, pos: u32, armed: bool) -> (int, bool)
    decreases cs.len() - i,
{
    if 0 <= i < cs.len() && cs[i].start < pos {
        let next = match comment_verdict(cs[i].text@) {
            Some(v) => v,
            None => armed,
        };
        latest_scan(cs, i + 1, pos, next)
    } else {
        (i, armed)
    }
}

/// A latest-verdict scan only moves forward, and stays within the comments.
pub proof fn lemma_latest_scan_forward(cs: Seq<SourceComment>, i: int, pos: u32, armed: bool)
    requires
        0 <= i <= cs.len(),
    ensures
        i <= latest_scan(cs, i, pos, armed).0 <= cs.len(),
    decreases cs.len() - i,
{
    if i < cs.len() && cs[i].start < pos {
        let next = match comment_verdict(cs[i].text@) {
            Some(v) => v,
            None => armed,
        };
        lemma_latest_scan_forward(cs, i + 1, pos, next);
    }
}

/// Querying the same position twice: the second query passes no comment and
/// reports no annotation.
pub proof fn lemma_latest_requery(cs: Seq<SourceComment>, i: int, pos: u32, armed: bool)
    requires
        0 <= i <= cs.len(),
    ensures
        latest_scan(cs, latest_scan(cs, i, pos, armed).0, pos, false) == (
            latest_scan(cs, i, pos, armed).0,
            false,
        ),
    decreases cs.len() - i,
{
    if i < cs.len() && cs[i].start < pos {
        let next = match comment_verdict(cs[i].text@) {
            Some(v) => v,
            None => armed,
        };
        lemma_latest_requery(cs, i + 1, pos, next);
    }
}

/// Cursor with the latest-verdict policy, for expression-oriented grammars:
/// every visited node consumes the comments before it, and the last verdict
/// among them decides.
pub struct LatestCursor {
    comments: Vec<SourceComment>,
    next: usize,
}

impl LatestCursor {
    /// The comments, in the order they were given.
    pub closed spec fn comments(&self) -> Seq<SourceComment> {
        self.comments@
    }

    /// Index of the first comment not yet passed.
    pub closed spec fn next(&self) -> int {
        self.next as int
    }

    /// A cursor before the first of `comments`.
    pub fn new(comments: Vec<SourceComment>) -> (r: Self)
        ensures
            r.comments() == comments@,
            r.next() == 0,
    {
        LatestCursor { comments, next: 0 }
    }

    /// Passes the comments that start before `pos` and reports whether the
    /// last classified one among them is a valid annotation.
    pub fn advance_to(&mut self, pos: u32) -> (armed: bool)
        requires
            0 <= old(self).next() <= old(self).comments().len(),
        ensures
            final(self).comments() == old(self).comments(),
            (final(self).next(), armed) == latest_scan(old(self).comments(), old(self).next(), pos, false),
            old(self).next() <= final(self).next() <= final(self).comments().len(),
    {
        let mut armed = false;
        while self.next < self.comments.len() && self.comments[self.next].start < pos
            invariant
                self.comments@ == old(self).comments@,
                self.next <= self.comments@.len(),
                latest_scan(self.comments@, self.next as int, pos, armed) == latest_scan(
                    old(self).comments@,
                    old(self).next as int,
                    pos,
                    false,
                ),
            decreases self.comments@.len() - self.next,
        {
            match parse_comment(self.comments[self.next].text.as_str()) {
                Some(v) => {
                    armed = v;
                },
                None => {},
            }
            self.next = self.next + 1;
        }
        proof {
            lemma_latest_scan_forward(old(self).comments@, old(self).next as int, pos, false);
        }
        armed
    }
}

/// The starts of the comments that are valid annotations, in order.
pub open spec fn annotation_starts(cs: Seq<SourceComment>) -> Seq<u32>
    decreases cs.len(),
{
    if cs.len() == 0 {
        Seq::empty()
    } else {
        let rest = annotation_starts(cs.drop_last());
        if comment_verdict(cs.last().text@) == Some(true) {
            rest.push(cs.last().start)
        } else {
            rest
        }
    }
}

/// The index of the first annotation at or after `i` that does not start
/// before `pos`.
pub open spec fn presence_skip(starts: Seq<u32>, i: int, pos: u32) -> int
    decreases starts.len() - i,
{
    if 0 <= i < starts.len() && starts[i] < pos {
        presence_skip(starts, i + 1, pos)
    } else {
        i
    }
}

/// A presence scan only moves forward, stays within the annotations, and a
/// second scan to the same position passes nothing.
pub proof fn lemma_presence_skip_forward(starts: Seq<u32>, i: int, pos: u32)
    requires
        0 <= i <= starts.len(),
    ensures
        i <= presence_skip(starts, i, pos) <= starts.len(),
        presence_skip(starts, presence_skip(starts, i, pos), pos) == presence_skip(starts, i, pos),
    decreases starts.len() - i,
{
    if i < starts.len() && starts[i] < pos {
        lemma_presence_skip_forward(starts, i + 1, pos);
    }
}

/// Cursor with the presence policy, for statement-oriented grammars: only
/// valid annotations are kept, and a statement is annotated when at least one
/// of them lies between the previous query and the statement's start.
pub struct PresenceCursor {
    starts: Vec<u32>,
    next: usize,
}

impl PresenceCursor {
    /// The starts of the annotations kept.
    pub closed spec fn starts(&self) -> Seq<u32> {
        self.starts@
    }

    /// Index of the first annotation not yet passed.
    pub closed spec fn next(&self) -> int {
        self.next as int
    }

    /// A cursor before the first valid annotation among `comments`.
    pub fn new(comments: &Vec<SourceComment>) -> (r: Self)
        ensures
            r.starts() == annotation_starts(comments@),
            r.next() == 0,
    {
        let mut starts: Vec<u32> = Vec::new();
        let mut i: usize = 0;
        while i < comments.len()
            invariant
                i <= comments@.len(),
                starts@ == annotation_starts(comments@.subrange(0, i as int)),
            decreases comments@.len() - i,
        {
            proof {
                assert(comments@.subrange(0, i + 1).drop_last() =~= comments@.subrange(0, i as int));
            }
            if parse_comment(comments[i].text.as_str()) == Some(true) {
                starts.push(comments[i].start);
            }
            i += 1;
        }
        assert(comments@.subrange(0, i as int) =~= comments@);
        PresenceCursor { starts, next: 0 }
    }

    /// Passes the annotations that start before `pos` and reports whether
    /// there was at least one.
    pub fn advance_to(&mut self, pos: u32) -> (annotated: bool)
        requires
            0 <= old(self).next() <= old(self).starts().len(),
        ensures
            final(self).starts() == old(self).starts(),
            final(self).next() == presence_skip(old(self).starts(), old(self).next(), pos),
            annotated == (final(self).next() > old(self).next()),
            old(self).next() <= final(self).next() <= final(self).starts().len(),
    {
        let first = self.next;
        while self.next < self.starts.len() && self.starts[self.next] < pos
            invariant
                self.starts@ == old(self).starts@,
                first == old(self).next,
                first <= self.next <= self.starts@.len(),
                presence_skip(self.starts@, self.next as int, pos) == presence_skip(
                    old(self).starts@,
                    old(self).next as int,
                    pos,
                ),
            decreases self.starts@.len() - self.next,
        {
            self.next = self.next + 1;
        }
        self.next > first
    }
}

} // verus!
