//! The stack of lexical scopes, each with the names known to hold prompts.
use vstd::prelude::*;

verus! {

/// The name is in one of the frames.
pub open spec fn marked_in(frames: Seq<Set<Seq<char>>>, name: Seq<char>) -> bool {
    exists|i: int| 0 <= i < frames.len() && #[trigger] frames[i].contains(name)
}

/// The names of a frame, as a set.
pub open spec fn frame_view(f: Vec<String>) -> Set<Seq<char>> {
    f@.map_values(|s: String| s@).to_set()
}

/// A stack of scope frames; the bottom one is the file's root scope.
pub struct ScopeTracker {
    frames: Vec<Vec<String>>,
}

impl View for ScopeTracker {
    type V = Seq<Set<Seq<char>>>;

    closed spec fn view(&self) -> Seq<Set<Seq<char>>> {
        self.frames@.map_values(|f: Vec<String>| frame_view(f))
    }
}

impl ScopeTracker {
    /// A stack that holds the empty root scope alone.
    pub fn new() -> (r: Self)
        ensures
            r@ == seq![Set::<Seq<char>>::empty()],
    {
        let mut frames: Vec<Vec<String>> = Vec::new();
        frames.push(Vec::new());
        let r = ScopeTracker { frames };
        assert(frame_view(r.frames@[0]) =~= Set::empty());
        assert(r@ =~= seq![Set::<Seq<char>>::empty()]);
        r
    }

    /// Opens a nested scope.
    pub fn push_scope(&mut self)
        ensures
            final(self)@ == old(self)@.push(Set::empty()),
    {
        let ghost before = self@;
        let empty: Vec<String> = Vec::new();
        assert(frame_view(empty) =~= Set::empty());
        self.frames.push(empty);
        assert(self@ =~= before.push(Set::empty()));
    }

    /// Closes the innermost scope; the root scope is never closed.
    pub fn pop_scope(&mut self)
        ensures
            old(self)@.len() > 1 ==> final(self)@ == old(self)@.drop_last(),
            old(self)@.len() <= 1 ==> final(self)@ == old(self)@,
    {
        let ghost before = self@;
        if self.frames.len() > 1 {
            self.frames.pop();
            assert(self@ =~= before.drop_last());
        }
    }

    /// Adds `name` to the innermost scope.
    pub fn mark(&mut self, name: &String)
        requires
            old(self)@.len() >= 1,
        ensures
            final(self)@ == old(self)@.update(
                old(self)@.len() - 1,
                old(self)@.last().insert(name@),
            ),
    {
        let ghost before = self@;
        let ghost frames0 = self.frames@;
        let mut top = self.frames.pop().unwrap();
        let ghost old_top = top;
        assert(old_top == frames0.last());
        top.push(name.clone());
        proof {
            assert(top@.map_values(|s: String| s@) =~= old_top@.map_values(|s: String| s@) + seq![
                name@,
            ]);
            Seq::lemma_to_set_insert_commutes(old_top@.map_values(|s: String| s@), name@);
            assert(frame_view(top) == frame_view(old_top).insert(name@));
        }
        self.frames.push(top);
        assert(self.frames@ =~= frames0.update(frames0.len() - 1, top));
        assert(self@ =~= before.update(before.len() - 1, before.last().insert(name@)));
    }

    /// Whether `name` is in any open scope, innermost first.
    pub fn is_marked(&self, name: &String) -> (r: bool)
        ensures
            r == marked_in(self@, name@),
    {
        let mut i = self.frames.len();
        while i > 0
            invariant
                i <= self.frames@.len(),
                forall|k: int| i <= k < self.frames@.len() ==> !self@[k].contains(name@),
            decreases i,
        {
            i -= 1;
            let frame = &self.frames[i];
            let mut j: usize = 0;
            while j < frame.len()
                invariant
                    i < self.frames@.len(),
                    j <= frame@.len(),
                    frame == self.frames@[i as int],
                    forall|k: int| 0 <= k < j ==> frame@[k]@ != name@,
                decreases frame@.len() - j,
            {
                if frame[j] == *name {
                    let ghost names = frame@.map_values(|s: String| s@);
                    assert(names[j as int] == name@);
                    assert(names.contains(name@));
                    assert(self@[i as int] == names.to_set());
                    assert(self@[i as int].contains(name@));
                    return true;
                }
                j += 1;
            }
            proof {
                let names = frame@.map_values(|s: String| s@);
                assert(self@[i as int] == names.to_set());
                assert(!names.contains(name@)) by {
                    if names.contains(name@) {
                        let k = choose|k: int| 0 <= k < names.len() && names[k] == name@;
                        assert(frame@[k]@ == name@);
                    }
                }
            }
        }
        false
    }
}

} // verus!
