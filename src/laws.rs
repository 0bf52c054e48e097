//! Properties of recognition that relate several nodes of a walk, proved
//! over the walk semantics that the recognizers' contracts state.
use vstd::prelude::*;
use crate::cursor::{latest_scan, lemma_latest_scan_forward, presence_skip, SourceComment};
use crate::py::{
    bind_step, paired, py_step, py_walk, string_prompt, targets_step, unpack_step, value_items,
    PyEvent,
    PyLiteral, PyStmtKind, PyTarget, PyValue,
};
use crate::text::slice_ok;
use crate::scope::marked_in;
use crate::ts::{literal_prompt, ts_step, ts_walk, TsDeclarator, TsEvent, TsLiteral, TsNodeKind};
use crate::types::PromptView;
use crate::ts::{declarator_step, declarators_step, literal_step};
use crate::walk::{
    initial_state, insert_index, insert_ordered, mark_top, names_prompt, WalkState,
};

verus! {

/// A scan that starts at or before comment `i` and reaches a position after
/// every comment passes them all and ends disarmed once there is nothing
/// left to pass.
proof fn lemma_scan_passes_all(cs: Seq<SourceComment>, i: int, pos: u32, armed: bool)
    requires
        0 <= i <= cs.len(),
        forall|k: int| 0 <= k < cs.len() ==> cs[k].start < pos,
    ensures
        latest_scan(cs, i, pos, armed).0 == cs.len(),
    decreases cs.len() - i,
{
    if i < cs.len() {
        let next = match crate::comment::comment_verdict(cs[i].text@) {
            Some(v) => v,
            None => armed,
        };
        lemma_scan_passes_all(cs, i + 1, pos, next);
    }
}

/// The walk over the first `i + 1` events is one step after the walk over
/// the first `i`.
proof fn lemma_ts_walk_step(src: Seq<u8>, file: Seq<char>, cs: Seq<SourceComment>, evs: Seq<TsEvent>, i: int)
    requires
        0 <= i < evs.len(),
    ensures
        ts_walk(src, file, cs, evs.subrange(0, i + 1)) == ts_step(
            src,
            file,
            cs,
            ts_walk(src, file, cs, evs.subrange(0, i)),
            evs[i],
        ),
{
    assert(evs.subrange(0, i + 1).drop_last() =~= evs.subrange(0, i));
}

/// A declaration with one declarator is that declarator's step.
proof fn lemma_single_declarator(
    src: Seq<u8>,
    file: Seq<char>,
    cs: Seq<SourceComment>,
    armed: bool,
    st: WalkState,
    ds: Vec<TsDeclarator>,
)
    requires
        ds@.len() == 1,
    ensures
        declarators_step(src, file, cs, armed, st, ds@) == declarator_step(
            src,
            file,
            cs,
            armed,
            st,
            ds@[0],
        ),
{
    assert(ds@.drop_last() =~= Seq::<TsDeclarator>::empty());
    assert(declarators_step(src, file, cs, armed, st, ds@.drop_last()) == st);
    assert(ds@.last() == ds@[0]);
}

/// An annotated declaration marks the declared name in the innermost scope,
/// whatever its initializer: none, a literal, or another expression.
pub proof fn lemma_annotated_declarator_marks(
    src: Seq<u8>,
    file: Seq<char>,
    cs: Seq<SourceComment>,
    st: WalkState,
    d: TsDeclarator,
)
    requires
        st.scopes.len() >= 1,
    ensures
        declarator_step(src, file, cs, true, st, d).scopes.len() == st.scopes.len(),
        declarator_step(src, file, cs, true, st, d).scopes.last().contains(d.name@),
{
    let marked = mark_top(st.scopes, d.name@);
    assert(marked.last().contains(d.name@));
    match d.init {
        Some(lit) => {
            assert(mark_top(marked, d.name@).last().contains(d.name@));
        },
        None => {},
    }
}

/// Opening a nested scope keeps every marked name marked.
pub proof fn lemma_nested_scope_keeps_marks(scopes: Seq<Set<Seq<char>>>, name: Seq<char>)
    requires
        marked_in(scopes, name),
    ensures
        marked_in(scopes.push(Set::empty()), name),
{
    let i = choose|i: int| 0 <= i < scopes.len() && scopes[i].contains(name);
    assert(scopes.push(Set::empty())[i] == scopes[i]);
}

/// A literal bound to a name marked in an open scope is a prompt, whatever
/// comments precede it and whatever the name says.
pub proof fn lemma_marked_name_makes_prompt(
    src: Seq<u8>,
    file: Seq<char>,
    cs: Seq<SourceComment>,
    st: WalkState,
    name: Seq<char>,
    lit: TsLiteral,
)
    requires
        marked_in(st.scopes, name),
        slice_ok(src, lit.span),
    ensures
        literal_step(src, file, cs, st, name, lit).found == insert_ordered(
            st.found,
            literal_prompt(src, file, lit),
        ),
{
}

/// The same for a statement-oriented grammar: a literal assigned to a name
/// marked in an open scope is a prompt.
pub proof fn lemma_py_marked_name_makes_prompt(
    src: Seq<u8>,
    file: Seq<char>,
    annotated: bool,
    st: WalkState,
    name: Seq<char>,
    lit: PyLiteral,
)
    requires
        marked_in(st.scopes, name),
        st.scopes.len() >= 1,
        slice_ok(src, lit.span),
    ensures
        bind_step(src, file, annotated, st, name, Some(lit)).found == insert_ordered(
            st.found,
            string_prompt(src, file, lit),
        ),
{
    if annotated {
        let i = choose|i: int| 0 <= i < st.scopes.len() && st.scopes[i].contains(name);
        assert(mark_top(st.scopes, name)[i].contains(name));
    }
}

/// Annotation propagation: when a declaration of a name without a literal
/// initializer is annotated, a literal assigned to that name afterwards is
/// a prompt, whatever comments precede the assignment.
pub proof fn lemma_annotation_reaches_assignment(
    src: Seq<u8>,
    file: Seq<char>,
    cs: Seq<SourceComment>,
    decl_start: u32,
    ds: Vec<TsDeclarator>,
    assign_start: u32,
    name: String,
    lit: TsLiteral,
)
    requires
        ds@.len() == 1,
        ds@[0].name@ == name@,
        ds@[0].init is None,
        latest_scan(cs, 0, decl_start, false).1,
        slice_ok(src, lit.span),
    ensures
        ts_walk(
            src,
            file,
            cs,
            seq![
                TsEvent::Enter(decl_start, TsNodeKind::Declaration(ds)),
                TsEvent::Enter(assign_start, TsNodeKind::Assignment(name, lit)),
            ],
        ).found == seq![literal_prompt(src, file, lit)],
{
    let evs = seq![
        TsEvent::Enter(decl_start, TsNodeKind::Declaration(ds)),
        TsEvent::Enter(assign_start, TsNodeKind::Assignment(name, lit)),
    ];
    lemma_ts_walk_step(src, file, cs, evs, 0);
    lemma_ts_walk_step(src, file, cs, evs, 1);
    assert(evs.subrange(0, 0) =~= Seq::<TsEvent>::empty());
    assert(evs.subrange(0, 2) =~= evs);
    assert(ds@.drop_last() =~= Seq::<TsDeclarator>::empty());
    let s0 = ts_walk(src, file, cs, evs.subrange(0, 0));
    assert(s0 == initial_state());
    let entered = WalkState {
        next: latest_scan(cs, 0, decl_start, false).0,
        scopes: s0.scopes,
        found: s0.found,
    };
    let s1 = ts_walk(src, file, cs, evs.subrange(0, 1));
    assert(s1 == declarators_step(src, file, cs, true, entered, ds@));
    assert(declarators_step(src, file, cs, true, entered, ds@.drop_last()) == entered);
    assert(s1 == declarator_step(src, file, cs, true, entered, ds@[0]));
    assert(s1.scopes == seq![Set::<Seq<char>>::empty()].update(0, Set::<Seq<char>>::empty().insert(name@)));
    assert(s1.scopes[0].contains(name@));
    assert(s1.found == Seq::<PromptView>::empty());
    let p = literal_prompt(src, file, lit);
    assert(insert_index(Seq::empty(), p) == 0);
    assert(insert_ordered(Seq::empty(), p) =~= seq![p]);
}

/// Comment consumption: a node visited between annotations and a
/// declaration consumes those annotations, so the declaration's literal is
/// no prompt unless its name says so.
pub proof fn lemma_annotation_consumed_by_first_node(
    src: Seq<u8>,
    file: Seq<char>,
    cs: Seq<SourceComment>,
    node_start: u32,
    decl_start: u32,
    ds: Vec<TsDeclarator>,
)
    requires
        forall|k: int| 0 <= k < cs.len() ==> cs[k].start < node_start,
        ds@.len() == 1,
        !names_prompt(ds@[0].name@),
    ensures
        ts_walk(
            src,
            file,
            cs,
            seq![
                TsEvent::Enter(node_start, TsNodeKind::Other),
                TsEvent::Enter(decl_start, TsNodeKind::Declaration(ds)),
            ],
        ).found.len() == 0,
{
    let evs = seq![
        TsEvent::Enter(node_start, TsNodeKind::Other),
        TsEvent::Enter(decl_start, TsNodeKind::Declaration(ds)),
    ];
    lemma_ts_walk_step(src, file, cs, evs, 0);
    lemma_ts_walk_step(src, file, cs, evs, 1);
    assert(evs.subrange(0, 0) =~= Seq::<TsEvent>::empty());
    assert(evs.subrange(0, 2) =~= evs);
    assert(ds@.drop_last() =~= Seq::<TsDeclarator>::empty());
    lemma_scan_passes_all(cs, 0, node_start, false);
    let s0 = ts_walk(src, file, cs, evs.subrange(0, 0));
    assert(s0 == initial_state());
    let s1 = ts_walk(src, file, cs, evs.subrange(0, 1));
    assert(s1.next == cs.len());
    assert(s1.scopes == seq![Set::<Seq<char>>::empty()]);
    assert(s1.found.len() == 0);
    assert(!marked_in(s1.scopes, ds@[0].name@));
    assert(latest_scan(cs, cs.len() as int, decl_start, false) == (cs.len() as int, false));
    lemma_single_declarator(src, file, cs, false, s1, ds);
    let s2 = ts_walk(src, file, cs, evs);
    assert(s2 == declarator_step(src, file, cs, false, s1, ds@[0]));
    match ds@[0].init {
        Some(lit) => {
            assert(latest_scan(cs, cs.len() as int, lit.span.start, false) == (
                cs.len() as int,
                false,
            ));
        },
        None => {},
    }
}

/// Scope isolation: a name declared inside one function does not carry to
/// a sibling function, whether or not its declaration was annotated; a
/// literal assigned to the same name there is no prompt unless the name
/// says so.
pub proof fn lemma_scope_isolation(
    src: Seq<u8>,
    file: Seq<char>,
    cs: Seq<SourceComment>,
    f1: u32,
    decl_start: u32,
    ds: Vec<TsDeclarator>,
    f2: u32,
    assign_start: u32,
    name: String,
    lit: TsLiteral,
)
    requires
        forall|k: int| 0 <= k < cs.len() ==> cs[k].start < decl_start,
        ds@.len() == 1,
        ds@[0].name@ == name@,
        ds@[0].init is None,
        !names_prompt(name@),
    ensures
        ts_walk(
            src,
            file,
            cs,
            seq![
                TsEvent::Enter(f1, TsNodeKind::Function),
                TsEvent::Enter(decl_start, TsNodeKind::Declaration(ds)),
                TsEvent::LeaveFunction,
                TsEvent::Enter(f2, TsNodeKind::Function),
                TsEvent::Enter(assign_start, TsNodeKind::Assignment(name, lit)),
                TsEvent::LeaveFunction,
            ],
        ).found.len() == 0,
{
    let evs = seq![
        TsEvent::Enter(f1, TsNodeKind::Function),
        TsEvent::Enter(decl_start, TsNodeKind::Declaration(ds)),
        TsEvent::LeaveFunction,
        TsEvent::Enter(f2, TsNodeKind::Function),
        TsEvent::Enter(assign_start, TsNodeKind::Assignment(name, lit)),
        TsEvent::LeaveFunction,
    ];
    lemma_ts_walk_step(src, file, cs, evs, 0);
    lemma_ts_walk_step(src, file, cs, evs, 1);
    lemma_ts_walk_step(src, file, cs, evs, 2);
    lemma_ts_walk_step(src, file, cs, evs, 3);
    lemma_ts_walk_step(src, file, cs, evs, 4);
    lemma_ts_walk_step(src, file, cs, evs, 5);
    assert(evs.subrange(0, 0) =~= Seq::<TsEvent>::empty());
    assert(evs.subrange(0, 6) =~= evs);
    assert(ds@.drop_last() =~= Seq::<TsDeclarator>::empty());
    let first = latest_scan(cs, 0, f1, false);
    lemma_latest_scan_forward(cs, 0, f1, false);
    lemma_scan_passes_all(cs, first.0, decl_start, false);
    let s0 = ts_walk(src, file, cs, evs.subrange(0, 0));
    assert(s0 == initial_state());
    let s1 = ts_walk(src, file, cs, evs.subrange(0, 1));
    assert(s1.scopes == seq![Set::<Seq<char>>::empty(), Set::<Seq<char>>::empty()]);
    assert(s1.found.len() == 0);
    assert(s1.next == first.0);
    let armed = latest_scan(cs, first.0, decl_start, false).1;
    let entered = WalkState { next: cs.len() as int, scopes: s1.scopes, found: s1.found };
    lemma_single_declarator(src, file, cs, armed, entered, ds);
    let s2 = ts_walk(src, file, cs, evs.subrange(0, 2));
    assert(s2 == declarator_step(src, file, cs, armed, entered, ds@[0]));
    assert(s2.next == cs.len());
    assert(s2.scopes.len() == 2);
    assert(s2.scopes[0] == Set::<Seq<char>>::empty());
    assert(s2.found.len() == 0);
    let s3 = ts_walk(src, file, cs, evs.subrange(0, 3));
    assert(s3.scopes == seq![Set::<Seq<char>>::empty()]);
    let s4 = ts_walk(src, file, cs, evs.subrange(0, 4));
    assert(s4.scopes == seq![Set::<Seq<char>>::empty(), Set::<Seq<char>>::empty()]);
    assert(s4.next == cs.len());
    assert(s4.found.len() == 0);
    assert(!marked_in(s4.scopes, name@));
    assert(latest_scan(cs, cs.len() as int, assign_start, false) == (cs.len() as int, false));
    assert(latest_scan(cs, cs.len() as int, lit.span.start, false) == (cs.len() as int, false));
    let s5 = ts_walk(src, file, cs, evs.subrange(0, 5));
    assert(s5.found.len() == 0);
}

/// Shared scope: an annotation on a declaration in an enclosing scope
/// reaches an assignment in any function nested in it, opened and closed
/// after the declaration.
pub proof fn lemma_enclosing_scope_shared(
    src: Seq<u8>,
    file: Seq<char>,
    cs: Seq<SourceComment>,
    decl_start: u32,
    ds: Vec<TsDeclarator>,
    f1: u32,
    f2: u32,
    assign_start: u32,
    name: String,
    lit: TsLiteral,
)
    requires
        ds@.len() == 1,
        ds@[0].name@ == name@,
        ds@[0].init is None,
        latest_scan(cs, 0, decl_start, false).1,
        slice_ok(src, lit.span),
    ensures
        ts_walk(
            src,
            file,
            cs,
            seq![
                TsEvent::Enter(decl_start, TsNodeKind::Declaration(ds)),
                TsEvent::Enter(f1, TsNodeKind::Function),
                TsEvent::LeaveFunction,
                TsEvent::Enter(f2, TsNodeKind::Function),
                TsEvent::Enter(assign_start, TsNodeKind::Assignment(name, lit)),
                TsEvent::LeaveFunction,
            ],
        ).found == seq![literal_prompt(src, file, lit)],
{
    let evs = seq![
        TsEvent::Enter(decl_start, TsNodeKind::Declaration(ds)),
        TsEvent::Enter(f1, TsNodeKind::Function),
        TsEvent::LeaveFunction,
        TsEvent::Enter(f2, TsNodeKind::Function),
        TsEvent::Enter(assign_start, TsNodeKind::Assignment(name, lit)),
        TsEvent::LeaveFunction,
    ];
    lemma_ts_walk_step(src, file, cs, evs, 0);
    lemma_ts_walk_step(src, file, cs, evs, 1);
    lemma_ts_walk_step(src, file, cs, evs, 2);
    lemma_ts_walk_step(src, file, cs, evs, 3);
    lemma_ts_walk_step(src, file, cs, evs, 4);
    lemma_ts_walk_step(src, file, cs, evs, 5);
    assert(evs.subrange(0, 0) =~= Seq::<TsEvent>::empty());
    assert(evs.subrange(0, 6) =~= evs);
    assert(ds@.drop_last() =~= Seq::<TsDeclarator>::empty());
    let marked = Set::<Seq<char>>::empty().insert(name@);
    let s0 = ts_walk(src, file, cs, evs.subrange(0, 0));
    assert(s0 == initial_state());
    let entered = WalkState {
        next: latest_scan(cs, 0, decl_start, false).0,
        scopes: s0.scopes,
        found: s0.found,
    };
    lemma_single_declarator(src, file, cs, true, entered, ds);
    let s1 = ts_walk(src, file, cs, evs.subrange(0, 1));
    assert(s1 == declarator_step(src, file, cs, true, entered, ds@[0]));
    assert(s1.scopes == seq![Set::<Seq<char>>::empty()].update(0, marked));
    assert(s1.scopes =~= seq![marked]);
    assert(s1.found.len() == 0);
    let s2 = ts_walk(src, file, cs, evs.subrange(0, 2));
    assert(s2.scopes =~= seq![marked, Set::<Seq<char>>::empty()]);
    let s3 = ts_walk(src, file, cs, evs.subrange(0, 3));
    assert(s3.scopes =~= seq![marked]);
    let s4 = ts_walk(src, file, cs, evs.subrange(0, 4));
    assert(s4.scopes =~= seq![marked, Set::<Seq<char>>::empty()]);
    assert(s4.found.len() == 0);
    assert(s4.scopes[0].contains(name@));
    assert(marked_in(s4.scopes, name@));
    let p = literal_prompt(src, file, lit);
    assert(s4.found =~= Seq::<PromptView>::empty());
    assert(insert_index(Seq::empty(), p) == 0);
    assert(insert_ordered(Seq::empty(), p) =~= seq![p]);
    let s5 = ts_walk(src, file, cs, evs.subrange(0, 5));
    assert(s5.found == seq![p]);
}

/// The walk over the first `i + 1` statements is one step after the walk
/// over the first `i`.
proof fn lemma_py_walk_step(src: Seq<u8>, file: Seq<char>, starts: Seq<u32>, evs: Seq<PyEvent>, i: int)
    requires
        0 <= i < evs.len(),
    ensures
        py_walk(src, file, starts, evs.subrange(0, i + 1)) == py_step(
            src,
            file,
            starts,
            py_walk(src, file, starts, evs.subrange(0, i)),
            evs[i],
        ),
{
    assert(evs.subrange(0, i + 1).drop_last() =~= evs.subrange(0, i));
}

/// Annotation propagation in a statement-oriented grammar: an annotated
/// declaration of a name without a value (`name: T`) makes a literal
/// assigned to that name afterwards a prompt.
pub proof fn lemma_py_annotation_reaches_assignment(
    src: Seq<u8>,
    file: Seq<char>,
    starts: Seq<u32>,
    decl_start: u32,
    declared: String,
    assign_start: u32,
    targets: Vec<PyTarget>,
    lit: PyLiteral,
)
    requires
        presence_skip(starts, 0, decl_start) > 0,
        targets@ == seq![PyTarget::Name(declared)],
        slice_ok(src, lit.span),
    ensures
        py_walk(
            src,
            file,
            starts,
            seq![
                PyEvent::Stmt(decl_start, PyStmtKind::AnnAssign(PyTarget::Name(declared), None)),
                PyEvent::Stmt(assign_start, PyStmtKind::Assign(targets, PyValue::Literal(lit))),
            ],
        ).found == seq![string_prompt(src, file, lit)],
{
    let evs = seq![
        PyEvent::Stmt(decl_start, PyStmtKind::AnnAssign(PyTarget::Name(declared), None)),
        PyEvent::Stmt(assign_start, PyStmtKind::Assign(targets, PyValue::Literal(lit))),
    ];
    lemma_py_walk_step(src, file, starts, evs, 0);
    lemma_py_walk_step(src, file, starts, evs, 1);
    assert(evs.subrange(0, 0) =~= Seq::<PyEvent>::empty());
    assert(evs.subrange(0, 2) =~= evs);
    let s0 = py_walk(src, file, starts, evs.subrange(0, 0));
    assert(s0 == initial_state());
    let s1 = py_walk(src, file, starts, evs.subrange(0, 1));
    assert(s1.scopes == seq![Set::<Seq<char>>::empty()].update(0, Set::<Seq<char>>::empty().insert(declared@)));
    assert(s1.scopes[0].contains(declared@));
    assert(s1.found == Seq::<PromptView>::empty());
    let annotated = presence_skip(starts, s1.next, assign_start) > s1.next;
    let entered = WalkState {
        next: presence_skip(starts, s1.next, assign_start),
        scopes: s1.scopes,
        found: s1.found,
    };
    assert(targets@.drop_last() =~= Seq::<PyTarget>::empty());
    assert(targets_step(src, file, annotated, entered, targets@.drop_last(), PyValue::Literal(lit))
        == entered);
    assert(targets@.last() == PyTarget::Name(declared));
    let st2 = bind_step(src, file, annotated, entered, declared@, Some(lit));
    assert(targets_step(src, file, annotated, entered, targets@, PyValue::Literal(lit)) == st2);
    assert(st2.scopes[0].contains(declared@));
    assert(marked_in(st2.scopes, declared@));
    let p = string_prompt(src, file, lit);
    assert(insert_index(Seq::empty(), p) == 0);
    assert(insert_ordered(Seq::empty(), p) =~= seq![p]);
    assert(st2.found == seq![p]);
}

/// Destructuring: under an annotation, each name of a two-name target is
/// paired with the literal at the same position of a two-item value, and
/// both literals are prompts, in document order.
pub proof fn lemma_destructuring_pairs_positionally(
    src: Seq<u8>,
    file: Seq<char>,
    starts: Seq<u32>,
    start: u32,
    targets: Vec<PyTarget>,
    names: Vec<Option<String>>,
    items: Vec<Option<PyLiteral>>,
    first: PyLiteral,
    second: PyLiteral,
)
    requires
        presence_skip(starts, 0, start) > 0,
        targets@ == seq![PyTarget::Unpack(names)],
        names@.len() == 2,
        names@[0] is Some,
        names@[1] is Some,
        items@ == seq![Some(first), Some(second)],
        slice_ok(src, first.span),
        slice_ok(src, second.span),
        first.span.start < second.span.start,
    ensures
        py_walk(
            src,
            file,
            starts,
            seq![PyEvent::Stmt(start, PyStmtKind::Assign(targets, PyValue::Sequence(items)))],
        ).found == seq![string_prompt(src, file, first), string_prompt(src, file, second)],
{
    let evs = seq![PyEvent::Stmt(start, PyStmtKind::Assign(targets, PyValue::Sequence(items)))];
    lemma_py_walk_step(src, file, starts, evs, 0);
    assert(evs.subrange(0, 0) =~= Seq::<PyEvent>::empty());
    assert(evs.subrange(0, 1) =~= evs);
    let s0 = py_walk(src, file, starts, evs.subrange(0, 0));
    assert(s0 == initial_state());
    let value = PyValue::Sequence(items);
    let entered = WalkState {
        next: presence_skip(starts, 0, start),
        scopes: s0.scopes,
        found: s0.found,
    };
    assert(targets@.drop_last() =~= Seq::<PyTarget>::empty());
    assert(targets_step(src, file, true, entered, targets@.drop_last(), value) == entered);
    assert(value_items(Some(value)) == items@);
    let ns = names@;
    assert(ns.drop_last().drop_last() =~= Seq::<Option<String>>::empty());
    assert(ns.drop_last().last() == ns[0]);
    let u0 = unpack_step(src, file, true, entered, ns.drop_last().drop_last(), items@);
    assert(u0 == entered);
    assert(paired(items@, 0) == Some(first));
    assert(paired(items@, 1) == Some(second));
    let n0 = ns[0]->0;
    let n1 = ns[1]->0;
    let u1 = unpack_step(src, file, true, entered, ns.drop_last(), items@);
    assert(u1 == bind_step(src, file, true, u0, n0@, Some(first)));
    assert(mark_top(entered.scopes, n0@)[0].contains(n0@));
    let head = string_prompt(src, file, first);
    let tail = string_prompt(src, file, second);
    assert(insert_index(Seq::empty(), head) == 0);
    assert(insert_ordered(Seq::empty(), head) =~= seq![head]);
    assert(u1.found == seq![head]);
    let u2 = unpack_step(src, file, true, entered, ns, items@);
    assert(ns.last() == ns[1]);
    assert(u2 == bind_step(src, file, true, u1, n1@, Some(second)));
    assert(mark_top(u1.scopes, n1@)[mark_top(u1.scopes, n1@).len() - 1].contains(n1@));
    assert(marked_in(mark_top(u1.scopes, n1@), n1@));
    assert(head.span.outer.start < tail.span.outer.start);
    assert(insert_index(seq![head], tail) == 1);
    assert(insert_ordered(seq![head], tail) =~= seq![head, tail]);
    assert(targets@.last() == PyTarget::Unpack(names));
    assert(targets_step(src, file, true, entered, targets@, value) == u2);
}

} // verus!
