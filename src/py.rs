//! Prompt recognition for the Python family: a statement-oriented grammar,
//! read with the presence comment policy.
use vstd::prelude::*;
use vstd::string::StringSliceAdditionalSpecFns;
use vstd::utf8::encode_utf8;
use crate::cursor::{annotation_starts, presence_skip, PresenceCursor, SourceComment};
use crate::outcome::{failure, failure_message, success};
use crate::scope::{marked_in, ScopeTracker};
use crate::shape::{shape_string_like, string_like_shape};
use crate::text::{slice, slice_ok, slice_text};
use crate::types::{
    ParseResult, Prompt, PromptVar, PromptVarView, PromptView, Span, SpanShape, prompts_view,
};
use crate::walk::{
    add_ordered, all_faithful, all_from, faithful, initial_state, insert_ordered, lemma_insert_ordered,
    held, mark_top, mentions_prompt, names_prompt, strictly_ordered, pop_top, WalkState,
};

verus! {

/// An interpolation of an f-string or t-string: its span, braces included,
/// and the span of its expression alone (without a conversion or a format
/// spec).
pub struct PyInterpolation {
    pub span: Span,
    pub expression: Span,
}

/// A string literal, f-string or t-string: its span, prefix and quotes
/// included, and its interpolations in order. A plain string has none.
pub struct PyLiteral {
    pub span: Span,
    pub interpolations: Vec<PyInterpolation>,
}

/// The target of an assignment.
pub enum PyTarget {
    /// A plain name.
    Name(String),
    /// A tuple or list of targets; an element that is not a plain name is
    /// `None`.
    Unpack(Vec<Option<String>>),
    /// Any other target (attribute, subscript, ...).
    Other,
}

/// The value of an assignment.
pub enum PyValue {
    /// A string literal, f-string or t-string.
    Literal(PyLiteral),
    /// A tuple or list display; an element that is not a string-like
    /// literal is `None`.
    Sequence(Vec<Option<PyLiteral>>),
    /// Any other expression.
    Other,
}

/// The kinds of statement that recognition tells apart.
pub enum PyStmtKind {
    /// An assignment to one or more targets (`a = b = value`).
    Assign(Vec<PyTarget>, PyValue),
    /// An annotated assignment, with or without a value.
    AnnAssign(PyTarget, Option<PyValue>),
    /// A function or class definition: it opens a scope.
    Definition,
    /// Any other statement.
    Other,
}

/// One step of a pre-order walk over the statements of a module.
pub enum PyEvent {
    /// A statement that starts at the given byte offset.
    Stmt(u32, PyStmtKind),
    /// Leaving the body of a function or class definition.
    LeaveDefinition,
}

/// A parsed module: its comments ordered by start, and the walk over its
/// statements in document pre-order.
pub struct PyModule {
    pub comments: Vec<SourceComment>,
    pub events: Vec<PyEvent>,
}

/// The interpolations of an f-string or t-string: outer span with the
/// braces, inner span the expression's own; one whose text cannot be taken
/// from the source is left out.
pub open spec fn interpolation_vars(src: Seq<u8>, its: Seq<PyInterpolation>) -> Seq<
    PromptVarView,
>
    decreases its.len(),
{
    if its.len() == 0 {
        Seq::empty()
    } else {
        let rest = interpolation_vars(src, its.drop_last());
        let it = its.last();
        if slice_ok(src, it.span) {
            rest.push(
                PromptVarView {
                    exp: slice_text(src, it.span),
                    span: SpanShape { outer: it.span, inner: it.expression },
                },
            )
        } else {
            rest
        }
    }
}

/// The prompt that a string-like literal makes.
pub open spec fn string_prompt(src: Seq<u8>, file: Seq<char>, lit: PyLiteral) -> PromptView {
    PromptView {
        file,
        span: string_like_shape(src, lit.span),
        exp: slice_text(src, lit.span),
        vars: interpolation_vars(src, lit.interpolations@),
    }
}

/// A name bound to an optional literal: the name is marked when the
/// statement is annotated, and the literal is a prompt when the name
/// mentions `prompt` or is marked in an open scope.
pub open spec fn bind_step(
    src: Seq<u8>,
    file: Seq<char>,
    annotated: bool,
    st: WalkState,
    name: Seq<char>,
    val: Option<PyLiteral>,
) -> WalkState {
    let scopes = if annotated {
        mark_top(st.scopes, name)
    } else {
        st.scopes
    };
    WalkState {
        next: st.next,
        scopes,
        found: match val {
            Some(lit) => if (names_prompt(name) || marked_in(scopes, name)) && slice_ok(
                src,
                lit.span,
            ) {
                insert_ordered(st.found, string_prompt(src, file, lit))
            } else {
                st.found
            },
            None => st.found,
        },
    }
}

/// The value paired with the `i`-th element of a destructuring target.
pub open spec fn paired(items: Seq<Option<PyLiteral>>, i: int) -> Option<PyLiteral> {
    if 0 <= i < items.len() {
        items[i]
    } else {
        None
    }
}

/// The names of a destructuring target, each bound to the literal at the
/// same position of the value's items, if any.
pub open spec fn unpack_step(
    src: Seq<u8>,
    file: Seq<char>,
    annotated: bool,
    st: WalkState,
    names: Seq<Option<String>>,
    items: Seq<Option<PyLiteral>>,
) -> WalkState
    decreases names.len(),
{
    if names.len() == 0 {
        st
    } else {
        let before = unpack_step(src, file, annotated, st, names.drop_last(), items);
        match names.last() {
            Some(n) => bind_step(src, file, annotated, before, n@, paired(items, names.len() - 1)),
            None => before,
        }
    }
}

/// The literal that a value is, if it is one.
pub open spec fn value_literal(v: Option<PyValue>) -> Option<PyLiteral> {
    match v {
        Some(PyValue::Literal(lit)) => Some(lit),
        _ => None,
    }
}

/// The items of a value that is a tuple or list display; none otherwise.
pub open spec fn value_items(v: Option<PyValue>) -> Seq<Option<PyLiteral>> {
    match v {
        Some(PyValue::Sequence(items)) => items@,
        _ => Seq::empty(),
    }
}

/// One target of an assignment with its value.
pub open spec fn target_step(
    src: Seq<u8>,
    file: Seq<char>,
    annotated: bool,
    st: WalkState,
    t: PyTarget,
    v: Option<PyValue>,
) -> WalkState {
    match t {
        PyTarget::Name(n) => bind_step(src, file, annotated, st, n@, value_literal(v)),
        PyTarget::Unpack(names) => unpack_step(src, file, annotated, st, names@, value_items(v)),
        PyTarget::Other => st,
    }
}

/// The targets of one assignment, each with the same value, in order.
pub open spec fn targets_step(
    src: Seq<u8>,
    file: Seq<char>,
    annotated: bool,
    st: WalkState,
    ts: Seq<PyTarget>,
    v: PyValue,
) -> WalkState
    decreases ts.len(),
{
    if ts.len() == 0 {
        st
    } else {
        target_step(
            src,
            file,
            annotated,
            targets_step(src, file, annotated, st, ts.drop_last(), v),
            ts.last(),
            Some(v),
        )
    }
}

/// One event of the walk. A statement is annotated when an annotation lies
/// between the previous statement's start and its own.
pub open spec fn py_step(
    src: Seq<u8>,
    file: Seq<char>,
    starts: Seq<u32>,
    st: WalkState,
    ev: PyEvent,
) -> WalkState {
    match ev {
        PyEvent::Stmt(start, kind) => {
            let next = presence_skip(starts, st.next, start);
            let annotated = next > st.next;
            let entered = WalkState { next, scopes: st.scopes, found: st.found };
            match kind {
                PyStmtKind::Assign(ts, v) => targets_step(src, file, annotated, entered, ts@, v),
                PyStmtKind::AnnAssign(t, v) => target_step(src, file, annotated, entered, t, v),
                PyStmtKind::Definition => WalkState {
                    next,
                    scopes: st.scopes.push(Set::empty()),
                    found: st.found,
                },
                PyStmtKind::Other => entered,
            }
        },
        PyEvent::LeaveDefinition => WalkState {
            next: st.next,
            scopes: pop_top(st.scopes),
            found: st.found,
        },
    }
}

/// The state after the given events, from the initial state.
pub open spec fn py_walk(
    src: Seq<u8>,
    file: Seq<char>,
    starts: Seq<u32>,
    evs: Seq<PyEvent>,
) -> WalkState
    decreases evs.len(),
{
    if evs.len() == 0 {
        initial_state()
    } else {
        py_step(src, file, starts, py_walk(src, file, starts, evs.drop_last()), evs.last())
    }
}

/// An optional borrowed literal as a value.
pub open spec fn opt_literal(o: Option<&PyLiteral>) -> Option<PyLiteral> {
    match o {
        Some(l) => Some(*l),
        None => None,
    }
}

/// An optional borrowed value as a value.
pub open spec fn opt_value(o: Option<&PyValue>) -> Option<PyValue> {
    match o {
        Some(v) => Some(*v),
        None => None,
    }
}

/// The interpolations of an f-string or t-string.
fn interpolation_vars_exec(source: &str, its: &Vec<PyInterpolation>) -> (r: Vec<PromptVar>)
    ensures
        r@.map_values(|v: PromptVar| v@) == interpolation_vars(source.spec_bytes(), its@),
        forall|j: int|
            0 <= j < r@.len() ==> slice_ok(source.spec_bytes(), #[trigger] r@[j].span.outer)
                && encode_utf8(r@[j].exp@) == source.spec_bytes().subrange(
                r@[j].span.outer.start as int,
                r@[j].span.outer.end as int,
            ),
{
    let ghost src = source.spec_bytes();
    let mut vars: Vec<PromptVar> = Vec::new();
    let mut i: usize = 0;
    while i < its.len()
        invariant
            i <= its@.len(),
            src == source.spec_bytes(),
            vars@.map_values(|v: PromptVar| v@) == interpolation_vars(
                src,
                its@.subrange(0, i as int),
            ),
            forall|j: int|
                0 <= j < vars@.len() ==> slice_ok(src, #[trigger] vars@[j].span.outer)
                    && encode_utf8(vars@[j].exp@) == src.subrange(
                    vars@[j].span.outer.start as int,
                    vars@[j].span.outer.end as int,
                ),
        decreases its@.len() - i,
    {
        assert(its@.subrange(0, i + 1).drop_last() =~= its@.subrange(0, i as int));
        let outer = its[i].span;
        let inner = its[i].expression;
        let ghost before = vars@;
        match slice(source, outer) {
            Some(exp) => {
                vars.push(PromptVar { exp, span: SpanShape { outer, inner } });
                assert(vars@.map_values(|v: PromptVar| v@) =~= before.map_values(
                    |v: PromptVar| v@,
                ).push(vars@.last()@));
            },
            None => {},
        }
        i += 1;
    }
    assert(its@.subrange(0, i as int) =~= its@);
    vars
}

/// Binds `name` to an optional literal.
fn bind_exec(
    source: &str,
    file: &String,
    annotated: bool,
    scopes: &mut ScopeTracker,
    found: &mut Vec<Prompt>,
    name: &String,
    val: Option<&PyLiteral>,
)
    requires
        old(scopes)@.len() >= 1,
        strictly_ordered(prompts_view(old(found)@)),
        all_faithful(source.spec_bytes(), prompts_view(old(found)@)),
        all_from(file@, prompts_view(old(found)@)),
    ensures
        final(scopes)@.len() >= 1,
        forall|next: int|
            #[trigger] held(next, final(scopes)@, final(found)@) == bind_step(
                source.spec_bytes(),
                file@,
                annotated,
                held(next, old(scopes)@, old(found)@),
                name@,
                opt_literal(val),
            ),
        strictly_ordered(prompts_view(final(found)@)),
        all_faithful(source.spec_bytes(), prompts_view(final(found)@)),
        all_from(file@, prompts_view(final(found)@)),
{
    if annotated {
        scopes.mark(name);
    }
    match val {
        Some(lit) => {
            if mentions_prompt(name.as_str()) || scopes.is_marked(name) {
                match slice(source, lit.span) {
                    Some(exp) => {
                        let vars = interpolation_vars_exec(source, &lit.interpolations);
                        let p = Prompt {
                            file: file.clone(),
                            span: shape_string_like(source, lit.span),
                            exp,
                            vars,
                        };
                        assert(p@.vars == interpolation_vars(
                            source.spec_bytes(),
                            lit.interpolations@,
                        ));
                        assert(p@ == string_prompt(source.spec_bytes(), file@, *lit));
                        assert(faithful(source.spec_bytes(), p@));
                        assert(p@.file == file@);
                        proof {
                            lemma_insert_ordered(prompts_view(found@), p@);
                        }
                        add_ordered(found, p);
                    },
                    None => {},
                }
            }
        },
        None => {},
    }
}

/// One target of an assignment with its optional value.
fn target_exec(
    source: &str,
    file: &String,
    annotated: bool,
    scopes: &mut ScopeTracker,
    found: &mut Vec<Prompt>,
    t: &PyTarget,
    v: Option<&PyValue>,
)
    requires
        old(scopes)@.len() >= 1,
        strictly_ordered(prompts_view(old(found)@)),
        all_faithful(source.spec_bytes(), prompts_view(old(found)@)),
        all_from(file@, prompts_view(old(found)@)),
    ensures
        final(scopes)@.len() >= 1,
        forall|next: int|
            #[trigger] held(next, final(scopes)@, final(found)@) == target_step(
                source.spec_bytes(),
                file@,
                annotated,
                held(next, old(scopes)@, old(found)@),
                *t,
                opt_value(v),
            ),
        strictly_ordered(prompts_view(final(found)@)),
        all_faithful(source.spec_bytes(), prompts_view(final(found)@)),
        all_from(file@, prompts_view(final(found)@)),
{
    match t {
        PyTarget::Name(n) => {
            let lit = match v {
                Some(PyValue::Literal(l)) => Some(l),
                _ => None,
            };
            assert(opt_literal(lit) == value_literal(opt_value(v)));
            bind_exec(source, file, annotated, scopes, found, n, lit);
        },
        PyTarget::Unpack(names) => {
            let ghost items = value_items(opt_value(v));
            let ghost scopes0 = scopes@;
            let ghost found0 = found@;
            let mut i: usize = 0;
            while i < names.len()
                invariant
                    i <= names@.len(),
                    scopes@.len() >= 1,
                    items == value_items(opt_value(v)),
                    forall|next: int|
                        #[trigger] held(next, scopes@, found@) == unpack_step(
                            source.spec_bytes(),
                            file@,
                            annotated,
                            held(next, scopes0, found0),
                            names@.subrange(0, i as int),
                            items,
                        ),
                    strictly_ordered(prompts_view(found@)),
                    all_faithful(source.spec_bytes(), prompts_view(found@)),
                    all_from(file@, prompts_view(found@)),
                decreases names@.len() - i,
            {
                assert(names@.subrange(0, i + 1).drop_last() =~= names@.subrange(0, i as int));
                match &names[i] {
                    Some(n) => {
                        let lit = match v {
                            Some(PyValue::Sequence(vals)) => {
                                if i < vals.len() {
                                    match &vals[i] {
                                        Some(l) => Some(l),
                                        None => None,
                                    }
                                } else {
                                    None
                                }
                            },
                            _ => None,
                        };
                        assert(opt_literal(lit) == paired(items, i as int));
                        let ghost scopes1 = scopes@;
                        let ghost found1 = found@;
                        bind_exec(source, file, annotated, scopes, found, n, lit);
                        assert forall|next: int|
                            #[trigger] held(next, scopes@, found@) == unpack_step(
                                source.spec_bytes(),
                                file@,
                                annotated,
                                held(next, scopes0, found0),
                                names@.subrange(0, i + 1),
                                items,
                            ) by {
                            assert(held(next, scopes1, found1) == unpack_step(
                                source.spec_bytes(),
                                file@,
                                annotated,
                                held(next, scopes0, found0),
                                names@.subrange(0, i as int),
                                items,
                            ));
                        }
                    },
                    None => {},
                }
                i += 1;
            }
            assert(names@.subrange(0, i as int) =~= names@);
        },
        PyTarget::Other => {},
    }
}

/// Finds the prompts of a parsed Python-family module, ordered by start.
pub fn recognize_py(source: &str, file: &str, module: PyModule) -> (r: Vec<Prompt>)
    ensures
        prompts_view(r@) == py_walk(
            source.spec_bytes(),
            file@,
            annotation_starts(module.comments@),
            module.events@,
        ).found,
        strictly_ordered(prompts_view(r@)),
        all_faithful(source.spec_bytes(), prompts_view(r@)),
        all_from(file@, prompts_view(r@)),
{
    let ghost src = source.spec_bytes();
    let ghost starts = annotation_starts(module.comments@);
    let ghost evs = module.events@;
    let file = file.to_owned();
    let PyModule { comments, events } = module;
    let mut cursor = PresenceCursor::new(&comments);
    let mut scopes = ScopeTracker::new();
    let mut found: Vec<Prompt> = Vec::new();
    let mut i: usize = 0;
    assert(prompts_view(found@) =~= Seq::<PromptView>::empty());
    while i < events.len()
        invariant
            i <= evs.len(),
            src == source.spec_bytes(),
            events@ == evs,
            cursor.starts() == starts,
            0 <= cursor.next() <= starts.len(),
            scopes@.len() >= 1,
            held(cursor.next(), scopes@, found@) == py_walk(
                src,
                file@,
                starts,
                evs.subrange(0, i as int),
            ),
            strictly_ordered(prompts_view(found@)),
            all_faithful(src, prompts_view(found@)),
            all_from(file@, prompts_view(found@)),
        decreases evs.len() - i,
    {
        assert(evs.subrange(0, i + 1).drop_last() =~= evs.subrange(0, i as int));
        match &events[i] {
            PyEvent::Stmt(start, kind) => {
                let annotated = cursor.advance_to(*start);
                match kind {
                    PyStmtKind::Assign(ts, v) => {
                        let ghost entered = held(cursor.next(), scopes@, found@);
                        let mut j: usize = 0;
                        while j < ts.len()
                            invariant
                                j <= ts@.len(),
                                src == source.spec_bytes(),
                                scopes@.len() >= 1,
                                held(cursor.next(), scopes@, found@) == targets_step(
                                    src,
                                    file@,
                                    annotated,
                                    entered,
                                    ts@.subrange(0, j as int),
                                    *v,
                                ),
                                strictly_ordered(prompts_view(found@)),
                                all_faithful(src, prompts_view(found@)),
                                all_from(file@, prompts_view(found@)),
                            decreases ts@.len() - j,
                        {
                            assert(ts@.subrange(0, j + 1).drop_last() =~= ts@.subrange(
                                0,
                                j as int,
                            ));
                            target_exec(source, &file, annotated, &mut scopes, &mut found, &ts[j], Some(v));
                            j += 1;
                        }
                        assert(ts@.subrange(0, j as int) =~= ts@);
                    },
                    PyStmtKind::AnnAssign(t, v) => {
                        let vr = match v {
                            Some(x) => Some(x),
                            None => None,
                        };
                        assert(opt_value(vr) == *v);
                        target_exec(source, &file, annotated, &mut scopes, &mut found, t, vr);
                    },
                    PyStmtKind::Definition => {
                        scopes.push_scope();
                    },
                    PyStmtKind::Other => {},
                }
            },
            PyEvent::LeaveDefinition => {
                scopes.pop_scope();
            },
        }
        i += 1;
    }
    assert(evs.subrange(0, i as int) =~= evs);
    found
}

/// Analyses a Python-family module from what its front end produced: the
/// statements and comments, or the message of a module that did not parse.
/// A module that did not parse yields a failure, never prompts.
pub fn parse_prompts_py(source: &str, filename: &str, parsed: Result<PyModule, String>) -> (r:
    ParseResult)
    ensures
        parsed is Err <==> r is ParseResultError,
        parsed matches Err(msg) ==> (r matches ParseResult::ParseResultError(e) && e.error@
            == failure_message(msg@, "the source could not be parsed"@) && e.error@.len() > 0),
        parsed matches Ok(module) ==> (r matches ParseResult::ParseResultSuccess(s)
            && prompts_view(s.prompts@) == py_walk(
            source.spec_bytes(),
            filename@,
            annotation_starts(module.comments@),
            module.events@,
        ).found && strictly_ordered(prompts_view(s.prompts@)) && all_faithful(
            source.spec_bytes(),
            prompts_view(s.prompts@),
        ) && all_from(filename@, prompts_view(s.prompts@))),
{
    match parsed {
        Ok(module) => success(recognize_py(source, filename, module)),
        Err(msg) => failure(msg),
    }
}

} // verus!
