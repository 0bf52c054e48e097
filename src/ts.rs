//! Prompt recognition for the ECMAScript family (JavaScript, TypeScript,
//! JSX): an expression-oriented grammar, read with the latest-verdict
//! comment policy.
use vstd::prelude::*;
use vstd::string::StringSliceAdditionalSpecFns;
use vstd::utf8::encode_utf8;
use crate::cursor::{latest_scan, LatestCursor, SourceComment};
use crate::outcome::{failure, failure_message, join_messages, joined, success};
use crate::scope::{marked_in, ScopeTracker};
use crate::shape::{delimited_shape, shape_template_var, strip_shape, template_var_shape};
use crate::text::{slice, slice_ok, slice_text};
use crate::types::{ParseResult, Prompt, PromptVar, PromptVarView, PromptView, Span, prompts_view};
use crate::walk::{
    add_ordered, all_faithful, all_from, faithful, initial_state, insert_ordered, lemma_insert_ordered,
    held, mark_top, mentions_prompt, names_prompt, strictly_ordered, pop_top, WalkState,
};

verus! {

/// A string or template literal: its span, quotes or backticks included,
/// and for a template the spans of its interpolated expressions (without
/// the `${` and `}` around them). A plain string has no expressions.
pub struct TsLiteral {
    pub span: Span,
    pub expressions: Vec<Span>,
}

/// One declarator of a variable declaration whose binding is a plain
/// identifier, with its initializer when that is a string or template
/// literal.
pub struct TsDeclarator {
    pub name: String,
    pub init: Option<TsLiteral>,
}

/// The kinds of syntax node that recognition tells apart.
pub enum TsNodeKind {
    /// A function or arrow function: it opens a scope.
    Function,
    /// A variable declaration, with its identifier-bound declarators.
    Declaration(Vec<TsDeclarator>),
    /// An assignment of a string or template literal to an identifier.
    Assignment(String, TsLiteral),
    /// Any other node.
    Other,
}

/// One step of a pre-order walk over the syntax tree.
pub enum TsEvent {
    /// Entering a node that starts at the given byte offset.
    Enter(u32, TsNodeKind),
    /// Leaving a function or arrow function.
    LeaveFunction,
}

/// A parsed source file: its comments ordered by start, and the walk over
/// its syntax tree in document pre-order.
pub struct TsTree {
    pub comments: Vec<SourceComment>,
    pub events: Vec<TsEvent>,
}

/// The interpolations of a template literal, each widened to its `${ }`
/// delimiters where they are present; one whose text cannot be taken from
/// the source is left out.
pub open spec fn template_vars(src: Seq<u8>, exprs: Seq<Span>) -> Seq<PromptVarView>
    decreases exprs.len(),
{
    if exprs.len() == 0 {
        Seq::empty()
    } else {
        let rest = template_vars(src, exprs.drop_last());
        let shape = template_var_shape(src, exprs.last());
        if slice_ok(src, shape.outer) {
            rest.push(PromptVarView { exp: slice_text(src, shape.outer), span: shape })
        } else {
            rest
        }
    }
}

/// The prompt that a literal makes.
pub open spec fn literal_prompt(src: Seq<u8>, file: Seq<char>, lit: TsLiteral) -> PromptView {
    PromptView {
        file,
        span: strip_shape(lit.span, 1),
        exp: slice_text(src, lit.span),
        vars: template_vars(src, lit.expressions@),
    }
}

/// A literal bound to `name`: the cursor advances to the literal, and the
/// literal is a prompt when the name mentions `prompt`, an annotation
/// precedes it, or the name is marked in an open scope. An annotation also
/// marks the name in the innermost scope, for later assignments.
pub open spec fn literal_step(
    src: Seq<u8>,
    file: Seq<char>,
    cs: Seq<SourceComment>,
    st: WalkState,
    name: Seq<char>,
    lit: TsLiteral,
) -> WalkState {
    let (next, armed) = latest_scan(cs, st.next, lit.span.start, false);
    let is_prompt = names_prompt(name) || armed || marked_in(st.scopes, name);
    WalkState {
        next,
        scopes: if armed {
            mark_top(st.scopes, name)
        } else {
            st.scopes
        },
        found: if is_prompt && slice_ok(src, lit.span) {
            insert_ordered(st.found, literal_prompt(src, file, lit))
        } else {
            st.found
        },
    }
}

/// A declarator: its name is marked when its declaration is annotated,
/// then its literal initializer, if any, is considered.
pub open spec fn declarator_step(
    src: Seq<u8>,
    file: Seq<char>,
    cs: Seq<SourceComment>,
    armed: bool,
    st: WalkState,
    d: TsDeclarator,
) -> WalkState {
    let marked = WalkState {
        next: st.next,
        scopes: if armed {
            mark_top(st.scopes, d.name@)
        } else {
            st.scopes
        },
        found: st.found,
    };
    match d.init {
        Some(lit) => literal_step(src, file, cs, marked, d.name@, lit),
        None => marked,
    }
}

/// The declarators of one declaration, in order.
pub open spec fn declarators_step(
    src: Seq<u8>,
    file: Seq<char>,
    cs: Seq<SourceComment>,
    armed: bool,
    st: WalkState,
    ds: Seq<TsDeclarator>,
) -> WalkState
    decreases ds.len(),
{
    if ds.len() == 0 {
        st
    } else {
        declarator_step(
            src,
            file,
            cs,
            armed,
            declarators_step(src, file, cs, armed, st, ds.drop_last()),
            ds.last(),
        )
    }
}

/// One event of the walk. Entering any node first advances the cursor to
/// the node's start.
pub open spec fn ts_step(
    src: Seq<u8>,
    file: Seq<char>,
    cs: Seq<SourceComment>,
    st: WalkState,
    ev: TsEvent,
) -> WalkState {
    match ev {
        TsEvent::Enter(start, kind) => {
            let (next, armed) = latest_scan(cs, st.next, start, false);
            let entered = WalkState { next, scopes: st.scopes, found: st.found };
            match kind {
                TsNodeKind::Function => WalkState {
                    next,
                    scopes: st.scopes.push(Set::empty()),
                    found: st.found,
                },
                TsNodeKind::Declaration(ds) => declarators_step(src, file, cs, armed, entered, ds@),
                TsNodeKind::Assignment(name, lit) => literal_step(
                    src,
                    file,
                    cs,
                    entered,
                    name@,
                    lit,
                ),
                TsNodeKind::Other => entered,
            }
        },
        TsEvent::LeaveFunction => WalkState {
            next: st.next,
            scopes: pop_top(st.scopes),
            found: st.found,
        },
    }
}

/// The state after the given events, from the initial state.
pub open spec fn ts_walk(
    src: Seq<u8>,
    file: Seq<char>,
    cs: Seq<SourceComment>,
    evs: Seq<TsEvent>,
) -> WalkState
    decreases evs.len(),
{
    if evs.len() == 0 {
        initial_state()
    } else {
        ts_step(src, file, cs, ts_walk(src, file, cs, evs.drop_last()), evs.last())
    }
}

/// The interpolations of a template literal.
fn template_vars_exec(source: &str, exprs: &Vec<Span>) -> (r: Vec<PromptVar>)
    ensures
        r@.map_values(|v: PromptVar| v@) == template_vars(source.spec_bytes(), exprs@),
        forall|j: int|
            0 <= j < r@.len() ==> slice_ok(source.spec_bytes(), #[trigger] r@[j].span.outer)
                && encode_utf8(r@[j].exp@) == source.spec_bytes().subrange(
                r@[j].span.outer.start as int,
                r@[j].span.outer.end as int,
            ),
{
    let ghost src = source.spec_bytes();
    let mut vars: Vec<PromptVar> = Vec::new();
    let mut i: usize = 0;
    while i < exprs.len()
        invariant
            i <= exprs@.len(),
            src == source.spec_bytes(),
            vars@.map_values(|v: PromptVar| v@) == template_vars(src, exprs@.subrange(0, i as int)),
            forall|j: int|
                0 <= j < vars@.len() ==> slice_ok(src, #[trigger] vars@[j].span.outer)
                    && encode_utf8(vars@[j].exp@) == src.subrange(
                    vars@[j].span.outer.start as int,
                    vars@[j].span.outer.end as int,
                ),
        decreases exprs@.len() - i,
    {
        assert(exprs@.subrange(0, i + 1).drop_last() =~= exprs@.subrange(0, i as int));
        let shape = shape_template_var(source, exprs[i]);
        let ghost before = vars@;
        match slice(source, shape.outer) {
            Some(exp) => {
                vars.push(PromptVar { exp, span: shape });
                assert(vars@.map_values(|v: PromptVar| v@) =~= before.map_values(
                    |v: PromptVar| v@,
                ).push(vars@.last()@));
            },
            None => {},
        }
        i += 1;
    }
    assert(exprs@.subrange(0, i as int) =~= exprs@);
    vars
}

/// Considers a literal bound to `name`.
fn literal_exec(
    source: &str,
    file: &String,
    cursor: &mut LatestCursor,
    scopes: &mut ScopeTracker,
    found: &mut Vec<Prompt>,
    name: &String,
    lit: &TsLiteral,
)
    requires
        0 <= old(cursor).next() <= old(cursor).comments().len(),
        old(scopes)@.len() >= 1,
        strictly_ordered(prompts_view(old(found)@)),
        all_faithful(source.spec_bytes(), prompts_view(old(found)@)),
        all_from(file@, prompts_view(old(found)@)),
    ensures
        final(cursor).comments() == old(cursor).comments(),
        0 <= final(cursor).next() <= final(cursor).comments().len(),
        final(scopes)@.len() >= 1,
        held(final(cursor).next(), final(scopes)@, final(found)@) == literal_step(
            source.spec_bytes(),
            file@,
            old(cursor).comments(),
            held(old(cursor).next(), old(scopes)@, old(found)@),
            name@,
            *lit,
        ),
        strictly_ordered(prompts_view(final(found)@)),
        all_faithful(source.spec_bytes(), prompts_view(final(found)@)),
        all_from(file@, prompts_view(final(found)@)),
{
    let armed = cursor.advance_to(lit.span.start);
    let is_prompt = mentions_prompt(name.as_str()) || armed || scopes.is_marked(name);
    if armed {
        scopes.mark(name);
    }
    if is_prompt {
        match slice(source, lit.span) {
            Some(exp) => {
                let vars = template_vars_exec(source, &lit.expressions);
                let p = Prompt { file: file.clone(), span: delimited_shape(lit.span), exp, vars };
                assert(p@.vars == template_vars(source.spec_bytes(), lit.expressions@));
                assert(p@ == literal_prompt(source.spec_bytes(), file@, *lit));
                assert(faithful(source.spec_bytes(), p@));
                assert(p@.file == file@);
                proof {
                    lemma_insert_ordered(prompts_view(found@), p@);
                }
                add_ordered(found, p);
            },
            None => {},
        }
    }
}

/// Finds the prompts of a parsed ECMAScript-family file, ordered by start.
pub fn recognize_ts(source: &str, file: &str, tree: TsTree) -> (r: Vec<Prompt>)
    ensures
        prompts_view(r@) == ts_walk(
            source.spec_bytes(),
            file@,
            tree.comments@,
            tree.events@,
        ).found,
        strictly_ordered(prompts_view(r@)),
        all_faithful(source.spec_bytes(), prompts_view(r@)),
        all_from(file@, prompts_view(r@)),
{
    let ghost src = source.spec_bytes();
    let ghost cs = tree.comments@;
    let ghost evs = tree.events@;
    let file = file.to_owned();
    let TsTree { comments, events } = tree;
    let mut cursor = LatestCursor::new(comments);
    let mut scopes = ScopeTracker::new();
    let mut found: Vec<Prompt> = Vec::new();
    let mut i: usize = 0;
    assert(prompts_view(found@) =~= Seq::<PromptView>::empty());
    while i < events.len()
        invariant
            i <= evs.len(),
            src == source.spec_bytes(),
            events@ == evs,
            cursor.comments() == cs,
            0 <= cursor.next() <= cs.len(),
            scopes@.len() >= 1,
            held(cursor.next(), scopes@, found@) == ts_walk(
                src,
                file@,
                cs,
                evs.subrange(0, i as int),
            ),
            strictly_ordered(prompts_view(found@)),
            all_faithful(src, prompts_view(found@)),
            all_from(file@, prompts_view(found@)),
        decreases evs.len() - i,
    {
        assert(evs.subrange(0, i + 1).drop_last() =~= evs.subrange(0, i as int));
        match &events[i] {
            TsEvent::Enter(start, kind) => {
                let armed = cursor.advance_to(*start);
                match kind {
                    TsNodeKind::Function => {
                        scopes.push_scope();
                    },
                    TsNodeKind::Declaration(ds) => {
                        let ghost entered = held(cursor.next(), scopes@, found@);
                        let mut j: usize = 0;
                        while j < ds.len()
                            invariant
                                j <= ds@.len(),
                                src == source.spec_bytes(),
                                cursor.comments() == cs,
                                0 <= cursor.next() <= cs.len(),
                                scopes@.len() >= 1,
                                held(cursor.next(), scopes@, found@) == declarators_step(
                                    src,
                                    file@,
                                    cs,
                                    armed,
                                    entered,
                                    ds@.subrange(0, j as int),
                                ),
                                strictly_ordered(prompts_view(found@)),
                                all_faithful(src, prompts_view(found@)),
                                all_from(file@, prompts_view(found@)),
                            decreases ds@.len() - j,
                        {
                            assert(ds@.subrange(0, j + 1).drop_last() =~= ds@.subrange(
                                0,
                                j as int,
                            ));
                            let d = &ds[j];
                            if armed {
                                scopes.mark(&d.name);
                            }
                            match &d.init {
                                Some(lit) => {
                                    literal_exec(
                                        source,
                                        &file,
                                        &mut cursor,
                                        &mut scopes,
                                        &mut found,
                                        &d.name,
                                        lit,
                                    );
                                },
                                None => {},
                            }
                            j += 1;
                        }
                        assert(ds@.subrange(0, j as int) =~= ds@);
                    },
                    TsNodeKind::Assignment(name, lit) => {
                        literal_exec(source, &file, &mut cursor, &mut scopes, &mut found, name, lit);
                    },
                    TsNodeKind::Other => {},
                }
            },
            TsEvent::LeaveFunction => {
                scopes.pop_scope();
            },
        }
        i += 1;
    }
    assert(evs.subrange(0, i as int) =~= evs);
    found
}

/// Analyses an ECMAScript-family file from what its front end produced: the
/// syntax tree, or the diagnostics of a file that did not parse. A file
/// that did not parse yields a failure, never prompts.
pub fn parse_prompts_ts(source: &str, filename: &str, parsed: Result<TsTree, Vec<String>>) -> (r:
    ParseResult)
    ensures
        parsed is Err <==> r is ParseResultError,
        parsed matches Err(msgs) ==> (r matches ParseResult::ParseResultError(e) && e.error@
            == failure_message(
            joined(msgs@.map_values(|m: String| m@)),
            "the source could not be parsed"@,
        ) && e.error@.len() > 0),
        parsed matches Ok(tree) ==> (r matches ParseResult::ParseResultSuccess(s) && prompts_view(
            s.prompts@,
        ) == ts_walk(source.spec_bytes(), filename@, tree.comments@, tree.events@).found
            && strictly_ordered(prompts_view(s.prompts@)) && all_faithful(
            source.spec_bytes(),
            prompts_view(s.prompts@),
        ) && all_from(filename@, prompts_view(s.prompts@))),
{
    match parsed {
        Ok(tree) => success(recognize_ts(source, filename, tree)),
        Err(msgs) => failure(join_messages(&msgs)),
    }
}

} // verus!
