use mindrig_parser::cursor::SourceComment;
use mindrig_parser::grammar::{grammar_of, Grammar};
use mindrig_parser::py::{
    parse_prompts_py, PyEvent, PyInterpolation, PyLiteral, PyModule, PyStmtKind, PyTarget, PyValue,
};
use mindrig_parser::shape::{delimited_shape, shape_string_like, shape_template_var};
use mindrig_parser::text::slice;
use mindrig_parser::ts::{parse_prompts_ts, TsDeclarator, TsEvent, TsLiteral, TsNodeKind, TsTree};
use mindrig_parser::types::{ParseResult, Prompt, Span};

fn at(src: &str, pat: &str, from: u32) -> u32 {
    from + src[from as usize..].find(pat).expect("pattern in source") as u32
}

fn span_of(src: &str, text: &str, from: u32) -> Span {
    let start = at(src, text, from);
    Span { start, end: start + text.len() as u32 }
}

fn text_at<'a>(src: &'a str, sp: Span) -> &'a str {
    &src[sp.start as usize..sp.end as usize]
}

fn ts_prompts(src: &str, comments: Vec<SourceComment>, events: Vec<TsEvent>) -> Vec<Prompt> {
    match parse_prompts_ts(src, "p.ts", Ok(TsTree { comments, events })) {
        ParseResult::ParseResultSuccess(s) => s.prompts,
        ParseResult::ParseResultError(e) => panic!("Parsing failed: {}", e.error),
    }
}

fn py_prompts(src: &str, comments: Vec<SourceComment>, events: Vec<PyEvent>) -> Vec<Prompt> {
    match parse_prompts_py(src, "p.py", Ok(PyModule { comments, events })) {
        ParseResult::ParseResultSuccess(s) => s.prompts,
        ParseResult::ParseResultError(e) => panic!("Parsing failed: {}", e.error),
    }
}

fn decl(start: u32, name: &str, init: Option<TsLiteral>) -> TsEvent {
    TsEvent::Enter(start, TsNodeKind::Declaration(vec![TsDeclarator { name: name.to_string(), init }]))
}

fn plain(src: &str, text: &str, from: u32) -> TsLiteral {
    TsLiteral { span: span_of(src, text, from), expressions: vec![] }
}

fn line_comment(src: &str, from: u32) -> SourceComment {
    SourceComment { start: at(src, "//", from), text: " @prompt".to_string() }
}

#[test]
fn identifier_heuristic_without_comments() {
    let src = "let userPrompt = \"x\"";
    let ps = ts_prompts(src, vec![], vec![decl(0, "userPrompt", Some(plain(src, "\"x\"", 0)))]);
    assert_eq!(ps.len(), 1);
    assert_eq!(ps[0].exp, "\"x\"");
    let src = "let msg = \"x\"";
    let ps = ts_prompts(src, vec![], vec![decl(0, "msg", Some(plain(src, "\"x\"", 0)))]);
    assert_eq!(ps.len(), 0);
}

#[test]
fn annotation_reaches_later_assignment() {
    let src = "// @prompt\nlet msg;\nmsg = \"x\";\n";
    let d = at(src, "let", 0);
    let a = at(src, "msg =", 0);
    let events = vec![
        decl(d, "msg", None),
        TsEvent::Enter(a, TsNodeKind::Assignment("msg".to_string(), plain(src, "\"x\"", a))),
    ];
    let ps = ts_prompts(src, vec![line_comment(src, 0)], events);
    assert_eq!(ps.len(), 1);
    assert_eq!(ps[0].span.outer, span_of(src, "\"x\"", 0));
}

#[test]
fn annotation_spent_on_unrelated_statement() {
    let src = "// @prompt\n\n\nconst hello = `Hello, world!`;\n\n// @prompt\nnope()\n\nconst world = \"Hello!\";\n";
    let second = at(src, "// @prompt", 1);
    let world = at(src, "const world", 0);
    let events = vec![
        decl(at(src, "const hello", 0), "hello", Some(plain(src, "`Hello, world!`", 0))),
        TsEvent::Enter(at(src, "nope", 0), TsNodeKind::Other),
        decl(world, "world", Some(plain(src, "\"Hello!\"", world))),
    ];
    let ps = ts_prompts(src, vec![line_comment(src, 0), line_comment(src, second)], events);
    assert_eq!(ps.len(), 1);
    assert_eq!(ps[0].exp, "`Hello, world!`");
}

#[test]
fn disqualified_comment_disarms_earlier_annotation() {
    let src = "// @prompt\n// @prompting\nconst hello = \"x\";\n";
    let comments = vec![
        line_comment(src, 0),
        SourceComment { start: at(src, "// @prompting", 0), text: " @prompting".to_string() },
    ];
    let d = at(src, "const", 0);
    let ps = ts_prompts(src, comments, vec![decl(d, "hello", Some(plain(src, "\"x\"", d)))]);
    assert_eq!(ps.len(), 0);
}

#[test]
fn scope_isolation_between_sibling_functions() {
    let src = "function a() {\n  // @prompt\n  let msg;\n}\nfunction b() {\n  msg = \"x\";\n}\n";
    let fa = at(src, "function a", 0);
    let fb = at(src, "function b", 0);
    let a = at(src, "msg =", 0);
    let events = vec![
        TsEvent::Enter(fa, TsNodeKind::Function),
        decl(at(src, "let", 0), "msg", None),
        TsEvent::LeaveFunction,
        TsEvent::Enter(fb, TsNodeKind::Function),
        TsEvent::Enter(a, TsNodeKind::Assignment("msg".to_string(), plain(src, "\"x\"", a))),
        TsEvent::LeaveFunction,
    ];
    assert_eq!(ts_prompts(src, vec![line_comment(src, 0)], events).len(), 0);
}

#[test]
fn annotation_in_enclosing_scope_is_shared() {
    let src = "// @prompt\nlet msg;\nfunction a() {}\nfunction b() {\n  msg = \"x\";\n}\n";
    let a = at(src, "msg =", 0);
    let events = vec![
        decl(at(src, "let", 0), "msg", None),
        TsEvent::Enter(at(src, "function a", 0), TsNodeKind::Function),
        TsEvent::LeaveFunction,
        TsEvent::Enter(at(src, "function b", 0), TsNodeKind::Function),
        TsEvent::Enter(a, TsNodeKind::Assignment("msg".to_string(), plain(src, "\"x\"", a))),
        TsEvent::LeaveFunction,
    ];
    assert_eq!(ts_prompts(src, vec![line_comment(src, 0)], events).len(), 1);
}

#[test]
fn unbalanced_leave_keeps_root_scope() {
    let src = "// @prompt\nlet msg;\n}\nmsg = \"x\";\n";
    let a = at(src, "msg =", 0);
    let events = vec![
        decl(at(src, "let", 0), "msg", None),
        TsEvent::LeaveFunction,
        TsEvent::Enter(a, TsNodeKind::Assignment("msg".to_string(), plain(src, "\"x\"", a))),
    ];
    assert_eq!(ts_prompts(src, vec![line_comment(src, 0)], events).len(), 1);
}

fn py_lit(src: &str, text: &str, from: u32) -> PyLiteral {
    PyLiteral { span: span_of(src, text, from), interpolations: vec![] }
}

fn hash_comment(src: &str, from: u32) -> SourceComment {
    SourceComment { start: at(src, "#", from), text: "# @prompt".to_string() }
}

#[test]
fn destructuring_pairs_each_target_with_its_literal() {
    let src = "# @prompt\nhello, world = \"Hello\", \"World\"\n";
    let start = at(src, "hello", 0);
    let targets = vec![PyTarget::Unpack(vec![Some("hello".to_string()), Some("world".to_string())])];
    let value = PyValue::Sequence(vec![Some(py_lit(src, "\"Hello\"", 0)), Some(py_lit(src, "\"World\"", 0))]);
    let ps = py_prompts(src, vec![hash_comment(src, 0)], vec![PyEvent::Stmt(start, PyStmtKind::Assign(targets, value))]);
    assert_eq!(ps.len(), 2);
    assert_eq!(ps[0].exp, "\"Hello\"");
    assert_eq!(ps[0].span.outer, span_of(src, "\"Hello\"", 0));
    assert_eq!(ps[1].exp, "\"World\"");
    assert_eq!(ps[1].span.outer, span_of(src, "\"World\"", 0));
}

#[test]
fn destructuring_without_matching_value_marks_each_target() {
    let src = "# @prompt\na, b = get()\nb = \"x\"\n";
    let targets = vec![PyTarget::Unpack(vec![Some("a".to_string()), Some("b".to_string())])];
    let second = at(src, "b = \"x\"", 0);
    let events = vec![
        PyEvent::Stmt(at(src, "a, b", 0), PyStmtKind::Assign(targets, PyValue::Other)),
        PyEvent::Stmt(
            second,
            PyStmtKind::Assign(vec![PyTarget::Name("b".to_string())], PyValue::Literal(py_lit(src, "\"x\"", second))),
        ),
    ];
    assert_eq!(py_prompts(src, vec![hash_comment(src, 0)], events).len(), 1);
}

#[test]
fn destructuring_with_short_value_marks_the_rest() {
    let src = "# @prompt\na, b, c = \"x\", \"y\"\nc = \"z\"\n";
    let targets = vec![PyTarget::Unpack(vec![Some("a".to_string()), Some("b".to_string()), Some("c".to_string())])];
    let value = PyValue::Sequence(vec![Some(py_lit(src, "\"x\"", 0)), Some(py_lit(src, "\"y\"", 0))]);
    let second = at(src, "c = \"z\"", 0);
    let events = vec![
        PyEvent::Stmt(at(src, "a, b", 0), PyStmtKind::Assign(targets, value)),
        PyEvent::Stmt(
            second,
            PyStmtKind::Assign(vec![PyTarget::Name("c".to_string())], PyValue::Literal(py_lit(src, "\"z\"", second))),
        ),
    ];
    let ps = py_prompts(src, vec![hash_comment(src, 0)], events);
    assert_eq!(ps.len(), 3);
    assert_eq!(ps[2].exp, "\"z\"");
}

#[test]
fn presence_policy_ignores_disqualified_comments() {
    let src = "# @prompt\n# @prompting\nhello = \"x\"\n";
    let comments = vec![
        hash_comment(src, 0),
        SourceComment { start: at(src, "# @prompting", 0), text: "# @prompting".to_string() },
    ];
    let start = at(src, "hello", 0);
    let events = vec![PyEvent::Stmt(
        start,
        PyStmtKind::Assign(vec![PyTarget::Name("hello".to_string())], PyValue::Literal(py_lit(src, "\"x\"", start))),
    )];
    assert_eq!(py_prompts(src, comments, events).len(), 1);
}

#[test]
fn interpolation_extraction() {
    let src = "const userPrompt = `Hello, ${user.name}!`;";
    let lit = TsLiteral { span: span_of(src, "`Hello, ${user.name}!`", 0), expressions: vec![span_of(src, "user.name", 0)] };
    let ps = ts_prompts(src, vec![], vec![decl(0, "userPrompt", Some(lit))]);
    assert_eq!(ps.len(), 1);
    assert_eq!(ps[0].vars.len(), 1);
    let v = &ps[0].vars[0];
    assert_eq!(text_at(src, v.span.inner), "user.name");
    assert_eq!(text_at(src, v.span.outer), "${user.name}");
    assert_eq!(v.exp, "${user.name}");
}

#[test]
fn interpolation_without_delimiters_is_not_widened() {
    let src = "(user)";
    let inner = span_of(src, "user", 0);
    let shape = shape_template_var(src, inner);
    assert_eq!(shape.outer, inner);
    assert_eq!(shape.inner, inner);
    let src = "${user}";
    let shape = shape_template_var(src, span_of(src, "user", 0));
    assert_eq!(shape.outer, Span { start: 0, end: 7 });
    assert_eq!(shape.inner, Span { start: 2, end: 6 });
    let src = "{user}";
    let shape = shape_template_var(src, span_of(src, "user", 0));
    assert_eq!(shape.outer, shape.inner);
}

#[test]
fn invalid_syntax_is_a_failure_with_a_message() {
    let src = "const invalid = `unclosed template";
    match parse_prompts_ts(src, "p.ts", Err(vec![])) {
        ParseResult::ParseResultError(e) => assert!(!e.error.is_empty()),
        ParseResult::ParseResultSuccess(_) => panic!("Expected ParseResultError"),
    }
    match parse_prompts_ts(src, "p.ts", Err(vec!["first".to_string(), "second".to_string()])) {
        ParseResult::ParseResultError(e) => assert_eq!(e.error, "first; second"),
        ParseResult::ParseResultSuccess(_) => panic!("Expected ParseResultError"),
    }
    match parse_prompts_py("x = \"unclosed", "p.py", Err(String::new())) {
        ParseResult::ParseResultError(e) => assert!(!e.error.is_empty()),
        ParseResult::ParseResultSuccess(_) => panic!("Expected ParseResultError"),
    }
}

#[test]
fn empty_tree_is_a_success_without_prompts() {
    match parse_prompts_ts("", "p.ts", Ok(TsTree { comments: vec![], events: vec![] })) {
        ParseResult::ParseResultSuccess(s) => assert!(s.prompts.is_empty()),
        ParseResult::ParseResultError(_) => panic!("Expected ParseResultSuccess"),
    }
}

#[test]
fn prompts_come_out_in_document_order() {
    let src = "const aPrompt = `${bPrompt = \"x\"}`, cPrompt = \"y\";";
    let a = span_of(src, "`${bPrompt = \"x\"}`", 0);
    let inner = span_of(src, "bPrompt = \"x\"", 0);
    let declarators = vec![
        TsDeclarator { name: "aPrompt".to_string(), init: Some(TsLiteral { span: a, expressions: vec![inner] }) },
        TsDeclarator { name: "cPrompt".to_string(), init: Some(plain(src, "\"y\"", 0)) },
    ];
    let events = vec![
        TsEvent::Enter(0, TsNodeKind::Declaration(declarators)),
        TsEvent::Enter(inner.start, TsNodeKind::Assignment("bPrompt".to_string(), plain(src, "\"x\"", 0))),
    ];
    let ps = ts_prompts(src, vec![], events);
    assert_eq!(ps.len(), 3);
    assert_eq!(ps[0].exp, "`${bPrompt = \"x\"}`");
    assert_eq!(ps[1].exp, "\"x\"");
    assert_eq!(ps[2].exp, "\"y\"");
    assert!(ps[0].span.outer.start < ps[1].span.outer.start);
    assert!(ps[1].span.outer.start < ps[2].span.outer.start);
}

#[test]
fn spans_are_byte_offsets() {
    let src = "const prompt = \"héllo ✓\";";
    let lit = plain(src, "\"héllo ✓\"", 0);
    let ps = ts_prompts(src, vec![], vec![decl(0, "prompt", Some(lit))]);
    assert_eq!(ps.len(), 1);
    assert_eq!(ps[0].span.outer, Span { start: 15, end: 27 });
    assert_eq!(ps[0].exp, "\"héllo ✓\"");
    assert_eq!(text_at(src, ps[0].span.outer), ps[0].exp);
}

#[test]
fn literal_outside_the_source_is_skipped() {
    let src = "const prompt = \"héllo\";";
    let inside_char = Span { start: 17, end: 18 };
    let past_end = Span { start: 15, end: 99 };
    let events = vec![
        decl(0, "prompt", Some(TsLiteral { span: inside_char, expressions: vec![] })),
        decl(0, "prompt", Some(TsLiteral { span: past_end, expressions: vec![] })),
    ];
    assert_eq!(ts_prompts(src, vec![], events).len(), 0);
}

#[test]
fn slicing_checks_bounds_and_boundaries() {
    let src = "aé b";
    assert_eq!(slice(src, Span { start: 0, end: 1 }), Some("a".to_string()));
    assert_eq!(slice(src, Span { start: 1, end: 3 }), Some("é".to_string()));
    assert_eq!(slice(src, Span { start: 1, end: 2 }), None);
    assert_eq!(slice(src, Span { start: 3, end: 2 }), None);
    assert_eq!(slice(src, Span { start: 0, end: 6 }), None);
    assert_eq!(slice(src, Span { start: 5, end: 5 }), Some(String::new()));
}

#[test]
fn string_literal_shapes() {
    let src = "x = rb'''abc'''";
    let shape = shape_string_like(src, span_of(src, "rb'''abc'''", 0));
    assert_eq!(text_at(src, shape.inner), "abc");
    let src = "x = f\"a\"";
    let shape = shape_string_like(src, span_of(src, "f\"a\"", 0));
    assert_eq!(text_at(src, shape.inner), "a");
    let src = "x = ''";
    let shape = shape_string_like(src, span_of(src, "''", 0));
    assert_eq!(shape.inner, Span { start: 5, end: 5 });
    let src = "x = \"\"\"\"\"\"";
    let shape = shape_string_like(src, span_of(src, "\"\"\"\"\"\"", 0));
    assert_eq!(shape.inner, Span { start: 7, end: 7 });
    let shape = delimited_shape(Span { start: 0, end: 0 });
    assert_eq!(shape.inner, Span { start: 1, end: 0 });
    let shape = delimited_shape(Span { start: u32::MAX, end: u32::MAX });
    assert_eq!(shape.inner, Span { start: u32::MAX, end: u32::MAX - 1 });
}

#[test]
fn grammar_follows_the_extension() {
    assert_eq!(grammar_of("example.py"), Grammar::Python);
    assert_eq!(grammar_of("example.pyi"), Grammar::Python);
    assert_eq!(grammar_of("EXAMPLE.PY"), Grammar::Python);
    assert_eq!(grammar_of("dir/Stub.PyI"), Grammar::Python);
    assert_eq!(grammar_of("example.ts"), Grammar::Ecma);
    assert_eq!(grammar_of("example.pyc"), Grammar::Ecma);
    assert_eq!(grammar_of("py"), Grammar::Ecma);
    assert_eq!(grammar_of(""), Grammar::Ecma);
    assert_eq!(grammar_of("example.mjs"), Grammar::Ecma);
}

#[test]
fn inline_annotation_marks_the_name_for_later_assignments() {
    let src = "let x = /* @prompt */ \"a\";\nx = \"b\";\n";
    let a = at(src, "x = \"b\"", 0);
    let comments = vec![SourceComment { start: at(src, "/*", 0), text: " @prompt ".to_string() }];
    let events = vec![
        decl(0, "x", Some(plain(src, "\"a\"", 0))),
        TsEvent::Enter(a, TsNodeKind::Assignment("x".to_string(), plain(src, "\"b\"", a))),
    ];
    let ps = ts_prompts(src, comments, events);
    assert_eq!(ps.len(), 2);
    assert_eq!(ps[0].exp, "\"a\"");
    assert_eq!(ps[1].exp, "\"b\"");
}

#[test]
fn one_literal_makes_one_prompt() {
    let src = "# @prompt\na = b = c_prompt = \"x\"\n";
    let start = at(src, "a =", 0);
    let targets = vec![
        PyTarget::Name("a".to_string()),
        PyTarget::Name("b".to_string()),
        PyTarget::Name("c_prompt".to_string()),
    ];
    let value = PyValue::Literal(py_lit(src, "\"x\"", 0));
    let ps = py_prompts(src, vec![hash_comment(src, 0)], vec![PyEvent::Stmt(start, PyStmtKind::Assign(targets, value))]);
    assert_eq!(ps.len(), 1);
    assert_eq!(ps[0].exp, "\"x\"");
    let src = "aPrompt = \"x\"";
    let lit = plain(src, "\"x\"", 0);
    let twice = vec![
        TsEvent::Enter(0, TsNodeKind::Assignment("aPrompt".to_string(), plain(src, "\"x\"", 0))),
        TsEvent::Enter(0, TsNodeKind::Assignment("aPrompt".to_string(), lit)),
    ];
    assert_eq!(ts_prompts(src, vec![], twice).len(), 1);
}

#[test]
fn fstring_inner_span_is_the_expression() {
    let src = "user_prompt = f\"{ name !r:>10}\"";
    let outer = span_of(src, "{ name !r:>10}", 0);
    let expression = span_of(src, "name", outer.start);
    let lit = PyLiteral {
        span: span_of(src, "f\"{ name !r:>10}\"", 0),
        interpolations: vec![PyInterpolation { span: outer, expression }],
    };
    let start = at(src, "user_prompt", 0);
    let events = vec![PyEvent::Stmt(
        start,
        PyStmtKind::Assign(vec![PyTarget::Name("user_prompt".to_string())], PyValue::Literal(lit)),
    )];
    let ps = py_prompts(src, vec![], events);
    assert_eq!(ps.len(), 1);
    let v = &ps[0].vars[0];
    assert_eq!(v.exp, "{ name !r:>10}");
    assert_eq!(v.span.outer, outer);
    assert_eq!(text_at(src, v.span.inner), "name");
}
