use hot_curry::ast::{
    Block, Expr, ExprVal, FilterSection, Forloop, FunctionCall, If, In, LogicExpr, LogicOperator,
    MacroCall, MacroDefinition, MathExpr, MathOperator, Node, SetTag, StringConcat, Test, WS,
};
use hot_curry::visit::{Flow, Visit};
use hot_curry::visitor::{visit_ast, visit_if, walk, Visitor};
use hot_curry::visitor_mut::{
    visit_ast_mut, visit_block_mut, visit_expr_mut, visit_expr_val_mut, visit_forloop_mut,
    visit_if_mut, visit_macro_definition_mut, visit_text_mut, walk_mut, VisitorMut,
};
use std::cell::RefCell;

fn label(visit: &Visit<'_>) -> String {
    match visit {
        Visit::Ast(nodes) => format!("ast[{}]", nodes.len()),
        Visit::Super => "super".to_string(),
        Visit::Text(text) => format!("text:{}", text),
        Visit::VariableBlock(_, _) => "variable_block".to_string(),
        Visit::MacroDefinition(_, definition, _) => format!("macro_definition:{}", definition.name),
        Visit::Extends(_, name) => format!("extends:{}", name),
        Visit::Include(_, names, ignore_missing) => {
            format!("include:{}:{}", names.join(","), ignore_missing)
        }
        Visit::ImportMacro(_, path, name) => format!("import_macro:{}:{}", path, name),
        Visit::SetTag(_, set) => format!("set:{}", set.key),
        Visit::Raw(_, text, _) => format!("raw:{}", text),
        Visit::FilterSection(_, _, _) => "filter_section".to_string(),
        Visit::Block(_, block, _) => format!("block:{}", block.name),
        Visit::Forloop(_, forloop, _) => format!("forloop:{}", forloop.value),
        Visit::ForloopExpr(_) => "forloop_expr".to_string(),
        Visit::If(_, _) => "if".to_string(),
        Visit::IfExpr(_) => "if_expr".to_string(),
        Visit::ElseIfExpr(_) => "else_if_expr".to_string(),
        Visit::Break(_) => "break".to_string(),
        Visit::Continue(_) => "continue".to_string(),
        Visit::Comment(_, text) => format!("comment:{}", text),
        Visit::Expr(_) => "expr".to_string(),
        Visit::ExprVal(_) => "expr_val".to_string(),
        Visit::StringExprVal(s) => format!("string:{}", s),
        Visit::IntExprVal(i) => format!("int:{}", i),
        Visit::FloatExprVal(bits) => format!("float:{}", f64::from_bits(*bits)),
        Visit::BoolExprVal(b) => format!("bool:{}", b),
        Visit::IdentExprVal(ident) => format!("ident:{}", ident),
        Visit::MathExprVal(_) => "math".to_string(),
        Visit::LogicExprVal(_) => "logic".to_string(),
        Visit::TestExprVal(test) => format!("test:{}", test.name),
        Visit::ArrayExprVal(array) => format!("array[{}]", array.len()),
        Visit::StringConcatExprVal(_) => "string_concat".to_string(),
        Visit::MacroCall(call) => format!("macro_call:{}::{}", call.namespace, call.name),
        Visit::FunctionCall(call) => format!("function_call:{}", call.name),
        Visit::InExprVal(_) => "in".to_string(),
    }
}

/// Writes down every stop it is called for, and tells the walk to skip what
/// lies below the stops whose label is in `pruned`.
struct Recorder {
    seen: Vec<String>,
    pruned: Vec<&'static str>,
}

impl Recorder {
    fn new() -> Self {
        Recorder { seen: Vec::new(), pruned: Vec::new() }
    }

    fn pruning(pruned: &[&'static str]) -> Self {
        Recorder { seen: Vec::new(), pruned: pruned.to_vec() }
    }
}

impl VisitorMut for Recorder {
    type State = ();

    fn state(&self) {}

    fn after(_state: (), _visit: Visit<'_>) {}

    fn flow(_state: (), _visit: Visit<'_>) -> Flow {
        Flow::Descend
    }

    fn visit_mut(&mut self, visit: Visit<'_>) -> Flow {
        let label = label(&visit);
        let flow = if self.pruned.contains(&label.as_str()) { Flow::Skip } else { Flow::Descend };
        self.seen.push(label);
        flow
    }
}

/// Writes down every stop it is called for without being changed itself.
struct Observer {
    seen: RefCell<Vec<String>>,
    pruned: Vec<&'static str>,
}

impl Visitor for Observer {
    fn flow(&self, _visit: Visit<'_>) -> Flow {
        Flow::Descend
    }

    fn visit(&self, visit: Visit<'_>) -> Flow {
        let label = label(&visit);
        let flow = if self.pruned.contains(&label.as_str()) { Flow::Skip } else { Flow::Descend };
        self.seen.borrow_mut().push(label);
        flow
    }
}

fn ws() -> WS {
    WS { left: false, right: false }
}

fn expr(val: ExprVal) -> Expr {
    Expr { val, negated: false, filters: vec![] }
}

fn ident(name: &str) -> Expr {
    expr(ExprVal::Ident(name.to_string()))
}

fn number(i: i64) -> Expr {
    expr(ExprVal::Int(i))
}

fn text(content: &str) -> Node {
    Node::Text(content.to_string())
}

fn call(name: &str, args: Vec<(&str, Expr)>) -> FunctionCall {
    FunctionCall {
        name: name.to_string(),
        args: args.into_iter().map(|(name, value)| (name.to_string(), value)).collect(),
    }
}

fn seen(recorder: &Recorder) -> Vec<&str> {
    recorder.seen.iter().map(|label| label.as_str()).collect()
}

#[test]
fn walk_enters_the_stop_and_then_everything_below_it() {
    let ast = vec![text("a"), Node::Super, text("b")];
    let mut recorder = Recorder::new();
    walk_mut(&mut recorder, Visit::Ast(&ast));
    assert_eq!(seen(&recorder), vec!["ast[3]", "text:a", "super", "text:b"]);
}

#[test]
fn visit_ast_mut_walks_below_the_sequence_only() {
    let ast = vec![text("a"), Node::Super, text("b")];
    let mut recorder = Recorder::new();
    visit_ast_mut(&mut recorder, &ast);
    assert_eq!(seen(&recorder), vec!["text:a", "super", "text:b"]);
}

#[test]
fn nodes_without_anything_below_them_are_stops_of_their_own_kind() {
    let ast = vec![
        Node::Extends(ws(), "base.html".to_string()),
        Node::Include(ws(), vec!["a.html".to_string(), "b.html".to_string()], true),
        Node::ImportMacro(ws(), "macros.html".to_string(), "macros".to_string()),
        Node::Raw(ws(), "{{ x }}".to_string(), ws()),
        Node::Break(ws()),
        Node::Continue(ws()),
        Node::Comment(ws(), "note".to_string()),
    ];
    let mut recorder = Recorder::new();
    visit_ast_mut(&mut recorder, &ast);
    assert_eq!(
        seen(&recorder),
        vec![
            "extends:base.html",
            "include:a.html,b.html:true",
            "import_macro:macros.html:macros",
            "raw:{{ x }}",
            "break",
            "continue",
            "comment:note",
        ]
    );
}

#[test]
fn expression_is_walked_value_first_then_filters_left_to_right() {
    // {{ x | f(a=y) | g }}
    let ast = vec![Node::VariableBlock(
        ws(),
        Expr {
            val: ExprVal::Ident("x".to_string()),
            negated: false,
            filters: vec![call("f", vec![("a", ident("y"))]), call("g", vec![])],
        },
    )];
    let mut recorder = Recorder::new();
    visit_ast_mut(&mut recorder, &ast);
    assert_eq!(
        seen(&recorder),
        vec![
            "variable_block",
            "expr",
            "expr_val",
            "ident:x",
            "function_call:f",
            "expr",
            "expr_val",
            "ident:y",
            "function_call:g",
        ]
    );
}

#[test]
fn if_is_walked_branch_by_branch_and_then_the_else() {
    let if_ = If {
        conditions: vec![
            (ws(), ident("a"), vec![text("1")]),
            (ws(), ident("b"), vec![text("2")]),
            (ws(), ident("c"), vec![]),
        ],
        otherwise: Some((ws(), vec![text("3")])),
    };
    let mut recorder = Recorder::new();
    visit_if_mut(&mut recorder, &if_, &ws());
    assert_eq!(
        seen(&recorder),
        vec![
            "if_expr",
            "expr",
            "expr_val",
            "ident:a",
            "ast[1]",
            "text:1",
            "else_if_expr",
            "expr",
            "expr_val",
            "ident:b",
            "ast[1]",
            "text:2",
            "else_if_expr",
            "expr",
            "expr_val",
            "ident:c",
            "ast[0]",
            "ast[1]",
            "text:3",
        ]
    );
}

#[test]
fn if_without_else_ends_with_its_last_branch() {
    let ast = vec![Node::If(
        If { conditions: vec![(ws(), ident("a"), vec![text("1")])], otherwise: None },
        ws(),
    )];
    let mut recorder = Recorder::new();
    visit_ast_mut(&mut recorder, &ast);
    assert_eq!(
        seen(&recorder),
        vec!["if", "if_expr", "expr", "expr_val", "ident:a", "ast[1]", "text:1"]
    );
}

#[test]
fn forloop_is_walked_container_body_and_empty_body() {
    let forloop = Forloop {
        key: Some("k".to_string()),
        value: "v".to_string(),
        container: ident("items"),
        body: vec![text("body")],
        empty_body: Some(vec![text("empty")]),
    };
    let mut recorder = Recorder::new();
    visit_forloop_mut(&mut recorder, &ws(), &forloop, &ws());
    assert_eq!(
        seen(&recorder),
        vec![
            "forloop_expr",
            "expr",
            "expr_val",
            "ident:items",
            "ast[1]",
            "text:body",
            "ast[1]",
            "text:empty",
        ]
    );
}

#[test]
fn forloop_without_empty_body_ends_with_its_body() {
    let ast = vec![Node::Forloop(
        ws(),
        Forloop {
            key: None,
            value: "v".to_string(),
            container: ident("items"),
            body: vec![],
            empty_body: None,
        },
        ws(),
    )];
    let mut recorder = Recorder::new();
    visit_ast_mut(&mut recorder, &ast);
    assert_eq!(
        seen(&recorder),
        vec!["forloop:v", "forloop_expr", "expr", "expr_val", "ident:items", "ast[0]"]
    );
}

#[test]
fn macro_definition_is_walked_defaults_first_then_body() {
    let definition = MacroDefinition {
        name: "input".to_string(),
        args: vec![
            ("label".to_string(), None),
            ("size".to_string(), Some(number(3))),
            ("kind".to_string(), Some(expr(ExprVal::String("text".to_string())))),
        ],
        body: vec![Node::Super],
    };
    let mut recorder = Recorder::new();
    visit_macro_definition_mut(&mut recorder, &ws(), &definition, &ws());
    assert_eq!(
        seen(&recorder),
        vec![
            "expr",
            "expr_val",
            "int:3",
            "expr",
            "expr_val",
            "string:text",
            "ast[1]",
            "super",
        ]
    );
}

#[test]
fn filter_section_set_and_block_are_walked() {
    let ast = vec![
        Node::FilterSection(
            ws(),
            FilterSection { filter: call("upper", vec![]), body: vec![text("t")] },
            ws(),
        ),
        Node::SetTag(
            ws(),
            SetTag { key: "total".to_string(), value: expr(ExprVal::Bool(true)), global: false },
        ),
        Node::Block(ws(), Block { name: "main".to_string(), body: vec![Node::Super] }, ws()),
    ];
    let mut recorder = Recorder::new();
    visit_ast_mut(&mut recorder, &ast);
    assert_eq!(
        seen(&recorder),
        vec![
            "filter_section",
            "function_call:upper",
            "ast[1]",
            "text:t",
            "set:total",
            "expr",
            "expr_val",
            "bool:true",
            "block:main",
            "ast[1]",
            "super",
        ]
    );
}

#[test]
fn operands_arguments_elements_and_parts_are_walked() {
    let math = ExprVal::Math(MathExpr {
        lhs: Box::new(ident("a")),
        rhs: Box::new(number(1)),
        operator: MathOperator::Add,
    });
    let logic = ExprVal::Logic(LogicExpr {
        lhs: Box::new(ident("b")),
        rhs: Box::new(expr(ExprVal::Float(1.5f64.to_bits()))),
        operator: LogicOperator::Gt,
    });
    let contained = ExprVal::In(In {
        lhs: Box::new(ident("c")),
        rhs: Box::new(ident("d")),
        negated: true,
    });
    let test = ExprVal::Test(Test {
        ident: "e".to_string(),
        negated: false,
        name: "divisibleby".to_string(),
        args: vec![number(2)],
    });
    let array = ExprVal::Array(vec![ident("f"), number(7)]);
    let concat = ExprVal::StringConcat(StringConcat {
        values: vec![ExprVal::String("s".to_string()), ExprVal::Ident("g".to_string())],
    });
    let macro_call = ExprVal::MacroCall(MacroCall {
        namespace: "macros".to_string(),
        name: "input".to_string(),
        args: vec![("label".to_string(), ident("h"))],
    });
    let function_call = ExprVal::FunctionCall(call("range", vec![("end", ident("i"))]));

    let cases: Vec<(ExprVal, Vec<&str>)> = vec![
        (
            math,
            vec!["math", "expr", "expr_val", "ident:a", "expr", "expr_val", "int:1"],
        ),
        (
            logic,
            vec!["logic", "expr", "expr_val", "ident:b", "expr", "expr_val", "float:1.5"],
        ),
        (
            contained,
            vec!["in", "expr", "expr_val", "ident:c", "expr", "expr_val", "ident:d"],
        ),
        (test, vec!["test:divisibleby", "expr", "expr_val", "int:2"]),
        (
            array,
            vec!["array[2]", "expr", "expr_val", "ident:f", "expr", "expr_val", "int:7"],
        ),
        (
            concat,
            vec!["string_concat", "expr_val", "string:s", "expr_val", "ident:g"],
        ),
        (
            macro_call,
            vec!["macro_call:macros::input", "expr", "expr_val", "ident:h"],
        ),
        (
            function_call,
            vec!["function_call:range", "expr", "expr_val", "ident:i"],
        ),
    ];
    for (val, expected) in cases {
        let mut recorder = Recorder::new();
        visit_expr_val_mut(&mut recorder, &val);
        assert_eq!(seen(&recorder), expected);
    }
}

#[test]
fn visit_expr_mut_enters_value_and_filters_but_not_the_expression_itself() {
    let e = Expr {
        val: ExprVal::Int(4),
        negated: true,
        filters: vec![call("abs", vec![])],
    };
    let mut recorder = Recorder::new();
    visit_expr_mut(&mut recorder, &e);
    assert_eq!(seen(&recorder), vec!["expr_val", "int:4", "function_call:abs"]);
}

#[test]
fn a_hook_that_skips_prunes_what_lies_below_and_nothing_else() {
    let ast = vec![
        Node::Block(ws(), Block { name: "skipped".to_string(), body: vec![text("in")] }, ws()),
        Node::Block(ws(), Block { name: "kept".to_string(), body: vec![text("out")] }, ws()),
    ];
    let mut recorder = Recorder::pruning(&["block:skipped"]);
    walk_mut(&mut recorder, Visit::Ast(&ast));
    assert_eq!(
        seen(&recorder),
        vec!["ast[2]", "block:skipped", "block:kept", "ast[1]", "text:out"]
    );
}

#[test]
fn a_hook_that_skips_the_root_ends_the_walk() {
    let ast = vec![text("a")];
    let mut recorder = Recorder::pruning(&["ast[1]"]);
    walk_mut(&mut recorder, Visit::Ast(&ast));
    assert_eq!(seen(&recorder), vec!["ast[1]"]);
}

#[test]
fn functions_for_stops_with_nothing_below_call_no_hook() {
    let mut recorder = Recorder::new();
    visit_text_mut(&mut recorder, "text");
    assert!(recorder.seen.is_empty());
}

#[test]
fn visit_block_mut_enters_the_body() {
    let block = Block { name: "main".to_string(), body: vec![text("t")] };
    let mut recorder = Recorder::new();
    visit_block_mut(&mut recorder, &ws(), &block, &ws());
    assert_eq!(seen(&recorder), vec!["ast[1]", "text:t"]);
}

#[test]
fn observer_is_walked_like_an_accumulator() {
    let ast = vec![
        Node::If(
            If {
                conditions: vec![(ws(), ident("a"), vec![text("1")])],
                otherwise: Some((ws(), vec![text("2")])),
            },
            ws(),
        ),
        text("3"),
    ];
    let observer = Observer { seen: RefCell::new(Vec::new()), pruned: vec![] };
    walk(&observer, Visit::Ast(&ast));
    let mut recorder = Recorder::new();
    walk_mut(&mut recorder, Visit::Ast(&ast));
    assert_eq!(*observer.seen.borrow(), recorder.seen);
    assert_eq!(
        *observer.seen.borrow(),
        vec![
            "ast[2]", "if", "if_expr", "expr", "expr_val", "ident:a", "ast[1]", "text:1",
            "ast[1]", "text:2", "text:3",
        ]
    );
}

#[test]
fn observer_prunes_below_a_skipped_stop() {
    let ast = vec![
        Node::If(
            If {
                conditions: vec![(ws(), ident("a"), vec![text("1")])],
                otherwise: Some((ws(), vec![text("2")])),
            },
            ws(),
        ),
        text("3"),
    ];
    let observer = Observer { seen: RefCell::new(Vec::new()), pruned: vec!["if_expr"] };
    visit_ast(&observer, &ast);
    assert_eq!(
        *observer.seen.borrow(),
        vec!["if", "if_expr", "ast[1]", "text:1", "ast[1]", "text:2", "text:3"]
    );
}

#[test]
fn observer_visit_if_walks_below_the_if() {
    let if_ = If { conditions: vec![(ws(), number(1), vec![])], otherwise: None };
    let observer = Observer { seen: RefCell::new(Vec::new()), pruned: vec![] };
    visit_if(&observer, &if_, &ws());
    assert_eq!(*observer.seen.borrow(), vec!["if_expr", "expr", "expr_val", "int:1", "ast[0]"]);
}
