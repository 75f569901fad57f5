use hot_curry::ast::{
    Block, Expr, ExprVal, FilterSection, Forloop, FunctionCall, If, In, LogicExpr, LogicOperator,
    MacroCall, MacroDefinition, MathExpr, MathOperator, Node, SetTag, StringConcat, Test, WS,
};
use hot_curry::variables::TeraVariableVisitor;

fn ws(ws: &tera::ast::WS) -> WS {
    WS { left: ws.left, right: ws.right }
}

fn nodes(ast: &[tera::ast::Node]) -> Vec<Node> {
    ast.iter().map(node).collect()
}

fn args(args: &std::collections::HashMap<String, tera::ast::Expr>) -> Vec<(String, Expr)> {
    let mut args: Vec<(String, Expr)> =
        args.iter().map(|(name, value)| (name.clone(), expr(value))).collect();
    args.sort_by(|a, b| a.0.cmp(&b.0));
    args
}

fn function_call(call: &tera::ast::FunctionCall) -> FunctionCall {
    FunctionCall { name: call.name.clone(), args: args(&call.args) }
}

fn expr(e: &tera::ast::Expr) -> Expr {
    Expr {
        val: expr_val(&e.val),
        negated: e.negated,
        filters: e.filters.iter().map(function_call).collect(),
    }
}

fn expr_val(val: &tera::ast::ExprVal) -> ExprVal {
    match val {
        tera::ast::ExprVal::String(s) => ExprVal::String(s.clone()),
        tera::ast::ExprVal::Int(i) => ExprVal::Int(*i),
        tera::ast::ExprVal::Float(f) => ExprVal::Float(f.to_bits()),
        tera::ast::ExprVal::Bool(b) => ExprVal::Bool(*b),
        tera::ast::ExprVal::Ident(ident) => ExprVal::Ident(ident.clone()),
        tera::ast::ExprVal::Math(math) => ExprVal::Math(MathExpr {
            lhs: Box::new(expr(&math.lhs)),
            rhs: Box::new(expr(&math.rhs)),
            operator: match math.operator {
                tera::ast::MathOperator::Add => MathOperator::Add,
                tera::ast::MathOperator::Sub => MathOperator::Sub,
                tera::ast::MathOperator::Mul => MathOperator::Mul,
                tera::ast::MathOperator::Div => MathOperator::Div,
                tera::ast::MathOperator::Modulo => MathOperator::Modulo,
            },
        }),
        tera::ast::ExprVal::Logic(logic) => ExprVal::Logic(LogicExpr {
            lhs: Box::new(expr(&logic.lhs)),
            rhs: Box::new(expr(&logic.rhs)),
            operator: match logic.operator {
                tera::ast::LogicOperator::Gt => LogicOperator::Gt,
                tera::ast::LogicOperator::Gte => LogicOperator::Gte,
                tera::ast::LogicOperator::Lt => LogicOperator::Lt,
                tera::ast::LogicOperator::Lte => LogicOperator::Lte,
                tera::ast::LogicOperator::Eq => LogicOperator::Eq,
                tera::ast::LogicOperator::NotEq => LogicOperator::NotEq,
                tera::ast::LogicOperator::And => LogicOperator::And,
                tera::ast::LogicOperator::Or => LogicOperator::Or,
            },
        }),
        tera::ast::ExprVal::Test(test) => ExprVal::Test(Test {
            ident: test.ident.clone(),
            negated: test.negated,
            name: test.name.clone(),
            args: test.args.iter().map(expr).collect(),
        }),
        tera::ast::ExprVal::MacroCall(call) => ExprVal::MacroCall(MacroCall {
            namespace: call.namespace.clone(),
            name: call.name.clone(),
            args: args(&call.args),
        }),
        tera::ast::ExprVal::FunctionCall(call) => ExprVal::FunctionCall(function_call(call)),
        tera::ast::ExprVal::Array(array) => ExprVal::Array(array.iter().map(expr).collect()),
        tera::ast::ExprVal::StringConcat(concat) => ExprVal::StringConcat(StringConcat {
            values: concat.values.iter().map(expr_val).collect(),
        }),
        tera::ast::ExprVal::In(in_) => ExprVal::In(In {
            lhs: Box::new(expr(&in_.lhs)),
            rhs: Box::new(expr(&in_.rhs)),
            negated: in_.negated,
        }),
    }
}

fn node(n: &tera::ast::Node) -> Node {
    match n {
        tera::ast::Node::Super => Node::Super,
        tera::ast::Node::Text(text) => Node::Text(text.clone()),
        tera::ast::Node::VariableBlock(w, e) => Node::VariableBlock(ws(w), expr(e)),
        tera::ast::Node::MacroDefinition(l, definition, r) => {
            let mut params: Vec<(String, Option<Expr>)> = definition
                .args
                .iter()
                .map(|(name, default)| (name.clone(), default.as_ref().map(expr)))
                .collect();
            params.sort_by(|a, b| a.0.cmp(&b.0));
            Node::MacroDefinition(
                ws(l),
                MacroDefinition {
                    name: definition.name.clone(),
                    args: params,
                    body: nodes(&definition.body),
                },
                ws(r),
            )
        }
        tera::ast::Node::Extends(w, name) => Node::Extends(ws(w), name.clone()),
        tera::ast::Node::Include(w, names, ignore_missing) => {
            Node::Include(ws(w), names.clone(), *ignore_missing)
        }
        tera::ast::Node::ImportMacro(w, path, name) => {
            Node::ImportMacro(ws(w), path.clone(), name.clone())
        }
        tera::ast::Node::Set(w, set) => Node::SetTag(
            ws(w),
            SetTag { key: set.key.clone(), value: expr(&set.value), global: set.global },
        ),
        tera::ast::Node::Raw(l, text, r) => Node::Raw(ws(l), text.clone(), ws(r)),
        tera::ast::Node::FilterSection(l, section, r) => Node::FilterSection(
            ws(l),
            FilterSection { filter: function_call(&section.filter), body: nodes(&section.body) },
            ws(r),
        ),
        tera::ast::Node::Block(l, block, r) => {
            Node::Block(ws(l), Block { name: block.name.clone(), body: nodes(&block.body) }, ws(r))
        }
        tera::ast::Node::Forloop(l, forloop, r) => Node::Forloop(
            ws(l),
            Forloop {
                key: forloop.key.clone(),
                value: forloop.value.clone(),
                container: expr(&forloop.container),
                body: nodes(&forloop.body),
                empty_body: forloop.empty_body.as_ref().map(|body| nodes(body)),
            },
            ws(r),
        ),
        tera::ast::Node::If(if_, w) => Node::If(
            If {
                conditions: if_
                    .conditions
                    .iter()
                    .map(|(w, condition, body)| (ws(w), expr(condition), nodes(body)))
                    .collect(),
                otherwise: if_.otherwise.as_ref().map(|(w, body)| (ws(w), nodes(body))),
            },
            ws(w),
        ),
        tera::ast::Node::Break(w) => Node::Break(ws(w)),
        tera::ast::Node::Continue(w) => Node::Continue(ws(w)),
        tera::ast::Node::Comment(w, text) => Node::Comment(ws(w), text.clone()),
    }
}

fn classify(template: &str) -> (Vec<String>, Vec<String>, Vec<String>) {
    let template = tera::Template::new("", None, template).unwrap();
    let ast = nodes(&template.ast);
    let mut visitor = TeraVariableVisitor::new();
    visitor.visit_ast_mut(&ast);
    (visitor.sorted_idents(), visitor.sorted_iterable_idents(), visitor.sorted_optional_idents())
}

fn strings(names: &[&str]) -> Vec<String> {
    names.iter().map(|name| name.to_string()).collect()
}

#[test]
fn template_with_a_for_loop() {
    let (referenced, iterated, guarded) = classify("{% for x in items %}{{ x }}{% endfor %}");
    assert_eq!(referenced, strings(&["items", "x"]));
    assert_eq!(iterated, strings(&["items"]));
    assert_eq!(guarded, strings(&[]));
}

#[test]
fn template_with_if_and_elif() {
    let (referenced, iterated, guarded) =
        classify("{% if user %}{{ user }}{% elif admin %}{{ admin }}{% endif %}");
    assert_eq!(referenced, strings(&["admin", "user"]));
    assert_eq!(guarded, strings(&["admin", "user"]));
    assert_eq!(iterated, strings(&[]));
}

#[test]
fn empty_template() {
    let (referenced, iterated, guarded) = classify("");
    assert!(referenced.is_empty());
    assert!(iterated.is_empty());
    assert!(guarded.is_empty());
}

#[test]
fn template_with_a_filtered_interpolation() {
    let (referenced, iterated, guarded) = classify("{{ items | length }}");
    assert_eq!(referenced, strings(&["items"]));
    assert!(iterated.is_empty());
    assert!(guarded.is_empty());
}

#[test]
fn template_with_an_identifier_as_argument_of_a_filter() {
    let (referenced, iterated, guarded) = classify(r#"{{ "lit" | f(arg=y) }}"#);
    assert!(referenced.is_empty());
    assert!(iterated.is_empty());
    assert!(guarded.is_empty());
}

#[test]
fn template_of_a_whole_page() {
    let template = r#"{% extends "base.html" %}
{% import "macros.html" as macros %}
{% block content %}
  <h1>{{ title | upper }}</h1>
  {# a comment with {{ hidden }} #}
  {% raw %}{{ verbatim }}{% endraw %}
  {% if author %}<p>{{ author }}</p>{% elif editor %}<p>{{ editor }}</p>{% else %}{{ anonymous }}{% endif %}
  {% for job in jobs %}
    {{ job.title }} {{ loop.index }} {{ macros::input(label=job) }}
    {% for skill in job.skills %}{{ skill }}{% else %}{{ nothing }}{% endfor %}
  {% endfor %}
  {% set total = price * count %}
  {% filter upper %}{{ shout }}{% endfilter %}
  {{ a ~ b }} {{ c + d }} {{ [e, f] | length }} {{ g in h }} {{ range(end=n) }}
  {% if i is defined and j %}{{ k }}{% endif %}
{% endblock content %}
"#;
    let (referenced, iterated, guarded) = classify(template);
    assert_eq!(
        referenced,
        strings(&[
            "anonymous", "author", "editor", "job.skills", "job.title", "jobs", "k",
            "loop.index", "nothing", "shout", "skill", "title",
        ])
    );
    assert_eq!(iterated, strings(&["job.skills", "jobs"]));
    assert_eq!(guarded, strings(&["author", "editor"]));
}
