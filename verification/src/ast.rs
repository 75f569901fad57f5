//! The syntax tree of a template: the closed set of nodes and expressions
//! that every walk has to cover.
//!
//! A tree is an ordered sequence of [`Node`]s in document order. It is built
//! once, by a parser that lives outside this crate, and is only ever read
//! here.

use vstd::prelude::*;

verus! {

/// The syntax tree of a whole template, or of the body of one of its tags.
pub type Ast = Vec<Node>;

/// Whether the whitespace around a tag is trimmed. It carries nothing a walk
/// looks at and is handed through unchanged.
#[derive(Clone, Copy, Debug, PartialEq, Default)]
pub struct WS {
    /// `true` if the tag opens with `{%-`
    pub left: bool,
    /// `true` if the tag closes with `-%}`
    pub right: bool,
}

/// The arithmetic operators.
#[derive(Clone, Copy, Debug, PartialEq)]
pub enum MathOperator {
    /// `+`
    Add,
    /// `-`
    Sub,
    /// `*`
    Mul,
    /// `/`
    Div,
    /// `%`
    Modulo,
}

/// The comparison and boolean operators.
#[derive(Clone, Copy, Debug, PartialEq)]
pub enum LogicOperator {
    /// `>`
    Gt,
    /// `>=`
    Gte,
    /// `<`
    Lt,
    /// `<=`
    Lte,
    /// `==`
    Eq,
    /// `!=`
    NotEq,
    /// `and`
    And,
    /// `or`
    Or,
}

/// A call of a filter or of a global function.
#[derive(Debug, PartialEq)]
pub struct FunctionCall {
    /// The name of the function
    pub name: String,
    /// The arguments, each a name and its value, in the order they are walked
    pub args: Vec<(String, Expr)>,
}

/// An arithmetic expression.
#[derive(Debug, PartialEq)]
pub struct MathExpr {
    /// The left operand
    pub lhs: Box<Expr>,
    /// The right operand
    pub rhs: Box<Expr>,
    /// The operator between them
    pub operator: MathOperator,
}

/// A comparison or a boolean expression.
#[derive(Debug, PartialEq)]
pub struct LogicExpr {
    /// The left operand
    pub lhs: Box<Expr>,
    /// The right operand
    pub rhs: Box<Expr>,
    /// The operator between them
    pub operator: LogicOperator,
}

/// A concatenation with `~`.
#[derive(Debug, PartialEq)]
pub struct StringConcat {
    /// The parts, left to right
    pub values: Vec<ExprVal>,
}

/// A containment check, `needle in haystack`.
#[derive(Debug, PartialEq)]
pub struct In {
    /// The needle
    pub lhs: Box<Expr>,
    /// The haystack
    pub rhs: Box<Expr>,
    /// `true` for `not in`
    pub negated: bool,
}

/// What an expression evaluates, before its filters are applied.
#[derive(Debug, PartialEq)]
pub enum ExprVal {
    /// A string literal
    String(String),
    /// An integer literal
    Int(i64),
    /// A floating-point literal, held as the bits of its IEEE 754 binary64 form
    Float(u64),
    /// A boolean literal
    Bool(bool),
    /// A reference to a name
    Ident(String),
    /// An arithmetic expression
    Math(MathExpr),
    /// A comparison or a boolean expression
    Logic(LogicExpr),
    /// A test, `name is odd`
    Test(Test),
    /// A call of a macro
    MacroCall(MacroCall),
    /// A call of a global function
    FunctionCall(FunctionCall),
    /// An array literal; its elements may carry filters
    Array(Vec<Expr>),
    /// A concatenation with `~`
    StringConcat(StringConcat),
    /// A containment check
    In(In),
}

/// A value, possibly negated, followed by the filters applied to it from
/// left to right.
#[derive(Debug, PartialEq)]
pub struct Expr {
    /// The value the expression starts from
    pub val: ExprVal,
    /// `true` if the expression is preceded by `not`
    pub negated: bool,
    /// The filters applied to the value, left to right
    pub filters: Vec<FunctionCall>,
}

/// A test, `name is odd` or `name is divisibleby(2)`.
#[derive(Debug, PartialEq)]
pub struct Test {
    /// The name of the variable under test
    pub ident: String,
    /// `true` for `is not`
    pub negated: bool,
    /// The name of the test
    pub name: String,
    /// The arguments given to the test
    pub args: Vec<Expr>,
}

/// A `{% filter name(..) %}...{% endfilter %}` section.
#[derive(Debug, PartialEq)]
pub struct FilterSection {
    /// The filter applied to the body
    pub filter: FunctionCall,
    /// The body
    pub body: Vec<Node>,
}

/// An assignment, `{% set key = value %}`.
#[derive(Debug, PartialEq)]
pub struct SetTag {
    /// The name that is assigned to
    pub key: String,
    /// The value that is assigned
    pub value: Expr,
    /// `true` for `set_global`
    pub global: bool,
}

/// A call of a macro in a namespace, `macros::input(..)`.
#[derive(Debug, PartialEq)]
pub struct MacroCall {
    /// The namespace the macro was imported under
    pub namespace: String,
    /// The name of the macro
    pub name: String,
    /// The arguments, each a name and its value, in the order they are walked
    pub args: Vec<(String, Expr)>,
}

/// The definition of a macro.
#[derive(Debug, PartialEq)]
pub struct MacroDefinition {
    /// The name of the macro
    pub name: String,
    /// The parameters, each a name and its default value if it has one, in
    /// the order they are walked
    pub args: Vec<(String, Option<Expr>)>,
    /// The body
    pub body: Vec<Node>,
}

/// A `{% block name %}...{% endblock %}`.
#[derive(Debug, PartialEq)]
pub struct Block {
    /// The name of the block
    pub name: String,
    /// The body
    pub body: Vec<Node>,
}

/// A `{% for value in container %}...{% else %}...{% endfor %}`.
#[derive(Debug, PartialEq)]
pub struct Forloop {
    /// The name bound to the key, when iterating over key and value
    pub key: Option<String>,
    /// The name bound to the value
    pub value: String,
    /// The expression that is iterated over
    pub container: Expr,
    /// The body of the loop
    pub body: Vec<Node>,
    /// The body rendered when the container is empty
    pub empty_body: Option<Vec<Node>>,
}

/// An `{% if %}` with its `{% elif %}` and `{% else %}` branches.
#[derive(Debug, PartialEq)]
pub struct If {
    /// The branches with a condition: the first is the `if`, the others are
    /// the `elif`s
    pub conditions: Vec<(WS, Expr, Vec<Node>)>,
    /// The `else` branch
    pub otherwise: Option<(WS, Vec<Node>)>,
}

/// One statement-level construct of a template.
#[derive(Debug, PartialEq)]
pub enum Node {
    /// A `{{ super() }}` in a block
    Super,
    /// Literal text
    Text(String),
    /// An interpolation, `{{ expr }}`
    VariableBlock(WS, Expr),
    /// A `{% macro name(..) %}...{% endmacro %}`
    MacroDefinition(WS, MacroDefinition, WS),
    /// An `{% extends "parent.html" %}` with the name of the parent
    Extends(WS, String),
    /// An `{% include "a.html" %}` with the candidate names and whether a
    /// missing template is ignored
    Include(WS, Vec<String>, bool),
    /// An `{% import "macros.html" as macros %}` with the path and the
    /// namespace
    ImportMacro(WS, String, String),
    /// A `{% set key = value %}`
    SetTag(WS, SetTag),
    /// The text between `{% raw %}` and `{% endraw %}`
    Raw(WS, String, WS),
    /// A `{% filter name(..) %}...{% endfilter %}`
    FilterSection(WS, FilterSection, WS),
    /// A `{% block name %}...{% endblock %}`
    Block(WS, Block, WS),
    /// A `{% for value in container %}...{% endfor %}`
    Forloop(WS, Forloop, WS),
    /// An `{% if %}...{% endif %}`; the markers of its branches are in the
    /// [`If`] itself
    If(If, WS),
    /// A `{% break %}`
    Break(WS),
    /// A `{% continue %}`
    Continue(WS),
    /// A `{# comment #}` with its text
    Comment(WS, String),
}

/// Whether `node` is a node of the tree `nodes`: one of the sequence, or one
/// in the body of one of them, however deep.
pub open spec fn tree_has(nodes: Seq<Node>, node: Node) -> bool
    decreases nodes,
{
    if nodes.len() == 0 {
        false
    } else {
        nodes[0] == node || node_has(nodes[0], node) || tree_has(nodes.skip(1), node)
    }
}

/// Whether `node` is a node of an optional body.
pub open spec fn body_has(body: Option<Vec<Node>>, node: Node) -> bool
    decreases body,
{
    match body {
        Some(nodes) => tree_has(nodes@, node),
        None => false,
    }
}

/// Whether `node` lies in a body of `parent`, however deep.
pub open spec fn node_has(parent: Node, node: Node) -> bool
    decreases parent,
{
    match parent {
        Node::MacroDefinition(_, definition, _) => tree_has(definition.body@, node),
        Node::FilterSection(_, section, _) => tree_has(section.body@, node),
        Node::Block(_, block, _) => tree_has(block.body@, node),
        Node::Forloop(_, forloop, _) => tree_has(forloop.body@, node) || body_has(
            forloop.empty_body,
            node,
        ),
        Node::If(if_, _) => branches_have(if_.conditions@, node) || match if_.otherwise {
            Some(otherwise) => tree_has(otherwise.1@, node),
            None => false,
        },
        _ => false,
    }
}

/// Whether `node` lies in the body of one of the branches of an `if`.
pub open spec fn branches_have(branches: Seq<(WS, Expr, Vec<Node>)>, node: Node) -> bool
    decreases branches,
{
    if branches.len() == 0 {
        false
    } else {
        tree_has(branches[0].2@, node) || branches_have(branches.skip(1), node)
    }
}

} // verus!
