//! The observing flavor of visitor: a visitor that is walked over a tree
//! without being changed by it.
//!
//! Such a visitor has one hook, [`Visitor::visit`], which the walk calls at
//! every stop. The hook can do no more than say whether the walk goes on below
//! the stop. A walk with an observer is a walk with a visitor that has
//! nothing to accumulate, and goes through the same stops in the same order.

use crate::ast::{
    Ast, Block, Expr, ExprVal, FilterSection, Forloop, FunctionCall, If, In, LogicExpr, MacroCall,
    MacroDefinition, MathExpr, SetTag, StringConcat, Test, WS,
};
use crate::visit::{Flow, Visit};
use crate::visitor_mut::{
    visit_array_expr_val_mut, visit_ast_mut, visit_block_mut, visit_bool_expr_val_mut,
    visit_break_mut, visit_comment_mut, visit_continue_mut, visit_else_if_expr_mut,
    visit_expr_mut, visit_expr_val_mut, visit_extends_mut, visit_filter_section_mut,
    visit_float_expr_val_mut, visit_forloop_expr_mut, visit_forloop_mut, visit_function_call_mut,
    visit_ident_expr_val_mut, visit_if_expr_mut, visit_if_mut, visit_import_macro_mut,
    visit_in_expr_val_mut, visit_include_mut, visit_int_expr_val_mut, visit_logic_expr_val_mut,
    visit_macro_call_mut, visit_macro_definition_mut, visit_math_expr_val_mut, visit_raw_mut,
    visit_set_mut, visit_string_concat_expr_val_mut, visit_string_expr_val_mut, visit_super_mut,
    visit_test_expr_val_mut, visit_text_mut, visit_variable_block_mut,
    walk_mut, VisitorMut,
};
use vstd::prelude::*;

verus! {

/// A visitor that is not changed by a walk.
pub trait Visitor: Sized {
    /// Whether the walk goes on below `visit` after the hook was called for
    /// it.
    spec fn flow(&self, visit: Visit<'_>) -> Flow;

    /// The hook: called by the walk at every stop, before anything below it.
    fn visit(&self, visit: Visit<'_>) -> (flow: Flow)
        ensures
            flow == self.flow(visit),
    ;
}

/// An observer, taken as a visitor that accumulates nothing: its state is
/// the observer itself, which no hook changes.
struct Watch<'a, V: Visitor> {
    visitor: &'a V,
}

impl<'a, T: Visitor> VisitorMut for Watch<'a, T> {
    type State = T;

    closed spec fn state(&self) -> T {
        *self.visitor
    }

    open spec fn after(state: T, visit: Visit<'_>) -> T {
        state
    }

    open spec fn flow(state: T, visit: Visit<'_>) -> Flow {
        state.flow(visit)
    }

    fn visit_mut(&mut self, visit: Visit<'_>) -> (flow: Flow) {
        self.visitor.visit(visit)
    }
}

/// Enters `visit`: calls the hook for it and, if the hook says so, walks
/// everything below it in document order.
pub fn walk<V: Visitor>(visitor: &V, visit: Visit<'_>) {
    walk_mut(&mut Watch { visitor }, visit);
}

/// Walks below a sequence of nodes: enters each node in order, at the stop
/// of its kind.
pub fn visit_ast<V: Visitor>(visitor: &V, ast: &Ast) {
    visit_ast_mut(&mut Watch { visitor }, ast);
}

/// Does nothing: nothing lies below a `{{ super() }}`.
pub fn visit_super<V: Visitor>(visitor: &V) {
    visit_super_mut(&mut Watch { visitor });
}

/// Does nothing: nothing lies below literal text.
pub fn visit_text<V: Visitor>(visitor: &V, text: &str) {
    visit_text_mut(&mut Watch { visitor }, text);
}

/// Walks below an interpolation: enters its expression.
pub fn visit_variable_block<V: Visitor>(visitor: &V, ws: &WS, expr: &Expr) {
    visit_variable_block_mut(&mut Watch { visitor }, ws, expr);
}

/// Walks below the definition of a macro: enters the default value of each
/// parameter that has one, in order, then the body.
pub fn visit_macro_definition<V: Visitor>(
    visitor: &V,
    left_ws: &WS,
    macro_definition: &MacroDefinition,
    right_ws: &WS,
) {
    visit_macro_definition_mut(&mut Watch { visitor }, left_ws, macro_definition, right_ws);
}

/// Does nothing: nothing lies below an `{% extends %}`.
pub fn visit_extends<V: Visitor>(visitor: &V, ws: &WS, content: &str) {
    visit_extends_mut(&mut Watch { visitor }, ws, content);
}

/// Does nothing: nothing lies below an `{% include %}`.
pub fn visit_include<V: Visitor>(
    visitor: &V,
    ws: &WS,
    includes: &[String],
    ignore_missing: bool,
) {
    visit_include_mut(&mut Watch { visitor }, ws, includes, ignore_missing);
}

/// Does nothing: nothing lies below an `{% import %}`.
pub fn visit_import_macro<V: Visitor>(visitor: &V, ws: &WS, path: &str, name: &str) {
    visit_import_macro_mut(&mut Watch { visitor }, ws, path, name);
}

/// Walks below a `{% set %}`: enters the value that is assigned.
pub fn visit_set<V: Visitor>(visitor: &V, ws: &WS, set: &SetTag) {
    visit_set_mut(&mut Watch { visitor }, ws, set);
}

/// Does nothing: nothing lies below a `{% raw %}`.
pub fn visit_raw<V: Visitor>(visitor: &V, left_ws: &WS, content: &str, right_ws: &WS) {
    visit_raw_mut(&mut Watch { visitor }, left_ws, content, right_ws);
}

/// Walks below a `{% filter %}` section: enters the call of the filter, then
/// the body.
pub fn visit_filter_section<V: Visitor>(
    visitor: &V,
    left_ws: &WS,
    filter_section: &FilterSection,
    right_ws: &WS,
) {
    visit_filter_section_mut(&mut Watch { visitor }, left_ws, filter_section, right_ws);
}

/// Walks below a `{% block %}`: enters its body.
pub fn visit_block<V: Visitor>(visitor: &V, left_ws: &WS, block: &Block, right_ws: &WS) {
    visit_block_mut(&mut Watch { visitor }, left_ws, block, right_ws);
}

/// Walks below a `{% for %}`: enters the container at the stop for the
/// container of a loop, then the body, then the body for an empty container
/// if there is one.
pub fn visit_forloop<V: Visitor>(visitor: &V, left_ws: &WS, forloop: &Forloop, right_ws: &WS) {
    visit_forloop_mut(&mut Watch { visitor }, left_ws, forloop, right_ws);
}

/// Walks below the container of a `for`: enters it as an expression.
pub fn visit_forloop_expr<V: Visitor>(visitor: &V, expr: &Expr) {
    visit_forloop_expr_mut(&mut Watch { visitor }, expr);
}

/// Walks below an `{% if %}`: for each branch with a condition, in order,
/// enters the condition, at the stop for the condition of an `if` for the
/// first branch and at the stop for the condition of an `elif` for the
/// others, and then the body of the branch; at the end enters the body of
/// the `else` branch if there is one.
pub fn visit_if<V: Visitor>(visitor: &V, if_: &If, ws: &WS) {
    visit_if_mut(&mut Watch { visitor }, if_, ws);
}

/// Walks below the condition of an `if`: enters it as an expression.
pub fn visit_if_expr<V: Visitor>(visitor: &V, expr: &Expr) {
    visit_if_expr_mut(&mut Watch { visitor }, expr);
}

/// Walks below the condition of an `elif`: enters it as an expression.
pub fn visit_else_if_expr<V: Visitor>(visitor: &V, expr: &Expr) {
    visit_else_if_expr_mut(&mut Watch { visitor }, expr);
}

/// Does nothing: nothing lies below a `{% break %}`.
pub fn visit_break<V: Visitor>(visitor: &V, ws: &WS) {
    visit_break_mut(&mut Watch { visitor }, ws);
}

/// Does nothing: nothing lies below a `{% continue %}`.
pub fn visit_continue<V: Visitor>(visitor: &V, ws: &WS) {
    visit_continue_mut(&mut Watch { visitor }, ws);
}

/// Does nothing: nothing lies below a comment.
pub fn visit_comment<V: Visitor>(visitor: &V, ws: &WS, content: &str) {
    visit_comment_mut(&mut Watch { visitor }, ws, content);
}

/// Walks below an expression: enters its value, then the calls of its
/// filters from left to right.
pub fn visit_expr<V: Visitor>(visitor: &V, expr: &Expr) {
    visit_expr_mut(&mut Watch { visitor }, expr);
}

/// Walks below the value of an expression: enters it at the stop of the kind
/// that it is of.
pub fn visit_expr_val<V: Visitor>(visitor: &V, expr_val: &ExprVal) {
    visit_expr_val_mut(&mut Watch { visitor }, expr_val);
}

/// Does nothing: nothing lies below a string literal.
pub fn visit_string_expr_val<V: Visitor>(visitor: &V, s: &str) {
    visit_string_expr_val_mut(&mut Watch { visitor }, s);
}

/// Does nothing: nothing lies below an integer literal.
pub fn visit_int_expr_val<V: Visitor>(visitor: &V, i: i64) {
    visit_int_expr_val_mut(&mut Watch { visitor }, i);
}

/// Does nothing: nothing lies below a floating-point literal.
pub fn visit_float_expr_val<V: Visitor>(visitor: &V, bits: u64) {
    visit_float_expr_val_mut(&mut Watch { visitor }, bits);
}

/// Does nothing: nothing lies below a boolean literal.
pub fn visit_bool_expr_val<V: Visitor>(visitor: &V, b: bool) {
    visit_bool_expr_val_mut(&mut Watch { visitor }, b);
}

/// Does nothing: nothing lies below a reference to a name.
pub fn visit_ident_expr_val<V: Visitor>(visitor: &V, ident: &str) {
    visit_ident_expr_val_mut(&mut Watch { visitor }, ident);
}

/// Walks below an arithmetic expression: enters the left operand, then the
/// right one.
pub fn visit_math_expr_val<V: Visitor>(visitor: &V, math_expr: &MathExpr) {
    visit_math_expr_val_mut(&mut Watch { visitor }, math_expr);
}

/// Walks below a comparison or a boolean expression: enters the left operand,
/// then the right one.
pub fn visit_logic_expr_val<V: Visitor>(visitor: &V, logic_expr: &LogicExpr) {
    visit_logic_expr_val_mut(&mut Watch { visitor }, logic_expr);
}

/// Walks below a test: enters its arguments in order.
pub fn visit_test_expr_val<V: Visitor>(visitor: &V, test: &Test) {
    visit_test_expr_val_mut(&mut Watch { visitor }, test);
}

/// Walks below an array literal: enters its elements in order.
pub fn visit_array_expr_val<V: Visitor>(visitor: &V, array: &Vec<Expr>) {
    visit_array_expr_val_mut(&mut Watch { visitor }, array);
}

/// Walks below a concatenation: enters its parts in order, each as a value.
pub fn visit_string_concat_expr_val<V: Visitor>(visitor: &V, string_concat: &StringConcat) {
    visit_string_concat_expr_val_mut(&mut Watch { visitor }, string_concat);
}

/// Walks below a call of a macro: enters the values of its arguments in
/// order.
pub fn visit_macro_call<V: Visitor>(visitor: &V, macro_call: &MacroCall) {
    visit_macro_call_mut(&mut Watch { visitor }, macro_call);
}

/// Walks below a call of a filter or of a global function: enters the values
/// of its arguments in order.
pub fn visit_function_call<V: Visitor>(visitor: &V, function_call: &FunctionCall) {
    visit_function_call_mut(&mut Watch { visitor }, function_call);
}

/// Walks below a containment check: enters the needle, then the haystack.
pub fn visit_in_expr_val<V: Visitor>(visitor: &V, in_: &In) {
    visit_in_expr_val_mut(&mut Watch { visitor }, in_);
}

} // verus!
