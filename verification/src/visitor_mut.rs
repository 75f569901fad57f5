//! The accumulating flavor of visitor: a visitor that holds state of its own
//! and changes it as the walk goes on.
//!
//! A visitor has one hook, [`VisitorMut::visit_mut`], which the walk calls at
//! every stop with the [`Visit`] that says where it is. A visitor acts on the
//! kinds of stop it cares about and lets the others pass; for each stop it
//! says whether the walk goes on below it. [`walk`] says in which state a
//! walk leaves a visitor, and [`walk_mut`] is the walk itself. For each kind
//! of stop there is a function that walks what lies below a stop of that
//! kind, `visit_ast_mut` for a sequence of nodes, `visit_forloop_mut` for a
//! `for`, and so on.

use crate::ast::{
    Ast, Block, Expr, ExprVal, FilterSection, Forloop, FunctionCall, If, In, LogicExpr, MacroCall,
    MacroDefinition, MathExpr, Node, SetTag, StringConcat, Test, WS,
};
use crate::measure::{
    args_weight, branches_weight, calls_weight, defaults_weight, exprs_weight,
    lemma_below_weight, lemma_node_stop_weight, lemma_weight_positive, nodes_weight,
    total_weight, values_weight,
};
use crate::visit::{
    arg_stops, body_stops, branch_stops, call_stops, default_stops, expr_stops, node_stops,
    stops, stops_all, value_stops, Flow, Visit,
};
use vstd::prelude::*;

verus! {

/// A visitor that changes as it is walked over a tree.
///
/// [`Self::state`] is the state of a visitor as contracts see it. What the
/// one hook does is given by two functions of the state it is called in and
/// the stop it is called for: [`Self::after`] is the state it leaves,
/// [`Self::flow`] is what it returns.
pub trait VisitorMut {
    /// What the state of a visitor is, as contracts see it.
    type State;

    /// The state that the visitor is in.
    spec fn state(&self) -> Self::State;

    /// The state in which the hook leaves a visitor that it was called for
    /// `visit` in state `state`.
    spec fn after(state: Self::State, visit: Visit<'_>) -> Self::State;

    /// Whether the walk goes on below `visit` after the hook was called for
    /// it in state `state`.
    spec fn flow(state: Self::State, visit: Visit<'_>) -> Flow;

    /// The hook: called by the walk at every stop, before anything below it.
    fn visit_mut(&mut self, visit: Visit<'_>) -> (flow: Flow)
        ensures
            final(self).state() == Self::after(old(self).state(), visit),
            flow == Self::flow(old(self).state(), visit),
    ;
}

/// The state in which a walk that enters `visit` in state `state` leaves the
/// visitor: the hook is called for `visit`, and if it says so, everything
/// below `visit` is walked in document order.
pub open spec fn walk<V: VisitorMut + ?Sized>(state: V::State, visit: Visit<'_>) -> V::State
    decreases visit.weight(), 1int,
{
    let entered = V::after(state, visit);
    match V::flow(state, visit) {
        Flow::Descend => {
            proof {
                lemma_below_weight(visit);
            }
            walk_all::<V>(entered, visit.below())
        },
        Flow::Skip => entered,
    }
}

/// The state in which a walk that enters `visits` one after the other,
/// starting in state `state`, leaves the visitor.
pub open spec fn walk_all<V: VisitorMut + ?Sized>(state: V::State, visits: Seq<Visit<'_>>) -> V::State
    decreases total_weight(visits), 2int,
{
    if visits.len() == 0 {
        state
    } else {
        proof {
            lemma_weight_positive(visits[0]);
        }
        walk_all::<V>(walk::<V>(state, visits[0]), visits.skip(1))
    }
}

/// A walk through a sequence of stops enters the first and then goes through
/// the rest.
pub proof fn lemma_walk_all_cons<V: VisitorMut + ?Sized>(
    state: V::State,
    head: Visit<'_>,
    rest: Seq<Visit<'_>>,
)
    ensures
        walk_all::<V>(state, seq![head] + rest) == walk_all::<V>(walk::<V>(state, head), rest),
{
    assert((seq![head] + rest).skip(1) =~= rest);
}

/// A walk through one stop is a walk that enters it.
pub proof fn lemma_walk_all_one<V: VisitorMut + ?Sized>(state: V::State, visit: Visit<'_>)
    ensures
        walk_all::<V>(state, seq![visit]) == walk::<V>(state, visit),
{
    assert(seq![visit].skip(1) =~= Seq::<Visit<'_>>::empty());
    assert(walk_all::<V>(walk::<V>(state, visit), seq![visit].skip(1)) == walk::<V>(state, visit));
}

/// A walk through two stops enters the first and then the second.
pub proof fn lemma_walk_all_two<V: VisitorMut + ?Sized>(
    state: V::State,
    first: Visit<'_>,
    second: Visit<'_>,
)
    ensures
        walk_all::<V>(state, seq![first, second]) == walk::<V>(walk::<V>(state, first), second),
{
    assert(seq![first, second] =~= seq![first] + seq![second]);
    lemma_walk_all_cons::<V>(state, first, seq![second]);
    lemma_walk_all_one::<V>(walk::<V>(state, first), second);
}

/// A walk through two sequences of stops one after the other is a walk
/// through the first followed by a walk through the second.
pub proof fn lemma_walk_all_concat<V: VisitorMut + ?Sized>(
    state: V::State,
    front: Seq<Visit<'_>>,
    back: Seq<Visit<'_>>,
)
    ensures
        walk_all::<V>(state, front + back) == walk_all::<V>(walk_all::<V>(state, front), back),
    decreases front.len(),
{
    if front.len() == 0 {
        assert(front + back =~= back);
    } else {
        assert((front + back).skip(1) =~= front.skip(1) + back);
        lemma_walk_all_concat::<V>(walk::<V>(state, front[0]), front.skip(1), back);
    }
}

/// Whether the hook of `V` lets every walk go on below every stop.
pub open spec fn always_descends<V: VisitorMut + ?Sized>() -> bool {
    forall|state: V::State, visit: Visit<'_>| #[trigger] V::flow(state, visit) == Flow::Descend
}

/// The state in which the hook leaves a visitor that it was called for each
/// of `visits` in turn, starting in state `state`.
pub open spec fn pass<V: VisitorMut + ?Sized>(state: V::State, visits: Seq<Visit<'_>>) -> V::State
    decreases visits.len(),
{
    if visits.len() == 0 {
        state
    } else {
        pass::<V>(V::after(state, visits[0]), visits.skip(1))
    }
}

/// Calling the hook for two sequences of stops one after the other is the
/// same as calling it for the first and then for the second.
pub proof fn lemma_pass_concat<V: VisitorMut + ?Sized>(
    state: V::State,
    front: Seq<Visit<'_>>,
    back: Seq<Visit<'_>>,
)
    ensures
        pass::<V>(state, front + back) == pass::<V>(pass::<V>(state, front), back),
    decreases front.len(),
{
    if front.len() == 0 {
        assert(front + back =~= back);
    } else {
        assert((front + back).skip(1) =~= front.skip(1) + back);
        lemma_pass_concat::<V>(V::after(state, front[0]), front.skip(1), back);
    }
}

/// A hook that never tells the walk to skip is called for every stop at and
/// below the one the walk enters, in document order, and for nothing else.
pub proof fn lemma_walk_reaches_every_stop<V: VisitorMut + ?Sized>(state: V::State, visit: Visit<'_>)
    requires
        always_descends::<V>(),
    ensures
        walk::<V>(state, visit) == pass::<V>(state, stops(visit)),
    decreases visit.weight(), 1int,
{
    let entered = V::after(state, visit);
    let rest = stops_all(visit.below());
    lemma_below_weight(visit);
    lemma_walk_all_reaches_every_stop::<V>(entered, visit.below());
    assert((seq![visit] + rest).skip(1) =~= rest);
}

/// A hook that never tells the walk to skip is called for every stop at and
/// below the ones the walk enters, in document order, and for nothing else.
pub proof fn lemma_walk_all_reaches_every_stop<V: VisitorMut + ?Sized>(
    state: V::State,
    visits: Seq<Visit<'_>>,
)
    requires
        always_descends::<V>(),
    ensures
        walk_all::<V>(state, visits) == pass::<V>(state, stops_all(visits)),
    decreases total_weight(visits), 2int,
{
    if visits.len() > 0 {
        let entered = walk::<V>(state, visits[0]);
        lemma_weight_positive(visits[0]);
        lemma_walk_reaches_every_stop::<V>(state, visits[0]);
        lemma_walk_all_reaches_every_stop::<V>(entered, visits.skip(1));
        lemma_pass_concat::<V>(state, stops(visits[0]), stops_all(visits.skip(1)));
    }
}

/// A hook that tells the walk to skip keeps it from everything below the
/// stop: the visitor is left as the hook left it.
pub proof fn lemma_walk_skips<V: VisitorMut + ?Sized>(state: V::State, visit: Visit<'_>)
    requires
        V::flow(state, visit) == Flow::Skip,
    ensures
        walk::<V>(state, visit) == V::after(state, visit),
{
}

/// Enters `visit`: calls the hook for it and, if the hook says so, walks
/// everything below it in document order.
pub fn walk_mut<V: VisitorMut + ?Sized>(visitor: &mut V, visit: Visit<'_>)
    ensures
        final(visitor).state() == walk::<V>(old(visitor).state(), visit),
    decreases visit.weight(), 1int,
{
    match visitor.visit_mut(visit) {
        Flow::Skip => {},
        Flow::Descend => match visit {
            Visit::Ast(ast) => visit_ast_mut(visitor, ast),
            Visit::Super => visit_super_mut(visitor),
            Visit::Text(text) => visit_text_mut(visitor, text.as_str()),
            Visit::VariableBlock(ws, expr) => visit_variable_block_mut(visitor, ws, expr),
            Visit::MacroDefinition(left_ws, macro_definition, right_ws) => {
                visit_macro_definition_mut(visitor, left_ws, macro_definition, right_ws)
            },
            Visit::Extends(ws, content) => visit_extends_mut(visitor, ws, content.as_str()),
            Visit::Include(ws, includes, ignore_missing) => visit_include_mut(
                visitor,
                ws,
                includes.as_slice(),
                ignore_missing,
            ),
            Visit::ImportMacro(ws, path, name) => visit_import_macro_mut(
                visitor,
                ws,
                path.as_str(),
                name.as_str(),
            ),
            Visit::SetTag(ws, set) => visit_set_mut(visitor, ws, set),
            Visit::Raw(left_ws, content, right_ws) => visit_raw_mut(
                visitor,
                left_ws,
                content.as_str(),
                right_ws,
            ),
            Visit::FilterSection(left_ws, filter_section, right_ws) => visit_filter_section_mut(
                visitor,
                left_ws,
                filter_section,
                right_ws,
            ),
            Visit::Block(left_ws, block, right_ws) => visit_block_mut(
                visitor,
                left_ws,
                block,
                right_ws,
            ),
            Visit::Forloop(left_ws, forloop, right_ws) => visit_forloop_mut(
                visitor,
                left_ws,
                forloop,
                right_ws,
            ),
            Visit::ForloopExpr(expr) => visit_forloop_expr_mut(visitor, expr),
            Visit::If(if_, ws) => visit_if_mut(visitor, if_, ws),
            Visit::IfExpr(expr) => visit_if_expr_mut(visitor, expr),
            Visit::ElseIfExpr(expr) => visit_else_if_expr_mut(visitor, expr),
            Visit::Break(ws) => visit_break_mut(visitor, ws),
            Visit::Continue(ws) => visit_continue_mut(visitor, ws),
            Visit::Comment(ws, content) => visit_comment_mut(visitor, ws, content.as_str()),
            Visit::Expr(expr) => visit_expr_mut(visitor, expr),
            Visit::ExprVal(expr_val) => visit_expr_val_mut(visitor, expr_val),
            Visit::StringExprVal(s) => visit_string_expr_val_mut(visitor, s.as_str()),
            Visit::IntExprVal(i) => visit_int_expr_val_mut(visitor, i),
            Visit::FloatExprVal(bits) => visit_float_expr_val_mut(visitor, bits),
            Visit::BoolExprVal(b) => visit_bool_expr_val_mut(visitor, b),
            Visit::IdentExprVal(ident) => visit_ident_expr_val_mut(visitor, ident.as_str()),
            Visit::MathExprVal(math_expr) => visit_math_expr_val_mut(visitor, math_expr),
            Visit::LogicExprVal(logic_expr) => visit_logic_expr_val_mut(visitor, logic_expr),
            Visit::TestExprVal(test) => visit_test_expr_val_mut(visitor, test),
            Visit::ArrayExprVal(array) => visit_array_expr_val_mut(visitor, array),
            Visit::StringConcatExprVal(string_concat) => visit_string_concat_expr_val_mut(
                visitor,
                string_concat,
            ),
            Visit::MacroCall(macro_call) => visit_macro_call_mut(visitor, macro_call),
            Visit::FunctionCall(function_call) => visit_function_call_mut(visitor, function_call),
            Visit::InExprVal(in_) => visit_in_expr_val_mut(visitor, in_),
        },
    }
}

/// Walks below a sequence of nodes: enters each node in order, at the stop
/// of its kind.
pub fn visit_ast_mut<V: VisitorMut + ?Sized>(visitor: &mut V, ast: &Ast)
    ensures
        final(visitor).state() == walk_all::<V>(old(visitor).state(), Visit::Ast(ast).below()),
    decreases Visit::Ast(ast).weight(), 0int,
{
    let ghost start = visitor.state();
    let mut i: usize = 0;
    proof {
        assert(ast@.skip(0) =~= ast@);
    }
    while i < ast.len()
        invariant
            i <= ast.len(),
            nodes_weight(ast@.skip(i as int)) < Visit::Ast(ast).weight(),
            walk_all::<V>(visitor.state(), node_stops(ast@.skip(i as int))) == walk_all::<V>(
                start,
                node_stops(ast@),
            ),
        decreases ast.len() - i,
    {
        let stop = match &ast[i] {
            Node::Super => Visit::Super,
            Node::Text(text) => Visit::Text(text),
            Node::VariableBlock(ws, expr) => Visit::VariableBlock(ws, expr),
            Node::MacroDefinition(left_ws, macro_definition, right_ws) => Visit::MacroDefinition(
                left_ws,
                macro_definition,
                right_ws,
            ),
            Node::Extends(ws, content) => Visit::Extends(ws, content),
            Node::Include(ws, includes, ignore_missing) => Visit::Include(
                ws,
                includes,
                *ignore_missing,
            ),
            Node::ImportMacro(ws, path, name) => Visit::ImportMacro(ws, path, name),
            Node::SetTag(ws, set) => Visit::SetTag(ws, set),
            Node::Raw(left_ws, content, right_ws) => Visit::Raw(left_ws, content, right_ws),
            Node::FilterSection(left_ws, filter_section, right_ws) => Visit::FilterSection(
                left_ws,
                filter_section,
                right_ws,
            ),
            Node::Block(left_ws, block, right_ws) => Visit::Block(left_ws, block, right_ws),
            Node::Forloop(left_ws, forloop, right_ws) => Visit::Forloop(
                left_ws,
                forloop,
                right_ws,
            ),
            Node::If(if_, ws) => Visit::If(if_, ws),
            Node::Break(ws) => Visit::Break(ws),
            Node::Continue(ws) => Visit::Continue(ws),
            Node::Comment(ws, content) => Visit::Comment(ws, content),
        };
        proof {
            let rest = ast@.skip(i as int);
            assert(rest.skip(1) =~= ast@.skip(i + 1));
            assert(stop == Visit::of(&rest[0]));
            lemma_node_stop_weight(rest[0]);
            lemma_walk_all_cons::<V>(visitor.state(), stop, node_stops(rest.skip(1)));
        }
        walk_mut(visitor, stop);
        i += 1;
    }
}

/// Does nothing: nothing lies below a `{{ super() }}`.
pub fn visit_super_mut<V: VisitorMut + ?Sized>(visitor: &mut V)
    ensures
        final(visitor).state() == old(visitor).state(),
{
}

/// Does nothing: nothing lies below literal text.
pub fn visit_text_mut<V: VisitorMut + ?Sized>(visitor: &mut V, text: &str)
    ensures
        final(visitor).state() == old(visitor).state(),
{
}

/// Walks below an interpolation: enters its expression.
pub fn visit_variable_block_mut<V: VisitorMut + ?Sized>(visitor: &mut V, ws: &WS, expr: &Expr)
    ensures
        final(visitor).state() == walk_all::<V>(old(visitor).state(), Visit::VariableBlock(ws, expr).below()),
    decreases Visit::VariableBlock(ws, expr).weight(), 0int,
{
    proof {
        lemma_walk_all_one::<V>(visitor.state(), Visit::Expr(expr));
    }
    walk_mut(visitor, Visit::Expr(expr));
}

/// Walks below the definition of a macro: enters the default value of each
/// parameter that has one, in order, then the body.
pub fn visit_macro_definition_mut<V: VisitorMut + ?Sized>(
    visitor: &mut V,
    left_ws: &WS,
    macro_definition: &MacroDefinition,
    right_ws: &WS,
)
    ensures
        final(visitor).state() == walk_all::<V>(
            old(visitor).state(),
            Visit::MacroDefinition(left_ws, macro_definition, right_ws).below(),
        ),
    decreases Visit::MacroDefinition(left_ws, macro_definition, right_ws).weight(), 0int,
{
    let ghost start = visitor.state();
    let ghost parent = Visit::MacroDefinition(left_ws, macro_definition, right_ws);
    let ghost params = macro_definition.args@;
    let mut i: usize = 0;
    proof {
        assert(params.skip(0) =~= params);
    }
    while i < macro_definition.args.len()
        invariant
            i <= macro_definition.args.len(),
            params == macro_definition.args@,
            parent == Visit::MacroDefinition(left_ws, macro_definition, right_ws),
            defaults_weight(params.skip(i as int)) < parent.weight(),
            walk_all::<V>(visitor.state(), default_stops(params.skip(i as int))) == walk_all::<V>(
                start,
                default_stops(params),
            ),
        decreases macro_definition.args.len() - i,
    {
        proof {
            assert(params.skip(i as int).skip(1) =~= params.skip(i + 1));
        }
        match &macro_definition.args[i].1 {
            Some(expr) => {
                proof {
                    lemma_walk_all_cons::<V>(
                        visitor.state(),
                        Visit::Expr(expr),
                        default_stops(params.skip(i + 1)),
                    );
                }
                walk_mut(visitor, Visit::Expr(expr));
            },
            None => {},
        }
        i += 1;
    }
    proof {
        let body = Visit::Ast(&macro_definition.body);
        lemma_walk_all_concat::<V>(start, default_stops(params), seq![body]);
        lemma_walk_all_one::<V>(visitor.state(), body);
    }
    walk_mut(visitor, Visit::Ast(&macro_definition.body));
}

/// Does nothing: nothing lies below an `{% extends %}`.
pub fn visit_extends_mut<V: VisitorMut + ?Sized>(visitor: &mut V, ws: &WS, content: &str)
    ensures
        final(visitor).state() == old(visitor).state(),
{
}

/// Does nothing: nothing lies below an `{% include %}`.
pub fn visit_include_mut<V: VisitorMut + ?Sized>(
    visitor: &mut V,
    ws: &WS,
    includes: &[String],
    ignore_missing: bool,
)
    ensures
        final(visitor).state() == old(visitor).state(),
{
}

/// Does nothing: nothing lies below an `{% import %}`.
pub fn visit_import_macro_mut<V: VisitorMut + ?Sized>(
    visitor: &mut V,
    ws: &WS,
    path: &str,
    name: &str,
)
    ensures
        final(visitor).state() == old(visitor).state(),
{
}

/// Walks below a `{% set %}`: enters the value that is assigned.
pub fn visit_set_mut<V: VisitorMut + ?Sized>(visitor: &mut V, ws: &WS, set: &SetTag)
    ensures
        final(visitor).state() == walk_all::<V>(old(visitor).state(), Visit::SetTag(ws, set).below()),
    decreases Visit::SetTag(ws, set).weight(), 0int,
{
    proof {
        lemma_walk_all_one::<V>(visitor.state(), Visit::Expr(&set.value));
    }
    walk_mut(visitor, Visit::Expr(&set.value));
}

/// Does nothing: nothing lies below a `{% raw %}`.
pub fn visit_raw_mut<V: VisitorMut + ?Sized>(
    visitor: &mut V,
    left_ws: &WS,
    content: &str,
    right_ws: &WS,
)
    ensures
        final(visitor).state() == old(visitor).state(),
{
}

/// Walks below a `{% filter %}` section: enters the call of the filter, then
/// the body.
pub fn visit_filter_section_mut<V: VisitorMut + ?Sized>(
    visitor: &mut V,
    left_ws: &WS,
    filter_section: &FilterSection,
    right_ws: &WS,
)
    ensures
        final(visitor).state() == walk_all::<V>(
            old(visitor).state(),
            Visit::FilterSection(left_ws, filter_section, right_ws).below(),
        ),
    decreases Visit::FilterSection(left_ws, filter_section, right_ws).weight(), 0int,
{
    proof {
        lemma_walk_all_two::<V>(
            visitor.state(),
            Visit::FunctionCall(&filter_section.filter),
            Visit::Ast(&filter_section.body),
        );
    }
    walk_mut(visitor, Visit::FunctionCall(&filter_section.filter));
    walk_mut(visitor, Visit::Ast(&filter_section.body));
}

/// Walks below a `{% block %}`: enters its body.
pub fn visit_block_mut<V: VisitorMut + ?Sized>(
    visitor: &mut V,
    left_ws: &WS,
    block: &Block,
    right_ws: &WS,
)
    ensures
        final(visitor).state() == walk_all::<V>(
            old(visitor).state(),
            Visit::Block(left_ws, block, right_ws).below(),
        ),
    decreases Visit::Block(left_ws, block, right_ws).weight(), 0int,
{
    proof {
        lemma_walk_all_one::<V>(visitor.state(), Visit::Ast(&block.body));
    }
    walk_mut(visitor, Visit::Ast(&block.body));
}

/// Walks below a `{% for %}`: enters the container at the stop for the
/// container of a loop, then the body, then the body for an empty container
/// if there is one.
pub fn visit_forloop_mut<V: VisitorMut + ?Sized>(
    visitor: &mut V,
    left_ws: &WS,
    forloop: &Forloop,
    right_ws: &WS,
)
    ensures
        final(visitor).state() == walk_all::<V>(
            old(visitor).state(),
            Visit::Forloop(left_ws, forloop, right_ws).below(),
        ),
    decreases Visit::Forloop(left_ws, forloop, right_ws).weight(), 0int,
{
    let ghost start = visitor.state();
    let ghost container = Visit::ForloopExpr(&forloop.container);
    let ghost body = Visit::Ast(&forloop.body);
    proof {
        lemma_walk_all_two::<V>(start, container, body);
        lemma_walk_all_concat::<V>(start, seq![container, body], body_stops(forloop.empty_body));
    }
    walk_mut(visitor, Visit::ForloopExpr(&forloop.container));
    walk_mut(visitor, Visit::Ast(&forloop.body));
    if let Some(empty_body) = &forloop.empty_body {
        proof {
            lemma_walk_all_one::<V>(visitor.state(), Visit::Ast(empty_body));
        }
        walk_mut(visitor, Visit::Ast(empty_body));
    }
}

/// Walks below the container of a `for`: enters it as an expression.
pub fn visit_forloop_expr_mut<V: VisitorMut + ?Sized>(visitor: &mut V, expr: &Expr)
    ensures
        final(visitor).state() == walk_all::<V>(old(visitor).state(), Visit::ForloopExpr(expr).below()),
    decreases Visit::ForloopExpr(expr).weight(), 0int,
{
    proof {
        lemma_walk_all_one::<V>(visitor.state(), Visit::Expr(expr));
    }
    walk_mut(visitor, Visit::Expr(expr));
}

/// Walks below an `{% if %}`: for each branch with a condition, in order,
/// enters the condition, at the stop for the condition of an `if` for the
/// first branch and at the stop for the condition of an `elif` for the
/// others, and then the body of the branch; at the end enters the body of
/// the `else` branch if there is one.
pub fn visit_if_mut<V: VisitorMut + ?Sized>(visitor: &mut V, if_: &If, ws: &WS)
    ensures
        final(visitor).state() == walk_all::<V>(old(visitor).state(), Visit::If(if_, ws).below()),
    decreases Visit::If(if_, ws).weight(), 0int,
{
    let ghost start = visitor.state();
    let ghost parent = Visit::If(if_, ws);
    let ghost branches = if_.conditions@;
    let mut index: usize = 0;
    proof {
        assert(branches.skip(0) =~= branches);
    }
    while index < if_.conditions.len()
        invariant
            index <= if_.conditions.len(),
            branches == if_.conditions@,
            parent == Visit::If(if_, ws),
            branches_weight(branches.skip(index as int)) < parent.weight(),
            walk_all::<V>(visitor.state(), branch_stops(branches.skip(index as int), index == 0))
                == walk_all::<V>(start, branch_stops(branches, true)),
        decreases if_.conditions.len() - index,
    {
        let branch = &if_.conditions[index];
        let condition = if index == 0 {
            Visit::IfExpr(&branch.1)
        } else {
            Visit::ElseIfExpr(&branch.1)
        };
        proof {
            let rest = branch_stops(branches.skip(index + 1), false);
            let body = Visit::Ast(&branch.2);
            assert(branches.skip(index as int).skip(1) =~= branches.skip(index + 1));
            lemma_walk_all_concat::<V>(visitor.state(), seq![condition, body], rest);
            lemma_walk_all_two::<V>(visitor.state(), condition, body);
        }
        walk_mut(visitor, condition);
        walk_mut(visitor, Visit::Ast(&branch.2));
        index += 1;
    }
    match &if_.otherwise {
        Some(otherwise) => {
            proof {
                let body = Visit::Ast(&otherwise.1);
                lemma_walk_all_concat::<V>(start, branch_stops(branches, true), seq![body]);
                lemma_walk_all_one::<V>(visitor.state(), body);
            }
            walk_mut(visitor, Visit::Ast(&otherwise.1));
        },
        None => {
            proof {
                lemma_walk_all_concat::<V>(
                    start,
                    branch_stops(branches, true),
                    Seq::<Visit<'_>>::empty(),
                );
            }
        },
    }
}

/// Walks below the condition of an `if`: enters it as an expression.
pub fn visit_if_expr_mut<V: VisitorMut + ?Sized>(visitor: &mut V, expr: &Expr)
    ensures
        final(visitor).state() == walk_all::<V>(old(visitor).state(), Visit::IfExpr(expr).below()),
    decreases Visit::IfExpr(expr).weight(), 0int,
{
    proof {
        lemma_walk_all_one::<V>(visitor.state(), Visit::Expr(expr));
    }
    walk_mut(visitor, Visit::Expr(expr));
}

/// Walks below the condition of an `elif`: enters it as an expression.
pub fn visit_else_if_expr_mut<V: VisitorMut + ?Sized>(visitor: &mut V, expr: &Expr)
    ensures
        final(visitor).state() == walk_all::<V>(old(visitor).state(), Visit::ElseIfExpr(expr).below()),
    decreases Visit::ElseIfExpr(expr).weight(), 0int,
{
    proof {
        lemma_walk_all_one::<V>(visitor.state(), Visit::Expr(expr));
    }
    walk_mut(visitor, Visit::Expr(expr));
}

/// Does nothing: nothing lies below a `{% break %}`.
pub fn visit_break_mut<V: VisitorMut + ?Sized>(visitor: &mut V, ws: &WS)
    ensures
        final(visitor).state() == old(visitor).state(),
{
}

/// Does nothing: nothing lies below a `{% continue %}`.
pub fn visit_continue_mut<V: VisitorMut + ?Sized>(visitor: &mut V, ws: &WS)
    ensures
        final(visitor).state() == old(visitor).state(),
{
}

/// Does nothing: nothing lies below a comment.
pub fn visit_comment_mut<V: VisitorMut + ?Sized>(visitor: &mut V, ws: &WS, content: &str)
    ensures
        final(visitor).state() == old(visitor).state(),
{
}

/// Walks below an expression: enters its value, then the calls of its
/// filters from left to right.
pub fn visit_expr_mut<V: VisitorMut + ?Sized>(visitor: &mut V, expr: &Expr)
    ensures
        final(visitor).state() == walk_all::<V>(old(visitor).state(), Visit::Expr(expr).below()),
    decreases Visit::Expr(expr).weight(), 0int,
{
    let ghost start = visitor.state();
    let ghost filters = expr.filters@;
    proof {
        lemma_walk_all_cons::<V>(start, Visit::ExprVal(&expr.val), call_stops(filters));
        assert(filters.skip(0) =~= filters);
    }
    walk_mut(visitor, Visit::ExprVal(&expr.val));
    let ghost entered = visitor.state();
    let mut i: usize = 0;
    while i < expr.filters.len()
        invariant
            i <= expr.filters.len(),
            filters == expr.filters@,
            calls_weight(filters.skip(i as int)) < Visit::Expr(expr).weight(),
            walk_all::<V>(visitor.state(), call_stops(filters.skip(i as int))) == walk_all::<V>(
                entered,
                call_stops(filters),
            ),
        decreases expr.filters.len() - i,
    {
        let stop = Visit::FunctionCall(&expr.filters[i]);
        proof {
            assert(filters.skip(i as int).skip(1) =~= filters.skip(i + 1));
            lemma_walk_all_cons::<V>(visitor.state(), stop, call_stops(filters.skip(i + 1)));
        }
        walk_mut(visitor, stop);
        i += 1;
    }
}

/// Walks below the value of an expression: enters it at the stop of the kind
/// that it is of.
pub fn visit_expr_val_mut<V: VisitorMut + ?Sized>(visitor: &mut V, expr_val: &ExprVal)
    ensures
        final(visitor).state() == walk_all::<V>(old(visitor).state(), Visit::ExprVal(expr_val).below()),
    decreases Visit::ExprVal(expr_val).weight(), 0int,
{
    let stop = match expr_val {
        ExprVal::String(s) => Visit::StringExprVal(s),
        ExprVal::Int(i) => Visit::IntExprVal(*i),
        ExprVal::Float(bits) => Visit::FloatExprVal(*bits),
        ExprVal::Bool(b) => Visit::BoolExprVal(*b),
        ExprVal::Ident(ident) => Visit::IdentExprVal(ident),
        ExprVal::Math(math_expr) => Visit::MathExprVal(math_expr),
        ExprVal::Logic(logic_expr) => Visit::LogicExprVal(logic_expr),
        ExprVal::Test(test) => Visit::TestExprVal(test),
        ExprVal::MacroCall(macro_call) => Visit::MacroCall(macro_call),
        ExprVal::FunctionCall(function_call) => Visit::FunctionCall(function_call),
        ExprVal::Array(array) => Visit::ArrayExprVal(array),
        ExprVal::StringConcat(string_concat) => Visit::StringConcatExprVal(string_concat),
        ExprVal::In(in_) => Visit::InExprVal(in_),
    };
    proof {
        lemma_walk_all_one::<V>(visitor.state(), stop);
    }
    walk_mut(visitor, stop);
}

/// Does nothing: nothing lies below a string literal.
pub fn visit_string_expr_val_mut<V: VisitorMut + ?Sized>(visitor: &mut V, s: &str)
    ensures
        final(visitor).state() == old(visitor).state(),
{
}

/// Does nothing: nothing lies below an integer literal.
pub fn visit_int_expr_val_mut<V: VisitorMut + ?Sized>(visitor: &mut V, i: i64)
    ensures
        final(visitor).state() == old(visitor).state(),
{
}

/// Does nothing: nothing lies below a floating-point literal.
pub fn visit_float_expr_val_mut<V: VisitorMut + ?Sized>(visitor: &mut V, bits: u64)
    ensures
        final(visitor).state() == old(visitor).state(),
{
}

/// Does nothing: nothing lies below a boolean literal.
pub fn visit_bool_expr_val_mut<V: VisitorMut + ?Sized>(visitor: &mut V, b: bool)
    ensures
        final(visitor).state() == old(visitor).state(),
{
}

/// Does nothing: nothing lies below a reference to a name.
pub fn visit_ident_expr_val_mut<V: VisitorMut + ?Sized>(visitor: &mut V, ident: &str)
    ensures
        final(visitor).state() == old(visitor).state(),
{
}

/// Walks below an arithmetic expression: enters the left operand, then the
/// right one.
pub fn visit_math_expr_val_mut<V: VisitorMut + ?Sized>(visitor: &mut V, math_expr: &MathExpr)
    ensures
        final(visitor).state() == walk_all::<V>(old(visitor).state(), Visit::MathExprVal(math_expr).below()),
    decreases Visit::MathExprVal(math_expr).weight(), 0int,
{
    proof {
        lemma_walk_all_two::<V>(
            visitor.state(),
            Visit::Expr(&*math_expr.lhs),
            Visit::Expr(&*math_expr.rhs),
        );
    }
    walk_mut(visitor, Visit::Expr(&*math_expr.lhs));
    walk_mut(visitor, Visit::Expr(&*math_expr.rhs));
}

/// Walks below a comparison or a boolean expression: enters the left operand,
/// then the right one.
pub fn visit_logic_expr_val_mut<V: VisitorMut + ?Sized>(visitor: &mut V, logic_expr: &LogicExpr)
    ensures
        final(visitor).state() == walk_all::<V>(old(visitor).state(), Visit::LogicExprVal(logic_expr).below()),
    decreases Visit::LogicExprVal(logic_expr).weight(), 0int,
{
    proof {
        lemma_walk_all_two::<V>(
            visitor.state(),
            Visit::Expr(&*logic_expr.lhs),
            Visit::Expr(&*logic_expr.rhs),
        );
    }
    walk_mut(visitor, Visit::Expr(&*logic_expr.lhs));
    walk_mut(visitor, Visit::Expr(&*logic_expr.rhs));
}

/// Walks below a test: enters its arguments in order.
pub fn visit_test_expr_val_mut<V: VisitorMut + ?Sized>(visitor: &mut V, test: &Test)
    ensures
        final(visitor).state() == walk_all::<V>(old(visitor).state(), Visit::TestExprVal(test).below()),
    decreases Visit::TestExprVal(test).weight(), 0int,
{
    let ghost start = visitor.state();
    let ghost exprs = test.args@;
    let mut i: usize = 0;
    proof {
        assert(exprs.skip(0) =~= exprs);
    }
    while i < test.args.len()
        invariant
            i <= test.args.len(),
            exprs == test.args@,
            exprs_weight(exprs.skip(i as int)) < Visit::TestExprVal(test).weight(),
            walk_all::<V>(visitor.state(), expr_stops(exprs.skip(i as int))) == walk_all::<V>(
                start,
                expr_stops(exprs),
            ),
        decreases test.args.len() - i,
    {
        let stop = Visit::Expr(&test.args[i]);
        proof {
            assert(exprs.skip(i as int).skip(1) =~= exprs.skip(i + 1));
            lemma_walk_all_cons::<V>(visitor.state(), stop, expr_stops(exprs.skip(i + 1)));
        }
        walk_mut(visitor, stop);
        i += 1;
    }
}

/// Walks below an array literal: enters its elements in order.
pub fn visit_array_expr_val_mut<V: VisitorMut + ?Sized>(visitor: &mut V, array: &Vec<Expr>)
    ensures
        final(visitor).state() == walk_all::<V>(old(visitor).state(), Visit::ArrayExprVal(array).below()),
    decreases Visit::ArrayExprVal(array).weight(), 0int,
{
    let ghost start = visitor.state();
    let ghost exprs = array@;
    let mut i: usize = 0;
    proof {
        assert(exprs.skip(0) =~= exprs);
    }
    while i < array.len()
        invariant
            i <= array.len(),
            exprs == array@,
            exprs_weight(exprs.skip(i as int)) < Visit::ArrayExprVal(array).weight(),
            walk_all::<V>(visitor.state(), expr_stops(exprs.skip(i as int))) == walk_all::<V>(
                start,
                expr_stops(exprs),
            ),
        decreases array.len() - i,
    {
        let stop = Visit::Expr(&array[i]);
        proof {
            assert(exprs.skip(i as int).skip(1) =~= exprs.skip(i + 1));
            lemma_walk_all_cons::<V>(visitor.state(), stop, expr_stops(exprs.skip(i + 1)));
        }
        walk_mut(visitor, stop);
        i += 1;
    }
}

/// Walks below a concatenation: enters its parts in order, each as a value.
pub fn visit_string_concat_expr_val_mut<V: VisitorMut + ?Sized>(
    visitor: &mut V,
    string_concat: &StringConcat,
)
    ensures
        final(visitor).state() == walk_all::<V>(
            old(visitor).state(),
            Visit::StringConcatExprVal(string_concat).below(),
        ),
    decreases Visit::StringConcatExprVal(string_concat).weight(), 0int,
{
    let ghost start = visitor.state();
    let ghost values = string_concat.values@;
    let mut i: usize = 0;
    proof {
        assert(values.skip(0) =~= values);
    }
    while i < string_concat.values.len()
        invariant
            i <= string_concat.values.len(),
            values == string_concat.values@,
            values_weight(values.skip(i as int)) < Visit::StringConcatExprVal(
                string_concat,
            ).weight(),
            walk_all::<V>(visitor.state(), value_stops(values.skip(i as int))) == walk_all::<V>(
                start,
                value_stops(values),
            ),
        decreases string_concat.values.len() - i,
    {
        let stop = Visit::ExprVal(&string_concat.values[i]);
        proof {
            assert(values.skip(i as int).skip(1) =~= values.skip(i + 1));
            lemma_walk_all_cons::<V>(visitor.state(), stop, value_stops(values.skip(i + 1)));
        }
        walk_mut(visitor, stop);
        i += 1;
    }
}

/// Walks below a call of a macro: enters the values of its arguments in
/// order.
pub fn visit_macro_call_mut<V: VisitorMut + ?Sized>(visitor: &mut V, macro_call: &MacroCall)
    ensures
        final(visitor).state() == walk_all::<V>(old(visitor).state(), Visit::MacroCall(macro_call).below()),
    decreases Visit::MacroCall(macro_call).weight(), 0int,
{
    let ghost start = visitor.state();
    let ghost args = macro_call.args@;
    let mut i: usize = 0;
    proof {
        assert(args.skip(0) =~= args);
    }
    while i < macro_call.args.len()
        invariant
            i <= macro_call.args.len(),
            args == macro_call.args@,
            args_weight(args.skip(i as int)) < Visit::MacroCall(macro_call).weight(),
            walk_all::<V>(visitor.state(), arg_stops(args.skip(i as int))) == walk_all::<V>(
                start,
                arg_stops(args),
            ),
        decreases macro_call.args.len() - i,
    {
        let stop = Visit::Expr(&macro_call.args[i].1);
        proof {
            assert(args.skip(i as int).skip(1) =~= args.skip(i + 1));
            lemma_walk_all_cons::<V>(visitor.state(), stop, arg_stops(args.skip(i + 1)));
        }
        walk_mut(visitor, stop);
        i += 1;
    }
}

/// Walks below a call of a filter or of a global function: enters the values
/// of its arguments in order.
pub fn visit_function_call_mut<V: VisitorMut + ?Sized>(
    visitor: &mut V,
    function_call: &FunctionCall,
)
    ensures
        final(visitor).state() == walk_all::<V>(
            old(visitor).state(),
            Visit::FunctionCall(function_call).below(),
        ),
    decreases Visit::FunctionCall(function_call).weight(), 0int,
{
    let ghost start = visitor.state();
    let ghost args = function_call.args@;
    let mut i: usize = 0;
    proof {
        assert(args.skip(0) =~= args);
    }
    while i < function_call.args.len()
        invariant
            i <= function_call.args.len(),
            args == function_call.args@,
            args_weight(args.skip(i as int)) < Visit::FunctionCall(function_call).weight(),
            walk_all::<V>(visitor.state(), arg_stops(args.skip(i as int))) == walk_all::<V>(
                start,
                arg_stops(args),
            ),
        decreases function_call.args.len() - i,
    {
        let stop = Visit::Expr(&function_call.args[i].1);
        proof {
            assert(args.skip(i as int).skip(1) =~= args.skip(i + 1));
            lemma_walk_all_cons::<V>(visitor.state(), stop, arg_stops(args.skip(i + 1)));
        }
        walk_mut(visitor, stop);
        i += 1;
    }
}

/// Walks below a containment check: enters the needle, then the haystack.
pub fn visit_in_expr_val_mut<V: VisitorMut + ?Sized>(visitor: &mut V, in_: &In)
    ensures
        final(visitor).state() == walk_all::<V>(old(visitor).state(), Visit::InExprVal(in_).below()),
    decreases Visit::InExprVal(in_).weight(), 0int,
{
    proof {
        lemma_walk_all_two::<V>(visitor.state(), Visit::Expr(&*in_.lhs), Visit::Expr(&*in_.rhs));
    }
    walk_mut(visitor, Visit::Expr(&*in_.lhs));
    walk_mut(visitor, Visit::Expr(&*in_.rhs));
}

} // verus!
