//! The weight of a stop: the measure by which every walk ends.
//!
//! Each stop weighs one more than all the stops directly below it together,
//! so a walk that enters a stop and then everything below it goes down in
//! weight with every step.

use crate::ast::{Expr, ExprVal, FunctionCall, Node, WS};
use crate::visit::{
    arg_stops, body_stops, branch_stops, call_stops, default_stops, expr_stops, node_stops,
    value_stops, Visit,
};
use vstd::prelude::*;

verus! {

/// The weight of the stop for an expression.
pub open spec fn expr_weight(expr: Expr) -> nat
    decreases expr,
{
    1 + expr_val_weight(expr.val) + calls_weight(expr.filters@)
}

/// The weight of the stop for a value of whatever kind: one more than that of
/// the stop for the kind that it is of.
pub open spec fn expr_val_weight(val: ExprVal) -> nat
    decreases val,
{
    1 + match val {
        ExprVal::Math(math) => 1 + expr_weight(*math.lhs) + expr_weight(*math.rhs),
        ExprVal::Logic(logic) => 1 + expr_weight(*logic.lhs) + expr_weight(*logic.rhs),
        ExprVal::In(in_) => 1 + expr_weight(*in_.lhs) + expr_weight(*in_.rhs),
        ExprVal::Test(test) => 1 + exprs_weight(test.args@),
        ExprVal::MacroCall(call) => 1 + args_weight(call.args@),
        ExprVal::FunctionCall(call) => call_weight(call),
        ExprVal::Array(array) => 1 + exprs_weight(array@),
        ExprVal::StringConcat(concat) => 1 + values_weight(concat.values@),
        ExprVal::String(_)
        | ExprVal::Int(_)
        | ExprVal::Float(_)
        | ExprVal::Bool(_)
        | ExprVal::Ident(_) => 1,
    }
}

/// The weight of the stop for a call.
pub open spec fn call_weight(call: FunctionCall) -> nat
    decreases call,
{
    1 + args_weight(call.args@)
}

/// The weight of the stops for a sequence of calls.
pub open spec fn calls_weight(calls: Seq<FunctionCall>) -> nat
    decreases calls,
{
    if calls.len() == 0 {
        0
    } else {
        call_weight(calls[0]) + calls_weight(calls.skip(1))
    }
}

/// The weight of the stops for the values of named arguments.
pub open spec fn args_weight(args: Seq<(String, Expr)>) -> nat
    decreases args,
{
    if args.len() == 0 {
        0
    } else {
        expr_weight(args[0].1) + args_weight(args.skip(1))
    }
}

/// The weight of the stops for a sequence of expressions.
pub open spec fn exprs_weight(exprs: Seq<Expr>) -> nat
    decreases exprs,
{
    if exprs.len() == 0 {
        0
    } else {
        expr_weight(exprs[0]) + exprs_weight(exprs.skip(1))
    }
}

/// The weight of the stops for the parts of a concatenation.
pub open spec fn values_weight(values: Seq<ExprVal>) -> nat
    decreases values,
{
    if values.len() == 0 {
        0
    } else {
        expr_val_weight(values[0]) + values_weight(values.skip(1))
    }
}

/// The weight of the stops for the default values of a macro's parameters.
pub open spec fn defaults_weight(params: Seq<(String, Option<Expr>)>) -> nat
    decreases params,
{
    if params.len() == 0 {
        0
    } else {
        match params[0].1 {
            Some(expr) => expr_weight(expr) + defaults_weight(params.skip(1)),
            None => defaults_weight(params.skip(1)),
        }
    }
}

/// The weight of the stop for a node.
pub open spec fn node_weight(node: Node) -> nat
    decreases node,
{
    1 + match node {
        Node::VariableBlock(_, expr) => expr_weight(expr),
        Node::MacroDefinition(_, definition, _) => defaults_weight(definition.args@) + 1
            + nodes_weight(definition.body@),
        Node::SetTag(_, set) => expr_weight(set.value),
        Node::FilterSection(_, section, _) => call_weight(section.filter) + 1 + nodes_weight(
            section.body@,
        ),
        Node::Block(_, block, _) => 1 + nodes_weight(block.body@),
        Node::Forloop(_, forloop, _) => 1 + expr_weight(forloop.container) + 1 + nodes_weight(
            forloop.body@,
        ) + match forloop.empty_body {
            Some(nodes) => 1 + nodes_weight(nodes@),
            None => 0,
        },
        Node::If(if_, _) => branches_weight(if_.conditions@) + match if_.otherwise {
            Some(otherwise) => 1 + nodes_weight(otherwise.1@),
            None => 0,
        },
        Node::Super
        | Node::Text(_)
        | Node::Extends(_, _)
        | Node::Include(_, _, _)
        | Node::ImportMacro(_, _, _)
        | Node::Raw(_, _, _)
        | Node::Break(_)
        | Node::Continue(_)
        | Node::Comment(_, _) => 0,
    }
}

/// The weight of the stops for a sequence of nodes.
pub open spec fn nodes_weight(nodes: Seq<Node>) -> nat
    decreases nodes,
{
    if nodes.len() == 0 {
        0
    } else {
        node_weight(nodes[0]) + nodes_weight(nodes.skip(1))
    }
}

/// The weight of the stops for the branches of an `if` that have a condition.
pub open spec fn branches_weight(branches: Seq<(WS, Expr, Vec<Node>)>) -> nat
    decreases branches,
{
    if branches.len() == 0 {
        0
    } else {
        1 + expr_weight(branches[0].1) + 1 + nodes_weight(branches[0].2@) + branches_weight(
            branches.skip(1),
        )
    }
}

impl<'a> Visit<'a> {
    /// The weight of this stop: one more than the weights of all the stops
    /// directly below it together.
    pub open spec fn weight(self) -> nat {
        match self {
            Visit::Ast(nodes) => 1 + nodes_weight(nodes@),
            Visit::Super
            | Visit::Text(_)
            | Visit::Extends(_, _)
            | Visit::Include(_, _, _)
            | Visit::ImportMacro(_, _, _)
            | Visit::Raw(_, _, _)
            | Visit::Break(_)
            | Visit::Continue(_)
            | Visit::Comment(_, _) => 1,
            Visit::VariableBlock(_, expr) => 1 + expr_weight(*expr),
            Visit::MacroDefinition(_, definition, _) => 1 + defaults_weight(definition.args@) + 1
                + nodes_weight(definition.body@),
            Visit::SetTag(_, set) => 1 + expr_weight(set.value),
            Visit::FilterSection(_, section, _) => 1 + call_weight(section.filter) + 1
                + nodes_weight(section.body@),
            Visit::Block(_, block, _) => 1 + 1 + nodes_weight(block.body@),
            Visit::Forloop(_, forloop, _) => 1 + 1 + expr_weight(forloop.container) + 1
                + nodes_weight(forloop.body@) + match forloop.empty_body {
                Some(nodes) => 1 + nodes_weight(nodes@),
                None => 0,
            },
            Visit::ForloopExpr(expr) | Visit::IfExpr(expr) | Visit::ElseIfExpr(expr) => 1
                + expr_weight(*expr),
            Visit::If(if_, _) => 1 + branches_weight(if_.conditions@) + match if_.otherwise {
                Some(otherwise) => 1 + nodes_weight(otherwise.1@),
                None => 0,
            },
            Visit::Expr(expr) => expr_weight(*expr),
            Visit::ExprVal(val) => expr_val_weight(*val),
            Visit::StringExprVal(_)
            | Visit::IntExprVal(_)
            | Visit::FloatExprVal(_)
            | Visit::BoolExprVal(_)
            | Visit::IdentExprVal(_) => 1,
            Visit::MathExprVal(math) => 1 + expr_weight(*math.lhs) + expr_weight(*math.rhs),
            Visit::LogicExprVal(logic) => 1 + expr_weight(*logic.lhs) + expr_weight(*logic.rhs),
            Visit::InExprVal(in_) => 1 + expr_weight(*in_.lhs) + expr_weight(*in_.rhs),
            Visit::TestExprVal(test) => 1 + exprs_weight(test.args@),
            Visit::ArrayExprVal(array) => 1 + exprs_weight(array@),
            Visit::StringConcatExprVal(concat) => 1 + values_weight(concat.values@),
            Visit::MacroCall(call) => 1 + args_weight(call.args@),
            Visit::FunctionCall(call) => call_weight(*call),
        }
    }
}

/// The weight of a sequence of stops: the sum of their weights.
pub open spec fn total_weight(visits: Seq<Visit<'_>>) -> nat
    decreases visits.len(),
{
    if visits.len() == 0 {
        0
    } else {
        visits[0].weight() + total_weight(visits.skip(1))
    }
}

/// Every stop weighs something.
pub proof fn lemma_weight_positive(visit: Visit<'_>)
    ensures
        visit.weight() >= 1,
{
    match visit {
        Visit::Expr(expr) => {},
        Visit::ExprVal(val) => {},
        Visit::FunctionCall(call) => {},
        _ => {},
    }
}

/// The stop for a node weighs what the node weighs.
pub proof fn lemma_node_stop_weight(node: Node)
    ensures
        Visit::of(&node).weight() == node_weight(node),
{
}

/// The weight of two sequences of stops one after the other is the sum of
/// their weights.
pub proof fn lemma_total_weight_concat(front: Seq<Visit<'_>>, back: Seq<Visit<'_>>)
    ensures
        total_weight(front + back) == total_weight(front) + total_weight(back),
    decreases front.len(),
{
    if front.len() == 0 {
        assert(front + back =~= back);
    } else {
        assert((front + back).skip(1) =~= front.skip(1) + back);
        lemma_total_weight_concat(front.skip(1), back);
    }
}

/// A stop is no heavier than a sequence it stands in.
pub proof fn lemma_total_weight_index(visits: Seq<Visit<'_>>, i: int)
    requires
        0 <= i < visits.len(),
    ensures
        visits[i].weight() <= total_weight(visits),
    decreases visits.len(),
{
    if i > 0 {
        lemma_total_weight_index(visits.skip(1), i - 1);
    }
}

/// A sequence of one stop weighs what the stop weighs.
pub proof fn lemma_total_weight_one(visit: Visit<'_>)
    ensures
        total_weight(seq![visit]) == visit.weight(),
{
    assert(seq![visit].skip(1) =~= Seq::<Visit<'_>>::empty());
    assert(total_weight(seq![visit].skip(1)) == 0);
}

proof fn lemma_total_weight_two(first: Visit<'_>, second: Visit<'_>)
    ensures
        total_weight(seq![first, second]) == first.weight() + second.weight(),
{
    assert(seq![first, second] =~= seq![first] + seq![second]);
    lemma_total_weight_concat(seq![first], seq![second]);
    lemma_total_weight_one(first);
    lemma_total_weight_one(second);
}

proof fn lemma_node_stops_weight(nodes: Seq<Node>)
    ensures
        total_weight(node_stops(nodes)) == nodes_weight(nodes),
    decreases nodes.len(),
{
    if nodes.len() > 0 {
        let head = Visit::of(&nodes[0]);
        lemma_node_stops_weight(nodes.skip(1));
        lemma_total_weight_concat(seq![head], node_stops(nodes.skip(1)));
        lemma_total_weight_one(head);
        lemma_node_stop_weight(nodes[0]);
    }
}

proof fn lemma_expr_stops_weight(exprs: Seq<Expr>)
    ensures
        total_weight(expr_stops(exprs)) == exprs_weight(exprs),
    decreases exprs.len(),
{
    if exprs.len() > 0 {
        let head = Visit::Expr(&exprs[0]);
        lemma_expr_stops_weight(exprs.skip(1));
        lemma_total_weight_concat(seq![head], expr_stops(exprs.skip(1)));
        lemma_total_weight_one(head);
    }
}

proof fn lemma_arg_stops_weight(args: Seq<(String, Expr)>)
    ensures
        total_weight(arg_stops(args)) == args_weight(args),
    decreases args.len(),
{
    if args.len() > 0 {
        let head = Visit::Expr(&args[0].1);
        lemma_arg_stops_weight(args.skip(1));
        lemma_total_weight_concat(seq![head], arg_stops(args.skip(1)));
        lemma_total_weight_one(head);
    }
}

proof fn lemma_call_stops_weight(calls: Seq<FunctionCall>)
    ensures
        total_weight(call_stops(calls)) == calls_weight(calls),
    decreases calls.len(),
{
    if calls.len() > 0 {
        let head = Visit::FunctionCall(&calls[0]);
        lemma_call_stops_weight(calls.skip(1));
        lemma_total_weight_concat(seq![head], call_stops(calls.skip(1)));
        lemma_total_weight_one(head);
    }
}

proof fn lemma_value_stops_weight(values: Seq<ExprVal>)
    ensures
        total_weight(value_stops(values)) == values_weight(values),
    decreases values.len(),
{
    if values.len() > 0 {
        let head = Visit::ExprVal(&values[0]);
        lemma_value_stops_weight(values.skip(1));
        lemma_total_weight_concat(seq![head], value_stops(values.skip(1)));
        lemma_total_weight_one(head);
    }
}

proof fn lemma_default_stops_weight(params: Seq<(String, Option<Expr>)>)
    ensures
        total_weight(default_stops(params)) == defaults_weight(params),
    decreases params.len(),
{
    if params.len() > 0 {
        lemma_default_stops_weight(params.skip(1));
        match params[0].1 {
            Some(expr) => {
                let head = Visit::Expr(&expr);
                lemma_total_weight_concat(seq![head], default_stops(params.skip(1)));
                lemma_total_weight_one(head);
            },
            None => {},
        }
    }
}

proof fn lemma_branch_stops_weight(branches: Seq<(WS, Expr, Vec<Node>)>, first: bool)
    ensures
        total_weight(branch_stops(branches, first)) == branches_weight(branches),
    decreases branches.len(),
{
    if branches.len() > 0 {
        let condition = if first {
            Visit::IfExpr(&branches[0].1)
        } else {
            Visit::ElseIfExpr(&branches[0].1)
        };
        let body = Visit::Ast(&branches[0].2);
        lemma_branch_stops_weight(branches.skip(1), false);
        lemma_total_weight_concat(seq![condition, body], branch_stops(branches.skip(1), false));
        lemma_total_weight_two(condition, body);
    }
}

/// A stop weighs one more than all the stops directly below it together.
pub proof fn lemma_below_weight(visit: Visit<'_>)
    ensures
        visit.weight() == 1 + total_weight(visit.below()),
{
    match visit {
        Visit::Ast(nodes) => {
            lemma_node_stops_weight(nodes@);
        },
        Visit::VariableBlock(_, expr) => {
            lemma_total_weight_one(Visit::Expr(expr));
        },
        Visit::MacroDefinition(_, definition, _) => {
            let body = Visit::Ast(&definition.body);
            lemma_default_stops_weight(definition.args@);
            lemma_total_weight_one(body);
            lemma_total_weight_concat(default_stops(definition.args@), seq![body]);
        },
        Visit::SetTag(_, set) => {
            lemma_total_weight_one(Visit::Expr(&set.value));
        },
        Visit::FilterSection(_, section, _) => {
            lemma_total_weight_two(
                Visit::FunctionCall(&section.filter),
                Visit::Ast(&section.body),
            );
        },
        Visit::Block(_, block, _) => {
            lemma_total_weight_one(Visit::Ast(&block.body));
        },
        Visit::Forloop(_, forloop, _) => {
            let container = Visit::ForloopExpr(&forloop.container);
            let body = Visit::Ast(&forloop.body);
            lemma_total_weight_two(container, body);
            lemma_total_weight_concat(seq![container, body], body_stops(forloop.empty_body));
            match forloop.empty_body {
                Some(nodes) => {
                    lemma_total_weight_one(Visit::Ast(&nodes));
                },
                None => {},
            }
        },
        Visit::ForloopExpr(expr) | Visit::IfExpr(expr) | Visit::ElseIfExpr(expr) => {
            lemma_total_weight_one(Visit::Expr(expr));
        },
        Visit::If(if_, _) => {
            lemma_branch_stops_weight(if_.conditions@, true);
            match if_.otherwise {
                Some(otherwise) => {
                    let body = Visit::Ast(&otherwise.1);
                    lemma_total_weight_one(body);
                    lemma_total_weight_concat(branch_stops(if_.conditions@, true), seq![body]);
                },
                None => {
                    assert(branch_stops(if_.conditions@, true) + Seq::<Visit<'_>>::empty()
                        =~= branch_stops(if_.conditions@, true));
                },
            }
        },
        Visit::Expr(expr) => {
            let val = Visit::ExprVal(&expr.val);
            lemma_call_stops_weight(expr.filters@);
            lemma_total_weight_one(val);
            lemma_total_weight_concat(seq![val], call_stops(expr.filters@));
        },
        Visit::ExprVal(val) => {
            lemma_total_weight_one(Visit::of_val(val));
        },
        Visit::MathExprVal(math) => {
            lemma_total_weight_two(Visit::Expr(&*math.lhs), Visit::Expr(&*math.rhs));
        },
        Visit::LogicExprVal(logic) => {
            lemma_total_weight_two(Visit::Expr(&*logic.lhs), Visit::Expr(&*logic.rhs));
        },
        Visit::InExprVal(in_) => {
            lemma_total_weight_two(Visit::Expr(&*in_.lhs), Visit::Expr(&*in_.rhs));
        },
        Visit::TestExprVal(test) => {
            lemma_expr_stops_weight(test.args@);
        },
        Visit::ArrayExprVal(array) => {
            lemma_expr_stops_weight(array@);
        },
        Visit::StringConcatExprVal(concat) => {
            lemma_value_stops_weight(concat.values@);
        },
        Visit::MacroCall(call) => {
            lemma_arg_stops_weight(call.args@);
        },
        Visit::FunctionCall(call) => {
            lemma_arg_stops_weight(call.args@);
        },
        _ => {},
    }
}

} // verus!
