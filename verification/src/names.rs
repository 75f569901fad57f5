//! The names that a tree refers to, and the role that each of them is used
//! in.
//!
//! Only a bare identifier counts, that is an expression whose value is a
//! reference to a name and nothing more, and only in four places: as the
//! expression of an interpolation, as the container of a `for`, as the
//! condition of an `if` and as the condition of an `elif`.
//!
//! [`names_in`] goes by the shape of the tree alone: it says which names a
//! sequence of nodes refers to without any walk. [`Variables::of`] says what
//! a walk that leaves nothing out collects on its way, and the two agree
//! ([`lemma_names_of_tree`]). The laws at the end of this file say of which
//! nodes of a tree its names come.

use crate::ast::{
    branches_have, node_has, tree_has, Expr, ExprVal, Forloop, FunctionCall, If, Node, WS,
};
use crate::measure::{lemma_below_weight, lemma_weight_positive, total_weight};
use crate::visit::{
    arg_stops, body_stops, branch_stops, call_stops, default_stops, expr_stops,
    lemma_stops_all_concat, lemma_stops_all_one, node_stops, stops, stops_all, value_stops, Visit,
};
use vstd::prelude::*;

verus! {

/// The name that a bare identifier refers to; nothing for any other
/// expression, whatever names occur inside it.
pub open spec fn bare_ident(expr: &Expr) -> Set<Seq<char>> {
    match expr.val {
        ExprVal::Ident(ident) => set![ident@],
        _ => Set::empty(),
    }
}

/// A role that a name is used in.
#[derive(Clone, Copy, Debug, PartialEq, Eq, Structural)]
pub enum Role {
    /// The name is referred to.
    Referenced,
    /// A `for` iterates over the name.
    Iterated,
    /// An `if` or an `elif` asks for the name.
    Guarded,
}

/// Names by the role they are used in.
#[verifier::ext_equal]
pub struct Variables {
    /// The names that are referred to, in whatever role
    pub referenced: Set<Seq<char>>,
    /// The names that a `for` iterates over
    pub iterated: Set<Seq<char>>,
    /// The names that an `if` or an `elif` asks for
    pub guarded: Set<Seq<char>>,
}

impl Variables {
    /// No names at all.
    pub open spec fn empty() -> Variables {
        Variables { referenced: Set::empty(), iterated: Set::empty(), guarded: Set::empty() }
    }

    /// The names of `self` and of `other` together, role by role.
    pub open spec fn union(self, other: Variables) -> Variables {
        Variables {
            referenced: self.referenced.union(other.referenced),
            iterated: self.iterated.union(other.iterated),
            guarded: self.guarded.union(other.guarded),
        }
    }

    /// Names that are referred to and nothing more.
    pub open spec fn only_referenced(names: Set<Seq<char>>) -> Variables {
        Variables { referenced: names, iterated: Set::empty(), guarded: Set::empty() }
    }

    /// Names that are referred to and iterated over.
    pub open spec fn also_iterated(names: Set<Seq<char>>) -> Variables {
        Variables { referenced: names, iterated: names, guarded: Set::empty() }
    }

    /// Names that are referred to and asked for.
    pub open spec fn also_guarded(names: Set<Seq<char>>) -> Variables {
        Variables { referenced: names, iterated: Set::empty(), guarded: names }
    }

    /// Whether every name of `self` is a name of `other` in the same role.
    pub open spec fn within(self, other: Variables) -> bool {
        &&& self.referenced.subset_of(other.referenced)
        &&& self.iterated.subset_of(other.iterated)
        &&& self.guarded.subset_of(other.guarded)
    }

    /// Whether `name` is used in the role `role`.
    pub open spec fn holds(self, role: Role, name: Seq<char>) -> bool {
        match role {
            Role::Referenced => self.referenced.contains(name),
            Role::Iterated => self.iterated.contains(name),
            Role::Guarded => self.guarded.contains(name),
        }
    }

    /// The names that one stop by itself gives: those of a bare identifier in
    /// one of the four places that count.
    pub open spec fn at(visit: Visit<'_>) -> Variables {
        match visit {
            Visit::VariableBlock(_, expr) => Variables::only_referenced(bare_ident(expr)),
            Visit::ForloopExpr(expr) => Variables::also_iterated(bare_ident(expr)),
            Visit::IfExpr(expr) | Visit::ElseIfExpr(expr) => Variables::also_guarded(bare_ident(expr)),
            _ => Variables::empty(),
        }
    }

    /// The names that the stops of a sequence give together.
    pub open spec fn among(visits: Seq<Visit<'_>>) -> Variables {
        Variables {
            referenced: Set::new(
                |name: Seq<char>|
                    exists|i: int|
                        0 <= i < visits.len() && Variables::at(
                            #[trigger] visits[i],
                        ).referenced.contains(name),
            ),
            iterated: Set::new(
                |name: Seq<char>|
                    exists|i: int|
                        0 <= i < visits.len() && Variables::at(
                            #[trigger] visits[i],
                        ).iterated.contains(name),
            ),
            guarded: Set::new(
                |name: Seq<char>|
                    exists|i: int|
                        0 <= i < visits.len() && Variables::at(
                            #[trigger] visits[i],
                        ).guarded.contains(name),
            ),
        }
    }

    /// The names that a template, or a piece of one, refers to: what all the
    /// stops at and below `visit` give together.
    pub open spec fn of(visit: Visit<'_>) -> Variables {
        Variables::among(stops(visit))
    }
}

/// The names that a sequence of nodes refers to, with everything in the
/// bodies of these nodes.
pub open spec fn names_in(nodes: Seq<Node>) -> Variables
    decreases nodes,
{
    if nodes.len() == 0 {
        Variables::empty()
    } else {
        names_in_node(nodes[0]).union(names_in(nodes.skip(1)))
    }
}

/// The names that an optional body refers to.
pub open spec fn names_in_body(body: Option<Vec<Node>>) -> Variables
    decreases body,
{
    match body {
        Some(nodes) => names_in(nodes@),
        None => Variables::empty(),
    }
}

/// The names that a node refers to, with everything in its body.
///
/// An interpolation refers to the bare identifier that it interpolates. A
/// `for` refers to the bare identifier that it iterates over, and iterates
/// over it; the names that it binds are not referred to by it. An `if` refers
/// to the bare identifiers that its conditions are, and asks for them. To
/// these come the names that the bodies refer to. Nothing else is referred
/// to by a node, whatever expressions it holds.
pub open spec fn names_in_node(node: Node) -> Variables
    decreases node,
{
    match node {
        Node::VariableBlock(_, expr) => Variables::only_referenced(bare_ident(&expr)),
        Node::MacroDefinition(_, definition, _) => names_in(definition.body@),
        Node::FilterSection(_, section, _) => names_in(section.body@),
        Node::Block(_, block, _) => names_in(block.body@),
        Node::Forloop(_, forloop, _) => Variables::also_iterated(bare_ident(&forloop.container)).union(
            names_in(forloop.body@),
        ).union(names_in_body(forloop.empty_body)),
        Node::If(if_, _) => names_in_branches(if_.conditions@).union(
            match if_.otherwise {
                Some(otherwise) => names_in(otherwise.1@),
                None => Variables::empty(),
            },
        ),
        _ => Variables::empty(),
    }
}

/// The names that the branches of an `if` that have a condition refer to.
pub open spec fn names_in_branches(branches: Seq<(WS, Expr, Vec<Node>)>) -> Variables
    decreases branches,
{
    if branches.len() == 0 {
        Variables::empty()
    } else {
        Variables::also_guarded(bare_ident(&branches[0].1)).union(names_in(branches[0].2@)).union(
            names_in_branches(branches.skip(1)),
        )
    }
}

/// The names that two sequences of stops give together are those that the
/// first gives and those that the second gives.
pub proof fn lemma_among_concat(front: Seq<Visit<'_>>, back: Seq<Visit<'_>>)
    ensures
        Variables::among(front + back) == Variables::among(front).union(Variables::among(back)),
{
    let all = front + back;
    let whole = Variables::among(all);
    let parts = Variables::among(front).union(Variables::among(back));
    assert forall|name: Seq<char>| whole.referenced.contains(name) <==> parts.referenced.contains(
        name,
    ) by {
        if whole.referenced.contains(name) {
            let i = choose|i: int|
                0 <= i < all.len() && Variables::at(#[trigger] all[i]).referenced.contains(name);
            if i < front.len() {
                assert(Variables::at(front[i]).referenced.contains(name));
            } else {
                assert(Variables::at(back[i - front.len()]).referenced.contains(name));
            }
        }
        if Variables::among(front).referenced.contains(name) {
            let i = choose|i: int|
                0 <= i < front.len() && Variables::at(#[trigger] front[i]).referenced.contains(
                    name,
                );
            assert(Variables::at(all[i]).referenced.contains(name));
        }
        if Variables::among(back).referenced.contains(name) {
            let i = choose|i: int|
                0 <= i < back.len() && Variables::at(#[trigger] back[i]).referenced.contains(name);
            assert(Variables::at(all[front.len() + i]).referenced.contains(name));
        }
    }
    assert forall|name: Seq<char>| whole.iterated.contains(name) <==> parts.iterated.contains(
        name,
    ) by {
        if whole.iterated.contains(name) {
            let i = choose|i: int|
                0 <= i < all.len() && Variables::at(#[trigger] all[i]).iterated.contains(name);
            if i < front.len() {
                assert(Variables::at(front[i]).iterated.contains(name));
            } else {
                assert(Variables::at(back[i - front.len()]).iterated.contains(name));
            }
        }
        if Variables::among(front).iterated.contains(name) {
            let i = choose|i: int|
                0 <= i < front.len() && Variables::at(#[trigger] front[i]).iterated.contains(name);
            assert(Variables::at(all[i]).iterated.contains(name));
        }
        if Variables::among(back).iterated.contains(name) {
            let i = choose|i: int|
                0 <= i < back.len() && Variables::at(#[trigger] back[i]).iterated.contains(name);
            assert(Variables::at(all[front.len() + i]).iterated.contains(name));
        }
    }
    assert forall|name: Seq<char>| whole.guarded.contains(name) <==> parts.guarded.contains(
        name,
    ) by {
        if whole.guarded.contains(name) {
            let i = choose|i: int|
                0 <= i < all.len() && Variables::at(#[trigger] all[i]).guarded.contains(name);
            if i < front.len() {
                assert(Variables::at(front[i]).guarded.contains(name));
            } else {
                assert(Variables::at(back[i - front.len()]).guarded.contains(name));
            }
        }
        if Variables::among(front).guarded.contains(name) {
            let i = choose|i: int|
                0 <= i < front.len() && Variables::at(#[trigger] front[i]).guarded.contains(name);
            assert(Variables::at(all[i]).guarded.contains(name));
        }
        if Variables::among(back).guarded.contains(name) {
            let i = choose|i: int|
                0 <= i < back.len() && Variables::at(#[trigger] back[i]).guarded.contains(name);
            assert(Variables::at(all[front.len() + i]).guarded.contains(name));
        }
    }
    assert(whole =~= parts);
}

/// The names that a sequence of one stop gives are those that the stop
/// gives.
pub proof fn lemma_among_one(visit: Visit<'_>)
    ensures
        Variables::among(seq![visit]) == Variables::at(visit),
{
    let one = seq![visit];
    let whole = Variables::among(one);
    let part = Variables::at(visit);
    assert forall|name: Seq<char>| whole.referenced.contains(name) <==> part.referenced.contains(
        name,
    ) by {
        if part.referenced.contains(name) {
            assert(Variables::at(one[0]).referenced.contains(name));
        }
    }
    assert forall|name: Seq<char>| whole.iterated.contains(name) <==> part.iterated.contains(
        name,
    ) by {
        if part.iterated.contains(name) {
            assert(Variables::at(one[0]).iterated.contains(name));
        }
    }
    assert forall|name: Seq<char>| whole.guarded.contains(name) <==> part.guarded.contains(
        name,
    ) by {
        if part.guarded.contains(name) {
            assert(Variables::at(one[0]).guarded.contains(name));
        }
    }
    assert(whole =~= part);
}

/// Whether a stop is an expression or a part of one.
pub open spec fn in_expression(visit: Visit<'_>) -> bool {
    match visit {
        Visit::Expr(_)
        | Visit::ExprVal(_)
        | Visit::StringExprVal(_)
        | Visit::IntExprVal(_)
        | Visit::FloatExprVal(_)
        | Visit::BoolExprVal(_)
        | Visit::IdentExprVal(_)
        | Visit::MathExprVal(_)
        | Visit::LogicExprVal(_)
        | Visit::TestExprVal(_)
        | Visit::ArrayExprVal(_)
        | Visit::StringConcatExprVal(_)
        | Visit::MacroCall(_)
        | Visit::FunctionCall(_)
        | Visit::InExprVal(_) => true,
        _ => false,
    }
}

/// Whether all the stops of a sequence are expressions or parts of one.
pub open spec fn all_in_expression(visits: Seq<Visit<'_>>) -> bool {
    forall|i: int| 0 <= i < visits.len() ==> in_expression(#[trigger] visits[i])
}

proof fn lemma_expr_stops_in_expression(exprs: Seq<Expr>)
    ensures
        all_in_expression(expr_stops(exprs)),
    decreases exprs.len(),
{
    if exprs.len() > 0 {
        lemma_expr_stops_in_expression(exprs.skip(1));
    }
}

proof fn lemma_arg_stops_in_expression(args: Seq<(String, Expr)>)
    ensures
        all_in_expression(arg_stops(args)),
    decreases args.len(),
{
    if args.len() > 0 {
        lemma_arg_stops_in_expression(args.skip(1));
    }
}

proof fn lemma_call_stops_in_expression(calls: Seq<FunctionCall>)
    ensures
        all_in_expression(call_stops(calls)),
    decreases calls.len(),
{
    if calls.len() > 0 {
        lemma_call_stops_in_expression(calls.skip(1));
    }
}

proof fn lemma_value_stops_in_expression(values: Seq<ExprVal>)
    ensures
        all_in_expression(value_stops(values)),
    decreases values.len(),
{
    if values.len() > 0 {
        lemma_value_stops_in_expression(values.skip(1));
    }
}

proof fn lemma_default_stops_in_expression(params: Seq<(String, Option<Expr>)>)
    ensures
        all_in_expression(default_stops(params)),
    decreases params.len(),
{
    if params.len() > 0 {
        lemma_default_stops_in_expression(params.skip(1));
    }
}

/// Below an expression or a part of one there are only expressions and parts
/// of them.
pub proof fn lemma_below_expression(visit: Visit<'_>)
    requires
        in_expression(visit),
    ensures
        all_in_expression(visit.below()),
{
    match visit {
        Visit::Expr(expr) => {
            lemma_call_stops_in_expression(expr.filters@);
        },
        Visit::TestExprVal(test) => {
            lemma_expr_stops_in_expression(test.args@);
        },
        Visit::ArrayExprVal(array) => {
            lemma_expr_stops_in_expression(array@);
        },
        Visit::StringConcatExprVal(concat) => {
            lemma_value_stops_in_expression(concat.values@);
        },
        Visit::MacroCall(call) => {
            lemma_arg_stops_in_expression(call.args@);
        },
        Visit::FunctionCall(call) => {
            lemma_arg_stops_in_expression(call.args@);
        },
        _ => {},
    }
}

/// What lies at and below a stop refers to what the stop itself gives and to
/// what lies below it.
pub proof fn lemma_names_below(visit: Visit<'_>)
    ensures
        Variables::of(visit) == Variables::at(visit).union(
            Variables::among(stops_all(visit.below())),
        ),
{
    lemma_among_concat(seq![visit], stops_all(visit.below()));
    lemma_among_one(visit);
}

/// What lies at and below a sequence of stops refers to what lies at and
/// below the first and to what lies at and below the others.
pub proof fn lemma_names_cons(head: Visit<'_>, rest: Seq<Visit<'_>>)
    ensures
        Variables::among(stops_all(seq![head] + rest)) == Variables::of(head).union(
            Variables::among(stops_all(rest)),
        ),
{
    lemma_stops_all_concat(seq![head], rest);
    lemma_stops_all_one(head);
    lemma_among_concat(stops(head), stops_all(rest));
}

/// An expression refers to no name, and no part of it does, wherever it
/// stands: a name counts only at the stop for the place that the expression
/// stands in.
pub proof fn lemma_expression_is_silent(visit: Visit<'_>)
    requires
        in_expression(visit),
    ensures
        Variables::of(visit) == Variables::empty(),
    decreases visit.weight(), 1int,
{
    lemma_names_below(visit);
    lemma_below_expression(visit);
    lemma_below_weight(visit);
    lemma_expressions_are_silent(visit.below());
    assert(Variables::at(visit).union(Variables::empty()) =~= Variables::empty());
}

/// A sequence of expressions and parts of expressions refers to no name.
pub proof fn lemma_expressions_are_silent(visits: Seq<Visit<'_>>)
    requires
        all_in_expression(visits),
    ensures
        Variables::among(stops_all(visits)) == Variables::empty(),
    decreases total_weight(visits), 2int,
{
    if visits.len() == 0 {
        assert(Variables::among(stops_all(visits)) =~= Variables::empty());
    } else {
        let rest = visits.skip(1);
        assert(visits =~= seq![visits[0]] + rest);
        assert forall|i: int| 0 <= i < rest.len() implies in_expression(#[trigger] rest[i]) by {
            assert(rest[i] == visits[i + 1]);
        }
        lemma_weight_positive(visits[0]);
        lemma_expression_is_silent(visits[0]);
        lemma_expressions_are_silent(rest);
        lemma_names_cons(visits[0], rest);
        assert(Variables::empty().union(Variables::empty()) =~= Variables::empty());
    }
}

/// A walk that leaves nothing out finds, at and below the stops for a
/// sequence of nodes, the names that the nodes refer to.
proof fn lemma_names_of_nodes(nodes: Seq<Node>)
    ensures
        Variables::among(stops_all(node_stops(nodes))) == names_in(nodes),
    decreases nodes,
{
    if nodes.len() == 0 {
        assert(Variables::among(stops_all(node_stops(nodes))) =~= Variables::empty());
    } else {
        lemma_names_of_node(nodes[0]);
        lemma_names_of_nodes(nodes.skip(1));
        lemma_names_cons(Visit::of(&nodes[0]), node_stops(nodes.skip(1)));
    }
}

/// A walk that leaves nothing out finds, at and below the stop for a body,
/// the names that the body refers to.
proof fn lemma_names_of_ast(nodes: &Vec<Node>)
    ensures
        Variables::of(Visit::Ast(nodes)) == names_in(nodes@),
        Variables::among(stops_all(seq![Visit::Ast(nodes)])) == names_in(nodes@),
    decreases nodes,
{
    lemma_names_below(Visit::Ast(nodes));
    lemma_names_of_nodes(nodes@);
    lemma_stops_all_one(Visit::Ast(nodes));
    assert(Variables::empty().union(names_in(nodes@)) =~= names_in(nodes@));
}

/// A walk that leaves nothing out finds, at and below the stops for the
/// branches of an `if`, the names that the branches refer to.
proof fn lemma_names_of_branches(branches: Seq<(WS, Expr, Vec<Node>)>, first: bool)
    ensures
        Variables::among(stops_all(branch_stops(branches, first))) == names_in_branches(branches),
    decreases branches,
{
    if branches.len() == 0 {
        assert(Variables::among(stops_all(branch_stops(branches, first))) =~= Variables::empty());
    } else {
        let condition = if first {
            Visit::IfExpr(&branches[0].1)
        } else {
            Visit::ElseIfExpr(&branches[0].1)
        };
        let body = Visit::Ast(&branches[0].2);
        let rest = branch_stops(branches.skip(1), false);
        assert(seq![condition, body] + rest =~= seq![condition] + (seq![body] + rest));
        lemma_names_cons(condition, seq![body] + rest);
        lemma_names_cons(body, rest);
        lemma_names_below(condition);
        lemma_expressions_are_silent(condition.below());
        lemma_names_of_ast(&branches[0].2);
        lemma_names_of_branches(branches.skip(1), false);
        assert(Variables::among(stops_all(branch_stops(branches, first))) =~= names_in_branches(
            branches,
        ));
    }
}

/// A walk that leaves nothing out finds, at and below the stop for a node,
/// the names that the node refers to.
proof fn lemma_names_of_node(node: Node)
    ensures
        Variables::of(Visit::of(&node)) == names_in_node(node),
    decreases node,
{
    let visit = Visit::of(&node);
    let below = Variables::among(stops_all(visit.below()));
    lemma_names_below(visit);
    match node {
        Node::VariableBlock(_, expr) => {
            lemma_expressions_are_silent(visit.below());
        },
        Node::SetTag(_, set) => {
            lemma_expressions_are_silent(visit.below());
        },
        Node::Block(_, block, _) => {
            lemma_names_of_ast(&block.body);
        },
        Node::MacroDefinition(_, definition, _) => {
            let defaults = default_stops(definition.args@);
            let body = seq![Visit::Ast(&definition.body)];
            lemma_stops_all_concat(defaults, body);
            lemma_among_concat(stops_all(defaults), stops_all(body));
            lemma_default_stops_in_expression(definition.args@);
            lemma_expressions_are_silent(defaults);
            lemma_names_of_ast(&definition.body);
        },
        Node::FilterSection(_, section, _) => {
            let filter = Visit::FunctionCall(&section.filter);
            let body = seq![Visit::Ast(&section.body)];
            assert(visit.below() =~= seq![filter] + body);
            lemma_names_cons(filter, body);
            lemma_expression_is_silent(filter);
            lemma_names_of_ast(&section.body);
        },
        Node::Forloop(_, forloop, _) => {
            let container = Visit::ForloopExpr(&forloop.container);
            let body = Visit::Ast(&forloop.body);
            let rest = body_stops(forloop.empty_body);
            assert(visit.below() =~= seq![container] + (seq![body] + rest));
            lemma_names_cons(container, seq![body] + rest);
            lemma_names_cons(body, rest);
            lemma_names_below(container);
            lemma_expressions_are_silent(container.below());
            lemma_names_of_ast(&forloop.body);
            match forloop.empty_body {
                Some(nodes) => {
                    lemma_names_of_ast(&nodes);
                },
                None => {
                    assert(Variables::among(stops_all(rest)) =~= Variables::empty());
                },
            }
        },
        Node::If(if_, _) => {
            let branches = branch_stops(if_.conditions@, true);
            lemma_names_of_branches(if_.conditions@, true);
            match if_.otherwise {
                Some(otherwise) => {
                    let body = seq![Visit::Ast(&otherwise.1)];
                    lemma_stops_all_concat(branches, body);
                    lemma_among_concat(stops_all(branches), stops_all(body));
                    lemma_names_of_ast(&otherwise.1);
                },
                None => {
                    let none = Seq::<Visit<'_>>::empty();
                    lemma_stops_all_concat(branches, none);
                    lemma_among_concat(stops_all(branches), stops_all(none));
                    assert(Variables::among(stops_all(none)) =~= Variables::empty());
                },
            }
        },
        _ => {
            assert(below =~= Variables::empty());
        },
    }
    assert(Variables::at(visit).union(below) =~= names_in_node(node));
}

/// The names that a walk which leaves nothing out finds in a tree are the
/// names that the tree refers to.
pub proof fn lemma_names_of_tree(ast: &Vec<Node>)
    ensures
        Variables::of(Visit::Ast(ast)) == names_in(ast@),
{
    lemma_names_of_ast(ast);
}

/// Whether one of the branches of an `if` has the bare identifier `name` for
/// its condition.
pub open spec fn asks_for(branches: Seq<(WS, Expr, Vec<Node>)>, name: Seq<char>) -> bool {
    exists|k: int| 0 <= k < branches.len() && bare_ident(&(#[trigger] branches[k]).1).contains(name)
}

/// Whether a node by itself, without its bodies, uses `name` in the role
/// `role`: an interpolation refers to the bare identifier that it
/// interpolates, a `for` refers to and iterates over the bare identifier that
/// is its container, an `if` refers to and asks for the bare identifiers that
/// are its conditions. No other node uses a name.
pub open spec fn uses(node: Node, role: Role, name: Seq<char>) -> bool {
    match node {
        Node::VariableBlock(_, expr) => role == Role::Referenced && bare_ident(&expr).contains(
            name,
        ),
        Node::Forloop(_, forloop, _) => role != Role::Guarded && bare_ident(
            &forloop.container,
        ).contains(name),
        Node::If(if_, _) => role != Role::Iterated && asks_for(if_.conditions@, name),
        _ => false,
    }
}

/// The names that a node of a tree refers to are names that the tree refers
/// to.
pub proof fn lemma_tree_names(nodes: Seq<Node>, node: Node)
    requires
        tree_has(nodes, node),
    ensures
        names_in_node(node).within(names_in(nodes)),
    decreases nodes,
{
    if nodes[0] == node {
    } else if node_has(nodes[0], node) {
        lemma_node_names(nodes[0], node);
    } else {
        lemma_tree_names(nodes.skip(1), node);
    }
}

/// The names that a node in a body of another refers to are names that the
/// other refers to.
pub proof fn lemma_node_names(parent: Node, node: Node)
    requires
        node_has(parent, node),
    ensures
        names_in_node(node).within(names_in_node(parent)),
    decreases parent,
{
    match parent {
        Node::MacroDefinition(_, definition, _) => {
            lemma_tree_names(definition.body@, node);
        },
        Node::FilterSection(_, section, _) => {
            lemma_tree_names(section.body@, node);
        },
        Node::Block(_, block, _) => {
            lemma_tree_names(block.body@, node);
        },
        Node::Forloop(_, forloop, _) => {
            if tree_has(forloop.body@, node) {
                lemma_tree_names(forloop.body@, node);
            } else {
                match forloop.empty_body {
                    Some(nodes) => {
                        lemma_tree_names(nodes@, node);
                    },
                    None => {},
                }
            }
        },
        Node::If(if_, _) => {
            if branches_have(if_.conditions@, node) {
                lemma_branches_names(if_.conditions@, node);
            } else {
                match if_.otherwise {
                    Some(otherwise) => {
                        lemma_tree_names(otherwise.1@, node);
                    },
                    None => {},
                }
            }
        },
        _ => {},
    }
}

/// The names that a node in the body of a branch of an `if` refers to are
/// names that the branches refer to.
pub proof fn lemma_branches_names(branches: Seq<(WS, Expr, Vec<Node>)>, node: Node)
    requires
        branches_have(branches, node),
    ensures
        names_in_node(node).within(names_in_branches(branches)),
    decreases branches,
{
    if tree_has(branches[0].2@, node) {
        lemma_tree_names(branches[0].2@, node);
    } else {
        lemma_branches_names(branches.skip(1), node);
    }
}

/// The branches of an `if` refer to, and ask for, the bare identifiers that
/// their conditions are.
pub proof fn lemma_branches_ask(branches: Seq<(WS, Expr, Vec<Node>)>, name: Seq<char>)
    requires
        asks_for(branches, name),
    ensures
        names_in_branches(branches).referenced.contains(name),
        names_in_branches(branches).guarded.contains(name),
    decreases branches.len(),
{
    let k = choose|k: int|
        0 <= k < branches.len() && bare_ident(&(#[trigger] branches[k]).1).contains(name);
    if k > 0 {
        let rest = branches.skip(1);
        assert(bare_ident(&rest[k - 1].1).contains(name));
        lemma_branches_ask(rest, name);
    }
}

/// What a node by itself uses a name as, the tree that holds the node uses
/// the name as.
pub proof fn lemma_used_names_count(nodes: Seq<Node>, node: Node, role: Role, name: Seq<char>)
    requires
        tree_has(nodes, node),
        uses(node, role, name),
    ensures
        names_in(nodes).holds(role, name),
{
    lemma_tree_names(nodes, node);
    match node {
        Node::If(if_, _) => {
            lemma_branches_ask(if_.conditions@, name);
        },
        _ => {},
    }
    assert(names_in_node(node).holds(role, name));
}

/// A bare identifier that a template interpolates is referred to.
pub proof fn lemma_interpolated_is_referenced(
    nodes: Seq<Node>,
    ws: WS,
    expr: Expr,
    name: Seq<char>,
)
    requires
        tree_has(nodes, Node::VariableBlock(ws, expr)),
        bare_ident(&expr).contains(name),
    ensures
        names_in(nodes).referenced.contains(name),
{
    lemma_used_names_count(nodes, Node::VariableBlock(ws, expr), Role::Referenced, name);
}

/// A bare identifier that a `for` of a template iterates over is referred to
/// and iterated over.
pub proof fn lemma_container_is_iterated(
    nodes: Seq<Node>,
    left_ws: WS,
    forloop: Forloop,
    right_ws: WS,
    name: Seq<char>,
)
    requires
        tree_has(nodes, Node::Forloop(left_ws, forloop, right_ws)),
        bare_ident(&forloop.container).contains(name),
    ensures
        names_in(nodes).referenced.contains(name),
        names_in(nodes).iterated.contains(name),
{
    let node = Node::Forloop(left_ws, forloop, right_ws);
    lemma_used_names_count(nodes, node, Role::Referenced, name);
    lemma_used_names_count(nodes, node, Role::Iterated, name);
}

/// The names that a `for` binds have no part in what it refers to: two loops
/// over the same container with the same bodies refer to the same names,
/// whatever they call the key and the value.
pub proof fn lemma_loop_names_do_not_count(
    left_ws: WS,
    forloop: Forloop,
    right_ws: WS,
    other_left_ws: WS,
    other: Forloop,
    other_right_ws: WS,
)
    requires
        forloop.container == other.container,
        forloop.body == other.body,
        forloop.empty_body == other.empty_body,
    ensures
        names_in_node(Node::Forloop(left_ws, forloop, right_ws)) == names_in_node(
            Node::Forloop(other_left_ws, other, other_right_ws),
        ),
{
}

/// A bare identifier that is the condition of an `if` or of an `elif` of a
/// template is referred to and asked for.
pub proof fn lemma_condition_is_guarded(
    nodes: Seq<Node>,
    if_: If,
    ws: WS,
    branch: int,
    name: Seq<char>,
)
    requires
        tree_has(nodes, Node::If(if_, ws)),
        0 <= branch < if_.conditions.len(),
        bare_ident(&if_.conditions[branch].1).contains(name),
    ensures
        names_in(nodes).referenced.contains(name),
        names_in(nodes).guarded.contains(name),
{
    let node = Node::If(if_, ws);
    assert(bare_ident(&if_.conditions@[branch].1).contains(name));
    assert(asks_for(if_.conditions@, name));
    lemma_used_names_count(nodes, node, Role::Referenced, name);
    lemma_used_names_count(nodes, node, Role::Guarded, name);
}

/// A name that a tree uses in a role is used in that role by a node of the
/// tree: the node that is handed back.
pub proof fn lemma_name_comes_of_tree(nodes: Seq<Node>, role: Role, name: Seq<char>) -> (node:
    Node)
    requires
        names_in(nodes).holds(role, name),
    ensures
        tree_has(nodes, node),
        uses(node, role, name),
    decreases nodes,
{
    if names_in_node(nodes[0]).holds(role, name) {
        lemma_name_comes_of_node(nodes[0], role, name)
    } else {
        lemma_name_comes_of_tree(nodes.skip(1), role, name)
    }
}

/// A name that a node uses in a role, with its bodies, is used in that role
/// by the node itself or by a node in one of its bodies: the node that is
/// handed back.
pub proof fn lemma_name_comes_of_node(parent: Node, role: Role, name: Seq<char>) -> (node: Node)
    requires
        names_in_node(parent).holds(role, name),
    ensures
        node == parent || node_has(parent, node),
        uses(node, role, name),
    decreases parent,
{
    match parent {
        Node::VariableBlock(_, _) => parent,
        Node::MacroDefinition(_, definition, _) => lemma_name_comes_of_tree(
            definition.body@,
            role,
            name,
        ),
        Node::FilterSection(_, section, _) => lemma_name_comes_of_tree(section.body@, role, name),
        Node::Block(_, block, _) => lemma_name_comes_of_tree(block.body@, role, name),
        Node::Forloop(_, forloop, _) => {
            if Variables::also_iterated(bare_ident(&forloop.container)).holds(role, name) {
                parent
            } else if names_in(forloop.body@).holds(role, name) {
                lemma_name_comes_of_tree(forloop.body@, role, name)
            } else {
                match forloop.empty_body {
                    Some(nodes) => lemma_name_comes_of_tree(nodes@, role, name),
                    None => parent,
                }
            }
        },
        Node::If(if_, _) => {
            if names_in_branches(if_.conditions@).holds(role, name) {
                match lemma_name_comes_of_branches(if_.conditions@, role, name) {
                    Some(node) => node,
                    None => parent,
                }
            } else {
                match if_.otherwise {
                    Some(otherwise) => lemma_name_comes_of_tree(otherwise.1@, role, name),
                    None => parent,
                }
            }
        },
        _ => parent,
    }
}

/// A name that the branches of an `if` use in a role is used in that role by
/// a node in the body of one of them, which is handed back, or is the bare
/// identifier that one of the conditions is.
pub proof fn lemma_name_comes_of_branches(
    branches: Seq<(WS, Expr, Vec<Node>)>,
    role: Role,
    name: Seq<char>,
) -> (found: Option<Node>)
    requires
        names_in_branches(branches).holds(role, name),
    ensures
        match found {
            Some(node) => branches_have(branches, node) && uses(node, role, name),
            None => role != Role::Iterated && asks_for(branches, name),
        },
    decreases branches,
{
    if Variables::also_guarded(bare_ident(&branches[0].1)).holds(role, name) {
        assert(bare_ident(&branches[0].1).contains(name));
        None
    } else if names_in(branches[0].2@).holds(role, name) {
        Some(lemma_name_comes_of_tree(branches[0].2@, role, name))
    } else {
        let rest = branches.skip(1);
        let found = lemma_name_comes_of_branches(rest, role, name);
        if found is None {
            let k = choose|k: int|
                0 <= k < rest.len() && bare_ident(&(#[trigger] rest[k]).1).contains(name);
            assert(bare_ident(&branches[k + 1].1).contains(name));
        }
        found
    }
}

/// A name is in one of the three sets only if a node of the tree uses it in
/// that role: a name that occurs elsewhere only, as an argument of a filter,
/// of a function or of a macro, as an operand or as an element of an array,
/// is in none of them.
pub proof fn lemma_only_bare_identifiers_count(nodes: Seq<Node>, role: Role, name: Seq<char>)
    requires
        forall|node: Node| tree_has(nodes, node) ==> !uses(node, role, name),
    ensures
        !names_in(nodes).holds(role, name),
{
    if names_in(nodes).holds(role, name) {
        let node = lemma_name_comes_of_tree(nodes, role, name);
        assert(tree_has(nodes, node));
    }
}

/// A name that is iterated over or asked for is referred to.
pub proof fn lemma_roles_are_references(nodes: Seq<Node>)
    ensures
        names_in(nodes).iterated.subset_of(names_in(nodes).referenced),
        names_in(nodes).guarded.subset_of(names_in(nodes).referenced),
{
    assert forall|name: Seq<char>| names_in(nodes).iterated.contains(name) implies names_in(
        nodes,
    ).referenced.contains(name) by {
        let node = lemma_name_comes_of_tree(nodes, Role::Iterated, name);
        lemma_used_names_count(nodes, node, Role::Referenced, name);
    }
    assert forall|name: Seq<char>| names_in(nodes).guarded.contains(name) implies names_in(
        nodes,
    ).referenced.contains(name) by {
        let node = lemma_name_comes_of_tree(nodes, Role::Guarded, name);
        lemma_used_names_count(nodes, node, Role::Referenced, name);
    }
}

} // verus!
