//! The stops of a walk over a syntax tree, and what lies below each of them.
//!
//! A walk calls a hook at every [`Visit`] it reaches. [`Visit::below`] gives,
//! in document order, the stops that lie directly below one: this is the one
//! place that says how a tree is walked, and both flavors of visitor go by it.

use crate::ast::{
    branches_have, node_has, tree_has, Block, Expr, ExprVal, FilterSection, Forloop,
    FunctionCall, If, In, LogicExpr, MacroCall, MacroDefinition, MathExpr, Node, SetTag,
    StringConcat, Test, WS,
};
use crate::measure::{
    lemma_below_weight, lemma_total_weight_index, lemma_weight_positive, total_weight,
};
use vstd::prelude::*;

verus! {

/// What a hook tells the walk to do below the stop it was called for.
#[derive(Clone, Copy, Debug, PartialEq, Eq, Structural)]
pub enum Flow {
    /// Go on into whatever lies below.
    Descend,
    /// Leave out everything below, and go on behind it.
    Skip,
}

/// One stop of a walk: the piece of the tree that a hook is called for.
///
/// There is one kind of stop for each kind of node and of expression value,
/// one for a sequence of nodes and one for an expression as a whole. Three
/// more tell an expression in a special place from any other: the container
/// of a `for`, the condition of an `if` and the condition of an `elif`.
#[derive(Clone, Copy, Debug)]
pub enum Visit<'a> {
    /// A sequence of nodes: a whole template, or the body of a tag
    Ast(&'a Vec<Node>),
    /// A `{{ super() }}`
    Super,
    /// Literal text
    Text(&'a String),
    /// An interpolation, `{{ expr }}`
    VariableBlock(&'a WS, &'a Expr),
    /// The definition of a macro
    MacroDefinition(&'a WS, &'a MacroDefinition, &'a WS),
    /// An `{% extends %}` with the name of the parent
    Extends(&'a WS, &'a String),
    /// An `{% include %}` with the candidate names and whether a missing
    /// template is ignored
    Include(&'a WS, &'a Vec<String>, bool),
    /// An `{% import %}` with the path and the namespace
    ImportMacro(&'a WS, &'a String, &'a String),
    /// A `{% set %}`
    SetTag(&'a WS, &'a SetTag),
    /// A `{% raw %}` with its text
    Raw(&'a WS, &'a String, &'a WS),
    /// A `{% filter %}` section
    FilterSection(&'a WS, &'a FilterSection, &'a WS),
    /// A `{% block %}`
    Block(&'a WS, &'a Block, &'a WS),
    /// A `{% for %}`
    Forloop(&'a WS, &'a Forloop, &'a WS),
    /// The expression a `for` iterates over
    ForloopExpr(&'a Expr),
    /// An `{% if %}` with all its branches
    If(&'a If, &'a WS),
    /// The condition of an `if`
    IfExpr(&'a Expr),
    /// The condition of an `elif`
    ElseIfExpr(&'a Expr),
    /// A `{% break %}`
    Break(&'a WS),
    /// A `{% continue %}`
    Continue(&'a WS),
    /// A comment with its text
    Comment(&'a WS, &'a String),
    /// An expression: a value and its filters
    Expr(&'a Expr),
    /// The value of an expression, of whatever kind
    ExprVal(&'a ExprVal),
    /// A string literal
    StringExprVal(&'a String),
    /// An integer literal
    IntExprVal(i64),
    /// A floating-point literal, as the bits of its IEEE 754 binary64 form
    FloatExprVal(u64),
    /// A boolean literal
    BoolExprVal(bool),
    /// A reference to a name
    IdentExprVal(&'a String),
    /// An arithmetic expression
    MathExprVal(&'a MathExpr),
    /// A comparison or a boolean expression
    LogicExprVal(&'a LogicExpr),
    /// A test
    TestExprVal(&'a Test),
    /// An array literal
    ArrayExprVal(&'a Vec<Expr>),
    /// A concatenation
    StringConcatExprVal(&'a StringConcat),
    /// A call of a macro
    MacroCall(&'a MacroCall),
    /// A call of a filter or of a global function
    FunctionCall(&'a FunctionCall),
    /// A containment check
    InExprVal(&'a In),
}

/// The stops for the nodes of a sequence, in order.
pub open spec fn node_stops<'a>(nodes: Seq<Node>) -> Seq<Visit<'a>>
    decreases nodes.len(),
{
    if nodes.len() == 0 {
        seq![]
    } else {
        seq![Visit::of(&nodes[0])] + node_stops(nodes.skip(1))
    }
}

/// The stops for a sequence of expressions, in order.
pub open spec fn expr_stops<'a>(exprs: Seq<Expr>) -> Seq<Visit<'a>>
    decreases exprs.len(),
{
    if exprs.len() == 0 {
        seq![]
    } else {
        seq![Visit::Expr(&exprs[0])] + expr_stops(exprs.skip(1))
    }
}

/// The stops for the values of named arguments, in order.
pub open spec fn arg_stops<'a>(args: Seq<(String, Expr)>) -> Seq<Visit<'a>>
    decreases args.len(),
{
    if args.len() == 0 {
        seq![]
    } else {
        seq![Visit::Expr(&args[0].1)] + arg_stops(args.skip(1))
    }
}

/// The stops for a sequence of calls, in order.
pub open spec fn call_stops<'a>(calls: Seq<FunctionCall>) -> Seq<Visit<'a>>
    decreases calls.len(),
{
    if calls.len() == 0 {
        seq![]
    } else {
        seq![Visit::FunctionCall(&calls[0])] + call_stops(calls.skip(1))
    }
}

/// The stops for the parts of a concatenation, in order.
pub open spec fn value_stops<'a>(values: Seq<ExprVal>) -> Seq<Visit<'a>>
    decreases values.len(),
{
    if values.len() == 0 {
        seq![]
    } else {
        seq![Visit::ExprVal(&values[0])] + value_stops(values.skip(1))
    }
}

/// The stops for the default values of a macro's parameters, in order. A
/// parameter without a default value has no stop.
pub open spec fn default_stops<'a>(params: Seq<(String, Option<Expr>)>) -> Seq<Visit<'a>>
    decreases params.len(),
{
    if params.len() == 0 {
        seq![]
    } else {
        match params[0].1 {
            Some(expr) => seq![Visit::Expr(&expr)] + default_stops(params.skip(1)),
            None => default_stops(params.skip(1)),
        }
    }
}

/// The stops for the branches of an `if` that have a condition: for each
/// branch its condition, then its body. The first branch of an `if` is the
/// `if` itself (`first`), the others are its `elif`s.
pub open spec fn branch_stops<'a>(branches: Seq<(WS, Expr, Vec<Node>)>, first: bool) -> Seq<
    Visit<'a>,
>
    decreases branches.len(),
{
    if branches.len() == 0 {
        seq![]
    } else {
        let condition = if first {
            Visit::IfExpr(&branches[0].1)
        } else {
            Visit::ElseIfExpr(&branches[0].1)
        };
        seq![condition, Visit::Ast(&branches[0].2)] + branch_stops(branches.skip(1), false)
    }
}

/// The stop for an optional body: none if there is no such body.
pub open spec fn body_stops<'a>(body: Option<Vec<Node>>) -> Seq<Visit<'a>> {
    match body {
        Some(nodes) => seq![Visit::Ast(&nodes)],
        None => seq![],
    }
}

impl<'a> Visit<'a> {
    /// The stop for a node.
    pub open spec fn of(node: &'a Node) -> Visit<'a> {
        match node {
            Node::Super => Visit::Super,
            Node::Text(text) => Visit::Text(text),
            Node::VariableBlock(ws, expr) => Visit::VariableBlock(ws, expr),
            Node::MacroDefinition(left_ws, definition, right_ws) => Visit::MacroDefinition(
                left_ws,
                definition,
                right_ws,
            ),
            Node::Extends(ws, name) => Visit::Extends(ws, name),
            Node::Include(ws, names, ignore_missing) => Visit::Include(ws, names, *ignore_missing),
            Node::ImportMacro(ws, path, name) => Visit::ImportMacro(ws, path, name),
            Node::SetTag(ws, set) => Visit::SetTag(ws, set),
            Node::Raw(left_ws, text, right_ws) => Visit::Raw(left_ws, text, right_ws),
            Node::FilterSection(left_ws, section, right_ws) => Visit::FilterSection(
                left_ws,
                section,
                right_ws,
            ),
            Node::Block(left_ws, block, right_ws) => Visit::Block(left_ws, block, right_ws),
            Node::Forloop(left_ws, forloop, right_ws) => Visit::Forloop(
                left_ws,
                forloop,
                right_ws,
            ),
            Node::If(if_, ws) => Visit::If(if_, ws),
            Node::Break(ws) => Visit::Break(ws),
            Node::Continue(ws) => Visit::Continue(ws),
            Node::Comment(ws, text) => Visit::Comment(ws, text),
        }
    }

    /// The stop for a value of the kind that it is of.
    pub open spec fn of_val(val: &'a ExprVal) -> Visit<'a> {
        match val {
            ExprVal::String(s) => Visit::StringExprVal(s),
            ExprVal::Int(i) => Visit::IntExprVal(*i),
            ExprVal::Float(bits) => Visit::FloatExprVal(*bits),
            ExprVal::Bool(b) => Visit::BoolExprVal(*b),
            ExprVal::Ident(ident) => Visit::IdentExprVal(ident),
            ExprVal::Math(math) => Visit::MathExprVal(math),
            ExprVal::Logic(logic) => Visit::LogicExprVal(logic),
            ExprVal::Test(test) => Visit::TestExprVal(test),
            ExprVal::MacroCall(call) => Visit::MacroCall(call),
            ExprVal::FunctionCall(call) => Visit::FunctionCall(call),
            ExprVal::Array(array) => Visit::ArrayExprVal(array),
            ExprVal::StringConcat(concat) => Visit::StringConcatExprVal(concat),
            ExprVal::In(in_) => Visit::InExprVal(in_),
        }
    }

    /// The stops directly below this one, in document order.
    ///
    /// This is what a walk goes through after the hook for this stop has
    /// told it to descend.
    pub open spec fn below(self) -> Seq<Visit<'a>> {
        match self {
            Visit::Ast(nodes) => node_stops(nodes@),
            Visit::VariableBlock(_, expr) => seq![Visit::Expr(expr)],
            Visit::MacroDefinition(_, definition, _) => default_stops(definition.args@)
                + seq![Visit::Ast(&definition.body)],
            Visit::SetTag(_, set) => seq![Visit::Expr(&set.value)],
            Visit::FilterSection(_, section, _) => seq![
                Visit::FunctionCall(&section.filter),
                Visit::Ast(&section.body),
            ],
            Visit::Block(_, block, _) => seq![Visit::Ast(&block.body)],
            Visit::Forloop(_, forloop, _) => seq![
                Visit::ForloopExpr(&forloop.container),
                Visit::Ast(&forloop.body),
            ] + body_stops(forloop.empty_body),
            Visit::ForloopExpr(expr) => seq![Visit::Expr(expr)],
            Visit::If(if_, _) => branch_stops(if_.conditions@, true) + match if_.otherwise {
                Some(otherwise) => seq![Visit::Ast(&otherwise.1)],
                None => seq![],
            },
            Visit::IfExpr(expr) => seq![Visit::Expr(expr)],
            Visit::ElseIfExpr(expr) => seq![Visit::Expr(expr)],
            Visit::Expr(expr) => seq![Visit::ExprVal(&expr.val)] + call_stops(expr.filters@),
            Visit::ExprVal(val) => seq![Visit::of_val(val)],
            Visit::MathExprVal(math) => seq![Visit::Expr(&*math.lhs), Visit::Expr(&*math.rhs)],
            Visit::LogicExprVal(logic) => seq![
                Visit::Expr(&*logic.lhs),
                Visit::Expr(&*logic.rhs),
            ],
            Visit::TestExprVal(test) => expr_stops(test.args@),
            Visit::ArrayExprVal(array) => expr_stops(array@),
            Visit::StringConcatExprVal(concat) => value_stops(concat.values@),
            Visit::MacroCall(call) => arg_stops(call.args@),
            Visit::FunctionCall(call) => arg_stops(call.args@),
            Visit::InExprVal(in_) => seq![Visit::Expr(&*in_.lhs), Visit::Expr(&*in_.rhs)],
            Visit::Super
            | Visit::Text(_)
            | Visit::Extends(_, _)
            | Visit::Include(_, _, _)
            | Visit::ImportMacro(_, _, _)
            | Visit::Raw(_, _, _)
            | Visit::Break(_)
            | Visit::Continue(_)
            | Visit::Comment(_, _)
            | Visit::StringExprVal(_)
            | Visit::IntExprVal(_)
            | Visit::FloatExprVal(_)
            | Visit::BoolExprVal(_)
            | Visit::IdentExprVal(_) => seq![],
        }
    }
}

/// All the stops of a walk that enters `visit` and leaves nothing out, in the
/// order in which it reaches them: `visit` itself, then everything below it.
pub open spec fn stops<'a>(visit: Visit<'a>) -> Seq<Visit<'a>>
    decreases visit.weight(), 1int,
{
    proof {
        lemma_below_weight(visit);
    }
    seq![visit] + stops_all(visit.below())
}

/// All the stops of a walk that enters `visits` one after the other and
/// leaves nothing out, in the order in which it reaches them.
pub open spec fn stops_all<'a>(visits: Seq<Visit<'a>>) -> Seq<Visit<'a>>
    decreases total_weight(visits), 2int,
{
    if visits.len() == 0 {
        seq![]
    } else {
        proof {
            lemma_weight_positive(visits[0]);
        }
        stops(visits[0]) + stops_all(visits.skip(1))
    }
}

/// A walk that enters two sequences of stops one after the other reaches what
/// it reaches from the first, and then what it reaches from the second.
pub proof fn lemma_stops_all_concat<'a>(front: Seq<Visit<'a>>, back: Seq<Visit<'a>>)
    ensures
        stops_all(front + back) == stops_all(front) + stops_all(back),
    decreases front.len(),
{
    if front.len() == 0 {
        assert(front + back =~= back);
        assert(stops_all(front) + stops_all(back) =~= stops_all(back));
    } else {
        assert((front + back).skip(1) =~= front.skip(1) + back);
        lemma_stops_all_concat(front.skip(1), back);
        assert(stops((front + back)[0]) + (stops_all(front.skip(1)) + stops_all(back)) =~= (stops(
            front[0],
        ) + stops_all(front.skip(1))) + stops_all(back));
    }
}

/// A walk that enters one stop reaches what it reaches from that stop.
pub proof fn lemma_stops_all_one(visit: Visit<'_>)
    ensures
        stops_all(seq![visit]) == stops(visit),
{
    assert(seq![visit].skip(1) =~= Seq::<Visit<'_>>::empty());
    assert(stops(visit) + stops_all(seq![visit].skip(1)) =~= stops(visit));
}

/// A walk that enters a stop reaches that stop first.
pub proof fn lemma_stops_first(visit: Visit<'_>)
    ensures
        stops(visit).len() > 0,
        stops(visit)[0] == visit,
{
}

/// What a walk reaches from one of several stops, it reaches from all of
/// them.
pub proof fn lemma_stops_all_holds<'a>(visits: Seq<Visit<'a>>, k: int, stop: Visit<'a>)
    requires
        0 <= k < visits.len(),
        stops(visits[k]).contains(stop),
    ensures
        stops_all(visits).contains(stop),
    decreases visits.len(),
{
    let front = stops(visits[0]);
    let back = stops_all(visits.skip(1));
    if k == 0 {
        let i = choose|i: int| 0 <= i < front.len() && front[i] == stop;
        assert((front + back)[i] == stop);
    } else {
        lemma_stops_all_holds(visits.skip(1), k - 1, stop);
        let i = choose|i: int| 0 <= i < back.len() && back[i] == stop;
        assert((front + back)[front.len() + i] == stop);
    }
}

/// What a walk reaches from several stops, it reaches from one of them.
pub proof fn lemma_stops_all_from<'a>(visits: Seq<Visit<'a>>, stop: Visit<'a>) -> (k: int)
    requires
        stops_all(visits).contains(stop),
    ensures
        0 <= k < visits.len(),
        stops(visits[k]).contains(stop),
    decreases visits.len(),
{
    if visits.len() == 0 {
        0
    } else {
        let front = stops(visits[0]);
        let back = stops_all(visits.skip(1));
        let i = choose|i: int| 0 <= i < (front + back).len() && (front + back)[i] == stop;
        if i < front.len() {
            assert(front[i] == stop);
            0
        } else {
            assert(back[i - front.len()] == stop);
            lemma_stops_all_from(visits.skip(1), stop) + 1
        }
    }
}

/// What a walk reaches from a stop that it reaches, it reaches.
pub proof fn lemma_stops_transitive<'a>(root: Visit<'a>, mid: Visit<'a>, stop: Visit<'a>)
    requires
        stops(root).contains(mid),
        stops(mid).contains(stop),
    ensures
        stops(root).contains(stop),
    decreases root.weight(),
{
    if mid != root {
        let below = root.below();
        let rest = stops_all(below);
        let i = choose|i: int| 0 <= i < stops(root).len() && stops(root)[i] == mid;
        assert(rest[i - 1] == mid);
        let k = lemma_stops_all_from(below, mid);
        lemma_below_weight(root);
        lemma_total_weight_index(below, k);
        lemma_stops_transitive(below[k], mid, stop);
        lemma_stops_all_holds(below, k, stop);
        let j = choose|j: int| 0 <= j < rest.len() && rest[j] == stop;
        assert(stops(root)[j + 1] == stop);
    }
}

/// A walk that reaches a stop reaches every stop directly below it.
pub proof fn lemma_stops_below<'a>(root: Visit<'a>, mid: Visit<'a>, k: int)
    requires
        stops(root).contains(mid),
        0 <= k < mid.below().len(),
    ensures
        stops(root).contains(mid.below()[k]),
{
    let stop = mid.below()[k];
    let rest = stops_all(mid.below());
    lemma_stops_first(stop);
    assert(stops(stop).contains(stop));
    lemma_stops_all_holds(mid.below(), k, stop);
    let j = choose|j: int| 0 <= j < rest.len() && rest[j] == stop;
    assert(stops(mid)[j + 1] == stop);
    lemma_stops_transitive(root, mid, stop);
}

/// The stops for the branches of an `if`: two for each branch, its
/// condition and then its body.
pub proof fn lemma_branch_stops_index(
    branches: Seq<(WS, Expr, Vec<Node>)>,
    first: bool,
    k: int,
)
    requires
        0 <= k < branches.len(),
    ensures
        branch_stops(branches, first).len() == 2 * branches.len(),
        branch_stops(branches, first)[2 * k] == if first && k == 0 {
            Visit::IfExpr(&branches[k].1)
        } else {
            Visit::ElseIfExpr(&branches[k].1)
        },
        branch_stops(branches, first)[2 * k + 1] == Visit::Ast(&branches[k].2),
    decreases branches.len(),
{
    lemma_branch_stops_len(branches.skip(1), false);
    if k > 0 {
        lemma_branch_stops_index(branches.skip(1), false, k - 1);
    }
}

/// There are two stops for each branch of an `if`.
pub proof fn lemma_branch_stops_len(branches: Seq<(WS, Expr, Vec<Node>)>, first: bool)
    ensures
        branch_stops(branches, first).len() == 2 * branches.len(),
    decreases branches.len(),
{
    if branches.len() > 0 {
        lemma_branch_stops_len(branches.skip(1), false);
    }
}

/// There is one stop for each node of a sequence, in the order of the nodes.
pub proof fn lemma_node_stops_index(nodes: Seq<Node>, i: int)
    requires
        0 <= i < nodes.len(),
    ensures
        node_stops(nodes).len() == nodes.len(),
        node_stops(nodes)[i] == Visit::of(&nodes[i]),
    decreases nodes.len(),
{
    lemma_node_stops_len(nodes.skip(1));
    if i > 0 {
        lemma_node_stops_index(nodes.skip(1), i - 1);
    }
}

/// There is one stop for each node of a sequence.
pub proof fn lemma_node_stops_len(nodes: Seq<Node>)
    ensures
        node_stops(nodes).len() == nodes.len(),
    decreases nodes.len(),
{
    if nodes.len() > 0 {
        lemma_node_stops_len(nodes.skip(1));
    }
}

/// A node of a tree is one of its first nodes or lies in the body of one of
/// them: the place of that one is handed back.
pub proof fn lemma_tree_has_at(nodes: Seq<Node>, node: Node) -> (i: int)
    requires
        tree_has(nodes, node),
    ensures
        0 <= i < nodes.len(),
        nodes[i] == node || node_has(nodes[i], node),
    decreases nodes.len(),
{
    if nodes[0] == node || node_has(nodes[0], node) {
        0
    } else {
        lemma_tree_has_at(nodes.skip(1), node) + 1
    }
}

/// A node in the body of a branch of an `if` lies in the body of one branch:
/// the place of that one is handed back.
pub proof fn lemma_branches_have_at(branches: Seq<(WS, Expr, Vec<Node>)>, node: Node) -> (k: int)
    requires
        branches_have(branches, node),
    ensures
        0 <= k < branches.len(),
        tree_has(branches[k].2@, node),
    decreases branches.len(),
{
    if tree_has(branches[0].2@, node) {
        0
    } else {
        lemma_branches_have_at(branches.skip(1), node) + 1
    }
}

/// A walk that leaves nothing out reaches every node of the tree that it
/// enters, however deep the node lies.
pub proof fn lemma_tree_is_walked(nodes: &Vec<Node>, node: Node)
    requires
        tree_has(nodes@, node),
    ensures
        stops(Visit::Ast(nodes)).contains(Visit::of(&node)),
    decreases nodes,
{
    let root = Visit::Ast(nodes);
    let i = lemma_tree_has_at(nodes@, node);
    lemma_node_stops_index(nodes@, i);
    lemma_stops_first(root);
    lemma_stops_below(root, root, i);
    if nodes@[i] != node {
        lemma_node_is_walked(nodes@[i], node);
        lemma_stops_transitive(root, Visit::of(&nodes@[i]), Visit::of(&node));
    }
}

/// A walk that leaves nothing out and enters a node reaches every node that
/// lies in its bodies, however deep.
pub proof fn lemma_node_is_walked(parent: Node, node: Node)
    requires
        node_has(parent, node),
    ensures
        stops(Visit::of(&parent)).contains(Visit::of(&node)),
    decreases parent,
{
    let root = Visit::of(&parent);
    let target = Visit::of(&node);
    lemma_stops_first(root);
    match parent {
        Node::MacroDefinition(_, definition, _) => {
            let body = Visit::Ast(&definition.body);
            let k = default_stops(definition.args@).len() as int;
            assert(root.below()[k] == body);
            lemma_stops_below(root, root, k);
            lemma_tree_is_walked(&definition.body, node);
            lemma_stops_transitive(root, body, target);
        },
        Node::FilterSection(_, section, _) => {
            let body = Visit::Ast(&section.body);
            assert(root.below()[1] == body);
            lemma_stops_below(root, root, 1);
            lemma_tree_is_walked(&section.body, node);
            lemma_stops_transitive(root, body, target);
        },
        Node::Block(_, block, _) => {
            let body = Visit::Ast(&block.body);
            assert(root.below()[0] == body);
            lemma_stops_below(root, root, 0);
            lemma_tree_is_walked(&block.body, node);
            lemma_stops_transitive(root, body, target);
        },
        Node::Forloop(_, forloop, _) => {
            if tree_has(forloop.body@, node) {
                let body = Visit::Ast(&forloop.body);
                assert(root.below()[1] == body);
                lemma_stops_below(root, root, 1);
                lemma_tree_is_walked(&forloop.body, node);
                lemma_stops_transitive(root, body, target);
            } else {
                match forloop.empty_body {
                    Some(nodes) => {
                        let body = Visit::Ast(&nodes);
                        assert(root.below()[2] == body);
                        lemma_stops_below(root, root, 2);
                        lemma_tree_is_walked(&nodes, node);
                        lemma_stops_transitive(root, body, target);
                    },
                    None => {},
                }
            }
        },
        Node::If(if_, _) => {
            let branches = if_.conditions@;
            lemma_branch_stops_len(branches, true);
            if branches_have(branches, node) {
                let k = lemma_branches_have_at(branches, node);
                let body = Visit::Ast(&branches[k].2);
                lemma_branch_stops_index(branches, true, k);
                assert(root.below()[2 * k + 1] == body);
                lemma_stops_below(root, root, 2 * k + 1);
                lemma_tree_is_walked(&branches[k].2, node);
                lemma_stops_transitive(root, body, target);
            } else {
                match if_.otherwise {
                    Some(otherwise) => {
                        let body = Visit::Ast(&otherwise.1);
                        let k = 2 * branches.len() as int;
                        assert(root.below()[k] == body);
                        lemma_stops_below(root, root, k);
                        lemma_tree_is_walked(&otherwise.1, node);
                        lemma_stops_transitive(root, body, target);
                    },
                    None => {},
                }
            }
        },
        _ => {},
    }
}

} // verus!
