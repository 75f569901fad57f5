//! The pass that finds the names a template refers to, and the role each of
//! them is used in.
//!
//! Only a bare identifier counts, that is an expression whose value is a
//! reference to a name and nothing more, and only in four places: as the
//! expression of an interpolation, as the container of a `for`, as the
//! condition of an `if` and as the condition of an `elif`. Everything else is
//! walked and passed over.

use crate::ast::{Ast, Expr, ExprVal, Node, WS};
use crate::names::{
    lemma_among_concat, lemma_among_one, lemma_names_of_tree, names_in, Variables,
};
use crate::order::{ascending, lemma_precedes_irreflexive, names, precedes, sorted};
use crate::visit::{stops, Flow, Visit};
use crate::visitor_mut::{
    always_descends, lemma_walk_reaches_every_stop, pass, walk, walk_mut, VisitorMut,
};
use vstd::prelude::*;

verus! {

/// A visitor that collects the names a template refers to.
#[derive(Debug)]
pub struct TeraVariableVisitor {
    idents: Vec<String>,
    iterable_idents: Vec<String>,
    optional_idents: Vec<String>,
}

impl View for TeraVariableVisitor {
    type V = Variables;

    closed spec fn view(&self) -> Variables {
        Variables {
            referenced: names(self.idents@).to_set(),
            iterated: names(self.iterable_idents@).to_set(),
            guarded: names(self.optional_idents@).to_set(),
        }
    }
}

/// Puts `name` at the end of a list that holds no name twice, unless the list
/// holds it already.
fn note(list: &mut Vec<String>, name: &String)
    requires
        names(old(list)@).no_duplicates(),
    ensures
        names(final(list)@).no_duplicates(),
        names(final(list)@).to_set() == names(old(list)@).to_set().insert(name@),
{
    let ghost before = names(list@);
    let mut i: usize = 0;
    while i < list.len()
        invariant
            i <= list.len(),
            list@ == old(list)@,
            before == names(list@),
            before.no_duplicates(),
            forall|k: int| 0 <= k < i ==> before[k] != name@,
        decreases list.len() - i,
    {
        if list[i] == *name {
            proof {
                assert(before[i as int] == name@);
                assert(before.contains(name@));
                assert(before.to_set().insert(name@) =~= before.to_set());
            }
            return ;
        }
        i += 1;
    }
    list.push(name.clone());
    proof {
        let after = names(list@);
        assert(after =~= before.push(name@));
        assert forall|i: int, j: int| 0 <= i < j < after.len() implies after[i] != after[j] by {
            assert(after[i] == before[i]);
            if j < before.len() {
                assert(after[j] == before[j]);
            }
        }
        assert forall|n: Seq<char>| after.to_set().contains(n) <==> before.to_set().insert(
            name@,
        ).contains(n) by {
            if after.contains(n) {
                let k = choose|k: int| 0 <= k < after.len() && after[k] == n;
                if k < before.len() {
                    assert(before[k] == n);
                }
            }
            if before.contains(n) {
                let k = choose|k: int| 0 <= k < before.len() && before[k] == n;
                assert(after[k] == n);
            }
            if n == name@ {
                assert(after[before.len() as int] == n);
            }
        }
        assert(after.to_set() =~= before.to_set().insert(name@));
    }
}

impl TeraVariableVisitor {
    #[verifier::type_invariant]
    spec fn holds_no_name_twice(&self) -> bool {
        &&& names(self.idents@).no_duplicates()
        &&& names(self.iterable_idents@).no_duplicates()
        &&& names(self.optional_idents@).no_duplicates()
    }

    /// A visitor that has found no names yet.
    pub fn new() -> (visitor: Self)
        ensures
            visitor@ == Variables::empty(),
    {
        let visitor = TeraVariableVisitor {
            idents: Vec::new(),
            iterable_idents: Vec::new(),
            optional_idents: Vec::new(),
        };
        proof {
            assert(names(visitor.idents@).to_set() =~= Set::empty());
            assert(names(visitor.iterable_idents@).to_set() =~= Set::empty());
            assert(names(visitor.optional_idents@).to_set() =~= Set::empty());
        }
        visitor
    }

    /// The names that are referred to, in whatever role, each of them once.
    pub fn idents(&self) -> (idents: &Vec<String>)
        ensures
            names(idents@).to_set() == self@.referenced,
            names(idents@).no_duplicates(),
    {
        proof {
            use_type_invariant(self);
        }
        &self.idents
    }

    /// The names that are referred to, in ascending order.
    pub fn sorted_idents(&mut self) -> (idents: Vec<String>)
        ensures
            *final(self) == *old(self),
            ascending(names(idents@)),
            names(idents@).no_duplicates(),
            names(idents@).to_set() == old(self)@.referenced,
    {
        let idents = sorted(&self.idents);
        proof {
            lemma_ascending_holds_no_name_twice(names(idents@));
        }
        idents
    }

    /// The names that a `for` iterates over, each of them once.
    pub fn iterable_idents(&self) -> (idents: &Vec<String>)
        ensures
            names(idents@).to_set() == self@.iterated,
            names(idents@).no_duplicates(),
    {
        proof {
            use_type_invariant(self);
        }
        &self.iterable_idents
    }

    /// The names that a `for` iterates over, in ascending order.
    pub fn sorted_iterable_idents(&mut self) -> (idents: Vec<String>)
        ensures
            *final(self) == *old(self),
            ascending(names(idents@)),
            names(idents@).no_duplicates(),
            names(idents@).to_set() == old(self)@.iterated,
    {
        let idents = sorted(&self.iterable_idents);
        proof {
            lemma_ascending_holds_no_name_twice(names(idents@));
        }
        idents
    }

    /// The names that an `if` or an `elif` asks for, each of them once.
    pub fn optional_idents(&self) -> (idents: &Vec<String>)
        ensures
            names(idents@).to_set() == self@.guarded,
            names(idents@).no_duplicates(),
    {
        proof {
            use_type_invariant(self);
        }
        &self.optional_idents
    }

    /// The names that an `if` or an `elif` asks for, in ascending order.
    pub fn sorted_optional_idents(&mut self) -> (idents: Vec<String>)
        ensures
            *final(self) == *old(self),
            ascending(names(idents@)),
            names(idents@).no_duplicates(),
            names(idents@).to_set() == old(self)@.guarded,
    {
        let idents = sorted(&self.optional_idents);
        proof {
            lemma_ascending_holds_no_name_twice(names(idents@));
        }
        idents
    }

    /// Walks a whole tree: the visitor ends up with the names it had and
    /// those that the tree refers to.
    pub fn visit_ast_mut(&mut self, ast: &Ast)
        ensures
            final(self)@ == old(self)@.union(names_in(ast@)),
    {
        proof {
            lemma_walk_finds_names(self@, ast);
        }
        walk_mut(self, Visit::Ast(ast));
    }

    fn note_referenced(&mut self, ident: &String)
        ensures
            final(self)@ == (Variables {
                referenced: old(self)@.referenced.insert(ident@),
                ..old(self)@
            }),
    {
        proof {
            use_type_invariant(&*self);
        }
        let mut idents: Vec<String> = Vec::new();
        core::mem::swap(&mut self.idents, &mut idents);
        note(&mut idents, ident);
        core::mem::swap(&mut self.idents, &mut idents);
    }

    fn note_iterated(&mut self, ident: &String)
        ensures
            final(self)@ == (Variables {
                iterated: old(self)@.iterated.insert(ident@),
                ..old(self)@
            }),
    {
        proof {
            use_type_invariant(&*self);
        }
        let mut idents: Vec<String> = Vec::new();
        core::mem::swap(&mut self.iterable_idents, &mut idents);
        note(&mut idents, ident);
        core::mem::swap(&mut self.iterable_idents, &mut idents);
    }

    fn note_guarded(&mut self, ident: &String)
        ensures
            final(self)@ == (Variables {
                guarded: old(self)@.guarded.insert(ident@),
                ..old(self)@
            }),
    {
        proof {
            use_type_invariant(&*self);
        }
        let mut idents: Vec<String> = Vec::new();
        core::mem::swap(&mut self.optional_idents, &mut idents);
        note(&mut idents, ident);
        core::mem::swap(&mut self.optional_idents, &mut idents);
    }

    /// The hook for an interpolation: a bare identifier is referred to.
    pub fn visit_variable_block_mut(&mut self, ws: &WS, expr: &Expr)
        ensures
            final(self)@ == old(self)@.union(Variables::at(Visit::VariableBlock(ws, expr))),
    {
        if let ExprVal::Ident(ident) = &expr.val {
            self.note_referenced(ident);
        }
    }

    /// The hook for the container of a `for`: a bare identifier is referred
    /// to and iterated over.
    pub fn visit_forloop_expr_mut(&mut self, expr: &Expr)
        ensures
            final(self)@ == old(self)@.union(Variables::at(Visit::ForloopExpr(expr))),
    {
        if let ExprVal::Ident(ident) = &expr.val {
            self.note_referenced(ident);
            self.note_iterated(ident);
        }
    }

    /// The hook for the condition of an `if`: a bare identifier is referred
    /// to and asked for.
    pub fn visit_if_expr_mut(&mut self, expr: &Expr)
        ensures
            final(self)@ == old(self)@.union(Variables::at(Visit::IfExpr(expr))),
    {
        if let ExprVal::Ident(ident) = &expr.val {
            self.note_referenced(ident);
            self.note_guarded(ident);
        }
    }

    /// The hook for the condition of an `elif`: a bare identifier is referred
    /// to and asked for.
    pub fn visit_else_if_expr_mut(&mut self, expr: &Expr)
        ensures
            final(self)@ == old(self)@.union(Variables::at(Visit::ElseIfExpr(expr))),
    {
        if let ExprVal::Ident(ident) = &expr.val {
            self.note_referenced(ident);
            self.note_guarded(ident);
        }
    }
}

impl VisitorMut for TeraVariableVisitor {
    type State = Variables;

    open spec fn state(&self) -> Variables {
        self@
    }

    open spec fn after(state: Variables, visit: Visit<'_>) -> Variables {
        state.union(Variables::at(visit))
    }

    open spec fn flow(state: Variables, visit: Visit<'_>) -> Flow {
        Flow::Descend
    }

    fn visit_mut(&mut self, visit: Visit<'_>) -> (flow: Flow) {
        match visit {
            Visit::VariableBlock(ws, expr) => self.visit_variable_block_mut(ws, expr),
            Visit::ForloopExpr(expr) => self.visit_forloop_expr_mut(expr),
            Visit::IfExpr(expr) => self.visit_if_expr_mut(expr),
            Visit::ElseIfExpr(expr) => self.visit_else_if_expr_mut(expr),
            _ => {
                assert(self@.union(Variables::at(visit)) =~= self@);
            },
        }
        Flow::Descend
    }
}

impl Default for TeraVariableVisitor {
    fn default() -> (visitor: Self)
        ensures
            visitor@ == Variables::empty(),
    {
        TeraVariableVisitor::new()
    }
}

/// A list in ascending order holds no name twice.
pub proof fn lemma_ascending_holds_no_name_twice(list: Seq<Seq<char>>)
    requires
        ascending(list),
    ensures
        list.no_duplicates(),
{
    assert forall|i: int, j: int| 0 <= i < list.len() && 0 <= j < list.len() && i != j implies list[i]
        != list[j] by {
        lemma_precedes_irreflexive(list[i]);
        if i < j {
            assert(precedes(list[i], list[j]));
        } else {
            assert(precedes(list[j], list[i]));
        }
    }
}

/// The hook, called for each stop of a sequence in turn, adds the names that
/// these stops give to the names the visitor had.
pub proof fn lemma_pass_gathers(state: Variables, visits: Seq<Visit<'_>>)
    ensures
        pass::<TeraVariableVisitor>(state, visits) == state.union(Variables::among(visits)),
    decreases visits.len(),
{
    if visits.len() == 0 {
        assert(state.union(Variables::among(visits)) =~= state);
    } else {
        let entered = state.union(Variables::at(visits[0]));
        lemma_pass_gathers(entered, visits.skip(1));
        assert(visits =~= seq![visits[0]] + visits.skip(1));
        lemma_among_concat(seq![visits[0]], visits.skip(1));
        lemma_among_one(visits[0]);
        assert(entered.union(Variables::among(visits.skip(1))) =~= state.union(
            Variables::among(visits),
        ));
    }
}

/// A walk adds the names that the tree below the stop it enters refers to,
/// to the names the visitor had.
pub proof fn lemma_walk_gathers(state: Variables, visit: Visit<'_>)
    ensures
        walk::<TeraVariableVisitor>(state, visit) == state.union(Variables::of(visit)),
{
    assert(always_descends::<TeraVariableVisitor>());
    lemma_walk_reaches_every_stop::<TeraVariableVisitor>(state, visit);
    lemma_pass_gathers(state, stops(visit));
}

/// The pass finds the names that a tree refers to: walked over the tree, the
/// visitor is left with the names that it had and those of the tree.
pub proof fn lemma_walk_finds_names(state: Variables, ast: &Vec<Node>)
    ensures
        walk::<TeraVariableVisitor>(state, Visit::Ast(ast)) == state.union(names_in(ast@)),
{
    lemma_walk_gathers(state, Visit::Ast(ast));
    lemma_names_of_tree(ast);
}

} // verus!
