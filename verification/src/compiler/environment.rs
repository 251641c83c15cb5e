//! Lexical scopes: a table of bindings with a link to the enclosing scope.
//!
//! A scope owns its enclosing scope. Entering a nested scope therefore takes
//! a copy of the outer one as it is at that instant: what is later written
//! to the outer scope is not seen through the copy, and what is written
//! through the copy does not reach the outer scope.

use crate::compiler::ast::{
    Expression, ExpressionType, ExpressionTypeView, ExpressionView, ParseResult, ParseResultView,
};
use crate::compiler::error::ParseError;
use vstd::prelude::*;

verus! {

/// A name together with the node to bind to it.
#[derive(Debug)]
pub struct Variable {
    pub ident: String,
    pub value: Expression,
}

impl Variable {
    pub fn new(name: String, val: Expression) -> (v: Variable)
        ensures
            v.ident == name,
            v.value == val,
    {
        Variable { ident: name, value: val }
    }
}

impl Clone for Variable {
    fn clone(&self) -> (r: Self)
        ensures
            r.ident@ == self.ident@,
            r.value@ == self.value@,
    {
        Variable { ident: self.ident.clone(), value: self.value.clone() }
    }
}

/// The table that a list of bindings stands for. Where a name occurs more
/// than once, the entry nearest the end counts.
pub open spec fn bindings(vars: Seq<Variable>) -> Map<Seq<char>, ExpressionView>
    decreases vars.len(),
{
    if vars.len() == 0 {
        Map::empty()
    } else {
        bindings(vars.drop_last()).insert(vars.last().ident@, vars.last().value@)
    }
}

/// A name is in the table exactly if some entry carries it, and is then
/// bound to the value of the last such entry.
pub proof fn lemma_bindings(vars: Seq<Variable>, name: Seq<char>)
    ensures
        bindings(vars).contains_key(name) <==> exists|i: int|
            0 <= i < vars.len() && #[trigger] vars[i].ident@ == name,
        forall|i: int|
            0 <= i < vars.len() && #[trigger] vars[i].ident@ == name && (forall|j: int|
                i < j < vars.len() ==> #[trigger] vars[j].ident@ != name) ==> bindings(vars)[name]
                == vars[i].value@,
    decreases vars.len(),
{
    if vars.len() > 0 {
        let front = vars.drop_last();
        let last = vars.len() - 1;
        lemma_bindings(front, name);
        if bindings(vars).contains_key(name) {
            if vars[last].ident@ != name {
                let i = choose|i: int| 0 <= i < front.len() && #[trigger] front[i].ident@ == name;
                assert(vars[i].ident@ == name);
            }
        }
        if exists|i: int| 0 <= i < vars.len() && #[trigger] vars[i].ident@ == name {
            let i = choose|i: int| 0 <= i < vars.len() && #[trigger] vars[i].ident@ == name;
            if i < last {
                assert(front[i].ident@ == name);
            }
        }
        assert forall|i: int|
            0 <= i < vars.len() && #[trigger] vars[i].ident@ == name && (forall|j: int|
                i < j < vars.len() ==> #[trigger] vars[j].ident@ != name) implies bindings(
            vars,
        )[name] == vars[i].value@ by {
            if i < last {
                assert(vars[last].ident@ != name);
                assert(front[i].ident@ == name);
                assert forall|j: int| i < j < front.len() implies #[trigger] front[j].ident@
                    != name by {
                    assert(vars[j].ident@ != name);
                }
            }
        }
    }
}

/// Replacing the value of the last entry that carries a name rebinds that
/// name and leaves the rest of the table as it was.
pub proof fn lemma_bindings_update(vars: Seq<Variable>, i: int, entry: Variable)
    requires
        0 <= i < vars.len(),
        entry.ident@ == vars[i].ident@,
        forall|j: int| i < j < vars.len() ==> #[trigger] vars[j].ident@ != vars[i].ident@,
    ensures
        bindings(vars.update(i, entry)) == bindings(vars).insert(entry.ident@, entry.value@),
    decreases vars.len(),
{
    let front = vars.drop_last();
    let after = vars.update(i, entry);
    if i == vars.len() - 1 {
        assert(after.drop_last() =~= front);
        assert(bindings(after) =~= bindings(vars).insert(entry.ident@, entry.value@));
    } else {
        assert forall|j: int| i < j < front.len() implies #[trigger] front[j].ident@
            != front[i].ident@ by {
            assert(vars[j].ident@ != vars[i].ident@);
        }
        lemma_bindings_update(front, i, entry);
        assert(after.drop_last() =~= front.update(i, entry));
        assert(vars[vars.len() - 1].ident@ != vars[i].ident@);
        assert(bindings(after) =~= bindings(vars).insert(entry.ident@, entry.value@));
    }
}

/// A scope.
#[derive(Debug)]
pub struct Environment {
    pub enclosing: Option<Box<Environment>>,
    /// How many bindings this scope has made; the id of the next binding
    /// node is one more.
    pub node_count: u32,
    pub vars: Vec<Variable>,
}

/// The mathematical value of a scope.
pub struct EnvironmentView {
    pub enclosing: Option<Box<EnvironmentView>>,
    pub node_count: nat,
    pub vars: Map<Seq<char>, ExpressionView>,
}

impl EnvironmentView {
    /// A root scope without bindings.
    pub open spec fn empty() -> EnvironmentView {
        EnvironmentView { enclosing: None, node_count: 0, vars: Map::empty() }
    }

    /// A scope without bindings inside `outer`.
    pub open spec fn nested(outer: EnvironmentView) -> EnvironmentView {
        EnvironmentView { enclosing: Some(Box::new(outer)), node_count: 0, vars: Map::empty() }
    }

    /// The node that a scope hands back for a binding it has made.
    pub open spec fn binding_node(id: nat, name: Seq<char>, value: ExpressionView) -> ExpressionView {
        ExpressionView {
            id,
            expression_type: ExpressionTypeView::LiteralExpression(name, Box::new(value)),
            return_type: value.return_type,
        }
    }

    /// This scope after it has bound `name` to `value`.
    pub open spec fn bind(self, name: Seq<char>, value: ExpressionView) -> EnvironmentView {
        EnvironmentView {
            enclosing: self.enclosing,
            node_count: self.node_count + 1,
            vars: self.vars.insert(name, value),
        }
    }

    /// Defining `name` in this scope: refused if this very scope binds the
    /// name already, whatever the enclosing scopes hold.
    pub open spec fn define(self, name: Seq<char>, value: ExpressionView) -> (
        ParseResultView,
        EnvironmentView,
    ) {
        if self.vars.contains_key(name) {
            (ParseResultView::Failed(ParseError::AlreadyDefined), self)
        } else {
            (
                ParseResultView::Success(Self::binding_node(self.node_count + 1, name, value)),
                self.bind(name, value),
            )
        }
    }

    /// Whether this scope or one that encloses it binds `name`.
    pub open spec fn binds(self, name: Seq<char>) -> bool
        decreases self,
    {
        self.vars.contains_key(name) || match self.enclosing {
            Some(outer) => outer.binds(name),
            None => false,
        }
    }

    /// The node bound to `name` in the nearest scope that binds it.
    pub open spec fn lookup(self, name: Seq<char>) -> Option<ExpressionView>
        decreases self,
    {
        if self.vars.contains_key(name) {
            Some(self.vars[name])
        } else {
            match self.enclosing {
                Some(outer) => outer.lookup(name),
                None => None,
            }
        }
    }

    /// Assigning to `name`: the nearest scope that binds it rebinds it; the
    /// assignment fails only if no scope binds the name.
    pub open spec fn assign(self, name: Seq<char>, value: ExpressionView) -> (
        ParseResultView,
        EnvironmentView,
    )
        decreases self,
    {
        if self.vars.contains_key(name) {
            (
                ParseResultView::Success(Self::binding_node(self.node_count + 1, name, value)),
                self.bind(name, value),
            )
        } else {
            match self.enclosing {
                Some(outer) => {
                    let (result, changed) = outer.assign(name, value);
                    (
                        result,
                        EnvironmentView {
                            enclosing: Some(Box::new(changed)),
                            node_count: self.node_count,
                            vars: self.vars,
                        },
                    )
                },
                None => (ParseResultView::Failed(ParseError::NotDefined), self),
            }
        }
    }

    /// Whether the scope that an assignment to `name` would change can
    /// count one more binding.
    pub open spec fn can_count(self, name: Seq<char>) -> bool
        decreases self,
    {
        if self.vars.contains_key(name) {
            self.node_count < u32::MAX
        } else {
            match self.enclosing {
                Some(outer) => outer.can_count(name),
                None => true,
            }
        }
    }

    /// The scope `depth` levels out from this one, if there are that many.
    pub open spec fn ancestor(self, depth: nat) -> Option<EnvironmentView>
        decreases depth,
    {
        if depth == 0 {
            Some(self)
        } else {
            match self.enclosing {
                Some(outer) => outer.ancestor((depth - 1) as nat),
                None => None,
            }
        }
    }

    /// Whether the scope `depth` levels out exists and binds `name`.
    pub open spec fn bound_at(self, name: Seq<char>, depth: nat) -> bool {
        match self.ancestor(depth) {
            Some(scope) => scope.vars.contains_key(name),
            None => false,
        }
    }
}

impl Environment {
    pub open spec fn model(self) -> EnvironmentView
        decreases self,
    {
        EnvironmentView {
            enclosing: match self.enclosing {
                Some(outer) => Some(Box::new(outer.model())),
                None => None,
            },
            node_count: self.node_count as nat,
            vars: bindings(self.vars@),
        }
    }
}

impl View for Environment {
    type V = EnvironmentView;

    open spec fn view(&self) -> EnvironmentView {
        self.model()
    }
}

impl Environment {
    /// A root scope without bindings.
    pub fn new() -> (env: Environment)
        ensures
            env@ == EnvironmentView::empty(),
    {
        Environment { enclosing: None, node_count: 0, vars: Vec::new() }
    }

    /// A scope without bindings inside `env`, which it takes over.
    pub fn new_sub(env: Environment) -> (sub: Environment)
        ensures
            sub@ == EnvironmentView::nested(env@),
    {
        Environment { enclosing: Some(Box::new(env)), node_count: 0, vars: Vec::new() }
    }

    /// The place of the last entry of this scope that carries `name`.
    fn position(&self, name: &String) -> (at: Option<usize>)
        ensures
            match at {
                Some(i) => i < self.vars@.len() && self.vars@[i as int].ident@ == name@
                    && self@.vars.contains_key(name@) && self@.vars[name@]
                    == self.vars@[i as int].value@ && forall|j: int|
                    i < j < self.vars@.len() ==> #[trigger] self.vars@[j].ident@ != name@,
                None => !self@.vars.contains_key(name@),
            },
    {
        let mut i: usize = self.vars.len();
        while i > 0
            invariant
                i <= self.vars@.len(),
                forall|j: int| i <= j < self.vars@.len() ==> #[trigger] self.vars@[j].ident@ != name@,
            decreases i,
        {
            i -= 1;
            if self.vars[i].ident == *name {
                proof {
                    lemma_bindings(self.vars@, name@);
                }
                return Some(i);
            }
        }
        proof {
            lemma_bindings(self.vars@, name@);
        }
        None
    }

    /// Binds the variable's name in this scope. Fails with `AlreadyDefined`
    /// if this scope binds the name already; an enclosing scope that binds
    /// it is shadowed.
    pub fn define(&mut self, var: Variable) -> (r: ParseResult)
        requires
            !old(self)@.vars.contains_key(var.ident@) ==> old(self).node_count < u32::MAX,
        ensures
            (r@, final(self)@) == old(self)@.define(var.ident@, var.value@),
    {
        match self.position(&var.ident) {
            Some(_) => ParseResult::Failed(ParseError::AlreadyDefined),
            None => {
                self.node_count += 1;
                let bound = Expression::new(
                    self.node_count,
                    ExpressionType::LiteralExpression(
                        var.ident.clone(),
                        Box::new(var.value.clone()),
                    ),
                    var.value.return_type,
                );
                self.vars.push(var);
                proof {
                    assert(self.vars@.drop_last() =~= old(self).vars@);
                }
                ParseResult::Success(bound)
            },
        }
    }

    /// Rebinds the variable's name in the nearest scope that binds it. Fails
    /// with `NotDefined` if no scope does.
    pub fn assign_value(&mut self, var: Variable) -> (r: ParseResult)
        requires
            old(self)@.can_count(var.ident@),
        ensures
            (r@, final(self)@) == old(self)@.assign(var.ident@, var.value@),
        decreases *old(self),
    {
        match self.position(&var.ident) {
            Some(i) => {
                self.node_count += 1;
                let bound = Expression::new(
                    self.node_count,
                    ExpressionType::LiteralExpression(
                        var.ident.clone(),
                        Box::new(var.value.clone()),
                    ),
                    var.value.return_type,
                );
                proof {
                    lemma_bindings_update(old(self).vars@, i as int, var);
                }
                self.vars.set(i, var);
                ParseResult::Success(bound)
            },
            None => match &mut self.enclosing {
                Some(outer) => outer.assign_value(var),
                None => ParseResult::Failed(ParseError::NotDefined),
            },
        }
    }

    /// A copy of the node bound to `var` in the nearest scope that binds it.
    /// Fails with `NotDefined` if no scope does.
    pub fn get_value(&self, var: String) -> (r: ParseResult)
        ensures
            r@ == match self@.lookup(var@) {
                Some(bound) => ParseResultView::Success(bound),
                None => ParseResultView::Failed(ParseError::NotDefined),
            },
        decreases *self,
    {
        match self.position(&var) {
            Some(i) => ParseResult::Success(self.vars[i].value.clone()),
            None => match &self.enclosing {
                Some(outer) => outer.get_value(var),
                None => ParseResult::Failed(ParseError::NotDefined),
            },
        }
    }
}

impl Clone for Environment {
    fn clone(&self) -> (r: Self)
        ensures
            r@ == self@,
        decreases self,
    {
        let enclosing = match &self.enclosing {
            Some(outer) => Some(Box::new((**outer).clone())),
            None => None,
        };
        let mut vars: Vec<Variable> = Vec::new();
        let mut i: usize = 0;
        while i < self.vars.len()
            invariant
                i <= self.vars.len(),
                vars.len() == i,
                bindings(vars@) == bindings(self.vars@.take(i as int)),
            decreases self.vars.len() - i,
        {
            let entry = self.vars[i].clone();
            proof {
                assert(self.vars@.take(i + 1).drop_last() =~= self.vars@.take(i as int));
                assert(vars@.push(entry).drop_last() =~= vars@);
            }
            vars.push(entry);
            i += 1;
        }
        assert(self.vars@.take(self.vars.len() as int) =~= self.vars@);
        Environment { enclosing, node_count: self.node_count, vars }
    }
}

} // verus!
