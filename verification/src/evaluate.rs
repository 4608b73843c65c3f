//! The evaluator: it walks the statements of a program and changes the state
//! of the interpreter as they say.
//!
//! What a program does is defined here twice: as mathematical functions over
//! the views of the syntax tree and of the state (`run_block`, `eval` and
//! what they use), and as the executable functions, each of which is proved
//! to return what the mathematical function gives.
//!
//! A program may run for ever, and a mathematical function may not. So the
//! host allows a number of steps, and going back to the start of a loop
//! takes one of them; a loop that finds none left ends with `StepLimit`.
//! Where one of the mathematical functions goes on after a part of the
//! program has run, it first looks whether the steps have grown, which they
//! never do: that is what lets the definition end.

use vstd::prelude::*;
use vstd::string::StringExecFns;
use crate::appendix::{call, call_spec, wrong_type};
use crate::ast::{
    Assign,
    AssignView,
    Bounds,
    DataTypes,
    Declare,
    DeclareView,
    Execution,
    ExecutionView,
    Expression,
    ExpressionNode,
    ExpressionView,
    Function,
    Literal,
    LiteralType,
    LiteralView,
    Ops,
    Request,
    RequestView,
    Span,
    Spanned,
    Statement,
    StatementNode,
    StatementView,
    Variable,
    VariableView,
    expressions_view,
    literals_view,
    node_view,
    slots_view,
    statements_view,
};
use crate::host::{Host, HostView, answer_view, ask_spec};
use crate::text::{decimal, integer_text, less_text, text_less, trim_line_end, without_line_end};

verus! {

/// The variables of one block.
#[derive(Debug, PartialEq, Eq)]
pub struct Scope {
    pub variables: Vec<(String, Variable)>,
}

/// The variables of one block, as a mathematical value: each name with what
/// it is bound to, in the order of the declarations.
pub type ScopeView = Seq<(Seq<char>, VariableView)>;

/// The views of the bindings of a scope.
pub open spec fn bindings_view(bindings: Seq<(String, Variable)>) -> ScopeView {
    Seq::new(bindings.len(), |i: int| (bindings[i].0@, bindings[i].1@))
}

impl Clone for Scope {
    fn clone(&self) -> (r: Self)
        ensures
            r@ == self@,
    {
        let mut variables: Vec<(String, Variable)> = Vec::new();
        let mut i: usize = 0;
        while i < self.variables.len()
            invariant
                i <= self.variables.len(),
                variables.len() == i,
                forall|k: int|
                    0 <= k < i ==> (#[trigger] variables@[k]).0@ == self.variables@[k].0@
                        && variables@[k].1@ == self.variables@[k].1@,
            decreases self.variables.len() - i,
        {
            variables.push((self.variables[i].0.clone(), self.variables[i].1.clone()));
            i += 1;
        }
        proof {
            assert(bindings_view(variables@) =~= bindings_view(self.variables@));
        }
        Scope { variables }
    }
}

impl View for Scope {
    type V = ScopeView;

    open spec fn view(&self) -> ScopeView {
        bindings_view(self.variables@)
    }
}

/// The state of the interpreter: the callables that a program can name, and
/// the scopes of the blocks that are being executed, the innermost last.
#[derive(Debug, PartialEq, Eq)]
pub struct State {
    pub functions: Vec<(String, Function)>,
    pub scopes: Vec<Scope>,
}

/// What a `State` is, as a mathematical value.
pub struct StateView {
    pub functions: Seq<(Seq<char>, Function)>,
    pub scopes: Seq<ScopeView>,
}

/// The callables of a registry, each with the characters of its name.
pub open spec fn functions_view(functions: Seq<(String, Function)>) -> Seq<(Seq<char>, Function)> {
    Seq::new(functions.len(), |i: int| (functions[i].0@, functions[i].1))
}

/// The views of the scopes of a stack.
pub open spec fn scopes_view(scopes: Seq<Scope>) -> Seq<ScopeView> {
    Seq::new(scopes.len(), |i: int| scopes[i]@)
}

impl Clone for State {
    fn clone(&self) -> (r: Self)
        ensures
            r@ == self@,
    {
        let mut functions: Vec<(String, Function)> = Vec::new();
        let mut i: usize = 0;
        while i < self.functions.len()
            invariant
                i <= self.functions.len(),
                functions.len() == i,
                forall|k: int|
                    0 <= k < i ==> (#[trigger] functions@[k]).0@ == self.functions@[k].0@
                        && functions@[k].1 == self.functions@[k].1,
            decreases self.functions.len() - i,
        {
            functions.push((self.functions[i].0.clone(), self.functions[i].1));
            i += 1;
        }
        let mut scopes: Vec<Scope> = Vec::new();
        let mut j: usize = 0;
        while j < self.scopes.len()
            invariant
                j <= self.scopes.len(),
                scopes.len() == j,
                forall|k: int| 0 <= k < j ==> (#[trigger] scopes@[k])@ == self.scopes@[k]@,
            decreases self.scopes.len() - j,
        {
            scopes.push(self.scopes[j].clone());
            j += 1;
        }
        proof {
            assert(functions_view(functions@) =~= functions_view(self.functions@));
            assert(scopes_view(scopes@) =~= scopes_view(self.scopes@));
        }
        State { functions, scopes }
    }
}

impl View for State {
    type V = StateView;

    open spec fn view(&self) -> StateView {
        StateView { functions: functions_view(self.functions@), scopes: scopes_view(self.scopes@) }
    }
}

/// The first place at or after `i` at which a scope binds the name.
pub open spec fn position_from(scope: ScopeView, name: Seq<char>, i: int) -> Option<int>
    decreases scope.len() - i,
{
    if i < 0 || i >= scope.len() {
        None
    } else if scope[i].0 == name {
        Some(i)
    } else {
        position_from(scope, name, i + 1)
    }
}

/// Where the name is bound among the first `n` scopes: the scope, the
/// innermost that binds it, and the place in that scope.
pub open spec fn resolve_below(scopes: Seq<ScopeView>, name: Seq<char>, n: int) -> Option<
    (int, int),
>
    decreases n,
{
    if n <= 0 || n > scopes.len() {
        None
    } else {
        match position_from(scopes[n - 1], name, 0) {
            Some(j) => Some((n - 1, j)),
            None => resolve_below(scopes, name, n - 1),
        }
    }
}

/// The first place at or after `i` at which a callable has the name.
pub open spec fn function_from(functions: Seq<(Seq<char>, Function)>, name: Seq<char>, i: int)
    -> Option<Function>
    decreases functions.len() - i,
{
    if i < 0 || i >= functions.len() {
        None
    } else if functions[i].0 == name {
        Some(functions[i].1)
    } else {
        function_from(functions, name, i + 1)
    }
}

impl StateView {
    /// Where a name is bound: the scope and the place in it. The scopes are
    /// searched from the innermost outwards.
    pub open spec fn resolve(self, name: Seq<char>) -> Option<(int, int)> {
        resolve_below(self.scopes, name, self.scopes.len() as int)
    }

    /// What a name is bound to.
    pub open spec fn variable(self, name: Seq<char>) -> Option<VariableView> {
        match self.resolve(name) {
            Some((i, j)) => Some(self.scopes[i][j].1),
            None => None,
        }
    }

    /// The callable of a name.
    pub open spec fn function(self, name: Seq<char>) -> Option<Function> {
        function_from(self.functions, name, 0)
    }

    /// The state with the binding at a place replaced.
    pub open spec fn with_variable(self, i: int, j: int, variable: VariableView) -> StateView {
        StateView {
            scopes: self.scopes.update(i, self.scopes[i].update(j, (self.scopes[i][j].0, variable))),
            ..self
        }
    }

    /// The state with one more scope, which is empty.
    pub open spec fn enter(self) -> StateView {
        StateView { scopes: self.scopes.push(Seq::empty()), ..self }
    }

    /// The state without its innermost scope.
    pub open spec fn leave(self) -> StateView {
        if self.scopes.len() > 0 {
            StateView { scopes: self.scopes.drop_last(), ..self }
        } else {
            self
        }
    }

    /// The state with a new binding in its innermost scope.
    pub open spec fn declare(self, name: Seq<char>, variable: VariableView) -> StateView {
        if self.scopes.len() > 0 {
            StateView {
                scopes: self.scopes.update(
                    self.scopes.len() - 1,
                    self.scopes.last().push((name, variable)),
                ),
                ..self
            }
        } else {
            self
        }
    }

    /// The value of a variable: `NotFound` where the name is not bound,
    /// `NotAssigned` where it holds no value, and `IncorrectType` where it is
    /// an array.
    pub open spec fn literal(self, name: Seq<char>) -> Result<LiteralView, ExecutionView> {
        match self.variable(name) {
            None => Err(ExecutionView::NotFound(name)),
            Some(VariableView::Literal { value: Some(v), .. }) => Ok(v),
            Some(VariableView::Literal { value: None, .. }) => Err(ExecutionView::NotAssigned(name)),
            Some(VariableView::Array { literal_type, .. }) => Err(
                ExecutionView::IncorrectType(DataTypes::Literal(literal_type), DataTypes::Array),
            ),
        }
    }

    /// The value in a slot of an array: `NotFound` where the name is not
    /// bound, `IncorrectType` where it is no array, `OutOfBounds` where the
    /// array has no such slot, and `IndexNotAssigned` where the slot holds no
    /// value.
    pub open spec fn element(self, name: Seq<char>, index: usize) -> Result<
        LiteralView,
        ExecutionView,
    > {
        match self.variable(name) {
            None => Err(ExecutionView::NotFound(name)),
            Some(VariableView::Literal { literal_type, .. }) => Err(
                ExecutionView::IncorrectType(DataTypes::Array, DataTypes::Literal(literal_type)),
            ),
            Some(VariableView::Array { bounds, values, .. }) => if !bounds.contains(index as int)
                || index - bounds.lower >= values.len() {
                Err(ExecutionView::OutOfBounds(name, index))
            } else {
                match values[index - bounds.lower] {
                    Some(v) => Ok(v),
                    None => Err(ExecutionView::IndexNotAssigned(name, index)),
                }
            },
        }
    }

    /// The state after a value is assigned to a variable: `NotFound` where
    /// the name is not bound, `IncorrectType` where it is an array or the
    /// value has another type than the variable was declared with, and
    /// `AssignToConstant` where the variable cannot change.
    pub open spec fn assign(self, name: Seq<char>, value: LiteralView) -> Result<
        StateView,
        ExecutionView,
    > {
        match self.resolve(name) {
            None => Err(ExecutionView::NotFound(name)),
            Some((i, j)) => match self.scopes[i][j].1 {
                VariableView::Array { .. } => Err(
                    ExecutionView::IncorrectType(value.data_type(), DataTypes::Array),
                ),
                VariableView::Literal { literal_type, is_mutable, .. } => if !is_mutable {
                    Err(ExecutionView::AssignToConstant(name))
                } else if literal_type != value.literal_type() {
                    Err(
                        ExecutionView::IncorrectType(
                            DataTypes::Literal(literal_type),
                            value.data_type(),
                        ),
                    )
                } else {
                    Ok(
                        self.with_variable(
                            i,
                            j,
                            VariableView::Literal { literal_type, value: Some(value), is_mutable },
                        ),
                    )
                },
            },
        }
    }

    /// What holds of every state that an evaluation reaches from one of
    /// which it holds: no name is bound twice, in one scope or in two; a
    /// value has the type that its variable was declared with; and an array
    /// has one slot for each index within its bounds.
    pub open spec fn well_formed(self) -> bool {
        &&& forall|i: int, j: int|
            0 <= i < self.scopes.len() && 0 <= j < self.scopes[i].len()
                ==> (#[trigger] self.scopes[i][j]).1.well_formed()
        &&& forall|i: int, j: int, k: int, l: int|
            0 <= i < self.scopes.len() && 0 <= j < self.scopes[i].len() && 0 <= k
                < self.scopes.len() && 0 <= l < self.scopes[k].len() && (
            #[trigger] self.scopes[i][j]).0 == (#[trigger] self.scopes[k][l]).0 ==> i == k && j
                == l
    }

    /// The state after a value is assigned to a slot of an array:
    /// `NotFound` where the name is not bound, `IncorrectType` where it is no
    /// array, `OutOfBounds` where the array has no such slot, and
    /// `IncorrectType` where the value has another type than the array's
    /// elements.
    pub open spec fn assign_element(self, name: Seq<char>, index: usize, value: LiteralView)
        -> Result<StateView, ExecutionView> {
        match self.resolve(name) {
            None => Err(ExecutionView::NotFound(name)),
            Some((i, j)) => match self.scopes[i][j].1 {
                VariableView::Literal { literal_type, .. } => Err(
                    ExecutionView::IncorrectType(DataTypes::Array, DataTypes::Literal(literal_type)),
                ),
                VariableView::Array { literal_type, bounds, values } => if !bounds.contains(
                    index as int,
                ) || index - bounds.lower >= values.len() {
                    Err(ExecutionView::OutOfBounds(name, index))
                } else if literal_type != value.literal_type() {
                    Err(
                        ExecutionView::IncorrectType(
                            DataTypes::Literal(literal_type),
                            value.data_type(),
                        ),
                    )
                } else {
                    Ok(
                        self.with_variable(
                            i,
                            j,
                            VariableView::Array {
                                literal_type,
                                bounds,
                                values: values.update(index - bounds.lower, Some(value)),
                            },
                        ),
                    )
                },
            },
        }
    }
}

/// What `view` is on a state or an error.
pub open spec fn state_result_view(r: Result<State, Execution>) -> Result<StateView, ExecutionView> {
    match r {
        Ok(s) => Ok(s@),
        Err(e) => Err(e@),
    }
}

/// What `view` is on a value or an error.
pub open spec fn value_result_view(r: Result<Literal, Execution>) -> Result<
    LiteralView,
    ExecutionView,
> {
    match r {
        Ok(v) => Ok(v@),
        Err(e) => Err(e@),
    }
}

fn position(scope: &Scope, name: &String) -> (r: Option<usize>)
    ensures
        match r {
            Some(j) => position_from(scope@, name@, 0) == Some(j as int) && j < scope.variables.len(),
            None => position_from(scope@, name@, 0) is None,
        },
{
    let mut j: usize = 0;
    while j < scope.variables.len()
        invariant
            j <= scope.variables.len(),
            position_from(scope@, name@, j as int) == position_from(scope@, name@, 0),
        decreases scope.variables.len() - j,
    {
        if scope.variables[j].0 == *name {
            return Some(j);
        }
        j += 1;
    }
    None
}

/// Where a name is bound: the scope, the innermost that binds it, and the
/// place in that scope.
pub fn locate(state: &State, name: &String) -> (r: Option<(usize, usize)>)
    ensures
        match r {
            Some((i, j)) => {
                &&& state@.resolve(name@) == Some((i as int, j as int))
                &&& i < state.scopes.len()
                &&& j < state.scopes[i as int].variables.len()
            },
            None => state@.resolve(name@) is None,
        },
{
    let mut n: usize = state.scopes.len();
    while n > 0
        invariant
            n <= state.scopes.len(),
            resolve_below(state@.scopes, name@, n as int) == state@.resolve(name@),
        decreases n,
    {
        match position(&state.scopes[n - 1], name) {
            Some(j) => {
                return Some((n - 1, j));
            },
            None => {},
        }
        n -= 1;
    }
    None
}

/// What a name is bound to, or `NotFound`.
pub fn get_variable<'a>(state: &'a State, identifier: &String) -> (r: Result<
    &'a Variable,
    Execution,
>)
    ensures
        match r {
            Ok(v) => state@.variable(identifier@) == Some(v@),
            Err(e) => state@.variable(identifier@) is None && e@ == ExecutionView::NotFound(
                identifier@,
            ),
        },
{
    match locate(state, identifier) {
        Some((i, j)) => Ok(&state.scopes[i].variables[j].1),
        None => Err(Execution::NotFound(identifier.clone())),
    }
}

/// The value of a variable.
pub fn get_literal(state: &State, identifier: &String) -> (r: Result<Literal, Execution>)
    ensures
        value_result_view(r) == state@.literal(identifier@),
{
    match get_variable(state, identifier) {
        Err(e) => Err(e),
        Ok(Variable::Literal { value: Some(v), .. }) => Ok(v.clone()),
        Ok(Variable::Literal { value: None, .. }) => Err(Execution::NotAssigned(identifier.clone())),
        Ok(Variable::Array { literal_type, .. }) => Err(
            Execution::IncorrectType(DataTypes::Literal(*literal_type), DataTypes::Array),
        ),
    }
}

/// The value in a slot of an array.
pub fn index_array(state: &State, identifier: &String, index: usize) -> (r: Result<
    Literal,
    Execution,
>)
    ensures
        value_result_view(r) == state@.element(identifier@, index),
{
    match get_variable(state, identifier) {
        Err(e) => Err(e),
        Ok(Variable::Literal { literal_type, .. }) => Err(
            Execution::IncorrectType(DataTypes::Array, DataTypes::Literal(*literal_type)),
        ),
        Ok(Variable::Array { bounds, values, .. }) => {
            if index < bounds.lower || index > bounds.upper || index - bounds.lower >= values.len() {
                Err(Execution::OutOfBounds(identifier.clone(), index))
            } else {
                match &values[index - bounds.lower] {
                    Some(v) => Ok(v.clone()),
                    None => Err(Execution::IndexNotAssigned(identifier.clone(), index)),
                }
            }
        },
    }
}

/// Assigns a value to a variable.
pub fn assign_literal(state: State, identifier: &String, literal: Literal) -> (r: Result<
    State,
    Execution,
>)
    ensures
        state_result_view(r) == state@.assign(identifier@, literal@),
{
    let mut state = state;
    match locate(&state, identifier) {
        None => Err(Execution::NotFound(identifier.clone())),
        Some((i, j)) => {
            match &state.scopes[i].variables[j].1 {
                Variable::Array { .. } => Err(
                    Execution::IncorrectType(literal.data_type(), DataTypes::Array),
                ),
                Variable::Literal { literal_type, is_mutable, .. } => {
                    let literal_type: LiteralType = *literal_type;
                    let is_mutable: bool = *is_mutable;
                    if !is_mutable {
                        Err(Execution::AssignToConstant(identifier.clone()))
                    } else if literal_type != literal.literal_type() {
                        Err(
                            Execution::IncorrectType(
                                DataTypes::Literal(literal_type),
                                literal.data_type(),
                            ),
                        )
                    } else {
                        let ghost before = state@;
                        state.scopes[i].variables[j].1 =
                        Variable::Literal { literal_type, value: Some(literal), is_mutable };
                        proof {
                            let after = before.with_variable(
                                i as int,
                                j as int,
                                VariableView::Literal {
                                    literal_type,
                                    value: Some(literal@),
                                    is_mutable,
                                },
                            );
                            assert(state@.functions =~= after.functions);
                            assert(state@.scopes[i as int] =~= after.scopes[i as int]);
                            assert(state@.scopes =~= after.scopes);
                        }
                        Ok(state)
                    }
                },
            }
        },
    }
}

/// Assigns a value to a slot of an array.
pub fn assign_array(state: State, identifier: &String, index: usize, to_assign: Literal) -> (r:
    Result<State, Execution>)
    ensures
        state_result_view(r) == state@.assign_element(identifier@, index, to_assign@),
{
    let mut state = state;
    match locate(&state, identifier) {
        None => Err(Execution::NotFound(identifier.clone())),
        Some((i, j)) => {
            match &state.scopes[i].variables[j].1 {
                Variable::Literal { literal_type, .. } => Err(
                    Execution::IncorrectType(DataTypes::Array, DataTypes::Literal(*literal_type)),
                ),
                Variable::Array { literal_type, bounds, values } => {
                    let literal_type: LiteralType = *literal_type;
                    let bounds: Bounds = *bounds;
                    if index < bounds.lower || index > bounds.upper || index - bounds.lower
                        >= values.len() {
                        Err(Execution::OutOfBounds(identifier.clone(), index))
                    } else if literal_type != to_assign.literal_type() {
                        Err(
                            Execution::IncorrectType(
                                DataTypes::Literal(literal_type),
                                to_assign.data_type(),
                            ),
                        )
                    } else {
                        let ghost before = state@;
                        let ghost slots = slots_view(values@);
                        let at: usize = index - bounds.lower;
                        match &mut state.scopes[i].variables[j].1 {
                            Variable::Array { values, .. } => {
                                values[at] = Some(to_assign);
                            },
                            _ => {},
                        }
                        proof {
                            let after = before.with_variable(
                                i as int,
                                j as int,
                                VariableView::Array {
                                    literal_type,
                                    bounds,
                                    values: slots.update(at as int, Some(to_assign@)),
                                },
                            );
                            assert(state@.functions =~= after.functions);
                            assert(state.scopes[i as int].variables[j as int].1@
                                == after.scopes[i as int][j as int].1) by {
                                let now = state.scopes[i as int].variables[j as int].1;
                                assert(now is Array);
                                assert(slots_view(now->values@) =~= slots.update(
                                    at as int,
                                    Some(to_assign@),
                                ));
                            }
                            assert(state@.scopes[i as int] =~= after.scopes[i as int]);
                            assert(state@.scopes =~= after.scopes);
                        }
                        Ok(state)
                    }
                },
            }
        },
    }
}

/// An error with the place of what raised it.
pub open spec fn at<T>(r: Result<T, ExecutionView>, span: Span) -> Result<
    T,
    (ExecutionView, Span),
> {
    match r {
        Ok(v) => Ok(v),
        Err(e) => Err((e, span)),
    }
}

/// What `view` is on a value or an error with its place.
pub open spec fn value_outcome_view(r: Result<Literal, (Execution, Span)>) -> Result<
    LiteralView,
    (ExecutionView, Span),
> {
    match r {
        Ok(v) => Ok(v@),
        Err(e) => Err((e.0@, e.1)),
    }
}

/// The quotient of two integers, rounded towards zero.
pub open spec fn truncated_quotient(a: int, b: int) -> int
    recommends
        b != 0,
{
    let p = if a < 0 {
        -a
    } else {
        a
    };
    let q = if b < 0 {
        -b
    } else {
        b
    };
    if (a < 0) == (b < 0) {
        p / q
    } else {
        -(p / q)
    }
}

/// The remainder that goes with `truncated_quotient`: it has the sign of
/// the dividend.
pub open spec fn truncated_remainder(a: int, b: int) -> int
    recommends
        b != 0,
{
    let p = if a < 0 {
        -a
    } else {
        a
    };
    let q = if b < 0 {
        -b
    } else {
        b
    };
    if a < 0 {
        -(p % q)
    } else {
        p % q
    }
}

/// What a minus sign before a value gives. The negative of an integer wraps
/// round; that of a real number is asked of the host.
pub open spec fn negate_spec(value: LiteralView, answers: Seq<LiteralView>, used: int) -> (
    Result<LiteralView, ExecutionView>,
    int,
) {
    match value {
        LiteralView::Integer(n) => (Ok(LiteralView::Integer(0isize.wrapping_sub(n))), used),
        LiteralView::Real(x) => ask_spec(answers, used, RequestView::Negative(x)),
        other => (Err(ExecutionView::UnaryNotSupported(Ops::Minus, other.data_type())), used),
    }
}

/// What `NOT` before a value gives.
pub open spec fn not_spec(value: LiteralView) -> Result<LiteralView, ExecutionView> {
    match value {
        LiteralView::Bool(b) => Ok(LiteralView::Bool(!b)),
        other => Err(ExecutionView::UnaryNotSupported(Ops::Not, other.data_type())),
    }
}

/// The error of an operator that has no rule for the types of its operands.
pub open spec fn unsupported(op: Ops, a: LiteralView, b: LiteralView) -> ExecutionView {
    ExecutionView::BinaryNotSupported(op, a.data_type(), b.data_type())
}

/// What a binary operator gives on two values: the rule is chosen by the
/// operator and the types of both operands, and there is no conversion
/// between types. Sums, differences and products of integers wrap round.
/// What is, or comes from, a real number is asked of the host.
pub open spec fn operate_spec(
    op: Ops,
    a: LiteralView,
    b: LiteralView,
    answers: Seq<LiteralView>,
    used: int,
) -> (Result<LiteralView, ExecutionView>, int) {
    match (op, a, b) {
        (Ops::Plus, LiteralView::Integer(x), LiteralView::Integer(y)) => (
            Ok(LiteralView::Integer(x.wrapping_add(y))),
            used,
        ),
        (Ops::Minus, LiteralView::Integer(x), LiteralView::Integer(y)) => (
            Ok(LiteralView::Integer(x.wrapping_sub(y))),
            used,
        ),
        (Ops::Multiply, LiteralView::Integer(x), LiteralView::Integer(y)) => (
            Ok(LiteralView::Integer(x.wrapping_mul(y))),
            used,
        ),
        (Ops::Divide, LiteralView::Integer(_), LiteralView::Integer(_)) => ask_spec(
            answers,
            used,
            RequestView::Operate(op, a, b),
        ),
        (Ops::Div, LiteralView::Integer(x), LiteralView::Integer(y)) => if y == 0 {
            (Err(ExecutionView::DivisionByZero), used)
        } else if x == isize::MIN && y == -1 {
            (Ok(LiteralView::Integer(isize::MIN)), used)
        } else {
            (Ok(LiteralView::Integer(truncated_quotient(x as int, y as int) as isize)), used)
        },
        (Ops::Mod, LiteralView::Integer(x), LiteralView::Integer(y)) => if y == 0 {
            (Err(ExecutionView::DivisionByZero), used)
        } else {
            (Ok(LiteralView::Integer(truncated_remainder(x as int, y as int) as isize)), used)
        },
        (Ops::Plus, LiteralView::Real(_), LiteralView::Real(_))
        | (Ops::Minus, LiteralView::Real(_), LiteralView::Real(_))
        | (Ops::Multiply, LiteralView::Real(_), LiteralView::Real(_))
        | (Ops::Divide, LiteralView::Real(_), LiteralView::Real(_))
        | (Ops::Div, LiteralView::Real(_), LiteralView::Real(_)) => ask_spec(
            answers,
            used,
            RequestView::Operate(op, a, b),
        ),
        (Ops::Concatenate, LiteralView::String(x), LiteralView::String(y)) => (
            Ok(LiteralView::String(x + y)),
            used,
        ),
        (Ops::GreaterThan, LiteralView::Integer(x), LiteralView::Integer(y)) => (
            Ok(LiteralView::Bool(x > y)),
            used,
        ),
        (Ops::GreaterThan, LiteralView::Bool(x), LiteralView::Bool(y)) => (
            Ok(LiteralView::Bool(x && !y)),
            used,
        ),
        (Ops::GreaterThan, LiteralView::String(x), LiteralView::String(y)) => (
            Ok(LiteralView::Bool(text_less(y, x))),
            used,
        ),
        (Ops::LessThan, LiteralView::Integer(x), LiteralView::Integer(y)) => (
            Ok(LiteralView::Bool(x < y)),
            used,
        ),
        (Ops::LessThan, LiteralView::Bool(x), LiteralView::Bool(y)) => (
            Ok(LiteralView::Bool(!x && y)),
            used,
        ),
        (Ops::LessThan, LiteralView::String(x), LiteralView::String(y)) => (
            Ok(LiteralView::Bool(text_less(x, y))),
            used,
        ),
        (Ops::Equal, LiteralView::Integer(x), LiteralView::Integer(y)) => (
            Ok(LiteralView::Bool(x == y)),
            used,
        ),
        (Ops::Equal, LiteralView::Bool(x), LiteralView::Bool(y)) => (
            Ok(LiteralView::Bool(x == y)),
            used,
        ),
        (Ops::Equal, LiteralView::String(x), LiteralView::String(y)) => (
            Ok(LiteralView::Bool(x == y)),
            used,
        ),
        (Ops::NotEqual, LiteralView::Integer(x), LiteralView::Integer(y)) => (
            Ok(LiteralView::Bool(x != y)),
            used,
        ),
        (Ops::NotEqual, LiteralView::Bool(x), LiteralView::Bool(y)) => (
            Ok(LiteralView::Bool(x != y)),
            used,
        ),
        (Ops::NotEqual, LiteralView::String(x), LiteralView::String(y)) => (
            Ok(LiteralView::Bool(x != y)),
            used,
        ),
        (Ops::GreaterThanEqual, LiteralView::Integer(x), LiteralView::Integer(y)) => (
            Ok(LiteralView::Bool(x >= y)),
            used,
        ),
        (Ops::LessThanEqual, LiteralView::Integer(x), LiteralView::Integer(y)) => (
            Ok(LiteralView::Bool(x <= y)),
            used,
        ),
        (Ops::And, LiteralView::Bool(x), LiteralView::Bool(y)) => (
            Ok(LiteralView::Bool(x && y)),
            used,
        ),
        (Ops::Or, LiteralView::Bool(x), LiteralView::Bool(y)) => (
            Ok(LiteralView::Bool(x || y)),
            used,
        ),
        _ => (Err(unsupported(op, a, b)), used),
    }
}

/// The index that a value stands for: `IncorrectType` unless it is an
/// integer, `NegativeIndex` where it is below zero.
pub open spec fn index_spec(name: Seq<char>, value: LiteralView) -> Result<usize, ExecutionView> {
    match value {
        LiteralView::Integer(n) => if n < 0 {
            Err(ExecutionView::NegativeIndex(name, n))
        } else {
            Ok(n as usize)
        },
        other => Err(wrong_type(LiteralType::Integer, other)),
    }
}

/// What `LEN` gives for the variable of a name: for an array the number of
/// its slots, `NotFound` where the name is not bound, and `IncorrectType`
/// for any other variable.
pub open spec fn length_spec(st: StateView, name: Seq<char>) -> Result<LiteralView, ExecutionView> {
    match st.variable(name) {
        None => Err(ExecutionView::NotFound(name)),
        Some(VariableView::Literal { literal_type, .. }) => Err(
            ExecutionView::IncorrectType(DataTypes::Array, DataTypes::Literal(literal_type)),
        ),
        Some(VariableView::Array { bounds, .. }) => if bounds.lower <= bounds.upper
            && bounds.count() <= isize::MAX {
            Ok(LiteralView::Integer(bounds.count() as isize))
        } else {
            Err(ExecutionView::InvalidBounds(bounds))
        },
    }
}

/// The value of an expression, or the first error with the place of the
/// expression that raised it; and how many answers of the host are taken
/// afterwards. Operands and arguments are evaluated from left to right.
pub open spec fn eval(e: ExpressionNode, st: StateView, answers: Seq<LiteralView>, used: int) -> (
    Result<LiteralView, (ExecutionView, Span)>,
    int,
)
    decreases e, 0nat,
{
    match e.0 {
        ExpressionView::Value(v) => (Ok(v), used),
        ExpressionView::Variable(name) => (at(st.literal(name), e.1), used),
        ExpressionView::Negative(inner) => match eval(*inner, st, answers, used) {
            (Err(x), u) => (Err(x), u),
            (Ok(v), u) => {
                let (r, u2) = negate_spec(v, answers, u);
                (at(r, e.1), u2)
            },
        },
        ExpressionView::Not(inner) => match eval(*inner, st, answers, used) {
            (Err(x), u) => (Err(x), u),
            (Ok(v), u) => (at(not_spec(v), e.1), u),
        },
        ExpressionView::Operate(op, a, b) => match eval(*a, st, answers, used) {
            (Err(x), u) => (Err(x), u),
            (Ok(x), u) => match eval(*b, st, answers, u) {
                (Err(y), u2) => (Err(y), u2),
                (Ok(y), u2) => {
                    let (r, u3) = operate_spec(op, x, y, answers, u2);
                    (at(r, e.1), u3)
                },
            },
        },
        ExpressionView::ArrayIndex(name, index) => match eval(*index, st, answers, used) {
            (Err(x), u) => (Err(x), u),
            (Ok(v), u) => match index_spec(name, v) {
                Err(x) => (Err((x, e.1)), u),
                Ok(i) => (at(st.element(name, i), e.1), u),
            },
        },
        ExpressionView::FunctionCall(name, args) => if name == "LEN"@ {
            if args.len() != 1 {
                (
                    Err(
                        (
                            ExecutionView::IncorrectNumberArguments(
                                "LEN"@,
                                1,
                                args.len() as usize,
                            ),
                            e.1,
                        ),
                    ),
                    used,
                )
            } else {
                match args[0].0 {
                    ExpressionView::Variable(array) => (at(length_spec(st, array), e.1), used),
                    _ => match eval(args[0], st, answers, used) {
                        (Err(x), u) => (Err(x), u),
                        (Ok(v), u) => (
                            Err((ExecutionView::IncorrectType(DataTypes::Array, v.data_type()), e.1)),
                            u,
                        ),
                    },
                }
            }
        } else {
            match st.function(name) {
                None => (Err((ExecutionView::NotFound(name), e.1)), used),
                Some(Function::BuiltIn(native)) => match eval_all(
                    args,
                    0,
                    Seq::empty(),
                    st,
                    answers,
                    used,
                ) {
                    (Err(x), u) => (Err(x), u),
                    (Ok(values), u) => {
                        let (r, u2) = call_spec(native, values, answers, u);
                        (at(r, e.1), u2)
                    },
                },
            }
        },
    }
}

/// The values of the expressions from the place `i` on, added to those that
/// are there already; or the first error.
pub open spec fn eval_all(
    es: Seq<ExpressionNode>,
    i: int,
    values: Seq<LiteralView>,
    st: StateView,
    answers: Seq<LiteralView>,
    used: int,
) -> (Result<Seq<LiteralView>, (ExecutionView, Span)>, int)
    decreases es, es.len() - i,
{
    if i < 0 || i >= es.len() {
        (Ok(values), used)
    } else {
        match eval(es[i], st, answers, used) {
            (Err(x), u) => (Err(x), u),
            (Ok(v), u) => eval_all(es, i + 1, values.push(v), st, answers, u),
        }
    }
}

/// What `view` is on a list of values or an error with its place.
pub open spec fn values_outcome_view(r: Result<Vec<Literal>, (Execution, Span)>) -> Result<
    Seq<LiteralView>,
    (ExecutionView, Span),
> {
    match r {
        Ok(v) => Ok(literals_view(v@)),
        Err(e) => Err((e.0@, e.1)),
    }
}

/// The negative of a value.
pub fn negate(value: &Literal, host: &mut Host) -> (r: Result<Literal, Execution>)
    ensures
        (answer_view(r), final(host)@.used) == negate_spec(
            value@,
            old(host)@.answers,
            old(host)@.used,
        ),
        final(host)@ == old(host)@.with_used(final(host)@.used),
{
    match value {
        Literal::Integer(n) => {
            let zero: isize = 0;
            Ok(Literal::Integer(zero.wrapping_sub(*n)))
        },
        Literal::Real(x) => host.ask(Request::Negative(x.clone())),
        other => Err(Execution::UnaryNotSupported(Ops::Minus, other.data_type())),
    }
}

/// The opposite of a truth value.
pub fn not(value: &Literal) -> (r: Result<Literal, Execution>)
    ensures
        answer_view(r) == not_spec(value@),
{
    match value {
        Literal::Bool(b) => Ok(Literal::Bool(!*b)),
        other => Err(Execution::UnaryNotSupported(Ops::Not, other.data_type())),
    }
}

fn divide(x: isize, y: isize) -> (r: isize)
    requires
        y != 0,
    ensures
        r == if x == isize::MIN && y == -1 {
            isize::MIN
        } else {
            truncated_quotient(x as int, y as int) as isize
        },
{
    proof {
        let p: int = if x < 0 {
            -x
        } else {
            x as int
        };
        let q: int = if y < 0 {
            -y
        } else {
            y as int
        };
        assert(0 <= p / q <= p) by (nonlinear_arith)
            requires
                p >= 0,
                q >= 1,
        ;
        if q >= 2 && p > 0 {
            assert(p / q < p) by (nonlinear_arith)
                requires
                    p > 0,
                    q >= 2,
            ;
        }
        assert(p / 1 == p);
        assert(x * -1 == -x);
        assert(y * -1 == -y);
    }
    match x.checked_div(y) {
        Some(q) => q,
        None => isize::MIN,
    }
}

fn remainder(x: isize, y: isize) -> (r: isize)
    requires
        y != 0,
    ensures
        r == truncated_remainder(x as int, y as int) as isize,
{
    proof {
        let p: int = if x < 0 {
            -x
        } else {
            x as int
        };
        let q: int = if y < 0 {
            -y
        } else {
            y as int
        };
        assert(0 <= p % q < q) by (nonlinear_arith)
            requires
                p >= 0,
                q >= 1,
        ;
        assert(p % 1 == 0);
        assert(0int % q == 0) by (nonlinear_arith)
            requires
                q >= 1,
        ;
        assert(x * -1 == -x);
        assert(y * -1 == -y);
        assert((p % q) * -1 == -(p % q));
    }
    match x.checked_rem(y) {
        Some(q) => q,
        None => 0,
    }
}

/// Applies a binary operator to two values.
pub fn operate(operation: &Ops, a: &Literal, b: &Literal, host: &mut Host) -> (r: Result<
    Literal,
    Execution,
>)
    ensures
        (answer_view(r), final(host)@.used) == operate_spec(
            *operation,
            a@,
            b@,
            old(host)@.answers,
            old(host)@.used,
        ),
        final(host)@ == old(host)@.with_used(final(host)@.used),
{
    let op: Ops = *operation;
    match (a, b) {
        (Literal::Integer(x), Literal::Integer(y)) => {
            let x: isize = *x;
            let y: isize = *y;
            match op {
                Ops::Plus => Ok(Literal::Integer(x.wrapping_add(y))),
                Ops::Minus => Ok(Literal::Integer(x.wrapping_sub(y))),
                Ops::Multiply => Ok(Literal::Integer(x.wrapping_mul(y))),
                Ops::Divide => host.ask(Request::Operate(op, a.clone(), b.clone())),
                Ops::Div => if y == 0 {
                    Err(Execution::DivisionByZero)
                } else {
                    Ok(Literal::Integer(divide(x, y)))
                },
                Ops::Mod => if y == 0 {
                    Err(Execution::DivisionByZero)
                } else {
                    Ok(Literal::Integer(remainder(x, y)))
                },
                Ops::GreaterThan => Ok(Literal::Bool(x > y)),
                Ops::LessThan => Ok(Literal::Bool(x < y)),
                Ops::Equal => Ok(Literal::Bool(x == y)),
                Ops::NotEqual => Ok(Literal::Bool(x != y)),
                Ops::GreaterThanEqual => Ok(Literal::Bool(x >= y)),
                Ops::LessThanEqual => Ok(Literal::Bool(x <= y)),
                _ => Err(Execution::BinaryNotSupported(op, a.data_type(), b.data_type())),
            }
        },
        (Literal::Real(_), Literal::Real(_)) => match op {
            Ops::Plus | Ops::Minus | Ops::Multiply | Ops::Divide | Ops::Div => host.ask(
                Request::Operate(op, a.clone(), b.clone()),
            ),
            _ => Err(Execution::BinaryNotSupported(op, a.data_type(), b.data_type())),
        },
        (Literal::String(x), Literal::String(y)) => match op {
            Ops::Concatenate => Ok(Literal::String(x.clone().concat(y.as_str()))),
            Ops::GreaterThan => Ok(Literal::Bool(less_text(y.as_str(), x.as_str()))),
            Ops::LessThan => Ok(Literal::Bool(less_text(x.as_str(), y.as_str()))),
            Ops::Equal => Ok(Literal::Bool(*x == *y)),
            Ops::NotEqual => Ok(Literal::Bool(!(*x == *y))),
            _ => Err(Execution::BinaryNotSupported(op, a.data_type(), b.data_type())),
        },
        (Literal::Bool(x), Literal::Bool(y)) => {
            let x: bool = *x;
            let y: bool = *y;
            match op {
                Ops::GreaterThan => Ok(Literal::Bool(x && !y)),
                Ops::LessThan => Ok(Literal::Bool(!x && y)),
                Ops::Equal => Ok(Literal::Bool(x == y)),
                Ops::NotEqual => Ok(Literal::Bool(x != y)),
                Ops::And => Ok(Literal::Bool(x && y)),
                Ops::Or => Ok(Literal::Bool(x || y)),
                _ => Err(Execution::BinaryNotSupported(op, a.data_type(), b.data_type())),
            }
        },
        _ => Err(Execution::BinaryNotSupported(op, a.data_type(), b.data_type())),
    }
}

/// What `view` is on an index or an error.
pub open spec fn index_result_view(r: Result<usize, Execution>) -> Result<usize, ExecutionView> {
    match r {
        Ok(i) => Ok(i),
        Err(e) => Err(e@),
    }
}

/// The index that a value stands for.
pub fn index_of(name: &String, value: &Literal) -> (r: Result<usize, Execution>)
    ensures
        index_result_view(r) == index_spec(name@, value@),
{
    match value {
        Literal::Integer(n) => if *n < 0 {
            Err(Execution::NegativeIndex(name.clone(), *n))
        } else {
            Ok(*n as usize)
        },
        other => Err(
            Execution::IncorrectType(DataTypes::Literal(LiteralType::Integer), other.data_type()),
        ),
    }
}

/// The number of slots of the array of a name.
pub fn length(state: &State, name: &String) -> (r: Result<Literal, Execution>)
    ensures
        answer_view(r) == length_spec(state@, name@),
{
    match get_variable(state, name) {
        Err(e) => Err(e),
        Ok(Variable::Literal { literal_type, .. }) => Err(
            Execution::IncorrectType(DataTypes::Array, DataTypes::Literal(*literal_type)),
        ),
        Ok(Variable::Array { bounds, .. }) => {
            if bounds.lower <= bounds.upper && bounds.upper - bounds.lower < isize::MAX as usize {
                Ok(Literal::Integer((bounds.upper - bounds.lower + 1) as isize))
            } else {
                Err(Execution::InvalidBounds(*bounds))
            }
        },
    }
}

/// The callable of a name.
pub fn find_function(state: &State, name: &String) -> (r: Option<Function>)
    ensures
        r == state@.function(name@),
{
    let mut i: usize = 0;
    while i < state.functions.len()
        invariant
            i <= state.functions.len(),
            function_from(state@.functions, name@, i as int) == state@.function(name@),
        decreases state.functions.len() - i,
    {
        if state.functions[i].0 == *name {
            return Some(state.functions[i].1);
        }
        i += 1;
    }
    None
}

/// Evaluates an expression.
pub fn evaluate_expression(expression: &Spanned<Expression>, state: &State, host: &mut Host) -> (r:
    Result<Literal, (Execution, Span)>)
    ensures
        (value_outcome_view(r), final(host)@.used) == eval(
            node_view(*expression),
            state@,
            old(host)@.answers,
            old(host)@.used,
        ),
        final(host)@ == old(host)@.with_used(final(host)@.used),
    decreases expression,
{
    let span: Span = expression.1;
    match &expression.0 {
        Expression::Value(value) => Ok(value.clone()),
        Expression::Variable(identifier) => match get_literal(state, identifier) {
            Ok(v) => Ok(v),
            Err(e) => Err((e, span)),
        },
        Expression::Negative(inner) => match evaluate_expression(&**inner, state, host) {
            Err(e) => Err(e),
            Ok(v) => match negate(&v, host) {
                Ok(v) => Ok(v),
                Err(e) => Err((e, span)),
            },
        },
        Expression::Not(inner) => match evaluate_expression(&**inner, state, host) {
            Err(e) => Err(e),
            Ok(v) => match not(&v) {
                Ok(v) => Ok(v),
                Err(e) => Err((e, span)),
            },
        },
        Expression::Operate(op, a, b) => match evaluate_expression(&**a, state, host) {
            Err(e) => Err(e),
            Ok(x) => match evaluate_expression(&**b, state, host) {
                Err(e) => Err(e),
                Ok(y) => match operate(op, &x, &y, host) {
                    Ok(v) => Ok(v),
                    Err(e) => Err((e, span)),
                },
            },
        },
        Expression::ArrayIndex(identifier, index) => match evaluate_expression(
            &**index,
            state,
            host,
        ) {
            Err(e) => Err(e),
            Ok(v) => match index_of(identifier, &v) {
                Err(e) => Err((e, span)),
                Ok(i) => match index_array(state, identifier, i) {
                    Ok(v) => Ok(v),
                    Err(e) => Err((e, span)),
                },
            },
        },
        Expression::FunctionCall(name, args) => {
            let len_name = String::from_str("LEN");
            if *name == len_name {
                assert(expressions_view(args@).len() == args.len());
                if args.len() != 1 {
                    return Err(
                        (Execution::IncorrectNumberArguments(len_name, 1, args.len()), span),
                    );
                }
                match &args[0].0 {
                    Expression::Variable(array) => match length(state, array) {
                        Ok(v) => Ok(v),
                        Err(e) => Err((e, span)),
                    },
                    _ => match evaluate_expression(&args[0], state, host) {
                        Err(e) => Err(e),
                        Ok(v) => Err(
                            (Execution::IncorrectType(DataTypes::Array, v.data_type()), span),
                        ),
                    },
                }
            } else {
                match find_function(state, name) {
                    None => Err((Execution::NotFound(name.clone()), span)),
                    Some(Function::BuiltIn(native)) => {
                        match evaluate_all(args, state, host) {
                            Err(e) => Err(e),
                            Ok(values) => match call(native, values, host) {
                                Ok(v) => Ok(v),
                                Err(e) => Err((e, span)),
                            },
                        }
                    },
                }
            }
        },
    }
}

/// Evaluates the expressions of a list from left to right.
pub fn evaluate_all(expressions: &Vec<Spanned<Expression>>, state: &State, host: &mut Host) -> (r:
    Result<Vec<Literal>, (Execution, Span)>)
    ensures
        (values_outcome_view(r), final(host)@.used) == eval_all(
            expressions_view(expressions@),
            0,
            Seq::empty(),
            state@,
            old(host)@.answers,
            old(host)@.used,
        ),
        final(host)@ == old(host)@.with_used(final(host)@.used),
    decreases expressions,
{
    let mut values: Vec<Literal> = Vec::new();
    let mut i: usize = 0;
    proof {
        assert(literals_view(values@) =~= Seq::empty());
    }
    while i < expressions.len()
        invariant
            i <= expressions.len(),
            host@ == old(host)@.with_used(host@.used),
            eval_all(
                expressions_view(expressions@),
                i as int,
                literals_view(values@),
                state@,
                old(host)@.answers,
                host@.used,
            ) == eval_all(
                expressions_view(expressions@),
                0,
                Seq::empty(),
                state@,
                old(host)@.answers,
                old(host)@.used,
            ),
        decreases expressions.len() - i,
    {
        match evaluate_expression(&expressions[i], state, host) {
            Err(e) => {
                return Err(e);
            },
            Ok(v) => {
                proof {
                    assert(literals_view(values@.push(v)) =~= literals_view(values@).push(v@));
                }
                values.push(v);
            },
        }
        i += 1;
    }
    Ok(values)
}

/// The text that a value is written as. That of a real number is asked of
/// the host.
pub open spec fn display_spec(value: LiteralView, answers: Seq<LiteralView>, used: int) -> (
    Result<Seq<char>, ExecutionView>,
    int,
) {
    match value {
        LiteralView::Integer(n) => (Ok(decimal(n as int)), used),
        LiteralView::String(s) => (Ok(s), used),
        LiteralView::Bool(b) => (
            Ok(
                if b {
                    "true"@
                } else {
                    "false"@
                },
            ),
            used,
        ),
        LiteralView::Real(x) => match ask_spec(answers, used, RequestView::Display(x)) {
            (Ok(LiteralView::String(s)), u) => (Ok(s), u),
            (Ok(_), u) => (Err(ExecutionView::BadAnswer(RequestView::Display(x))), u),
            (Err(e), u) => (Err(e), u),
        },
    }
}

/// The texts of the values from the place `i` on, one after the other with
/// nothing between them, added to a line.
pub open spec fn render(
    values: Seq<LiteralView>,
    i: int,
    line: Seq<char>,
    answers: Seq<LiteralView>,
    used: int,
) -> (Result<Seq<char>, ExecutionView>, int)
    decreases values.len() - i,
{
    if i < 0 || i >= values.len() {
        (Ok(line), used)
    } else {
        match display_spec(values[i], answers, used) {
            (Err(e), u) => (Err(e), u),
            (Ok(text), u) => render(values, i + 1, line + text, answers, u),
        }
    }
}

/// The state after a statement, and whether the statement ended its block.
pub type Step = Result<(StateView, bool), (ExecutionView, Span)>;

/// The state after a block.
pub type Outcome = Result<StateView, (ExecutionView, Span)>;

/// The step of a statement that ran a block: the block is over, and the
/// block around it goes on.
pub open spec fn go_on(r: (Outcome, HostView)) -> (Step, HostView) {
    match r.0 {
        Ok(st) => (Ok((st, false)), r.1),
        Err(e) => (Err(e), r.1),
    }
}

/// Whether an array with these bounds can be made: the lower bound lies
/// below the upper one and a `usize` holds the number of slots.
pub open spec fn can_allocate(bounds: Bounds) -> bool {
    bounds.valid() && bounds.count() <= usize::MAX
}

/// What a declaration does: `AlreadyDeclared` where the name is bound in
/// any scope, `InvalidBounds` where an array cannot have the bounds, and else
/// a new binding without a value in the innermost scope.
pub open spec fn run_declare(d: DeclareView, span: Span, st: StateView, host: HostView) -> (
    Step,
    HostView,
) {
    match d {
        DeclareView::Literal(name, literal_type) => if st.variable(name) is Some {
            (Err((ExecutionView::AlreadyDeclared(name), span)), host)
        } else {
            (Ok((st.declare(name, VariableView::declared(literal_type)), false)), host)
        },
        DeclareView::Array(name, bounds, literal_type) => if st.variable(name) is Some {
            (Err((ExecutionView::AlreadyDeclared(name), span)), host)
        } else if !can_allocate(bounds) {
            (Err((ExecutionView::InvalidBounds(bounds), span)), host)
        } else {
            (
                Ok((st.declare(name, VariableView::declared_array(literal_type, bounds)), false)),
                host,
            )
        },
    }
}

/// What an assignment does. For a slot of an array the index is evaluated
/// first and then the value.
pub open spec fn run_assign(a: AssignView, span: Span, st: StateView, host: HostView) -> (
    Step,
    HostView,
) {
    match a {
        AssignView::Literal(name, e) => match eval(e, st, host.answers, host.used) {
            (Err(x), u) => (Err(x), host.with_used(u)),
            (Ok(v), u) => match st.assign(name, v) {
                Err(x) => (Err((x, span)), host.with_used(u)),
                Ok(next) => (Ok((next, false)), host.with_used(u)),
            },
        },
        AssignView::Array(name, index, e) => match eval(index, st, host.answers, host.used) {
            (Err(x), u) => (Err(x), host.with_used(u)),
            (Ok(i), u) => match index_spec(name, i) {
                Err(x) => (Err((x, span)), host.with_used(u)),
                Ok(i) => match eval(e, st, host.answers, u) {
                    (Err(x), u2) => (Err(x), host.with_used(u2)),
                    (Ok(v), u2) => match st.assign_element(name, i, v) {
                        Err(x) => (Err((x, span)), host.with_used(u2)),
                        Ok(next) => (Ok((next, false)), host.with_used(u2)),
                    },
                },
            },
        },
    }
}

/// What `OUTPUT` does: it evaluates the expressions from left to right and
/// writes their texts as one line.
pub open spec fn run_out(es: Seq<ExpressionNode>, span: Span, st: StateView, host: HostView) -> (
    Step,
    HostView,
) {
    match eval_all(es, 0, Seq::empty(), st, host.answers, host.used) {
        (Err(x), u) => (Err(x), host.with_used(u)),
        (Ok(values), u) => match render(values, 0, Seq::empty(), host.answers, u) {
            (Err(x), u2) => (Err((x, span)), host.with_used(u2)),
            (Ok(line), u2) => (Ok((st, false)), host.with_used(u2).with_line(line)),
        },
    }
}

/// The error of a variable that is not one value of the type expected.
pub open spec fn not_a(expected: LiteralType, variable: VariableView) -> ExecutionView {
    match variable {
        VariableView::Array { .. } => ExecutionView::IncorrectType(
            DataTypes::Literal(expected),
            DataTypes::Array,
        ),
        VariableView::Literal { literal_type, .. } => ExecutionView::IncorrectType(
            DataTypes::Literal(expected),
            DataTypes::Literal(literal_type),
        ),
    }
}

/// Whether a variable is one value of a type.
pub open spec fn is_a(expected: LiteralType, variable: VariableView) -> bool {
    match variable {
        VariableView::Array { .. } => false,
        VariableView::Literal { literal_type, .. } => literal_type == expected,
    }
}

/// What `INPUT` does: the variable is to be a string; a line is asked of the
/// host and assigned without the line break at its end.
pub open spec fn run_in(name: Seq<char>, span: Span, st: StateView, host: HostView) -> (
    Step,
    HostView,
) {
    match st.variable(name) {
        None => (Err((ExecutionView::NotFound(name), span)), host),
        Some(variable) => if !is_a(LiteralType::String, variable) {
            (Err((not_a(LiteralType::String, variable), span)), host)
        } else {
            match ask_spec(host.answers, host.used, RequestView::Input) {
                (Err(x), u) => (Err((x, span)), host.with_used(u)),
                (Ok(LiteralView::String(line)), u) => match st.assign(
                    name,
                    LiteralView::String(without_line_end(line)),
                ) {
                    Err(x) => (Err((x, span)), host.with_used(u)),
                    Ok(next) => (Ok((next, false)), host.with_used(u)),
                },
                (Ok(_), u) => (
                    Err((ExecutionView::BadAnswer(RequestView::Input), span)),
                    host.with_used(u),
                ),
            }
        },
    }
}

/// What `RETURN` does: `CanNotCallReturn` outside a callable. It ends its
/// block; with a value, the value is evaluated and the scope of the block is
/// left, and the value goes nowhere.
pub open spec fn run_return(
    e: Option<ExpressionNode>,
    span: Span,
    st: StateView,
    as_function: bool,
    host: HostView,
) -> (Step, HostView) {
    if !as_function {
        (Err((ExecutionView::CanNotCallReturn, span)), host)
    } else {
        match e {
            None => (Ok((st, true)), host),
            Some(e) => match eval(e, st, host.answers, host.used) {
                (Err(x), u) => (Err(x), host.with_used(u)),
                (Ok(_), u) => (Ok((st.leave(), true)), host.with_used(u)),
            },
        }
    }
}

/// The first and the last value of the variable of a `FOR` loop, or `None`
/// where the first lies above the last. The variable is to be an integer
/// that can change, and both expressions are to give integers.
pub open spec fn for_range(
    name: Seq<char>,
    from: ExpressionNode,
    to: ExpressionNode,
    span: Span,
    st: StateView,
    host: HostView,
) -> (Result<Option<(isize, isize)>, (ExecutionView, Span)>, HostView) {
    match st.variable(name) {
        None => (Err((ExecutionView::NotFound(name), span)), host),
        Some(variable) => if !is_a(LiteralType::Integer, variable) {
            (Err((not_a(LiteralType::Integer, variable), span)), host)
        } else if !variable->is_mutable {
            (Err((ExecutionView::AssignToConstant(name), span)), host)
        } else {
            match eval(from, st, host.answers, host.used) {
                (Err(x), u) => (Err(x), host.with_used(u)),
                (Ok(LiteralView::Integer(first)), u) => match eval(to, st, host.answers, u) {
                    (Err(x), u2) => (Err(x), host.with_used(u2)),
                    (Ok(LiteralView::Integer(last)), u2) => if first <= last {
                        (Ok(Some((first, last))), host.with_used(u2))
                    } else {
                        (Ok(None), host.with_used(u2))
                    },
                    (Ok(other), u2) => (
                        Err((wrong_type(LiteralType::Integer, other), span)),
                        host.with_used(u2),
                    ),
                },
                (Ok(other), u) => (
                    Err((wrong_type(LiteralType::Integer, other), span)),
                    host.with_used(u),
                ),
            }
        },
    }
}

/// The truth value of a condition, or the error of evaluating it;
/// `IncorrectType` where its value is no truth value.
pub open spec fn condition(c: ExpressionNode, span: Span, st: StateView, host: HostView) -> (
    Result<bool, (ExecutionView, Span)>,
    HostView,
) {
    match eval(c, st, host.answers, host.used) {
        (Err(x), u) => (Err(x), host.with_used(u)),
        (Ok(LiteralView::Bool(b)), u) => (Ok(b), host.with_used(u)),
        (Ok(other), u) => (
            Err((wrong_type(LiteralType::Boolean, other), span)),
            host.with_used(u),
        ),
    }
}

/// What one statement does: the state after it and whether it ended its
/// block, or the error that stopped it; and the host afterwards.
pub open spec fn run_statement(s: StatementNode, st: StateView, as_function: bool, host: HostView)
    -> (Step, HostView)
    decreases host.steps, s, 0nat,
{
    match s.0 {
        StatementView::Declare(d) => run_declare(d, s.1, st, host),
        StatementView::Assign(a) => run_assign(a, s.1, st, host),
        StatementView::Out(es) => run_out(es, s.1, st, host),
        StatementView::In(name) => run_in(name, s.1, st, host),
        StatementView::ProcedureCall(name, _) => (
            Err((ExecutionView::NotSupported(name), s.1)),
            host,
        ),
        StatementView::Return(e) => run_return(e, s.1, st, as_function, host),
        StatementView::If(c, then_block, else_block) => match condition(c, s.1, st, host) {
            (Err(x), h) => (Err(x), h),
            (Ok(true), h) => if h.steps == host.steps {
                go_on(run_block(then_block, st, false, h))
            } else {
                (Err((ExecutionView::StepLimit, s.1)), h)
            },
            (Ok(false), h) => match else_block {
                Some(block) => if h.steps == host.steps {
                    go_on(run_block(block, st, false, h))
                } else {
                    (Err((ExecutionView::StepLimit, s.1)), h)
                },
                None => (Ok((st, false)), h),
            },
        },
        StatementView::For(name, from, to, body) => match for_range(name, from, to, s.1, st, host) {
            (Err(x), h) => (Err(x), h),
            (Ok(None), h) => (Ok((st, false)), h),
            (Ok(Some((first, last))), h) => if h.steps == host.steps {
                go_on(run_for(name, first, last, body, s.1, st, as_function, h))
            } else {
                (Err((ExecutionView::StepLimit, s.1)), h)
            },
        },
        StatementView::While(c, body) => go_on(run_while(c, body, s.1, st, as_function, host)),
        StatementView::Repeat(body, c) => go_on(run_repeat(body, c, s.1, st, as_function, host)),
    }
}

/// What a block does: it runs its statements in order in a scope of its
/// own, which is gone afterwards.
pub open spec fn run_block(
    statements: Seq<StatementNode>,
    st: StateView,
    as_function: bool,
    host: HostView,
) -> (Outcome, HostView)
    decreases host.steps, statements, statements.len() + 1,
{
    run_from(statements, 0, st.enter(), as_function, host)
}

/// What the statements of a block from the place `i` on do. After the last
/// one the scope of the block is left; a statement that ends the block
/// leaves the state as it is.
pub open spec fn run_from(
    statements: Seq<StatementNode>,
    i: int,
    st: StateView,
    as_function: bool,
    host: HostView,
) -> (Outcome, HostView)
    decreases host.steps, statements, statements.len() - i,
{
    if i < 0 || i >= statements.len() {
        (Ok(st.leave()), host)
    } else {
        match run_statement(statements[i], st, as_function, host) {
            (Err(x), h) => (Err(x), h),
            (Ok((next, true)), h) => (Ok(next), h),
            (Ok((next, false)), h) => if h.steps <= host.steps {
                run_from(statements, i + 1, next, as_function, h)
            } else {
                (Err((ExecutionView::StepLimit, statements[i].1)), h)
            },
        }
    }
}

/// What a `WHILE` loop does: as long as the condition holds it runs the
/// body, and going back to the condition takes one step from the host.
pub open spec fn run_while(
    c: ExpressionNode,
    body: Seq<StatementNode>,
    span: Span,
    st: StateView,
    as_function: bool,
    host: HostView,
) -> (Outcome, HostView)
    decreases host.steps, body, body.len() + 2,
{
    match condition(c, span, st, host) {
        (Err(x), h) => (Err(x), h),
        (Ok(false), h) => (Ok(st), h),
        (Ok(true), h) => if h.steps != host.steps {
            (Err((ExecutionView::StepLimit, span)), h)
        } else {
            match run_block(body, st, as_function, h) {
                (Err(x), h2) => (Err(x), h2),
                (Ok(next), h2) => if 0 < h2.steps <= host.steps {
                    run_while(
                        c,
                        body,
                        span,
                        next,
                        as_function,
                        h2.with_steps((h2.steps - 1) as nat),
                    )
                } else {
                    (Err((ExecutionView::StepLimit, span)), h2)
                },
            }
        },
    }
}

/// What a `REPEAT` loop does: it runs the body, then looks at the condition,
/// and is over where it holds. Going back to the body takes one step from
/// the host.
pub open spec fn run_repeat(
    body: Seq<StatementNode>,
    c: ExpressionNode,
    span: Span,
    st: StateView,
    as_function: bool,
    host: HostView,
) -> (Outcome, HostView)
    decreases host.steps, body, body.len() + 2,
{
    match run_block(body, st, as_function, host) {
        (Err(x), h) => (Err(x), h),
        (Ok(next), h) => match condition(c, span, next, h) {
            (Err(x), h2) => (Err(x), h2),
            (Ok(true), h2) => (Ok(next), h2),
            (Ok(false), h2) => if 0 < h2.steps <= host.steps {
                run_repeat(
                    body,
                    c,
                    span,
                    next,
                    as_function,
                    h2.with_steps((h2.steps - 1) as nat),
                )
            } else {
                (Err((ExecutionView::StepLimit, span)), h2)
            },
        },
    }
}

/// What a `FOR` loop does from the value `n` of its variable on: it assigns
/// the value, runs the body, and is over after the value `last`. Going on
/// to the next value takes one step from the host.
pub open spec fn run_for(
    name: Seq<char>,
    n: isize,
    last: isize,
    body: Seq<StatementNode>,
    span: Span,
    st: StateView,
    as_function: bool,
    host: HostView,
) -> (Outcome, HostView)
    decreases host.steps, body, body.len() + 2,
{
    match st.assign(name, LiteralView::Integer(n)) {
        Err(x) => (Err((x, span)), host),
        Ok(assigned) => match run_block(body, assigned, as_function, host) {
            (Err(x), h) => (Err(x), h),
            (Ok(next), h) => if n >= last {
                (Ok(next), h)
            } else if 0 < h.steps <= host.steps {
                run_for(
                    name,
                    (n + 1) as isize,
                    last,
                    body,
                    span,
                    next,
                    as_function,
                    h.with_steps((h.steps - 1) as nat),
                )
            } else {
                (Err((ExecutionView::StepLimit, span)), h)
            },
        },
    }
}

/// What `view` is on the result of `evaluate`.
pub open spec fn outcome_view(r: Result<State, (Execution, Span)>) -> Outcome {
    match r {
        Ok(s) => Ok(s@),
        Err(e) => Err((e.0@, e.1)),
    }
}

/// What `view` is on the result of `execute`.
pub open spec fn step_view(r: Result<(State, bool), (Execution, Span)>) -> Step {
    match r {
        Ok(s) => Ok((s.0@, s.1)),
        Err(e) => Err((e.0@, e.1)),
    }
}

/// What `view` is on a text or an error.
pub open spec fn text_result_view(r: Result<String, Execution>) -> Result<Seq<char>, ExecutionView> {
    match r {
        Ok(s) => Ok(s@),
        Err(e) => Err(e@),
    }
}

/// The text that a value is written as.
pub fn display(value: &Literal, host: &mut Host) -> (r: Result<String, Execution>)
    ensures
        (text_result_view(r), final(host)@.used) == display_spec(
            value@,
            old(host)@.answers,
            old(host)@.used,
        ),
        final(host)@ == old(host)@.with_used(final(host)@.used),
{
    match value {
        Literal::Integer(n) => Ok(integer_text(*n)),
        Literal::String(s) => Ok(s.clone()),
        Literal::Bool(b) => if *b {
            Ok(String::from_str("true"))
        } else {
            Ok(String::from_str("false"))
        },
        Literal::Real(x) => match host.ask(Request::Display(x.clone())) {
            Ok(Literal::String(s)) => Ok(s),
            Ok(_) => Err(Execution::BadAnswer(Request::Display(x.clone()))),
            Err(e) => Err(e),
        },
    }
}

/// The line that a list of values is written as.
pub fn display_all(values: &Vec<Literal>, host: &mut Host) -> (r: Result<String, Execution>)
    ensures
        (text_result_view(r), final(host)@.used) == render(
            literals_view(values@),
            0,
            Seq::empty(),
            old(host)@.answers,
            old(host)@.used,
        ),
        final(host)@ == old(host)@.with_used(final(host)@.used),
{
    let mut line = String::new();
    let mut i: usize = 0;
    while i < values.len()
        invariant
            i <= values.len(),
            host@ == old(host)@.with_used(host@.used),
            render(literals_view(values@), i as int, line@, old(host)@.answers, host@.used)
                == render(
                literals_view(values@),
                0,
                Seq::empty(),
                old(host)@.answers,
                old(host)@.used,
            ),
        decreases values.len() - i,
    {
        match display(&values[i], host) {
            Err(e) => {
                return Err(e);
            },
            Ok(text) => {
                line.append(text.as_str());
            },
        }
        i += 1;
    }
    Ok(line)
}

/// The state with one more scope, which is empty.
fn enter(state: State) -> (r: State)
    ensures
        r@ == state@.enter(),
{
    let ghost before = state@;
    let mut state = state;
    state.scopes.push(Scope { variables: Vec::new() });
    proof {
        assert(state@.scopes =~= before.scopes.push(Seq::empty())) by {
            assert(state.scopes@.last()@ =~= Seq::empty());
        }
    }
    state
}

/// The state without its innermost scope.
fn leave(state: State) -> (r: State)
    ensures
        r@ == state@.leave(),
{
    let ghost before = state@;
    let mut state = state;
    if state.scopes.len() > 0 {
        state.scopes.pop();
        proof {
            assert(state@.scopes =~= before.scopes.drop_last());
        }
    }
    state
}

/// The state with a new binding in its innermost scope.
fn declare(state: State, name: &String, variable: Variable) -> (r: State)
    ensures
        r@ == state@.declare(name@, variable@),
{
    let ghost before = state@;
    let mut state = state;
    let n: usize = state.scopes.len();
    if n > 0 {
        state.scopes[n - 1].variables.push((name.clone(), variable));
        proof {
            let after = before.declare(name@, variable@);
            assert(state@.scopes[n - 1] =~= after.scopes[n - 1]);
            assert(state@.scopes =~= after.scopes);
            assert(state@.functions =~= after.functions);
        }
    }
    state
}

/// An array of which no slot holds a value.
fn empty_array(literal_type: LiteralType, bounds: Bounds) -> (r: Variable)
    requires
        can_allocate(bounds),
    ensures
        r@ == VariableView::declared_array(literal_type, bounds),
{
    let count: usize = bounds.upper - bounds.lower + 1;
    let mut values: Vec<Option<Literal>> = Vec::new();
    let mut i: usize = 0;
    while i < count
        invariant
            i <= count,
            values.len() == i,
            forall|k: int| 0 <= k < i ==> values@[k] is None,
        decreases count - i,
    {
        values.push(None);
        i += 1;
    }
    proof {
        assert(slots_view(values@) =~= Seq::new(bounds.count() as nat, |i: int| None));
    }
    Variable::Array { literal_type, bounds, values }
}

/// Runs the statements of a block in a scope of its own.
pub fn evaluate(
    statements: &Vec<Spanned<Statement>>,
    state: State,
    as_function: bool,
    host: &mut Host,
) -> (r: Result<State, (Execution, Span)>)
    ensures
        (outcome_view(r), final(host)@) == run_block(
            statements_view(statements@),
            state@,
            as_function,
            old(host)@,
        ),
        final(host).steps <= old(host).steps,
        final(host)@.answers == old(host)@.answers,
    decreases old(host).steps, statements, statements.len() + 1,
{
    let mut current = enter(state);
    let mut i: usize = 0;
    while i < statements.len()
        invariant
            i <= statements.len(),
            host.steps <= old(host).steps,
            host@.answers == old(host)@.answers,
            run_from(statements_view(statements@), i as int, current@, as_function, host@)
                == run_block(statements_view(statements@), state@, as_function, old(host)@),
        decreases statements.len() - i,
    {
        let ghost before = host@;
        match execute(&statements[i], current, as_function, host) {
            Err(e) => {
                return Err(e);
            },
            Ok((next, ended)) => {
                if ended {
                    return Ok(next);
                }
                current = next;
            },
        }
        i += 1;
    }
    Ok(leave(current))
}

/// What `view` is on a truth value or an error with its place.
pub open spec fn condition_view(r: Result<bool, (Execution, Span)>) -> Result<
    bool,
    (ExecutionView, Span),
> {
    match r {
        Ok(b) => Ok(b),
        Err(e) => Err((e.0@, e.1)),
    }
}

/// What `view` is on the range of a loop or an error with its place.
pub open spec fn range_view(r: Result<Option<(isize, isize)>, (Execution, Span)>) -> Result<
    Option<(isize, isize)>,
    (ExecutionView, Span),
> {
    match r {
        Ok(b) => Ok(b),
        Err(e) => Err((e.0@, e.1)),
    }
}

/// Evaluates a condition.
pub fn decide(expression: &Spanned<Expression>, span: Span, state: &State, host: &mut Host) -> (r:
    Result<bool, (Execution, Span)>)
    ensures
        (condition_view(r), final(host)@) == condition(
            node_view(*expression),
            span,
            state@,
            old(host)@,
        ),
        final(host).steps == old(host).steps,
        final(host)@.answers == old(host)@.answers,
{
    match evaluate_expression(expression, state, host) {
        Err(e) => Err(e),
        Ok(Literal::Bool(b)) => Ok(b),
        Ok(other) => Err(
            (
                Execution::IncorrectType(
                    DataTypes::Literal(LiteralType::Boolean),
                    other.data_type(),
                ),
                span,
            ),
        ),
    }
}

/// Carries out a declaration.
pub fn run_declaration(declaration: &Declare, span: Span, state: State, host: &Host) -> (r: Result<
    (State, bool),
    (Execution, Span),
>)
    ensures
        (step_view(r), host@) == run_declare(declaration@, span, state@, host@),
{
    match declaration {
        Declare::Literal(identifier, literal_type) => {
            if locate(&state, identifier).is_some() {
                return Err((Execution::AlreadyDeclared(identifier.clone()), span));
            }
            Ok((declare(state, identifier, Variable::declared(*literal_type)), false))
        },
        Declare::Array(identifier, bounds, literal_type) => {
            if locate(&state, identifier).is_some() {
                return Err((Execution::AlreadyDeclared(identifier.clone()), span));
            }
            if bounds.lower >= bounds.upper || bounds.upper - bounds.lower == usize::MAX {
                return Err((Execution::InvalidBounds(*bounds), span));
            }
            Ok((declare(state, identifier, empty_array(*literal_type, *bounds)), false))
        },
    }
}

/// Carries out an assignment.
pub fn run_assignment(assignment: &Assign, span: Span, state: State, host: &mut Host) -> (r: Result<
    (State, bool),
    (Execution, Span),
>)
    ensures
        (step_view(r), final(host)@) == run_assign(assignment@, span, state@, old(host)@),
        final(host).steps == old(host).steps,
        final(host)@.answers == old(host)@.answers,
{
    match assignment {
        Assign::Literal(identifier, expression) => {
            match evaluate_expression(expression, &state, host) {
                Err(e) => Err(e),
                Ok(value) => match assign_literal(state, identifier, value) {
                    Err(e) => Err((e, span)),
                    Ok(next) => Ok((next, false)),
                },
            }
        },
        Assign::Array(identifier, index, expression) => {
            match evaluate_expression(index, &state, host) {
                Err(e) => Err(e),
                Ok(i) => match index_of(identifier, &i) {
                    Err(e) => Err((e, span)),
                    Ok(i) => match evaluate_expression(expression, &state, host) {
                        Err(e) => Err(e),
                        Ok(value) => match assign_array(state, identifier, i, value) {
                            Err(e) => Err((e, span)),
                            Ok(next) => Ok((next, false)),
                        },
                    },
                },
            }
        },
    }
}

/// Carries out `OUTPUT`.
pub fn run_output(expressions: &Vec<Spanned<Expression>>, span: Span, state: State, host: &mut Host)
    -> (r: Result<(State, bool), (Execution, Span)>)
    ensures
        (step_view(r), final(host)@) == run_out(
            expressions_view(expressions@),
            span,
            state@,
            old(host)@,
        ),
        final(host).steps == old(host).steps,
        final(host)@.answers == old(host)@.answers,
{
    match evaluate_all(expressions, &state, host) {
        Err(e) => Err(e),
        Ok(values) => match display_all(&values, host) {
            Err(e) => Err((e, span)),
            Ok(line) => {
                host.write(line);
                Ok((state, false))
            },
        },
    }
}

/// The error of a variable that is not one value of the type expected, or
/// nothing where it is one.
fn expect_a(expected: LiteralType, variable: &Variable) -> (r: Option<Execution>)
    ensures
        match r {
            Some(e) => !is_a(expected, variable@) && e@ == not_a(expected, variable@),
            None => is_a(expected, variable@),
        },
{
    match variable {
        Variable::Array { .. } => Some(
            Execution::IncorrectType(DataTypes::Literal(expected), DataTypes::Array),
        ),
        Variable::Literal { literal_type, .. } => if *literal_type != expected {
            Some(
                Execution::IncorrectType(
                    DataTypes::Literal(expected),
                    DataTypes::Literal(*literal_type),
                ),
            )
        } else {
            None
        },
    }
}

/// Carries out `INPUT`.
pub fn run_input(identifier: &String, span: Span, state: State, host: &mut Host) -> (r: Result<
    (State, bool),
    (Execution, Span),
>)
    ensures
        (step_view(r), final(host)@) == run_in(identifier@, span, state@, old(host)@),
        final(host).steps == old(host).steps,
        final(host)@.answers == old(host)@.answers,
{
    match get_variable(&state, identifier) {
        Err(e) => {
            return Err((e, span));
        },
        Ok(variable) => match expect_a(LiteralType::String, variable) {
            Some(e) => {
                return Err((e, span));
            },
            None => {},
        },
    }
    match host.ask(Request::Input) {
        Err(e) => Err((e, span)),
        Ok(Literal::String(line)) => {
            match assign_literal(state, identifier, Literal::String(trim_line_end(line.as_str()))) {
                Err(e) => Err((e, span)),
                Ok(next) => Ok((next, false)),
            }
        },
        Ok(_) => Err((Execution::BadAnswer(Request::Input), span)),
    }
}

/// Carries out `RETURN`.
pub fn run_returning(
    value: &Option<Spanned<Expression>>,
    span: Span,
    state: State,
    as_function: bool,
    host: &mut Host,
) -> (r: Result<(State, bool), (Execution, Span)>)
    ensures
        (step_view(r), final(host)@) == run_return(
            match value {
                Some(e) => Some(node_view(*e)),
                None => None,
            },
            span,
            state@,
            as_function,
            old(host)@,
        ),
        final(host).steps == old(host).steps,
        final(host)@.answers == old(host)@.answers,
{
    if !as_function {
        return Err((Execution::CanNotCallReturn, span));
    }
    match value {
        None => Ok((state, true)),
        Some(expression) => match evaluate_expression(expression, &state, host) {
            Err(e) => Err(e),
            Ok(_) => Ok((leave(state), true)),
        },
    }
}

/// The first and the last value of the variable of a `FOR` loop.
pub fn range_of(
    identifier: &String,
    start: &Spanned<Expression>,
    end: &Spanned<Expression>,
    span: Span,
    state: &State,
    host: &mut Host,
) -> (r: Result<Option<(isize, isize)>, (Execution, Span)>)
    ensures
        (range_view(r), final(host)@) == for_range(
            identifier@,
            node_view(*start),
            node_view(*end),
            span,
            state@,
            old(host)@,
        ),
        final(host).steps == old(host).steps,
        final(host)@.answers == old(host)@.answers,
{
    match get_variable(state, identifier) {
        Err(e) => {
            return Err((e, span));
        },
        Ok(variable) => {
            match expect_a(LiteralType::Integer, variable) {
                Some(e) => {
                    return Err((e, span));
                },
                None => {},
            }
            match variable {
                Variable::Literal { is_mutable, .. } => {
                    if !*is_mutable {
                        return Err((Execution::AssignToConstant(identifier.clone()), span));
                    }
                },
                _ => {},
            }
        },
    }
    let first: isize = match evaluate_expression(start, state, host) {
        Err(e) => {
            return Err(e);
        },
        Ok(Literal::Integer(n)) => n,
        Ok(other) => {
            return Err(
                (
                    Execution::IncorrectType(
                        DataTypes::Literal(LiteralType::Integer),
                        other.data_type(),
                    ),
                    span,
                ),
            );
        },
    };
    let last: isize = match evaluate_expression(end, state, host) {
        Err(e) => {
            return Err(e);
        },
        Ok(Literal::Integer(n)) => n,
        Ok(other) => {
            return Err(
                (
                    Execution::IncorrectType(
                        DataTypes::Literal(LiteralType::Integer),
                        other.data_type(),
                    ),
                    span,
                ),
            );
        },
    };
    if first <= last {
        Ok(Some((first, last)))
    } else {
        Ok(None)
    }
}

/// Runs one statement. The second part of the result says whether the
/// statement ended the block it stands in.
pub fn execute(statement: &Spanned<Statement>, state: State, as_function: bool, host: &mut Host)
    -> (r: Result<(State, bool), (Execution, Span)>)
    ensures
        (step_view(r), final(host)@) == run_statement(
            (statement.0@, statement.1),
            state@,
            as_function,
            old(host)@,
        ),
        final(host).steps <= old(host).steps,
        final(host)@.answers == old(host)@.answers,
    decreases old(host).steps, statement, 0nat,
{
    let span: Span = statement.1;
    match &statement.0 {
        Statement::Declare(declaration) => run_declaration(declaration, span, state, host),
        Statement::Assign(assignment) => run_assignment(assignment, span, state, host),
        Statement::Out(expressions) => run_output(expressions, span, state, host),
        Statement::In(identifier) => run_input(identifier, span, state, host),
        Statement::ProcedureCall(name, _) => Err((Execution::NotSupported(name.clone()), span)),
        Statement::Return(value) => run_returning(value, span, state, as_function, host),
        Statement::If(conditional, if_branch, else_branch) => {
            match decide(conditional, span, &state, host) {
                Err(e) => Err(e),
                Ok(true) => match evaluate(if_branch, state, false, host) {
                    Err(e) => Err(e),
                    Ok(next) => Ok((next, false)),
                },
                Ok(false) => match else_branch {
                    Some(block) => match evaluate(block, state, false, host) {
                        Err(e) => Err(e),
                        Ok(next) => Ok((next, false)),
                    },
                    None => Ok((state, false)),
                },
            }
        },
        Statement::For(identifier, start, end, statements) => {
            match range_of(identifier, start, end, span, &state, host) {
                Err(e) => Err(e),
                Ok(None) => Ok((state, false)),
                Ok(Some((first, last))) => match repeat_for(
                    identifier,
                    first,
                    last,
                    statements,
                    span,
                    state,
                    as_function,
                    host,
                ) {
                    Err(e) => Err(e),
                    Ok(next) => Ok((next, false)),
                },
            }
        },
        Statement::While(expression, statements) => {
            match repeat_while(expression, statements, span, state, as_function, host) {
                Err(e) => Err(e),
                Ok(next) => Ok((next, false)),
            }
        },
        Statement::Repeat(statements, expression) => {
            match repeat_until(statements, expression, span, state, as_function, host) {
                Err(e) => Err(e),
                Ok(next) => Ok((next, false)),
            }
        },
    }
}

/// Runs a `WHILE` loop.
pub fn repeat_while(
    condition: &Spanned<Expression>,
    body: &Vec<Spanned<Statement>>,
    span: Span,
    state: State,
    as_function: bool,
    host: &mut Host,
) -> (r: Result<State, (Execution, Span)>)
    ensures
        (outcome_view(r), final(host)@) == run_while(
            node_view(*condition),
            statements_view(body@),
            span,
            state@,
            as_function,
            old(host)@,
        ),
        final(host).steps <= old(host).steps,
        final(host)@.answers == old(host)@.answers,
    decreases old(host).steps, body, body.len() + 2,
{
    let mut current = state;
    loop
        invariant
            host.steps <= old(host).steps,
            host@.answers == old(host)@.answers,
            run_while(
                node_view(*condition),
                statements_view(body@),
                span,
                current@,
                as_function,
                host@,
            ) == run_while(
                node_view(*condition),
                statements_view(body@),
                span,
                state@,
                as_function,
                old(host)@,
            ),
        decreases host.steps,
    {
        match decide(condition, span, &current, host) {
            Err(e) => {
                return Err(e);
            },
            Ok(false) => {
                return Ok(current);
            },
            Ok(true) => {},
        }
        match evaluate(body, current, as_function, host) {
            Err(e) => {
                return Err(e);
            },
            Ok(next) => {
                current = next;
            },
        }
        if host.steps == 0 {
            return Err((Execution::StepLimit, span));
        }
        host.steps = host.steps - 1;
    }
}

/// Runs a `REPEAT` loop.
pub fn repeat_until(
    body: &Vec<Spanned<Statement>>,
    condition: &Spanned<Expression>,
    span: Span,
    state: State,
    as_function: bool,
    host: &mut Host,
) -> (r: Result<State, (Execution, Span)>)
    ensures
        (outcome_view(r), final(host)@) == run_repeat(
            statements_view(body@),
            node_view(*condition),
            span,
            state@,
            as_function,
            old(host)@,
        ),
        final(host).steps <= old(host).steps,
        final(host)@.answers == old(host)@.answers,
    decreases old(host).steps, body, body.len() + 2,
{
    let mut current = state;
    loop
        invariant
            host.steps <= old(host).steps,
            host@.answers == old(host)@.answers,
            run_repeat(
                statements_view(body@),
                node_view(*condition),
                span,
                current@,
                as_function,
                host@,
            ) == run_repeat(
                statements_view(body@),
                node_view(*condition),
                span,
                state@,
                as_function,
                old(host)@,
            ),
        decreases host.steps,
    {
        match evaluate(body, current, as_function, host) {
            Err(e) => {
                return Err(e);
            },
            Ok(next) => {
                current = next;
            },
        }
        match decide(condition, span, &current, host) {
            Err(e) => {
                return Err(e);
            },
            Ok(true) => {
                return Ok(current);
            },
            Ok(false) => {},
        }
        if host.steps == 0 {
            return Err((Execution::StepLimit, span));
        }
        host.steps = host.steps - 1;
    }
}

/// Runs a `FOR` loop from the value `first` of its variable to the value
/// `last`.
pub fn repeat_for(
    identifier: &String,
    first: isize,
    last: isize,
    body: &Vec<Spanned<Statement>>,
    span: Span,
    state: State,
    as_function: bool,
    host: &mut Host,
) -> (r: Result<State, (Execution, Span)>)
    ensures
        (outcome_view(r), final(host)@) == run_for(
            identifier@,
            first,
            last,
            statements_view(body@),
            span,
            state@,
            as_function,
            old(host)@,
        ),
        final(host).steps <= old(host).steps,
        final(host)@.answers == old(host)@.answers,
    decreases old(host).steps, body, body.len() + 2,
{
    let mut current = state;
    let mut n: isize = first;
    loop
        invariant
            host.steps <= old(host).steps,
            host@.answers == old(host)@.answers,
            run_for(
                identifier@,
                n,
                last,
                statements_view(body@),
                span,
                current@,
                as_function,
                host@,
            ) == run_for(
                identifier@,
                first,
                last,
                statements_view(body@),
                span,
                state@,
                as_function,
                old(host)@,
            ),
        decreases host.steps,
    {
        match assign_literal(current, identifier, Literal::Integer(n)) {
            Err(e) => {
                return Err((e, span));
            },
            Ok(assigned) => match evaluate(body, assigned, as_function, host) {
                Err(e) => {
                    return Err(e);
                },
                Ok(next) => {
                    current = next;
                },
            },
        }
        if n >= last {
            return Ok(current);
        }
        if host.steps == 0 {
            return Err((Execution::StepLimit, span));
        }
        host.steps = host.steps - 1;
        n = n + 1;
    }
}

} // verus!
