//! What holds of every program: laws of the evaluator, each proved from the
//! mathematical functions that define what a program does. The laws of the
//! lexer stand with the lexer, and those of running a program again with
//! more answers in a file of their own.

use vstd::prelude::*;
use crate::ast::{
    Bounds,
    DataTypes,
    DeclareView,
    ExecutionView,
    ExpressionNode,
    ExpressionView,
    LiteralType,
    LiteralView,
    Span,
    StatementNode,
    StatementView,
    VariableView,
};
use crate::ast::{AssignView, RequestView};
use crate::evaluate::{
    ScopeView,
    StateView,
    can_allocate,
    condition,
    display_spec,
    eval,
    eval_all,
    for_range,
    index_spec,
    length_spec,
    position_from,
    render,
    resolve_below,
    run_block,
    run_declare,
    run_for,
    run_from,
    run_out,
    run_repeat,
    run_statement,
    run_while,
};
use crate::host::ask_spec;
use crate::text::{decimal, without_line_end};
use crate::host::HostView;
use crate::run::{initial_state, run_source};

verus! {

/// Where a name is bound among the first scopes of a stack depends on those
/// scopes alone.
proof fn resolve_is_local(a: Seq<ScopeView>, b: Seq<ScopeView>, name: Seq<char>, n: int)
    requires
        0 <= n <= a.len(),
        n <= b.len(),
        forall|i: int| 0 <= i < n ==> a[i] == b[i],
    ensures
        resolve_below(a, name, n) == resolve_below(b, name, n),
    decreases n,
{
    if n > 0 {
        resolve_is_local(a, b, name, n - 1);
    }
}

/// The place at which a name is found lies in the scope.
proof fn position_is_within(scope: ScopeView, name: Seq<char>, i: int)
    requires
        0 <= i,
    ensures
        position_from(scope, name, i) matches Some(j) ==> i <= j < scope.len() && scope[j].0
            == name,
    decreases scope.len() - i,
{
    if i < scope.len() && scope[i].0 != name {
        position_is_within(scope, name, i + 1);
    }
}

/// The place at which a name is bound lies among the scopes that were
/// searched.
proof fn resolve_is_within(scopes: Seq<ScopeView>, name: Seq<char>, n: int)
    ensures
        resolve_below(scopes, name, n) matches Some((i, j)) ==> 0 <= i < n && i < scopes.len() && 0
            <= j < scopes[i].len() && scopes[i][j].0 == name,
    decreases n,
{
    if 0 < n <= scopes.len() {
        position_is_within(scopes[n - 1], name, 0);
        resolve_is_within(scopes, name, n - 1);
    }
}

/// Entering a block binds no name and hides none.
pub proof fn enter_keeps_variables(st: StateView, name: Seq<char>)
    ensures
        st.enter().resolve(name) == st.resolve(name),
        st.enter().variable(name) == st.variable(name),
{
    let before = st.scopes;
    let after = st.enter().scopes;
    resolve_is_local(after, before, name, before.len() as int);
    resolve_is_within(before, name, before.len() as int);
    assert(after[before.len() as int] =~= Seq::empty());
    assert(position_from(after[before.len() as int], name, 0) is None);
}

/// A name that is declared is bound, in the innermost scope, to what the
/// declaration made.
pub proof fn declared_is_bound(st: StateView, name: Seq<char>, variable: VariableView)
    requires
        st.scopes.len() > 0,
    ensures
        st.declare(name, variable).variable(name) == Some(
            if position_from(st.scopes.last(), name, 0) is Some {
                st.variable(name)->0
            } else {
                variable
            },
        ),
{
    let n = st.scopes.len() as int;
    let scope = st.scopes.last();
    let after = st.declare(name, variable).scopes;
    found_after_push(scope, name, variable, 0);
    assert(after[n - 1] == scope.push((name, variable)));
}

/// After a binding is added at the end of a scope, the first place that
/// binds its name is the old one where there was one, and else the new one.
proof fn found_after_push(scope: ScopeView, name: Seq<char>, variable: VariableView, i: int)
    requires
        0 <= i <= scope.len(),
    ensures
        position_from(scope.push((name, variable)), name, i) == match position_from(
            scope,
            name,
            i,
        ) {
            Some(j) => Some(j),
            None => Some(scope.len() as int),
        },
        position_from(scope, name, i) matches Some(j) ==> i <= j < scope.len(),
    decreases scope.len() - i,
{
    if i < scope.len() {
        if scope[i].0 != name {
            found_after_push(scope, name, variable, i + 1);
        }
    }
}

/// A variable that is declared and then written holds no value: the
/// evaluation ends with `NotAssigned`, at the place of the variable in
/// `OUTPUT`.
pub proof fn output_of_unassigned_fails(
    name: Seq<char>,
    literal_type: LiteralType,
    declared_at: Span,
    written_at: Span,
    read_at: Span,
    st: StateView,
    as_function: bool,
    host: HostView,
)
    requires
        st.variable(name) is None,
    ensures
        run_block(
            seq![
                (StatementView::Declare(DeclareView::Literal(name, literal_type)), declared_at),
                (StatementView::Out(seq![(ExpressionView::Variable(name), read_at)]), written_at),
            ],
            st,
            as_function,
            host,
        ) == (
            Err::<StateView, (ExecutionView, Span)>((ExecutionView::NotAssigned(name), read_at)),
            host,
        ),
{
    let program: Seq<StatementNode> =
        seq![
        (StatementView::Declare(DeclareView::Literal(name, literal_type)), declared_at),
        (StatementView::Out(seq![(ExpressionView::Variable(name), read_at)]), written_at),
    ];
    let entered = st.enter();
    enter_keeps_variables(st, name);
    declared_is_bound(entered, name, VariableView::declared(literal_type));
    let declared = entered.declare(name, VariableView::declared(literal_type));
    assert(position_from(entered.scopes.last(), name, 0) is None) by {
        assert(entered.scopes.last() =~= Seq::empty());
    }
    assert(declared.variable(name) == Some(VariableView::declared(literal_type)));
    assert(run_statement(program[0], entered, as_function, host) == (
        Ok::<(StateView, bool), (ExecutionView, Span)>((declared, false)),
        host,
    ));
    let es: Seq<ExpressionNode> = seq![(ExpressionView::Variable(name), read_at)];
    assert(eval(es[0], declared, host.answers, host.used) == (
        Err::<LiteralView, (ExecutionView, Span)>((ExecutionView::NotAssigned(name), read_at)),
        host.used,
    ));
    assert(eval_all(es, 0, Seq::empty(), declared, host.answers, host.used).0 is Err);
    assert(run_out(es, written_at, declared, host) == (
        Err::<(StateView, bool), (ExecutionView, Span)>(
            (ExecutionView::NotAssigned(name), read_at),
        ),
        host,
    ));
    assert(run_statement(program[1], declared, as_function, host) == run_out(
        es,
        written_at,
        declared,
        host,
    ));
    assert(run_from(program, 1, declared, as_function, host).0 is Err);
    assert(run_from(program, 0, entered, as_function, host) == run_from(
        program,
        1,
        declared,
        as_function,
        host,
    ));
}

/// A variable that was never declared cannot be written: the evaluation
/// ends with `NotFound`, at the place of the variable in `OUTPUT`.
pub proof fn output_of_undeclared_fails(
    name: Seq<char>,
    written_at: Span,
    read_at: Span,
    st: StateView,
    as_function: bool,
    host: HostView,
)
    requires
        st.variable(name) is None,
    ensures
        run_block(
            seq![(StatementView::Out(seq![(ExpressionView::Variable(name), read_at)]), written_at)],
            st,
            as_function,
            host,
        ) == (
            Err::<StateView, (ExecutionView, Span)>((ExecutionView::NotFound(name), read_at)),
            host,
        ),
{
    let program: Seq<StatementNode> =
        seq![(StatementView::Out(seq![(ExpressionView::Variable(name), read_at)]), written_at)];
    let entered = st.enter();
    enter_keeps_variables(st, name);
    let es: Seq<ExpressionNode> = seq![(ExpressionView::Variable(name), read_at)];
    assert(eval(es[0], entered, host.answers, host.used) == (
        Err::<LiteralView, (ExecutionView, Span)>((ExecutionView::NotFound(name), read_at)),
        host.used,
    ));
    assert(eval_all(es, 0, Seq::empty(), entered, host.answers, host.used).0 is Err);
    assert(run_statement(program[0], entered, as_function, host) == run_out(
        es,
        written_at,
        entered,
        host,
    ));
}

/// A value of another type than a variable was declared with cannot be
/// assigned to it: the error names the type declared as the one expected
/// and the type of the value as the one received.
pub proof fn assignment_checks_the_type(st: StateView, name: Seq<char>, value: LiteralView)
    requires
        st.variable(name) matches Some(VariableView::Literal { literal_type, is_mutable, .. })
            && is_mutable && literal_type != value.literal_type(),
    ensures
        st.assign(name, value) == Err::<StateView, ExecutionView>(
            ExecutionView::IncorrectType(
                DataTypes::Literal(st.variable(name)->0->Literal_literal_type),
                DataTypes::Literal(value.literal_type()),
            ),
        ),
{
}

/// An array whose lower bound does not lie below its upper bound cannot be
/// declared: the evaluation ends with `InvalidBounds`.
pub proof fn declaration_checks_the_bounds(
    name: Seq<char>,
    bounds: Bounds,
    literal_type: LiteralType,
    span: Span,
    st: StateView,
    host: HostView,
)
    requires
        st.variable(name) is None,
        bounds.lower >= bounds.upper,
    ensures
        run_declare(DeclareView::Array(name, bounds, literal_type), span, st, host) == (
            Err::<(StateView, bool), (ExecutionView, Span)>(
                (ExecutionView::InvalidBounds(bounds), span),
            ),
            host,
        ),
{
}

/// `REPEAT` runs its body before it looks at its condition: an error of the
/// body is the error of the loop, and where the condition holds after the
/// body has run once, the loop has done what the body does once, however
/// few steps the host allows.
pub proof fn repeat_runs_its_body_first(
    body: Seq<StatementNode>,
    c: ExpressionNode,
    span: Span,
    st: StateView,
    as_function: bool,
    host: HostView,
)
    ensures
        match run_block(body, st, as_function, host) {
            (Err(e), h) => run_repeat(body, c, span, st, as_function, host) == (
                Err::<StateView, (ExecutionView, Span)>(e),
                h,
            ),
            (Ok(next), h) => condition(c, span, next, h).0 == Ok::<bool, (ExecutionView, Span)>(
                true,
            ) ==> run_repeat(body, c, span, st, as_function, host) == (
                Ok::<StateView, (ExecutionView, Span)>(next),
                condition(c, span, next, h).1,
            ),
        },
{
}

/// `LEN` of an array is the number of its slots, and `LEN` of a variable
/// that is no array is an error that names the array expected and the type
/// of the variable.
pub proof fn len_counts_the_slots(st: StateView, name: Seq<char>)
    ensures
        match st.variable(name) {
            Some(VariableView::Array { bounds, .. }) => can_allocate(bounds) && bounds.count()
                <= isize::MAX ==> length_spec(st, name) == Ok::<LiteralView, ExecutionView>(
                LiteralView::Integer((bounds.upper - bounds.lower + 1) as isize),
            ),
            Some(VariableView::Literal { literal_type, .. }) => length_spec(st, name) == Err::<
                LiteralView,
                ExecutionView,
            >(ExecutionView::IncorrectType(DataTypes::Array, DataTypes::Literal(literal_type))),
            None => length_spec(st, name) == Err::<LiteralView, ExecutionView>(
                ExecutionView::NotFound(name),
            ),
        },
{
}

/// A program that runs twice with the same answers of the host does the
/// same thing twice: it writes the same lines and ends in the same way.
pub proof fn rerun_is_identical(source: Seq<char>, first: HostView, second: HostView)
    requires
        first.answers == second.answers,
        first.steps == second.steps,
        first.used == second.used,
        first.output == second.output,
    ensures
        run_source(source, first) == run_source(source, second),
        run_source(source, first).1.output == run_source(source, second).1.output,
{
}

/// A name that is not found in a scope is not bound in it.
proof fn unfound_is_unbound(scope: ScopeView, name: Seq<char>, i: int)
    requires
        0 <= i,
        position_from(scope, name, i) is None,
    ensures
        forall|j: int| i <= j < scope.len() ==> (#[trigger] scope[j]).0 != name,
    decreases scope.len() - i,
{
    if i < scope.len() {
        unfound_is_unbound(scope, name, i + 1);
    }
}

/// A name that is not resolved is bound in no scope.
proof fn unresolved_is_unbound(scopes: Seq<ScopeView>, name: Seq<char>, n: int)
    requires
        0 <= n <= scopes.len(),
        resolve_below(scopes, name, n) is None,
    ensures
        forall|i: int, j: int|
            0 <= i < n && 0 <= j < scopes[i].len() ==> (#[trigger] scopes[i][j]).0 != name,
    decreases n,
{
    if n > 0 {
        unfound_is_unbound(scopes[n - 1], name, 0);
        unresolved_is_unbound(scopes, name, n - 1);
    }
}

/// Entering a block keeps a state well formed.
pub proof fn enter_keeps_well_formed(st: StateView)
    requires
        st.well_formed(),
    ensures
        st.enter().well_formed(),
{
    let after = st.enter();
    assert forall|i: int, j: int|
        0 <= i < after.scopes.len() && 0 <= j < after.scopes[i].len() implies (
    #[trigger] after.scopes[i][j]).1.well_formed() by {
        assert(after.scopes[i][j] == st.scopes[i][j]);
    }
    assert forall|i: int, j: int, k: int, l: int|
        0 <= i < after.scopes.len() && 0 <= j < after.scopes[i].len() && 0 <= k
            < after.scopes.len() && 0 <= l < after.scopes[k].len() && (
        #[trigger] after.scopes[i][j]).0 == (#[trigger] after.scopes[k][l]).0 implies i == k && j
        == l by {
        assert(after.scopes[i][j] == st.scopes[i][j]);
        assert(after.scopes[k][l] == st.scopes[k][l]);
    }
}

/// Leaving a block keeps a state well formed.
pub proof fn leave_keeps_well_formed(st: StateView)
    requires
        st.well_formed(),
    ensures
        st.leave().well_formed(),
{
    let after = st.leave();
    assert forall|i: int, j: int|
        0 <= i < after.scopes.len() && 0 <= j < after.scopes[i].len() implies (
    #[trigger] after.scopes[i][j]).1.well_formed() by {
        assert(after.scopes[i][j] == st.scopes[i][j]);
    }
    assert forall|i: int, j: int, k: int, l: int|
        0 <= i < after.scopes.len() && 0 <= j < after.scopes[i].len() && 0 <= k
            < after.scopes.len() && 0 <= l < after.scopes[k].len() && (
        #[trigger] after.scopes[i][j]).0 == (#[trigger] after.scopes[k][l]).0 implies i == k && j
        == l by {
        assert(after.scopes[i][j] == st.scopes[i][j]);
        assert(after.scopes[k][l] == st.scopes[k][l]);
    }
}

/// Declaring a name that is not bound keeps a state well formed.
pub proof fn declare_keeps_well_formed(st: StateView, name: Seq<char>, variable: VariableView)
    requires
        st.well_formed(),
        st.variable(name) is None,
        variable.well_formed(),
    ensures
        st.declare(name, variable).well_formed(),
{
    let after = st.declare(name, variable);
    let n = st.scopes.len() as int;
    unresolved_is_unbound(st.scopes, name, n);
    if n > 0 {
        assert forall|i: int, j: int|
            0 <= i < after.scopes.len() && 0 <= j < after.scopes[i].len() implies (
        #[trigger] after.scopes[i][j]).1.well_formed() by {
            if i == n - 1 && j == st.scopes[i].len() {
            } else {
                assert(after.scopes[i][j] == st.scopes[i][j]);
            }
        }
        assert forall|i: int, j: int, k: int, l: int|
            0 <= i < after.scopes.len() && 0 <= j < after.scopes[i].len() && 0 <= k
                < after.scopes.len() && 0 <= l < after.scopes[k].len() && (
            #[trigger] after.scopes[i][j]).0 == (#[trigger] after.scopes[k][l]).0 implies i == k
            && j == l by {
            let new_at = st.scopes[n - 1].len() as int;
            if !(i == n - 1 && j == new_at) {
                assert(after.scopes[i][j] == st.scopes[i][j]);
            }
            if !(k == n - 1 && l == new_at) {
                assert(after.scopes[k][l] == st.scopes[k][l]);
            }
        }
    }
}

/// Replacing what a name is bound to by something well formed keeps a state
/// well formed.
proof fn replace_keeps_well_formed(st: StateView, i: int, j: int, variable: VariableView)
    requires
        st.well_formed(),
        0 <= i < st.scopes.len(),
        0 <= j < st.scopes[i].len(),
        variable.well_formed(),
    ensures
        st.with_variable(i, j, variable).well_formed(),
{
    let after = st.with_variable(i, j, variable);
    assert forall|a: int, b: int|
        0 <= a < after.scopes.len() && 0 <= b < after.scopes[a].len() implies (
    #[trigger] after.scopes[a][b]).1.well_formed() by {
        if !(a == i && b == j) {
            assert(after.scopes[a][b] == st.scopes[a][b]);
        }
    }
    assert forall|a: int, b: int, k: int, l: int|
        0 <= a < after.scopes.len() && 0 <= b < after.scopes[a].len() && 0 <= k
            < after.scopes.len() && 0 <= l < after.scopes[k].len() && (
        #[trigger] after.scopes[a][b]).0 == (#[trigger] after.scopes[k][l]).0 implies a == k && b
        == l by {
        assert(after.scopes[a][b].0 == st.scopes[a][b].0);
        assert(after.scopes[k][l].0 == st.scopes[k][l].0);
    }
}

/// An assignment keeps a state well formed.
pub proof fn assign_keeps_well_formed(st: StateView, name: Seq<char>, value: LiteralView)
    requires
        st.well_formed(),
    ensures
        st.assign(name, value) matches Ok(next) ==> next.well_formed(),
{
    resolve_is_within(st.scopes, name, st.scopes.len() as int);
    match st.resolve(name) {
        Some((i, j)) => {
            match st.scopes[i][j].1 {
                VariableView::Literal { literal_type, is_mutable, .. } => {
                    if is_mutable && literal_type == value.literal_type() {
                        replace_keeps_well_formed(
                            st,
                            i,
                            j,
                            VariableView::Literal { literal_type, value: Some(value), is_mutable },
                        );
                    }
                },
                _ => {},
            }
        },
        None => {},
    }
}

/// An assignment to a slot of an array keeps a state well formed.
pub proof fn assign_element_keeps_well_formed(
    st: StateView,
    name: Seq<char>,
    index: usize,
    value: LiteralView,
)
    requires
        st.well_formed(),
    ensures
        st.assign_element(name, index, value) matches Ok(next) ==> next.well_formed(),
{
    resolve_is_within(st.scopes, name, st.scopes.len() as int);
    match st.resolve(name) {
        Some((i, j)) => {
            match st.scopes[i][j].1 {
                VariableView::Array { literal_type, bounds, values } => {
                    if bounds.contains(index as int) && index - bounds.lower < values.len()
                        && literal_type == value.literal_type() {
                        assert(st.scopes[i][j].1.well_formed());
                        let updated = VariableView::Array {
                            literal_type,
                            bounds,
                            values: values.update(index - bounds.lower, Some(value)),
                        };
                        assert(updated.well_formed()) by {
                            assert forall|k: int| 0 <= k < updated->values.len() implies match (
                            #[trigger] updated->values[k]) {
                                Some(v) => v.literal_type() == literal_type,
                                None => true,
                            } by {
                                if k != index - bounds.lower {
                                    assert(updated->values[k] == values[k]);
                                }
                            }
                        }
                        replace_keeps_well_formed(st, i, j, updated);
                    }
                },
                _ => {},
            }
        },
        None => {},
    }
}

/// One statement keeps a state well formed.
pub proof fn statement_keeps_well_formed(
    s: StatementNode,
    st: StateView,
    as_function: bool,
    host: HostView,
)
    requires
        st.well_formed(),
    ensures
        run_statement(s, st, as_function, host).0 matches Ok((next, _)) ==> next.well_formed(),
    decreases host.steps, s, 0nat,
{
    match s.0 {
        StatementView::Declare(DeclareView::Literal(name, literal_type)) => {
            if st.variable(name) is None {
                declare_keeps_well_formed(st, name, VariableView::declared(literal_type));
            }
        },
        StatementView::Declare(DeclareView::Array(name, bounds, literal_type)) => {
            if st.variable(name) is None && can_allocate(bounds) {
                declare_keeps_well_formed(
                    st,
                    name,
                    VariableView::declared_array(literal_type, bounds),
                );
            }
        },
        StatementView::Assign(AssignView::Literal(name, e)) => {
            match eval(e, st, host.answers, host.used) {
                (Ok(v), _) => {
                    assign_keeps_well_formed(st, name, v);
                },
                _ => {},
            }
        },
        StatementView::Assign(AssignView::Array(name, index, e)) => {
            match eval(index, st, host.answers, host.used) {
                (Ok(i), u) => match index_spec(name, i) {
                    Ok(i) => match eval(e, st, host.answers, u) {
                        (Ok(v), _) => {
                            assign_element_keeps_well_formed(st, name, i, v);
                        },
                        _ => {},
                    },
                    _ => {},
                },
                _ => {},
            }
        },
        StatementView::Out(_) => {},
        StatementView::In(name) => {
            match ask_spec(host.answers, host.used, RequestView::Input) {
                (Ok(LiteralView::String(line)), _) => {
                    assign_keeps_well_formed(
                        st,
                        name,
                        LiteralView::String(without_line_end(line)),
                    );
                },
                _ => {},
            }
        },
        StatementView::ProcedureCall(_, _) => {},
        StatementView::Return(_) => {
            leave_keeps_well_formed(st);
        },
        StatementView::If(c, then_block, else_block) => {
            let (r, h) = condition(c, s.1, st, host);
            if h.steps == host.steps {
                if r == Ok::<bool, (ExecutionView, Span)>(true) {
                    block_keeps_well_formed(then_block, st, false, h);
                } else if r == Ok::<bool, (ExecutionView, Span)>(false) {
                    match else_block {
                        Some(block) => {
                            block_keeps_well_formed(block, st, false, h);
                        },
                        None => {},
                    }
                }
            }
        },
        StatementView::For(name, from, to, body) => {
            match for_range(name, from, to, s.1, st, host) {
                (Ok(Some((first, last))), h) => {
                    if h.steps == host.steps {
                        for_keeps_well_formed(name, first, last, body, s.1, st, as_function, h);
                    }
                },
                _ => {},
            }
        },
        StatementView::While(c, body) => {
            while_keeps_well_formed(c, body, s.1, st, as_function, host);
        },
        StatementView::Repeat(body, c) => {
            repeat_keeps_well_formed(body, c, s.1, st, as_function, host);
        },
    }
}

/// A block keeps a state well formed.
pub proof fn block_keeps_well_formed(
    statements: Seq<StatementNode>,
    st: StateView,
    as_function: bool,
    host: HostView,
)
    requires
        st.well_formed(),
    ensures
        run_block(statements, st, as_function, host).0 matches Ok(next) ==> next.well_formed(),
    decreases host.steps, statements, statements.len() + 1,
{
    enter_keeps_well_formed(st);
    rest_keeps_well_formed(statements, 0, st.enter(), as_function, host);
}

/// The rest of a block keeps a state well formed.
pub proof fn rest_keeps_well_formed(
    statements: Seq<StatementNode>,
    i: int,
    st: StateView,
    as_function: bool,
    host: HostView,
)
    requires
        st.well_formed(),
    ensures
        run_from(statements, i, st, as_function, host).0 matches Ok(next) ==> next.well_formed(),
    decreases host.steps, statements, statements.len() - i,
{
    if 0 <= i < statements.len() {
        statement_keeps_well_formed(statements[i], st, as_function, host);
        match run_statement(statements[i], st, as_function, host) {
            (Ok((next, false)), h) => {
                if h.steps <= host.steps {
                    rest_keeps_well_formed(statements, i + 1, next, as_function, h);
                }
            },
            _ => {},
        }
    } else {
        leave_keeps_well_formed(st);
    }
}

/// A `WHILE` loop keeps a state well formed.
pub proof fn while_keeps_well_formed(
    c: ExpressionNode,
    body: Seq<StatementNode>,
    span: Span,
    st: StateView,
    as_function: bool,
    host: HostView,
)
    requires
        st.well_formed(),
    ensures
        run_while(c, body, span, st, as_function, host).0 matches Ok(next) ==> next.well_formed(),
    decreases host.steps, body, body.len() + 2,
{
    match condition(c, span, st, host) {
        (Ok(true), h) => {
            if h.steps == host.steps {
                block_keeps_well_formed(body, st, as_function, h);
                match run_block(body, st, as_function, h) {
                    (Ok(next), h2) => {
                        if 0 < h2.steps <= host.steps {
                            while_keeps_well_formed(
                                c,
                                body,
                                span,
                                next,
                                as_function,
                                h2.with_steps((h2.steps - 1) as nat),
                            );
                        }
                    },
                    _ => {},
                }
            }
        },
        _ => {},
    }
}

/// A `REPEAT` loop keeps a state well formed.
pub proof fn repeat_keeps_well_formed(
    body: Seq<StatementNode>,
    c: ExpressionNode,
    span: Span,
    st: StateView,
    as_function: bool,
    host: HostView,
)
    requires
        st.well_formed(),
    ensures
        run_repeat(body, c, span, st, as_function, host).0 matches Ok(next) ==> next.well_formed(),
    decreases host.steps, body, body.len() + 2,
{
    block_keeps_well_formed(body, st, as_function, host);
    match run_block(body, st, as_function, host) {
        (Ok(next), h) => match condition(c, span, next, h) {
            (Ok(false), h2) => {
                if 0 < h2.steps <= host.steps {
                    repeat_keeps_well_formed(
                        body,
                        c,
                        span,
                        next,
                        as_function,
                        h2.with_steps((h2.steps - 1) as nat),
                    );
                }
            },
            _ => {},
        },
        _ => {},
    }
}

/// A `FOR` loop keeps a state well formed.
pub proof fn for_keeps_well_formed(
    name: Seq<char>,
    n: isize,
    last: isize,
    body: Seq<StatementNode>,
    span: Span,
    st: StateView,
    as_function: bool,
    host: HostView,
)
    requires
        st.well_formed(),
    ensures
        run_for(name, n, last, body, span, st, as_function, host).0 matches Ok(next)
            ==> next.well_formed(),
    decreases host.steps, body, body.len() + 2,
{
    assign_keeps_well_formed(st, name, LiteralView::Integer(n));
    match st.assign(name, LiteralView::Integer(n)) {
        Ok(assigned) => {
            block_keeps_well_formed(body, assigned, as_function, host);
            match run_block(body, assigned, as_function, host) {
                (Ok(next), h) => {
                    if n < last && 0 < h.steps <= host.steps {
                        for_keeps_well_formed(
                            name,
                            (n + 1) as isize,
                            last,
                            body,
                            span,
                            next,
                            as_function,
                            h.with_steps((h.steps - 1) as nat),
                        );
                    }
                },
                _ => {},
            }
        },
        _ => {},
    }
}

/// A program that runs from the initial state to its end leaves a state
/// that is well formed.
pub proof fn program_ends_well_formed(program: Seq<StatementNode>, host: HostView)
    ensures
        run_block(program, initial_state(), false, host).0 matches Ok(st) ==> st.well_formed(),
{
    block_keeps_well_formed(program, initial_state(), false, host);
}

/// Where a name is found in a scope depends on the names of the scope
/// alone.
proof fn position_ignores_values(a: ScopeView, b: ScopeView, name: Seq<char>, i: int)
    requires
        a.len() == b.len(),
        forall|k: int| 0 <= k < a.len() ==> (#[trigger] a[k]).0 == b[k].0,
        0 <= i,
    ensures
        position_from(a, name, i) == position_from(b, name, i),
    decreases a.len() - i,
{
    if i < a.len() {
        assert(a[i].0 == b[i].0);
        position_ignores_values(a, b, name, i + 1);
    }
}

/// Where a name is bound depends on the names of the scopes alone.
proof fn resolve_ignores_values(a: Seq<ScopeView>, b: Seq<ScopeView>, name: Seq<char>, n: int)
    requires
        a.len() == b.len(),
        forall|i: int| 0 <= i < a.len() ==> (#[trigger] a[i]).len() == b[i].len(),
        forall|i: int, k: int|
            0 <= i < a.len() && 0 <= k < a[i].len() ==> (#[trigger] a[i][k]).0 == b[i][k].0,
    ensures
        resolve_below(a, name, n) == resolve_below(b, name, n),
    decreases n,
{
    if 0 < n <= a.len() {
        assert(a[n - 1].len() == b[n - 1].len());
        assert forall|k: int| 0 <= k < a[n - 1].len() implies (#[trigger] a[n - 1][k]).0 == b[n
            - 1][k].0 by {
            assert(a[n - 1][k].0 == b[n - 1][k].0);
        }
        position_ignores_values(a[n - 1], b[n - 1], name, 0);
        resolve_ignores_values(a, b, name, n - 1);
    }
}

/// A variable holds what was assigned to it, and every name is bound where
/// it was bound.
pub proof fn assigned_is_held(st: StateView, name: Seq<char>, value: LiteralView, other: Seq<char>)
    requires
        st.assign(name, value) is Ok,
    ensures
        st.assign(name, value)->Ok_0.resolve(other) == st.resolve(other),
        st.assign(name, value)->Ok_0.literal(name) == Ok::<LiteralView, ExecutionView>(value),
{
    let after = st.assign(name, value)->Ok_0;
    resolve_is_within(st.scopes, name, st.scopes.len() as int);
    let (i, j) = st.resolve(name)->0;
    assert forall|a: int| 0 <= a < st.scopes.len() implies (#[trigger] st.scopes[a]).len()
        == after.scopes[a].len() by {}
    assert forall|a: int, k: int|
        0 <= a < st.scopes.len() && 0 <= k < st.scopes[a].len() implies (
    #[trigger] st.scopes[a][k]).0 == after.scopes[a][k].0 by {}
    resolve_ignores_values(st.scopes, after.scopes, other, st.scopes.len() as int);
    resolve_ignores_values(st.scopes, after.scopes, name, st.scopes.len() as int);
}

/// Entering a block and leaving it again changes nothing.
pub proof fn enter_and_leave(st: StateView)
    ensures
        st.enter().leave() == st,
{
    assert(st.enter().leave().scopes =~= st.scopes);
}

/// The numerals of the integers from `n` to `last`, one for each line.
pub open spec fn numerals(n: int, last: int) -> Seq<Seq<char>>
    decreases last - n + 1,
{
    if n > last {
        Seq::empty()
    } else {
        seq![decimal(n)] + numerals(n + 1, last)
    }
}

/// The body of a loop that writes the variable of a name.
pub open spec fn writes(name: Seq<char>, written_at: Span, read_at: Span) -> Seq<StatementNode> {
    seq![(StatementView::Out(seq![(ExpressionView::Variable(name), read_at)]), written_at)]
}

/// A block that writes an integer variable writes its numeral as one line
/// and changes nothing else.
pub proof fn block_writes_the_variable(
    name: Seq<char>,
    n: isize,
    written_at: Span,
    read_at: Span,
    st: StateView,
    as_function: bool,
    host: HostView,
)
    requires
        st.literal(name) == Ok::<LiteralView, ExecutionView>(LiteralView::Integer(n)),
    ensures
        run_block(writes(name, written_at, read_at), st, as_function, host) == (
            Ok::<StateView, (ExecutionView, Span)>(st),
            host.with_line(decimal(n as int)),
        ),
{
    let body = writes(name, written_at, read_at);
    let inside = st.enter();
    enter_keeps_variables(st, name);
    enter_and_leave(st);
    let es: Seq<ExpressionNode> = seq![(ExpressionView::Variable(name), read_at)];
    assert(eval(es[0], inside, host.answers, host.used) == (
        Ok::<LiteralView, (ExecutionView, Span)>(LiteralView::Integer(n)),
        host.used,
    ));
    let one = Seq::<LiteralView>::empty().push(LiteralView::Integer(n));
    assert(eval_all(es, 1, one, inside, host.answers, host.used) == (
        Ok::<Seq<LiteralView>, (ExecutionView, Span)>(one),
        host.used,
    ));
    assert(eval_all(es, 0, Seq::empty(), inside, host.answers, host.used) == (
        Ok::<Seq<LiteralView>, (ExecutionView, Span)>(one),
        host.used,
    ));
    assert(display_spec(one[0], host.answers, host.used) == (
        Ok::<Seq<char>, ExecutionView>(decimal(n as int)),
        host.used,
    ));
    assert(Seq::<char>::empty() + decimal(n as int) =~= decimal(n as int));
    assert(render(one, 1, decimal(n as int), host.answers, host.used) == (
        Ok::<Seq<char>, ExecutionView>(decimal(n as int)),
        host.used,
    ));
    assert(render(one, 0, Seq::empty(), host.answers, host.used) == (
        Ok::<Seq<char>, ExecutionView>(decimal(n as int)),
        host.used,
    ));
    assert(host.with_used(host.used) == host);
    assert(run_out(es, written_at, inside, host) == (
        Ok::<(StateView, bool), (ExecutionView, Span)>((inside, false)),
        host.with_line(decimal(n as int)),
    ));
    assert(run_statement(body[0], inside, as_function, host) == run_out(
        es,
        written_at,
        inside,
        host,
    ));
    let after = host.with_line(decimal(n as int));
    assert(run_from(body, 1, inside, as_function, after) == (
        Ok::<StateView, (ExecutionView, Span)>(st),
        after,
    ));
    assert(run_from(body, 0, inside, as_function, host) == run_from(
        body,
        1,
        inside,
        as_function,
        after,
    ));
}

/// A `FOR` loop runs its body once for each integer from the first value to
/// the last, in their order, with the variable bound to the integer: a loop
/// that writes its variable writes the numerals of these integers, one on
/// each line, and leaves the last of them in the variable. Each value after
/// the first takes one step from the host.
pub proof fn for_runs_once_for_each_value(
    name: Seq<char>,
    n: isize,
    last: isize,
    written_at: Span,
    read_at: Span,
    span: Span,
    st: StateView,
    as_function: bool,
    host: HostView,
)
    requires
        n <= last,
        st.assign(name, LiteralView::Integer(n)) is Ok,
        host.steps >= last - n,
    ensures
        st.assign(name, LiteralView::Integer(last)) is Ok,
        run_for(name, n, last, writes(name, written_at, read_at), span, st, as_function, host) == (
            Ok::<StateView, (ExecutionView, Span)>(
                st.assign(name, LiteralView::Integer(last))->Ok_0,
            ),
            HostView {
                output: host.output + numerals(n as int, last as int),
                steps: (host.steps - (last - n)) as nat,
                ..host
            },
        ),
    decreases last - n,
{
    let body = writes(name, written_at, read_at);
    let assigned = st.assign(name, LiteralView::Integer(n))->Ok_0;
    assigned_is_held(st, name, LiteralView::Integer(n), name);
    block_writes_the_variable(name, n, written_at, read_at, assigned, as_function, host);
    let after = host.with_line(decimal(n as int));
    resolve_is_within(st.scopes, name, st.scopes.len() as int);
    if n >= last {
        assert(numerals(n as int, last as int) =~= seq![decimal(n as int)]) by {
            assert(numerals(n + 1, last as int) =~= Seq::empty());
        }
        assert(host.output + numerals(n as int, last as int) =~= host.output.push(
            decimal(n as int),
        ));
    } else {
        let next = after.with_steps((after.steps - 1) as nat);
        let (i, j) = st.resolve(name)->0;
        assert(assigned.assign(name, LiteralView::Integer((n + 1) as isize)) is Ok);
        for_runs_once_for_each_value(
            name,
            (n + 1) as isize,
            last,
            written_at,
            read_at,
            span,
            assigned,
            as_function,
            next,
        );
        assert(assigned.assign(name, LiteralView::Integer(last)) == st.assign(
            name,
            LiteralView::Integer(last),
        )) by {
            let a = assigned.assign(name, LiteralView::Integer(last))->Ok_0;
            let b = st.assign(name, LiteralView::Integer(last))->Ok_0;
            assert(a.scopes[i] =~= b.scopes[i]);
            assert(a.scopes =~= b.scopes);
        }
        assert(after.output + numerals(n + 1, last as int) =~= host.output + numerals(
            n as int,
            last as int,
        ));
    }
}

/// A `FOR` loop whose first value lies above its last value does not run
/// its body: the state stays as it is, and nothing is written.
pub proof fn for_above_its_end_is_skipped(
    name: Seq<char>,
    from: ExpressionNode,
    to: ExpressionNode,
    body: Seq<StatementNode>,
    span: Span,
    st: StateView,
    as_function: bool,
    host: HostView,
)
    requires
        for_range(name, from, to, span, st, host).0 == Ok::<
            Option<(isize, isize)>,
            (ExecutionView, Span),
        >(None),
    ensures
        run_statement((StatementView::For(name, from, to, body), span), st, as_function, host).0
            == Ok::<(StateView, bool), (ExecutionView, Span)>((st, false)),
        run_statement(
            (StatementView::For(name, from, to, body), span),
            st,
            as_function,
            host,
        ).1.output == host.output,
{
}

/// An index that lies outside the bounds of an array can be neither read
/// nor written: both end with `OutOfBounds`, which names the array and the
/// index.
pub proof fn index_outside_the_bounds_fails(
    st: StateView,
    name: Seq<char>,
    index: usize,
    value: LiteralView,
)
    requires
        st.variable(name) matches Some(VariableView::Array { bounds, .. }) && !bounds.contains(
            index as int,
        ),
    ensures
        st.element(name, index) == Err::<LiteralView, ExecutionView>(
            ExecutionView::OutOfBounds(name, index),
        ),
        st.assign_element(name, index, value) == Err::<StateView, ExecutionView>(
            ExecutionView::OutOfBounds(name, index),
        ),
{
}

/// A slot of an array holds what was assigned to it.
pub proof fn assigned_element_is_held(
    st: StateView,
    name: Seq<char>,
    index: usize,
    value: LiteralView,
)
    requires
        st.assign_element(name, index, value) is Ok,
    ensures
        st.assign_element(name, index, value)->Ok_0.element(name, index) == Ok::<
            LiteralView,
            ExecutionView,
        >(value),
{
    let after = st.assign_element(name, index, value)->Ok_0;
    resolve_is_within(st.scopes, name, st.scopes.len() as int);
    assert forall|a: int| 0 <= a < st.scopes.len() implies (#[trigger] st.scopes[a]).len()
        == after.scopes[a].len() by {}
    assert forall|a: int, k: int|
        0 <= a < st.scopes.len() && 0 <= k < st.scopes[a].len() implies (
    #[trigger] st.scopes[a][k]).0 == after.scopes[a][k].0 by {}
    resolve_ignores_values(st.scopes, after.scopes, name, st.scopes.len() as int);
}

/// A slot of an array that was declared and never written holds no value:
/// reading it ends with `IndexNotAssigned`.
pub proof fn declared_slot_is_empty(
    st: StateView,
    name: Seq<char>,
    bounds: Bounds,
    literal_type: LiteralType,
    index: usize,
)
    requires
        st.scopes.len() > 0,
        st.variable(name) is None,
        can_allocate(bounds),
        bounds.contains(index as int),
    ensures
        st.declare(name, VariableView::declared_array(literal_type, bounds)).element(name, index)
            == Err::<LiteralView, ExecutionView>(ExecutionView::IndexNotAssigned(name, index)),
{
    declared_is_bound(st, name, VariableView::declared_array(literal_type, bounds));
    resolve_is_within(st.scopes, name, st.scopes.len() as int);
    unresolved_is_unbound(st.scopes, name, st.scopes.len() as int);
    position_is_within(st.scopes.last(), name, 0);
}

} // verus!
