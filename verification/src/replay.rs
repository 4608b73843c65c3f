//! What one more answer changes: nothing of what was done before it.
//!
//! A host that has recorded the answers to the requests of a program so far
//! runs the program again from its start. The laws of this file say that the
//! program then does again what it did, as far as it came: a run that did
//! not wait for an answer is the same with more answers, and a run that
//! waited has written a start of what the run with more answers writes.

use vstd::prelude::*;
use crate::appendix::{call_spec, num_to_str_spec, randombetween_spec};
use crate::ast::{
    AssignView,
    ExecutionView,
    ExpressionNode,
    ExpressionView,
    Function,
    LiteralView,
    Native,
    Ops,
    RequestView,
    Span,
    StatementNode,
    StatementView,
};
use crate::evaluate::{
    StateView,
    condition,
    display_spec,
    eval,
    eval_all,
    for_range,
    index_spec,
    negate_spec,
    operate_spec,
    render,
    run_assign,
    run_block,
    run_for,
    run_from,
    run_in,
    run_out,
    run_repeat,
    run_return,
    run_statement,
    run_while,
};
use crate::host::{HostView, ask_spec};
use crate::lexer::lex;
use crate::parser::parse;
use crate::run::{FailureView, initial_state, run_program, run_source};

verus! {

/// Whether a sequence starts with another.
pub open spec fn begins<T>(whole: Seq<T>, part: Seq<T>) -> bool {
    &&& part.len() <= whole.len()
    &&& forall|i: int| 0 <= i < part.len() ==> whole[i] == part[i]
}

/// Whether a result is the error of waiting for an answer.
pub open spec fn waits<T>(r: Result<T, ExecutionView>) -> bool {
    r matches Err(ExecutionView::Waiting(_))
}

/// Whether a result with a place is the error of waiting for an answer.
pub open spec fn waits_at<T>(r: Result<T, (ExecutionView, Span)>) -> bool {
    r matches Err((ExecutionView::Waiting(_), _))
}

/// Whether the run of a program is the error of waiting for an answer.
pub open spec fn run_waits(r: Result<(), FailureView>) -> bool {
    r matches Err(FailureView::Runtime(ExecutionView::Waiting(_), _))
}

/// How two runs of one thing stand to one another, the first from the host
/// `h` and the second from the same host with more answers: both keep their
/// answers and go on from what was written; and the second does what the
/// first did where the first did not wait, and else writes at least what the
/// first wrote.
pub open spec fn replays<T>(
    first: (Result<T, (ExecutionView, Span)>, HostView),
    second: (Result<T, (ExecutionView, Span)>, HostView),
    h: HostView,
    more: Seq<LiteralView>,
) -> bool {
    &&& first.1.answers == h.answers
    &&& second.1.answers == more
    &&& begins(first.1.output, h.output)
    &&& begins(second.1.output, h.output)
    &&& first.1.steps <= h.steps
    &&& if waits_at(first.0) {
        begins(second.1.output, first.1.output)
    } else {
        second == (first.0, first.1.with_answers(more))
    }
}

/// A request that was answered has the same answer when more answers are
/// recorded.
pub proof fn ask_again(
    answers: Seq<LiteralView>,
    more: Seq<LiteralView>,
    used: int,
    request: RequestView,
)
    requires
        begins(more, answers),
    ensures
        !waits(ask_spec(answers, used, request).0) ==> ask_spec(more, used, request) == ask_spec(
            answers,
            used,
            request,
        ),
{
}

/// A prefix that did not wait gives the same with more answers.
pub proof fn negate_again(
    value: LiteralView,
    answers: Seq<LiteralView>,
    more: Seq<LiteralView>,
    used: int,
)
    requires
        begins(more, answers),
    ensures
        !waits(negate_spec(value, answers, used).0) ==> negate_spec(value, more, used)
            == negate_spec(value, answers, used),
{
}

/// An operator that did not wait gives the same with more answers.
pub proof fn operate_again(
    op: Ops,
    a: LiteralView,
    b: LiteralView,
    answers: Seq<LiteralView>,
    more: Seq<LiteralView>,
    used: int,
)
    requires
        begins(more, answers),
    ensures
        !waits(operate_spec(op, a, b, answers, used).0) ==> operate_spec(op, a, b, more, used)
            == operate_spec(op, a, b, answers, used),
{
}

/// A call that did not wait gives the same with more answers.
pub proof fn call_again(
    native: Native,
    args: Seq<LiteralView>,
    answers: Seq<LiteralView>,
    more: Seq<LiteralView>,
    used: int,
)
    requires
        begins(more, answers),
    ensures
        !waits(call_spec(native, args, answers, used).0) ==> call_spec(native, args, more, used)
            == call_spec(native, args, answers, used),
{
}

/// A text that was made without waiting is the same with more answers.
pub proof fn display_again(
    value: LiteralView,
    answers: Seq<LiteralView>,
    more: Seq<LiteralView>,
    used: int,
)
    requires
        begins(more, answers),
    ensures
        !waits(display_spec(value, answers, used).0) ==> display_spec(value, more, used)
            == display_spec(value, answers, used),
{
}

/// A line that was made without waiting is the same with more answers.
pub proof fn render_again(
    values: Seq<LiteralView>,
    i: int,
    line: Seq<char>,
    answers: Seq<LiteralView>,
    more: Seq<LiteralView>,
    used: int,
)
    requires
        begins(more, answers),
    ensures
        !waits(render(values, i, line, answers, used).0) ==> render(values, i, line, more, used)
            == render(values, i, line, answers, used),
    decreases values.len() - i,
{
    if 0 <= i < values.len() {
        display_again(values[i], answers, more, used);
        match display_spec(values[i], answers, used) {
            (Ok(text), u) => {
                render_again(values, i + 1, line + text, answers, more, u);
            },
            _ => {},
        }
    }
}

/// An expression that was evaluated without waiting has the same value
/// with more answers.
pub proof fn eval_again(
    e: ExpressionNode,
    st: StateView,
    answers: Seq<LiteralView>,
    more: Seq<LiteralView>,
    used: int,
)
    requires
        begins(more, answers),
    ensures
        !waits_at(eval(e, st, answers, used).0) ==> eval(e, st, more, used) == eval(
            e,
            st,
            answers,
            used,
        ),
    decreases e, 0nat,
{
    match e.0 {
        ExpressionView::Value(_) => {},
        ExpressionView::Variable(_) => {},
        ExpressionView::Negative(inner) => {
            eval_again(*inner, st, answers, more, used);
            match eval(*inner, st, answers, used) {
                (Ok(v), u) => {
                    negate_again(v, answers, more, u);
                },
                _ => {},
            }
        },
        ExpressionView::Not(inner) => {
            eval_again(*inner, st, answers, more, used);
        },
        ExpressionView::Operate(op, a, b) => {
            eval_again(*a, st, answers, more, used);
            match eval(*a, st, answers, used) {
                (Ok(x), u) => {
                    eval_again(*b, st, answers, more, u);
                    match eval(*b, st, answers, u) {
                        (Ok(y), u2) => {
                            operate_again(op, x, y, answers, more, u2);
                        },
                        _ => {},
                    }
                },
                _ => {},
            }
        },
        ExpressionView::ArrayIndex(_, index) => {
            eval_again(*index, st, answers, more, used);
        },
        ExpressionView::FunctionCall(name, args) => {
            if name == "LEN"@ {
                if args.len() == 1 {
                    eval_again(args[0], st, answers, more, used);
                }
            } else {
                match st.function(name) {
                    Some(Function::BuiltIn(native)) => {
                        eval_all_again(args, 0, Seq::empty(), st, answers, more, used);
                        match eval_all(args, 0, Seq::empty(), st, answers, used) {
                            (Ok(values), u) => {
                                call_again(native, values, answers, more, u);
                            },
                            _ => {},
                        }
                    },
                    None => {},
                }
            }
        },
    }
}

/// Expressions that were evaluated without waiting have the same values
/// with more answers.
pub proof fn eval_all_again(
    es: Seq<ExpressionNode>,
    i: int,
    values: Seq<LiteralView>,
    st: StateView,
    answers: Seq<LiteralView>,
    more: Seq<LiteralView>,
    used: int,
)
    requires
        begins(more, answers),
    ensures
        !waits_at(eval_all(es, i, values, st, answers, used).0) ==> eval_all(
            es,
            i,
            values,
            st,
            more,
            used,
        ) == eval_all(es, i, values, st, answers, used),
    decreases es, es.len() - i,
{
    if 0 <= i < es.len() {
        eval_again(es[i], st, answers, more, used);
        match eval(es[i], st, answers, used) {
            (Ok(v), u) => {
                eval_all_again(es, i + 1, values.push(v), st, answers, more, u);
            },
            _ => {},
        }
    }
}

/// An assignment is replayed.
pub proof fn assign_again(
    a: AssignView,
    span: Span,
    st: StateView,
    h: HostView,
    more: Seq<LiteralView>,
)
    requires
        begins(more, h.answers),
    ensures
        replays(
            run_assign(a, span, st, h),
            run_assign(a, span, st, h.with_answers(more)),
            h,
            more,
        ),
{
    match a {
        AssignView::Literal(_, e) => {
            eval_again(e, st, h.answers, more, h.used);
        },
        AssignView::Array(name, index, e) => {
            eval_again(index, st, h.answers, more, h.used);
            match eval(index, st, h.answers, h.used) {
                (Ok(i), u) => match index_spec(name, i) {
                    Ok(_) => {
                        eval_again(e, st, h.answers, more, u);
                    },
                    _ => {},
                },
                _ => {},
            }
        },
    }
}

/// `OUTPUT` is replayed.
pub proof fn out_again(
    es: Seq<ExpressionNode>,
    span: Span,
    st: StateView,
    h: HostView,
    more: Seq<LiteralView>,
)
    requires
        begins(more, h.answers),
    ensures
        replays(run_out(es, span, st, h), run_out(es, span, st, h.with_answers(more)), h, more),
{
    eval_all_again(es, 0, Seq::empty(), st, h.answers, more, h.used);
    match eval_all(es, 0, Seq::empty(), st, h.answers, h.used) {
        (Ok(values), u) => {
            render_again(values, 0, Seq::empty(), h.answers, more, u);
        },
        _ => {},
    }
}

/// `INPUT` is replayed.
pub proof fn in_again(
    name: Seq<char>,
    span: Span,
    st: StateView,
    h: HostView,
    more: Seq<LiteralView>,
)
    requires
        begins(more, h.answers),
    ensures
        replays(run_in(name, span, st, h), run_in(name, span, st, h.with_answers(more)), h, more),
{
    ask_again(h.answers, more, h.used, RequestView::Input);
}

/// `RETURN` is replayed.
pub proof fn return_again(
    e: Option<ExpressionNode>,
    span: Span,
    st: StateView,
    as_function: bool,
    h: HostView,
    more: Seq<LiteralView>,
)
    requires
        begins(more, h.answers),
    ensures
        replays(
            run_return(e, span, st, as_function, h),
            run_return(e, span, st, as_function, h.with_answers(more)),
            h,
            more,
        ),
{
    match e {
        Some(e) => {
            eval_again(e, st, h.answers, more, h.used);
        },
        None => {},
    }
}

/// A condition is replayed.
pub proof fn condition_again(
    c: ExpressionNode,
    span: Span,
    st: StateView,
    h: HostView,
    more: Seq<LiteralView>,
)
    requires
        begins(more, h.answers),
    ensures
        replays(condition(c, span, st, h), condition(c, span, st, h.with_answers(more)), h, more),
        condition(c, span, st, h).1.output == h.output,
        condition(c, span, st, h).1.steps == h.steps,
        condition(c, span, st, h.with_answers(more)).1.output == h.output,
{
    eval_again(c, st, h.answers, more, h.used);
}

/// The range of a `FOR` loop is replayed.
pub proof fn range_again(
    name: Seq<char>,
    from: ExpressionNode,
    to: ExpressionNode,
    span: Span,
    st: StateView,
    h: HostView,
    more: Seq<LiteralView>,
)
    requires
        begins(more, h.answers),
    ensures
        replays(
            for_range(name, from, to, span, st, h),
            for_range(name, from, to, span, st, h.with_answers(more)),
            h,
            more,
        ),
        for_range(name, from, to, span, st, h).1.output == h.output,
        for_range(name, from, to, span, st, h).1.steps == h.steps,
        for_range(name, from, to, span, st, h.with_answers(more)).1.output == h.output,
{
    eval_again(from, st, h.answers, more, h.used);
    match eval(from, st, h.answers, h.used) {
        (Ok(_), u) => {
            eval_again(to, st, h.answers, more, u);
        },
        _ => {},
    }
}

/// A statement is replayed.
pub proof fn statement_again(
    s: StatementNode,
    st: StateView,
    as_function: bool,
    h: HostView,
    more: Seq<LiteralView>,
)
    requires
        begins(more, h.answers),
    ensures
        replays(
            run_statement(s, st, as_function, h),
            run_statement(s, st, as_function, h.with_answers(more)),
            h,
            more,
        ),
    decreases h.steps, s, 0nat,
{
    let h2 = h.with_answers(more);
    match s.0 {
        StatementView::Declare(_) => {},
        StatementView::Assign(a) => {
            assign_again(a, s.1, st, h, more);
        },
        StatementView::Out(es) => {
            out_again(es, s.1, st, h, more);
        },
        StatementView::In(name) => {
            in_again(name, s.1, st, h, more);
        },
        StatementView::ProcedureCall(_, _) => {},
        StatementView::Return(e) => {
            return_again(e, s.1, st, as_function, h, more);
        },
        StatementView::If(c, then_block, else_block) => {
            condition_again(c, s.1, st, h, more);
            let (r, h1) = condition(c, s.1, st, h);
            if r == Ok::<bool, (ExecutionView, Span)>(true) {
                block_again(then_block, st, false, h1, more);
            } else if r == Ok::<bool, (ExecutionView, Span)>(false) {
                match else_block {
                    Some(block) => {
                        block_again(block, st, false, h1, more);
                    },
                    None => {},
                }
            } else if waits_at(r) {
                // The second run may go on into a branch: what it writes
                // there is added to what was written before.
                let (r2, h3) = condition(c, s.1, st, h2);
                if r2 == Ok::<bool, (ExecutionView, Span)>(true) {
                    block_again(then_block, st, false, h3, more);
                } else if r2 == Ok::<bool, (ExecutionView, Span)>(false) {
                    match else_block {
                        Some(block) => {
                            block_again(block, st, false, h3, more);
                        },
                        None => {},
                    }
                }
            }
        },
        StatementView::For(name, from, to, body) => {
            range_again(name, from, to, s.1, st, h, more);
            match for_range(name, from, to, s.1, st, h) {
                (Ok(Some((first, last))), h1) => {
                    for_again(name, first, last, body, s.1, st, as_function, h1, more);
                },
                (Err((ExecutionView::Waiting(_), _)), _) => {
                    match for_range(name, from, to, s.1, st, h2) {
                        (Ok(Some((first, last))), h3) => {
                            for_again(name, first, last, body, s.1, st, as_function, h3, more);
                        },
                        _ => {},
                    }
                },
                _ => {},
            }
        },
        StatementView::While(c, body) => {
            while_again(c, body, s.1, st, as_function, h, more);
        },
        StatementView::Repeat(body, c) => {
            repeat_again(body, c, s.1, st, as_function, h, more);
        },
    }
}

/// A block is replayed.
pub proof fn block_again(
    statements: Seq<StatementNode>,
    st: StateView,
    as_function: bool,
    h: HostView,
    more: Seq<LiteralView>,
)
    requires
        begins(more, h.answers),
    ensures
        replays(
            run_block(statements, st, as_function, h),
            run_block(statements, st, as_function, h.with_answers(more)),
            h,
            more,
        ),
    decreases h.steps, statements, statements.len() + 1,
{
    rest_again(statements, 0, st.enter(), as_function, h, more);
}

/// The rest of a block is replayed.
pub proof fn rest_again(
    statements: Seq<StatementNode>,
    i: int,
    st: StateView,
    as_function: bool,
    h: HostView,
    more: Seq<LiteralView>,
)
    requires
        begins(more, h.answers),
    ensures
        replays(
            run_from(statements, i, st, as_function, h),
            run_from(statements, i, st, as_function, h.with_answers(more)),
            h,
            more,
        ),
    decreases h.steps, statements, statements.len() - i,
{
    if 0 <= i < statements.len() {
        let h2 = h.with_answers(more);
        statement_again(statements[i], st, as_function, h, more);
        let (r, h1) = run_statement(statements[i], st, as_function, h);
        let (r2, h3) = run_statement(statements[i], st, as_function, h2);
        match r {
            Ok((next, false)) => {
                rest_again(statements, i + 1, next, as_function, h1, more);
            },
            Err((ExecutionView::Waiting(_), _)) => {
                // The second run goes on from what it wrote for this
                // statement, which starts with what the first run wrote.
                match r2 {
                    Ok((next, false)) => {
                        if h3.steps <= h2.steps {
                            rest_again(statements, i + 1, next, as_function, h3, more);
                        }
                    },
                    _ => {},
                }
            },
            _ => {},
        }
    }
}

/// A `WHILE` loop is replayed.
pub proof fn while_again(
    c: ExpressionNode,
    body: Seq<StatementNode>,
    span: Span,
    st: StateView,
    as_function: bool,
    h: HostView,
    more: Seq<LiteralView>,
)
    requires
        begins(more, h.answers),
    ensures
        replays(
            run_while(c, body, span, st, as_function, h),
            run_while(c, body, span, st, as_function, h.with_answers(more)),
            h,
            more,
        ),
    decreases h.steps, body, body.len() + 2,
{
    let h2 = h.with_answers(more);
    condition_again(c, span, st, h, more);
    let (r, h1) = condition(c, span, st, h);
    if r == Ok::<bool, (ExecutionView, Span)>(true) {
        block_again(body, st, as_function, h1, more);
        match run_block(body, st, as_function, h1) {
            (Ok(next), h3) => {
                if 0 < h3.steps <= h.steps {
                    while_again(
                        c,
                        body,
                        span,
                        next,
                        as_function,
                        h3.with_steps((h3.steps - 1) as nat),
                        more,
                    );
                }
            },
            (Err((ExecutionView::Waiting(_), _)), _) => {
                match run_block(body, st, as_function, h1.with_answers(more)) {
                    (Ok(next), h4) => {
                        if 0 < h4.steps <= h.steps {
                            while_again(
                                c,
                                body,
                                span,
                                next,
                                as_function,
                                h4.with_steps((h4.steps - 1) as nat),
                                more,
                            );
                        }
                    },
                    _ => {},
                }
            },
            _ => {},
        }
    } else if waits_at(r) {
        // The second run may go on into the loop: what it writes there is
        // added to what was written before the loop.
        let (r2, h5) = condition(c, span, st, h2);
        if r2 == Ok::<bool, (ExecutionView, Span)>(true) {
            block_again(body, st, as_function, h5, more);
            match run_block(body, st, as_function, h5) {
                (Ok(next), h6) => {
                    if 0 < h6.steps <= h.steps {
                        while_again(
                            c,
                            body,
                            span,
                            next,
                            as_function,
                            h6.with_steps((h6.steps - 1) as nat),
                            more,
                        );
                    }
                },
                _ => {},
            }
        }
    }
}

/// A `REPEAT` loop is replayed.
pub proof fn repeat_again(
    body: Seq<StatementNode>,
    c: ExpressionNode,
    span: Span,
    st: StateView,
    as_function: bool,
    h: HostView,
    more: Seq<LiteralView>,
)
    requires
        begins(more, h.answers),
    ensures
        replays(
            run_repeat(body, c, span, st, as_function, h),
            run_repeat(body, c, span, st, as_function, h.with_answers(more)),
            h,
            more,
        ),
    decreases h.steps, body, body.len() + 2,
{
    let h2 = h.with_answers(more);
    block_again(body, st, as_function, h, more);
    let (r, h1) = run_block(body, st, as_function, h);
    match r {
        Ok(next) => {
            condition_again(c, span, next, h1, more);
            let (b, h3) = condition(c, span, next, h1);
            if b == Ok::<bool, (ExecutionView, Span)>(false) {
                if 0 < h3.steps <= h.steps {
                    repeat_again(
                        body,
                        c,
                        span,
                        next,
                        as_function,
                        h3.with_steps((h3.steps - 1) as nat),
                        more,
                    );
                }
            } else if waits_at(b) {
                let (b2, h4) = condition(c, span, next, h1.with_answers(more));
                if b2 == Ok::<bool, (ExecutionView, Span)>(false) && 0 < h4.steps <= h.steps {
                    repeat_again(
                        body,
                        c,
                        span,
                        next,
                        as_function,
                        h4.with_steps((h4.steps - 1) as nat),
                        more,
                    );
                }
            }
        },
        Err((ExecutionView::Waiting(_), _)) => {
            match run_block(body, st, as_function, h2) {
                (Ok(next), h5) => {
                    condition_again(c, span, next, h5, more);
                    let (b, h6) = condition(c, span, next, h5);
                    if b == Ok::<bool, (ExecutionView, Span)>(false) && 0 < h6.steps <= h.steps {
                        repeat_again(
                            body,
                            c,
                            span,
                            next,
                            as_function,
                            h6.with_steps((h6.steps - 1) as nat),
                            more,
                        );
                    }
                },
                _ => {},
            }
        },
        _ => {},
    }
}

/// A `FOR` loop is replayed.
pub proof fn for_again(
    name: Seq<char>,
    n: isize,
    last: isize,
    body: Seq<StatementNode>,
    span: Span,
    st: StateView,
    as_function: bool,
    h: HostView,
    more: Seq<LiteralView>,
)
    requires
        begins(more, h.answers),
    ensures
        replays(
            run_for(name, n, last, body, span, st, as_function, h),
            run_for(name, n, last, body, span, st, as_function, h.with_answers(more)),
            h,
            more,
        ),
    decreases h.steps, body, body.len() + 2,
{
    match st.assign(name, LiteralView::Integer(n)) {
        Ok(assigned) => {
            block_again(body, assigned, as_function, h, more);
            match run_block(body, assigned, as_function, h) {
                (Ok(next), h1) => {
                    if n < last && 0 < h1.steps <= h.steps {
                        for_again(
                            name,
                            (n + 1) as isize,
                            last,
                            body,
                            span,
                            next,
                            as_function,
                            h1.with_steps((h1.steps - 1) as nat),
                            more,
                        );
                    }
                },
                (Err((ExecutionView::Waiting(_), _)), _) => {
                    match run_block(body, assigned, as_function, h.with_answers(more)) {
                        (Ok(next), h2) => {
                            if n < last && 0 < h2.steps <= h.steps {
                                for_again(
                                    name,
                                    (n + 1) as isize,
                                    last,
                                    body,
                                    span,
                                    next,
                                    as_function,
                                    h2.with_steps((h2.steps - 1) as nat),
                                    more,
                                );
                            }
                        },
                        _ => {},
                    }
                },
                _ => {},
            }
        },
        _ => {},
    }
}

/// A block never leaves the host more steps than it had, keeps the answers
/// of the host, and adds to what was written. So the tests of the steps in
/// `run_from`, `run_statement` and the loops, which are there for the
/// definitions to end, fail only where the steps are used up.
pub proof fn block_uses_steps(
    statements: Seq<StatementNode>,
    st: StateView,
    as_function: bool,
    h: HostView,
)
    ensures
        run_block(statements, st, as_function, h).1.steps <= h.steps,
        run_block(statements, st, as_function, h).1.answers == h.answers,
        begins(run_block(statements, st, as_function, h).1.output, h.output),
{
    block_again(statements, st, as_function, h, h.answers);
}

/// A program that runs again with more answers does again what it did: a
/// run that did not wait for an answer ends in the same way and has written
/// the same lines, and a run that waited has written a start of what the run
/// with more answers writes.
pub proof fn program_runs_again(
    source: Seq<char>,
    answers: Seq<LiteralView>,
    more: Seq<LiteralView>,
    steps: nat,
)
    requires
        begins(more, answers),
    ensures
        ({
            let first = run_source(source, HostView::fresh(answers, steps));
            let second = run_source(source, HostView::fresh(more, steps));
            if run_waits(first.0) {
                begins(second.1.output, first.1.output)
            } else {
                second.0 == first.0 && second.1.output == first.1.output
            }
        }),
{
    let h = HostView::fresh(answers, steps);
    assert(h.with_answers(more) == HostView::fresh(more, steps));
    match lex(source) {
        Ok(tokens) => match parse(tokens) {
            Ok(program) => {
                block_again(program, initial_state(), false, h, more);
            },
            _ => {},
        },
        _ => {},
    }
}

} // verus!
