//! From the text of a program to what it does: the lexer, the parser and the
//! evaluator one after the other.

use vstd::prelude::*;
use crate::appendix::{built_ins, built_ins_spec, draw};
use crate::ast::{
    Execution,
    ExecutionView,
    Literal,
    LiteralView,
    Request,
    Span,
    Spanned,
    Statement,
    StatementNode,
    statements_view,
};
use crate::evaluate::{State, StateView, evaluate, run_block};
use crate::host::{Host, HostView};
use crate::lexer::{LexError, lex, lexer};
use crate::parser::{SyntaxError, SyntaxErrorView, errors_view, parse, parser};

verus! {

/// Why a program did not run to its end.
#[derive(Debug, PartialEq, Eq)]
pub enum Failure {
    /// The characters that no token starts with.
    Lexical(Vec<LexError>),
    /// The tokens that the grammar has no place for.
    Syntax(Vec<SyntaxError>),
    /// The error that stopped the evaluation, with the place of what raised
    /// it.
    Runtime(Execution, Span),
}

/// What a `Failure` is, as a mathematical value.
pub enum FailureView {
    Lexical(Seq<LexError>),
    Syntax(Seq<SyntaxErrorView>),
    Runtime(ExecutionView, Span),
}

impl View for Failure {
    type V = FailureView;

    open spec fn view(&self) -> FailureView {
        match self {
            Failure::Lexical(errors) => FailureView::Lexical(errors@),
            Failure::Syntax(errors) => FailureView::Syntax(errors_view(errors@)),
            Failure::Runtime(e, span) => FailureView::Runtime(e@, *span),
        }
    }
}

/// What `view` is on the result of a run.
pub open spec fn run_view(r: Result<(), Failure>) -> Result<(), FailureView> {
    match r {
        Ok(_) => Ok(()),
        Err(e) => Err(e@),
    }
}

/// The state of the interpreter before a program runs: the native callables
/// are there, and no scope.
pub open spec fn initial_state() -> StateView {
    StateView { functions: built_ins_spec(), scopes: Seq::empty() }
}

/// What the statements of a program do from the initial state.
pub open spec fn run_program(program: Seq<StatementNode>, host: HostView) -> (
    Result<(), FailureView>,
    HostView,
) {
    match run_block(program, initial_state(), false, host) {
        (Ok(_), h) => (Ok(()), h),
        (Err((e, span)), h) => (Err(FailureView::Runtime(e, span)), h),
    }
}

/// What the text of a program does: the errors of the lexer where it has
/// any, else those of the parser, else what the statements do.
pub open spec fn run_source(source: Seq<char>, host: HostView) -> (
    Result<(), FailureView>,
    HostView,
) {
    match lex(source) {
        Err(errors) => (Err(FailureView::Lexical(errors)), host),
        Ok(tokens) => match parse(tokens) {
            Err(errors) => (Err(FailureView::Syntax(errors)), host),
            Ok(program) => run_program(program, host),
        },
    }
}

/// The state of the interpreter before a program runs.
pub fn start() -> (r: State)
    ensures
        r@ == initial_state(),
{
    let r = State { functions: built_ins(), scopes: Vec::new() };
    proof {
        assert(r@.scopes =~= Seq::empty());
    }
    r
}

/// Runs the statements of a program from the initial state, with the
/// answers that the host holds.
pub fn run(program: &Vec<Spanned<Statement>>, host: &mut Host) -> (r: Result<(), Failure>)
    ensures
        (run_view(r), final(host)@) == run_program(statements_view(program@), old(host)@),
        final(host)@.answers == old(host)@.answers,
{
    match evaluate(program, start(), false, host) {
        Ok(_) => Ok(()),
        Err((e, span)) => Err(Failure::Runtime(e, span)),
    }
}

/// Reads a program and runs it, with the answers that the host holds: where
/// the program needs one that is not there, the run ends with `Waiting`.
pub fn interpret(source: &str, host: &mut Host) -> (r: Result<(), Failure>)
    ensures
        (run_view(r), final(host)@) == run_source(source@, old(host)@),
        final(host)@.answers == old(host)@.answers,
{
    let tokens = match lexer(source) {
        Err(errors) => {
            return Err(Failure::Lexical(errors));
        },
        Ok(tokens) => tokens,
    };
    let program = match parser(&tokens) {
        Err(errors) => {
            return Err(Failure::Syntax(errors));
        },
        Ok(program) => program,
    };
    run(&program, host)
}

/// Whether every answer from a place on is an integer.
pub open spec fn integers_from(answers: Seq<LiteralView>, from: int) -> bool {
    forall|i: int| from <= i < answers.len() ==> #[trigger] answers[i] is Integer
}

/// Reads a program and runs it from its start, and draws the random numbers
/// that it asks for. Each number drawn is recorded as one more answer of the
/// host, and the program is run again from its start with the answers
/// recorded so far.
///
/// The result is what the program does with the answers that the host holds
/// in the end. The answers that were there before are still there, in their
/// places, and what was added to them are integers.
pub fn parse_and_run(source: &str, host: &mut Host) -> (r: Result<(), Failure>)
    ensures
        (run_view(r), final(host)@) == run_source(
            source@,
            HostView::fresh(final(host)@.answers, old(host)@.steps),
        ),
        old(host)@.answers.is_prefix_of(final(host)@.answers),
        integers_from(final(host)@.answers, old(host)@.answers.len() as int),
{
    let steps: usize = host.steps;
    host.rewind(steps);
    let tokens = match lexer(source) {
        Err(errors) => {
            return Err(Failure::Lexical(errors));
        },
        Ok(tokens) => tokens,
    };
    let program = match parser(&tokens) {
        Err(errors) => {
            return Err(Failure::Syntax(errors));
        },
        Ok(program) => program,
    };
    let mut rounds: usize = 0;
    loop
        invariant
            steps == old(host)@.steps,
            host@ == HostView::fresh(host@.answers, steps as nat),
            lex(source@) == Ok::<_, Seq<LexError>>(crate::ast::tokens_view(tokens@)),
            parse(crate::ast::tokens_view(tokens@)) == Ok::<_, Seq<SyntaxErrorView>>(
                statements_view(program@),
            ),
            old(host)@.answers.is_prefix_of(host@.answers),
            integers_from(host@.answers, old(host)@.answers.len() as int),
        decreases usize::MAX - rounds,
    {
        match run(&program, host) {
            Err(Failure::Runtime(Execution::Waiting(Request::Random(low, high)), span)) => {
                if rounds == usize::MAX || low >= high {
                    return Err(
                        Failure::Runtime(Execution::Waiting(Request::Random(low, high)), span),
                    );
                }
                let drawn: isize = draw(low, high);
                host.answer(Literal::Integer(drawn));
                host.rewind(steps);
                rounds += 1;
            },
            other => {
                return other;
            },
        }
    }
}

} // verus!
