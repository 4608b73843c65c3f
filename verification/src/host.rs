//! The side of an evaluation that lies outside the program: the answers that
//! the host has given to its requests, the lines it has written, and how
//! often it may still go round a loop.
//!
//! An evaluation never waits. Where it needs something from outside (a line
//! of input, arithmetic on real numbers, a random number) it takes the next
//! recorded answer; where there is none it stops with the request. The host
//! then records the answer and runs the program again from its start: with
//! the same answers an evaluation does the same thing.

use vstd::prelude::*;
use crate::ast::{Execution, ExecutionView, Literal, LiteralView, Request, RequestView, literals_view};

verus! {

/// What an evaluation has from outside the program and gives to it.
#[derive(Debug, PartialEq, Eq)]
pub struct Host {
    /// The answers to the requests of the evaluation, in the order in which
    /// it makes them.
    pub answers: Vec<Literal>,
    /// How many of the answers the evaluation has taken.
    pub used: usize,
    /// The lines that the evaluation has written.
    pub output: Vec<String>,
    /// How many times the evaluation may still go back to the start of a
    /// loop.
    pub steps: usize,
}

/// What a `Host` is, as a mathematical value.
pub struct HostView {
    pub answers: Seq<LiteralView>,
    pub used: int,
    pub output: Seq<Seq<char>>,
    pub steps: nat,
}

/// The lines of an output, each as the sequence of its characters.
pub open spec fn lines_view(lines: Seq<String>) -> Seq<Seq<char>> {
    Seq::new(lines.len(), |i: int| lines[i]@)
}

impl View for Host {
    type V = HostView;

    open spec fn view(&self) -> HostView {
        HostView {
            answers: literals_view(self.answers@),
            used: self.used as int,
            output: lines_view(self.output@),
            steps: self.steps as nat,
        }
    }
}

impl HostView {
    /// The host of an evaluation that has not begun: no answer is taken and
    /// no line is written.
    pub open spec fn fresh(answers: Seq<LiteralView>, steps: nat) -> HostView {
        HostView { answers, used: 0, output: Seq::empty(), steps }
    }

    /// The host with other answers.
    pub open spec fn with_answers(self, answers: Seq<LiteralView>) -> HostView {
        HostView { answers, ..self }
    }

    /// The host with another number of answers taken.
    pub open spec fn with_used(self, used: int) -> HostView {
        HostView { used, ..self }
    }

    /// The host with another number of steps left.
    pub open spec fn with_steps(self, steps: nat) -> HostView {
        HostView { steps, ..self }
    }

    /// The host after one more line is written.
    pub open spec fn with_line(self, line: Seq<char>) -> HostView {
        HostView { output: self.output.push(line), ..self }
    }
}

/// What becomes of a request: the next recorded answer where it answers the
/// request, `BadAnswer` where it does not, and `Waiting` where no answer is
/// left. The second part is how many answers are taken afterwards.
pub open spec fn ask_spec(answers: Seq<LiteralView>, used: int, request: RequestView) -> (
    Result<LiteralView, ExecutionView>,
    int,
) {
    if 0 <= used < answers.len() {
        if request.accepts(answers[used]) {
            (Ok(answers[used]), used + 1)
        } else {
            (Err(ExecutionView::BadAnswer(request)), used + 1)
        }
    } else {
        (Err(ExecutionView::Waiting(request)), used)
    }
}

/// What `view` is on the result of a request.
pub open spec fn answer_view(r: Result<Literal, Execution>) -> Result<LiteralView, ExecutionView> {
    match r {
        Ok(v) => Ok(v@),
        Err(e) => Err(e@),
    }
}

impl Host {
    /// A host with no answers recorded and nothing written.
    pub fn new(steps: usize) -> (r: Host)
        ensures
            r@ == HostView::fresh(Seq::empty(), steps as nat),
    {
        let r = Host { answers: Vec::new(), used: 0, output: Vec::new(), steps };
        proof {
            assert(r@.answers =~= Seq::empty());
            assert(r@.output =~= Seq::empty());
        }
        r
    }

    /// Records one more answer.
    pub fn answer(&mut self, value: Literal)
        ensures
            final(self)@ == (HostView { answers: old(self)@.answers.push(value@), ..old(self)@ }),
    {
        self.answers.push(value);
        proof {
            assert(final(self)@.answers =~= old(self)@.answers.push(value@));
        }
    }

    /// Goes back to before the evaluation: the answers stay, none of them is
    /// taken, and nothing is written.
    pub fn rewind(&mut self, steps: usize)
        ensures
            final(self)@ == HostView::fresh(old(self)@.answers, steps as nat),
    {
        self.used = 0;
        self.output = Vec::new();
        self.steps = steps;
        proof {
            assert(final(self)@.output =~= Seq::empty());
        }
    }

    /// Writes one line.
    pub fn write(&mut self, line: String)
        ensures
            final(self)@ == old(self)@.with_line(line@),
    {
        self.output.push(line);
        proof {
            assert(final(self)@.output =~= old(self)@.output.push(line@));
        }
    }

    /// Takes the answer to a request.
    pub fn ask(&mut self, request: Request) -> (r: Result<Literal, Execution>)
        ensures
            (answer_view(r), final(self)@.used) == ask_spec(
                old(self)@.answers,
                old(self)@.used,
                request@,
            ),
            final(self)@ == old(self)@.with_used(final(self)@.used),
    {
        if self.used < self.answers.len() {
            let answer = self.answers[self.used].clone();
            self.used = self.used + 1;
            if request.accepts(&answer) {
                Ok(answer)
            } else {
                Err(Execution::BadAnswer(request))
            }
        } else {
            Err(Execution::Waiting(request))
        }
    }
}

} // verus!
