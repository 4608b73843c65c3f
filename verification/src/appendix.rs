//! The native callables that a program can name: `STR_TO_NUM`, `NUM_TO_STR`
//! and `RANDOMBETWEEN`.

use vstd::prelude::*;
use vstd::string::StringExecFns;
use rand::Rng;
use crate::ast::{
    DataTypes,
    Execution,
    ExecutionView,
    Function,
    Literal,
    LiteralType,
    LiteralView,
    Native,
    Request,
    RequestView,
    literals_view,
};
use crate::host::{Host, answer_view, ask_spec};
use crate::text::{chars_of, decimal, integer_text, parse_isize, read_isize};

verus! {

impl Native {
    /// The name under which a program calls the native callable.
    pub open spec fn name(self) -> Seq<char> {
        match self {
            Native::StrToNum => "STR_TO_NUM"@,
            Native::NumToStr => "NUM_TO_STR"@,
            Native::RandomBetween => "RANDOMBETWEEN"@,
        }
    }

    /// How many arguments the native callable takes.
    pub open spec fn arity(self) -> usize {
        match self {
            Native::StrToNum => 1,
            Native::NumToStr => 1,
            Native::RandomBetween => 2,
        }
    }

    /// The name under which a program calls the native callable.
    pub fn title(self) -> (r: String)
        ensures
            r@ == self.name(),
    {
        match self {
            Native::StrToNum => String::from_str("STR_TO_NUM"),
            Native::NumToStr => String::from_str("NUM_TO_STR"),
            Native::RandomBetween => String::from_str("RANDOMBETWEEN"),
        }
    }
}

/// The error that names the type expected and the type of the value that
/// came.
pub open spec fn wrong_type(expected: LiteralType, received: LiteralView) -> ExecutionView {
    ExecutionView::IncorrectType(DataTypes::Literal(expected), received.data_type())
}

/// `STR_TO_NUM`: the integer that a string is the numeral of.
/// `IncorrectNumberArguments` unless there is one argument, `IncorrectType`
/// unless it is a string, and `CanNotParse`, which names no string, where it
/// is not the numeral of an integer that fits.
pub open spec fn str_to_num_spec(args: Seq<LiteralView>) -> Result<LiteralView, ExecutionView> {
    if args.len() != 1 {
        Err(ExecutionView::IncorrectNumberArguments("STR_TO_NUM"@, 1, args.len() as usize))
    } else {
        match args[0] {
            LiteralView::String(s) => match parse_isize(s) {
                Some(n) => Ok(LiteralView::Integer(n)),
                None => Err(ExecutionView::CanNotParse(Seq::empty())),
            },
            other => Err(wrong_type(LiteralType::String, other)),
        }
    }
}

/// `NUM_TO_STR`: the text that a number is written as. That of an integer
/// is its decimal numeral; that of a real number is asked of the host.
pub open spec fn num_to_str_spec(args: Seq<LiteralView>, answers: Seq<LiteralView>, used: int) -> (
    Result<LiteralView, ExecutionView>,
    int,
) {
    if args.len() != 1 {
        (Err(ExecutionView::IncorrectNumberArguments("NUM_TO_STR"@, 1, args.len() as usize)), used)
    } else {
        match args[0] {
            LiteralView::Integer(n) => (Ok(LiteralView::String(decimal(n as int))), used),
            LiteralView::Real(x) => ask_spec(answers, used, RequestView::Display(x)),
            other => (Err(wrong_type(LiteralType::Integer, other)), used),
        }
    }
}

/// `RANDOMBETWEEN`: an integer that is at least the first argument and less
/// than the second, asked of the host. `EmptyRange` where there is no such
/// integer.
pub open spec fn randombetween_spec(args: Seq<LiteralView>, answers: Seq<LiteralView>, used: int)
    -> (Result<LiteralView, ExecutionView>, int) {
    if args.len() != 2 {
        (
            Err(ExecutionView::IncorrectNumberArguments("RANDOMBETWEEN"@, 2, args.len() as usize)),
            used,
        )
    } else {
        match (args[0], args[1]) {
            (LiteralView::Integer(low), LiteralView::Integer(high)) => if low < high {
                ask_spec(answers, used, RequestView::Random(low, high))
            } else {
                (Err(ExecutionView::EmptyRange(low, high)), used)
            },
            (LiteralView::Integer(_), other) => (Err(wrong_type(LiteralType::Integer, other)), used),
            (other, _) => (Err(wrong_type(LiteralType::Integer, other)), used),
        }
    }
}

/// What a native callable returns for its arguments, and how many answers
/// of the host are taken after the call.
pub open spec fn call_spec(
    native: Native,
    args: Seq<LiteralView>,
    answers: Seq<LiteralView>,
    used: int,
) -> (Result<LiteralView, ExecutionView>, int) {
    match native {
        Native::StrToNum => (str_to_num_spec(args), used),
        Native::NumToStr => num_to_str_spec(args, answers, used),
        Native::RandomBetween => randombetween_spec(args, answers, used),
    }
}

/// The callables that a program can name from its start.
pub open spec fn built_ins_spec() -> Seq<(Seq<char>, Function)> {
    seq![
        (Native::StrToNum.name(), Function::BuiltIn(Native::StrToNum)),
        (Native::NumToStr.name(), Function::BuiltIn(Native::NumToStr)),
        (Native::RandomBetween.name(), Function::BuiltIn(Native::RandomBetween)),
    ]
}

/// The registry of the native callables.
pub fn built_ins() -> (r: Vec<(String, Function)>)
    ensures
        crate::evaluate::functions_view(r@) == built_ins_spec(),
{
    let mut functions: Vec<(String, Function)> = Vec::new();
    functions.push((Native::StrToNum.title(), Function::BuiltIn(Native::StrToNum)));
    functions.push((Native::NumToStr.title(), Function::BuiltIn(Native::NumToStr)));
    functions.push((Native::RandomBetween.title(), Function::BuiltIn(Native::RandomBetween)));
    proof {
        assert(crate::evaluate::functions_view(functions@) =~= built_ins_spec());
    }
    functions
}

/// `STR_TO_NUM`: reads an integer from a string.
pub fn str_to_num(args: Vec<Literal>) -> (r: Result<Literal, Execution>)
    ensures
        answer_view(r) == str_to_num_spec(literals_view(args@)),
{
    if args.len() != 1 {
        return Err(
            Execution::IncorrectNumberArguments(Native::StrToNum.title(), 1, args.len()),
        );
    }
    match &args[0] {
        Literal::String(s) => match read_isize(&chars_of(s.as_str())) {
            Some(n) => Ok(Literal::Integer(n)),
            None => Err(Execution::CanNotParse(String::new())),
        },
        other => Err(
            Execution::IncorrectType(DataTypes::Literal(LiteralType::String), other.data_type()),
        ),
    }
}

/// `NUM_TO_STR`: writes a number as a string.
pub fn num_to_str(args: Vec<Literal>, host: &mut Host) -> (r: Result<Literal, Execution>)
    ensures
        (answer_view(r), final(host)@.used) == num_to_str_spec(
            literals_view(args@),
            old(host)@.answers,
            old(host)@.used,
        ),
        final(host)@ == old(host)@.with_used(final(host)@.used),
{
    if args.len() != 1 {
        return Err(
            Execution::IncorrectNumberArguments(Native::NumToStr.title(), 1, args.len()),
        );
    }
    match &args[0] {
        Literal::Integer(n) => Ok(Literal::String(integer_text(*n))),
        Literal::Real(x) => host.ask(Request::Display(x.clone())),
        other => Err(
            Execution::IncorrectType(DataTypes::Literal(LiteralType::Integer), other.data_type()),
        ),
    }
}

/// `RANDOMBETWEEN`: takes from the host an integer of a half-open range.
pub fn randombetween(args: Vec<Literal>, host: &mut Host) -> (r: Result<Literal, Execution>)
    ensures
        (answer_view(r), final(host)@.used) == randombetween_spec(
            literals_view(args@),
            old(host)@.answers,
            old(host)@.used,
        ),
        final(host)@ == old(host)@.with_used(final(host)@.used),
{
    if args.len() != 2 {
        return Err(
            Execution::IncorrectNumberArguments(Native::RandomBetween.title(), 2, args.len()),
        );
    }
    match (&args[0], &args[1]) {
        (Literal::Integer(low), Literal::Integer(high)) => {
            if *low < *high {
                host.ask(Request::Random(*low, *high))
            } else {
                Err(Execution::EmptyRange(*low, *high))
            }
        },
        (Literal::Integer(_), other) => Err(
            Execution::IncorrectType(DataTypes::Literal(LiteralType::Integer), other.data_type()),
        ),
        (other, _) => Err(
            Execution::IncorrectType(DataTypes::Literal(LiteralType::Integer), other.data_type()),
        ),
    }
}

/// Calls a native callable.
pub fn call(native: Native, args: Vec<Literal>, host: &mut Host) -> (r: Result<Literal, Execution>)
    ensures
        (answer_view(r), final(host)@.used) == call_spec(
            native,
            literals_view(args@),
            old(host)@.answers,
            old(host)@.used,
        ),
        final(host)@ == old(host)@.with_used(final(host)@.used),
{
    match native {
        Native::StrToNum => str_to_num(args),
        Native::NumToStr => num_to_str(args, host),
        Native::RandomBetween => randombetween(args, host),
    }
}

/// `Rng::gen_range` of the crate `rand`, on the generator of the thread and
/// a half-open range that holds at least one integer: the number drawn lies
/// in the range. Nothing more is known of it, and two draws may differ.
#[verifier::external_body]
pub(crate) fn draw(low: isize, high: isize) -> (r: isize)
    requires
        low < high,
    ensures
        low <= r < high,
{
    rand::thread_rng().gen_range(low..high)
}

} // verus!
