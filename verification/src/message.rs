//! The words in which types, operators and errors are shown to the author of
//! a program.

use vstd::prelude::*;
use vstd::string::StringExecFns;
use crate::ast::{
    Bounds,
    DataTypes,
    Execution,
    ExecutionView,
    Literal,
    LiteralType,
    LiteralView,
    Ops,
    Request,
    RequestView,
};
use crate::text::{count_text, decimal, integer_text};

verus! {

impl LiteralType {
    /// The name of a type of values.
    pub open spec fn name(self) -> Seq<char> {
        match self {
            LiteralType::Integer => "integer"@,
            LiteralType::Real => "real"@,
            LiteralType::String => "string"@,
            LiteralType::Boolean => "boolean"@,
        }
    }

    /// The name of this type of values.
    pub fn describe(&self) -> (r: String)
        ensures
            r@ == self.name(),
    {
        match self {
            LiteralType::Integer => String::from_str("integer"),
            LiteralType::Real => String::from_str("real"),
            LiteralType::String => String::from_str("string"),
            LiteralType::Boolean => String::from_str("boolean"),
        }
    }
}

impl DataTypes {
    /// The name of a kind of variable.
    pub open spec fn name(self) -> Seq<char> {
        match self {
            DataTypes::Literal(t) => t.name() + " literal"@,
            DataTypes::Array => "array"@,
        }
    }

    /// The name of this kind of variable.
    pub fn describe(&self) -> (r: String)
        ensures
            r@ == self.name(),
    {
        match self {
            DataTypes::Literal(t) => t.describe().concat(" literal"),
            DataTypes::Array => String::from_str("array"),
        }
    }
}

impl Ops {
    /// The name of an operator.
    pub open spec fn name(self) -> Seq<char> {
        match self {
            Ops::Plus => "plus"@,
            Ops::Minus => "minues"@,
            Ops::Divide => "divide"@,
            Ops::Multiply => "multiply"@,
            Ops::Concatenate => "concatenate"@,
            Ops::GreaterThan => "greater than"@,
            Ops::LessThan => "less than"@,
            Ops::GreaterThanEqual => "greater than or equal"@,
            Ops::LessThanEqual => "less than or equal"@,
            Ops::Equal => "equal"@,
            Ops::NotEqual => "not equal"@,
            Ops::Mod => "modulo"@,
            Ops::Div => "integer divide"@,
            Ops::And => "and"@,
            Ops::Or => "or"@,
            Ops::Not => "not"@,
        }
    }

    /// The name of this operator.
    pub fn describe(&self) -> (r: String)
        ensures
            r@ == self.name(),
    {
        match self {
            Ops::Plus => String::from_str("plus"),
            Ops::Minus => String::from_str("minues"),
            Ops::Divide => String::from_str("divide"),
            Ops::Multiply => String::from_str("multiply"),
            Ops::Concatenate => String::from_str("concatenate"),
            Ops::GreaterThan => String::from_str("greater than"),
            Ops::LessThan => String::from_str("less than"),
            Ops::GreaterThanEqual => String::from_str("greater than or equal"),
            Ops::LessThanEqual => String::from_str("less than or equal"),
            Ops::Equal => String::from_str("equal"),
            Ops::NotEqual => String::from_str("not equal"),
            Ops::Mod => String::from_str("modulo"),
            Ops::Div => String::from_str("integer divide"),
            Ops::And => String::from_str("and"),
            Ops::Or => String::from_str("or"),
            Ops::Not => String::from_str("not"),
        }
    }

    /// The operator that a symbol of the language stands for.
    pub open spec fn of_symbol(symbol: Seq<char>) -> Option<Ops> {
        if symbol == "+"@ {
            Some(Ops::Plus)
        } else if symbol == "-"@ {
            Some(Ops::Minus)
        } else if symbol == "/"@ {
            Some(Ops::Divide)
        } else if symbol == "*"@ {
            Some(Ops::Multiply)
        } else if symbol == "&"@ {
            Some(Ops::Concatenate)
        } else if symbol == ">"@ {
            Some(Ops::GreaterThan)
        } else if symbol == "<"@ {
            Some(Ops::LessThan)
        } else if symbol == ">="@ {
            Some(Ops::GreaterThanEqual)
        } else if symbol == "<="@ {
            Some(Ops::LessThanEqual)
        } else if symbol == "="@ {
            Some(Ops::Equal)
        } else if symbol == "<>"@ {
            Some(Ops::NotEqual)
        } else {
            None
        }
    }

    /// The operator that a symbol of the language stands for, or `None`
    /// where it stands for none.
    pub fn from_symbol(symbol: &str) -> (r: Option<Ops>)
        ensures
            r == Ops::of_symbol(symbol@),
    {
        let text = String::from_str(symbol);
        if text == String::from_str("+") {
            Some(Ops::Plus)
        } else if text == String::from_str("-") {
            Some(Ops::Minus)
        } else if text == String::from_str("/") {
            Some(Ops::Divide)
        } else if text == String::from_str("*") {
            Some(Ops::Multiply)
        } else if text == String::from_str("&") {
            Some(Ops::Concatenate)
        } else if text == String::from_str(">") {
            Some(Ops::GreaterThan)
        } else if text == String::from_str("<") {
            Some(Ops::LessThan)
        } else if text == String::from_str(">=") {
            Some(Ops::GreaterThanEqual)
        } else if text == String::from_str("<=") {
            Some(Ops::LessThanEqual)
        } else if text == String::from_str("=") {
            Some(Ops::Equal)
        } else if text == String::from_str("<>") {
            Some(Ops::NotEqual)
        } else {
            None
        }
    }
}

impl Bounds {
    /// The bounds of an array in words.
    pub open spec fn text(self) -> Seq<char> {
        "lower: "@ + decimal(self.lower as int) + ", upper: "@ + decimal(self.upper as int)
    }

    /// These bounds in words.
    pub fn describe(&self) -> (r: String)
        ensures
            r@ == self.text(),
    {
        let mut out = String::from_str("lower: ");
        out.append(count_text(self.lower).as_str());
        out.append(", upper: ");
        out.append(count_text(self.upper).as_str());
        out
    }
}

impl LiteralView {
    /// A value as it is named in a request: a real number by its text, any
    /// other value as it is written.
    pub open spec fn text(self) -> Seq<char> {
        match self {
            LiteralView::Integer(n) => decimal(n as int),
            LiteralView::Real(x) => x,
            LiteralView::String(s) => s,
            LiteralView::Bool(b) => if b {
                "true"@
            } else {
                "false"@
            },
        }
    }
}

impl Literal {
    /// This value in words.
    pub fn describe(&self) -> (r: String)
        ensures
            r@ == self@.text(),
    {
        match self {
            Literal::Integer(n) => integer_text(*n),
            Literal::Real(x) => x.text.clone(),
            Literal::String(s) => s.clone(),
            Literal::Bool(b) => if *b {
                String::from_str("true")
            } else {
                String::from_str("false")
            },
        }
    }
}

impl RequestView {
    /// A request in words.
    pub open spec fn text(self) -> Seq<char> {
        match self {
            RequestView::Input => "a line of input"@,
            RequestView::Random(low, high) => "a random integer from "@ + decimal(low as int)
                + " to "@ + decimal(high as int),
            RequestView::Operate(op, a, b) => op.name() + " of "@ + a.text() + " and "@ + b.text(),
            RequestView::Negative(x) => "the negative of "@ + x,
            RequestView::Display(x) => "the text of "@ + x,
        }
    }
}

impl Request {
    /// This request in words.
    pub fn describe(&self) -> (r: String)
        ensures
            r@ == self@.text(),
    {
        match self {
            Request::Input => String::from_str("a line of input"),
            Request::Random(low, high) => {
                let mut out = String::from_str("a random integer from ");
                out.append(integer_text(*low).as_str());
                out.append(" to ");
                out.append(integer_text(*high).as_str());
                out
            },
            Request::Operate(op, a, b) => {
                let mut out = op.describe();
                out.append(" of ");
                out.append(a.describe().as_str());
                out.append(" and ");
                out.append(b.describe().as_str());
                out
            },
            Request::Negative(x) => String::from_str("the negative of ").concat(x.text.as_str()),
            Request::Display(x) => String::from_str("the text of ").concat(x.text.as_str()),
        }
    }
}

impl ExecutionView {
    /// An error in words.
    pub open spec fn message(self) -> Seq<char> {
        match self {
            ExecutionView::NotFound(name) => "variable "@ + name + " not found"@,
            ExecutionView::NotAssigned(name) => "variable "@ + name + " not assigned"@,
            ExecutionView::IncorrectType(expected, received) => "Incorrect type, expected "@
                + expected.name() + " but received "@ + received.name(),
            ExecutionView::BinaryNotSupported(op, a, b) => "Binary operator \""@ + op.name()
                + "\" is not supported between types "@ + a.name() + " and "@ + b.name(),
            ExecutionView::UnaryNotSupported(op, a) => "Unary operator \""@ + op.name()
                + "\" is not supported on type "@ + a.name(),
            ExecutionView::AlreadyDeclared(name) => "Variable "@ + name + " is already declared"@,
            ExecutionView::IncorrectNumberArguments(name, expected, received) =>
                "Incorrect numer of arguments for \""@ + name + "\", expected "@ + decimal(
                expected as int,
            ) + " but received "@ + decimal(received as int),
            ExecutionView::CanNotCallReturn =>
                "Can not call return outside of a function or procedure"@,
            ExecutionView::CanNotParse(text) => "Can not parse string "@ + text + " as number"@,
            ExecutionView::AssignToConstant(name) => "Can not assign value to constant \""@ + name
                + "\""@,
            ExecutionView::InvalidBounds(bounds) => "Invalid bounds "@ + bounds.text(),
            ExecutionView::OutOfBounds(name, index) => "Index "@ + name
                + " is out of bounds for array "@ + decimal(index as int),
            ExecutionView::NegativeIndex(name, index) => "Index "@ + name
                + " is out of bounds for array "@ + decimal(index as int),
            ExecutionView::IndexNotAssigned(name, index) => "Index "@ + name
                + " not assigned for array "@ + decimal(index as int),
            ExecutionView::DivisionByZero => "Can not divide by zero"@,
            ExecutionView::EmptyRange(low, high) => "There is no integer from "@ + decimal(
                low as int,
            ) + " to "@ + decimal(high as int),
            ExecutionView::NotSupported(name) => "Calling the procedure \""@ + name
                + "\" is not supported"@,
            ExecutionView::StepLimit => "The program has run for too long"@,
            ExecutionView::Waiting(request) => "Waiting for "@ + request.text(),
            ExecutionView::BadAnswer(request) => "The host gave a wrong answer for "@
                + request.text(),
        }
    }
}

impl Execution {
    /// This error in words.
    pub fn message(&self) -> (r: String)
        ensures
            r@ == self@.message(),
    {
        match self {
            Execution::NotFound(name) => {
                let mut out = String::from_str("variable ");
                out.append(name.as_str());
                out.append(" not found");
                out
            },
            Execution::NotAssigned(name) => {
                let mut out = String::from_str("variable ");
                out.append(name.as_str());
                out.append(" not assigned");
                out
            },
            Execution::IncorrectType(expected, received) => {
                let mut out = String::from_str("Incorrect type, expected ");
                out.append(expected.describe().as_str());
                out.append(" but received ");
                out.append(received.describe().as_str());
                out
            },
            Execution::BinaryNotSupported(op, a, b) => {
                let mut out = String::from_str("Binary operator \"");
                out.append(op.describe().as_str());
                out.append("\" is not supported between types ");
                out.append(a.describe().as_str());
                out.append(" and ");
                out.append(b.describe().as_str());
                out
            },
            Execution::UnaryNotSupported(op, a) => {
                let mut out = String::from_str("Unary operator \"");
                out.append(op.describe().as_str());
                out.append("\" is not supported on type ");
                out.append(a.describe().as_str());
                out
            },
            Execution::AlreadyDeclared(name) => {
                let mut out = String::from_str("Variable ");
                out.append(name.as_str());
                out.append(" is already declared");
                out
            },
            Execution::IncorrectNumberArguments(name, expected, received) => {
                let mut out = String::from_str("Incorrect numer of arguments for \"");
                out.append(name.as_str());
                out.append("\", expected ");
                out.append(count_text(*expected).as_str());
                out.append(" but received ");
                out.append(count_text(*received).as_str());
                out
            },
            Execution::CanNotCallReturn => String::from_str(
                "Can not call return outside of a function or procedure",
            ),
            Execution::CanNotParse(text) => {
                let mut out = String::from_str("Can not parse string ");
                out.append(text.as_str());
                out.append(" as number");
                out
            },
            Execution::AssignToConstant(name) => {
                let mut out = String::from_str("Can not assign value to constant \"");
                out.append(name.as_str());
                out.append("\"");
                out
            },
            Execution::InvalidBounds(bounds) => String::from_str("Invalid bounds ").concat(
                bounds.describe().as_str(),
            ),
            Execution::OutOfBounds(name, index) => {
                let mut out = String::from_str("Index ");
                out.append(name.as_str());
                out.append(" is out of bounds for array ");
                out.append(count_text(*index).as_str());
                out
            },
            Execution::NegativeIndex(name, index) => {
                let mut out = String::from_str("Index ");
                out.append(name.as_str());
                out.append(" is out of bounds for array ");
                out.append(integer_text(*index).as_str());
                out
            },
            Execution::IndexNotAssigned(name, index) => {
                let mut out = String::from_str("Index ");
                out.append(name.as_str());
                out.append(" not assigned for array ");
                out.append(count_text(*index).as_str());
                out
            },
            Execution::DivisionByZero => String::from_str("Can not divide by zero"),
            Execution::EmptyRange(low, high) => {
                let mut out = String::from_str("There is no integer from ");
                out.append(integer_text(*low).as_str());
                out.append(" to ");
                out.append(integer_text(*high).as_str());
                out
            },
            Execution::NotSupported(name) => {
                let mut out = String::from_str("Calling the procedure \"");
                out.append(name.as_str());
                out.append("\" is not supported");
                out
            },
            Execution::StepLimit => String::from_str("The program has run for too long"),
            Execution::Waiting(request) => String::from_str("Waiting for ").concat(
                request.describe().as_str(),
            ),
            Execution::BadAnswer(request) => String::from_str(
                "The host gave a wrong answer for ",
            ).concat(request.describe().as_str()),
        }
    }
}

} // verus!
