//! The vocabulary shared by the lexer, the parser and the evaluator: tokens,
//! literals, expressions, statements, variables and errors, each with the
//! mathematical value (its view) that the contracts of this crate speak of.

use vstd::prelude::*;

verus! {

/// A half-open range of character offsets into the source text.
#[derive(Clone, Copy, Debug, PartialEq, Eq, Hash, Structural)]
pub struct Span {
    pub start: usize,
    pub end: usize,
}

/// A value together with the place in the source text it was read from.
pub type Spanned<T> = (T, Span);

/// The type of a single value.
#[derive(Clone, Copy, Debug, PartialEq, Eq, Hash, Structural)]
pub enum LiteralType {
    Integer,
    Real,
    String,
    Boolean,
}

/// The kind of thing a name stands for: one value of a literal type, or an
/// array. Error values use it to tell a wrong container from a wrong literal
/// type.
#[derive(Clone, Copy, Debug, PartialEq, Eq, Hash, Structural)]
pub enum DataTypes {
    Literal(LiteralType),
    Array,
}

/// The operators of the language.
#[derive(Clone, Copy, Debug, PartialEq, Eq, Hash, Structural)]
pub enum Ops {
    Plus,
    Minus,
    Divide,
    Multiply,
    Concatenate,
    GreaterThan,
    LessThan,
    GreaterThanEqual,
    LessThanEqual,
    Equal,
    NotEqual,
    Mod,
    Div,
    And,
    Or,
    Not,
}

/// The inclusive index range of an array.
#[derive(Clone, Copy, Debug, PartialEq, Eq, Hash, Structural)]
pub struct Bounds {
    pub lower: usize,
    pub upper: usize,
}

impl Ops {
    /// The operators that bind tightest among the binary ones.
    pub open spec fn is_product(self) -> bool {
        self == Ops::Multiply || self == Ops::Divide || self == Ops::Div || self == Ops::Mod
    }

    /// The operators of the middle tier.
    pub open spec fn is_sum(self) -> bool {
        self == Ops::Minus || self == Ops::Plus || self == Ops::Concatenate
    }

    /// The operators that bind loosest. `Not` is not among them: it is only
    /// ever a prefix.
    pub open spec fn is_compare(self) -> bool {
        self == Ops::GreaterThan || self == Ops::LessThan || self == Ops::GreaterThanEqual || self
            == Ops::LessThanEqual || self == Ops::Equal || self == Ops::NotEqual || self
            == Ops::And || self == Ops::Or
    }

    /// Whether this operator is a product.
    pub fn product(self) -> (r: bool)
        ensures
            r == self.is_product(),
    {
        match self {
            Ops::Multiply | Ops::Divide | Ops::Div | Ops::Mod => true,
            _ => false,
        }
    }

    /// Whether this operator is a sum.
    pub fn sum(self) -> (r: bool)
        ensures
            r == self.is_sum(),
    {
        match self {
            Ops::Minus | Ops::Plus | Ops::Concatenate => true,
            _ => false,
        }
    }

    /// Whether this operator is a comparison.
    pub fn compare(self) -> (r: bool)
        ensures
            r == self.is_compare(),
    {
        match self {
            Ops::GreaterThan | Ops::LessThan | Ops::GreaterThanEqual | Ops::LessThanEqual
            | Ops::Equal | Ops::NotEqual | Ops::And | Ops::Or => true,
            _ => false,
        }
    }
}

impl Bounds {
    /// The bounds of an array that can be declared: the lower index lies
    /// strictly below the upper one.
    pub open spec fn valid(self) -> bool {
        self.lower < self.upper
    }

    /// How many slots an array with these bounds has.
    pub open spec fn count(self) -> int {
        self.upper - self.lower + 1
    }

    /// Whether an index lies within the bounds.
    pub open spec fn contains(self, index: int) -> bool {
        self.lower <= index <= self.upper
    }
}

/// A real number, carried as decimal text. This crate moves such values
/// around and never computes with them: arithmetic on them is asked of the
/// host (see `Request`).
#[derive(Debug, PartialEq, Eq)]
pub struct Real {
    pub text: String,
}

impl View for Real {
    type V = Seq<char>;

    open spec fn view(&self) -> Seq<char> {
        self.text@
    }
}

impl Clone for Real {
    fn clone(&self) -> (r: Self)
        ensures
            r == *self,
    {
        Real { text: self.text.clone() }
    }
}

impl Real {
    /// The real number that a text stands for.
    pub fn new(text: String) -> (r: Real)
        ensures
            r@ == text@,
    {
        Real { text }
    }
}

/// A runtime value.
#[derive(Debug, PartialEq, Eq)]
pub enum Literal {
    Integer(isize),
    Real(Real),
    String(String),
    Bool(bool),
}

/// What a `Literal` is, as a mathematical value.
pub enum LiteralView {
    Integer(isize),
    Real(Seq<char>),
    String(Seq<char>),
    Bool(bool),
}

impl View for Literal {
    type V = LiteralView;

    open spec fn view(&self) -> LiteralView {
        match self {
            Literal::Integer(n) => LiteralView::Integer(*n),
            Literal::Real(r) => LiteralView::Real(r@),
            Literal::String(s) => LiteralView::String(s@),
            Literal::Bool(b) => LiteralView::Bool(*b),
        }
    }
}

impl LiteralView {
    /// The type of a value.
    pub open spec fn literal_type(self) -> LiteralType {
        match self {
            LiteralView::Integer(_) => LiteralType::Integer,
            LiteralView::Real(_) => LiteralType::Real,
            LiteralView::String(_) => LiteralType::String,
            LiteralView::Bool(_) => LiteralType::Boolean,
        }
    }

    /// The kind of a value: a literal of its type.
    pub open spec fn data_type(self) -> DataTypes {
        DataTypes::Literal(self.literal_type())
    }
}

impl Clone for Literal {
    fn clone(&self) -> (r: Self)
        ensures
            r == *self,
    {
        match self {
            Literal::Integer(n) => Literal::Integer(*n),
            Literal::Real(x) => Literal::Real(x.clone()),
            Literal::String(s) => Literal::String(s.clone()),
            Literal::Bool(b) => Literal::Bool(*b),
        }
    }
}

impl From<LiteralType> for DataTypes {
    fn from(literal_type: LiteralType) -> (r: DataTypes) {
        DataTypes::Literal(literal_type)
    }
}

impl vstd::std_specs::convert::FromSpecImpl<LiteralType> for DataTypes {
    open spec fn obeys_from_spec() -> bool {
        true
    }

    open spec fn from_spec(literal_type: LiteralType) -> DataTypes {
        DataTypes::Literal(literal_type)
    }
}

impl From<&Literal> for LiteralType {
    fn from(value: &Literal) -> (r: LiteralType) {
        value.literal_type()
    }
}

impl vstd::std_specs::convert::FromSpecImpl<&Literal> for LiteralType {
    open spec fn obeys_from_spec() -> bool {
        true
    }

    open spec fn from_spec(value: &Literal) -> LiteralType {
        value@.literal_type()
    }
}

impl Literal {
    /// The type of this value.
    pub fn literal_type(&self) -> (r: LiteralType)
        ensures
            r == self@.literal_type(),
    {
        match self {
            Literal::Integer(_) => LiteralType::Integer,
            Literal::Real(_) => LiteralType::Real,
            Literal::String(_) => LiteralType::String,
            Literal::Bool(_) => LiteralType::Boolean,
        }
    }

    /// The kind of this value: a literal of its type.
    pub fn data_type(&self) -> (r: DataTypes)
        ensures
            r == self@.data_type(),
    {
        DataTypes::Literal(self.literal_type())
    }
}

/// What a view of a sequence of literals is.
pub open spec fn literals_view(values: Seq<Literal>) -> Seq<LiteralView> {
    Seq::new(values.len(), |i: int| values[i]@)
}

/// Something only the host of an evaluation can supply: a line of input, or
/// the result of arithmetic on real numbers.
#[derive(Debug, PartialEq, Eq)]
pub enum Request {
    /// One line of input. The answer is a `String`.
    Input,
    /// An integer drawn at random from the half-open range between the two
    /// numbers. The answer is an `Integer` of that range.
    Random(isize, isize),
    /// A binary operator on two operands of which the result is, or is
    /// computed from, a real number. The answer is a `Real`, but for `Div`,
    /// where it is an `Integer`.
    Operate(Ops, Literal, Literal),
    /// The negative of a real number. The answer is a `Real`.
    Negative(Real),
    /// The text a real number is written as. The answer is a `String`.
    Display(Real),
}

/// What a `Request` is, as a mathematical value.
pub enum RequestView {
    Input,
    Random(isize, isize),
    Operate(Ops, LiteralView, LiteralView),
    Negative(Seq<char>),
    Display(Seq<char>),
}

impl View for Request {
    type V = RequestView;

    open spec fn view(&self) -> RequestView {
        match self {
            Request::Input => RequestView::Input,
            Request::Random(low, high) => RequestView::Random(*low, *high),
            Request::Operate(op, a, b) => RequestView::Operate(*op, a@, b@),
            Request::Negative(x) => RequestView::Negative(x@),
            Request::Display(x) => RequestView::Display(x@),
        }
    }
}

impl RequestView {
    /// The type that an answer to this request has.
    pub open spec fn answer_type(self) -> LiteralType {
        match self {
            RequestView::Input => LiteralType::String,
            RequestView::Random(_, _) => LiteralType::Integer,
            RequestView::Operate(op, _, _) => if op == Ops::Div {
                LiteralType::Integer
            } else {
                LiteralType::Real
            },
            RequestView::Negative(_) => LiteralType::Real,
            RequestView::Display(_) => LiteralType::String,
        }
    }
}

impl RequestView {
    /// Whether a value answers this request: it has the type asked for, and
    /// a number drawn at random lies in the range it was to be drawn from.
    pub open spec fn accepts(self, answer: LiteralView) -> bool {
        &&& answer.literal_type() == self.answer_type()
        &&& match (self, answer) {
            (RequestView::Random(low, high), LiteralView::Integer(n)) => low <= n < high,
            _ => true,
        }
    }
}

impl Clone for Request {
    fn clone(&self) -> (r: Self)
        ensures
            r == *self,
    {
        match self {
            Request::Input => Request::Input,
            Request::Random(low, high) => Request::Random(*low, *high),
            Request::Operate(op, a, b) => Request::Operate(*op, a.clone(), b.clone()),
            Request::Negative(x) => Request::Negative(x.clone()),
            Request::Display(x) => Request::Display(x.clone()),
        }
    }
}

impl Request {
    /// Whether a value answers this request.
    pub fn accepts(&self, answer: &Literal) -> (r: bool)
        ensures
            r == self@.accepts(answer@),
    {
        if answer.literal_type() != self.answer_type() {
            return false;
        }
        match (self, answer) {
            (Request::Random(low, high), Literal::Integer(n)) => *low <= *n && *n < *high,
            _ => true,
        }
    }

    /// The type that an answer to this request has.
    pub fn answer_type(&self) -> (r: LiteralType)
        ensures
            r == self@.answer_type(),
    {
        match self {
            Request::Input => LiteralType::String,
            Request::Random(_, _) => LiteralType::Integer,
            Request::Operate(op, _, _) => match op {
                Ops::Div => LiteralType::Integer,
                _ => LiteralType::Real,
            },
            Request::Negative(_) => LiteralType::Real,
            Request::Display(_) => LiteralType::String,
        }
    }
}

/// A lexical token.
#[derive(Debug, PartialEq, Eq, Hash)]
pub enum Token {
    Declare,
    Identifier(String),
    BuiltIn(String),
    Arrow,
    Integer(String),
    Real(String),
    Out,
    In,
    Colon,
    DataType(DataTypes),
    NewLine,
    String(String),
    Operator(Ops),
    OpenBracket,
    CloseBracket,
    Boolean(bool),
    If,
    Next,
    Then,
    Else,
    EndIf,
    Comma,
    Return,
    For,
    EndFor,
    To,
    While,
    Do,
    EndWhile,
    Repeat,
    Until,
    Of,
    OpenSquare,
    CloseSquare,
}

/// What a `Token` is, as a mathematical value.
pub enum TokenView {
    Declare,
    Identifier(Seq<char>),
    BuiltIn(Seq<char>),
    Arrow,
    Integer(Seq<char>),
    Real(Seq<char>),
    Out,
    In,
    Colon,
    DataType(DataTypes),
    NewLine,
    String(Seq<char>),
    Operator(Ops),
    OpenBracket,
    CloseBracket,
    Boolean(bool),
    If,
    Next,
    Then,
    Else,
    EndIf,
    Comma,
    Return,
    For,
    EndFor,
    To,
    While,
    Do,
    EndWhile,
    Repeat,
    Until,
    Of,
    OpenSquare,
    CloseSquare,
}

impl View for Token {
    type V = TokenView;

    open spec fn view(&self) -> TokenView {
        match self {
            Token::Declare => TokenView::Declare,
            Token::Identifier(s) => TokenView::Identifier(s@),
            Token::BuiltIn(s) => TokenView::BuiltIn(s@),
            Token::Arrow => TokenView::Arrow,
            Token::Integer(s) => TokenView::Integer(s@),
            Token::Real(s) => TokenView::Real(s@),
            Token::Out => TokenView::Out,
            Token::In => TokenView::In,
            Token::Colon => TokenView::Colon,
            Token::DataType(t) => TokenView::DataType(*t),
            Token::NewLine => TokenView::NewLine,
            Token::String(s) => TokenView::String(s@),
            Token::Operator(op) => TokenView::Operator(*op),
            Token::OpenBracket => TokenView::OpenBracket,
            Token::CloseBracket => TokenView::CloseBracket,
            Token::Boolean(b) => TokenView::Boolean(*b),
            Token::If => TokenView::If,
            Token::Next => TokenView::Next,
            Token::Then => TokenView::Then,
            Token::Else => TokenView::Else,
            Token::EndIf => TokenView::EndIf,
            Token::Comma => TokenView::Comma,
            Token::Return => TokenView::Return,
            Token::For => TokenView::For,
            Token::EndFor => TokenView::EndFor,
            Token::To => TokenView::To,
            Token::While => TokenView::While,
            Token::Do => TokenView::Do,
            Token::EndWhile => TokenView::EndWhile,
            Token::Repeat => TokenView::Repeat,
            Token::Until => TokenView::Until,
            Token::Of => TokenView::Of,
            Token::OpenSquare => TokenView::OpenSquare,
            Token::CloseSquare => TokenView::CloseSquare,
        }
    }
}

impl Clone for Token {
    fn clone(&self) -> (r: Self)
        ensures
            r == *self,
    {
        match self {
            Token::Declare => Token::Declare,
            Token::Identifier(s) => Token::Identifier(s.clone()),
            Token::BuiltIn(s) => Token::BuiltIn(s.clone()),
            Token::Arrow => Token::Arrow,
            Token::Integer(s) => Token::Integer(s.clone()),
            Token::Real(s) => Token::Real(s.clone()),
            Token::Out => Token::Out,
            Token::In => Token::In,
            Token::Colon => Token::Colon,
            Token::DataType(t) => Token::DataType(*t),
            Token::NewLine => Token::NewLine,
            Token::String(s) => Token::String(s.clone()),
            Token::Operator(op) => Token::Operator(*op),
            Token::OpenBracket => Token::OpenBracket,
            Token::CloseBracket => Token::CloseBracket,
            Token::Boolean(b) => Token::Boolean(*b),
            Token::If => Token::If,
            Token::Next => Token::Next,
            Token::Then => Token::Then,
            Token::Else => Token::Else,
            Token::EndIf => Token::EndIf,
            Token::Comma => Token::Comma,
            Token::Return => Token::Return,
            Token::For => Token::For,
            Token::EndFor => Token::EndFor,
            Token::To => Token::To,
            Token::While => Token::While,
            Token::Do => Token::Do,
            Token::EndWhile => Token::EndWhile,
            Token::Repeat => Token::Repeat,
            Token::Until => Token::Until,
            Token::Of => Token::Of,
            Token::OpenSquare => Token::OpenSquare,
            Token::CloseSquare => Token::CloseSquare,
        }
    }
}

impl Default for Token {
    /// The empty token is the one that ends a line.
    fn default() -> (r: Self)
        ensures
            r@ == TokenView::NewLine,
    {
        Token::NewLine
    }
}

/// The views of the tokens of a sequence, each with its place.
pub open spec fn tokens_view(tokens: Seq<Spanned<Token>>) -> Seq<(TokenView, Span)> {
    Seq::new(tokens.len(), |i: int| (tokens[i].0@, tokens[i].1))
}

/// An expression.
#[derive(Debug, PartialEq, Eq)]
pub enum Expression {
    Value(Literal),
    Variable(String),
    ArrayIndex(String, Box<Spanned<Expression>>),
    FunctionCall(String, Vec<Spanned<Expression>>),
    Negative(Box<Spanned<Expression>>),
    Operate(Ops, Box<Spanned<Expression>>, Box<Spanned<Expression>>),
    Not(Box<Spanned<Expression>>),
}

/// What an `Expression` is, as a mathematical value.
pub enum ExpressionView {
    Value(LiteralView),
    Variable(Seq<char>),
    ArrayIndex(Seq<char>, Box<(ExpressionView, Span)>),
    FunctionCall(Seq<char>, Seq<(ExpressionView, Span)>),
    Negative(Box<(ExpressionView, Span)>),
    Operate(Ops, Box<(ExpressionView, Span)>, Box<(ExpressionView, Span)>),
    Not(Box<(ExpressionView, Span)>),
}

/// An expression as a mathematical value, with its place.
pub type ExpressionNode = (ExpressionView, Span);

/// The view of an expression.
pub open spec fn expression_view(e: Expression) -> ExpressionView
    decreases e, 0nat,
{
    match e {
        Expression::Value(v) => ExpressionView::Value(v@),
        Expression::Variable(name) => ExpressionView::Variable(name@),
        Expression::ArrayIndex(name, index) => ExpressionView::ArrayIndex(
            name@,
            Box::new((expression_view(index.0), index.1)),
        ),
        Expression::FunctionCall(name, args) => ExpressionView::FunctionCall(
            name@,
            expressions_view(args@),
        ),
        Expression::Negative(inner) => ExpressionView::Negative(
            Box::new((expression_view(inner.0), inner.1)),
        ),
        Expression::Operate(op, a, b) => ExpressionView::Operate(
            op,
            Box::new((expression_view(a.0), a.1)),
            Box::new((expression_view(b.0), b.1)),
        ),
        Expression::Not(inner) => ExpressionView::Not(
            Box::new((expression_view(inner.0), inner.1)),
        ),
    }
}

/// The views of the expressions of a sequence, each with its place.
pub open spec fn expressions_view(es: Seq<Spanned<Expression>>) -> Seq<ExpressionNode>
    decreases es, 1nat,
{
    Seq::new(
        es.len(),
        |i: int|
            if 0 <= i < es.len() {
                (expression_view(es[i].0), es[i].1)
            } else {
                (ExpressionView::Variable(Seq::empty()), Span { start: 0, end: 0 })
            },
    )
}

/// The view of an expression, with its place.
pub open spec fn node_view(e: Spanned<Expression>) -> ExpressionNode {
    (expression_view(e.0), e.1)
}

impl View for Expression {
    type V = ExpressionView;

    open spec fn view(&self) -> ExpressionView {
        expression_view(*self)
    }
}

/// A copy of an expression with its place.
pub fn copy_node(e: &Spanned<Expression>) -> (r: Spanned<Expression>)
    ensures
        node_view(r) == node_view(*e),
    decreases e, 1nat,
{
    (copy_expression(&e.0), e.1)
}

/// A copy of an expression.
pub fn copy_expression(e: &Expression) -> (r: Expression)
    ensures
        r@ == e@,
    decreases e, 0nat,
{
    match e {
        Expression::Value(v) => Expression::Value(v.clone()),
        Expression::Variable(name) => Expression::Variable(name.clone()),
        Expression::ArrayIndex(name, index) => Expression::ArrayIndex(
            name.clone(),
            Box::new(copy_node(&**index)),
        ),
        Expression::FunctionCall(name, args) => Expression::FunctionCall(
            name.clone(),
            copy_nodes(args),
        ),
        Expression::Negative(inner) => Expression::Negative(Box::new(copy_node(&**inner))),
        Expression::Operate(op, a, b) => Expression::Operate(
            *op,
            Box::new(copy_node(&**a)),
            Box::new(copy_node(&**b)),
        ),
        Expression::Not(inner) => Expression::Not(Box::new(copy_node(&**inner))),
    }
}

/// Copies of the expressions of a list.
pub fn copy_nodes(es: &Vec<Spanned<Expression>>) -> (r: Vec<Spanned<Expression>>)
    ensures
        expressions_view(r@) == expressions_view(es@),
    decreases es, 2nat,
{
    let mut out: Vec<Spanned<Expression>> = Vec::new();
    let mut i: usize = 0;
    while i < es.len()
        invariant
            i <= es.len(),
            out.len() == i,
            forall|k: int| 0 <= k < i ==> node_view(#[trigger] out@[k]) == node_view(es@[k]),
        decreases es.len() - i,
    {
        out.push(copy_node(&es[i]));
        i += 1;
    }
    proof {
        assert(expressions_view(out@) =~= expressions_view(es@));
    }
    out
}

impl Clone for Expression {
    fn clone(&self) -> (r: Self)
        ensures
            r@ == self@,
    {
        copy_expression(self)
    }
}

/// A declaration: of one value, or of an array.
#[derive(Debug, PartialEq, Eq)]
pub enum Declare {
    Literal(String, LiteralType),
    Array(String, Bounds, LiteralType),
}

/// What a `Declare` is, as a mathematical value.
pub enum DeclareView {
    Literal(Seq<char>, LiteralType),
    Array(Seq<char>, Bounds, LiteralType),
}

impl Clone for Declare {
    fn clone(&self) -> (r: Self)
        ensures
            r == *self,
    {
        match self {
            Declare::Literal(name, t) => Declare::Literal(name.clone(), *t),
            Declare::Array(name, bounds, t) => Declare::Array(name.clone(), *bounds, *t),
        }
    }
}

impl View for Declare {
    type V = DeclareView;

    open spec fn view(&self) -> DeclareView {
        match self {
            Declare::Literal(name, t) => DeclareView::Literal(name@, *t),
            Declare::Array(name, bounds, t) => DeclareView::Array(name@, *bounds, *t),
        }
    }
}

/// An assignment: to a variable, or to one slot of an array.
#[derive(Debug, PartialEq, Eq)]
pub enum Assign {
    Literal(String, Spanned<Expression>),
    Array(String, Spanned<Expression>, Spanned<Expression>),
}

/// What an `Assign` is, as a mathematical value.
pub enum AssignView {
    Literal(Seq<char>, ExpressionNode),
    Array(Seq<char>, ExpressionNode, ExpressionNode),
}

impl Clone for Assign {
    fn clone(&self) -> (r: Self)
        ensures
            r@ == self@,
    {
        match self {
            Assign::Literal(name, e) => Assign::Literal(name.clone(), copy_node(e)),
            Assign::Array(name, index, e) => Assign::Array(
                name.clone(),
                copy_node(index),
                copy_node(e),
            ),
        }
    }
}

impl View for Assign {
    type V = AssignView;

    open spec fn view(&self) -> AssignView {
        match self {
            Assign::Literal(name, e) => AssignView::Literal(name@, node_view(*e)),
            Assign::Array(name, index, e) => AssignView::Array(
                name@,
                node_view(*index),
                node_view(*e),
            ),
        }
    }
}

/// A statement.
#[derive(Debug, PartialEq, Eq)]
pub enum Statement {
    Declare(Declare),
    Out(Vec<Spanned<Expression>>),
    Assign(Assign),
    In(String),
    If(Spanned<Expression>, Vec<Spanned<Statement>>, Option<Vec<Spanned<Statement>>>),
    ProcedureCall(String, Vec<Spanned<Expression>>),
    Return(Option<Spanned<Expression>>),
    For(String, Spanned<Expression>, Spanned<Expression>, Vec<Spanned<Statement>>),
    While(Spanned<Expression>, Vec<Spanned<Statement>>),
    Repeat(Vec<Spanned<Statement>>, Spanned<Expression>),
}

/// What a `Statement` is, as a mathematical value.
pub enum StatementView {
    Declare(DeclareView),
    Out(Seq<ExpressionNode>),
    Assign(AssignView),
    In(Seq<char>),
    If(ExpressionNode, Seq<(StatementView, Span)>, Option<Seq<(StatementView, Span)>>),
    ProcedureCall(Seq<char>, Seq<ExpressionNode>),
    Return(Option<ExpressionNode>),
    For(Seq<char>, ExpressionNode, ExpressionNode, Seq<(StatementView, Span)>),
    While(ExpressionNode, Seq<(StatementView, Span)>),
    Repeat(Seq<(StatementView, Span)>, ExpressionNode),
}

/// A statement as a mathematical value, with its place.
pub type StatementNode = (StatementView, Span);

/// The view of a statement.
pub open spec fn statement_view(s: Statement) -> StatementView
    decreases s, 0nat,
{
    match s {
        Statement::Declare(d) => StatementView::Declare(d@),
        Statement::Out(es) => StatementView::Out(expressions_view(es@)),
        Statement::Assign(a) => StatementView::Assign(a@),
        Statement::In(name) => StatementView::In(name@),
        Statement::If(c, t, e) => StatementView::If(
            node_view(c),
            statements_view(t@),
            match e {
                Some(block) => Some(statements_view(block@)),
                None => None,
            },
        ),
        Statement::ProcedureCall(name, args) => StatementView::ProcedureCall(
            name@,
            expressions_view(args@),
        ),
        Statement::Return(e) => StatementView::Return(
            match e {
                Some(e) => Some(node_view(e)),
                None => None,
            },
        ),
        Statement::For(name, from, to, body) => StatementView::For(
            name@,
            node_view(from),
            node_view(to),
            statements_view(body@),
        ),
        Statement::While(c, body) => StatementView::While(node_view(c), statements_view(body@)),
        Statement::Repeat(body, c) => StatementView::Repeat(statements_view(body@), node_view(c)),
    }
}

/// The views of the statements of a sequence, each with its place.
pub open spec fn statements_view(ss: Seq<Spanned<Statement>>) -> Seq<StatementNode>
    decreases ss, 1nat,
{
    Seq::new(
        ss.len(),
        |i: int|
            if 0 <= i < ss.len() {
                (statement_view(ss[i].0), ss[i].1)
            } else {
                (StatementView::In(Seq::empty()), Span { start: 0, end: 0 })
            },
    )
}

/// A copy of a statement.
pub fn copy_statement(s: &Statement) -> (r: Statement)
    ensures
        r@ == s@,
    decreases s, 0nat,
{
    match s {
        Statement::Declare(d) => Statement::Declare(d.clone()),
        Statement::Out(es) => Statement::Out(copy_nodes(es)),
        Statement::Assign(a) => Statement::Assign(a.clone()),
        Statement::In(name) => Statement::In(name.clone()),
        Statement::If(c, t, e) => Statement::If(
            copy_node(c),
            copy_statements(t),
            match e {
                Some(block) => Some(copy_statements(block)),
                None => None,
            },
        ),
        Statement::ProcedureCall(name, args) => Statement::ProcedureCall(
            name.clone(),
            copy_nodes(args),
        ),
        Statement::Return(e) => Statement::Return(
            match e {
                Some(e) => Some(copy_node(e)),
                None => None,
            },
        ),
        Statement::For(name, from, to, body) => Statement::For(
            name.clone(),
            copy_node(from),
            copy_node(to),
            copy_statements(body),
        ),
        Statement::While(c, body) => Statement::While(copy_node(c), copy_statements(body)),
        Statement::Repeat(body, c) => Statement::Repeat(copy_statements(body), copy_node(c)),
    }
}

/// Copies of the statements of a block.
pub fn copy_statements(ss: &Vec<Spanned<Statement>>) -> (r: Vec<Spanned<Statement>>)
    ensures
        statements_view(r@) == statements_view(ss@),
    decreases ss, 1nat,
{
    let mut out: Vec<Spanned<Statement>> = Vec::new();
    let mut i: usize = 0;
    while i < ss.len()
        invariant
            i <= ss.len(),
            out.len() == i,
            forall|k: int|
                0 <= k < i ==> statement_view((#[trigger] out@[k]).0) == statement_view(ss@[k].0)
                    && out@[k].1 == ss@[k].1,
        decreases ss.len() - i,
    {
        out.push((copy_statement(&ss[i].0), ss[i].1));
        i += 1;
    }
    proof {
        assert(statements_view(out@) =~= statements_view(ss@));
    }
    out
}

impl Clone for Statement {
    fn clone(&self) -> (r: Self)
        ensures
            r@ == self@,
    {
        copy_statement(self)
    }
}

impl View for Statement {
    type V = StatementView;

    open spec fn view(&self) -> StatementView {
        statement_view(*self)
    }
}

/// What a name is bound to.
#[derive(Debug, PartialEq, Eq)]
pub enum Variable {
    Literal { literal_type: LiteralType, value: Option<Literal>, is_mutable: bool },
    Array { literal_type: LiteralType, bounds: Bounds, values: Vec<Option<Literal>> },
}

/// What a `Variable` is, as a mathematical value.
pub enum VariableView {
    Literal { literal_type: LiteralType, value: Option<LiteralView>, is_mutable: bool },
    Array { literal_type: LiteralType, bounds: Bounds, values: Seq<Option<LiteralView>> },
}

/// The view of a slot of an array.
pub open spec fn slot_view(slot: Option<Literal>) -> Option<LiteralView> {
    match slot {
        Some(v) => Some(v@),
        None => None,
    }
}

/// The views of the slots of an array.
pub open spec fn slots_view(slots: Seq<Option<Literal>>) -> Seq<Option<LiteralView>> {
    Seq::new(slots.len(), |i: int| slot_view(slots[i]))
}

impl View for Variable {
    type V = VariableView;

    open spec fn view(&self) -> VariableView {
        match self {
            Variable::Literal { literal_type, value, is_mutable } => VariableView::Literal {
                literal_type: *literal_type,
                value: slot_view(*value),
                is_mutable: *is_mutable,
            },
            Variable::Array { literal_type, bounds, values } => VariableView::Array {
                literal_type: *literal_type,
                bounds: *bounds,
                values: slots_view(values@),
            },
        }
    }
}

impl Clone for Variable {
    fn clone(&self) -> (r: Self)
        ensures
            r@ == self@,
    {
        match self {
            Variable::Literal { literal_type, value, is_mutable } => Variable::Literal {
                literal_type: *literal_type,
                value: match value {
                    Some(v) => Some(v.clone()),
                    None => None,
                },
                is_mutable: *is_mutable,
            },
            Variable::Array { literal_type, bounds, values } => {
                let mut slots: Vec<Option<Literal>> = Vec::new();
                let mut i: usize = 0;
                while i < values.len()
                    invariant
                        i <= values.len(),
                        slots.len() == i,
                        forall|k: int| 0 <= k < i ==> #[trigger] slots@[k] == values@[k],
                    decreases values.len() - i,
                {
                    slots.push(
                        match &values[i] {
                            Some(v) => Some(v.clone()),
                            None => None,
                        },
                    );
                    i += 1;
                }
                proof {
                    assert(slots_view(slots@) =~= slots_view(values@));
                }
                Variable::Array { literal_type: *literal_type, bounds: *bounds, values: slots }
            },
        }
    }
}

impl VariableView {
    /// A variable that was declared with a type and holds no value yet.
    pub open spec fn declared(literal_type: LiteralType) -> VariableView {
        VariableView::Literal { literal_type, value: None, is_mutable: true }
    }

    /// An array that was declared and of which no slot holds a value yet.
    pub open spec fn declared_array(literal_type: LiteralType, bounds: Bounds) -> VariableView {
        VariableView::Array {
            literal_type,
            bounds,
            values: Seq::new(bounds.count() as nat, |i: int| None),
        }
    }

    /// An array has one slot for each index within its bounds.
    pub open spec fn well_formed(self) -> bool {
        match self {
            VariableView::Literal { literal_type, value, .. } => match value {
                Some(v) => v.literal_type() == literal_type,
                None => true,
            },
            VariableView::Array { literal_type, bounds, values } => {
                &&& bounds.valid()
                &&& values.len() == bounds.count()
                &&& forall|i: int|
                    0 <= i < values.len() ==> match #[trigger] values[i] {
                        Some(v) => v.literal_type() == literal_type,
                        None => true,
                    }
            },
        }
    }
}

impl Variable {
    /// The variable that a declaration of one value makes.
    pub fn declared(literal_type: LiteralType) -> (r: Variable)
        ensures
            r@ == VariableView::declared(literal_type),
    {
        Variable::Literal { literal_type, value: None, is_mutable: true }
    }
}

impl From<&LiteralType> for Variable {
    fn from(literal_type: &LiteralType) -> (r: Variable) {
        Variable::Literal { literal_type: *literal_type, value: None, is_mutable: true }
    }
}

impl vstd::std_specs::convert::FromSpecImpl<&LiteralType> for Variable {
    open spec fn obeys_from_spec() -> bool {
        true
    }

    open spec fn from_spec(literal_type: &LiteralType) -> Variable {
        Variable::Literal { literal_type: *literal_type, value: None, is_mutable: true }
    }
}

/// A parameter of a callable: its name and its type.
#[derive(Debug, PartialEq, Eq)]
pub struct Parameter {
    pub name: String,
    pub literal_type: LiteralType,
}

impl Clone for Parameter {
    fn clone(&self) -> (r: Self)
        ensures
            r == *self,
    {
        Parameter { name: self.name.clone(), literal_type: self.literal_type }
    }
}

impl View for Parameter {
    type V = (Seq<char>, LiteralType);

    open spec fn view(&self) -> (Seq<char>, LiteralType) {
        (self.name@, self.literal_type)
    }
}

/// The native callables that a program can name.
#[derive(Clone, Copy, Debug, PartialEq, Eq, Hash, Structural)]
pub enum Native {
    StrToNum,
    NumToStr,
    RandomBetween,
}

/// Something that a program can call by name.
#[derive(Clone, Copy, Debug, PartialEq, Eq, Hash, Structural)]
pub enum Function {
    BuiltIn(Native),
}

/// Why an evaluation stopped before its end.
#[derive(Debug, PartialEq, Eq)]
pub enum Execution {
    NotFound(String),
    NotAssigned(String),
    IncorrectType(DataTypes, DataTypes),
    BinaryNotSupported(Ops, DataTypes, DataTypes),
    UnaryNotSupported(Ops, DataTypes),
    AlreadyDeclared(String),
    IncorrectNumberArguments(String, usize, usize),
    CanNotCallReturn,
    CanNotParse(String),
    AssignToConstant(String),
    InvalidBounds(Bounds),
    OutOfBounds(String, usize),
    NegativeIndex(String, isize),
    IndexNotAssigned(String, usize),
    /// Integer division or remainder by zero.
    DivisionByZero,
    /// A random integer was asked for from a range that holds none.
    EmptyRange(isize, isize),
    /// The named construct is recognised and not carried out.
    NotSupported(String),
    /// The evaluation has used up the loop iterations it was allowed.
    StepLimit,
    /// The evaluation cannot go on before the host has answered the request.
    Waiting(Request),
    /// The answer that the host gave does not answer the request.
    BadAnswer(Request),
}

/// What an `Execution` is, as a mathematical value.
pub enum ExecutionView {
    NotFound(Seq<char>),
    NotAssigned(Seq<char>),
    IncorrectType(DataTypes, DataTypes),
    BinaryNotSupported(Ops, DataTypes, DataTypes),
    UnaryNotSupported(Ops, DataTypes),
    AlreadyDeclared(Seq<char>),
    IncorrectNumberArguments(Seq<char>, usize, usize),
    CanNotCallReturn,
    CanNotParse(Seq<char>),
    AssignToConstant(Seq<char>),
    InvalidBounds(Bounds),
    OutOfBounds(Seq<char>, usize),
    NegativeIndex(Seq<char>, isize),
    IndexNotAssigned(Seq<char>, usize),
    DivisionByZero,
    EmptyRange(isize, isize),
    NotSupported(Seq<char>),
    StepLimit,
    Waiting(RequestView),
    BadAnswer(RequestView),
}

impl View for Execution {
    type V = ExecutionView;

    open spec fn view(&self) -> ExecutionView {
        match self {
            Execution::NotFound(s) => ExecutionView::NotFound(s@),
            Execution::NotAssigned(s) => ExecutionView::NotAssigned(s@),
            Execution::IncorrectType(a, b) => ExecutionView::IncorrectType(*a, *b),
            Execution::BinaryNotSupported(op, a, b) => ExecutionView::BinaryNotSupported(
                *op,
                *a,
                *b,
            ),
            Execution::UnaryNotSupported(op, a) => ExecutionView::UnaryNotSupported(*op, *a),
            Execution::AlreadyDeclared(s) => ExecutionView::AlreadyDeclared(s@),
            Execution::IncorrectNumberArguments(s, a, b) => ExecutionView::IncorrectNumberArguments(
                s@,
                *a,
                *b,
            ),
            Execution::CanNotCallReturn => ExecutionView::CanNotCallReturn,
            Execution::CanNotParse(s) => ExecutionView::CanNotParse(s@),
            Execution::AssignToConstant(s) => ExecutionView::AssignToConstant(s@),
            Execution::InvalidBounds(b) => ExecutionView::InvalidBounds(*b),
            Execution::OutOfBounds(s, i) => ExecutionView::OutOfBounds(s@, *i),
            Execution::NegativeIndex(s, i) => ExecutionView::NegativeIndex(s@, *i),
            Execution::IndexNotAssigned(s, i) => ExecutionView::IndexNotAssigned(s@, *i),
            Execution::DivisionByZero => ExecutionView::DivisionByZero,
            Execution::EmptyRange(a, b) => ExecutionView::EmptyRange(*a, *b),
            Execution::NotSupported(s) => ExecutionView::NotSupported(s@),
            Execution::StepLimit => ExecutionView::StepLimit,
            Execution::Waiting(r) => ExecutionView::Waiting(r@),
            Execution::BadAnswer(r) => ExecutionView::BadAnswer(r@),
        }
    }
}

/// `Ok` with the first type where the two are the same, and else the error
/// that names the first as the type expected and the second as the one
/// received.
pub open spec fn match_literal_spec(a: LiteralType, b: LiteralType) -> Result<
    LiteralType,
    ExecutionView,
> {
    if a == b {
        Ok(a)
    } else {
        Err(ExecutionView::IncorrectType(DataTypes::Literal(a), DataTypes::Literal(b)))
    }
}

/// What `view` is on a result of `match_literal`.
pub open spec fn type_result_view(r: Result<LiteralType, Execution>) -> Result<
    LiteralType,
    ExecutionView,
> {
    match r {
        Ok(t) => Ok(t),
        Err(e) => Err(e@),
    }
}

/// Checks that a value of type `b` can stand where one of type `a` is
/// expected.
pub fn match_literal(a: &LiteralType, b: &LiteralType) -> (r: Result<LiteralType, Execution>)
    ensures
        type_result_view(r) == match_literal_spec(*a, *b),
{
    if *a == *b {
        Ok(*a)
    } else {
        Err(Execution::IncorrectType(DataTypes::Literal(*a), DataTypes::Literal(*b)))
    }
}

} // verus!
