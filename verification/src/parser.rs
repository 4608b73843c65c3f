//! The parser: from the tokens of a program to its statements, by recursive
//! descent, with the binary operators folded tier by tier.

use vstd::prelude::*;
use crate::ast::{
    Assign,
    AssignView,
    Bounds,
    DataTypes,
    Declare,
    DeclareView,
    Expression,
    ExpressionNode,
    ExpressionView,
    Literal,
    LiteralType,
    LiteralView,
    Ops,
    Real,
    Span,
    Spanned,
    Statement,
    StatementNode,
    StatementView,
    Token,
    TokenView,
    expressions_view,
    node_view,
    statement_view,
    statements_view,
    tokens_view,
};
use crate::text::{chars_of, parse_isize, parse_usize, read_isize, read_usize};

verus! {

/// What the parser looked for at the place of an error.
#[derive(Clone, Copy, Debug, PartialEq, Eq, Structural)]
pub enum Expected {
    Statement,
    Expression,
    Identifier,
    /// The name of a type of values.
    LiteralType,
    /// An integer that an `isize` holds.
    Integer,
    /// A bound of an array: an integer that a `usize` holds.
    Count,
    Colon,
    Arrow,
    OpenBracket,
    CloseBracket,
    OpenSquare,
    CloseSquare,
    Of,
    Then,
    EndIf,
    To,
    Do,
    /// `ENDFOR` or `NEXT`.
    EndFor,
    EndWhile,
    Until,
    /// The end of the statement: a new line or the end of the program.
    LineEnd,
}

/// A token that the grammar has no place for.
#[derive(Debug, PartialEq, Eq)]
pub struct SyntaxError {
    /// The place of the token in the text, or the end of the program.
    pub span: Span,
    /// The place of the token among the tokens.
    pub index: usize,
    /// The token, or `None` at the end of the program.
    pub found: Option<Token>,
    pub expected: Expected,
}

/// What a `SyntaxError` is, as a mathematical value.
pub struct SyntaxErrorView {
    pub span: Span,
    pub index: int,
    pub found: Option<TokenView>,
    pub expected: Expected,
}

impl View for SyntaxError {
    type V = SyntaxErrorView;

    open spec fn view(&self) -> SyntaxErrorView {
        SyntaxErrorView {
            span: self.span,
            index: self.index as int,
            found: match self.found {
                Some(t) => Some(t@),
                None => None,
            },
            expected: self.expected,
        }
    }
}

/// The tokens of a program as mathematical values, each with its place.
pub type Tokens = Seq<(TokenView, Span)>;

/// What a rule of the grammar gives: what it read and the place after it,
/// or the error.
pub type Parsed<T> = Result<(T, int), SyntaxErrorView>;

/// The token at a place.
pub open spec fn peek(tokens: Tokens, pos: int) -> Option<TokenView> {
    if 0 <= pos < tokens.len() {
        Some(tokens[pos].0)
    } else {
        None
    }
}

/// The place in the text of the token at a place, and after the last token
/// the empty place at the end of the text.
pub open spec fn span_at(tokens: Tokens, pos: int) -> Span {
    if 0 <= pos < tokens.len() {
        tokens[pos].1
    } else if tokens.len() > 0 {
        Span { start: tokens.last().1.end, end: tokens.last().1.end }
    } else {
        Span { start: 0, end: 0 }
    }
}

/// The error of a token that stands where something else was looked for.
pub open spec fn error_at(tokens: Tokens, pos: int, expected: Expected) -> SyntaxErrorView {
    SyntaxErrorView { span: span_at(tokens, pos), index: pos, found: peek(tokens, pos), expected }
}

/// The place after a token that is to stand at a place.
pub open spec fn expect_spec(tokens: Tokens, pos: int, wanted: TokenView, expected: Expected)
    -> Result<int, SyntaxErrorView> {
    if peek(tokens, pos) == Some(wanted) {
        Ok(pos + 1)
    } else {
        Err(error_at(tokens, pos, expected))
    }
}

/// The name that is to stand at a place.
pub open spec fn name_at(tokens: Tokens, pos: int) -> Result<Seq<char>, SyntaxErrorView> {
    match peek(tokens, pos) {
        Some(TokenView::Identifier(name)) => Ok(name),
        _ => Err(error_at(tokens, pos, Expected::Identifier)),
    }
}

/// What a rule gives where it went forward from the place it started at,
/// and else an error: no rule stands still.
pub open spec fn forward<T>(r: Parsed<T>, tokens: Tokens, pos: int) -> Parsed<T> {
    match r {
        Ok((v, p)) => if pos < p <= tokens.len() {
            Ok((v, p))
        } else {
            Err(error_at(tokens, pos, Expected::Expression))
        },
        Err(e) => Err(e),
    }
}

/// Whether an operator belongs to a tier of the binary operators: the
/// products are tier 1 and bind tightest, the sums are tier 2, the
/// comparisons tier 3.
pub open spec fn tier_has(tier: nat, op: Ops) -> bool {
    if tier == 1 {
        op.is_product()
    } else if tier == 2 {
        op.is_sum()
    } else if tier == 3 {
        op.is_compare()
    } else {
        false
    }
}

/// The place from the start of one expression to the end of another.
pub open spec fn cover(a: Span, b: Span) -> Span {
    Span { start: a.start, end: b.end }
}

/// An expression: the operators of the loosest tier between operands of
/// the tier below.
pub open spec fn parse_expression(tokens: Tokens, pos: int) -> Parsed<ExpressionNode>
    decreases tokens.len() - pos, 10nat,
{
    parse_tier(tokens, pos, 3)
}

/// The operands of a tier with the operators of the tier between them,
/// folded from the left.
pub open spec fn parse_tier(tokens: Tokens, pos: int, tier: nat) -> Parsed<ExpressionNode>
    decreases tokens.len() - pos, 2 * tier + 3,
{
    if tier == 0 || tier > 3 {
        Err(error_at(tokens, pos, Expected::Expression))
    } else {
        let first = if tier == 1 {
            parse_unary(tokens, pos)
        } else {
            parse_tier(tokens, pos, (tier - 1) as nat)
        };
        match forward(first, tokens, pos) {
            Err(e) => Err(e),
            Ok((left, p)) => fold_tier(tokens, p, tier, left),
        }
    }
}

/// What follows the first operand of a tier: as long as an operator of the
/// tier stands there, the operand after it is read and both become one
/// expression, whose place reaches from the start of the left operand to
/// the end of the right one.
pub open spec fn fold_tier(tokens: Tokens, pos: int, tier: nat, left: ExpressionNode) -> Parsed<
    ExpressionNode,
>
    decreases tokens.len() - pos, 2 * tier + 2,
{
    if tier == 0 || tier > 3 {
        Err(error_at(tokens, pos, Expected::Expression))
    } else {
        match peek(tokens, pos) {
            Some(TokenView::Operator(op)) => if tier_has(tier, op) {
                let next = if tier == 1 {
                    parse_unary(tokens, pos + 1)
                } else {
                    parse_tier(tokens, pos + 1, (tier - 1) as nat)
                };
                match forward(next, tokens, pos + 1) {
                    Err(e) => Err(e),
                    Ok((right, p)) => fold_tier(
                        tokens,
                        p,
                        tier,
                        (
                            ExpressionView::Operate(op, Box::new(left), Box::new(right)),
                            cover(left.1, right.1),
                        ),
                    ),
                }
            } else {
                Ok((left, pos))
            },
            _ => Ok((left, pos)),
        }
    }
}

/// An operand with its prefixes: any number of minus signs, or any number
/// of `NOT`, before an atom.
pub open spec fn parse_unary(tokens: Tokens, pos: int) -> Parsed<ExpressionNode>
    decreases tokens.len() - pos, 3nat,
{
    match peek(tokens, pos) {
        Some(TokenView::Operator(Ops::Minus)) => parse_prefixed(tokens, pos, Ops::Minus),
        Some(TokenView::Operator(Ops::Not)) => parse_prefixed(tokens, pos, Ops::Not),
        _ => parse_atom(tokens, pos),
    }
}

/// Any number of one prefix before an atom. Each prefix makes one
/// expression of what follows it.
pub open spec fn parse_prefixed(tokens: Tokens, pos: int, prefix: Ops) -> Parsed<ExpressionNode>
    decreases tokens.len() - pos, 2nat,
{
    if peek(tokens, pos) == Some(TokenView::Operator(prefix)) {
        match forward(parse_prefixed(tokens, pos + 1, prefix), tokens, pos + 1) {
            Err(e) => Err(e),
            Ok((inner, p)) => Ok(
                (
                    (
                        if prefix == Ops::Minus {
                            ExpressionView::Negative(Box::new(inner))
                        } else {
                            ExpressionView::Not(Box::new(inner))
                        },
                        cover(tokens[pos].1, inner.1),
                    ),
                    p,
                ),
            ),
        }
    } else {
        parse_atom(tokens, pos)
    }
}

/// An atom: a literal, a variable, a slot of an array, a call, or an
/// expression in brackets.
pub open spec fn parse_atom(tokens: Tokens, pos: int) -> Parsed<ExpressionNode>
    decreases tokens.len() - pos, 1nat,
{
    match peek(tokens, pos) {
        Some(TokenView::Integer(text)) => match parse_isize(text) {
            Some(n) => Ok(
                ((ExpressionView::Value(LiteralView::Integer(n)), tokens[pos].1), pos + 1),
            ),
            None => Err(error_at(tokens, pos, Expected::Integer)),
        },
        Some(TokenView::Real(text)) => Ok(
            ((ExpressionView::Value(LiteralView::Real(text)), tokens[pos].1), pos + 1),
        ),
        Some(TokenView::String(text)) => Ok(
            ((ExpressionView::Value(LiteralView::String(text)), tokens[pos].1), pos + 1),
        ),
        Some(TokenView::Boolean(b)) => Ok(
            ((ExpressionView::Value(LiteralView::Bool(b)), tokens[pos].1), pos + 1),
        ),
        Some(TokenView::Identifier(name)) => match peek(tokens, pos + 1) {
            Some(TokenView::OpenSquare) => match forward(
                parse_expression(tokens, pos + 2),
                tokens,
                pos + 2,
            ) {
                Err(e) => Err(e),
                Ok((index, p)) => match expect_spec(
                    tokens,
                    p,
                    TokenView::CloseSquare,
                    Expected::CloseSquare,
                ) {
                    Err(e) => Err(e),
                    Ok(end) => Ok(
                        (
                            (
                                ExpressionView::ArrayIndex(name, Box::new(index)),
                                cover(tokens[pos].1, tokens[p].1),
                            ),
                            end,
                        ),
                    ),
                },
            },
            Some(TokenView::OpenBracket) => parse_call(tokens, pos, name),
            _ => Ok(((ExpressionView::Variable(name), tokens[pos].1), pos + 1)),
        },
        Some(TokenView::BuiltIn(name)) => match peek(tokens, pos + 1) {
            Some(TokenView::OpenBracket) => parse_call(tokens, pos, name),
            _ => Err(error_at(tokens, pos + 1, Expected::OpenBracket)),
        },
        Some(TokenView::OpenBracket) => match forward(
            parse_expression(tokens, pos + 1),
            tokens,
            pos + 1,
        ) {
            Err(e) => Err(e),
            Ok((inner, p)) => match expect_spec(
                tokens,
                p,
                TokenView::CloseBracket,
                Expected::CloseBracket,
            ) {
                Err(e) => Err(e),
                Ok(end) => Ok((inner, end)),
            },
        },
        _ => Err(error_at(tokens, pos, Expected::Expression)),
    }
}

/// A call: the name stands at `pos`, the opening bracket after it, then the
/// arguments with commas between them, then the closing bracket.
pub open spec fn parse_call(tokens: Tokens, pos: int, name: Seq<char>) -> Parsed<ExpressionNode>
    decreases tokens.len() - pos, 0nat,
{
    if pos < 0 || pos + 1 >= tokens.len() {
        Err(error_at(tokens, pos + 1, Expected::OpenBracket))
    } else {
        match parse_arguments(tokens, pos + 2) {
            Err(e) => Err(e),
            Ok((args, end)) => if pos + 2 < end <= tokens.len() {
                Ok(
                    (
                        (
                            ExpressionView::FunctionCall(name, args),
                            cover(tokens[pos].1, tokens[end - 1].1),
                        ),
                        end,
                    ),
                )
            } else {
                Err(error_at(tokens, pos, Expected::CloseBracket))
            },
        }
    }
}

/// The arguments of a call from the place after the opening bracket, up to
/// and with the closing bracket.
pub open spec fn parse_arguments(tokens: Tokens, pos: int) -> Parsed<Seq<ExpressionNode>>
    decreases tokens.len() - pos, 12nat,
{
    if peek(tokens, pos) == Some(TokenView::CloseBracket) {
        Ok((Seq::empty(), pos + 1))
    } else {
        match forward(parse_expression(tokens, pos), tokens, pos) {
            Err(e) => Err(e),
            Ok((first, p)) => parse_more_arguments(tokens, p, seq![first]),
        }
    }
}

/// What follows an argument: a comma and another argument, or the closing
/// bracket.
pub open spec fn parse_more_arguments(tokens: Tokens, pos: int, args: Seq<ExpressionNode>)
    -> Parsed<Seq<ExpressionNode>>
    decreases tokens.len() - pos, 11nat,
{
    match peek(tokens, pos) {
        Some(TokenView::Comma) => match forward(
            parse_expression(tokens, pos + 1),
            tokens,
            pos + 1,
        ) {
            Err(e) => Err(e),
            Ok((next, p)) => parse_more_arguments(tokens, p, args.push(next)),
        },
        Some(TokenView::CloseBracket) => Ok((args, pos + 1)),
        _ => Err(error_at(tokens, pos, Expected::CloseBracket)),
    }
}

/// Whether two tokens are the same.
pub fn same_token(a: &Token, b: &Token) -> (r: bool)
    ensures
        r == (a@ == b@),
{
    match (a, b) {
        (Token::Declare, Token::Declare) => true,
        (Token::Identifier(x), Token::Identifier(y)) => *x == *y,
        (Token::BuiltIn(x), Token::BuiltIn(y)) => *x == *y,
        (Token::Arrow, Token::Arrow) => true,
        (Token::Integer(x), Token::Integer(y)) => *x == *y,
        (Token::Real(x), Token::Real(y)) => *x == *y,
        (Token::Out, Token::Out) => true,
        (Token::In, Token::In) => true,
        (Token::Colon, Token::Colon) => true,
        (Token::DataType(x), Token::DataType(y)) => *x == *y,
        (Token::NewLine, Token::NewLine) => true,
        (Token::String(x), Token::String(y)) => *x == *y,
        (Token::Operator(x), Token::Operator(y)) => *x == *y,
        (Token::OpenBracket, Token::OpenBracket) => true,
        (Token::CloseBracket, Token::CloseBracket) => true,
        (Token::Boolean(x), Token::Boolean(y)) => *x == *y,
        (Token::If, Token::If) => true,
        (Token::Next, Token::Next) => true,
        (Token::Then, Token::Then) => true,
        (Token::Else, Token::Else) => true,
        (Token::EndIf, Token::EndIf) => true,
        (Token::Comma, Token::Comma) => true,
        (Token::Return, Token::Return) => true,
        (Token::For, Token::For) => true,
        (Token::EndFor, Token::EndFor) => true,
        (Token::To, Token::To) => true,
        (Token::While, Token::While) => true,
        (Token::Do, Token::Do) => true,
        (Token::EndWhile, Token::EndWhile) => true,
        (Token::Repeat, Token::Repeat) => true,
        (Token::Until, Token::Until) => true,
        (Token::Of, Token::Of) => true,
        (Token::OpenSquare, Token::OpenSquare) => true,
        (Token::CloseSquare, Token::CloseSquare) => true,
        _ => false,
    }
}

/// The token at a place.
pub fn look(tokens: &Vec<Spanned<Token>>, pos: usize) -> (r: Option<&Token>)
    ensures
        match r {
            Some(t) => pos < tokens.len() && *t == tokens[pos as int].0 && peek(
                tokens_view(tokens@),
                pos as int,
            ) == Some(t@),
            None => pos >= tokens.len() && peek(tokens_view(tokens@), pos as int) is None,
        },
{
    if pos < tokens.len() {
        Some(&tokens[pos].0)
    } else {
        None
    }
}

/// The place in the text of the token at a place.
pub fn place(tokens: &Vec<Spanned<Token>>, pos: usize) -> (r: Span)
    ensures
        r == span_at(tokens_view(tokens@), pos as int),
{
    if pos < tokens.len() {
        tokens[pos].1
    } else if tokens.len() > 0 {
        let end: usize = tokens[tokens.len() - 1].1.end;
        Span { start: end, end }
    } else {
        Span { start: 0, end: 0 }
    }
}

/// The error of a token that stands where something else was looked for.
pub fn unexpected(tokens: &Vec<Spanned<Token>>, pos: usize, expected: Expected) -> (r: SyntaxError)
    ensures
        r@ == error_at(tokens_view(tokens@), pos as int, expected),
{
    let found = match look(tokens, pos) {
        Some(t) => Some(t.clone()),
        None => None,
    };
    SyntaxError { span: place(tokens, pos), index: pos, found, expected }
}

/// What `view` is on a place or an error.
pub open spec fn place_view(r: Result<usize, SyntaxError>) -> Result<int, SyntaxErrorView> {
    match r {
        Ok(p) => Ok(p as int),
        Err(e) => Err(e@),
    }
}

/// What `view` is on a name or an error.
pub open spec fn name_view(r: Result<String, SyntaxError>) -> Result<Seq<char>, SyntaxErrorView> {
    match r {
        Ok(s) => Ok(s@),
        Err(e) => Err(e@),
    }
}

/// What `view` is on an expression with the place after it, or an error.
pub open spec fn parsed_expression_view(r: Result<(Spanned<Expression>, usize), SyntaxError>)
    -> Parsed<ExpressionNode> {
    match r {
        Ok((e, p)) => Ok((node_view(e), p as int)),
        Err(e) => Err(e@),
    }
}

/// What `view` is on a list of expressions with the place after it, or an
/// error.
pub open spec fn parsed_expressions_view(
    r: Result<(Vec<Spanned<Expression>>, usize), SyntaxError>,
) -> Parsed<Seq<ExpressionNode>> {
    match r {
        Ok((es, p)) => Ok((expressions_view(es@), p as int)),
        Err(e) => Err(e@),
    }
}

/// The place after a token that is to stand at a place.
pub fn expect(tokens: &Vec<Spanned<Token>>, pos: usize, wanted: &Token, expected: Expected) -> (r:
    Result<usize, SyntaxError>)
    ensures
        place_view(r) == expect_spec(tokens_view(tokens@), pos as int, wanted@, expected),
        r is Ok ==> pos < tokens.len(),
{
    match look(tokens, pos) {
        Some(t) => if same_token(t, wanted) {
            Ok(pos + 1)
        } else {
            Err(unexpected(tokens, pos, expected))
        },
        None => Err(unexpected(tokens, pos, expected)),
    }
}

/// The name that is to stand at a place.
pub fn identifier(tokens: &Vec<Spanned<Token>>, pos: usize) -> (r: Result<String, SyntaxError>)
    ensures
        name_view(r) == name_at(tokens_view(tokens@), pos as int),
        r is Ok ==> pos < tokens.len(),
{
    match look(tokens, pos) {
        Some(Token::Identifier(name)) => Ok(name.clone()),
        _ => Err(unexpected(tokens, pos, Expected::Identifier)),
    }
}

/// Whether an operator belongs to a tier of the binary operators.
pub fn in_tier(level: u8, op: Ops) -> (r: bool)
    ensures
        r == tier_has(level as nat, op),
{
    if level == 1 {
        op.product()
    } else if level == 2 {
        op.sum()
    } else if level == 3 {
        op.compare()
    } else {
        false
    }
}

/// Reads an expression.
pub fn expression(tokens: &Vec<Spanned<Token>>, pos: usize) -> (r: Result<
    (Spanned<Expression>, usize),
    SyntaxError,
>)
    ensures
        parsed_expression_view(r) == parse_expression(tokens_view(tokens@), pos as int),
        match r {
            Ok((_, p)) => pos < p <= tokens.len(),
            Err(_) => true,
        },
    decreases tokens.len() - pos, 10nat,
{
    tier(tokens, pos, 3)
}

/// Reads the operands of a tier with the operators between them.
fn tier(tokens: &Vec<Spanned<Token>>, pos: usize, level: u8) -> (r: Result<
    (Spanned<Expression>, usize),
    SyntaxError,
>)
    requires
        1 <= level <= 3,
    ensures
        parsed_expression_view(r) == parse_tier(tokens_view(tokens@), pos as int, level as nat),
        match r {
            Ok((_, p)) => pos < p <= tokens.len(),
            Err(_) => true,
        },
    decreases tokens.len() - pos, 2 * level + 3,
{
    let first = if level == 1 {
        unary(tokens, pos)
    } else {
        tier(tokens, pos, level - 1)
    };
    let (mut left, mut p) = match first {
        Err(e) => {
            return Err(e);
        },
        Ok(found) => found,
    };
    loop
        invariant
            pos < p <= tokens.len(),
            1 <= level <= 3,
            fold_tier(tokens_view(tokens@), p as int, level as nat, node_view(left)) == parse_tier(
                tokens_view(tokens@),
                pos as int,
                level as nat,
            ),
        decreases tokens.len() - p,
    {
        let op: Ops = match look(tokens, p) {
            Some(Token::Operator(op)) => *op,
            _ => {
                return Ok((left, p));
            },
        };
        if !in_tier(level, op) {
            return Ok((left, p));
        }
        let next = if level == 1 {
            unary(tokens, p + 1)
        } else {
            tier(tokens, p + 1, level - 1)
        };
        match next {
            Err(e) => {
                return Err(e);
            },
            Ok((right, q)) => {
                let span = Span { start: left.1.start, end: right.1.end };
                left = (Expression::Operate(op, Box::new(left), Box::new(right)), span);
                p = q;
            },
        }
    }
}

/// Reads an operand with its prefixes.
pub fn unary(tokens: &Vec<Spanned<Token>>, pos: usize) -> (r: Result<
    (Spanned<Expression>, usize),
    SyntaxError,
>)
    ensures
        parsed_expression_view(r) == parse_unary(tokens_view(tokens@), pos as int),
        match r {
            Ok((_, p)) => pos < p <= tokens.len(),
            Err(_) => true,
        },
    decreases tokens.len() - pos, 3nat,
{
    match look(tokens, pos) {
        Some(Token::Operator(Ops::Minus)) => prefixed(tokens, pos, Ops::Minus),
        Some(Token::Operator(Ops::Not)) => prefixed(tokens, pos, Ops::Not),
        _ => atom(tokens, pos),
    }
}

/// Reads any number of one prefix and the atom after them.
pub fn prefixed(tokens: &Vec<Spanned<Token>>, pos: usize, prefix: Ops) -> (r: Result<
    (Spanned<Expression>, usize),
    SyntaxError,
>)
    ensures
        parsed_expression_view(r) == parse_prefixed(tokens_view(tokens@), pos as int, prefix),
        match r {
            Ok((_, p)) => pos < p <= tokens.len(),
            Err(_) => true,
        },
    decreases tokens.len() - pos, 2nat,
{
    let here: bool = match look(tokens, pos) {
        Some(Token::Operator(op)) => *op == prefix,
        _ => false,
    };
    if !here {
        return atom(tokens, pos);
    }
    match prefixed(tokens, pos + 1, prefix) {
        Err(e) => Err(e),
        Ok((inner, p)) => {
            let span = Span { start: tokens[pos].1.start, end: inner.1.end };
            let node = match prefix {
                Ops::Minus => Expression::Negative(Box::new(inner)),
                _ => Expression::Not(Box::new(inner)),
            };
            Ok(((node, span), p))
        },
    }
}

/// Reads an atom.
pub fn atom(tokens: &Vec<Spanned<Token>>, pos: usize) -> (r: Result<
    (Spanned<Expression>, usize),
    SyntaxError,
>)
    ensures
        parsed_expression_view(r) == parse_atom(tokens_view(tokens@), pos as int),
        match r {
            Ok((_, p)) => pos < p <= tokens.len(),
            Err(_) => true,
        },
    decreases tokens.len() - pos, 1nat,
{
    match look(tokens, pos) {
        Some(Token::Integer(text)) => match read_isize(&chars_of(text.as_str())) {
            Some(n) => Ok(((Expression::Value(Literal::Integer(n)), tokens[pos].1), pos + 1)),
            None => Err(unexpected(tokens, pos, Expected::Integer)),
        },
        Some(Token::Real(text)) => Ok(
            ((Expression::Value(Literal::Real(Real::new(text.clone()))), tokens[pos].1), pos + 1),
        ),
        Some(Token::String(text)) => Ok(
            ((Expression::Value(Literal::String(text.clone())), tokens[pos].1), pos + 1),
        ),
        Some(Token::Boolean(b)) => Ok(
            ((Expression::Value(Literal::Bool(*b)), tokens[pos].1), pos + 1),
        ),
        Some(Token::Identifier(name)) => match look(tokens, pos + 1) {
            Some(Token::OpenSquare) => match expression(tokens, pos + 2) {
                Err(e) => Err(e),
                Ok((index, p)) => match expect(
                    tokens,
                    p,
                    &Token::CloseSquare,
                    Expected::CloseSquare,
                ) {
                    Err(e) => Err(e),
                    Ok(end) => {
                        let span = Span { start: tokens[pos].1.start, end: tokens[p].1.end };
                        Ok(((Expression::ArrayIndex(name.clone(), Box::new(index)), span), end))
                    },
                },
            },
            Some(Token::OpenBracket) => call_at(tokens, pos, name),
            _ => Ok(((Expression::Variable(name.clone()), tokens[pos].1), pos + 1)),
        },
        Some(Token::BuiltIn(name)) => match look(tokens, pos + 1) {
            Some(Token::OpenBracket) => call_at(tokens, pos, name),
            _ => Err(unexpected(tokens, pos + 1, Expected::OpenBracket)),
        },
        Some(Token::OpenBracket) => match expression(tokens, pos + 1) {
            Err(e) => Err(e),
            Ok((inner, p)) => match expect(
                tokens,
                p,
                &Token::CloseBracket,
                Expected::CloseBracket,
            ) {
                Err(e) => Err(e),
                Ok(end) => Ok((inner, end)),
            },
        },
        _ => Err(unexpected(tokens, pos, Expected::Expression)),
    }
}

/// Reads a call whose name stands at `pos`.
fn call_at(tokens: &Vec<Spanned<Token>>, pos: usize, name: &String) -> (r: Result<
    (Spanned<Expression>, usize),
    SyntaxError,
>)
    requires
        pos + 1 < tokens.len(),
    ensures
        parsed_expression_view(r) == parse_call(tokens_view(tokens@), pos as int, name@),
        match r {
            Ok((_, p)) => pos < p <= tokens.len(),
            Err(_) => true,
        },
    decreases tokens.len() - pos, 0nat,
{
    match arguments(tokens, pos + 2) {
        Err(e) => Err(e),
        Ok((args, end)) => {
            let span = Span { start: tokens[pos].1.start, end: tokens[end - 1].1.end };
            Ok(((Expression::FunctionCall(name.clone(), args), span), end))
        },
    }
}

/// Reads the arguments of a call, up to and with the closing bracket.
fn arguments(tokens: &Vec<Spanned<Token>>, pos: usize) -> (r: Result<
    (Vec<Spanned<Expression>>, usize),
    SyntaxError,
>)
    requires
        pos <= tokens.len(),
    ensures
        parsed_expressions_view(r) == parse_arguments(tokens_view(tokens@), pos as int),
        match r {
            Ok((_, p)) => pos < p <= tokens.len(),
            Err(_) => true,
        },
    decreases tokens.len() - pos, 12nat,
{
    let mut args: Vec<Spanned<Expression>> = Vec::new();
    match look(tokens, pos) {
        Some(Token::CloseBracket) => {
            proof {
                assert(expressions_view(args@) =~= Seq::empty());
            }
            return Ok((args, pos + 1));
        },
        _ => {},
    }
    let mut p: usize = match expression(tokens, pos) {
        Err(e) => {
            return Err(e);
        },
        Ok((first, p)) => {
            proof {
                assert(expressions_view(args@.push(first)) =~= seq![node_view(first)]);
            }
            args.push(first);
            p
        },
    };
    loop
        invariant
            pos < p <= tokens.len(),
            parse_more_arguments(tokens_view(tokens@), p as int, expressions_view(args@))
                == parse_arguments(tokens_view(tokens@), pos as int),
        decreases tokens.len() - p,
    {
        match look(tokens, p) {
            Some(Token::Comma) => match expression(tokens, p + 1) {
                Err(e) => {
                    return Err(e);
                },
                Ok((next, q)) => {
                    proof {
                        assert(expressions_view(args@.push(next)) =~= expressions_view(args@).push(
                            node_view(next),
                        ));
                    }
                    args.push(next);
                    p = q;
                },
            },
            Some(Token::CloseBracket) => {
                return Ok((args, p + 1));
            },
            _ => {
                return Err(unexpected(tokens, p, Expected::CloseBracket));
            },
        }
    }
}

/// How many `NewLine` tokens follow one another from a place on.
pub open spec fn newlines(tokens: Tokens, pos: int) -> nat
    decreases tokens.len() - pos,
{
    if peek(tokens, pos) == Some(TokenView::NewLine) {
        1 + newlines(tokens, pos + 1)
    } else {
        0
    }
}

/// Whether a statement can start with a token.
pub open spec fn starts_statement(token: Option<TokenView>) -> bool {
    match token {
        Some(TokenView::Declare) | Some(TokenView::Identifier(_)) | Some(TokenView::Out) | Some(
            TokenView::In,
        ) | Some(TokenView::If) | Some(TokenView::Return) | Some(TokenView::For) | Some(
            TokenView::While,
        ) | Some(TokenView::Repeat) => true,
        _ => false,
    }
}

/// Whether an expression can start with a token.
pub open spec fn starts_expression(token: Option<TokenView>) -> bool {
    match token {
        Some(TokenView::Operator(op)) => op == Ops::Minus || op == Ops::Not,
        Some(TokenView::Integer(_)) | Some(TokenView::Real(_)) | Some(TokenView::String(_)) | Some(
            TokenView::Boolean(_),
        ) | Some(TokenView::Identifier(_)) | Some(TokenView::BuiltIn(_)) | Some(
            TokenView::OpenBracket,
        ) => true,
        _ => false,
    }
}

/// The bound of an array that is to stand at a place.
pub open spec fn count_at(tokens: Tokens, pos: int) -> Result<usize, SyntaxErrorView> {
    match peek(tokens, pos) {
        Some(TokenView::Integer(text)) => match parse_usize(text) {
            Some(n) => Ok(n),
            None => Err(error_at(tokens, pos, Expected::Count)),
        },
        _ => Err(error_at(tokens, pos, Expected::Count)),
    }
}

/// The type of values that is to be named at a place.
pub open spec fn type_at(tokens: Tokens, pos: int) -> Result<LiteralType, SyntaxErrorView> {
    match peek(tokens, pos) {
        Some(TokenView::DataType(DataTypes::Literal(t))) => Ok(t),
        _ => Err(error_at(tokens, pos, Expected::LiteralType)),
    }
}

/// What follows `ARRAY` in a declaration: the bounds in square brackets
/// with a colon between them, `OF`, and the type of the elements.
#[verifier::opaque]
pub open spec fn parse_array(tokens: Tokens, pos: int, name: Seq<char>) -> Parsed<StatementView> {
    match expect_spec(tokens, pos, TokenView::OpenSquare, Expected::OpenSquare) {
        Err(e) => Err(e),
        Ok(_) => match count_at(tokens, pos + 1) {
            Err(e) => Err(e),
            Ok(lower) => match expect_spec(tokens, pos + 2, TokenView::Colon, Expected::Colon) {
                Err(e) => Err(e),
                Ok(_) => match count_at(tokens, pos + 3) {
                    Err(e) => Err(e),
                    Ok(upper) => match expect_spec(
                        tokens,
                        pos + 4,
                        TokenView::CloseSquare,
                        Expected::CloseSquare,
                    ) {
                        Err(e) => Err(e),
                        Ok(_) => match expect_spec(tokens, pos + 5, TokenView::Of, Expected::Of) {
                            Err(e) => Err(e),
                            Ok(_) => match type_at(tokens, pos + 6) {
                                Err(e) => Err(e),
                                Ok(t) => Ok(
                                    (
                                        StatementView::Declare(
                                            DeclareView::Array(name, Bounds { lower, upper }, t),
                                        ),
                                        pos + 7,
                                    ),
                                ),
                            },
                        },
                    },
                },
            },
        },
    }
}

/// A declaration: `DECLARE`, a name, a colon, and the type of a value or
/// that of an array.
#[verifier::opaque]
pub open spec fn parse_declare(tokens: Tokens, pos: int) -> Parsed<StatementView> {
    match name_at(tokens, pos + 1) {
        Err(e) => Err(e),
        Ok(name) => match expect_spec(tokens, pos + 2, TokenView::Colon, Expected::Colon) {
            Err(e) => Err(e),
            Ok(_) => match peek(tokens, pos + 3) {
                Some(TokenView::DataType(DataTypes::Literal(t))) => Ok(
                    (StatementView::Declare(DeclareView::Literal(name, t)), pos + 4),
                ),
                Some(TokenView::DataType(DataTypes::Array)) => parse_array(tokens, pos + 4, name),
                _ => Err(error_at(tokens, pos + 3, Expected::LiteralType)),
            },
        },
    }
}

/// A statement that starts with a name: an assignment to a variable, an
/// assignment to a slot of an array, or the call of a procedure.
#[verifier::opaque]
pub open spec fn parse_named(tokens: Tokens, pos: int, name: Seq<char>) -> Parsed<StatementView> {
    match peek(tokens, pos + 1) {
        Some(TokenView::Arrow) => match parse_expression(tokens, pos + 2) {
            Err(e) => Err(e),
            Ok((e, p)) => Ok((StatementView::Assign(AssignView::Literal(name, e)), p)),
        },
        Some(TokenView::OpenSquare) => match parse_expression(tokens, pos + 2) {
            Err(e) => Err(e),
            Ok((index, p)) => match expect_spec(
                tokens,
                p,
                TokenView::CloseSquare,
                Expected::CloseSquare,
            ) {
                Err(e) => Err(e),
                Ok(_) => match expect_spec(tokens, p + 1, TokenView::Arrow, Expected::Arrow) {
                    Err(e) => Err(e),
                    Ok(_) => match parse_expression(tokens, p + 2) {
                        Err(e) => Err(e),
                        Ok((e, q)) => Ok(
                            (StatementView::Assign(AssignView::Array(name, index, e)), q),
                        ),
                    },
                },
            },
        },
        Some(TokenView::OpenBracket) => match parse_arguments(tokens, pos + 2) {
            Err(e) => Err(e),
            Ok((args, p)) => Ok((StatementView::ProcedureCall(name, args), p)),
        },
        _ => Err(error_at(tokens, pos + 1, Expected::Arrow)),
    }
}

/// What follows an expression of `OUTPUT`: any number of times, a comma
/// and another expression.
pub open spec fn parse_more_outputs(tokens: Tokens, pos: int, es: Seq<ExpressionNode>) -> Parsed<
    Seq<ExpressionNode>,
>
    decreases tokens.len() - pos,
{
    match peek(tokens, pos) {
        Some(TokenView::Comma) => match forward(
            parse_expression(tokens, pos + 1),
            tokens,
            pos + 1,
        ) {
            Err(e) => Err(e),
            Ok((next, p)) => parse_more_outputs(tokens, p, es.push(next)),
        },
        _ => Ok((es, pos)),
    }
}

/// The statement that the expressions of `OUTPUT` make.
pub open spec fn output_of(r: Parsed<Seq<ExpressionNode>>) -> Parsed<StatementView> {
    match r {
        Err(e) => Err(e),
        Ok((es, q)) => Ok((StatementView::Out(es), q)),
    }
}

/// `OUTPUT` and one or more expressions with commas between them.
#[verifier::opaque]
pub open spec fn parse_out(tokens: Tokens, pos: int) -> Parsed<StatementView> {
    match parse_expression(tokens, pos + 1) {
        Err(e) => Err(e),
        Ok((first, p)) => output_of(parse_more_outputs(tokens, p, seq![first])),
    }
}

/// `RETURN`, and an expression where one starts after it.
#[verifier::opaque]
pub open spec fn parse_return(tokens: Tokens, pos: int) -> Parsed<StatementView> {
    if starts_expression(peek(tokens, pos + 1)) {
        match parse_expression(tokens, pos + 1) {
            Err(e) => Err(e),
            Ok((e, p)) => Ok((StatementView::Return(Some(e)), p)),
        }
    } else {
        Ok((StatementView::Return(None), pos + 1))
    }
}

/// The place after the new lines that are to stand at a place: at least
/// one.
pub open spec fn line_break_at(tokens: Tokens, pos: int) -> Result<int, SyntaxErrorView> {
    if newlines(tokens, pos) > 0 {
        Ok(pos + newlines(tokens, pos))
    } else {
        Err(error_at(tokens, pos, Expected::LineEnd))
    }
}

/// A statement with what ends it: new lines, or the end of the program.
/// The place of the statement reaches from its first token to its last.
pub open spec fn parse_statement(tokens: Tokens, pos: int) -> Parsed<StatementNode>
    decreases tokens.len() - pos, 2nat,
{
    match forward(parse_body(tokens, pos), tokens, pos) {
        Err(e) => Err(e),
        Ok((body, p)) => if p >= tokens.len() || peek(tokens, p) == Some(TokenView::NewLine) {
            Ok(((body, cover(tokens[pos].1, tokens[p - 1].1)), p + newlines(tokens, p)))
        } else {
            Err(error_at(tokens, p, Expected::LineEnd))
        },
    }
}

/// A statement without what ends it. Its first token says which statement
/// it is.
pub open spec fn parse_body(tokens: Tokens, pos: int) -> Parsed<StatementView>
    decreases tokens.len() - pos, 1nat,
{
    match peek(tokens, pos) {
        Some(TokenView::Declare) => parse_declare(tokens, pos),
        Some(TokenView::Identifier(name)) => parse_named(tokens, pos, name),
        Some(TokenView::Out) => parse_out(tokens, pos),
        Some(TokenView::In) => match name_at(tokens, pos + 1) {
            Err(e) => Err(e),
            Ok(name) => Ok((StatementView::In(name), pos + 2)),
        },
        Some(TokenView::Return) => parse_return(tokens, pos),
        Some(TokenView::If) => parse_if(tokens, pos),
        Some(TokenView::For) => parse_for(tokens, pos),
        Some(TokenView::While) => parse_while(tokens, pos),
        Some(TokenView::Repeat) => parse_repeat(tokens, pos),
        _ => Err(error_at(tokens, pos, Expected::Statement)),
    }
}

/// The statements of a block from a place on, added to those that are
/// there already: as many as start there, and at least one in all.
pub open spec fn parse_block(tokens: Tokens, pos: int, block: Seq<StatementNode>) -> Parsed<
    Seq<StatementNode>,
>
    decreases tokens.len() - pos, 3nat,
{
    if starts_statement(peek(tokens, pos)) {
        match forward(parse_statement(tokens, pos), tokens, pos) {
            Err(e) => Err(e),
            Ok((s, p)) => parse_block(tokens, p, block.push(s)),
        }
    } else if block.len() == 0 {
        Err(error_at(tokens, pos, Expected::Statement))
    } else {
        Ok((block, pos))
    }
}

/// `IF`, a condition, `THEN`, a block, and `ENDIF`, with `ELSE` and another
/// block before it where the tokens say so. New lines may stand before and
/// after `THEN`, after `ELSE`, and before `ENDIF` where there is an `ELSE`.
pub open spec fn parse_if(tokens: Tokens, pos: int) -> Parsed<StatementView>
    decreases tokens.len() - pos, 0nat,
{
    match forward(parse_expression(tokens, pos + 1), tokens, pos + 1) {
        Err(e) => Err(e),
        Ok((c, p)) => match expect_spec(
            tokens,
            p + newlines(tokens, p),
            TokenView::Then,
            Expected::Then,
        ) {
            Err(e) => Err(e),
            Ok(q) => match (if pos < q + newlines(tokens, q) <= tokens.len() {
                parse_block(tokens, q + newlines(tokens, q), Seq::empty())
            } else {
                Err(error_at(tokens, q, Expected::Statement))
            }) {
                Err(e) => Err(e),
                Ok((then_block, b)) => if peek(tokens, b) == Some(TokenView::Else) {
                    match (if pos < b + 1 + newlines(tokens, b + 1) <= tokens.len() {
                        parse_block(tokens, b + 1 + newlines(tokens, b + 1), Seq::empty())
                    } else {
                        Err(error_at(tokens, b + 1, Expected::Statement))
                    }) {
                        Err(e) => Err(e),
                        Ok((else_block, d)) => match expect_spec(
                            tokens,
                            d + newlines(tokens, d),
                            TokenView::EndIf,
                            Expected::EndIf,
                        ) {
                            Err(e) => Err(e),
                            Ok(end) => Ok((StatementView::If(c, then_block, Some(else_block)), end)),
                        },
                    }
                } else {
                    match expect_spec(tokens, b, TokenView::EndIf, Expected::EndIf) {
                        Err(e) => Err(e),
                        Ok(end) => Ok((StatementView::If(c, then_block, None), end)),
                    }
                },
            },
        },
    }
}

/// `FOR`, a name, the arrow, the first value, `TO`, the last value, a new
/// line, a block, and `ENDFOR` or `NEXT`, after which a name may stand.
pub open spec fn parse_for(tokens: Tokens, pos: int) -> Parsed<StatementView>
    decreases tokens.len() - pos, 0nat,
{
    match name_at(tokens, pos + 1) {
        Err(e) => Err(e),
        Ok(name) => match expect_spec(tokens, pos + 2, TokenView::Arrow, Expected::Arrow) {
            Err(e) => Err(e),
            Ok(_) => match forward(parse_expression(tokens, pos + 3), tokens, pos + 3) {
                Err(e) => Err(e),
                Ok((from, p)) => match expect_spec(tokens, p, TokenView::To, Expected::To) {
                    Err(e) => Err(e),
                    Ok(_) => match forward(parse_expression(tokens, p + 1), tokens, p + 1) {
                        Err(e) => Err(e),
                        Ok((to, q)) => match line_break_at(tokens, q) {
                            Err(e) => Err(e),
                            Ok(r) => match (if pos < r <= tokens.len() {
                                parse_block(tokens, r, Seq::empty())
                            } else {
                                Err(error_at(tokens, r, Expected::Statement))
                            }) {
                                Err(e) => Err(e),
                                Ok((body, b)) => if peek(tokens, b) == Some(TokenView::EndFor)
                                    || peek(tokens, b) == Some(TokenView::Next) {
                                    Ok(
                                        (
                                            StatementView::For(name, from, to, body),
                                            match peek(tokens, b + 1) {
                                                Some(TokenView::Identifier(_)) => b + 2,
                                                _ => b + 1,
                                            },
                                        ),
                                    )
                                } else {
                                    Err(error_at(tokens, b, Expected::EndFor))
                                },
                            },
                        },
                    },
                },
            },
        },
    }
}

/// `WHILE`, a condition, `DO`, a new line, a block, and `ENDWHILE`.
pub open spec fn parse_while(tokens: Tokens, pos: int) -> Parsed<StatementView>
    decreases tokens.len() - pos, 0nat,
{
    match forward(parse_expression(tokens, pos + 1), tokens, pos + 1) {
        Err(e) => Err(e),
        Ok((c, p)) => match expect_spec(tokens, p, TokenView::Do, Expected::Do) {
            Err(e) => Err(e),
            Ok(_) => match line_break_at(tokens, p + 1) {
                Err(e) => Err(e),
                Ok(r) => match (if pos < r <= tokens.len() {
                    parse_block(tokens, r, Seq::empty())
                } else {
                    Err(error_at(tokens, r, Expected::Statement))
                }) {
                    Err(e) => Err(e),
                    Ok((body, b)) => match expect_spec(
                        tokens,
                        b,
                        TokenView::EndWhile,
                        Expected::EndWhile,
                    ) {
                        Err(e) => Err(e),
                        Ok(end) => Ok((StatementView::While(c, body), end)),
                    },
                },
            },
        },
    }
}

/// `REPEAT`, a new line, a block, `UNTIL`, and a condition.
pub open spec fn parse_repeat(tokens: Tokens, pos: int) -> Parsed<StatementView>
    decreases tokens.len() - pos, 0nat,
{
    match line_break_at(tokens, pos + 1) {
        Err(e) => Err(e),
        Ok(r) => match (if pos < r <= tokens.len() {
            parse_block(tokens, r, Seq::empty())
        } else {
            Err(error_at(tokens, r, Expected::Statement))
        }) {
            Err(e) => Err(e),
            Ok((body, b)) => match expect_spec(tokens, b, TokenView::Until, Expected::Until) {
                Err(e) => Err(e),
                Ok(_) => match parse_expression(tokens, b + 1) {
                    Err(e) => Err(e),
                    Ok((c, end)) => Ok((StatementView::Repeat(body, c), end)),
                },
            },
        },
    }
}

/// The place of the first `NewLine` token at or after a place, or the end
/// of the tokens.
pub open spec fn line_end_from(tokens: Tokens, pos: int) -> int
    decreases tokens.len() - pos,
{
    if pos < 0 || pos >= tokens.len() {
        pos
    } else if tokens[pos].0 == TokenView::NewLine {
        pos
    } else {
        line_end_from(tokens, pos + 1)
    }
}

/// The place at which the parser goes on after an error in the statement
/// that starts at `pos`: after the end of the line that the error stands in.
pub open spec fn resume_at(tokens: Tokens, pos: int, error: SyntaxErrorView) -> int {
    let from = if error.index > pos {
        error.index
    } else {
        pos
    };
    let end = line_end_from(tokens, from);
    end + newlines(tokens, end)
}

/// The statements and the errors of a program from a place on, added to
/// those that are there already, up to the end of the tokens. After an
/// error the parser goes on with the next line.
pub open spec fn parse_program(
    tokens: Tokens,
    pos: int,
    program: Seq<StatementNode>,
    errors: Seq<SyntaxErrorView>,
) -> (Seq<StatementNode>, Seq<SyntaxErrorView>)
    decreases tokens.len() - pos,
{
    if pos < 0 || pos >= tokens.len() {
        (program, errors)
    } else {
        match forward(parse_statement(tokens, pos), tokens, pos) {
            Ok((s, p)) => parse_program(tokens, p, program.push(s), errors),
            Err(e) => {
                let next = resume_at(tokens, pos, e);
                if pos < next <= tokens.len() {
                    parse_program(tokens, next, program, errors.push(e))
                } else {
                    (program, errors.push(e))
                }
            },
        }
    }
}

/// The statements that a sequence of tokens is the text of, or, where the
/// grammar has no place for a token, the first such token of each statement
/// that the parser came to.
pub open spec fn parse(tokens: Tokens) -> Result<Seq<StatementNode>, Seq<SyntaxErrorView>> {
    let (program, errors) = parse_program(tokens, 0, Seq::empty(), Seq::empty());
    if errors.len() == 0 {
        Ok(program)
    } else {
        Err(errors)
    }
}

/// What `view` is on a statement without its place, with the place after
/// it, or an error.
pub open spec fn parsed_body_view(r: Result<(Statement, usize), SyntaxError>) -> Parsed<
    StatementView,
> {
    match r {
        Ok((s, p)) => Ok((statement_view(s), p as int)),
        Err(e) => Err(e@),
    }
}

/// What `view` is on a statement with the place after it, or an error.
pub open spec fn parsed_statement_view(r: Result<(Spanned<Statement>, usize), SyntaxError>)
    -> Parsed<StatementNode> {
    match r {
        Ok((s, p)) => Ok(((statement_view(s.0), s.1), p as int)),
        Err(e) => Err(e@),
    }
}

/// What `view` is on a block with the place after it, or an error.
pub open spec fn parsed_block_view(r: Result<(Vec<Spanned<Statement>>, usize), SyntaxError>)
    -> Parsed<Seq<StatementNode>> {
    match r {
        Ok((b, p)) => Ok((statements_view(b@), p as int)),
        Err(e) => Err(e@),
    }
}

/// What `view` is on a bound or an error.
pub open spec fn count_view(r: Result<usize, SyntaxError>) -> Result<usize, SyntaxErrorView> {
    match r {
        Ok(n) => Ok(n),
        Err(e) => Err(e@),
    }
}

/// What `view` is on a type or an error.
pub open spec fn type_view(r: Result<LiteralType, SyntaxError>) -> Result<
    LiteralType,
    SyntaxErrorView,
> {
    match r {
        Ok(t) => Ok(t),
        Err(e) => Err(e@),
    }
}

/// The views of the errors of a sequence.
pub open spec fn errors_view(errors: Seq<SyntaxError>) -> Seq<SyntaxErrorView> {
    Seq::new(errors.len(), |i: int| errors[i]@)
}

/// What `view` is on the result of the parser.
pub open spec fn program_view(r: Result<Vec<Spanned<Statement>>, Vec<SyntaxError>>) -> Result<
    Seq<StatementNode>,
    Seq<SyntaxErrorView>,
> {
    match r {
        Ok(program) => Ok(statements_view(program@)),
        Err(errors) => Err(errors_view(errors@)),
    }
}

/// The place after the new lines that start at a place.
fn skip_lines(tokens: &Vec<Spanned<Token>>, pos: usize) -> (r: usize)
    requires
        pos <= tokens.len(),
    ensures
        r == pos + newlines(tokens_view(tokens@), pos as int),
        pos <= r <= tokens.len(),
{
    let mut p: usize = pos;
    loop
        invariant
            pos <= p <= tokens.len(),
            p + newlines(tokens_view(tokens@), p as int) == pos + newlines(
                tokens_view(tokens@),
                pos as int,
            ),
        decreases tokens.len() - p,
    {
        match look(tokens, p) {
            Some(Token::NewLine) => {
                p += 1;
            },
            _ => {
                return p;
            },
        }
    }
}

/// The place after the new lines that are to stand at a place.
fn line_break(tokens: &Vec<Spanned<Token>>, pos: usize) -> (r: Result<usize, SyntaxError>)
    requires
        pos <= tokens.len(),
    ensures
        place_view(r) == line_break_at(tokens_view(tokens@), pos as int),
        match r {
            Ok(p) => pos < p <= tokens.len(),
            Err(_) => true,
        },
{
    let p = skip_lines(tokens, pos);
    if p > pos {
        Ok(p)
    } else {
        Err(unexpected(tokens, pos, Expected::LineEnd))
    }
}

/// The bound of an array that is to stand at a place.
pub fn count(tokens: &Vec<Spanned<Token>>, pos: usize) -> (r: Result<usize, SyntaxError>)
    ensures
        count_view(r) == count_at(tokens_view(tokens@), pos as int),
        r is Ok ==> pos < tokens.len(),
{
    match look(tokens, pos) {
        Some(Token::Integer(text)) => match read_usize(&chars_of(text.as_str())) {
            Some(n) => Ok(n),
            None => Err(unexpected(tokens, pos, Expected::Count)),
        },
        _ => Err(unexpected(tokens, pos, Expected::Count)),
    }
}

/// The type of values that is to be named at a place.
pub fn literal_type(tokens: &Vec<Spanned<Token>>, pos: usize) -> (r: Result<
    LiteralType,
    SyntaxError,
>)
    ensures
        type_view(r) == type_at(tokens_view(tokens@), pos as int),
        r is Ok ==> pos < tokens.len(),
{
    match look(tokens, pos) {
        Some(Token::DataType(DataTypes::Literal(t))) => Ok(*t),
        _ => Err(unexpected(tokens, pos, Expected::LiteralType)),
    }
}

/// Reads what follows `ARRAY` in a declaration.
fn array(tokens: &Vec<Spanned<Token>>, pos: usize, name: String) -> (r: Result<
    (Statement, usize),
    SyntaxError,
>)
    requires
        pos <= tokens.len(),
    ensures
        parsed_body_view(r) == parse_array(tokens_view(tokens@), pos as int, name@),
        match r {
            Ok((_, p)) => pos < p <= tokens.len(),
            Err(_) => true,
        },
{
    proof {
        reveal(parse_array);
    }
    match expect(tokens, pos, &Token::OpenSquare, Expected::OpenSquare) {
        Err(e) => {
            return Err(e);
        },
        Ok(_) => {},
    }
    let lower: usize = match count(tokens, pos + 1) {
        Err(e) => {
            return Err(e);
        },
        Ok(n) => n,
    };
    match expect(tokens, pos + 2, &Token::Colon, Expected::Colon) {
        Err(e) => {
            return Err(e);
        },
        Ok(_) => {},
    }
    let upper: usize = match count(tokens, pos + 3) {
        Err(e) => {
            return Err(e);
        },
        Ok(n) => n,
    };
    match expect(tokens, pos + 4, &Token::CloseSquare, Expected::CloseSquare) {
        Err(e) => {
            return Err(e);
        },
        Ok(_) => {},
    }
    match expect(tokens, pos + 5, &Token::Of, Expected::Of) {
        Err(e) => {
            return Err(e);
        },
        Ok(_) => {},
    }
    match literal_type(tokens, pos + 6) {
        Err(e) => Err(e),
        Ok(t) => Ok((Statement::Declare(Declare::Array(name, Bounds { lower, upper }, t)), pos + 7)),
    }
}

/// Reads a declaration, of which `DECLARE` stands at `pos`.
fn declaration(tokens: &Vec<Spanned<Token>>, pos: usize) -> (r: Result<
    (Statement, usize),
    SyntaxError,
>)
    requires
        pos < tokens.len(),
    ensures
        parsed_body_view(r) == parse_declare(tokens_view(tokens@), pos as int),
        match r {
            Ok((_, p)) => pos < p <= tokens.len(),
            Err(_) => true,
        },
{
    proof {
        reveal(parse_declare);
    }
    let name = match identifier(tokens, pos + 1) {
        Err(e) => {
            return Err(e);
        },
        Ok(name) => name,
    };
    match expect(tokens, pos + 2, &Token::Colon, Expected::Colon) {
        Err(e) => {
            return Err(e);
        },
        Ok(_) => {},
    }
    match look(tokens, pos + 3) {
        Some(Token::DataType(DataTypes::Literal(t))) => Ok(
            (Statement::Declare(Declare::Literal(name, *t)), pos + 4),
        ),
        Some(Token::DataType(DataTypes::Array)) => array(tokens, pos + 4, name),
        _ => Err(unexpected(tokens, pos + 3, Expected::LiteralType)),
    }
}

/// Reads a statement that starts with a name, which stands at `pos`.
fn named(tokens: &Vec<Spanned<Token>>, pos: usize, name: &String) -> (r: Result<
    (Statement, usize),
    SyntaxError,
>)
    requires
        pos < tokens.len(),
    ensures
        parsed_body_view(r) == parse_named(tokens_view(tokens@), pos as int, name@),
        match r {
            Ok((_, p)) => pos < p <= tokens.len(),
            Err(_) => true,
        },
{
    proof {
        reveal(parse_named);
    }
    match look(tokens, pos + 1) {
        Some(Token::Arrow) => match expression(tokens, pos + 2) {
            Err(e) => Err(e),
            Ok((e, p)) => Ok((Statement::Assign(Assign::Literal(name.clone(), e)), p)),
        },
        Some(Token::OpenSquare) => {
            let (index, p) = match expression(tokens, pos + 2) {
                Err(e) => {
                    return Err(e);
                },
                Ok(found) => found,
            };
            match expect(tokens, p, &Token::CloseSquare, Expected::CloseSquare) {
                Err(e) => {
                    return Err(e);
                },
                Ok(_) => {},
            }
            match expect(tokens, p + 1, &Token::Arrow, Expected::Arrow) {
                Err(e) => {
                    return Err(e);
                },
                Ok(_) => {},
            }
            match expression(tokens, p + 2) {
                Err(e) => Err(e),
                Ok((e, q)) => Ok((Statement::Assign(Assign::Array(name.clone(), index, e)), q)),
            }
        },
        Some(Token::OpenBracket) => match arguments(tokens, pos + 2) {
            Err(e) => Err(e),
            Ok((args, p)) => Ok((Statement::ProcedureCall(name.clone(), args), p)),
        },
        _ => Err(unexpected(tokens, pos + 1, Expected::Arrow)),
    }
}

/// Reads `OUTPUT` and its expressions.
fn outputs(tokens: &Vec<Spanned<Token>>, pos: usize) -> (r: Result<
    (Statement, usize),
    SyntaxError,
>)
    requires
        pos < tokens.len(),
    ensures
        parsed_body_view(r) == parse_out(tokens_view(tokens@), pos as int),
        match r {
            Ok((_, p)) => pos < p <= tokens.len(),
            Err(_) => true,
        },
{
    proof {
        reveal(parse_out);
    }
    let mut es: Vec<Spanned<Expression>> = Vec::new();
    let mut p: usize = match expression(tokens, pos + 1) {
        Err(e) => {
            return Err(e);
        },
        Ok((first, p)) => {
            proof {
                assert(expressions_view(es@.push(first)) =~= seq![node_view(first)]);
            }
            es.push(first);
            p
        },
    };
    loop
        invariant
            pos < p <= tokens.len(),
            output_of(parse_more_outputs(tokens_view(tokens@), p as int, expressions_view(es@)))
                == parse_out(tokens_view(tokens@), pos as int),
        decreases tokens.len() - p,
    {
        match look(tokens, p) {
            Some(Token::Comma) => match expression(tokens, p + 1) {
                Err(e) => {
                    return Err(e);
                },
                Ok((next, q)) => {
                    proof {
                        assert(expressions_view(es@.push(next)) =~= expressions_view(es@).push(
                            node_view(next),
                        ));
                    }
                    es.push(next);
                    p = q;
                },
            },
            _ => {
                return Ok((Statement::Out(es), p));
            },
        }
    }
}

/// Whether an expression can start with the token at a place.
pub fn expression_starts(tokens: &Vec<Spanned<Token>>, pos: usize) -> (r: bool)
    ensures
        r == starts_expression(peek(tokens_view(tokens@), pos as int)),
{
    match look(tokens, pos) {
        Some(Token::Operator(op)) => match op {
            Ops::Minus | Ops::Not => true,
            _ => false,
        },
        Some(Token::Integer(_)) | Some(Token::Real(_)) | Some(Token::String(_)) | Some(
            Token::Boolean(_),
        ) | Some(Token::Identifier(_)) | Some(Token::BuiltIn(_)) | Some(Token::OpenBracket) => true,
        _ => false,
    }
}

/// Whether a statement can start with the token at a place.
pub fn statement_starts(tokens: &Vec<Spanned<Token>>, pos: usize) -> (r: bool)
    ensures
        r == starts_statement(peek(tokens_view(tokens@), pos as int)),
        r ==> pos < tokens.len(),
{
    match look(tokens, pos) {
        Some(Token::Declare) | Some(Token::Identifier(_)) | Some(Token::Out) | Some(Token::In)
        | Some(Token::If) | Some(Token::Return) | Some(Token::For) | Some(Token::While) | Some(
            Token::Repeat,
        ) => true,
        _ => false,
    }
}

/// Reads `RETURN` and the expression after it, where there is one.
fn returning(tokens: &Vec<Spanned<Token>>, pos: usize) -> (r: Result<
    (Statement, usize),
    SyntaxError,
>)
    requires
        pos < tokens.len(),
    ensures
        parsed_body_view(r) == parse_return(tokens_view(tokens@), pos as int),
        match r {
            Ok((_, p)) => pos < p <= tokens.len(),
            Err(_) => true,
        },
{
    proof {
        reveal(parse_return);
    }
    if expression_starts(tokens, pos + 1) {
        match expression(tokens, pos + 1) {
            Err(e) => Err(e),
            Ok((e, p)) => Ok((Statement::Return(Some(e)), p)),
        }
    } else {
        Ok((Statement::Return(None), pos + 1))
    }
}

/// Reads a statement with what ends it.
pub fn statement(tokens: &Vec<Spanned<Token>>, pos: usize) -> (r: Result<
    (Spanned<Statement>, usize),
    SyntaxError,
>)
    ensures
        parsed_statement_view(r) == parse_statement(tokens_view(tokens@), pos as int),
        match r {
            Ok((_, p)) => pos < p <= tokens.len(),
            Err(_) => true,
        },
    decreases tokens.len() - pos, 2nat,
{
    match body(tokens, pos) {
        Err(e) => Err(e),
        Ok((found, p)) => {
            let at_end: bool = match look(tokens, p) {
                Some(Token::NewLine) => true,
                Some(_) => false,
                None => true,
            };
            if at_end {
                let span = Span { start: tokens[pos].1.start, end: tokens[p - 1].1.end };
                Ok(((found, span), skip_lines(tokens, p)))
            } else {
                Err(unexpected(tokens, p, Expected::LineEnd))
            }
        },
    }
}

/// Reads a statement without what ends it.
pub fn body(tokens: &Vec<Spanned<Token>>, pos: usize) -> (r: Result<(Statement, usize), SyntaxError>)
    ensures
        parsed_body_view(r) == parse_body(tokens_view(tokens@), pos as int),
        match r {
            Ok((_, p)) => pos < p <= tokens.len(),
            Err(_) => true,
        },
    decreases tokens.len() - pos, 1nat,
{
    match look(tokens, pos) {
        Some(Token::Declare) => declaration(tokens, pos),
        Some(Token::Identifier(name)) => named(tokens, pos, name),
        Some(Token::Out) => outputs(tokens, pos),
        Some(Token::In) => match identifier(tokens, pos + 1) {
            Err(e) => Err(e),
            Ok(name) => Ok((Statement::In(name), pos + 2)),
        },
        Some(Token::Return) => returning(tokens, pos),
        Some(Token::If) => branch(tokens, pos),
        Some(Token::For) => for_loop(tokens, pos),
        Some(Token::While) => while_loop(tokens, pos),
        Some(Token::Repeat) => repeat_loop(tokens, pos),
        _ => Err(unexpected(tokens, pos, Expected::Statement)),
    }
}

/// Reads the statements of a block.
fn block(tokens: &Vec<Spanned<Token>>, pos: usize) -> (r: Result<
    (Vec<Spanned<Statement>>, usize),
    SyntaxError,
>)
    requires
        pos <= tokens.len(),
    ensures
        parsed_block_view(r) == parse_block(tokens_view(tokens@), pos as int, Seq::empty()),
        match r {
            Ok((_, p)) => pos < p <= tokens.len(),
            Err(_) => true,
        },
    decreases tokens.len() - pos, 3nat,
{
    let mut found: Vec<Spanned<Statement>> = Vec::new();
    let mut p: usize = pos;
    proof {
        assert(statements_view(found@) =~= Seq::empty());
    }
    loop
        invariant
            pos <= p <= tokens.len(),
            found.len() > 0 ==> pos < p,
            parse_block(tokens_view(tokens@), p as int, statements_view(found@)) == parse_block(
                tokens_view(tokens@),
                pos as int,
                Seq::empty(),
            ),
        decreases tokens.len() - p,
    {
        if statement_starts(tokens, p) {
            match statement(tokens, p) {
                Err(e) => {
                    return Err(e);
                },
                Ok((s, q)) => {
                    proof {
                        assert(statements_view(found@.push(s)) =~= statements_view(found@).push(
                            (statement_view(s.0), s.1),
                        ));
                    }
                    found.push(s);
                    p = q;
                },
            }
        } else if found.len() == 0 {
            return Err(unexpected(tokens, p, Expected::Statement));
        } else {
            return Ok((found, p));
        }
    }
}

/// Reads an `IF` statement, of which `IF` stands at `pos`.
fn branch(tokens: &Vec<Spanned<Token>>, pos: usize) -> (r: Result<
    (Statement, usize),
    SyntaxError,
>)
    requires
        pos < tokens.len(),
    ensures
        parsed_body_view(r) == parse_if(tokens_view(tokens@), pos as int),
        match r {
            Ok((_, p)) => pos < p <= tokens.len(),
            Err(_) => true,
        },
    decreases tokens.len() - pos, 0nat,
{
    let (c, p) = match expression(tokens, pos + 1) {
        Err(e) => {
            return Err(e);
        },
        Ok(found) => found,
    };
    let q: usize = match expect(tokens, skip_lines(tokens, p), &Token::Then, Expected::Then) {
        Err(e) => {
            return Err(e);
        },
        Ok(q) => q,
    };
    let (then_block, b) = match block(tokens, skip_lines(tokens, q)) {
        Err(e) => {
            return Err(e);
        },
        Ok(found) => found,
    };
    let with_else: bool = match look(tokens, b) {
        Some(Token::Else) => true,
        _ => false,
    };
    if with_else {
        let (else_block, d) = match block(tokens, skip_lines(tokens, b + 1)) {
            Err(e) => {
                return Err(e);
            },
            Ok(found) => found,
        };
        match expect(tokens, skip_lines(tokens, d), &Token::EndIf, Expected::EndIf) {
            Err(e) => Err(e),
            Ok(end) => Ok((Statement::If(c, then_block, Some(else_block)), end)),
        }
    } else {
        match expect(tokens, b, &Token::EndIf, Expected::EndIf) {
            Err(e) => Err(e),
            Ok(end) => Ok((Statement::If(c, then_block, None), end)),
        }
    }
}

/// Reads a `FOR` loop, of which `FOR` stands at `pos`.
fn for_loop(tokens: &Vec<Spanned<Token>>, pos: usize) -> (r: Result<
    (Statement, usize),
    SyntaxError,
>)
    requires
        pos < tokens.len(),
    ensures
        parsed_body_view(r) == parse_for(tokens_view(tokens@), pos as int),
        match r {
            Ok((_, p)) => pos < p <= tokens.len(),
            Err(_) => true,
        },
    decreases tokens.len() - pos, 0nat,
{
    let name = match identifier(tokens, pos + 1) {
        Err(e) => {
            return Err(e);
        },
        Ok(name) => name,
    };
    match expect(tokens, pos + 2, &Token::Arrow, Expected::Arrow) {
        Err(e) => {
            return Err(e);
        },
        Ok(_) => {},
    }
    let (from, p) = match expression(tokens, pos + 3) {
        Err(e) => {
            return Err(e);
        },
        Ok(found) => found,
    };
    match expect(tokens, p, &Token::To, Expected::To) {
        Err(e) => {
            return Err(e);
        },
        Ok(_) => {},
    }
    let (to, q) = match expression(tokens, p + 1) {
        Err(e) => {
            return Err(e);
        },
        Ok(found) => found,
    };
    let r: usize = match line_break(tokens, q) {
        Err(e) => {
            return Err(e);
        },
        Ok(r) => r,
    };
    let (statements, b) = match block(tokens, r) {
        Err(e) => {
            return Err(e);
        },
        Ok(found) => found,
    };
    let closed: bool = match look(tokens, b) {
        Some(Token::EndFor) => true,
        Some(Token::Next) => true,
        _ => false,
    };
    if !closed {
        return Err(unexpected(tokens, b, Expected::EndFor));
    }
    let end: usize = match look(tokens, b + 1) {
        Some(Token::Identifier(_)) => b + 2,
        _ => b + 1,
    };
    Ok((Statement::For(name, from, to, statements), end))
}

/// Reads a `WHILE` loop, of which `WHILE` stands at `pos`.
fn while_loop(tokens: &Vec<Spanned<Token>>, pos: usize) -> (r: Result<
    (Statement, usize),
    SyntaxError,
>)
    requires
        pos < tokens.len(),
    ensures
        parsed_body_view(r) == parse_while(tokens_view(tokens@), pos as int),
        match r {
            Ok((_, p)) => pos < p <= tokens.len(),
            Err(_) => true,
        },
    decreases tokens.len() - pos, 0nat,
{
    let (c, p) = match expression(tokens, pos + 1) {
        Err(e) => {
            return Err(e);
        },
        Ok(found) => found,
    };
    match expect(tokens, p, &Token::Do, Expected::Do) {
        Err(e) => {
            return Err(e);
        },
        Ok(_) => {},
    }
    let r: usize = match line_break(tokens, p + 1) {
        Err(e) => {
            return Err(e);
        },
        Ok(r) => r,
    };
    let (statements, b) = match block(tokens, r) {
        Err(e) => {
            return Err(e);
        },
        Ok(found) => found,
    };
    match expect(tokens, b, &Token::EndWhile, Expected::EndWhile) {
        Err(e) => Err(e),
        Ok(end) => Ok((Statement::While(c, statements), end)),
    }
}

/// Reads a `REPEAT` loop, of which `REPEAT` stands at `pos`.
fn repeat_loop(tokens: &Vec<Spanned<Token>>, pos: usize) -> (r: Result<
    (Statement, usize),
    SyntaxError,
>)
    requires
        pos < tokens.len(),
    ensures
        parsed_body_view(r) == parse_repeat(tokens_view(tokens@), pos as int),
        match r {
            Ok((_, p)) => pos < p <= tokens.len(),
            Err(_) => true,
        },
    decreases tokens.len() - pos, 0nat,
{
    let r: usize = match line_break(tokens, pos + 1) {
        Err(e) => {
            return Err(e);
        },
        Ok(r) => r,
    };
    let (statements, b) = match block(tokens, r) {
        Err(e) => {
            return Err(e);
        },
        Ok(found) => found,
    };
    match expect(tokens, b, &Token::Until, Expected::Until) {
        Err(e) => {
            return Err(e);
        },
        Ok(_) => {},
    }
    match expression(tokens, b + 1) {
        Err(e) => Err(e),
        Ok((c, end)) => Ok((Statement::Repeat(statements, c), end)),
    }
}

/// The place of the first `NewLine` token at or after a place.
fn line_end(tokens: &Vec<Spanned<Token>>, pos: usize) -> (r: usize)
    requires
        pos <= tokens.len(),
    ensures
        r == line_end_from(tokens_view(tokens@), pos as int),
        pos <= r <= tokens.len(),
{
    let mut p: usize = pos;
    loop
        invariant
            pos <= p <= tokens.len(),
            line_end_from(tokens_view(tokens@), p as int) == line_end_from(
                tokens_view(tokens@),
                pos as int,
            ),
        decreases tokens.len() - p,
    {
        match look(tokens, p) {
            Some(Token::NewLine) => {
                return p;
            },
            Some(_) => {
                p += 1;
            },
            None => {
                return p;
            },
        }
    }
}

/// The place at which the parser goes on after an error, or the place of
/// the statement where it cannot go on.
fn resume(tokens: &Vec<Spanned<Token>>, pos: usize, error: &SyntaxError) -> (r: usize)
    requires
        pos < tokens.len(),
    ensures
        r > pos ==> r == resume_at(tokens_view(tokens@), pos as int, error@) && r <= tokens.len(),
        r <= pos ==> r == pos && !(pos < resume_at(tokens_view(tokens@), pos as int, error@)
            <= tokens.len()),
{
    let from: usize = if error.index > pos {
        error.index
    } else {
        pos
    };
    if from > tokens.len() {
        return pos;
    }
    let next = skip_lines(tokens, line_end(tokens, from));
    if next > pos {
        next
    } else {
        pos
    }
}

/// Reads the statements of a program.
pub fn parser(tokens: &Vec<Spanned<Token>>) -> (r: Result<
    Vec<Spanned<Statement>>,
    Vec<SyntaxError>,
>)
    ensures
        program_view(r) == parse(tokens_view(tokens@)),
{
    let mut program: Vec<Spanned<Statement>> = Vec::new();
    let mut errors: Vec<SyntaxError> = Vec::new();
    let mut pos: usize = 0;
    proof {
        assert(statements_view(program@) =~= Seq::empty());
        assert(errors_view(errors@) =~= Seq::empty());
    }
    while pos < tokens.len()
        invariant
            pos <= tokens.len(),
            parse_program(
                tokens_view(tokens@),
                pos as int,
                statements_view(program@),
                errors_view(errors@),
            ) == parse_program(tokens_view(tokens@), 0, Seq::empty(), Seq::empty()),
        decreases tokens.len() - pos,
    {
        match statement(tokens, pos) {
            Err(e) => {
                let next: usize = resume(tokens, pos, &e);
                proof {
                    assert(errors_view(errors@.push(e)) =~= errors_view(errors@).push(e@));
                }
                errors.push(e);
                if next <= pos {
                    return Err(errors);
                }
                pos = next;
            },
            Ok((s, p)) => {
                proof {
                    assert(statements_view(program@.push(s)) =~= statements_view(program@).push(
                        (statement_view(s.0), s.1),
                    ));
                }
                program.push(s);
                pos = p;
            },
        }
    }
    if errors.len() == 0 {
        Ok(program)
    } else {
        Err(errors)
    }
}

} // verus!
