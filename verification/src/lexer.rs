//! The lexer: from the characters of a program to its tokens, each with the
//! place it was read from.

use vstd::prelude::*;
use vstd::string::StringExecFns;
use crate::ast::{DataTypes, LiteralType, Ops, Span, Spanned, Token, TokenView, tokens_view};
use crate::text::{
    chars_of,
    digit,
    is_digit,
    is_line_break,
    is_name_part,
    is_name_start,
    is_whitespace,
    line_break,
    name_part,
    name_start,
    text_of,
    whitespace,
};

verus! {

/// A character that no token starts with.
#[derive(Clone, Copy, Debug, PartialEq, Eq, Structural)]
pub struct LexError {
    pub span: Span,
    pub found: char,
}

/// The classes of characters that the lexer reads runs of.
#[derive(Clone, Copy, Debug, PartialEq, Eq, Structural)]
pub enum Class {
    /// Decimal digits.
    Digit,
    /// What a name goes on with: letters, digits and the underscore.
    NamePart,
    /// White space, line breaks among it.
    Whitespace,
    /// What stands inside a string: all but the quotation mark and the line
    /// feed.
    StringPart,
    /// What stands inside a comment: all but the line feed.
    CommentPart,
}

impl Class {
    /// Whether a character belongs to the class.
    pub open spec fn has(self, c: char) -> bool {
        match self {
            Class::Digit => is_digit(c),
            Class::NamePart => is_name_part(c),
            Class::Whitespace => is_whitespace(c),
            Class::StringPart => c != '"' && c != '\n',
            Class::CommentPart => c != '\n',
        }
    }

    /// Whether a character belongs to the class.
    pub fn holds(self, c: char) -> (r: bool)
        ensures
            r == self.has(c),
    {
        match self {
            Class::Digit => digit(c),
            Class::NamePart => name_part(c),
            Class::Whitespace => whitespace(c),
            Class::StringPart => c != '"' && c != '\n',
            Class::CommentPart => c != '\n',
        }
    }
}

/// The place after the run of characters of a class that starts at `pos`.
pub open spec fn run_end(text: Seq<char>, pos: int, class: Class) -> int
    decreases text.len() - pos,
{
    if 0 <= pos < text.len() && class.has(text[pos]) {
        run_end(text, pos + 1, class)
    } else {
        pos
    }
}

/// Whether a comment starts at a place: two slashes stand there.
pub open spec fn starts_comment(text: Seq<char>, pos: int) -> bool {
    0 <= pos && pos + 1 < text.len() && text[pos] == '/' && text[pos + 1] == '/'
}

/// The place after the line that a place lies in: after the next line feed,
/// or the end of the text.
pub open spec fn line_end(text: Seq<char>, pos: int) -> int {
    let end = run_end(text, pos, Class::CommentPart);
    if end < text.len() {
        end + 1
    } else {
        end
    }
}

/// The place after the comment whose slashes stand at `pos`, and after the
/// white space that follows it.
pub open spec fn comment_end(text: Seq<char>, pos: int) -> int {
    run_end(text, line_end(text, pos + 2), Class::Whitespace)
}

/// The place after the comments that follow one another from `pos` on.
pub open spec fn comments_end(text: Seq<char>, pos: int) -> int
    decreases text.len() - pos,
{
    if starts_comment(text, pos) && pos < comment_end(text, pos) <= text.len() {
        comments_end(text, comment_end(text, pos))
    } else {
        pos
    }
}

/// How many characters the line break at a place takes: two for a carriage
/// return with a line feed, one for another line break, none where there is
/// no line break.
pub open spec fn break_length(text: Seq<char>, pos: int) -> int {
    if pos < 0 || pos >= text.len() {
        0
    } else if text[pos] == '\r' && pos + 1 < text.len() && text[pos + 1] == '\n' {
        2
    } else if is_line_break(text[pos]) {
        1
    } else {
        0
    }
}

/// The place after the line breaks that follow one another from `pos` on.
pub open spec fn breaks_end(text: Seq<char>, pos: int) -> int
    decreases text.len() - pos,
{
    if break_length(text, pos) > 0 {
        breaks_end(text, pos + break_length(text, pos))
    } else {
        pos
    }
}

/// The token that a word is: a reserved word has a token of its own; any
/// other word is an identifier, or the name of a built-in where it holds an
/// underscore.
pub open spec fn word_token(word: Seq<char>) -> TokenView {
    if word == "DECLARE"@ {
        TokenView::Declare
    } else if word == "OUTPUT"@ {
        TokenView::Out
    } else if word == "INPUT"@ {
        TokenView::In
    } else if word == "RETURN"@ {
        TokenView::Return
    } else if word == "IF"@ {
        TokenView::If
    } else if word == "ENDIF"@ {
        TokenView::EndIf
    } else if word == "THEN"@ {
        TokenView::Then
    } else if word == "ELSE"@ {
        TokenView::Else
    } else if word == "FOR"@ {
        TokenView::For
    } else if word == "ENDFOR"@ {
        TokenView::EndFor
    } else if word == "TO"@ {
        TokenView::To
    } else if word == "WHILE"@ {
        TokenView::While
    } else if word == "ENDWHILE"@ {
        TokenView::EndWhile
    } else if word == "DO"@ {
        TokenView::Do
    } else if word == "REPEAT"@ {
        TokenView::Repeat
    } else if word == "UNTIL"@ {
        TokenView::Until
    } else if word == "OF"@ {
        TokenView::Of
    } else if word == "NEXT"@ {
        TokenView::Next
    } else if word == "INTEGER"@ {
        TokenView::DataType(DataTypes::Literal(LiteralType::Integer))
    } else if word == "REAL"@ {
        TokenView::DataType(DataTypes::Literal(LiteralType::Real))
    } else if word == "STRING"@ {
        TokenView::DataType(DataTypes::Literal(LiteralType::String))
    } else if word == "BOOLEAN"@ {
        TokenView::DataType(DataTypes::Literal(LiteralType::Boolean))
    } else if word == "ARRAY"@ {
        TokenView::DataType(DataTypes::Array)
    } else if word == "TRUE"@ {
        TokenView::Boolean(true)
    } else if word == "FALSE"@ {
        TokenView::Boolean(false)
    } else if word == "MOD"@ {
        TokenView::Operator(Ops::Mod)
    } else if word == "DIV"@ {
        TokenView::Operator(Ops::Div)
    } else if word == "AND"@ {
        TokenView::Operator(Ops::And)
    } else if word == "OR"@ {
        TokenView::Operator(Ops::Or)
    } else if word == "NOT"@ {
        TokenView::Operator(Ops::Not)
    } else if word.contains('_') {
        TokenView::BuiltIn(word)
    } else {
        TokenView::Identifier(word)
    }
}

/// The token of one or two characters that starts at a place, with its
/// length: the arrow, an operator, or a mark of punctuation. The longer
/// token wins.
pub open spec fn symbol_at(text: Seq<char>, pos: int) -> Option<(TokenView, int)> {
    if pos < 0 || pos >= text.len() {
        None
    } else {
        let c = text[pos];
        let d = if pos + 1 < text.len() {
            Some(text[pos + 1])
        } else {
            None
        };
        if c == '<' && d == Some('-') {
            Some((TokenView::Arrow, 2))
        } else if c == '\u{2190}' {
            Some((TokenView::Arrow, 1))
        } else if c == '+' {
            Some((TokenView::Operator(Ops::Plus), 1))
        } else if c == '-' {
            Some((TokenView::Operator(Ops::Minus), 1))
        } else if c == '/' {
            Some((TokenView::Operator(Ops::Divide), 1))
        } else if c == '*' {
            Some((TokenView::Operator(Ops::Multiply), 1))
        } else if c == '&' {
            Some((TokenView::Operator(Ops::Concatenate), 1))
        } else if c == '>' && d == Some('=') {
            Some((TokenView::Operator(Ops::GreaterThanEqual), 2))
        } else if c == '<' && d == Some('=') {
            Some((TokenView::Operator(Ops::LessThanEqual), 2))
        } else if c == '<' && d == Some('>') {
            Some((TokenView::Operator(Ops::NotEqual), 2))
        } else if c == '>' {
            Some((TokenView::Operator(Ops::GreaterThan), 1))
        } else if c == '<' {
            Some((TokenView::Operator(Ops::LessThan), 1))
        } else if c == '=' {
            Some((TokenView::Operator(Ops::Equal), 1))
        } else if c == ':' {
            Some((TokenView::Colon, 1))
        } else if c == '(' {
            Some((TokenView::OpenBracket, 1))
        } else if c == ')' {
            Some((TokenView::CloseBracket, 1))
        } else if c == '[' {
            Some((TokenView::OpenSquare, 1))
        } else if c == ']' {
            Some((TokenView::CloseSquare, 1))
        } else if c == ',' {
            Some((TokenView::Comma, 1))
        } else {
            None
        }
    }
}

/// The token that starts at a place, and the place after it; `None` where
/// no token starts there.
///
/// Comments, with the white space before and after them, and line breaks
/// that follow one another are one `NewLine` token. A number is a run of
/// digits, and a real number where a point and another run of digits follow
/// it. A string stands between quotation marks on one line. A word is a
/// letter or an underscore with the letters, digits and underscores after
/// it.
pub open spec fn token_at(text: Seq<char>, pos: int) -> Option<(TokenView, int)> {
    if pos < 0 || pos >= text.len() {
        None
    } else if starts_comment(text, run_end(text, pos, Class::Whitespace)) {
        Some((TokenView::NewLine, comments_end(text, run_end(text, pos, Class::Whitespace))))
    } else if break_length(text, pos) > 0 {
        Some((TokenView::NewLine, breaks_end(text, pos)))
    } else if is_digit(text[pos]) {
        let whole = run_end(text, pos, Class::Digit);
        let fraction = run_end(text, whole + 1, Class::Digit);
        if whole < text.len() && text[whole] == '.' && fraction > whole + 1 {
            Some((TokenView::Real(text.subrange(pos, fraction)), fraction))
        } else {
            Some((TokenView::Integer(text.subrange(pos, whole)), whole))
        }
    } else if text[pos] == '"' {
        let close = run_end(text, pos + 1, Class::StringPart);
        if close < text.len() && text[close] == '"' {
            Some((TokenView::String(text.subrange(pos + 1, close)), close + 1))
        } else {
            None
        }
    } else if is_name_start(text[pos]) {
        let end = run_end(text, pos + 1, Class::NamePart);
        Some((word_token(text.subrange(pos, end)), end))
    } else {
        match symbol_at(text, pos) {
            Some((token, length)) => Some((token, pos + length)),
            None => None,
        }
    }
}

/// A space or a tabulator.
pub open spec fn is_indent(c: char) -> bool {
    c == ' ' || c == '\t'
}

/// The place at which the tokens of a text begin: after the indentation and
/// the comments at its start.
pub open spec fn text_start(text: Seq<char>, pos: int) -> int
    decreases text.len() - pos,
{
    if pos < 0 || pos >= text.len() {
        pos
    } else if is_indent(text[pos]) {
        text_start(text, pos + 1)
    } else {
        let slashes = run_end(text, pos, Class::Whitespace);
        if starts_comment(text, slashes) && pos < comment_end(text, slashes) <= text.len() {
            text_start(text, comment_end(text, slashes))
        } else {
            pos
        }
    }
}

/// The error of a character that no token starts with.
pub open spec fn stray(text: Seq<char>, pos: int) -> LexError {
    LexError { span: Span { start: pos as usize, end: (pos + 1) as usize }, found: text[pos] }
}

/// The tokens and the errors of a text from a place on, added to those that
/// are there already. Where no token starts, indentation is passed over, and
/// any other character is an error after which the lexer goes on.
pub open spec fn lex_from(
    text: Seq<char>,
    pos: int,
    tokens: Seq<(TokenView, Span)>,
    errors: Seq<LexError>,
) -> (Seq<(TokenView, Span)>, Seq<LexError>)
    decreases text.len() - pos,
{
    if pos < 0 || pos >= text.len() {
        (tokens, errors)
    } else {
        match token_at(text, pos) {
            Some((token, end)) => if pos < end <= text.len() {
                lex_from(
                    text,
                    end,
                    tokens.push((token, Span { start: pos as usize, end: end as usize })),
                    errors,
                )
            } else {
                (tokens, errors)
            },
            None => if is_indent(text[pos]) {
                lex_from(text, pos + 1, tokens, errors)
            } else {
                lex_from(text, pos + 1, tokens, errors.push(stray(text, pos)))
            },
        }
    }
}

/// The tokens of a text, or the characters in it that no token starts with.
pub open spec fn lex(text: Seq<char>) -> Result<Seq<(TokenView, Span)>, Seq<LexError>> {
    let (tokens, errors) = lex_from(text, text_start(text, 0), Seq::empty(), Seq::empty());
    if errors.len() == 0 {
        Ok(tokens)
    } else {
        Err(errors)
    }
}

/// What `view` is on the result of the lexer.
pub open spec fn lexed_view(r: Result<Vec<Spanned<Token>>, Vec<LexError>>) -> Result<
    Seq<(TokenView, Span)>,
    Seq<LexError>,
> {
    match r {
        Ok(tokens) => Ok(tokens_view(tokens@)),
        Err(errors) => Err(errors@),
    }
}

fn scan(chars: &Vec<char>, pos: usize, class: Class) -> (end: usize)
    requires
        pos <= chars.len(),
    ensures
        end == run_end(chars@, pos as int, class),
        pos <= end <= chars.len(),
        pos < chars.len() && class.has(chars@[pos as int]) ==> pos < end,
{
    let mut i: usize = pos;
    while i < chars.len() && class.holds(chars[i])
        invariant
            pos <= i <= chars.len(),
            run_end(chars@, i as int, class) == run_end(chars@, pos as int, class),
        decreases chars.len() - i,
    {
        i += 1;
    }
    i
}

fn comment_starts(chars: &Vec<char>, pos: usize) -> (r: bool)
    requires
        pos <= chars.len(),
    ensures
        r == starts_comment(chars@, pos as int),
{
    pos < chars.len() && chars.len() - pos >= 2 && chars[pos] == '/' && chars[pos + 1] == '/'
}

fn skip_comment(chars: &Vec<char>, pos: usize) -> (end: usize)
    requires
        starts_comment(chars@, pos as int),
    ensures
        end == comment_end(chars@, pos as int),
        pos + 2 <= end <= chars.len(),
{
    assert(pos + 1 < chars.len());
    let stop = scan(chars, pos + 2, Class::CommentPart);
    let line = if stop < chars.len() {
        stop + 1
    } else {
        stop
    };
    scan(chars, line, Class::Whitespace)
}

fn skip_comments(chars: &Vec<char>, pos: usize) -> (end: usize)
    requires
        pos <= chars.len(),
    ensures
        end == comments_end(chars@, pos as int),
        pos <= end <= chars.len(),
        starts_comment(chars@, pos as int) ==> pos < end,
{
    let mut i: usize = pos;
    while comment_starts(chars, i)
        invariant
            pos <= i <= chars.len(),
            comments_end(chars@, i as int) == comments_end(chars@, pos as int),
            starts_comment(chars@, pos as int) && !starts_comment(chars@, i as int) ==> pos < i,
            starts_comment(chars@, pos as int) && starts_comment(chars@, i as int) ==> pos <= i,
        decreases chars.len() - i,
    {
        i = skip_comment(chars, i);
    }
    i
}

fn break_size(chars: &Vec<char>, pos: usize) -> (r: usize)
    requires
        pos <= chars.len(),
    ensures
        r == break_length(chars@, pos as int),
        pos + r <= chars.len(),
{
    if pos >= chars.len() {
        0
    } else if chars[pos] == '\r' && chars.len() - pos >= 2 && chars[pos + 1] == '\n' {
        2
    } else if line_break(chars[pos]) {
        1
    } else {
        0
    }
}

fn skip_breaks(chars: &Vec<char>, pos: usize) -> (end: usize)
    requires
        pos <= chars.len(),
    ensures
        end == breaks_end(chars@, pos as int),
        pos <= end <= chars.len(),
        break_length(chars@, pos as int) > 0 ==> pos < end,
{
    let mut i: usize = pos;
    loop
        invariant
            pos <= i <= chars.len(),
            breaks_end(chars@, i as int) == breaks_end(chars@, pos as int),
            break_length(chars@, pos as int) > 0 && break_length(chars@, i as int) == 0 ==> pos < i,
        decreases chars.len() - i,
    {
        let size = break_size(chars, i);
        if size == 0 {
            return i;
        }
        i = i + size;
    }
}

fn same(word: &String, reserved: &str) -> (r: bool)
    ensures
        r == (word@ == reserved@),
{
    let other = String::from_str(reserved);
    *word == other
}

fn has_underscore(chars: &Vec<char>, from: usize, to: usize) -> (r: bool)
    requires
        from <= to <= chars.len(),
    ensures
        r == chars@.subrange(from as int, to as int).contains('_'),
{
    let mut i: usize = from;
    let ghost word = chars@.subrange(from as int, to as int);
    while i < to
        invariant
            from <= i <= to <= chars.len(),
            word == chars@.subrange(from as int, to as int),
            forall|k: int| 0 <= k < i - from ==> word[k] != '_',
        decreases to - i,
    {
        if chars[i] == '_' {
            proof {
                assert(word[i - from] == '_');
            }
            return true;
        }
        i += 1;
    }
    false
}

fn word(chars: &Vec<char>, from: usize, to: usize) -> (r: Token)
    requires
        from <= to <= chars.len(),
    ensures
        r@ == word_token(chars@.subrange(from as int, to as int)),
{
    let text = text_of(chars, from, to);
    if same(&text, "DECLARE") {
        Token::Declare
    } else if same(&text, "OUTPUT") {
        Token::Out
    } else if same(&text, "INPUT") {
        Token::In
    } else if same(&text, "RETURN") {
        Token::Return
    } else if same(&text, "IF") {
        Token::If
    } else if same(&text, "ENDIF") {
        Token::EndIf
    } else if same(&text, "THEN") {
        Token::Then
    } else if same(&text, "ELSE") {
        Token::Else
    } else if same(&text, "FOR") {
        Token::For
    } else if same(&text, "ENDFOR") {
        Token::EndFor
    } else if same(&text, "TO") {
        Token::To
    } else if same(&text, "WHILE") {
        Token::While
    } else if same(&text, "ENDWHILE") {
        Token::EndWhile
    } else if same(&text, "DO") {
        Token::Do
    } else if same(&text, "REPEAT") {
        Token::Repeat
    } else if same(&text, "UNTIL") {
        Token::Until
    } else if same(&text, "OF") {
        Token::Of
    } else if same(&text, "NEXT") {
        Token::Next
    } else if same(&text, "INTEGER") {
        Token::DataType(DataTypes::Literal(LiteralType::Integer))
    } else if same(&text, "REAL") {
        Token::DataType(DataTypes::Literal(LiteralType::Real))
    } else if same(&text, "STRING") {
        Token::DataType(DataTypes::Literal(LiteralType::String))
    } else if same(&text, "BOOLEAN") {
        Token::DataType(DataTypes::Literal(LiteralType::Boolean))
    } else if same(&text, "ARRAY") {
        Token::DataType(DataTypes::Array)
    } else if same(&text, "TRUE") {
        Token::Boolean(true)
    } else if same(&text, "FALSE") {
        Token::Boolean(false)
    } else if same(&text, "MOD") {
        Token::Operator(Ops::Mod)
    } else if same(&text, "DIV") {
        Token::Operator(Ops::Div)
    } else if same(&text, "AND") {
        Token::Operator(Ops::And)
    } else if same(&text, "OR") {
        Token::Operator(Ops::Or)
    } else if same(&text, "NOT") {
        Token::Operator(Ops::Not)
    } else if has_underscore(chars, from, to) {
        Token::BuiltIn(text)
    } else {
        Token::Identifier(text)
    }
}

/// What `view` is on a token with its length.
pub open spec fn sized_view(r: Option<(Token, usize)>) -> Option<(TokenView, int)> {
    match r {
        Some((token, length)) => Some((token@, length as int)),
        None => None,
    }
}

fn symbol(chars: &Vec<char>, pos: usize) -> (r: Option<(Token, usize)>)
    requires
        pos < chars.len(),
    ensures
        sized_view(r) == symbol_at(chars@, pos as int),
        match r {
            Some((_, length)) => 1 <= length && pos + length <= chars.len(),
            None => true,
        },
{
    let c: char = chars[pos];
    let more: bool = chars.len() - pos >= 2;
    let d: char = if more {
        chars[pos + 1]
    } else {
        ' '
    };
    if c == '<' && more && d == '-' {
        Some((Token::Arrow, 2))
    } else if c == '\u{2190}' {
        Some((Token::Arrow, 1))
    } else if c == '+' {
        Some((Token::Operator(Ops::Plus), 1))
    } else if c == '-' {
        Some((Token::Operator(Ops::Minus), 1))
    } else if c == '/' {
        Some((Token::Operator(Ops::Divide), 1))
    } else if c == '*' {
        Some((Token::Operator(Ops::Multiply), 1))
    } else if c == '&' {
        Some((Token::Operator(Ops::Concatenate), 1))
    } else if c == '>' && more && d == '=' {
        Some((Token::Operator(Ops::GreaterThanEqual), 2))
    } else if c == '<' && more && d == '=' {
        Some((Token::Operator(Ops::LessThanEqual), 2))
    } else if c == '<' && more && d == '>' {
        Some((Token::Operator(Ops::NotEqual), 2))
    } else if c == '>' {
        Some((Token::Operator(Ops::GreaterThan), 1))
    } else if c == '<' {
        Some((Token::Operator(Ops::LessThan), 1))
    } else if c == '=' {
        Some((Token::Operator(Ops::Equal), 1))
    } else if c == ':' {
        Some((Token::Colon, 1))
    } else if c == '(' {
        Some((Token::OpenBracket, 1))
    } else if c == ')' {
        Some((Token::CloseBracket, 1))
    } else if c == '[' {
        Some((Token::OpenSquare, 1))
    } else if c == ']' {
        Some((Token::CloseSquare, 1))
    } else if c == ',' {
        Some((Token::Comma, 1))
    } else {
        None
    }
}

/// The token that starts at a place, and the place after it.
pub fn next_token(chars: &Vec<char>, pos: usize) -> (r: Option<(Token, usize)>)
    ensures
        sized_view(r) == token_at(chars@, pos as int),
        match r {
            Some((_, end)) => pos < end <= chars.len(),
            None => true,
        },
{
    if pos >= chars.len() {
        return None;
    }
    let slashes = scan(chars, pos, Class::Whitespace);
    if comment_starts(chars, slashes) {
        return Some((Token::NewLine, skip_comments(chars, slashes)));
    }
    if break_size(chars, pos) > 0 {
        return Some((Token::NewLine, skip_breaks(chars, pos)));
    }
    let c: char = chars[pos];
    if digit(c) {
        let whole = scan(chars, pos, Class::Digit);
        if whole < chars.len() && chars[whole] == '.' {
            let fraction = scan(chars, whole + 1, Class::Digit);
            if fraction > whole + 1 {
                return Some((Token::Real(text_of(chars, pos, fraction)), fraction));
            }
        }
        proof {
            if !(whole < chars.len()) {
                assert(run_end(chars@, whole + 1, Class::Digit) == whole + 1);
            }
        }
        Some((Token::Integer(text_of(chars, pos, whole)), whole))
    } else if c == '"' {
        let close = scan(chars, pos + 1, Class::StringPart);
        if close < chars.len() && chars[close] == '"' {
            Some((Token::String(text_of(chars, pos + 1, close)), close + 1))
        } else {
            None
        }
    } else if name_start(c) {
        let end = scan(chars, pos + 1, Class::NamePart);
        Some((word(chars, pos, end), end))
    } else {
        match symbol(chars, pos) {
            Some((token, length)) => Some((token, pos + length)),
            None => None,
        }
    }
}

fn start_of(chars: &Vec<char>) -> (r: usize)
    ensures
        r == text_start(chars@, 0),
        r <= chars.len(),
{
    let mut pos: usize = 0;
    loop
        invariant
            pos <= chars.len(),
            text_start(chars@, pos as int) == text_start(chars@, 0),
        decreases chars.len() - pos,
    {
        if pos >= chars.len() {
            return pos;
        }
        if chars[pos] == ' ' || chars[pos] == '\t' {
            pos += 1;
        } else {
            let slashes = scan(chars, pos, Class::Whitespace);
            if comment_starts(chars, slashes) {
                pos = skip_comment(chars, slashes);
            } else {
                return pos;
            }
        }
    }
}

/// Reads the tokens of a program.
pub fn lexer(source: &str) -> (r: Result<Vec<Spanned<Token>>, Vec<LexError>>)
    ensures
        lexed_view(r) == lex(source@),
{
    let chars = chars_of(source);
    let mut tokens: Vec<Spanned<Token>> = Vec::new();
    let mut errors: Vec<LexError> = Vec::new();
    let mut pos: usize = start_of(&chars);
    proof {
        assert(tokens_view(tokens@) =~= Seq::empty());
    }
    while pos < chars.len()
        invariant
            pos <= chars.len(),
            chars@ == source@,
            lex_from(chars@, pos as int, tokens_view(tokens@), errors@) == lex_from(
                chars@,
                text_start(chars@, 0),
                Seq::empty(),
                Seq::empty(),
            ),
        decreases chars.len() - pos,
    {
        match next_token(&chars, pos) {
            Some((token, end)) => {
                proof {
                    assert(tokens_view(tokens@.push((token, Span { start: pos, end })))
                        =~= tokens_view(tokens@).push((token@, Span { start: pos, end })));
                }
                tokens.push((token, Span { start: pos, end }));
                pos = end;
            },
            None => {
                if !(chars[pos] == ' ' || chars[pos] == '\t') {
                    errors.push(
                        LexError { span: Span { start: pos, end: pos + 1 }, found: chars[pos] },
                    );
                }
                pos += 1;
            },
        }
    }
    if errors.len() == 0 {
        Ok(tokens)
    } else {
        Err(errors)
    }
}

/// Whether the places of tokens lie one after the other in a text that
/// ends at `end`: each holds at least one character, none reaches beyond the
/// end, and none starts before the one before it ends.
pub open spec fn in_order(tokens: Seq<(TokenView, Span)>, end: int) -> bool {
    &&& forall|i: int|
        0 <= i < tokens.len() ==> (#[trigger] tokens[i]).1.start < tokens[i].1.end <= end
    &&& forall|i: int, j: int|
        0 <= i < j < tokens.len() ==> (#[trigger] tokens[i]).1.end <= (
        #[trigger] tokens[j]).1.start
}

/// The tokens begin within the text.
proof fn text_start_is_within(text: Seq<char>, pos: int)
    requires
        0 <= pos <= text.len(),
    ensures
        pos <= text_start(text, pos) <= text.len(),
    decreases text.len() - pos,
{
    if pos < text.len() {
        if is_indent(text[pos]) {
            text_start_is_within(text, pos + 1);
        } else {
            let slashes = run_end(text, pos, Class::Whitespace);
            if starts_comment(text, slashes) && pos < comment_end(text, slashes) <= text.len() {
                text_start_is_within(text, comment_end(text, slashes));
            }
        }
    }
}

/// Tokens that are in order stay in order when the lexer adds to them.
proof fn lex_from_keeps_order(
    text: Seq<char>,
    pos: int,
    tokens: Seq<(TokenView, Span)>,
    errors: Seq<LexError>,
)
    requires
        0 <= pos <= text.len() <= usize::MAX,
        in_order(tokens, pos),
    ensures
        in_order(lex_from(text, pos, tokens, errors).0, text.len() as int),
    decreases text.len() - pos,
{
    assert(in_order(tokens, text.len() as int));
    if pos < text.len() {
        match token_at(text, pos) {
            Some((token, end)) => {
                if pos < end <= text.len() {
                    let next = tokens.push(
                        (token, Span { start: pos as usize, end: end as usize }),
                    );
                    assert(in_order(next, end)) by {
                        assert forall|i: int, j: int| 0 <= i < j < next.len() implies (
                        #[trigger] next[i]).1.end <= (#[trigger] next[j]).1.start by {
                            if j < tokens.len() {
                                assert(next[i] == tokens[i] && next[j] == tokens[j]);
                            } else {
                                assert(next[i] == tokens[i]);
                            }
                        }
                        assert forall|i: int| 0 <= i < next.len() implies (#[trigger] next[i]).1.start
                            < next[i].1.end <= end by {
                            if i < tokens.len() {
                                assert(next[i] == tokens[i]);
                            }
                        }
                    }
                    lex_from_keeps_order(text, end, next, errors);
                }
            },
            None => {
                assert(in_order(tokens, pos + 1));
                if is_indent(text[pos]) {
                    lex_from_keeps_order(text, pos + 1, tokens, errors);
                } else {
                    lex_from_keeps_order(text, pos + 1, tokens, errors.push(stray(text, pos)));
                }
            },
        }
    }
}

/// The tokens of a text stand in the order of the text: the place of each
/// holds at least one character and lies within the text, and no token
/// starts before the one before it ends.
pub proof fn tokens_are_in_order(text: Seq<char>)
    requires
        text.len() <= usize::MAX,
    ensures
        lex(text) matches Ok(tokens) ==> in_order(tokens, text.len() as int),
{
    text_start_is_within(text, 0);
    lex_from_keeps_order(text, text_start(text, 0), Seq::empty(), Seq::empty());
}

} // verus!
