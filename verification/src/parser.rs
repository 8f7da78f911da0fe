//! The parser: recursive descent with one token of lookahead and no
//! backtracking.  Any token that fails to match the expected production
//! aborts the whole parse with a typed error; no partial program is ever
//! returned.
//!
//! The specification-level parser is `spec_parse_program`; every method of
//! `Parser` is proved to return exactly what its specification function says.

use crate::ast::{
    ASTNode, BExp, BooleanExpression, Exp, Prog, Program, Statement, Stm, names_view, stm_view,
    stms_view, lemma_vec_stms_view,
};
use crate::scanner::{step_to, toks_view, Tok, Token};
use vstd::prelude::*;

verus! {

// ---------------------------------------------------------------------------
// Errors
// ---------------------------------------------------------------------------
/// The ways a parse can fail.
#[derive(Debug, Clone, Copy, PartialEq, Eq, Structural)]
pub enum ParseErrorKind {
    /// The offending token came from a character the scanner recognized as
    /// belonging to no token.
    LexicalAnomaly,
    /// The token sequence violates the grammar.
    SyntaxError,
    /// A closing brace or parenthesis, the terminal `return`, or the
    /// operator of a boolean comparison is missing or malformed.
    StructuralViolation,
}

/// A parse error: its kind, the position of the offending token in the
/// token sequence, and the token itself.
#[derive(Debug, PartialEq)]
pub struct ParseError {
    pub kind: ParseErrorKind,
    pub position: usize,
    pub found: Token,
}

/// The value of a `ParseError`.
pub struct PErr {
    pub kind: ParseErrorKind,
    pub position: int,
    pub found: Tok,
}

impl View for ParseError {
    type V = PErr;

    open spec fn view(&self) -> PErr {
        PErr { kind: self.kind, position: self.position as int, found: self.found@ }
    }
}

/// The outcome of a specification-level parse: a value with the position
/// just past it, or an error.
pub enum Parsed<T> {
    Found(T, int),
    Fail(PErr),
}

// ---------------------------------------------------------------------------
// The specification-level parser
// ---------------------------------------------------------------------------
/// The token at `pos`, or `EndOfFile` past the end.
pub open spec fn peek_tok(t: Seq<Tok>, pos: int) -> Tok {
    if 0 <= pos < t.len() {
        t[pos]
    } else {
        Tok::EndOfFile
    }
}

/// The error reported at `pos`: an `Invalid` token is a lexical anomaly,
/// whatever was expected of it; any other token carries `kind`.
pub open spec fn sp_err(t: Seq<Tok>, pos: int, kind: ParseErrorKind) -> PErr {
    let f = peek_tok(t, pos);
    PErr {
        kind: if f == Tok::Invalid {
            ParseErrorKind::LexicalAnomaly
        } else {
            kind
        },
        position: pos,
        found: f,
    }
}

/// The kind of error when `expected` is missing: a missing closing brace or
/// parenthesis and a missing terminal `return` are structural; any other
/// mismatch is a plain syntax error.
pub open spec fn expect_kind(expected: Tok) -> ParseErrorKind {
    if expected == Tok::RightBrace || expected == Tok::RightParen || expected
        == Tok::KeywordReturn {
        ParseErrorKind::StructuralViolation
    } else {
        ParseErrorKind::SyntaxError
    }
}

/// FACTOR -> NUMBER | IDENTIFIER | ( EXPR )
pub open spec fn sp_factor(t: Seq<Tok>, pos: int) -> Parsed<Exp>
    decreases t.len() - pos, 0int,
{
    match peek_tok(t, pos) {
        Tok::Number(v) => Parsed::Found(Exp::Number(v), pos + 1),
        Tok::Identifier(n) => Parsed::Found(Exp::Identifier(n), pos + 1),
        Tok::LeftParen => match sp_expression(t, pos + 1) {
            Parsed::Found(e, p2) => if peek_tok(t, p2) == Tok::RightParen {
                Parsed::Found(e, p2 + 1)
            } else {
                Parsed::Fail(sp_err(t, p2, ParseErrorKind::StructuralViolation))
            },
            Parsed::Fail(e) => Parsed::Fail(e),
        },
        _ => Parsed::Fail(sp_err(t, pos, ParseErrorKind::SyntaxError)),
    }
}

/// TERM -> FACTOR (* FACTOR)*, folded to the left.
pub open spec fn sp_term(t: Seq<Tok>, pos: int) -> Parsed<Exp>
    decreases t.len() - pos, 1int,
{
    if !(0 <= pos < t.len()) {
        sp_factor(t, pos)
    } else {
        match sp_factor(t, pos) {
            Parsed::Found(f, p1) => sp_term_tail(t, f, step_to(t.len() as int, pos, p1)),
            Parsed::Fail(e) => Parsed::Fail(e),
        }
    }
}

/// The `(* FACTOR)*` tail of a term, left-folded onto `acc`.
pub open spec fn sp_term_tail(t: Seq<Tok>, acc: Exp, pos: int) -> Parsed<Exp>
    decreases t.len() - pos, 3int,
{
    if peek_tok(t, pos) == Tok::Multiply {
        match sp_factor(t, pos + 1) {
            Parsed::Found(f, p2) => sp_term_tail(
                t,
                Exp::Multiply(Box::new(acc), Box::new(f)),
                step_to(t.len() as int, pos, p2),
            ),
            Parsed::Fail(e) => Parsed::Fail(e),
        }
    } else {
        Parsed::Found(acc, pos)
    }
}

/// EXPR -> TERM ((+|-) TERM)*, folded to the left.
pub open spec fn sp_expression(t: Seq<Tok>, pos: int) -> Parsed<Exp>
    decreases t.len() - pos, 2int,
{
    if !(0 <= pos < t.len()) {
        sp_term(t, pos)
    } else {
        match sp_term(t, pos) {
            Parsed::Found(e, p1) => sp_expression_tail(t, e, step_to(t.len() as int, pos, p1)),
            Parsed::Fail(e) => Parsed::Fail(e),
        }
    }
}

/// The `((+|-) TERM)*` tail of an expression, left-folded onto `acc`.
pub open spec fn sp_expression_tail(t: Seq<Tok>, acc: Exp, pos: int) -> Parsed<Exp>
    decreases t.len() - pos, 3int,
{
    if peek_tok(t, pos) == Tok::Plus {
        match sp_term(t, pos + 1) {
            Parsed::Found(e2, p2) => sp_expression_tail(
                t,
                Exp::Add(Box::new(acc), Box::new(e2)),
                step_to(t.len() as int, pos, p2),
            ),
            Parsed::Fail(e) => Parsed::Fail(e),
        }
    } else if peek_tok(t, pos) == Tok::Minus {
        match sp_term(t, pos + 1) {
            Parsed::Found(e2, p2) => sp_expression_tail(
                t,
                Exp::Sub(Box::new(acc), Box::new(e2)),
                step_to(t.len() as int, pos, p2),
            ),
            Parsed::Fail(e) => Parsed::Fail(e),
        }
    } else {
        Parsed::Found(acc, pos)
    }
}

/// The comparison operators of a boolean condition.
pub open spec fn is_cmp_op(op: Tok) -> bool {
    op == Tok::LessThan || op == Tok::LessThanEqualTo || op == Tok::GreaterThan || op
        == Tok::GreaterThanEqualTo || op == Tok::EqualEqualTo
}

/// The comparison node for one operator.
pub open spec fn cmp_of(op: Tok, l: Exp, r: Exp) -> BExp {
    if op == Tok::LessThan {
        BExp::CompareLessThan(l, r)
    } else if op == Tok::LessThanEqualTo {
        BExp::CompareLessThanEqualTo(l, r)
    } else if op == Tok::GreaterThan {
        BExp::CompareGreaterThan(l, r)
    } else if op == Tok::GreaterThanEqualTo {
        BExp::CompareGreaterThanEqualTo(l, r)
    } else {
        BExp::CompareEqualTo(l, r)
    }
}

/// BOOL -> true | false | EXPR CMP EXPR; a missing or malformed comparison
/// operator is a structural violation.
pub open spec fn sp_boolean(t: Seq<Tok>, pos: int) -> Parsed<BExp> {
    if peek_tok(t, pos) == Tok::KeywordTrue {
        Parsed::Found(BExp::True, pos + 1)
    } else if peek_tok(t, pos) == Tok::KeywordFalse {
        Parsed::Found(BExp::False, pos + 1)
    } else {
        match sp_expression(t, pos) {
            Parsed::Found(l, p1) => {
                let op = peek_tok(t, p1);
                if is_cmp_op(op) {
                    match sp_expression(t, p1 + 1) {
                        Parsed::Found(r, p2) => Parsed::Found(cmp_of(op, l, r), p2),
                        Parsed::Fail(e) => Parsed::Fail(e),
                    }
                } else {
                    Parsed::Fail(sp_err(t, p1, ParseErrorKind::StructuralViolation))
                }
            },
            Parsed::Fail(e) => Parsed::Fail(e),
        }
    }
}

/// The tokens that can start a statement; a statement list ends at the
/// first token that cannot.
pub open spec fn starts_stmt(tok: Tok) -> bool {
    match tok {
        Tok::Identifier(_) => true,
        Tok::KeywordIf => true,
        Tok::KeywordWhile => true,
        _ => false,
    }
}

/// STMTS -> STMT STMTS | (empty)
pub open spec fn sp_statements(t: Seq<Tok>, pos: int) -> Parsed<Seq<Stm>>
    decreases t.len() - pos, 2int,
{
    if starts_stmt(peek_tok(t, pos)) {
        match sp_statement(t, pos) {
            Parsed::Found(s, p1) => match sp_statements(t, step_to(t.len() as int, pos, p1)) {
                Parsed::Found(rest, p2) => Parsed::Found(seq![s] + rest, p2),
                Parsed::Fail(e) => Parsed::Fail(e),
            },
            Parsed::Fail(e) => Parsed::Fail(e),
        }
    } else {
        Parsed::Found(Seq::empty(), pos)
    }
}

/// STMT -> ASSIGN | IFTHENELSE | WHILE
pub open spec fn sp_statement(t: Seq<Tok>, pos: int) -> Parsed<Stm>
    decreases t.len() - pos, 1int,
{
    match peek_tok(t, pos) {
        Tok::Identifier(_) => sp_assign(t, pos),
        Tok::KeywordIf => sp_if(t, pos),
        Tok::KeywordWhile => sp_while(t, pos),
        _ => Parsed::Fail(sp_err(t, pos, ParseErrorKind::SyntaxError)),
    }
}

/// ASSIGN -> IDENTIFIER = EXPR ;
pub open spec fn sp_assign(t: Seq<Tok>, pos: int) -> Parsed<Stm> {
    match peek_tok(t, pos) {
        Tok::Identifier(name) => if peek_tok(t, pos + 1) == Tok::Assign {
            match sp_expression(t, pos + 2) {
                Parsed::Found(e, p2) => if peek_tok(t, p2) == Tok::Semicolon {
                    Parsed::Found(Stm::Assign { name, expression: e }, p2 + 1)
                } else {
                    Parsed::Fail(sp_err(t, p2, ParseErrorKind::SyntaxError))
                },
                Parsed::Fail(e) => Parsed::Fail(e),
            }
        } else {
            Parsed::Fail(sp_err(t, pos + 1, ParseErrorKind::SyntaxError))
        },
        _ => Parsed::Fail(sp_err(t, pos, ParseErrorKind::SyntaxError)),
    }
}

/// IFTHENELSE -> if BOOL then { STMTS } else { STMTS }
pub open spec fn sp_if(t: Seq<Tok>, pos: int) -> Parsed<Stm>
    decreases t.len() - pos, 0int,
{
    if peek_tok(t, pos) != Tok::KeywordIf {
        Parsed::Fail(sp_err(t, pos, ParseErrorKind::SyntaxError))
    } else {
        match sp_boolean(t, pos + 1) {
            Parsed::Fail(e) => Parsed::Fail(e),
            Parsed::Found(b, p1) => if peek_tok(t, p1) != Tok::KeywordThen {
                Parsed::Fail(sp_err(t, p1, ParseErrorKind::SyntaxError))
            } else if peek_tok(t, p1 + 1) != Tok::LeftBrace {
                Parsed::Fail(sp_err(t, p1 + 1, ParseErrorKind::SyntaxError))
            } else {
                match sp_statements(t, step_to(t.len() as int, pos, p1 + 2)) {
                    Parsed::Fail(e) => Parsed::Fail(e),
                    Parsed::Found(thens, p2) => if peek_tok(t, p2) != Tok::RightBrace {
                        Parsed::Fail(sp_err(t, p2, ParseErrorKind::StructuralViolation))
                    } else if peek_tok(t, p2 + 1) != Tok::KeywordElse {
                        Parsed::Fail(sp_err(t, p2 + 1, ParseErrorKind::SyntaxError))
                    } else if peek_tok(t, p2 + 2) != Tok::LeftBrace {
                        Parsed::Fail(sp_err(t, p2 + 2, ParseErrorKind::SyntaxError))
                    } else {
                        match sp_statements(t, step_to(t.len() as int, pos, p2 + 3)) {
                            Parsed::Fail(e) => Parsed::Fail(e),
                            Parsed::Found(elses, p3) => if peek_tok(t, p3) != Tok::RightBrace {
                                Parsed::Fail(sp_err(t, p3, ParseErrorKind::StructuralViolation))
                            } else {
                                Parsed::Found(
                                    Stm::If {
                                        condition: b,
                                        then_statements: thens,
                                        else_statements: elses,
                                    },
                                    p3 + 1,
                                )
                            },
                        }
                    },
                }
            },
        }
    }
}

/// WHILE -> while BOOL then { STMTS }
pub open spec fn sp_while(t: Seq<Tok>, pos: int) -> Parsed<Stm>
    decreases t.len() - pos, 0int,
{
    if peek_tok(t, pos) != Tok::KeywordWhile {
        Parsed::Fail(sp_err(t, pos, ParseErrorKind::SyntaxError))
    } else {
        match sp_boolean(t, pos + 1) {
            Parsed::Fail(e) => Parsed::Fail(e),
            Parsed::Found(b, p1) => if peek_tok(t, p1) != Tok::KeywordThen {
                Parsed::Fail(sp_err(t, p1, ParseErrorKind::SyntaxError))
            } else if peek_tok(t, p1 + 1) != Tok::LeftBrace {
                Parsed::Fail(sp_err(t, p1 + 1, ParseErrorKind::SyntaxError))
            } else {
                match sp_statements(t, step_to(t.len() as int, pos, p1 + 2)) {
                    Parsed::Fail(e) => Parsed::Fail(e),
                    Parsed::Found(body, p2) => if peek_tok(t, p2) != Tok::RightBrace {
                        Parsed::Fail(sp_err(t, p2, ParseErrorKind::StructuralViolation))
                    } else {
                        Parsed::Found(Stm::While { condition: b, body }, p2 + 1)
                    },
                }
            },
        }
    }
}

/// The `; | IDENTIFIER ...` tail of ARGDECL, accumulating names in order.
pub open spec fn sp_argdecl_tail(t: Seq<Tok>, pos: int, acc: Seq<Seq<char>>) -> Parsed<
    Seq<Seq<char>>,
>
    decreases t.len() - pos,
{
    match peek_tok(t, pos) {
        Tok::Semicolon => Parsed::Found(acc, pos + 1),
        Tok::Identifier(name) => sp_argdecl_tail(t, pos + 1, acc.push(name)),
        _ => Parsed::Fail(sp_err(t, pos, ParseErrorKind::SyntaxError)),
    }
}

/// ARGDECL -> args IDENTIFIER (IDENTIFIER)* ;
pub open spec fn sp_argdecl(t: Seq<Tok>, pos: int) -> Parsed<Seq<Seq<char>>> {
    if peek_tok(t, pos) != Tok::KeywordArgs {
        Parsed::Fail(sp_err(t, pos, ParseErrorKind::SyntaxError))
    } else {
        match peek_tok(t, pos + 1) {
            Tok::Identifier(first) => sp_argdecl_tail(t, pos + 2, seq![first]),
            _ => Parsed::Fail(sp_err(t, pos + 1, ParseErrorKind::SyntaxError)),
        }
    }
}

/// The `; | , IDENTIFIER ...` tail of TYPEDECL, accumulating names in order.
pub open spec fn sp_typedecl_tail(t: Seq<Tok>, pos: int, acc: Seq<Seq<char>>) -> Parsed<
    Seq<Seq<char>>,
>
    decreases t.len() - pos,
{
    match peek_tok(t, pos) {
        Tok::Semicolon => Parsed::Found(acc, pos + 1),
        Tok::Comma => match peek_tok(t, pos + 1) {
            Tok::Identifier(name) => sp_typedecl_tail(t, pos + 2, acc.push(name)),
            _ => Parsed::Fail(sp_err(t, pos + 1, ParseErrorKind::SyntaxError)),
        },
        _ => Parsed::Fail(sp_err(t, pos, ParseErrorKind::SyntaxError)),
    }
}

/// TYPEDECL -> int IDENTIFIER (, IDENTIFIER)* ;
pub open spec fn sp_typedecl(t: Seq<Tok>, pos: int) -> Parsed<Seq<Seq<char>>> {
    if peek_tok(t, pos) != Tok::KeywordInt {
        Parsed::Fail(sp_err(t, pos, ParseErrorKind::SyntaxError))
    } else {
        match peek_tok(t, pos + 1) {
            Tok::Identifier(first) => sp_typedecl_tail(t, pos + 2, seq![first]),
            _ => Parsed::Fail(sp_err(t, pos + 1, ParseErrorKind::SyntaxError)),
        }
    }
}

/// RET -> return IDENTIFIER ; — a missing terminal `return` is structural.
pub open spec fn sp_return(t: Seq<Tok>, pos: int) -> Parsed<Seq<char>> {
    if peek_tok(t, pos) != Tok::KeywordReturn {
        Parsed::Fail(sp_err(t, pos, ParseErrorKind::StructuralViolation))
    } else {
        match peek_tok(t, pos + 1) {
            Tok::Identifier(name) => if peek_tok(t, pos + 2) == Tok::Semicolon {
                Parsed::Found(name, pos + 3)
            } else {
                Parsed::Fail(sp_err(t, pos + 2, ParseErrorKind::SyntaxError))
            },
            _ => Parsed::Fail(sp_err(t, pos + 1, ParseErrorKind::SyntaxError)),
        }
    }
}

/// PROGRAM -> ARGDECL TYPEDECL STMTS RET; tokens after the final `;` are
/// left unread.
pub open spec fn sp_program(t: Seq<Tok>, pos: int) -> Parsed<Prog> {
    match sp_argdecl(t, pos) {
        Parsed::Fail(e) => Parsed::Fail(e),
        Parsed::Found(args, p1) => match sp_typedecl(t, p1) {
            Parsed::Fail(e) => Parsed::Fail(e),
            Parsed::Found(vars, p2) => match sp_statements(t, p2) {
                Parsed::Fail(e) => Parsed::Fail(e),
                Parsed::Found(ss, p3) => match sp_return(t, p3) {
                    Parsed::Fail(e) => Parsed::Fail(e),
                    Parsed::Found(ret, p4) => Parsed::Found(
                        Prog {
                            arg_declarations: args,
                            var_declarations: vars,
                            statements: ss,
                            return_ident: ret,
                        },
                        p4,
                    ),
                },
            },
        },
    }
}

/// What parsing a token sequence yields: the program, or the first error.
pub open spec fn spec_parse_program(t: Seq<Tok>) -> Parsed<Prog> {
    sp_program(t, 0)
}

// ---------------------------------------------------------------------------
// The executable parser
// ---------------------------------------------------------------------------
/// Token-for-token equality of values.
fn token_eq(a: &Token, b: &Token) -> (r: bool)
    ensures
        r == (a@ == b@),
{
    match (a, b) {
        (Token::Identifier(x), Token::Identifier(y)) => crate::text::str_eq(x.as_str(), y.as_str()),
        (Token::Number(x), Token::Number(y)) => crate::text::str_eq(x.as_str(), y.as_str()),
        (Token::Plus, Token::Plus) => true,
        (Token::Minus, Token::Minus) => true,
        (Token::Multiply, Token::Multiply) => true,
        (Token::LeftParen, Token::LeftParen) => true,
        (Token::RightParen, Token::RightParen) => true,
        (Token::Semicolon, Token::Semicolon) => true,
        (Token::Assign, Token::Assign) => true,
        (Token::Comma, Token::Comma) => true,
        (Token::LeftBrace, Token::LeftBrace) => true,
        (Token::RightBrace, Token::RightBrace) => true,
        (Token::LessThan, Token::LessThan) => true,
        (Token::LessThanEqualTo, Token::LessThanEqualTo) => true,
        (Token::GreaterThan, Token::GreaterThan) => true,
        (Token::GreaterThanEqualTo, Token::GreaterThanEqualTo) => true,
        (Token::EqualEqualTo, Token::EqualEqualTo) => true,
        (Token::KeywordArgs, Token::KeywordArgs) => true,
        (Token::KeywordInt, Token::KeywordInt) => true,
        (Token::KeywordIf, Token::KeywordIf) => true,
        (Token::KeywordThen, Token::KeywordThen) => true,
        (Token::KeywordElse, Token::KeywordElse) => true,
        (Token::KeywordWhile, Token::KeywordWhile) => true,
        (Token::KeywordTrue, Token::KeywordTrue) => true,
        (Token::KeywordFalse, Token::KeywordFalse) => true,
        (Token::KeywordReturn, Token::KeywordReturn) => true,
        (Token::EndOfFile, Token::EndOfFile) => true,
        (Token::Invalid, Token::Invalid) => true,
        _ => false,
    }
}

/// A copy of a token with the same value.
fn clone_token(t: &Token) -> (r: Token)
    ensures
        r@ == t@,
{
    match t {
        Token::Identifier(s) => Token::Identifier(s.clone()),
        Token::Number(s) => Token::Number(s.clone()),
        Token::Plus => Token::Plus,
        Token::Minus => Token::Minus,
        Token::Multiply => Token::Multiply,
        Token::LeftParen => Token::LeftParen,
        Token::RightParen => Token::RightParen,
        Token::Semicolon => Token::Semicolon,
        Token::Assign => Token::Assign,
        Token::Comma => Token::Comma,
        Token::LeftBrace => Token::LeftBrace,
        Token::RightBrace => Token::RightBrace,
        Token::LessThan => Token::LessThan,
        Token::LessThanEqualTo => Token::LessThanEqualTo,
        Token::GreaterThan => Token::GreaterThan,
        Token::GreaterThanEqualTo => Token::GreaterThanEqualTo,
        Token::EqualEqualTo => Token::EqualEqualTo,
        Token::KeywordArgs => Token::KeywordArgs,
        Token::KeywordInt => Token::KeywordInt,
        Token::KeywordIf => Token::KeywordIf,
        Token::KeywordThen => Token::KeywordThen,
        Token::KeywordElse => Token::KeywordElse,
        Token::KeywordWhile => Token::KeywordWhile,
        Token::KeywordTrue => Token::KeywordTrue,
        Token::KeywordFalse => Token::KeywordFalse,
        Token::KeywordReturn => Token::KeywordReturn,
        Token::EndOfFile => Token::EndOfFile,
        Token::Invalid => Token::Invalid,
    }
}

pub struct Parser {
    token_stream: Vec<Token>,
    current_pos: usize,
}

impl Parser {
    /// The values of the tokens being parsed.
    pub closed spec fn toks(&self) -> Seq<Tok> {
        toks_view(self.token_stream@)
    }

    /// The current position.
    pub closed spec fn pos(&self) -> int {
        self.current_pos as int
    }

    /// The parser never moves past the end of its token stream.
    pub closed spec fn wf(&self) -> bool {
        self.current_pos <= self.token_stream@.len()
    }

    pub fn new(tokens: Vec<Token>) -> (r: Self)
        ensures
            r.wf(),
            r.toks() == toks_view(tokens@),
            r.pos() == 0,
    {
        Parser { token_stream: tokens, current_pos: 0 }
    }

    fn peek(&self) -> (t: &Token)
        ensures
            t@ == peek_tok(self.toks(), self.pos()),
    {
        if self.current_pos < self.token_stream.len() {
            &self.token_stream[self.current_pos]
        } else {
            &Token::EndOfFile
        }
    }

    fn consume(&mut self)
        requires
            old(self).wf(),
        ensures
            final(self).wf(),
            final(self).toks() == old(self).toks(),
            final(self).pos() == (if old(self).pos() < old(self).toks().len() {
                old(self).pos() + 1
            } else {
                old(self).pos()
            }),
    {
        if self.current_pos < self.token_stream.len() {
            self.current_pos += 1;
        }
    }

    /// The error for the token standing at the current position.
    fn error_here(&self, kind: ParseErrorKind) -> (e: ParseError)
        requires
            self.wf(),
        ensures
            e@ == sp_err(self.toks(), self.pos(), kind),
    {
        let found = clone_token(self.peek());
        let k = match &found {
            Token::Invalid => ParseErrorKind::LexicalAnomaly,
            _ => kind,
        };
        ParseError { kind: k, position: self.current_pos, found }
    }

    fn expect(&mut self, expected: &Token) -> (r: Result<(), ParseError>)
        requires
            old(self).wf(),
        ensures
            final(self).wf(),
            final(self).toks() == old(self).toks(),
            ({
                let t = old(self).toks();
                let pos = old(self).pos();
                if peek_tok(t, pos) == expected@ {
                    &&& r is Ok
                    &&& final(self).pos() == (if pos < t.len() {
                        pos + 1
                    } else {
                        pos
                    })
                } else {
                    &&& r is Err
                    &&& r->Err_0@ == sp_err(t, pos, expect_kind(expected@))
                    &&& final(self).pos() == pos
                }
            }),
    {
        let matches_expected = token_eq(self.peek(), expected);
        if matches_expected {
            self.consume();
            Ok(())
        } else {
            let k = match expected {
                Token::RightBrace => ParseErrorKind::StructuralViolation,
                Token::RightParen => ParseErrorKind::StructuralViolation,
                Token::KeywordReturn => ParseErrorKind::StructuralViolation,
                _ => ParseErrorKind::SyntaxError,
            };
            Err(self.error_here(k))
        }
    }

    fn parse_factor(&mut self) -> (r: Result<ASTNode, ParseError>)
        requires
            old(self).wf(),
        ensures
            final(self).wf(),
            final(self).toks() == old(self).toks(),
            ({
                let t = old(self).toks();
                let pos = old(self).pos();
                match sp_factor(t, pos) {
                    Parsed::Found(v, p2) => r is Ok && r->Ok_0@ == v && final(self).pos() == p2
                        && pos < p2 <= t.len(),
                    Parsed::Fail(e) => r is Err && r->Err_0@ == e,
                }
            }),
        decreases self.toks().len() - self.pos(), 0int,
    {
        match self.peek() {
            Token::Number(v) => {
                let node = ASTNode::Number(v.clone());
                self.consume();
                Ok(node)
            },
            Token::Identifier(name) => {
                let node = ASTNode::Identifier(name.clone());
                self.consume();
                Ok(node)
            },
            Token::LeftParen => {
                self.consume();
                let inner = match self.parse_expression() {
                    Ok(e) => e,
                    Err(er) => {
                        return Err(er);
                    },
                };
                match self.peek() {
                    Token::RightParen => {
                        self.consume();
                        Ok(inner)
                    },
                    _ => Err(self.error_here(ParseErrorKind::StructuralViolation)),
                }
            },
            _ => Err(self.error_here(ParseErrorKind::SyntaxError)),
        }
    }

    fn parse_term(&mut self) -> (r: Result<ASTNode, ParseError>)
        requires
            old(self).wf(),
        ensures
            final(self).wf(),
            final(self).toks() == old(self).toks(),
            ({
                let t = old(self).toks();
                let pos = old(self).pos();
                match sp_term(t, pos) {
                    Parsed::Found(v, p2) => r is Ok && r->Ok_0@ == v && final(self).pos() == p2
                        && pos < p2 <= t.len(),
                    Parsed::Fail(e) => r is Err && r->Err_0@ == e,
                }
            }),
        decreases self.toks().len() - self.pos(), 1int,
    {
        let factor_node = match self.parse_factor() {
            Ok(f) => f,
            Err(e) => {
                return Err(e);
            },
        };
        self.parse_term_tail(factor_node)
    }

    fn parse_term_tail(&mut self, accumulated: ASTNode) -> (r: Result<ASTNode, ParseError>)
        requires
            old(self).wf(),
        ensures
            final(self).wf(),
            final(self).toks() == old(self).toks(),
            ({
                let t = old(self).toks();
                let pos = old(self).pos();
                match sp_term_tail(t, accumulated@, pos) {
                    Parsed::Found(v, p2) => r is Ok && r->Ok_0@ == v && final(self).pos() == p2
                        && pos <= p2 <= t.len(),
                    Parsed::Fail(e) => r is Err && r->Err_0@ == e,
                }
            }),
        decreases self.toks().len() - self.pos(), 3int,
    {
        match self.peek() {
            Token::Multiply => {
                self.consume();
                let next_factor = match self.parse_factor() {
                    Ok(f) => f,
                    Err(e) => {
                        return Err(e);
                    },
                };
                let combined = ASTNode::Multiply(Box::new(accumulated), Box::new(next_factor));
                self.parse_term_tail(combined)
            },
            _ => Ok(accumulated),
        }
    }

    /// Parses one arithmetic expression, left-associating `+`, `-` and `*`.
    pub fn parse_expression(&mut self) -> (r: Result<ASTNode, ParseError>)
        requires
            old(self).wf(),
        ensures
            final(self).wf(),
            final(self).toks() == old(self).toks(),
            ({
                let t = old(self).toks();
                let pos = old(self).pos();
                match sp_expression(t, pos) {
                    Parsed::Found(v, p2) => r is Ok && r->Ok_0@ == v && final(self).pos() == p2
                        && pos < p2 <= t.len(),
                    Parsed::Fail(e) => r is Err && r->Err_0@ == e,
                }
            }),
        decreases self.toks().len() - self.pos(), 2int,
    {
        let term_node = match self.parse_term() {
            Ok(f) => f,
            Err(e) => {
                return Err(e);
            },
        };
        self.parse_expression_tail(term_node)
    }

    fn parse_expression_tail(&mut self, accumulated: ASTNode) -> (r: Result<ASTNode, ParseError>)
        requires
            old(self).wf(),
        ensures
            final(self).wf(),
            final(self).toks() == old(self).toks(),
            ({
                let t = old(self).toks();
                let pos = old(self).pos();
                match sp_expression_tail(t, accumulated@, pos) {
                    Parsed::Found(v, p2) => r is Ok && r->Ok_0@ == v && final(self).pos() == p2
                        && pos <= p2 <= t.len(),
                    Parsed::Fail(e) => r is Err && r->Err_0@ == e,
                }
            }),
        decreases self.toks().len() - self.pos(), 3int,
    {
        match self.peek() {
            Token::Plus => {
                self.consume();
                let next_term = match self.parse_term() {
                    Ok(f) => f,
                    Err(e) => {
                        return Err(e);
                    },
                };
                let combined = ASTNode::Add(Box::new(accumulated), Box::new(next_term));
                self.parse_expression_tail(combined)
            },
            Token::Minus => {
                self.consume();
                let next_term = match self.parse_term() {
                    Ok(f) => f,
                    Err(e) => {
                        return Err(e);
                    },
                };
                let combined = ASTNode::Sub(Box::new(accumulated), Box::new(next_term));
                self.parse_expression_tail(combined)
            },
            _ => Ok(accumulated),
        }
    }

    fn parse_boolean(&mut self) -> (r: Result<BooleanExpression, ParseError>)
        requires
            old(self).wf(),
        ensures
            final(self).wf(),
            final(self).toks() == old(self).toks(),
            ({
                let t = old(self).toks();
                let pos = old(self).pos();
                match sp_boolean(t, pos) {
                    Parsed::Found(v, p2) => r is Ok && r->Ok_0@ == v && final(self).pos() == p2
                        && pos < p2 <= t.len(),
                    Parsed::Fail(e) => r is Err && r->Err_0@ == e,
                }
            }),
    {
        match self.peek() {
            Token::KeywordTrue => {
                self.consume();
                Ok(BooleanExpression::True)
            },
            Token::KeywordFalse => {
                self.consume();
                Ok(BooleanExpression::False)
            },
            _ => {
                let left = match self.parse_expression() {
                    Ok(e) => e,
                    Err(e) => {
                        return Err(e);
                    },
                };
                match self.peek() {
                    Token::LessThan => {
                        self.consume();
                        let right = match self.parse_expression() {
                            Ok(e) => e,
                            Err(e) => {
                                return Err(e);
                            },
                        };
                        Ok(BooleanExpression::CompareLessThan(Box::new(left), Box::new(right)))
                    },
                    Token::LessThanEqualTo => {
                        self.consume();
                        let right = match self.parse_expression() {
                            Ok(e) => e,
                            Err(e) => {
                                return Err(e);
                            },
                        };
                        Ok(
                            BooleanExpression::CompareLessThanEqualTo(
                                Box::new(left),
                                Box::new(right),
                            ),
                        )
                    },
                    Token::GreaterThan => {
                        self.consume();
                        let right = match self.parse_expression() {
                            Ok(e) => e,
                            Err(e) => {
                                return Err(e);
                            },
                        };
                        Ok(BooleanExpression::CompareGreaterThan(Box::new(left), Box::new(right)))
                    },
                    Token::GreaterThanEqualTo => {
                        self.consume();
                        let right = match self.parse_expression() {
                            Ok(e) => e,
                            Err(e) => {
                                return Err(e);
                            },
                        };
                        Ok(
                            BooleanExpression::CompareGreaterThanEqualTo(
                                Box::new(left),
                                Box::new(right),
                            ),
                        )
                    },
                    Token::EqualEqualTo => {
                        self.consume();
                        let right = match self.parse_expression() {
                            Ok(e) => e,
                            Err(e) => {
                                return Err(e);
                            },
                        };
                        Ok(BooleanExpression::CompareEqualTo(Box::new(left), Box::new(right)))
                    },
                    _ => Err(self.error_here(ParseErrorKind::StructuralViolation)),
                }
            },
        }
    }

    fn parse_statements(&mut self) -> (r: Result<Vec<Statement>, ParseError>)
        requires
            old(self).wf(),
        ensures
            final(self).wf(),
            final(self).toks() == old(self).toks(),
            ({
                let t = old(self).toks();
                let pos = old(self).pos();
                match sp_statements(t, pos) {
                    Parsed::Found(ss, p2) => r is Ok && stms_view(r->Ok_0) == ss && final(self).pos() == p2 && pos <= p2 <= t.len(),
                    Parsed::Fail(e) => r is Err && r->Err_0@ == e,
                }
            }),
        decreases self.toks().len() - self.pos(), 2int,
    {
        let mut stmts: Vec<Statement> = Vec::new();
        loop
            invariant
                self.wf(),
                self.toks() == old(self).toks(),
                old(self).pos() <= self.pos() <= self.toks().len(),
                ({
                    let t = self.toks();
                    match sp_statements(t, self.pos()) {
                        Parsed::Found(rest, p2) => sp_statements(t, old(self).pos())
                            == Parsed::Found(stms_view(stmts) + rest, p2),
                        Parsed::Fail(e) => sp_statements(t, old(self).pos()) == Parsed::<Seq<Stm>>::Fail(e),
                    }
                }),
            decreases self.toks().len() - self.pos(),
        {
            let starts = match self.peek() {
                Token::Identifier(_) => true,
                Token::KeywordIf => true,
                Token::KeywordWhile => true,
                _ => false,
            };
            if !starts {
                proof {
                    assert(stms_view(stmts) + Seq::<Stm>::empty() =~= stms_view(stmts));
                }
                return Ok(stmts);
            }
            let ghost cur = self.pos();
            let s = match self.parse_statement() {
                Ok(s) => s,
                Err(e) => {
                    return Err(e);
                },
            };
            let ghost prev = stmts;
            stmts.push(s);
            proof {
                let t = self.toks();
                let p1 = self.pos();
                assert(step_to(t.len() as int, cur, p1) == p1);
                lemma_vec_stms_view(prev, 0);
                lemma_vec_stms_view(stmts, 0);
                assert(stms_view(stmts) =~= stms_view(prev) + seq![stm_view(s)]);
                assert(stms_view(prev) + (seq![stm_view(s)] + Seq::<Stm>::empty()) =~= stms_view(
                    stmts,
                ));
                match sp_statements(t, p1) {
                    Parsed::Found(rest, p2) => {
                        assert(sp_statements(t, cur) == Parsed::Found(
                            seq![stm_view(s)] + rest,
                            p2,
                        ));
                        assert(stms_view(prev) + (seq![stm_view(s)] + rest) =~= stms_view(stmts)
                            + rest);
                    },
                    Parsed::Fail(_) => {},
                }
            }
        }
    }

    fn parse_statement(&mut self) -> (r: Result<Statement, ParseError>)
        requires
            old(self).wf(),
        ensures
            final(self).wf(),
            final(self).toks() == old(self).toks(),
            ({
                let t = old(self).toks();
                let pos = old(self).pos();
                match sp_statement(t, pos) {
                    Parsed::Found(v, p2) => r is Ok && r->Ok_0@ == v && final(self).pos() == p2
                        && pos < p2 <= t.len(),
                    Parsed::Fail(e) => r is Err && r->Err_0@ == e,
                }
            }),
        decreases self.toks().len() - self.pos(), 1int,
    {
        match self.peek() {
            Token::Identifier(_) => self.parse_assign(),
            Token::KeywordIf => self.parse_if_statement(),
            Token::KeywordWhile => self.parse_while_statement(),
            _ => Err(self.error_here(ParseErrorKind::SyntaxError)),
        }
    }

    fn parse_assign(&mut self) -> (r: Result<Statement, ParseError>)
        requires
            old(self).wf(),
        ensures
            final(self).wf(),
            final(self).toks() == old(self).toks(),
            ({
                let t = old(self).toks();
                let pos = old(self).pos();
                match sp_assign(t, pos) {
                    Parsed::Found(v, p2) => r is Ok && r->Ok_0@ == v && final(self).pos() == p2
                        && pos < p2 <= t.len(),
                    Parsed::Fail(e) => r is Err && r->Err_0@ == e,
                }
            }),
    {
        let name = match self.peek() {
            Token::Identifier(name) => name.clone(),
            _ => {
                return Err(self.error_here(ParseErrorKind::SyntaxError));
            },
        };
        self.consume();
        match self.expect(&Token::Assign) {
            Ok(_) => {},
            Err(e) => {
                return Err(e);
            },
        }
        let expr = match self.parse_expression() {
            Ok(e) => e,
            Err(e) => {
                return Err(e);
            },
        };
        match self.expect(&Token::Semicolon) {
            Ok(_) => {},
            Err(e) => {
                return Err(e);
            },
        }
        Ok(Statement::Assign { name, expression: Box::new(expr) })
    }

    fn parse_if_statement(&mut self) -> (r: Result<Statement, ParseError>)
        requires
            old(self).wf(),
        ensures
            final(self).wf(),
            final(self).toks() == old(self).toks(),
            ({
                let t = old(self).toks();
                let pos = old(self).pos();
                match sp_if(t, pos) {
                    Parsed::Found(v, p2) => r is Ok && r->Ok_0@ == v && final(self).pos() == p2
                        && pos < p2 <= t.len(),
                    Parsed::Fail(e) => r is Err && r->Err_0@ == e,
                }
            }),
        decreases self.toks().len() - self.pos(), 0int,
    {
        match self.expect(&Token::KeywordIf) {
            Ok(_) => {},
            Err(e) => {
                return Err(e);
            },
        }
        let cond = match self.parse_boolean() {
            Ok(b) => b,
            Err(e) => {
                return Err(e);
            },
        };
        match self.expect(&Token::KeywordThen) {
            Ok(_) => {},
            Err(e) => {
                return Err(e);
            },
        }
        match self.expect(&Token::LeftBrace) {
            Ok(_) => {},
            Err(e) => {
                return Err(e);
            },
        }
        let then_part = match self.parse_statements() {
            Ok(ss) => ss,
            Err(e) => {
                return Err(e);
            },
        };
        match self.expect(&Token::RightBrace) {
            Ok(_) => {},
            Err(e) => {
                return Err(e);
            },
        }
        match self.expect(&Token::KeywordElse) {
            Ok(_) => {},
            Err(e) => {
                return Err(e);
            },
        }
        match self.expect(&Token::LeftBrace) {
            Ok(_) => {},
            Err(e) => {
                return Err(e);
            },
        }
        let else_part = match self.parse_statements() {
            Ok(ss) => ss,
            Err(e) => {
                return Err(e);
            },
        };
        match self.expect(&Token::RightBrace) {
            Ok(_) => {},
            Err(e) => {
                return Err(e);
            },
        }
        Ok(
            Statement::If {
                condition: cond,
                then_statements: then_part,
                else_statements: else_part,
            },
        )
    }

    fn parse_while_statement(&mut self) -> (r: Result<Statement, ParseError>)
        requires
            old(self).wf(),
        ensures
            final(self).wf(),
            final(self).toks() == old(self).toks(),
            ({
                let t = old(self).toks();
                let pos = old(self).pos();
                match sp_while(t, pos) {
                    Parsed::Found(v, p2) => r is Ok && r->Ok_0@ == v && final(self).pos() == p2
                        && pos < p2 <= t.len(),
                    Parsed::Fail(e) => r is Err && r->Err_0@ == e,
                }
            }),
        decreases self.toks().len() - self.pos(), 0int,
    {
        match self.expect(&Token::KeywordWhile) {
            Ok(_) => {},
            Err(e) => {
                return Err(e);
            },
        }
        let cond = match self.parse_boolean() {
            Ok(b) => b,
            Err(e) => {
                return Err(e);
            },
        };
        match self.expect(&Token::KeywordThen) {
            Ok(_) => {},
            Err(e) => {
                return Err(e);
            },
        }
        match self.expect(&Token::LeftBrace) {
            Ok(_) => {},
            Err(e) => {
                return Err(e);
            },
        }
        let body = match self.parse_statements() {
            Ok(ss) => ss,
            Err(e) => {
                return Err(e);
            },
        };
        match self.expect(&Token::RightBrace) {
            Ok(_) => {},
            Err(e) => {
                return Err(e);
            },
        }
        Ok(Statement::While { condition: cond, body })
    }

    fn parse_argdecl(&mut self) -> (r: Result<Vec<String>, ParseError>)
        requires
            old(self).wf(),
        ensures
            final(self).wf(),
            final(self).toks() == old(self).toks(),
            ({
                let t = old(self).toks();
                let pos = old(self).pos();
                match sp_argdecl(t, pos) {
                    Parsed::Found(names, p2) => r is Ok && names_view(r->Ok_0@) == names && final(self).pos() == p2 && pos < p2 <= t.len(),
                    Parsed::Fail(e) => r is Err && r->Err_0@ == e,
                }
            }),
    {
        let mut args: Vec<String> = Vec::new();
        match self.expect(&Token::KeywordArgs) {
            Ok(_) => {},
            Err(e) => {
                return Err(e);
            },
        }
        match self.peek() {
            Token::Identifier(name) => {
                args.push(name.clone());
                self.consume();
            },
            _ => {
                return Err(self.error_here(ParseErrorKind::SyntaxError));
            },
        }
        proof {
            assert(names_view(args@) =~= seq![old(self).toks()[old(self).pos() + 1]->Identifier_0]);
        }
        loop
            invariant
                self.wf(),
                self.toks() == old(self).toks(),
                old(self).pos() < self.pos() <= self.toks().len(),
                sp_argdecl(old(self).toks(), old(self).pos()) == sp_argdecl_tail(
                    self.toks(),
                    self.pos(),
                    names_view(args@),
                ),
            decreases self.toks().len() - self.pos(),
        {
            let is_semi = token_eq(self.peek(), &Token::Semicolon);
            if is_semi {
                self.consume();
                return Ok(args);
            }
            match self.peek() {
                Token::Identifier(name) => {
                    let ghost prev = args@;
                    args.push(name.clone());
                    self.consume();
                    proof {
                        assert(names_view(args@) =~= names_view(prev).push(
                            peek_tok(self.toks(), self.pos() - 1)->Identifier_0,
                        ));
                    }
                },
                _ => {
                    return Err(self.error_here(ParseErrorKind::SyntaxError));
                },
            }
        }
    }

    fn parse_typedecl(&mut self) -> (r: Result<Vec<String>, ParseError>)
        requires
            old(self).wf(),
        ensures
            final(self).wf(),
            final(self).toks() == old(self).toks(),
            ({
                let t = old(self).toks();
                let pos = old(self).pos();
                match sp_typedecl(t, pos) {
                    Parsed::Found(names, p2) => r is Ok && names_view(r->Ok_0@) == names && final(self).pos() == p2 && pos < p2 <= t.len(),
                    Parsed::Fail(e) => r is Err && r->Err_0@ == e,
                }
            }),
    {
        let mut vars: Vec<String> = Vec::new();
        match self.expect(&Token::KeywordInt) {
            Ok(_) => {},
            Err(e) => {
                return Err(e);
            },
        }
        match self.peek() {
            Token::Identifier(name) => {
                vars.push(name.clone());
                self.consume();
            },
            _ => {
                return Err(self.error_here(ParseErrorKind::SyntaxError));
            },
        }
        proof {
            assert(names_view(vars@) =~= seq![old(self).toks()[old(self).pos() + 1]->Identifier_0]);
        }
        loop
            invariant
                self.wf(),
                self.toks() == old(self).toks(),
                old(self).pos() < self.pos() <= self.toks().len(),
                sp_typedecl(old(self).toks(), old(self).pos()) == sp_typedecl_tail(
                    self.toks(),
                    self.pos(),
                    names_view(vars@),
                ),
            decreases self.toks().len() - self.pos(),
        {
            let is_semi = token_eq(self.peek(), &Token::Semicolon);
            if is_semi {
                self.consume();
                return Ok(vars);
            }
            let is_comma = token_eq(self.peek(), &Token::Comma);
            if is_comma {
                self.consume();
                match self.peek() {
                    Token::Identifier(name) => {
                        let ghost prev = vars@;
                        vars.push(name.clone());
                        self.consume();
                        proof {
                            assert(names_view(vars@) =~= names_view(prev).push(
                                peek_tok(self.toks(), self.pos() - 1)->Identifier_0,
                            ));
                        }
                    },
                    _ => {
                        return Err(self.error_here(ParseErrorKind::SyntaxError));
                    },
                }
            } else {
                return Err(self.error_here(ParseErrorKind::SyntaxError));
            }
        }
    }

    fn parse_return(&mut self) -> (r: Result<String, ParseError>)
        requires
            old(self).wf(),
        ensures
            final(self).wf(),
            final(self).toks() == old(self).toks(),
            ({
                let t = old(self).toks();
                let pos = old(self).pos();
                match sp_return(t, pos) {
                    Parsed::Found(name, p2) => r is Ok && r->Ok_0@ == name && final(self).pos()
                        == p2 && pos < p2 <= t.len(),
                    Parsed::Fail(e) => r is Err && r->Err_0@ == e,
                }
            }),
    {
        match self.expect(&Token::KeywordReturn) {
            Ok(_) => {},
            Err(e) => {
                return Err(e);
            },
        }
        let ident = match self.peek() {
            Token::Identifier(name) => name.clone(),
            _ => {
                return Err(self.error_here(ParseErrorKind::SyntaxError));
            },
        };
        self.consume();
        match self.expect(&Token::Semicolon) {
            Ok(_) => {},
            Err(e) => {
                return Err(e);
            },
        }
        Ok(ident)
    }

    /// Parses a whole program: argument declarations, variable declarations,
    /// the statements, and the terminal `return`.  Tokens after the final
    /// `;` are left unread.
    pub fn parse_program(&mut self) -> (r: Result<Program, ParseError>)
        requires
            old(self).wf(),
        ensures
            final(self).wf(),
            final(self).toks() == old(self).toks(),
            ({
                let t = old(self).toks();
                let pos = old(self).pos();
                match sp_program(t, pos) {
                    Parsed::Found(p, p4) => r is Ok && r->Ok_0@ == p && final(self).pos() == p4,
                    Parsed::Fail(e) => r is Err && r->Err_0@ == e,
                }
            }),
    {
        let arg_declarations = match self.parse_argdecl() {
            Ok(v) => v,
            Err(e) => {
                return Err(e);
            },
        };
        let var_declarations = match self.parse_typedecl() {
            Ok(v) => v,
            Err(e) => {
                return Err(e);
            },
        };
        let statements = match self.parse_statements() {
            Ok(v) => v,
            Err(e) => {
                return Err(e);
            },
        };
        let return_ident = match self.parse_return() {
            Ok(v) => v,
            Err(e) => {
                return Err(e);
            },
        };
        Ok(Program { arg_declarations, var_declarations, statements, return_ident })
    }
}

} // verus!
