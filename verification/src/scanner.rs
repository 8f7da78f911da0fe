//! The scanner: one left-to-right pass over the source text, producing the
//! token sequence that the parser consumes.
//!
//! The specification-level scanner is `spec_tokens`; `Scanner::tokenize` and
//! `scan_source` are proved to return exactly its value.

use crate::text::{
    chars_vec, is_digit_char, is_whitespace_char, is_word_char, is_word_start_char,
    spec_is_digit, spec_is_whitespace, spec_is_word_char, spec_is_word_start, str_eq,
    string_from_chars,
};
use vstd::prelude::*;

verus! {

/// A token of the source language.
#[derive(Debug, Clone, PartialEq)]
pub enum Token {
    Identifier(String),
    Number(String),
    // arithmetic / parens
    Plus,
    Minus,
    Multiply,
    LeftParen,
    RightParen,
    // punctuation / separators
    Semicolon,
    Assign,
    Comma,
    LeftBrace,
    RightBrace,
    // comparisons
    LessThan,
    LessThanEqualTo,
    GreaterThan,
    GreaterThanEqualTo,
    EqualEqualTo,
    // keywords
    KeywordArgs,
    KeywordInt,
    KeywordIf,
    KeywordThen,
    KeywordElse,
    KeywordWhile,
    KeywordTrue,
    KeywordFalse,
    KeywordReturn,
    // end / misc
    EndOfFile,
    Invalid,
}

/// The mathematical value of a `Token`: the same tags, with text abstracted
/// to its character sequence.
pub enum Tok {
    Identifier(Seq<char>),
    Number(Seq<char>),
    Plus,
    Minus,
    Multiply,
    LeftParen,
    RightParen,
    Semicolon,
    Assign,
    Comma,
    LeftBrace,
    RightBrace,
    LessThan,
    LessThanEqualTo,
    GreaterThan,
    GreaterThanEqualTo,
    EqualEqualTo,
    KeywordArgs,
    KeywordInt,
    KeywordIf,
    KeywordThen,
    KeywordElse,
    KeywordWhile,
    KeywordTrue,
    KeywordFalse,
    KeywordReturn,
    EndOfFile,
    Invalid,
}

impl View for Token {
    type V = Tok;

    open spec fn view(&self) -> Tok {
        match self {
            Token::Identifier(s) => Tok::Identifier(s@),
            Token::Number(s) => Tok::Number(s@),
            Token::Plus => Tok::Plus,
            Token::Minus => Tok::Minus,
            Token::Multiply => Tok::Multiply,
            Token::LeftParen => Tok::LeftParen,
            Token::RightParen => Tok::RightParen,
            Token::Semicolon => Tok::Semicolon,
            Token::Assign => Tok::Assign,
            Token::Comma => Tok::Comma,
            Token::LeftBrace => Tok::LeftBrace,
            Token::RightBrace => Tok::RightBrace,
            Token::LessThan => Tok::LessThan,
            Token::LessThanEqualTo => Tok::LessThanEqualTo,
            Token::GreaterThan => Tok::GreaterThan,
            Token::GreaterThanEqualTo => Tok::GreaterThanEqualTo,
            Token::EqualEqualTo => Tok::EqualEqualTo,
            Token::KeywordArgs => Tok::KeywordArgs,
            Token::KeywordInt => Tok::KeywordInt,
            Token::KeywordIf => Tok::KeywordIf,
            Token::KeywordThen => Tok::KeywordThen,
            Token::KeywordElse => Tok::KeywordElse,
            Token::KeywordWhile => Tok::KeywordWhile,
            Token::KeywordTrue => Tok::KeywordTrue,
            Token::KeywordFalse => Tok::KeywordFalse,
            Token::KeywordReturn => Tok::KeywordReturn,
            Token::EndOfFile => Tok::EndOfFile,
            Token::Invalid => Tok::Invalid,
        }
    }
}

/// The values of a token sequence.
pub open spec fn toks_view(v: Seq<Token>) -> Seq<Tok> {
    v.map_values(|t: Token| t@)
}

// ---------------------------------------------------------------------------
// The specification-level scanner
// ---------------------------------------------------------------------------
/// The first position at or after `pos` holding a non-white-space character
/// (or the end of the text).
pub open spec fn skip_ws(s: Seq<char>, pos: int) -> int
    decreases s.len() - pos,
{
    if pos < 0 || pos >= s.len() {
        pos
    } else if spec_is_whitespace(s[pos]) {
        skip_ws(s, pos + 1)
    } else {
        pos
    }
}

/// The end of the maximal run of digit characters (`digits_only`) or of
/// identifier characters (otherwise) starting at `pos`.
pub open spec fn run_end(s: Seq<char>, pos: int, digits_only: bool) -> int
    decreases s.len() - pos,
{
    if pos < 0 || pos >= s.len() {
        pos
    } else if (if digits_only {
        spec_is_digit(s[pos])
    } else {
        spec_is_word_char(s[pos])
    }) {
        run_end(s, pos + 1, digits_only)
    } else {
        pos
    }
}

/// The keyword token for a scanned identifier, or the identifier itself when
/// it matches no keyword: keywords are implicitly reserved.
pub open spec fn keyword_tok(w: Seq<char>) -> Tok {
    if w == "args"@ {
        Tok::KeywordArgs
    } else if w == "int"@ {
        Tok::KeywordInt
    } else if w == "if"@ {
        Tok::KeywordIf
    } else if w == "then"@ {
        Tok::KeywordThen
    } else if w == "else"@ {
        Tok::KeywordElse
    } else if w == "while"@ {
        Tok::KeywordWhile
    } else if w == "true"@ {
        Tok::KeywordTrue
    } else if w == "false"@ {
        Tok::KeywordFalse
    } else if w == "return"@ {
        Tok::KeywordReturn
    } else {
        Tok::Identifier(w)
    }
}

/// The token starting at the non-white-space position `pos`, together with
/// the position just past it.  Multi-character operators take one character
/// of lookahead; any character outside the language yields `Invalid`.
pub open spec fn tok_at(s: Seq<char>, pos: int) -> (Tok, int)
    recommends
        0 <= pos < s.len(),
{
    let c = s[pos];
    if c == '<' {
        if pos + 1 < s.len() && s[pos + 1] == '=' {
            (Tok::LessThanEqualTo, pos + 2)
        } else {
            (Tok::LessThan, pos + 1)
        }
    } else if c == '>' {
        if pos + 1 < s.len() && s[pos + 1] == '=' {
            (Tok::GreaterThanEqualTo, pos + 2)
        } else {
            (Tok::GreaterThan, pos + 1)
        }
    } else if c == '=' {
        if pos + 1 < s.len() && s[pos + 1] == '=' {
            (Tok::EqualEqualTo, pos + 2)
        } else {
            (Tok::Assign, pos + 1)
        }
    } else if c == ';' {
        (Tok::Semicolon, pos + 1)
    } else if c == ',' {
        (Tok::Comma, pos + 1)
    } else if c == '{' {
        (Tok::LeftBrace, pos + 1)
    } else if c == '}' {
        (Tok::RightBrace, pos + 1)
    } else if c == '(' {
        (Tok::LeftParen, pos + 1)
    } else if c == ')' {
        (Tok::RightParen, pos + 1)
    } else if c == '+' {
        (Tok::Plus, pos + 1)
    } else if c == '-' {
        (Tok::Minus, pos + 1)
    } else if c == '*' {
        (Tok::Multiply, pos + 1)
    } else if spec_is_digit(c) {
        let e = run_end(s, pos + 1, true);
        (Tok::Number(s.subrange(pos, e)), e)
    } else if spec_is_word_start(c) {
        let e = run_end(s, pos + 1, false);
        (keyword_tok(s.subrange(pos, e)), e)
    } else {
        (Tok::Invalid, pos + 1)
    }
}

/// A strictly advancing position bound, used so that the scanning recursion
/// is well-founded independently of facts about `tok_at`.
pub open spec fn step_to(len: int, cur: int, next: int) -> int {
    if cur < next && next <= len {
        next
    } else {
        cur + 1
    }
}

/// The token sequence scanned from position `pos` on, ending in `EndOfFile`.
pub open spec fn spec_scan_from(s: Seq<char>, pos: int) -> Seq<Tok>
    decreases s.len() - pos,
{
    if pos < 0 || pos > s.len() {
        seq![Tok::EndOfFile]
    } else {
        let p = skip_ws(s, pos);
        if !(pos <= p && p < s.len()) {
            seq![Tok::EndOfFile]
        } else {
            let t = tok_at(s, p).0;
            let q = tok_at(s, p).1;
            seq![t] + spec_scan_from(s, step_to(s.len() as int, p, q))
        }
    }
}

/// The token sequence of a whole source text.
pub open spec fn spec_tokens(s: Seq<char>) -> Seq<Tok> {
    spec_scan_from(s, 0)
}

// ---------------------------------------------------------------------------
// The executable scanner
// ---------------------------------------------------------------------------
pub struct Scanner {
    position: usize,
    input_chars: Vec<char>,
}

impl Scanner {
    /// The scanner never moves past the end of its input.
    pub closed spec fn wf(&self) -> bool {
        self.position <= self.input_chars@.len()
    }

    /// The characters being scanned.
    pub closed spec fn src(&self) -> Seq<char> {
        self.input_chars@
    }

    /// The current position.
    pub closed spec fn pos(&self) -> int {
        self.position as int
    }

    pub fn new(source: String) -> (r: Self)
        ensures
            r.wf(),
            r.src() == source@,
            r.pos() == 0,
    {
        Scanner { position: 0, input_chars: chars_vec(source.as_str()) }
    }

    fn current_char(&self) -> (c: Option<char>)
        ensures
            c == (if self.pos() < self.src().len() {
                Some(self.src()[self.pos()])
            } else {
                None::<char>
            }),
    {
        if self.position < self.input_chars.len() {
            Some(self.input_chars[self.position])
        } else {
            None
        }
    }

    fn advance(&mut self) -> (c: Option<char>)
        requires
            old(self).wf(),
        ensures
            final(self).wf(),
            final(self).src() == old(self).src(),
            match c {
                Some(ch) => old(self).pos() < old(self).src().len() && ch == old(self).src()[old(
                    self,
                ).pos()] && final(self).pos() == old(self).pos() + 1,
                None => old(self).pos() == old(self).src().len() && final(self).pos() == old(
                    self,
                ).pos(),
            },
    {
        match self.current_char() {
            Some(c) => {
                if self.position < self.input_chars.len() {
                    self.position += 1;
                }
                Some(c)
            },
            None => None,
        }
    }

    fn skip_whitespace(&mut self)
        requires
            old(self).wf(),
        ensures
            final(self).wf(),
            final(self).src() == old(self).src(),
            old(self).pos() <= final(self).pos(),
            final(self).pos() == skip_ws(old(self).src(), old(self).pos()),
    {
        loop
            invariant
                self.wf(),
                self.src() == old(self).src(),
                old(self).pos() <= self.pos(),
                skip_ws(self.src(), self.pos()) == skip_ws(old(self).src(), old(self).pos()),
            ensures
                self.wf(),
                self.src() == old(self).src(),
                old(self).pos() <= self.pos(),
                self.pos() == skip_ws(old(self).src(), old(self).pos()),
            decreases self.src().len() - self.pos(),
        {
            match self.current_char() {
                Some(ch) => {
                    if is_whitespace_char(ch) {
                        self.advance();
                    } else {
                        break ;
                    }
                },
                None => {
                    break ;
                },
            }
        }
    }

    fn collect_while(&mut self, first: char, digits_only: bool) -> (text: String)
        requires
            old(self).wf(),
        ensures
            final(self).wf(),
            final(self).src() == old(self).src(),
            old(self).pos() <= final(self).pos(),
            final(self).pos() == run_end(old(self).src(), old(self).pos(), digits_only),
            text@ == seq![first] + old(self).src().subrange(old(self).pos(), final(self).pos()),
    {
        let mut buf: Vec<char> = Vec::new();
        buf.push(first);
        loop
            invariant
                self.wf(),
                self.src() == old(self).src(),
                old(self).pos() <= self.pos(),
                run_end(self.src(), self.pos(), digits_only) == run_end(
                    old(self).src(),
                    old(self).pos(),
                    digits_only,
                ),
                buf@ == seq![first] + self.src().subrange(old(self).pos(), self.pos()),
            ensures
                self.wf(),
                self.src() == old(self).src(),
                old(self).pos() <= self.pos(),
                self.pos() == run_end(old(self).src(), old(self).pos(), digits_only),
                buf@ == seq![first] + self.src().subrange(old(self).pos(), self.pos()),
            decreases self.src().len() - self.pos(),
        {
            match self.current_char() {
                Some(next) => {
                    let keep = if digits_only {
                        is_digit_char(next)
                    } else {
                        is_word_char(next)
                    };
                    if keep {
                        self.advance();
                        buf.push(next);
                        proof {
                            assert(buf@ =~= seq![first] + self.src().subrange(
                                old(self).pos(),
                                self.pos(),
                            ));
                        }
                    } else {
                        break ;
                    }
                },
                None => {
                    break ;
                },
            }
        }
        string_from_chars(&buf)
    }

    /// Maps an identifier's text to its keyword token when it is one.
    fn keyword_or_ident(s: String) -> (r: Token)
        ensures
            r@ == keyword_tok(s@),
    {
        if str_eq(s.as_str(), "args") {
            Token::KeywordArgs
        } else if str_eq(s.as_str(), "int") {
            Token::KeywordInt
        } else if str_eq(s.as_str(), "if") {
            Token::KeywordIf
        } else if str_eq(s.as_str(), "then") {
            Token::KeywordThen
        } else if str_eq(s.as_str(), "else") {
            Token::KeywordElse
        } else if str_eq(s.as_str(), "while") {
            Token::KeywordWhile
        } else if str_eq(s.as_str(), "true") {
            Token::KeywordTrue
        } else if str_eq(s.as_str(), "false") {
            Token::KeywordFalse
        } else if str_eq(s.as_str(), "return") {
            Token::KeywordReturn
        } else {
            Token::Identifier(s)
        }
    }

    fn next_token(&mut self) -> (r: Option<Token>)
        requires
            old(self).wf(),
        ensures
            final(self).wf(),
            final(self).src() == old(self).src(),
            ({
                let s = old(self).src();
                let p = skip_ws(s, old(self).pos());
                match r {
                    None => p == s.len() && final(self).pos() == p,
                    Some(tok) => {
                        &&& old(self).pos() <= p < s.len()
                        &&& tok@ == tok_at(s, p).0
                        &&& final(self).pos() == tok_at(s, p).1
                        &&& p < tok_at(s, p).1 <= s.len()
                    },
                }
            }),
    {
        self.skip_whitespace();
        let ghost s = self.src();
        let ghost p = self.pos();
        let ch = match self.advance() {
            Some(ch) => ch,
            None => {
                return None;
            },
        };
        let tok = if ch == '<' {
            if self.current_char() == Some('=') {
                self.advance();
                Token::LessThanEqualTo
            } else {
                Token::LessThan
            }
        } else if ch == '>' {
            if self.current_char() == Some('=') {
                self.advance();
                Token::GreaterThanEqualTo
            } else {
                Token::GreaterThan
            }
        } else if ch == '=' {
            if self.current_char() == Some('=') {
                self.advance();
                Token::EqualEqualTo
            } else {
                Token::Assign
            }
        } else if ch == ';' {
            Token::Semicolon
        } else if ch == ',' {
            Token::Comma
        } else if ch == '{' {
            Token::LeftBrace
        } else if ch == '}' {
            Token::RightBrace
        } else if ch == '(' {
            Token::LeftParen
        } else if ch == ')' {
            Token::RightParen
        } else if ch == '+' {
            Token::Plus
        } else if ch == '-' {
            Token::Minus
        } else if ch == '*' {
            Token::Multiply
        } else if is_digit_char(ch) {
            let digits = self.collect_while(ch, true);
            proof {
                assert(digits@ =~= s.subrange(p, run_end(s, p + 1, true)));
            }
            Token::Number(digits)
        } else if is_word_start_char(ch) {
            let ident = self.collect_while(ch, false);
            proof {
                assert(ident@ =~= s.subrange(p, run_end(s, p + 1, false)));
            }
            Scanner::keyword_or_ident(ident)
        } else {
            Token::Invalid
        };
        Some(tok)
    }

    /// Scans the rest of the input into tokens, ending with `EndOfFile`.
    pub fn tokenize(&mut self) -> (r: Vec<Token>)
        requires
            old(self).wf(),
        ensures
            final(self).wf(),
            final(self).src() == old(self).src(),
            toks_view(r@) == spec_scan_from(old(self).src(), old(self).pos()),
    {
        let mut tokens: Vec<Token> = Vec::new();
        let mut done = false;
        while !done
            invariant
                self.wf(),
                self.src() == old(self).src(),
                old(self).pos() <= self.pos(),
                toks_view(tokens@) + spec_scan_from(self.src(), self.pos()) == spec_scan_from(
                    old(self).src(),
                    old(self).pos(),
                ),
                done ==> self.pos() == self.src().len(),
            decreases self.src().len() - self.pos() + (if done {
                0int
            } else {
                1int
            }),
        {
            let ghost pre = self.pos();
            match self.next_token() {
                Some(tok) => {
                    proof {
                        let s = self.src();
                        let p = skip_ws(s, pre);
                        let q = tok_at(s, p).1;
                        assert(step_to(s.len() as int, p, q) == q);
                        assert(spec_scan_from(s, pre) == seq![tok@] + spec_scan_from(s, q));
                        assert(toks_view(tokens@.push(tok)) =~= toks_view(tokens@) + seq![tok@]);
                        assert((toks_view(tokens@) + seq![tok@]) + spec_scan_from(s, q)
                            =~= toks_view(tokens@) + (seq![tok@] + spec_scan_from(s, q)));
                    }
                    tokens.push(tok);
                },
                None => {
                    done = true;
                },
            }
        }
        proof {
            assert(spec_scan_from(self.src(), self.pos()) =~= seq![Tok::EndOfFile]);
            assert(toks_view(tokens@.push(Token::EndOfFile)) =~= toks_view(tokens@) + seq![
                Tok::EndOfFile,
            ]);
        }
        tokens.push(Token::EndOfFile);
        tokens
    }
}

/// Scans a whole source text: the tokens of `source`, ending in `EndOfFile`.
pub fn scan_source(source: &str) -> (r: Vec<Token>)
    ensures
        toks_view(r@) == spec_tokens(source@),
{
    let mut lexer = Scanner::new(String::from_str(source));
    lexer.tokenize()
}

} // verus!
