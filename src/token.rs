//! Positions, locations and the tokens that the lexer produces.

use vstd::prelude::*;

verus! {

/// A zero-based point in the source: a line and a column, counted in
/// characters.
#[derive(Debug, Clone, Copy, PartialEq, Eq, Structural)]
pub struct Position {
    pub line: usize,
    pub column: usize,
}

/// The half-open span `start..end` that a token covers.
#[derive(Debug, Clone, Copy, PartialEq, Eq, Structural)]
pub struct Location {
    pub start: Position,
    pub end: Position,
}

/// The class of a token.
#[derive(Debug, Clone, Copy, PartialEq, Eq, Structural)]
pub enum TokenKind {
    String,
    Paren,
    Word,
    Punctuator,
    Space,
    Hex,
    Number,
    Other,
    EndLine,
}

/// A lexical unit of the source: its class, its text and where it stands.
#[derive(Debug)]
pub enum Token {
    /// A quoted literal, quotes and escapes included.
    String(String, Location),
    /// One of `{ } ( ) [ ]`.
    Paren(String, Location),
    /// An identifier, class or id selector, or dashed name.
    Word(String, Location),
    /// One of `! @ , : ; # & % + - * / .`.
    Punctuator(String, Location),
    /// A run of white space.
    Space(String, Location),
    /// `#` and three to six hex digits.
    Hex(String, Location),
    /// A run of decimal digits.
    Number(String, Location),
    /// A single character that no other class takes.
    Other(String, Location),
    /// The end of a line; it covers no text.
    EndLine(Location),
}

/// What a token is, as a value of the specification.
pub struct Lexeme {
    pub kind: TokenKind,
    pub text: Seq<char>,
    pub loc: Location,
}

/// The location that spans columns `start..end` of line `line`.
pub open spec fn span(line: nat, start: int, end: int) -> Location {
    Location {
        start: Position { line: line as usize, column: start as usize },
        end: Position { line: line as usize, column: end as usize },
    }
}

impl View for Token {
    type V = Lexeme;

    open spec fn view(&self) -> Lexeme {
        match self {
            Token::String(s, l) => Lexeme { kind: TokenKind::String, text: s@, loc: *l },
            Token::Paren(s, l) => Lexeme { kind: TokenKind::Paren, text: s@, loc: *l },
            Token::Word(s, l) => Lexeme { kind: TokenKind::Word, text: s@, loc: *l },
            Token::Punctuator(s, l) => Lexeme { kind: TokenKind::Punctuator, text: s@, loc: *l },
            Token::Space(s, l) => Lexeme { kind: TokenKind::Space, text: s@, loc: *l },
            Token::Hex(s, l) => Lexeme { kind: TokenKind::Hex, text: s@, loc: *l },
            Token::Number(s, l) => Lexeme { kind: TokenKind::Number, text: s@, loc: *l },
            Token::Other(s, l) => Lexeme { kind: TokenKind::Other, text: s@, loc: *l },
            Token::EndLine(l) => Lexeme { kind: TokenKind::EndLine, text: Seq::empty(), loc: *l },
        }
    }
}

/// The views of a sequence of tokens.
pub open spec fn lexemes(ts: Seq<Token>) -> Seq<Lexeme> {
    ts.map_values(|t: Token| t@)
}

impl Token {
    /// The token of class `kind` with text `text` at `loc`.
    pub fn new(kind: TokenKind, text: String, loc: Location) -> (r: Token)
        ensures
            r@ == (Lexeme {
                kind,
                text: if kind == TokenKind::EndLine { Seq::empty() } else { text@ },
                loc,
            }),
    {
        match kind {
            TokenKind::String => Token::String(text, loc),
            TokenKind::Paren => Token::Paren(text, loc),
            TokenKind::Word => Token::Word(text, loc),
            TokenKind::Punctuator => Token::Punctuator(text, loc),
            TokenKind::Space => Token::Space(text, loc),
            TokenKind::Hex => Token::Hex(text, loc),
            TokenKind::Number => Token::Number(text, loc),
            TokenKind::Other => Token::Other(text, loc),
            TokenKind::EndLine => Token::EndLine(loc),
        }
    }

    /// The class of the token.
    pub fn kind(&self) -> (r: TokenKind)
        ensures
            r == self@.kind,
    {
        match self {
            Token::String(..) => TokenKind::String,
            Token::Paren(..) => TokenKind::Paren,
            Token::Word(..) => TokenKind::Word,
            Token::Punctuator(..) => TokenKind::Punctuator,
            Token::Space(..) => TokenKind::Space,
            Token::Hex(..) => TokenKind::Hex,
            Token::Number(..) => TokenKind::Number,
            Token::Other(..) => TokenKind::Other,
            Token::EndLine(..) => TokenKind::EndLine,
        }
    }

    /// The text of the token; empty for an end of line.
    pub fn text(&self) -> (r: &str)
        ensures
            r@ == self@.text,
    {
        match self {
            Token::String(s, _) => s.as_str(),
            Token::Paren(s, _) => s.as_str(),
            Token::Word(s, _) => s.as_str(),
            Token::Punctuator(s, _) => s.as_str(),
            Token::Space(s, _) => s.as_str(),
            Token::Hex(s, _) => s.as_str(),
            Token::Number(s, _) => s.as_str(),
            Token::Other(s, _) => s.as_str(),
            Token::EndLine(_) => {
                proof {
                    reveal_strlit("");
                }
                ""
            },
        }
    }

    /// Where the token stands.
    pub fn location(&self) -> (r: Location)
        ensures
            r == self@.loc,
    {
        match self {
            Token::String(_, l) => *l,
            Token::Paren(_, l) => *l,
            Token::Word(_, l) => *l,
            Token::Punctuator(_, l) => *l,
            Token::Space(_, l) => *l,
            Token::Hex(_, l) => *l,
            Token::Number(_, l) => *l,
            Token::Other(_, l) => *l,
            Token::EndLine(l) => *l,
        }
    }
}

impl Clone for Token {
    fn clone(&self) -> (r: Token)
        ensures
            r == *self,
    {
        match self {
            Token::String(s, l) => Token::String(s.clone(), *l),
            Token::Paren(s, l) => Token::Paren(s.clone(), *l),
            Token::Word(s, l) => Token::Word(s.clone(), *l),
            Token::Punctuator(s, l) => Token::Punctuator(s.clone(), *l),
            Token::Space(s, l) => Token::Space(s.clone(), *l),
            Token::Hex(s, l) => Token::Hex(s.clone(), *l),
            Token::Number(s, l) => Token::Number(s.clone(), *l),
            Token::Other(s, l) => Token::Other(s.clone(), *l),
            Token::EndLine(l) => Token::EndLine(*l),
        }
    }
}

} // verus!
