//! The tokenizer: each line is cut into tokens by an ordered list of classes,
//! the first class that matches at the current column taking the text.

use vstd::prelude::*;
use crate::text::{chars_of, is_space, is_space_spec, skip_space_from, string_of};
use crate::token::{lexemes, span, Lexeme, Location, Position, Token, TokenKind};

verus! {

pub open spec fn is_letter(c: char) -> bool {
    ('a' <= c && c <= 'z') || ('A' <= c && c <= 'Z')
}

pub open spec fn is_digit(c: char) -> bool {
    '0' <= c && c <= '9'
}

pub open spec fn is_alnum(c: char) -> bool {
    is_letter(c) || is_digit(c)
}

pub open spec fn is_hex_digit(c: char) -> bool {
    is_digit(c) || ('a' <= c && c <= 'f') || ('A' <= c && c <= 'F')
}

pub open spec fn is_paren(c: char) -> bool {
    c == '{' || c == '}' || c == '(' || c == ')' || c == '[' || c == ']'
}

pub open spec fn is_punctuator(c: char) -> bool {
    c == '!' || c == '@' || c == ',' || c == ':' || c == ';' || c == '#' || c == '&' || c == '%'
        || c == '+' || c == '-' || c == '*' || c == '/' || c == '.'
}

/// How many hex digits, at most `cap`, stand in a row from `i`.
pub open spec fn hex_count(s: Seq<char>, i: int, cap: nat) -> nat
    decreases cap,
{
    if cap > 0 && 0 <= i < s.len() && is_hex_digit(s[i]) {
        1 + hex_count(s, i + 1, (cap - 1) as nat)
    } else {
        0
    }
}

/// End of a hex colour at `i`: `#` and three to six hex digits, as many as
/// stand there. A class that does not match at `i` ends at `i`.
pub open spec fn hex_end(s: Seq<char>, i: int) -> int {
    if 0 <= i < s.len() && s[i] == '#' && hex_count(s, i + 1, 6) >= 3 {
        i + 1 + hex_count(s, i + 1, 6)
    } else {
        i
    }
}

/// End of the run of letters, digits and single dashes before a letter or
/// digit that starts at `i`.
pub open spec fn word_tail(s: Seq<char>, i: int) -> int
    decreases s.len() - i,
{
    if 0 <= i < s.len() && is_alnum(s[i]) {
        word_tail(s, i + 1)
    } else if 0 <= i && i + 1 < s.len() && s[i] == '-' && is_alnum(s[i + 1]) {
        word_tail(s, i + 2)
    } else {
        i
    }
}

/// End of a word at `i`: an optional `.`, `-` or `#`, a letter, then the
/// tail of [`word_tail`].
pub open spec fn word_end(s: Seq<char>, i: int) -> int {
    let j = if 0 <= i < s.len() && (s[i] == '.' || s[i] == '-' || s[i] == '#') {
        i + 1
    } else {
        i
    };
    if 0 <= j < s.len() && is_letter(s[j]) {
        word_tail(s, j + 1)
    } else {
        i
    }
}

/// End of the run of decimal digits at `i`.
pub open spec fn digits_end(s: Seq<char>, i: int) -> int
    decreases s.len() - i,
{
    if 0 <= i < s.len() && is_digit(s[i]) {
        digits_end(s, i + 1)
    } else {
        i
    }
}

/// Inside a literal quoted by `q`, from `j`: the index just past the closing
/// quote, or -1 where the line ends first. A backslash takes the next
/// character with it, but for a line feed.
pub open spec fn quote_close(s: Seq<char>, j: int, q: char) -> int
    decreases s.len() - j,
{
    if j < 0 || j >= s.len() {
        -1
    } else if s[j] == q {
        j + 1
    } else if s[j] == '\\' {
        if j + 1 < s.len() && s[j + 1] != '\n' {
            quote_close(s, j + 2, q)
        } else {
            -1
        }
    } else {
        quote_close(s, j + 1, q)
    }
}

/// End of a literal quoted by `q` at `i`.
pub open spec fn quoted_end(s: Seq<char>, i: int, q: char) -> int {
    if 0 <= i < s.len() && s[i] == q && quote_close(s, i + 1, q) > i {
        quote_close(s, i + 1, q)
    } else {
        i
    }
}

/// The class of the token at `i` and the index where it ends: the first
/// class, in priority order, that matches at `i`, else one `Other` character.
pub open spec fn token_at(s: Seq<char>, i: int) -> (TokenKind, int) {
    if hex_end(s, i) > i {
        (TokenKind::Hex, hex_end(s, i))
    } else if word_end(s, i) > i {
        (TokenKind::Word, word_end(s, i))
    } else if digits_end(s, i) > i {
        (TokenKind::Number, digits_end(s, i))
    } else if skip_space_from(s, i) > i {
        (TokenKind::Space, skip_space_from(s, i))
    } else if quoted_end(s, i, '"') > i {
        (TokenKind::String, quoted_end(s, i, '"'))
    } else if quoted_end(s, i, '\'') > i {
        (TokenKind::String, quoted_end(s, i, '\''))
    } else if is_paren(s[i]) {
        (TokenKind::Paren, i + 1)
    } else if is_punctuator(s[i]) {
        (TokenKind::Punctuator, i + 1)
    } else {
        (TokenKind::Other, i + 1)
    }
}

/// The tokens of line number `line`, text `s`, from column `i` on.
pub open spec fn lex_from(s: Seq<char>, i: int, line: nat) -> Seq<Lexeme>
    decreases s.len() - i,
{
    if 0 <= i < s.len() {
        let (kind, e) = token_at(s, i);
        if i < e <= s.len() {
            seq![Lexeme { kind, text: s.subrange(i, e), loc: span(line, i, e) }] + lex_from(
                s,
                e,
                line,
            )
        } else {
            Seq::empty()
        }
    } else {
        Seq::empty()
    }
}

/// The end-of-line token of line number `line`, text `s`.
pub open spec fn end_of_line(s: Seq<char>, line: nat) -> Lexeme {
    Lexeme { kind: TokenKind::EndLine, text: Seq::empty(), loc: span(line, s.len() as int, s.len() as int) }
}

/// The tokens of line number `line`, text `s`, its end of line included.
pub open spec fn line_lexemes(s: Seq<char>, line: nat) -> Seq<Lexeme> {
    lex_from(s, 0, line).push(end_of_line(s, line))
}

/// The index of the first line feed at or after `i`, or `s.len()`.
pub open spec fn newline_from(s: Seq<char>, i: int) -> int
    decreases s.len() - i,
{
    if 0 <= i < s.len() && s[i] != '\n' {
        newline_from(s, i + 1)
    } else {
        i
    }
}

/// The text of the line `s[i..j]` that ends at `j`, without the carriage
/// return of a `\r\n` ending.
pub open spec fn line_text(s: Seq<char>, i: int, j: int) -> Seq<char> {
    if i < j < s.len() && s[j - 1] == '\r' {
        s.subrange(i, j - 1)
    } else {
        s.subrange(i, j)
    }
}

/// The lines of `s` from index `i` on: the text is cut at each line feed, a
/// `\r\n` ending counts as one, and a last line feed opens no further line.
pub open spec fn lines_from(s: Seq<char>, i: int) -> Seq<Seq<char>>
    decreases s.len() - i,
{
    if 0 <= i < s.len() {
        let j = newline_from(s, i);
        if i <= j < s.len() {
            seq![line_text(s, i, j)] + lines_from(s, j + 1)
        } else {
            seq![line_text(s, i, j)]
        }
    } else {
        Seq::empty()
    }
}

/// The lines of the source `s`.
pub open spec fn split_lines(s: Seq<char>) -> Seq<Seq<char>> {
    lines_from(s, 0)
}

/// The tokens of the lines `ls`, the first of them numbered `line`.
pub open spec fn lines_lexemes(ls: Seq<Seq<char>>, line: nat) -> Seq<Lexeme>
    decreases ls.len(),
{
    if ls.len() == 0 {
        Seq::empty()
    } else {
        line_lexemes(ls[0], line) + lines_lexemes(ls.drop_first(), line + 1)
    }
}

/// The tokens of the source text `s`.
pub open spec fn tokenize_spec(s: Seq<char>) -> Seq<Lexeme> {
    lines_lexemes(split_lines(s), 0)
}


proof fn lemma_hex_count(s: Seq<char>, i: int, cap: nat)
    requires
        0 <= i <= s.len(),
    ensures
        hex_count(s, i, cap) <= cap,
        i + hex_count(s, i, cap) <= s.len(),
    decreases cap,
{
    if cap > 0 && 0 <= i < s.len() && is_hex_digit(s[i]) {
        lemma_hex_count(s, i + 1, (cap - 1) as nat);
    }
}

proof fn lemma_word_tail(s: Seq<char>, i: int)
    requires
        0 <= i <= s.len(),
    ensures
        i <= word_tail(s, i) <= s.len(),
    decreases s.len() - i,
{
    if 0 <= i < s.len() && is_alnum(s[i]) {
        lemma_word_tail(s, i + 1);
    } else if 0 <= i && i + 1 < s.len() && s[i] == '-' && is_alnum(s[i + 1]) {
        lemma_word_tail(s, i + 2);
    }
}

proof fn lemma_digits_end(s: Seq<char>, i: int)
    requires
        0 <= i <= s.len(),
    ensures
        i <= digits_end(s, i) <= s.len(),
    decreases s.len() - i,
{
    if 0 <= i < s.len() && is_digit(s[i]) {
        lemma_digits_end(s, i + 1);
    }
}

pub proof fn lemma_skip_space(s: Seq<char>, i: int)
    requires
        0 <= i <= s.len(),
    ensures
        i <= skip_space_from(s, i) <= s.len(),
    decreases s.len() - i,
{
    if 0 <= i < s.len() && is_space_spec(s[i]) {
        lemma_skip_space(s, i + 1);
    }
}

proof fn lemma_quote_close(s: Seq<char>, j: int, q: char)
    requires
        0 <= j,
    ensures
        quote_close(s, j, q) == -1 || j < quote_close(s, j, q) <= s.len(),
    decreases s.len() - j,
{
    if j < s.len() && s[j] != q && s[j] == '\\' && j + 1 < s.len() && s[j + 1] != '\n' {
        lemma_quote_close(s, j + 2, q);
    } else if j < s.len() && s[j] != q && s[j] != '\\' {
        lemma_quote_close(s, j + 1, q);
    }
}

/// Every class that matches takes at least one character and stays within
/// the line.
pub proof fn lemma_token_at(s: Seq<char>, i: int)
    requires
        0 <= i < s.len(),
    ensures
        i < token_at(s, i).1 <= s.len(),
{
    lemma_hex_count(s, i + 1, 6);
    if i + 1 < s.len() {
        lemma_word_tail(s, i + 2);
    }
    lemma_word_tail(s, i + 1);
    lemma_digits_end(s, i);
    lemma_skip_space(s, i);
    lemma_quote_close(s, i + 1, '"');
    lemma_quote_close(s, i + 1, '\'');
}

fn is_letter_exec(c: char) -> (r: bool)
    ensures
        r == is_letter(c),
{
    ('a' <= c && c <= 'z') || ('A' <= c && c <= 'Z')
}

fn is_digit_exec(c: char) -> (r: bool)
    ensures
        r == is_digit(c),
{
    '0' <= c && c <= '9'
}

fn is_alnum_exec(c: char) -> (r: bool)
    ensures
        r == is_alnum(c),
{
    is_letter_exec(c) || is_digit_exec(c)
}

fn is_hex_digit_exec(c: char) -> (r: bool)
    ensures
        r == is_hex_digit(c),
{
    is_digit_exec(c) || ('a' <= c && c <= 'f') || ('A' <= c && c <= 'F')
}

fn is_paren_exec(c: char) -> (r: bool)
    ensures
        r == is_paren(c),
{
    c == '{' || c == '}' || c == '(' || c == ')' || c == '[' || c == ']'
}

fn is_punctuator_exec(c: char) -> (r: bool)
    ensures
        r == is_punctuator(c),
{
    c == '!' || c == '@' || c == ',' || c == ':' || c == ';' || c == '#' || c == '&' || c == '%'
        || c == '+' || c == '-' || c == '*' || c == '/' || c == '.'
}

fn match_hex(s: &Vec<char>, i: usize) -> (r: usize)
    requires
        i < s@.len(),
    ensures
        r == hex_end(s@, i as int),
{
    if s[i] != '#' {
        return i;
    }
    let n = s.len();
    let mut k: usize = 0;
    while k < 6 && k < n - (i + 1) && is_hex_digit_exec(s[i + 1 + k])
        invariant
            i < n == s@.len(),
            k <= 6,
            k <= n - (i + 1),
            hex_count(s@, i + 1, 6) == k + hex_count(s@, i + 1 + k, (6 - k) as nat),
        decreases 6 - k,
    {
        k = k + 1;
    }
    if k >= 3 {
        i + 1 + k
    } else {
        i
    }
}

fn match_word_tail(s: &Vec<char>, i: usize) -> (r: usize)
    requires
        i <= s@.len(),
    ensures
        r == word_tail(s@, i as int),
{
    let n = s.len();
    let mut j = i;
    while j < n && (is_alnum_exec(s[j]) || (j + 1 < n && s[j] == '-' && is_alnum_exec(s[j + 1])))
        invariant
            i <= j <= n == s@.len(),
            word_tail(s@, i as int) == word_tail(s@, j as int),
        decreases n - j,
    {
        if is_alnum_exec(s[j]) {
            j = j + 1;
        } else {
            j = j + 2;
        }
    }
    j
}

fn match_word(s: &Vec<char>, i: usize) -> (r: usize)
    requires
        i < s@.len(),
    ensures
        r == word_end(s@, i as int),
{
    let n = s.len();
    let c = s[i];
    let j = if c == '.' || c == '-' || c == '#' {
        i + 1
    } else {
        i
    };
    if j < n && is_letter_exec(s[j]) {
        match_word_tail(s, j + 1)
    } else {
        i
    }
}

fn match_digits(s: &Vec<char>, i: usize) -> (r: usize)
    requires
        i <= s@.len(),
    ensures
        r == digits_end(s@, i as int),
{
    let n = s.len();
    let mut j = i;
    while j < n && is_digit_exec(s[j])
        invariant
            i <= j <= n == s@.len(),
            digits_end(s@, i as int) == digits_end(s@, j as int),
        decreases n - j,
    {
        j = j + 1;
    }
    j
}

fn match_space(s: &Vec<char>, i: usize) -> (r: usize)
    requires
        i <= s@.len(),
    ensures
        r == skip_space_from(s@, i as int),
{
    let n = s.len();
    let mut j = i;
    while j < n && is_space(s[j])
        invariant
            i <= j <= n == s@.len(),
            skip_space_from(s@, i as int) == skip_space_from(s@, j as int),
        decreases n - j,
    {
        j = j + 1;
    }
    j
}

fn match_quoted(s: &Vec<char>, i: usize, q: char) -> (r: usize)
    requires
        i < s@.len(),
    ensures
        r == quoted_end(s@, i as int, q),
{
    if s[i] != q {
        return i;
    }
    let n = s.len();
    let mut j = i + 1;
    while j < n && s[j] != q && (s[j] != '\\' || (j + 1 < n && s[j + 1] != '\n'))
        invariant
            i < j <= n == s@.len(),
            quote_close(s@, i + 1, q) == quote_close(s@, j as int, q),
        decreases n - j,
    {
        if s[j] == '\\' {
            j = j + 2;
        } else {
            j = j + 1;
        }
    }
    if j < n && s[j] == q {
        j + 1
    } else {
        i
    }
}

/// The class of the token at `i` and where it ends.
fn match_token(s: &Vec<char>, i: usize) -> (r: (TokenKind, usize))
    requires
        i < s@.len(),
    ensures
        (r.0, r.1 as int) == token_at(s@, i as int),
{
    let n = s.len();
    assert(i + 1 <= n);
    let e = match_hex(s, i);
    if e > i {
        return (TokenKind::Hex, e);
    }
    let e = match_word(s, i);
    if e > i {
        return (TokenKind::Word, e);
    }
    let e = match_digits(s, i);
    if e > i {
        return (TokenKind::Number, e);
    }
    let e = match_space(s, i);
    if e > i {
        return (TokenKind::Space, e);
    }
    let e = match_quoted(s, i, '"');
    if e > i {
        return (TokenKind::String, e);
    }
    let e = match_quoted(s, i, '\'');
    if e > i {
        return (TokenKind::String, e);
    }
    if is_paren_exec(s[i]) {
        (TokenKind::Paren, i + 1)
    } else if is_punctuator_exec(s[i]) {
        (TokenKind::Punctuator, i + 1)
    } else {
        (TokenKind::Other, i + 1)
    }
}


/// The line-by-line tokenizer: it keeps the tokens of the lines it has seen
/// and the number of the next line.
pub struct LexerImpl {
    /// Column reached on the current line.
    pub column: usize,
    /// Number of the next line, from zero.
    pub line: usize,
    /// Tokens of every line so far.
    pub tokens: Vec<Token>,
}

impl LexerImpl {
    /// Each line adds at least its end-of-line token, so the line count
    /// never passes the number of tokens.
    pub open spec fn wf(&self) -> bool {
        self.line <= self.tokens@.len()
    }

    /// A tokenizer that has seen no line.
    pub fn new() -> (r: LexerImpl)
        ensures
            r.wf(),
            r.line == 0,
            r.column == 0,
            r.tokens@.len() == 0,
    {
        LexerImpl { column: 0, line: 0, tokens: Vec::new() }
    }

    /// Appends the tokens of the line `v` and its end of line, then moves to
    /// the next line.
    fn push_line(&mut self, v: &Vec<char>)
        requires
            old(self).wf(),
        ensures
            final(self).wf(),
            lexemes(final(self).tokens@) == lexemes(old(self).tokens@) + line_lexemes(
                v@,
                old(self).line as nat,
            ),
            final(self).line == old(self).line + 1,
            final(self).column == v@.len(),
    {
        let n = v.len();
        let line = self.line;
        self.column = 0;
        let mut i: usize = 0;
        while i < n
            invariant
                n == v@.len(),
                i <= n,
                self.line == line,
                self.column == i,
                line <= old(self).tokens@.len() <= self.tokens@.len(),
                lexemes(self.tokens@) + lex_from(v@, i as int, line as nat) == lexemes(
                    old(self).tokens@,
                ) + lex_from(v@, 0, line as nat),
            decreases n - i,
        {
            let (kind, e) = match_token(v, i);
            proof {
                lemma_token_at(v@, i as int);
            }
            let text = string_of(v, i, e);
            let loc = Location {
                start: Position { line, column: i },
                end: Position { line, column: e },
            };
            let tok = Token::new(kind, text, loc);
            let ghost before = self.tokens@;
            self.tokens.push(tok);
            proof {
                let x = Lexeme { kind, text: v@.subrange(i as int, e as int), loc: span(line as nat, i as int, e as int) };
                assert(tok@ == x);
                assert(lexemes(self.tokens@) =~= lexemes(before).push(x));
                assert(lex_from(v@, i as int, line as nat) == seq![x] + lex_from(v@, e as int, line as nat));
                assert(lexemes(before).push(x) + lex_from(v@, e as int, line as nat) =~= lexemes(before) + (seq![x] + lex_from(v@, e as int, line as nat)));
            }
            self.column = e;
            i = e;
        }
        let loc = Location {
            start: Position { line, column: n },
            end: Position { line, column: n },
        };
        let ghost before = self.tokens@;
        self.tokens.push(Token::EndLine(loc));
        proof {
            assert(lexemes(self.tokens@) =~= lexemes(before).push(end_of_line(v@, line as nat)));
            assert(lexemes(before) =~= lexemes(before) + lex_from(v@, n as int, line as nat));
            assert(lexemes(old(self).tokens@) + line_lexemes(v@, line as nat) =~= (lexemes(old(self).tokens@) + lex_from(v@, 0, line as nat)).push(end_of_line(v@, line as nat)));
        }
        let count = self.tokens.len();
        assert(line < count);
        self.line = line + 1;
    }

    /// Appends the tokens of `line`, its end of line included, and moves to
    /// the next line.
    pub fn loop_line_for_token(&mut self, line: &String)
        requires
            old(self).wf(),
        ensures
            final(self).wf(),
            lexemes(final(self).tokens@) == lexemes(old(self).tokens@) + line_lexemes(
                line@,
                old(self).line as nat,
            ),
            final(self).line == old(self).line + 1,
            final(self).column == line@.len(),
    {
        let v = chars_of(line.as_str());
        self.push_line(&v);
    }

    /// Appends the tokens of every line of `source`.
    fn push_source(&mut self, source: &str)
        requires
            old(self).wf(),
        ensures
            final(self).wf(),
            lexemes(final(self).tokens@) == lexemes(old(self).tokens@) + lines_lexemes(
                split_lines(source@),
                old(self).line as nat,
            ),
    {
        let v = chars_of(source);
        let n = v.len();
        let mut i: usize = 0;
        while i < n
            invariant
                n == v@.len(),
                i <= n,
                self.wf(),
                lexemes(self.tokens@) + lines_lexemes(lines_from(v@, i as int), self.line as nat)
                    == lexemes(old(self).tokens@) + lines_lexemes(
                    lines_from(v@, 0),
                    old(self).line as nat,
                ),
            decreases n - i,
        {
            let mut j = i;
            while j < n && v[j] != '\n'
                invariant
                    i <= j <= n == v@.len(),
                    newline_from(v@, i as int) == newline_from(v@, j as int),
                decreases n - j,
            {
                j = j + 1;
            }
            let end = if i < j && j < n && v[j - 1] == '\r' {
                j - 1
            } else {
                j
            };
            let mut text: Vec<char> = Vec::new();
            let mut k = i;
            while k < end
                invariant
                    i <= k <= end <= n == v@.len(),
                    text@ == v@.subrange(i as int, k as int),
                decreases end - k,
            {
                text.push(v[k]);
                k = k + 1;
                assert(text@ =~= v@.subrange(i as int, k as int));
            }
            let ghost before = self.tokens@;
            let ghost line = self.line as nat;
            proof {
                assert(text@ == line_text(v@, i as int, j as int));
                let rest = if j < n {
                    lines_from(v@, j + 1)
                } else {
                    Seq::empty()
                };
                assert(lines_from(v@, i as int) == seq![text@] + rest);
                assert((seq![text@] + rest).drop_first() =~= rest);
                if j >= n {
                    assert(lines_from(v@, n as int) == Seq::<Seq<char>>::empty());
                }
            }
            self.push_line(&text);
            proof {
                let rest = if j < n {
                    lines_from(v@, j + 1)
                } else {
                    Seq::empty()
                };
                assert(lexemes(before) + lines_lexemes(seq![text@] + rest, line) =~= lexemes(self.tokens@) + lines_lexemes(rest, line + 1));
            }
            if j < n {
                i = j + 1;
            } else {
                i = n;
            }
        }
    }
}

/// The tokenizer of a whole source text.
pub struct Lexer {
    pub lexer_impl: LexerImpl,
}

impl Lexer {
    pub open spec fn wf(&self) -> bool {
        self.lexer_impl.wf()
    }

    /// A tokenizer that has seen no line.
    pub fn new() -> (r: Lexer)
        ensures
            r.wf(),
            r.lexer_impl.line == 0,
            r.lexer_impl.tokens@.len() == 0,
    {
        Lexer { lexer_impl: LexerImpl::new() }
    }

    /// Tokenizes every line of `source`, numbering lines on from those seen
    /// before, and returns every token seen so far.
    pub fn lex_from_source(&mut self, source: &String) -> (r: Vec<Token>)
        requires
            old(self).wf(),
        ensures
            final(self).wf(),
            lexemes(r@) == lexemes(final(self).lexer_impl.tokens@),
            lexemes(r@) == lexemes(old(self).lexer_impl.tokens@) + lines_lexemes(
                split_lines(source@),
                old(self).lexer_impl.line as nat,
            ),
    {
        self.lexer_impl.push_source(source.as_str());
        let r = self.lexer_impl.tokens.clone();
        assert(lexemes(r@) =~= lexemes(self.lexer_impl.tokens@));
        r
    }
}

/// The tokens of `source`: for each line, the tokens that cover its text,
/// then one end-of-line token. Defined on every text: it has no
/// precondition and ends without panicking; a character that no class
/// takes becomes an `Other` token.
pub fn tokenize(source: &str) -> (r: Vec<Token>)
    ensures
        lexemes(r@) == tokenize_spec(source@),
{
    let mut lexer = LexerImpl::new();
    lexer.push_source(source);
    assert(lexemes(lexer.tokens@) =~= lexemes(Seq::empty()) + tokenize_spec(source@));
    lexer.tokens
}

} // verus!
