use css_ast::{tokenize, Lexer, LexerImpl, Location, Position, Token, TokenKind};

fn kinds(tokens: &[Token]) -> Vec<TokenKind> {
    tokens.iter().map(|t| t.kind()).collect()
}

fn texts(tokens: &[Token]) -> Vec<String> {
    tokens.iter().map(|t| t.text().to_string()).collect()
}

fn loc(line: usize, start: usize, end: usize) -> Location {
    Location {
        start: Position { line, column: start },
        end: Position { line, column: end },
    }
}

#[test]
fn hex_takes_priority_over_word() {
    let tokens = tokenize("#fff");
    assert_eq!(kinds(&tokens), vec![TokenKind::Hex, TokenKind::EndLine]);
    assert_eq!(texts(&tokens), vec!["#fff", ""]);
    assert_eq!(tokens[0].location(), loc(0, 0, 4));
    assert_eq!(tokens[1].location(), loc(0, 4, 4));
}

#[test]
fn dashed_name_is_one_word() {
    let tokens = tokenize("-webkit-line-clamp");
    assert_eq!(kinds(&tokens), vec![TokenKind::Word, TokenKind::EndLine]);
    assert_eq!(tokens[0].text(), "-webkit-line-clamp");
}

#[test]
fn hex_takes_at_most_six_digits() {
    let tokens = tokenize("#abcdef12");
    assert_eq!(kinds(&tokens), vec![TokenKind::Hex, TokenKind::Number, TokenKind::EndLine]);
    assert_eq!(texts(&tokens), vec!["#abcdef", "12", ""]);
}

#[test]
fn short_hex_is_an_id_word() {
    let tokens = tokenize("#ab #test2");
    assert_eq!(
        kinds(&tokens),
        vec![TokenKind::Word, TokenKind::Space, TokenKind::Word, TokenKind::EndLine]
    );
    assert_eq!(texts(&tokens), vec!["#ab", " ", "#test2", ""]);
}

#[test]
fn word_leaves_colon_and_semicolon() {
    let tokens = tokenize("font-size:3em;");
    assert_eq!(
        kinds(&tokens),
        vec![
            TokenKind::Word,
            TokenKind::Punctuator,
            TokenKind::Number,
            TokenKind::Word,
            TokenKind::Punctuator,
            TokenKind::EndLine
        ]
    );
    assert_eq!(texts(&tokens), vec!["font-size", ":", "3", "em", ";", ""]);
}

#[test]
fn double_dash_starts_with_a_punctuator() {
    let tokens = tokenize("--theme-color");
    assert_eq!(texts(&tokens), vec!["-", "-theme-color", ""]);
    assert_eq!(kinds(&tokens)[0], TokenKind::Punctuator);
}

#[test]
fn trailing_dash_is_not_part_of_a_word() {
    let tokens = tokenize("ab- x");
    assert_eq!(texts(&tokens), vec!["ab", "-", " ", "x", ""]);
}

#[test]
fn strings_keep_quotes_and_escapes() {
    let tokens = tokenize(r#"'it\'s' "a\"b""#);
    assert_eq!(
        kinds(&tokens),
        vec![TokenKind::String, TokenKind::Space, TokenKind::String, TokenKind::EndLine]
    );
    assert_eq!(texts(&tokens), vec![r"'it\'s'", " ", r#""a\"b""#, ""]);
}

#[test]
fn unterminated_string_falls_back_to_other() {
    let tokens = tokenize("\"ab");
    assert_eq!(
        kinds(&tokens),
        vec![TokenKind::Other, TokenKind::Word, TokenKind::EndLine]
    );
    assert_eq!(texts(&tokens), vec!["\"", "ab", ""]);
}

#[test]
fn unknown_character_is_other() {
    let tokens = tokenize("a ~ b");
    assert_eq!(texts(&tokens), vec!["a", " ", "~", " ", "b", ""]);
    assert_eq!(kinds(&tokens)[2], TokenKind::Other);
    assert_eq!(tokens[2].location(), loc(0, 2, 3));
}

#[test]
fn whitespace_runs_collapse() {
    let tokens = tokenize("a \t\u{a0} b");
    assert_eq!(texts(&tokens), vec!["a", " \t\u{a0} ", "b", ""]);
    assert_eq!(tokens[1].kind(), TokenKind::Space);
    assert_eq!(tokens[2].location(), loc(0, 5, 6));
}

#[test]
fn parens_and_punctuators() {
    let tokens = tokenize("{}()[]!@,:;&%+*/.");
    let k = kinds(&tokens);
    for i in 0..6 {
        assert_eq!(k[i], TokenKind::Paren);
    }
    for i in 6..17 {
        assert_eq!(k[i], TokenKind::Punctuator);
    }
    assert_eq!(k[17], TokenKind::EndLine);
    assert_eq!(tokens.len(), 18);
}

#[test]
fn empty_source_has_no_lines() {
    assert_eq!(tokenize("").len(), 0);
}

#[test]
fn empty_lines_hold_only_an_end_of_line() {
    let tokens = tokenize("\n\na");
    assert_eq!(
        kinds(&tokens),
        vec![TokenKind::EndLine, TokenKind::EndLine, TokenKind::Word, TokenKind::EndLine]
    );
    assert_eq!(tokens[0].location(), loc(0, 0, 0));
    assert_eq!(tokens[1].location(), loc(1, 0, 0));
    assert_eq!(tokens[2].location(), loc(2, 0, 1));
    assert_eq!(tokens[3].location(), loc(2, 1, 1));
}

#[test]
fn crlf_endings_and_final_newline() {
    let tokens = tokenize("a\r\nb\n");
    assert_eq!(texts(&tokens), vec!["a", "", "b", ""]);
    assert_eq!(tokens[1].location(), loc(0, 1, 1));
    assert_eq!(tokens[3].location(), loc(1, 1, 1));
}

#[test]
fn lexemes_rebuild_each_line() {
    let source = "main {\n  color: #999 !important; /* ~ */\n\t'x' \"unterminated\n}";
    let tokens = tokenize(source);
    let mut lines: Vec<String> = vec![String::new()];
    for t in &tokens {
        match t {
            Token::EndLine(_) => lines.push(String::new()),
            _ => lines.last_mut().unwrap().push_str(t.text()),
        }
    }
    lines.pop();
    let expected: Vec<String> = source.lines().map(|l| l.to_string()).collect();
    assert_eq!(lines, expected);
}

#[test]
fn line_by_line_lexer_counts_lines() {
    let mut lexer = LexerImpl::new();
    lexer.loop_line_for_token(&"a b".to_string());
    lexer.loop_line_for_token(&"c".to_string());
    assert_eq!(lexer.line, 2);
    assert_eq!(lexer.column, 1);
    assert_eq!(texts(&lexer.tokens), vec!["a", " ", "b", "", "c", ""]);
    assert_eq!(lexer.tokens[4].location(), loc(1, 0, 1));
}

#[test]
fn lexer_continues_across_sources() {
    let mut lexer = Lexer::new();
    let first = lexer.lex_from_source(&"a".to_string());
    assert_eq!(first.len(), 2);
    let all = lexer.lex_from_source(&"b".to_string());
    assert_eq!(texts(&all), vec!["a", "", "b", ""]);
    assert_eq!(all[2].location(), loc(1, 0, 1));
}
