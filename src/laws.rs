//! Properties that hold of the tokenizer and the parser for every input.

use vstd::prelude::*;
use crate::lexer::{
    lemma_token_at, lex_from, line_lexemes, lines_lexemes, end_of_line, split_lines, token_at,
    tokenize_spec,
};
use crate::node::NodeView;
use crate::parser::{atrule_spec, is_paren_tok, is_punct, nodes_loop, nodes_spec, pseudo_spec, value_spec};
use crate::text::trim_spec;
use crate::token::{Lexeme, TokenKind};

verus! {

/// The lines that a token sequence spells: the texts of the tokens between
/// two ends of line, joined, with `cur` gathered so far on the open line.
/// Text after the last end of line is not a line.
pub open spec fn rebuild_lines(ts: Seq<Lexeme>, cur: Seq<char>) -> Seq<Seq<char>>
    decreases ts.len(),
{
    if ts.len() == 0 {
        Seq::empty()
    } else if ts[0].kind == TokenKind::EndLine {
        seq![cur] + rebuild_lines(ts.drop_first(), Seq::empty())
    } else {
        rebuild_lines(ts.drop_first(), cur + ts[0].text)
    }
}

proof fn lemma_lex_from_rebuild(s: Seq<char>, i: int, line: nat, cur: Seq<char>, rest: Seq<Lexeme>)
    requires
        0 <= i <= s.len(),
    ensures
        rebuild_lines(lex_from(s, i, line) + rest, cur) == rebuild_lines(
            rest,
            cur + s.subrange(i, s.len() as int),
        ),
    decreases s.len() - i,
{
    if i == s.len() {
        assert(lex_from(s, i, line) + rest =~= rest);
        assert(cur + s.subrange(i, s.len() as int) =~= cur);
    } else {
        lemma_token_at(s, i);
        let (kind, e) = token_at(s, i);
        let x = Lexeme { kind, text: s.subrange(i, e), loc: crate::token::span(line, i, e) };
        let tail = lex_from(s, e, line) + rest;
        assert(lex_from(s, i, line) + rest =~= seq![x] + tail);
        assert((seq![x] + tail).drop_first() =~= tail);
        lemma_lex_from_rebuild(s, e, line, cur + s.subrange(i, e), rest);
        assert(cur + s.subrange(i, e) + s.subrange(e, s.len() as int) =~= cur + s.subrange(
            i,
            s.len() as int,
        ));
    }
}

proof fn lemma_line_rebuild(s: Seq<char>, line: nat, rest: Seq<Lexeme>)
    ensures
        rebuild_lines(line_lexemes(s, line) + rest, Seq::empty()) == seq![s] + rebuild_lines(
            rest,
            Seq::empty(),
        ),
{
    let eol = end_of_line(s, line);
    assert(line_lexemes(s, line) + rest =~= lex_from(s, 0, line) + (seq![eol] + rest));
    lemma_lex_from_rebuild(s, 0, line, Seq::empty(), seq![eol] + rest);
    assert((seq![eol] + rest).drop_first() =~= rest);
    assert(Seq::<char>::empty() + s.subrange(0, s.len() as int) =~= s);
}

/// A line's tokens spell the line: their texts, joined, are the line's
/// text, whatever characters it holds.
pub proof fn lemma_line_lossless(s: Seq<char>, line: nat)
    ensures
        rebuild_lines(line_lexemes(s, line), Seq::empty()) == seq![s],
{
    lemma_line_rebuild(s, line, Seq::empty());
    assert(line_lexemes(s, line) + Seq::empty() =~= line_lexemes(s, line));
    assert(seq![s] + Seq::<Seq<char>>::empty() =~= seq![s]);
}

proof fn lemma_lines_rebuild(ls: Seq<Seq<char>>, line: nat)
    ensures
        rebuild_lines(lines_lexemes(ls, line), Seq::empty()) == ls,
    decreases ls.len(),
{
    if ls.len() > 0 {
        lemma_line_rebuild(ls[0], line, lines_lexemes(ls.drop_first(), line + 1));
        lemma_lines_rebuild(ls.drop_first(), line + 1);
        assert(seq![ls[0]] + ls.drop_first() =~= ls);
    }
}

/// Tokenizing loses nothing: the tokens of a source, cut at their ends of
/// line, spell its lines one by one.
pub proof fn lemma_tokenize_lossless(src: Seq<char>)
    ensures
        rebuild_lines(tokenize_spec(src), Seq::empty()) == split_lines(src),
{
    lemma_lines_rebuild(split_lines(src), 0);
}

/// The body from `p` on ends between `p` and the end of the tokens, and the
/// nodes it had collected come first in what it returns, in order: nothing
/// collected is dropped, whether or not a closing `}` comes.
pub proof fn lemma_body_keeps_nodes(
    ts: Seq<Lexeme>,
    p: int,
    in_block: bool,
    waiting: bool,
    text: Seq<char>,
    acc: Seq<NodeView>,
)
    requires
        0 <= p <= ts.len(),
    ensures
        p <= nodes_loop(ts, p, in_block, waiting, text, acc).1 <= ts.len(),
        acc.len() <= nodes_loop(ts, p, in_block, waiting, text, acc).0.len(),
        nodes_loop(ts, p, in_block, waiting, text, acc).0.subrange(0, acc.len() as int) == acc,
    decreases ts.len() - p,
{
    let r = nodes_loop(ts, p, in_block, waiting, text, acc);
    if p < ts.len() {
        let t = ts[p];
        if t.kind == TokenKind::Word || is_punct(t, '*') || is_punct(t, '&') {
            lemma_body_keeps_nodes(ts, p + 1, in_block, true, text + t.text, acc);
        } else if t.kind == TokenKind::Space {
            let text2 = if waiting {
                text + t.text
            } else {
                text
            };
            lemma_body_keeps_nodes(ts, p + 1, in_block, waiting, text2, acc);
        } else if is_punct(t, '@') {
            if waiting {
                lemma_body_keeps_nodes(ts, p + 1, in_block, waiting, text + t.text, acc);
            } else {
                let (n, e) = atrule_spec(ts, p);
                let acc2 = match n {
                    Some(x) => acc.push(x),
                    None => acc,
                };
                if p < e <= ts.len() {
                    lemma_body_keeps_nodes(ts, e, in_block, waiting, text, acc2);
                    assert(r.0.subrange(0, acc.len() as int) =~= r.0.subrange(0, acc2.len() as int).subrange(0, acc.len() as int));
                    assert(acc2.subrange(0, acc.len() as int) =~= acc);
                } else {
                    assert(acc.subrange(0, acc.len() as int) =~= acc);
                }
            }
        } else if is_punct(t, ':') {
            match pseudo_spec(ts, p) {
                Some((s, e)) => {
                    if p < e <= ts.len() {
                        lemma_body_keeps_nodes(ts, e, in_block, true, text + s, acc);
                    } else {
                        assert(acc.subrange(0, acc.len() as int) =~= acc);
                    }
                },
                None => match value_spec(ts, p + 1) {
                    Some((v, important, e)) => {
                        let acc2 = acc.push(
                            NodeView::Decl {
                                property: trim_spec(text),
                                value: trim_spec(v),
                                important,
                            },
                        );
                        if p < e <= ts.len() {
                            lemma_body_keeps_nodes(ts, e, in_block, false, Seq::empty(), acc2);
                            assert(r.0.subrange(0, acc.len() as int) =~= r.0.subrange(0, acc2.len() as int).subrange(0, acc.len() as int));
                            assert(acc2.subrange(0, acc.len() as int) =~= acc);
                        } else {
                            assert(acc.subrange(0, acc.len() as int) =~= acc);
                        }
                    },
                    None => {
                        assert(acc.subrange(0, acc.len() as int) =~= acc);
                    },
                },
            }
        } else if t.kind == TokenKind::Punctuator {
            lemma_body_keeps_nodes(ts, p + 1, in_block, waiting, text + t.text, acc);
        } else if is_paren_tok(t, '{') {
            if waiting {
                let (children, e) = nodes_spec(ts, p + 1, true);
                let acc2 = acc.push(NodeView::Rule { selector: trim_spec(text), children });
                if p < e <= ts.len() {
                    lemma_body_keeps_nodes(ts, e, in_block, false, Seq::empty(), acc2);
                    assert(r.0.subrange(0, acc.len() as int) =~= r.0.subrange(0, acc2.len() as int).subrange(0, acc.len() as int));
                    assert(acc2.subrange(0, acc.len() as int) =~= acc);
                } else {
                    assert(acc.subrange(0, acc.len() as int) =~= acc);
                }
            } else {
                lemma_body_keeps_nodes(ts, p + 1, in_block, waiting, text, acc);
            }
        } else if is_paren_tok(t, '}') {
            if !waiting && in_block {
                assert(acc.subrange(0, acc.len() as int) =~= acc);
            } else {
                lemma_body_keeps_nodes(ts, p + 1, in_block, waiting, text, acc);
            }
        } else if t.kind == TokenKind::Paren {
            lemma_body_keeps_nodes(ts, p + 1, in_block, waiting, text + t.text, acc);
        } else {
            lemma_body_keeps_nodes(ts, p + 1, in_block, waiting, text, acc);
        }
    } else {
        assert(acc.subrange(0, acc.len() as int) =~= acc);
    }
}

/// A block that the tokens end before its `}` still yields its rule: where
/// a selector waits for the `{` at `p`, the nodes collected before come
/// first, in order, and the rule follows with every node of its body, the
/// body read up to its `}` or to the end of the tokens.
pub proof fn lemma_unclosed_block_kept(
    ts: Seq<Lexeme>,
    p: int,
    in_block: bool,
    text: Seq<char>,
    acc: Seq<NodeView>,
)
    requires
        0 <= p < ts.len(),
        is_paren_tok(ts[p], '{'),
    ensures
        ({
            let r = nodes_loop(ts, p, in_block, true, text, acc).0;
            &&& acc.len() < r.len()
            &&& r.subrange(0, acc.len() as int) == acc
            &&& r[acc.len() as int] == NodeView::Rule {
                selector: trim_spec(text),
                children: nodes_spec(ts, p + 1, true).0,
            }
        }),
{
    let (children, e) = nodes_spec(ts, p + 1, true);
    lemma_body_keeps_nodes(ts, p + 1, true, false, Seq::empty(), Seq::empty());
    let x = NodeView::Rule { selector: trim_spec(text), children };
    let acc2 = acc.push(x);
    lemma_body_keeps_nodes(ts, e, in_block, false, Seq::empty(), acc2);
    let r = nodes_loop(ts, p, in_block, true, text, acc).0;
    assert(r.subrange(0, acc2.len() as int)[acc.len() as int] == x);
    assert(r.subrange(0, acc.len() as int) =~= r.subrange(0, acc2.len() as int).subrange(0, acc.len() as int));
    assert(acc2.subrange(0, acc.len() as int) =~= acc);
}

} // verus!
