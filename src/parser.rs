//! The parser: a walk over the token sequence that builds rules, at-rules and
//! declarations, with two bounded look-aheads that go back where they fail.
//!
//! Nesting lives in the call stack: each block body is parsed by a call of
//! its own, which knows whether it stands in a block and whether it is
//! gathering a selector or property (a name that waits for `{` or `:`).
//! Parameter parentheses of an at-rule are a depth count. Texts are gathered
//! verbatim and trimmed of white space at both ends when a node is built.

use vstd::prelude::*;
use crate::node::{node_view, nodes_view, views_prefix, NodeType, NodeView};
use crate::text::{push_char, trim, trim_spec, chars_of};
use crate::token::{lexemes, Lexeme, Token, TokenKind};
use vstd::string::StringExecFns;

verus! {

/// Whether `t` is the punctuator `c`.
pub open spec fn is_punct(t: Lexeme, c: char) -> bool {
    t.kind == TokenKind::Punctuator && t.text == seq![c]
}

/// Whether `t` is the bracket `c`.
pub open spec fn is_paren_tok(t: Lexeme, c: char) -> bool {
    t.kind == TokenKind::Paren && t.text == seq![c]
}

/// The word that an important flag holds.
pub open spec fn important_word() -> Seq<char> {
    seq!['i', 'm', 'p', 'o', 'r', 't', 'a', 'n', 't']
}

/// The text that marks an important at-rule value.
pub open spec fn important_mark() -> Seq<char> {
    seq!['!'] + important_word()
}

/// After a `!` at `p - 1`: the index of the `;` that ends an `important`
/// flag (only spaces and the word `important` between), or `None`.
pub open spec fn important_end(ts: Seq<Lexeme>, p: int) -> Option<int>
    decreases ts.len() - p,
{
    if 0 <= p < ts.len() {
        let t = ts[p];
        if is_punct(t, ';') {
            Some(p)
        } else if t.kind == TokenKind::Space || (t.kind == TokenKind::Word && t.text
            == important_word()) {
            important_end(ts, p + 1)
        } else {
            None
        }
    } else {
        None
    }
}

/// The value gathered from `p` on after `text`: the text, the important
/// flag and the index after the `;` or end of line that ends it; `None`
/// where the tokens run out first.
pub open spec fn value_scan(ts: Seq<Lexeme>, p: int, text: Seq<char>, important: bool) -> Option<
    (Seq<char>, bool, int),
>
    decreases ts.len() - p,
{
    if 0 <= p < ts.len() {
        let t = ts[p];
        if is_punct(t, ';') || t.kind == TokenKind::EndLine {
            Some((text, important, p + 1))
        } else if is_punct(t, '!') && p > 0 && ts[p - 1].kind == TokenKind::Space && important_end(
            ts,
            p + 1,
        ) is Some {
            let e = important_end(ts, p + 1)->0;
            if p < e <= ts.len() {
                value_scan(ts, e, text, true)
            } else {
                None
            }
        } else {
            value_scan(ts, p + 1, text + t.text, important)
        }
    } else {
        None
    }
}

/// The index of the first token at or after `p` that is not a space.
pub open spec fn skip_space_tokens(ts: Seq<Lexeme>, p: int) -> int
    decreases ts.len() - p,
{
    if 0 <= p < ts.len() && ts[p].kind == TokenKind::Space {
        skip_space_tokens(ts, p + 1)
    } else {
        p
    }
}

/// The value that starts at `p`, just after a colon: leading spaces are
/// skipped, then text is gathered up to `;` or the end of the line.
pub open spec fn value_spec(ts: Seq<Lexeme>, p: int) -> Option<(Seq<char>, bool, int)> {
    value_scan(ts, skip_space_tokens(ts, p), Seq::empty(), false)
}

/// The look-ahead after a colon, from `p` on with `text` gathered: a `:` or
/// `{` ahead makes it part of a selector, a `;` or end of line a
/// declaration.
pub open spec fn pseudo_scan(ts: Seq<Lexeme>, p: int, text: Seq<char>) -> Option<(Seq<char>, int)>
    decreases ts.len() - p,
{
    if 0 <= p < ts.len() {
        let t = ts[p];
        if is_paren_tok(t, '{') || is_punct(t, ':') {
            Some((text, p))
        } else if is_punct(t, ';') || t.kind == TokenKind::EndLine {
            None
        } else {
            pseudo_scan(ts, p + 1, text + t.text)
        }
    } else {
        None
    }
}

/// The colon at `p` read as part of a selector: the selector text it
/// starts and the index where gathering goes on; `None` where the colon
/// separates a property from its value.
pub open spec fn pseudo_spec(ts: Seq<Lexeme>, p: int) -> Option<(Seq<char>, int)> {
    if 0 <= p && p + 1 < ts.len() && is_punct(ts[p + 1], ':') {
        Some((seq![':', ':'], p + 2))
    } else {
        pseudo_scan(ts, p + 1, seq![':'])
    }
}

/// The nodes of the body that starts at `p`, and the index after it.
pub open spec fn nodes_spec(ts: Seq<Lexeme>, p: int, in_block: bool) -> (Seq<NodeView>, int)
    decreases ts.len() - p, 3nat,
{
    nodes_loop(ts, p, in_block, false, Seq::empty(), Seq::empty())
}

/// The body from `p` on, with `acc` built and `text` gathered; `waiting`
/// tells that a selector or property is being gathered.
pub open spec fn nodes_loop(
    ts: Seq<Lexeme>,
    p: int,
    in_block: bool,
    waiting: bool,
    text: Seq<char>,
    acc: Seq<NodeView>,
) -> (Seq<NodeView>, int)
    decreases ts.len() - p, 2nat,
{
    if 0 <= p < ts.len() {
        let t = ts[p];
        if t.kind == TokenKind::Word || is_punct(t, '*') || is_punct(t, '&') {
            nodes_loop(ts, p + 1, in_block, true, text + t.text, acc)
        } else if t.kind == TokenKind::Space {
            nodes_loop(
                ts,
                p + 1,
                in_block,
                waiting,
                if waiting {
                    text + t.text
                } else {
                    text
                },
                acc,
            )
        } else if is_punct(t, '@') {
            if waiting {
                nodes_loop(ts, p + 1, in_block, waiting, text + t.text, acc)
            } else {
                let (n, e) = atrule_spec(ts, p);
                if p < e <= ts.len() {
                    nodes_loop(
                        ts,
                        e,
                        in_block,
                        waiting,
                        text,
                        match n {
                            Some(x) => acc.push(x),
                            None => acc,
                        },
                    )
                } else {
                    (acc, p)
                }
            }
        } else if is_punct(t, ':') {
            match pseudo_spec(ts, p) {
                Some((s, e)) => if p < e <= ts.len() {
                    nodes_loop(ts, e, in_block, true, text + s, acc)
                } else {
                    (acc, p)
                },
                None => match value_spec(ts, p + 1) {
                    Some((v, important, e)) => if p < e <= ts.len() {
                        nodes_loop(
                            ts,
                            e,
                            in_block,
                            false,
                            Seq::empty(),
                            acc.push(
                                NodeView::Decl {
                                    property: trim_spec(text),
                                    value: trim_spec(v),
                                    important,
                                },
                            ),
                        )
                    } else {
                        (acc, p)
                    },
                    None => (acc, ts.len() as int),
                },
            }
        } else if t.kind == TokenKind::Punctuator {
            nodes_loop(ts, p + 1, in_block, waiting, text + t.text, acc)
        } else if is_paren_tok(t, '{') {
            if waiting {
                let (children, e) = nodes_spec(ts, p + 1, true);
                if p < e <= ts.len() {
                    nodes_loop(
                        ts,
                        e,
                        in_block,
                        false,
                        Seq::empty(),
                        acc.push(NodeView::Rule { selector: trim_spec(text), children }),
                    )
                } else {
                    (acc, p)
                }
            } else {
                nodes_loop(ts, p + 1, in_block, waiting, text, acc)
            }
        } else if is_paren_tok(t, '}') {
            if !waiting && in_block {
                (acc, p + 1)
            } else {
                nodes_loop(ts, p + 1, in_block, waiting, text, acc)
            }
        } else if t.kind == TokenKind::Paren {
            nodes_loop(ts, p + 1, in_block, waiting, text + t.text, acc)
        } else {
            nodes_loop(ts, p + 1, in_block, waiting, text, acc)
        }
    } else {
        (acc, p)
    }
}

/// The at-rule whose `@` stands at `p`, if one is built, and the index
/// after it.
pub open spec fn atrule_spec(ts: Seq<Lexeme>, p: int) -> (Option<NodeView>, int)
    decreases ts.len() - p, 1nat,
{
    if 0 <= p && p + 1 < ts.len() && ts[p + 1].kind == TokenKind::Word {
        atrule_body(ts, p + 2, ts[p + 1].text, Seq::empty(), 0)
    } else if 0 <= p && p + 1 < ts.len() {
        (None, p + 2)
    } else {
        (None, ts.len() as int)
    }
}

/// The at-rule named `name` from `p` on, with parameter text `text`
/// gathered inside `depth` open parentheses.
pub open spec fn atrule_body(ts: Seq<Lexeme>, p: int, name: Seq<char>, text: Seq<char>, depth: nat) -> (
    Option<NodeView>,
    int,
)
    decreases ts.len() - p, 0nat,
{
    if 0 <= p < ts.len() {
        let t = ts[p];
        if is_paren_tok(t, '(') {
            atrule_body(ts, p + 1, name, text + t.text, depth + 1)
        } else if is_paren_tok(t, ')') {
            if depth > 0 {
                atrule_body(ts, p + 1, name, text + t.text, (depth - 1) as nat)
            } else {
                atrule_body(ts, p + 1, name, text, depth)
            }
        } else if is_paren_tok(t, '{') {
            let (children, e) = nodes_spec(ts, p + 1, true);
            (
                Some(
                    NodeView::Atrule {
                        name,
                        params: trim_spec(text),
                        value: None,
                        children: Some(children),
                    },
                ),
                e,
            )
        } else if is_punct(t, ';') {
            (
                if text.len() > 0 {
                    Some(
                        NodeView::Atrule {
                            name,
                            params: trim_spec(text),
                            value: None,
                            children: None,
                        },
                    )
                } else {
                    None
                },
                p + 1,
            )
        } else if is_punct(t, ':') && depth == 0 {
            match value_spec(ts, p + 1) {
                Some((v, important, e)) => {
                    let value = trim_spec(
                        if important {
                            v + important_mark()
                        } else {
                            v
                        },
                    );
                    (
                        Some(
                            NodeView::Atrule {
                                name,
                                params: value,
                                value: Some(value),
                                children: None,
                            },
                        ),
                        e,
                    )
                },
                None => (None, ts.len() as int),
            }
        } else if t.kind == TokenKind::EndLine {
            atrule_body(ts, p + 1, name, text, depth)
        } else {
            atrule_body(ts, p + 1, name, text + t.text, depth)
        }
    } else {
        (None, p)
    }
}

/// The top-level nodes of the token sequence `ts`, read from `p` on.
pub open spec fn parse_spec(ts: Seq<Lexeme>, p: int) -> Seq<NodeView> {
    nodes_spec(ts, p, false).0
}


/// The view of an optional node.
pub open spec fn opt_view(n: Option<NodeType>) -> Option<NodeView> {
    match n {
        Some(x) => Some(node_view(x)),
        None => None,
    }
}

proof fn lemma_views_push(s: Seq<NodeType>, x: NodeType, k: nat)
    requires
        k <= s.len(),
    ensures
        views_prefix(s.push(x), k) == views_prefix(s, k),
    decreases k,
{
    if k > 0 {
        lemma_views_push(s, x, (k - 1) as nat);
    }
}

proof fn lemma_nodes_view_push(s: Seq<NodeType>, x: NodeType)
    ensures
        nodes_view(s.push(x)) == nodes_view(s).push(node_view(x)),
{
    lemma_views_push(s, x, s.len());
}

/// Whether `t` is the punctuator `c`.
fn punct_is(t: &Token, c: char) -> (r: bool)
    ensures
        r == is_punct(t@, c),
{
    let s = t.text();
    let r = t.kind() == TokenKind::Punctuator && s.unicode_len() == 1 && s.get_char(0) == c;
    proof {
        if r {
            assert(s@ =~= seq![c]);
        }
    }
    r
}

/// Whether `t` is the bracket `c`.
fn paren_is(t: &Token, c: char) -> (r: bool)
    ensures
        r == is_paren_tok(t@, c),
{
    let s = t.text();
    let r = t.kind() == TokenKind::Paren && s.unicode_len() == 1 && s.get_char(0) == c;
    proof {
        if r {
            assert(s@ =~= seq![c]);
        }
    }
    r
}

/// Whether `s` is the word `important`.
fn is_important_word(s: &str) -> (r: bool)
    ensures
        r == (s@ == important_word()),
{
    let v = chars_of(s);
    let r = v.len() == 9 && v[0] == 'i' && v[1] == 'm' && v[2] == 'p' && v[3] == 'o' && v[4] == 'r'
        && v[5] == 't' && v[6] == 'a' && v[7] == 'n' && v[8] == 't';
    proof {
        if r {
            assert(v@ =~= important_word());
        }
    }
    r
}

/// The look-ahead after the `!` at `p`: where the `;` of an important flag
/// stands, or `None`, in which case nothing was consumed.
fn search_important(ts: &Vec<Token>, p: usize) -> (r: Option<usize>)
    requires
        p < ts@.len(),
    ensures
        match r {
            Some(e) => important_end(lexemes(ts@), p + 1) == Some(e as int) && p < e < ts@.len(),
            None => important_end(lexemes(ts@), p + 1) is None,
        },
{
    let ghost l = lexemes(ts@);
    let n = ts.len();
    let mut q = p + 1;
    while q < n && (ts[q].kind() == TokenKind::Space || (ts[q].kind() == TokenKind::Word
        && is_important_word(ts[q].text())))
        invariant
            l == lexemes(ts@),
            n == ts@.len(),
            p < q <= n,
            important_end(l, p + 1) == important_end(l, q as int),
        decreases n - q,
    {
        q = q + 1;
    }
    if q < n && punct_is(&ts[q], ';') {
        Some(q)
    } else {
        None
    }
}

/// The value that starts at `p`, just after a colon: its raw text, whether
/// it was flagged important, and the index after its end.
fn parse_value(ts: &Vec<Token>, p: usize) -> (r: Option<(String, bool, usize)>)
    requires
        p <= ts@.len(),
    ensures
        match r {
            Some((s, important, e)) => value_spec(lexemes(ts@), p as int) == Some(
                (s@, important, e as int),
            ) && p < e <= ts@.len(),
            None => value_spec(lexemes(ts@), p as int) is None,
        },
{
    let ghost l = lexemes(ts@);
    let n = ts.len();
    let mut q = p;
    while q < n && ts[q].kind() == TokenKind::Space
        invariant
            l == lexemes(ts@),
            n == ts@.len(),
            p <= q <= n,
            skip_space_tokens(l, p as int) == skip_space_tokens(l, q as int),
        decreases n - q,
    {
        q = q + 1;
    }
    let mut text = String::new();
    let mut important = false;
    while q < n
        invariant
            l == lexemes(ts@),
            n == ts@.len(),
            p <= q <= n,
            value_spec(l, p as int) == value_scan(l, q as int, text@, important),
        decreases n - q,
    {
        let t = &ts[q];
        if punct_is(t, ';') || t.kind() == TokenKind::EndLine {
            return Some((text, important, q + 1));
        }
        if punct_is(t, '!') && q > 0 && ts[q - 1].kind() == TokenKind::Space {
            match search_important(ts, q) {
                Some(e) => {
                    important = true;
                    q = e;
                },
                None => {
                    text.append(t.text());
                    q = q + 1;
                },
            }
        } else {
            text.append(t.text());
            q = q + 1;
        }
    }
    None
}

/// The look-ahead after the colon at `p`: the selector text that it starts
/// and the index where gathering goes on, or `None` for a declaration, in
/// which case nothing was consumed.
fn search_sudoclass(ts: &Vec<Token>, p: usize) -> (r: Option<(String, usize)>)
    requires
        p < ts@.len(),
    ensures
        match r {
            Some((s, e)) => pseudo_spec(lexemes(ts@), p as int) == Some((s@, e as int)) && p < e
                <= ts@.len(),
            None => pseudo_spec(lexemes(ts@), p as int) is None,
        },
{
    let ghost l = lexemes(ts@);
    let n = ts.len();
    let mut text = String::new();
    push_char(&mut text, ':');
    if p + 1 < n && punct_is(&ts[p + 1], ':') {
        push_char(&mut text, ':');
        assert(text@ =~= seq![':', ':']);
        return Some((text, p + 2));
    }
    assert(text@ =~= seq![':']);
    let mut q = p + 1;
    while q < n
        invariant
            l == lexemes(ts@),
            n == ts@.len(),
            p < q <= n,
            pseudo_spec(l, p as int) == pseudo_scan(l, q as int, text@),
        decreases n - q,
    {
        let t = &ts[q];
        if paren_is(t, '{') || punct_is(t, ':') {
            return Some((text, q));
        }
        if punct_is(t, ';') || t.kind() == TokenKind::EndLine {
            return None;
        }
        text.append(t.text());
        q = q + 1;
    }
    None
}

/// The at-rule whose `@` stands at `p`, if one is built, and the index
/// after it.
fn parse_atrule(ts: &Vec<Token>, p: usize) -> (r: (Option<NodeType>, usize))
    requires
        p < ts@.len(),
    ensures
        (opt_view(r.0), r.1 as int) == atrule_spec(lexemes(ts@), p as int),
        p < r.1 <= ts@.len(),
    decreases ts@.len() - p, 1nat,
{
    let ghost l = lexemes(ts@);
    let n = ts.len();
    if p + 1 >= n {
        return (None, n);
    }
    if ts[p + 1].kind() != TokenKind::Word {
        return (None, p + 2);
    }
    let name = ts[p + 1].text().to_owned();
    let mut text = String::new();
    let mut depth: usize = 0;
    let mut q = p + 2;
    while q < n
        invariant
            l == lexemes(ts@),
            n == ts@.len(),
            p + 2 <= q <= n,
            depth <= q,
            atrule_spec(l, p as int) == atrule_body(l, q as int, name@, text@, depth as nat),
        decreases n - q,
    {
        let t = &ts[q];
        if paren_is(t, '(') {
            text.append(t.text());
            depth = depth + 1;
        } else if paren_is(t, ')') {
            if depth > 0 {
                text.append(t.text());
                depth = depth - 1;
            }
        } else if paren_is(t, '{') {
            let (children, e) = parse_nodes(ts, q + 1, true);
            let params = trim(text.as_str());
            let node = NodeType::Atrule { name, params, value: None, children: Some(children) };
            return (Some(node), e);
        } else if punct_is(t, ';') {
            if text.as_str().is_empty() {
                return (None, q + 1);
            }
            let params = trim(text.as_str());
            let node = NodeType::Atrule { name, params, value: None, children: None };
            return (Some(node), q + 1);
        } else if punct_is(t, ':') && depth == 0 {
            match parse_value(ts, q + 1) {
                Some((v, important, e)) => {
                    let mut raw = v;
                    if important {
                        proof {
                            reveal_strlit("!important");
                        }
                        raw.append("!important");
                        assert(raw@ =~= v@ + important_mark());
                    }
                    let value = trim(raw.as_str());
                    let params = trim(raw.as_str());
                    let node = NodeType::Atrule { name, params, value: Some(value), children: None };
                    return (Some(node), e);
                },
                None => {
                    return (None, n);
                },
            }
        } else if t.kind() != TokenKind::EndLine {
            text.append(t.text());
        }
        q = q + 1;
    }
    (None, n)
}

/// The nodes of the body that starts at `p`, in a block or at the top
/// level, and the index after it: after its closing `}`, or the end of the
/// tokens.
fn parse_nodes(ts: &Vec<Token>, p: usize, in_block: bool) -> (r: (Vec<NodeType>, usize))
    requires
        p <= ts@.len(),
    ensures
        (nodes_view(r.0@), r.1 as int) == nodes_spec(lexemes(ts@), p as int, in_block),
        p <= r.1 <= ts@.len(),
    decreases ts@.len() - p, 2nat,
{
    let ghost l = lexemes(ts@);
    let n = ts.len();
    let mut nodes: Vec<NodeType> = Vec::new();
    let mut text = String::new();
    let mut waiting = false;
    let mut q = p;
    while q < n
        invariant
            l == lexemes(ts@),
            n == ts@.len(),
            p <= q <= n,
            nodes_spec(l, p as int, in_block) == nodes_loop(
                l,
                q as int,
                in_block,
                waiting,
                text@,
                nodes_view(nodes@),
            ),
        decreases n - q,
    {
        let t = &ts[q];
        let kind = t.kind();
        if kind == TokenKind::Word || punct_is(t, '*') || punct_is(t, '&') {
            text.append(t.text());
            waiting = true;
            q = q + 1;
        } else if kind == TokenKind::Space {
            if waiting {
                text.append(t.text());
            }
            q = q + 1;
        } else if punct_is(t, '@') {
            if waiting {
                text.append(t.text());
                q = q + 1;
            } else {
                let (node, e) = parse_atrule(ts, q);
                match node {
                    Some(x) => {
                        proof {
                            lemma_nodes_view_push(nodes@, x);
                        }
                        nodes.push(x);
                    },
                    None => {},
                }
                q = e;
            }
        } else if punct_is(t, ':') {
            match search_sudoclass(ts, q) {
                Some((s, e)) => {
                    text.append(s.as_str());
                    waiting = true;
                    q = e;
                },
                None => {
                    match parse_value(ts, q + 1) {
                        Some((v, important, e)) => {
                            let property = trim(text.as_str());
                            let value = trim(v.as_str());
                            let x = NodeType::Decl { property, value, important };
                            proof {
                                lemma_nodes_view_push(nodes@, x);
                            }
                            nodes.push(x);
                            text = String::new();
                            waiting = false;
                            q = e;
                        },
                        None => {
                            return (nodes, n);
                        },
                    }
                },
            }
        } else if kind == TokenKind::Punctuator {
            text.append(t.text());
            q = q + 1;
        } else if paren_is(t, '{') {
            if waiting {
                let (children, e) = parse_nodes(ts, q + 1, true);
                let selector = trim(text.as_str());
                let x = NodeType::Rule { selector, children };
                proof {
                    lemma_nodes_view_push(nodes@, x);
                }
                nodes.push(x);
                text = String::new();
                waiting = false;
                q = e;
            } else {
                q = q + 1;
            }
        } else if paren_is(t, '}') {
            if !waiting && in_block {
                return (nodes, q + 1);
            }
            q = q + 1;
        } else if kind == TokenKind::Paren {
            text.append(t.text());
            q = q + 1;
        } else {
            q = q + 1;
        }
    }
    (nodes, q)
}

/// The parser: a cursor over a borrowed token sequence.
pub struct Parser<'t> {
    pub tokens: &'t Vec<Token>,
    pub token_counter: usize,
}

impl<'t> Parser<'t> {
    /// A parser at the first of `tokens`.
    pub fn new(tokens: &'t Vec<Token>) -> (r: Parser<'t>)
        ensures
            r.tokens == tokens,
            r.token_counter == 0,
    {
        Parser { tokens, token_counter: 0 }
    }

    /// The top-level nodes from the cursor on; the cursor ends past them.
    pub fn parse(&mut self) -> (r: Vec<NodeType>)
        ensures
            nodes_view(r@) == parse_spec(lexemes(old(self).tokens@), old(self).token_counter as int),
            final(self).tokens == old(self).tokens,
            final(self).token_counter == nodes_spec(
                lexemes(old(self).tokens@),
                old(self).token_counter as int,
                false,
            ).1,
    {
        let n = self.tokens.len();
        if self.token_counter > n {
            return Vec::new();
        }
        let (nodes, e) = parse_nodes(self.tokens, self.token_counter, false);
        self.token_counter = e;
        nodes
    }
}

/// The top-level nodes of `tokens`. Defined on every token sequence: it
/// has no precondition, and like every function of this crate it ends
/// without panicking; malformed input is recovered from, never reported.
pub fn parse(tokens: &Vec<Token>) -> (r: Vec<NodeType>)
    ensures
        nodes_view(r@) == parse_spec(lexemes(tokens@), 0),
{
    let (nodes, _) = parse_nodes(tokens, 0, false);
    nodes
}

} // verus!
