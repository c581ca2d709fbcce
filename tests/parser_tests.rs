use css_ast::{parse, tokenize, Lexer, NodeType, Parser};

fn parse_str(source: &str) -> Vec<NodeType> {
    let tokens = tokenize(source);
    parse(&tokens)
}

fn rule(node: &NodeType) -> (&str, &Vec<NodeType>) {
    match node {
        NodeType::Rule { selector, children } => (selector.as_str(), children),
        other => panic!("not a rule: {:?}", other),
    }
}

fn decl(node: &NodeType) -> (&str, &str, bool) {
    match node {
        NodeType::Decl { property, value, important } => (property.as_str(), value.as_str(), *important),
        other => panic!("not a declaration: {:?}", other),
    }
}

fn atrule(node: &NodeType) -> (&str, &str, Option<&str>, Option<&Vec<NodeType>>) {
    match node {
        NodeType::Atrule { name, params, value, children } => {
            (name.as_str(), params.as_str(), value.as_deref(), children.as_ref())
        }
        other => panic!("not an at-rule: {:?}", other),
    }
}

#[test]
fn read_str() {
    let source = r###"@variable: #999;

    @variable2: #fff;
    
    @import url();
    
    @media only screen and (max-width: 1000px) {
        color: white;
        font-size: 10px;
    }
    
    main {
        * {
            font-size: 3em;
        }
        color: #999;
        -webkit-line-clamp: 3;
        h3 {
            font-size: large;
            background: url("https://www.baidu.com");
        }
        div + p {
            list-style: "|";
        }
        .test-1, #test2 {
            --theme-color: var(--white);
        }
        [data-attr] {
            background-color: white;
            left: calc(100% - 10px);
        }
        &.img {
            width: fit-content;
        }
        & {
            div {
                overflow: initial;
            }
        }
        #what {
            right: 0;
        }
    }
    
    .test-class1 {
        color: white;
    }
    
    @keyframes anim {
        from {
            left: 0%;
        }
        to {
            right: 100%;
        }
    }"###;

    let tokens = Lexer::new().lex_from_source(&source.to_owned());
    let mut parser = Parser::new(&tokens);
    let nodes = parser.parse();

    assert_eq!(nodes.len(), 7);
    assert_eq!(atrule(&nodes[0]), ("variable", "#999", Some("#999"), None));
    assert_eq!(atrule(&nodes[1]), ("variable2", "#fff", Some("#fff"), None));
    assert_eq!(atrule(&nodes[2]), ("import", "url()", None, None));
    let (name, params, value, children) = atrule(&nodes[3]);
    assert_eq!((name, params, value), ("media", "only screen and (max-width: 1000px)", None));
    let children = children.unwrap();
    assert_eq!(children.len(), 2);
    assert_eq!(decl(&children[0]), ("color", "white", false));
    assert_eq!(decl(&children[1]), ("font-size", "10px", false));

    let (selector, main) = rule(&nodes[4]);
    assert_eq!(selector, "main");
    assert_eq!(main.len(), 10);
    assert_eq!(rule(&main[0]).0, "*");
    assert_eq!(decl(&main[1]), ("color", "#999", false));
    assert_eq!(decl(&main[2]), ("-webkit-line-clamp", "3", false));
    let (h3, h3_children) = rule(&main[3]);
    assert_eq!(h3, "h3");
    assert_eq!(decl(&h3_children[1]), ("background", "url(\"https://www.baidu.com\")", false));
    assert_eq!(rule(&main[4]).0, "div + p");
    assert_eq!(decl(&rule(&main[4]).1[0]), ("list-style", "\"|\"", false));
    let (classes, custom) = rule(&main[5]);
    assert_eq!(classes, ".test-1, #test2");
    assert_eq!(decl(&custom[0]), ("--theme-color", "var(--white)", false));
    let (attr, attr_children) = rule(&main[6]);
    assert_eq!(attr, "[data-attr]");
    assert_eq!(decl(&attr_children[1]), ("left", "calc(100% - 10px)", false));
    assert_eq!(rule(&main[7]).0, "&.img");
    assert_eq!(rule(&rule(&main[8]).1[0]).0, "div");
    assert_eq!(decl(&rule(&main[9]).1[0]), ("right", "0", false));

    assert_eq!(rule(&nodes[5]).0, ".test-class1");
    let (name, params, _, frames) = atrule(&nodes[6]);
    assert_eq!((name, params), ("keyframes", "anim"));
    let frames = frames.unwrap();
    assert_eq!(rule(&frames[0]).0, "from");
    assert_eq!(decl(&rule(&frames[1]).1[0]), ("right", "100%", false));
}

#[test]
fn pseudo_class_colon_stays_in_selector() {
    let nodes = parse_str("a:hover { color: red; }");
    assert_eq!(nodes.len(), 1);
    let (selector, children) = rule(&nodes[0]);
    assert_eq!(selector, "a:hover");
    assert_eq!(children.len(), 1);
    assert_eq!(decl(&children[0]), ("color", "red", false));
}

#[test]
fn pseudo_element_and_chained_pseudo_classes() {
    let nodes = parse_str("p::before { x: y; }\na:hover:focus { x: y; }");
    assert_eq!(rule(&nodes[0]).0, "p::before");
    assert_eq!(rule(&nodes[1]).0, "a:hover:focus");
}

#[test]
fn declaration_value_is_trimmed() {
    let nodes = parse_str("a { color:   red  ; }");
    assert_eq!(decl(&rule(&nodes[0]).1[0]), ("color", "red", false));
    let nodes = parse_str("color: red;");
    assert_eq!(decl(&nodes[0]), ("color", "red", false));
}

#[test]
fn property_is_trimmed() {
    let nodes = parse_str("a { color : blue; }");
    assert_eq!(decl(&rule(&nodes[0]).1[0]), ("color", "blue", false));
}

#[test]
fn important_flag_is_set_and_removed() {
    let nodes = parse_str("color: white !important;");
    assert_eq!(decl(&nodes[0]), ("color", "white", true));
    let nodes = parse_str("color: white ! important ;");
    assert_eq!(decl(&nodes[0]), ("color", "white", true));
}

#[test]
fn bang_inside_string_is_not_important() {
    let nodes = parse_str("content: \"a!b\";");
    assert_eq!(decl(&nodes[0]), ("content", "\"a!b\"", false));
}

#[test]
fn bang_without_space_is_value_text() {
    let nodes = parse_str("color: white!important;");
    assert_eq!(decl(&nodes[0]), ("color", "white!important", false));
    let nodes = parse_str("color: a !b;");
    assert_eq!(decl(&nodes[0]), ("color", "a !b", false));
}

#[test]
fn nested_rules_in_source_order() {
    let nodes = parse_str("main { h3 { font-size: large; } color: #999; }");
    assert_eq!(nodes.len(), 1);
    let (selector, children) = rule(&nodes[0]);
    assert_eq!(selector, "main");
    assert_eq!(children.len(), 2);
    let (h3, inner) = rule(&children[0]);
    assert_eq!(h3, "h3");
    assert_eq!(inner.len(), 1);
    assert_eq!(decl(&inner[0]), ("font-size", "large", false));
    assert_eq!(decl(&children[1]), ("color", "#999", false));
}

#[test]
fn atrule_with_params_only() {
    let nodes = parse_str("@import url();");
    assert_eq!(nodes.len(), 1);
    assert_eq!(atrule(&nodes[0]), ("import", "url()", None, None));
}

#[test]
fn atrule_with_block() {
    let nodes = parse_str("@media screen { color: red; }");
    let (name, params, value, children) = atrule(&nodes[0]);
    assert_eq!((name, params, value), ("media", "screen", None));
    let children = children.unwrap();
    assert_eq!(children.len(), 1);
    assert_eq!(decl(&children[0]), ("color", "red", false));
}

#[test]
fn atrule_with_value() {
    let nodes = parse_str("@variable: #999;");
    assert_eq!(atrule(&nodes[0]), ("variable", "#999", Some("#999"), None));
}

#[test]
fn atrule_value_keeps_important_text() {
    let nodes = parse_str("@x: 1 !important;");
    assert_eq!(atrule(&nodes[0]), ("x", "1 !important", Some("1 !important"), None));
}

#[test]
fn atrule_with_empty_params_is_dropped() {
    let nodes = parse_str("@charset; a { b: c; }");
    assert_eq!(nodes.len(), 1);
    assert_eq!(rule(&nodes[0]).0, "a");
}

#[test]
fn atrule_without_name_is_dropped() {
    let nodes = parse_str("@{} b: c;");
    assert_eq!(nodes.len(), 1);
    assert_eq!(decl(&nodes[0]), ("b", "c", false));
}

#[test]
fn unclosed_block_keeps_its_declarations() {
    let nodes = parse_str("a {\n  color: red;\n  font-size: 3em;\n");
    assert_eq!(nodes.len(), 1);
    let (selector, children) = rule(&nodes[0]);
    assert_eq!(selector, "a");
    assert_eq!(children.len(), 2);
    assert_eq!(decl(&children[0]), ("color", "red", false));
    assert_eq!(decl(&children[1]), ("font-size", "3em", false));
}

#[test]
fn value_without_semicolon_ends_at_line_end() {
    let nodes = parse_str("a {\n  color: red\n  top: 0;\n}");
    let children = rule(&nodes[0]).1;
    assert_eq!(decl(&children[0]), ("color", "red", false));
    assert_eq!(decl(&children[1]), ("top", "0", false));
}

#[test]
fn value_cut_by_end_of_input_is_dropped() {
    let mut tokens = tokenize("a: b");
    tokens.pop();
    assert_eq!(parse(&tokens).len(), 0);
}

#[test]
fn stray_closing_brace_at_top_level_is_skipped() {
    let nodes = parse_str("} a { b: c; }");
    assert_eq!(nodes.len(), 1);
    assert_eq!(rule(&nodes[0]).0, "a");
}

#[test]
fn empty_input_gives_no_nodes() {
    assert_eq!(parse_str("").len(), 0);
    assert_eq!(parse_str("  \n\n").len(), 0);
}

#[test]
fn malformed_input_does_not_fail() {
    for source in ["\"abc", "{{{", "}}}", ":", "@", "a { b: \"c", "!important;", "a::", "@m (x: y"] {
        let _ = parse_str(source);
    }
}

#[test]
fn parser_cursor_moves_past_the_input() {
    let tokens = tokenize("a { b: c; }");
    let mut parser = Parser::new(&tokens);
    assert_eq!(parser.parse().len(), 1);
    assert_eq!(parser.token_counter, tokens.len());
    assert_eq!(parser.parse().len(), 0);
}

#[test]
fn at_sign_inside_a_selector_is_text() {
    let nodes = parse_str("a@b { c: d; }");
    assert_eq!(nodes.len(), 1);
    assert_eq!(rule(&nodes[0]).0, "a@b");
}
