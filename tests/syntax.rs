use asalang::parser::{
    comment, condition, function_call, identifier, if_assign, if_else, if_expression,
    if_multi_line, number, string, t_alphanumeric0, t_double_equal,
};
use asalang::{lex, AsaErrorKind, Interpreter, Node, TokenKind, Value};

fn kinds(src: &str) -> Vec<TokenKind> {
    lex(src.as_bytes()).unwrap().iter().map(|t| t.kind).collect()
}

#[test]
fn lexer_makes_one_token_per_character() {
    assert_eq!(
        kinds("ab1"),
        vec![TokenKind::Alpha, TokenKind::Alpha, TokenKind::Digit]
    );
    assert_eq!(
        kinds("(){},;\"/+-=><"),
        vec![
            TokenKind::LeftParen,
            TokenKind::RightParen,
            TokenKind::LeftCurly,
            TokenKind::RightCurly,
            TokenKind::Comma,
            TokenKind::Semicolon,
            TokenKind::Quote,
            TokenKind::Slash,
            TokenKind::Plus,
            TokenKind::Dash,
            TokenKind::Equal,
            TokenKind::Greater,
            TokenKind::LessThan,
        ]
    );
    assert_eq!(
        kinds(" \t\n"),
        vec![TokenKind::WhiteSpace, TokenKind::Tab, TokenKind::NewLine]
    );
    assert_eq!(kinds("=="), vec![TokenKind::Equal, TokenKind::Equal]);
}

#[test]
fn lexer_reads_whole_word_keywords() {
    assert_eq!(
        kinds("fn let if else return true false"),
        vec![
            TokenKind::Fn,
            TokenKind::WhiteSpace,
            TokenKind::Let,
            TokenKind::WhiteSpace,
            TokenKind::If,
            TokenKind::WhiteSpace,
            TokenKind::Else,
            TokenKind::WhiteSpace,
            TokenKind::Return,
            TokenKind::WhiteSpace,
            TokenKind::True,
            TokenKind::WhiteSpace,
            TokenKind::False,
        ]
    );
    assert_eq!(kinds("fnx"), vec![TokenKind::Alpha, TokenKind::Alpha, TokenKind::Alpha]);
    assert_eq!(kinds("xif"), vec![TokenKind::Alpha, TokenKind::Alpha, TokenKind::Alpha]);
}

#[test]
fn lexer_rejects_unknown_bytes() {
    assert_eq!(lex(b"ab@c"), Err(2));
    assert_eq!(lex(b"").unwrap().len(), 0);
}

#[test]
fn lexer_records_positions() {
    let toks = lex(b"ab\nreturn").unwrap();
    assert_eq!(toks.len(), 4);
    assert_eq!((toks[1].start_line, toks[1].start_col, toks[1].end_line, toks[1].end_col), (1, 2, 1, 3));
    assert_eq!((toks[2].start_line, toks[2].start_col, toks[2].end_line, toks[2].end_col), (1, 3, 2, 1));
    assert_eq!(toks[3].lexeme, b"return".to_vec());
    assert_eq!((toks[3].start_line, toks[3].start_col, toks[3].end_line, toks[3].end_col), (2, 1, 2, 7));
}

#[test]
fn identifier_folds_letters_and_digits() {
    let toks = lex(b"ab12(").unwrap();
    assert_eq!(identifier(&toks, 0), Ok((4, Node::Identifier { value: b"ab12".to_vec() })));
    assert_eq!(identifier(&toks, 2), Err(2));
    let (p, run) = t_alphanumeric0(&toks, 0).unwrap();
    assert_eq!((p, run.len()), (4, 4));
}

#[test]
fn number_reads_decimal_digits() {
    let toks = lex(b"2147483647").unwrap();
    assert_eq!(number(&toks, 0), Ok((10, Node::Number { value: 2147483647 })));
    let toks = lex(b"2147483648").unwrap();
    assert_eq!(number(&toks, 0), Err(0));
    let toks = lex(b"007x").unwrap();
    assert_eq!(number(&toks, 0), Ok((3, Node::Number { value: 7 })));
}

#[test]
fn string_holds_its_characters() {
    let toks = lex(b"\"ab1\"").unwrap();
    assert_eq!(string(&toks, 0), Ok((5, Node::String { value: "ab1".to_string() })));
    let toks = lex(b"\"a b\"").unwrap();
    assert_eq!(string(&toks, 0), Err(0));
}

#[test]
fn comment_stops_at_first_non_letter() {
    let toks = lex(b"//abc1").unwrap();
    assert_eq!(comment(&toks, 0), Ok((5, Node::Comment { value: b"abc".to_vec() })));
}

#[test]
fn double_equal_spans_two_tokens() {
    let toks = lex(b"==").unwrap();
    let (p, tk) = t_double_equal(&toks, 0).unwrap();
    assert_eq!(p, 2);
    assert_eq!(tk.kind, TokenKind::DoubleEqual);
    assert_eq!(tk.lexeme, b"==".to_vec());
    assert_eq!((tk.start_col, tk.end_col), (1, 3));
}

#[test]
fn call_without_arguments_has_an_empty_list() {
    let toks = lex(b"foo()").unwrap();
    let expected = Node::FunctionCall {
        name: b"foo".to_vec(),
        children: vec![Node::FunctionArguments { children: vec![] }],
    };
    assert_eq!(function_call(&toks, 0), Ok((5, expected)));
}

#[test]
fn condition_compares_variables() {
    let mut interpreter = Interpreter::new();
    let setup = asalang::parser::parse_source(b"let a = 3; let b = 2;").unwrap().1;
    assert_eq!(interpreter.exec(&setup), Ok(Value::Number(2)));
    for (src, expected) in [("a>b", true), ("a<b", false), ("a==b", false), ("a==a", true)] {
        let toks = lex(src.as_bytes()).unwrap();
        let (_, node) = condition(&toks, 0).unwrap();
        assert_eq!(interpreter.exec(&node), Ok(Value::Bool(expected)));
    }
}

#[test]
fn if_expression_answers_the_condition() {
    let mut interpreter = Interpreter::new();
    let setup = asalang::parser::parse_source(b"let a = 3; let b = 2;").unwrap().1;
    interpreter.exec(&setup).unwrap();
    let toks = lex(b"if a>b {return true;} else {return false;}").unwrap();
    let toks = asalang::parser::drop_spaces(toks);
    let (p, node) = if_expression(&toks, 0).unwrap();
    assert_eq!(p, toks.len());
    assert_eq!(interpreter.exec(&node), Ok(Value::Bool(true)));
}

#[test]
fn if_else_takes_the_second_branch() {
    let mut interpreter = Interpreter::new();
    let setup = asalang::parser::parse_source(b"let a = 1; let b = 2;").unwrap().1;
    interpreter.exec(&setup).unwrap();
    let src = "if a>b {return 1;} else if a<b {return 2;} else {return 3}";
    let toks = asalang::parser::drop_spaces(lex(src.as_bytes()).unwrap());
    let (p, node) = if_else(&toks, 0).unwrap();
    assert_eq!(p, toks.len());
    assert_eq!(interpreter.exec(&node), Ok(Value::Bool(true)));
}

#[test]
fn if_assign_binds_the_chosen_value() {
    let mut interpreter = Interpreter::new();
    let src = "let v = if false {return true;} else {return false;}";
    let toks = asalang::parser::drop_spaces(lex(src.as_bytes()).unwrap());
    let (_, node) = if_assign(&toks, 0).unwrap();
    assert_eq!(interpreter.exec(&node), Ok(Value::Bool(false)));
    let id = Node::Identifier { value: b"v".to_vec() };
    assert_eq!(interpreter.exec(&id), Ok(Value::Bool(false)));
}

#[test]
fn multi_line_if_parses_indented_branches() {
    let src = "if true {\n\t{return true;}} else {\n\t{return false;}}";
    let toks = asalang::parser::drop_spaces(lex(src.as_bytes()).unwrap());
    let (p, node) = if_multi_line(&toks, 0).unwrap();
    assert_eq!(p, toks.len());
    let mut interpreter = Interpreter::new();
    assert_eq!(interpreter.exec(&node), Ok(Value::Bool(true)));
}

fn ret_bool(b: bool) -> Node {
    Node::ReturnIf { children: vec![Node::Bool { value: b }] }
}

#[test]
fn non_boolean_conditions_are_type_errors() {
    let mut interpreter = Interpreter::new();
    let num = || Node::Number { value: 1 };
    let if_expr = Node::IfExpression { children: vec![num(), ret_bool(true), ret_bool(false)] };
    assert_eq!(interpreter.exec(&if_expr), Err(AsaErrorKind::TypeError));
    let if_else = Node::IfElse {
        children: vec![num(), ret_bool(true), num(), ret_bool(true), ret_bool(false)],
    };
    assert_eq!(interpreter.exec(&if_else), Err(AsaErrorKind::TypeError));
    let if_else2 = Node::IfElse {
        children: vec![Node::Bool { value: false }, ret_bool(true), num(), ret_bool(true), ret_bool(false)],
    };
    assert_eq!(interpreter.exec(&if_else2), Err(AsaErrorKind::TypeError));
    let if_assign = Node::IfAssign {
        children: vec![Node::Identifier { value: b"v".to_vec() }, num(), ret_bool(true), ret_bool(false)],
    };
    assert_eq!(interpreter.exec(&if_assign), Err(AsaErrorKind::TypeError));
    let multi = Node::MultiLineIf { children: vec![num(), ret_bool(true), ret_bool(false)] };
    assert_eq!(interpreter.exec(&multi), Err(AsaErrorKind::TypeError));
}

#[test]
fn comparing_a_string_is_a_type_error() {
    let mut interpreter = Interpreter::new();
    let setup = asalang::parser::parse_source(b"let a = \"x\"; let b = 2;").unwrap().1;
    interpreter.exec(&setup).unwrap();
    let toks = lex(b"a>b").unwrap();
    let (_, node) = condition(&toks, 0).unwrap();
    assert_eq!(interpreter.exec(&node), Err(AsaErrorKind::TypeError));
}

fn ident(s: &str) -> Node {
    Node::Identifier { value: s.as_bytes().to_vec() }
}

fn expr(n: Node) -> Node {
    Node::Expression { children: vec![n] }
}

#[test]
fn function_define_keeps_parameters_and_statements() {
    let toks = asalang::parser::drop_spaces(lex(b"fn f(a, b){let c = a; return c;}").unwrap());
    let expected = Node::FunctionDefine {
        name: b"f".to_vec(),
        children: vec![
            Node::FunctionArguments { children: vec![expr(ident("a")), expr(ident("b"))] },
            Node::FunctionStatements {
                children: vec![
                    Node::VariableDefine { children: vec![ident("c"), expr(ident("a"))] },
                    Node::FunctionReturn { children: vec![expr(ident("c"))] },
                ],
            },
        ],
    };
    assert_eq!(asalang::parser::function_define(&toks, 0), Ok((toks.len(), expected)));
}

#[test]
fn function_define_needs_a_statement() {
    let toks = lex(b"fn f(){}").unwrap();
    assert_eq!(asalang::parser::function_define(&toks, 0), Err(0));
}

#[test]
fn statement_needs_a_semicolon() {
    let toks = asalang::parser::drop_spaces(lex(b"let x = 1").unwrap());
    assert_eq!(asalang::parser::statement(&toks, 0), Err(0));
    let toks = asalang::parser::drop_spaces(lex(b"let x = 1;").unwrap());
    let expected = Node::VariableDefine {
        children: vec![ident("x"), expr(Node::Number { value: 1 })],
    };
    assert_eq!(asalang::parser::statement(&toks, 0), Ok((toks.len(), expected)));
}

#[test]
fn arguments_collect_comma_separated_expressions() {
    let toks = lex(b"1,x,true)").unwrap();
    let expected = Node::FunctionArguments {
        children: vec![expr(Node::Number { value: 1 }), expr(ident("x")), expr(Node::Bool { value: true })],
    };
    assert_eq!(asalang::parser::arguments(&toks, 0), Ok((5, expected)));
    assert_eq!(asalang::parser::other_arg(&toks, 1), Ok((3, expr(ident("x")))));
}

#[test]
fn return_forms_have_fixed_shapes() {
    let toks = asalang::parser::drop_spaces(lex(b"{return 4}").unwrap());
    assert_eq!(
        asalang::parser::return_else(&toks, 0),
        Ok((4, Node::ReturnElse { children: vec![Node::Number { value: 4 }] }))
    );
    assert_eq!(asalang::parser::return_ifnum(&toks, 0), Err(0));
    assert_eq!(asalang::parser::return_if(&toks, 0), Err(0));
}

#[test]
fn value_prefers_numbers_then_identifiers() {
    let toks = lex(b"12").unwrap();
    assert_eq!(asalang::parser::value(&toks, 0), Ok((2, Node::Number { value: 12 })));
    let toks = lex(b"true").unwrap();
    assert_eq!(asalang::parser::value(&toks, 0), Ok((1, Node::Bool { value: true })));
    assert_eq!(asalang::parser::t_alpha1(&toks, 0).map(|(p, v)| (p, v.len())), Err(0));
}

#[test]
fn if_indent_is_newline_then_tab() {
    let toks = lex(b"\n\t").unwrap();
    let expected = Node::IfIndent { children: vec![Node::NewLine, Node::Tab] };
    assert_eq!(asalang::parser::if_indent(&toks, 0), Ok((2, expected)));
}

#[test]
fn program_stops_at_what_it_cannot_read() {
    let toks = asalang::parser::drop_spaces(lex(b"1 true }").unwrap());
    let expected = Node::Program {
        children: vec![expr(Node::Number { value: 1 }), expr(Node::Bool { value: true })],
    };
    assert_eq!(asalang::parser::program(&toks, 0), Ok((2, expected)));
    assert_eq!(asalang::parser::program(&toks, 2), Err(2));
}

#[test]
fn spaces_are_dropped_before_parsing() {
    let (p, tree) = asalang::parser::parse_source(b"1 2").unwrap();
    assert_eq!(p, 2);
    assert_eq!(tree, Node::Program { children: vec![expr(Node::Number { value: 12 })] });
}
