use asalang::parser::{drop_spaces, expression, math_expression, parse_source, program};
use asalang::{lex, AsaErrorKind, Interpreter, Node, Value};

fn parse(src: &str) -> Node {
    match parse_source(src.as_bytes()) {
        Some((_, tree)) => tree,
        None => panic!("no program in {:?}", src),
    }
}

fn run_main(src: &str) -> Result<Value, AsaErrorKind> {
    let tree = parse(src);
    let mut interpreter = Interpreter::new();
    assert_eq!(interpreter.exec(&tree), Ok(Value::Bool(true)));
    interpreter.start_main(vec![])
}

#[test]
fn parse_is_deterministic() {
    let src = "fn main(){return foo();} fn foo(){return 5;}";
    assert_eq!(parse_source(src.as_bytes()), parse_source(src.as_bytes()));
    let a = drop_spaces(lex(src.as_bytes()).unwrap());
    let b = drop_spaces(lex(src.as_bytes()).unwrap());
    assert_eq!(program(&a, 0), program(&b, 0));
}

#[test]
fn main_calls_foo_and_gets_five() {
    let src = "fn main(){return foo();} fn foo(){return 5;}";
    let (pos, tree) = parse_source(src.as_bytes()).unwrap();
    let tokens = drop_spaces(lex(src.as_bytes()).unwrap());
    assert_eq!(pos, tokens.len());
    let mut interpreter = Interpreter::new();
    assert_eq!(interpreter.exec(&tree), Ok(Value::Bool(true)));
    assert_eq!(interpreter.start_main(vec![]), Ok(Value::Number(5)));
}

#[test]
fn one_plus_two_is_three() {
    let tokens = lex(b"1+2").unwrap();
    let (pos, node) = expression(&tokens, 0).unwrap();
    assert_eq!(pos, 3);
    let expected = Node::Expression {
        children: vec![Node::MathExpression {
            name: b"add".to_vec(),
            children: vec![Node::Number { value: 1 }, Node::Number { value: 2 }],
        }],
    };
    assert_eq!(node, expected);
    let mut interpreter = Interpreter::new();
    assert_eq!(interpreter.exec(&node), Ok(Value::Number(3)));
}

#[test]
fn five_minus_two_is_three() {
    let tokens = lex(b"5-2").unwrap();
    let (_, node) = expression(&tokens, 0).unwrap();
    let mut interpreter = Interpreter::new();
    assert_eq!(interpreter.exec(&node), Ok(Value::Number(3)));
}

#[test]
fn arithmetic_wraps_around() {
    let tokens = lex(b"2147483647+1").unwrap();
    let (_, node) = expression(&tokens, 0).unwrap();
    let mut interpreter = Interpreter::new();
    assert_eq!(interpreter.exec(&node), Ok(Value::Number(i32::MIN)));
}

#[test]
fn calling_an_undefined_function_fails() {
    let mut interpreter = Interpreter::new();
    let call = Node::FunctionCall { name: b"nothere".to_vec(), children: vec![] };
    assert_eq!(interpreter.exec(&call), Err(AsaErrorKind::UndefinedFunction));
    assert_eq!(interpreter.start_main(vec![]), Err(AsaErrorKind::UndefinedFunction));
}

#[test]
fn lookup_on_empty_stack_fails() {
    let mut interpreter = Interpreter::new();
    let id = Node::Identifier { value: b"x".to_vec() };
    assert_eq!(interpreter.exec(&id), Err(AsaErrorKind::UndefinedVariable));
}

#[test]
fn redefinition_replaces_the_function() {
    let mut interpreter = Interpreter::new();
    let first = parse("fn f(){return 1;}");
    let second = parse("fn f(){return 2;}");
    let call = Node::FunctionCall { name: b"f".to_vec(), children: vec![] };
    assert_eq!(interpreter.exec(&first), Ok(Value::Bool(true)));
    assert_eq!(interpreter.exec(&call), Ok(Value::Number(1)));
    assert_eq!(interpreter.exec(&second), Ok(Value::Bool(true)));
    assert_eq!(interpreter.exec(&call), Ok(Value::Number(2)));
}

#[test]
fn top_level_variable_persists() {
    let mut interpreter = Interpreter::new();
    let tree = parse("let x = 5;");
    assert_eq!(interpreter.exec(&tree), Ok(Value::Number(5)));
    let id = Node::Identifier { value: b"x".to_vec() };
    assert_eq!(interpreter.exec(&id), Ok(Value::Number(5)));
    assert_eq!(interpreter.exec(&id), Ok(Value::Number(5)));
}

#[test]
fn called_function_does_not_see_caller_variables() {
    let mut interpreter = Interpreter::new();
    let tree = parse("let y = 1; fn g(){return y;}");
    assert_eq!(interpreter.exec(&tree), Ok(Value::Bool(true)));
    let call = Node::FunctionCall { name: b"g".to_vec(), children: vec![] };
    assert_eq!(interpreter.exec(&call), Err(AsaErrorKind::UndefinedVariable));
}

#[test]
fn frames_are_popped_after_a_failed_call() {
    let mut interpreter = Interpreter::new();
    let tree = parse("let x = 7; fn g(){return zz;}");
    assert_eq!(interpreter.exec(&tree), Ok(Value::Bool(true)));
    let call = Node::FunctionCall { name: b"g".to_vec(), children: vec![] };
    assert_eq!(interpreter.exec(&call), Err(AsaErrorKind::UndefinedVariable));
    let id = Node::Identifier { value: b"x".to_vec() };
    assert_eq!(interpreter.exec(&id), Ok(Value::Number(7)));
}

#[test]
fn frames_are_popped_after_a_call() {
    let mut interpreter = Interpreter::new();
    let tree = parse("let x = 7; fn g(){let x = 9; return x;}");
    assert_eq!(interpreter.exec(&tree), Ok(Value::Bool(true)));
    let call = Node::FunctionCall { name: b"g".to_vec(), children: vec![] };
    assert_eq!(interpreter.exec(&call), Ok(Value::Number(9)));
    let id = Node::Identifier { value: b"x".to_vec() };
    assert_eq!(interpreter.exec(&id), Ok(Value::Number(7)));
}

#[test]
fn arguments_bind_to_parameters() {
    let src = "fn add(a, b){return a+b;} fn main(){return add(1,2);}";
    assert_eq!(run_main(src), Ok(Value::Number(3)));
}

#[test]
fn extra_arguments_are_ignored() {
    let src = "fn one(a){return a;} fn main(){return one(4,5);}";
    assert_eq!(run_main(src), Ok(Value::Number(4)));
}

#[test]
fn result_is_the_last_statement() {
    let src = "fn main(){return 1; let z = 2; 3;}";
    assert_eq!(run_main(src), Ok(Value::Number(3)));
}

#[test]
fn strings_and_booleans_evaluate_to_themselves() {
    assert_eq!(run_main("fn main(){return \"ab1\";}"), Ok(Value::String("ab1".to_string())));
    assert_eq!(run_main("fn main(){return false;}"), Ok(Value::Bool(false)));
}

#[test]
fn endless_recursion_stops_with_stack_error() {
    assert_eq!(run_main("fn main(){return main();}"), Err(AsaErrorKind::StackError));
}

#[test]
fn empty_program_does_not_run() {
    let mut interpreter = Interpreter::new();
    let tree = Node::Program { children: vec![] };
    assert_eq!(interpreter.exec(&tree), Err(AsaErrorKind::NoRun));
}

#[test]
fn malformed_tree_is_reported() {
    let mut interpreter = Interpreter::new();
    assert_eq!(
        interpreter.exec(&Node::Null),
        Err(AsaErrorKind::Generic("malformed syntax tree".to_string()))
    );
}

#[test]
fn math_on_booleans_is_undefined() {
    let mut interpreter = Interpreter::new();
    let tokens = lex(b"true+1").unwrap();
    let (_, node) = math_expression(&tokens, 0).unwrap();
    assert_eq!(interpreter.exec(&node), Err(AsaErrorKind::UndefinedFunction));
}
