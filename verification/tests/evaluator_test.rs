use limoo::ast::Expression;
use limoo::ast::Literal;
use limoo::ast::Node;
use limoo::ast::Statement;
use limoo::environment::Environment;
use limoo::evaluator::eval;
use limoo::parser::parse;

const FUEL: u64 = 1_000_000;

fn run(cases: &[(&str, &str)]) {
    let mut env = Environment::new();
    let mut out: Vec<String> = Vec::new();
    for (input, expected) in cases {
        match parse(input) {
            Ok(node) => match eval(&node, &mut env, &mut out, 0, FUEL) {
                Ok(value) => assert_eq!(*expected, value.display_string(), "input: {:?}", input),
                Err(err) => assert_eq!(*expected, err.message(), "input: {:?}", input),
            },
            Err(errors) => {
                let messages: Vec<String> = errors.iter().map(|e| e.message()).collect();
                panic!("parsing {:?} failed: {:?}", input, messages);
            },
        }
    }
}

#[test]
fn test_integer_expression() {
    let tests = [
        ("5", "5"),
        ("10", "10"),
        ("-5", "-5"),
        ("-10", "-10"),
        ("5 + 5 + 5 + 5 - 10", "10"),
        ("2 * 2 * 2 * 2 * 2", "32"),
        ("-50 + 100 + -50", "0"),
        ("5 * 2 + 10", "20"),
        ("5 + 2 * 10", "25"),
        ("20 + 2 * -10", "0"),
        ("50 / 2 * 2 + 10", "60"),
        ("2 * (5 + 10)", "30"),
        ("3 * 3 * 3 + 10", "37"),
        ("3 * (3 * 3) + 10", "37"),
        ("(5 + 10 * 2 + 15 / 3) * 2 + -10", "50"),
    ];
    run(&tests);
}

#[test]
fn test_boolean_expression() {
    let tests = [
        ("true", "true"),
        ("false", "false"),
        ("1 < 2", "true"),
        ("1 > 2", "false"),
        ("1 < 1", "false"),
        ("1 > 1", "false"),
        ("1 == 1", "true"),
        ("1 != 1", "false"),
        ("1 == 2", "false"),
        ("1 != 2", "true"),
        ("true == true", "true"),
        ("false == false", "true"),
        ("true == false", "false"),
        ("true != false", "true"),
        ("false != true", "true"),
        ("(1 < 2) == true", "true"),
        ("(1 < 2) == false", "false"),
        ("(1 > 2) == true", "false"),
        ("(1 > 2) == false", "true"),
    ];
    run(&tests);
}

#[test]
fn test_bang_operator() {
    let tests = [
        ("!true", "false"),
        ("!false", "true"),
        ("!5", "false"),
        ("!!true", "true"),
        ("!!5", "true"),
    ];
    run(&tests);
}

#[test]
fn test_if_else_expressions() {
    let tests = [
        ("if (true) { 10 }", "10"),
        ("if (false) { 10 }", "null"),
        ("if (1) { 10 }", "10"),
        ("if (1 < 2) { 10 }", "10"),
        ("if (1 > 2) { 10 }", "null"),
        ("if (1 > 2) { 10 } else { 20 }", "20"),
        ("if (1 < 2) { 10 } else { 20 }", "10"),
    ];
    run(&tests);
}

#[test]
fn evaluator_test_test_return_statements() {
    let tests = [
        ("return 10;", "10"),
        ("return 10; 9;", "10"),
        ("return 2 * 5; 9;", "10"),
        ("9; return 2 * 5; 9;", "10"),
        ("if (10 > 1) { return 10; }", "10"),
        (
            "if (10 > 1) { \
              if (10 > 1) { \
               return 10; \
              } \
              return 1; \
            }",
            "10",
        ),
    ];
    run(&tests);
}

#[test]
fn evaluator_test_test_let_statements() {
    let tests = [
        ("let a = 5; a;", "5"),
        ("let a = 5 * 5; a;", "25"),
        ("let a = 5; let b = a; b;", "5"),
        ("let a = 5; let b = a; let c = a + b + 5; c;", "15"),
    ];
    run(&tests);
}

#[test]
fn test_function_object() {
    let tests = [("fn(x) { x + 2; };", "fn(x) {...}")];
    run(&tests);
}

#[test]
fn test_function_application() {
    let tests = [
        ("let identity = fn(x) { x; }; identity(5);", "5"),
        ("let identity = fn(x) { return x; }; identity(5);", "5"),
        ("let double = fn(x) { x * 2; }; double(5);", "10"),
        ("let add = fn(x, y) { x + y; }; add(5, 5);", "10"),
        ("let add = fn(x, y) { x + y; }; add(5 + 5, add(5, 5));", "20"),
        ("fn(x) { x; }(5)", "5"),
    ];
    run(&tests);
}

#[test]
fn test_closure() {
    let tests = [(
        "let newAdder = fn(x) { \
         fn(y) { x + y }; \
         }; \
         let addTwo = newAdder(2); \
         addTwo(2);",
        "4",
    )];
    run(&tests);
}

#[test]
fn test_string_expression() {
    let tests = [(r#""Hello there!""#, "Hello there!")];
    run(&tests);
}

#[test]
fn test_string_concatenation() {
    let tests = [(r#""Hello" + " " + "there!""#, "Hello there!")];
    run(&tests);
}

#[test]
fn test_logical_operators_evaluate_both_sides() {
    let tests = [
        ("true && true", "true"),
        ("true && false", "false"),
        ("false || true", "true"),
        ("false || false", "false"),
        ("1 && 0", "false"),
        ("\"\" || \"x\"", "true"),
        // The right operand's assignment runs although the left operand
        // already decides the result.
        ("let a = 0; false && (a = 1); a;", "1"),
        ("let b = 0; true || (b = 2); b;", "2"),
    ];
    run(&tests);
}

#[test]
fn test_while_loops() {
    let tests = [
        ("let i = 0; while (i < 5) { i = i + 1; }; i;", "5"),
        ("while (false) { 1 }", "null"),
        ("let sum = 0; let i = 1; while (i < 4) { sum = sum + i; i = i + 1; }; sum;", "6"),
    ];
    run(&tests);
}

#[test]
fn test_early_return_through_nested_control_flow() {
    let tests = [
        ("let f = fn() { while (true) { if (true) { return 7; } } }; f();", "7"),
        ("while (true) { if (1 < 2) { return 3; } } 9;", "3"),
    ];
    run(&tests);
}

#[test]
fn test_builtin_len() {
    let tests = [
        (r#"len("")"#, "0"),
        (r#"len("four")"#, "4"),
        (r#"len("hello world")"#, "11"),
        ("len([1, 2, 3])", "3"),
        ("len([])", "0"),
    ];
    run(&tests);
}

#[test]
fn test_builtin_errors() {
    let tests = [
        ("len(1)", "Argument to `len` not supported, got 1"),
        (r#"len("one", "two")"#, "Invalid number of arguments: expected=1, got=2"),
        ("push(1, 1)", "Argument to `push` not supported, got 1"),
        ("push([1])", "Invalid number of arguments: expected=2, got=1"),
    ];
    run(&tests);
}

#[test]
fn test_array_literals_and_push() {
    let tests = [
        ("[1, 2 * 2, 3 + 3]", "[1, 4, 6]"),
        ("push([], 1)", "[1]"),
        // The source array binding is left untouched by push.
        ("let a = []; let b = push(a, 1); a;", "[]"),
        ("b;", "[1]"),
        ("let c = push(b, 2); c;", "[1, 2]"),
        ("b;", "[1]"),
    ];
    run(&tests);
}

#[test]
fn test_lenient_indexing() {
    let tests = [
        ("[1, 2, 3][0]", "1"),
        ("[1, 2, 3][1]", "2"),
        ("[1, 2, 3][2]", "3"),
        ("[1, 2, 3][3]", "null"),
        ("[1, 2, 3][-1]", "null"),
        ("let myArray = [1, 2, 3]; myArray[2];", "3"),
    ];
    run(&tests);
}

#[test]
fn test_assignment_and_declaration() {
    let tests = [
        ("let a = 5; a = a + 2; a;", "7"),
        // Reassignment inside a function writes to the outer binding the
        // closure captured.
        (
            "let counter = 0; \
             let bump = fn() { counter = counter + 1; counter; }; \
             bump(); bump(); counter;",
            "2",
        ),
        // A let inside a function shadows instead of assigning.
        ("let x = 1; let shadow = fn() { let x = 9; x; }; shadow(); x;", "1"),
    ];
    run(&tests);
}

#[test]
fn test_evaluation_errors() {
    let tests = [
        ("foobar", "Identifier not found: foobar"),
        ("5 + true", "Mismatch type: 5 + true"),
        ("5 + true; 5;", "Mismatch type: 5 + true"),
        ("true + false", "Unknown operator: true + false"),
        (r#""a" - "b""#, "Unknown operator: a - b"),
        ("-true", "Unknown operator: -true"),
        ("5(3)", "Not a function: 5"),
        ("fn(x) { x; }(1, 2)", "Expected 1 arguments but got 2"),
        ("5 / 0", "Division by zero"),
        ("5[0]", "Index operator not supported: 5"),
        ("[1, 2][true]", "Index operator not supported: true"),
    ];
    run(&tests);
}

#[test]
fn test_print_collects_output() {
    let mut env = Environment::new();
    let mut out: Vec<String> = Vec::new();
    let node = parse("print(1, \"two\", [3]); 4;").expect("parse");
    let value = eval(&node, &mut env, &mut out, 0, FUEL).expect("eval");
    assert_eq!(value.display_string(), "4");
    assert_eq!(out, vec!["1".to_string(), "two".to_string(), "[3]".to_string()]);
}

#[test]
fn test_print_inside_function() {
    let mut env = Environment::new();
    let mut out: Vec<String> = Vec::new();
    let node = parse("let f = fn(x) { print(x); x * 2; }; f(21);").expect("parse");
    let value = eval(&node, &mut env, &mut out, 0, FUEL).expect("eval");
    assert_eq!(value.display_string(), "42");
    assert_eq!(out, vec!["21".to_string()]);
}

#[test]
fn test_builtin_display() {
    let tests = [
        ("len", "Builtin Function: len"),
        ("print", "Builtin Function: print"),
        ("push", "Builtin Function: push"),
    ];
    run(&tests);
}

#[test]
fn test_let_shadows_builtin() {
    let tests = [
        ("let len = 5; len;", "5"),
        ("len(1)", "Not a function: 5"),
    ];
    run(&tests);
}

#[test]
fn test_eval_single_nodes() {
    let mut env = Environment::new();
    let mut out: Vec<String> = Vec::new();
    let expr = Node::Expr(Expression::Lit(Literal::Integer(5)));
    let value = eval(&expr, &mut env, &mut out, 0, FUEL).expect("eval");
    assert_eq!(value.display_string(), "5");
    let stmt = Node::Stmt(Statement::Let(
        "x".to_string(),
        Expression::Lit(Literal::Boolean(true)),
    ));
    let value = eval(&stmt, &mut env, &mut out, 0, FUEL).expect("eval");
    assert_eq!(value.display_string(), "true");
    let read_back = Node::Expr(Expression::Ident("x".to_string()));
    let value = eval(&read_back, &mut env, &mut out, 0, FUEL).expect("eval");
    assert_eq!(value.display_string(), "true");
}

#[test]
fn test_wrapping_arithmetic() {
    let tests = [
        ("2147483647 + 1", "-2147483648"),
        ("0 - 2147483647 - 2", "2147483647"),
    ];
    run(&tests);
}
