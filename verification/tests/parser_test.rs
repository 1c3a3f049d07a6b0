use limoo::parser::parse;

fn check_parse(cases: &[(&str, &str)]) {
    for (input, expected) in cases {
        match parse(input) {
            Ok(node) => assert_eq!(*expected, node.display_string()),
            Err(errors) => {
                let messages: Vec<String> = errors.iter().map(|e| e.message()).collect();
                panic!("parsing {:?} failed: {:?}", input, messages);
            },
        }
    }
}

#[test]
fn parser_test_test_let_statements() {
    let tests = [
        ("let x = 5;", "let x = 5;"),
        ("let y = true;", "let y = true;"),
        ("let foobar = y;", "let foobar = y;"),
    ];
    check_parse(&tests);
}

#[test]
fn parser_test_test_return_statements() {
    let tests = [
        ("return 5;", "return 5;"),
        ("return true;", "return true;"),
        ("return foobar;", "return foobar;"),
    ];
    check_parse(&tests);
}

#[test]
fn test_identifier_expression() {
    let tests = [("foobar;", "foobar")];
    check_parse(&tests);
}

#[test]
fn test_integer_literal_expression() {
    let tests = [("5;", "5")];
    check_parse(&tests);
}

#[test]
fn test_parse_prefix_expression() {
    let tests = [
        ("!5;", "(!5)"),
        ("-15;", "(-15)"),
        ("!foobar;", "(!foobar)"),
        ("-foobar;", "(-foobar)"),
        ("!true;", "(!true)"),
        ("!false;", "(!false)"),
    ];
    check_parse(&tests);
}

#[test]
fn test_parse_infix_expression() {
    let tests = [
        ("5 + 5;", "(5 + 5)"),
        ("5 - 5;", "(5 - 5)"),
        ("5 * 5;", "(5 * 5)"),
        ("5 / 5;", "(5 / 5)"),
        ("5 > 5;", "(5 > 5)"),
        ("5 < 5;", "(5 < 5)"),
        ("5 == 5;", "(5 == 5)"),
        ("5 != 5;", "(5 != 5)"),
    ];
    check_parse(&tests);
}

#[test]
fn test_operator_precedence() {
    let tests = [
        ("-a * b", "((-a) * b)"),
        ("!-a", "(!(-a))"),
        ("a + b + c", "((a + b) + c)"),
        ("a + b - c", "((a + b) - c)"),
        ("a * b * c", "((a * b) * c)"),
        ("a * b / c", "((a * b) / c)"),
        ("a + b / c", "(a + (b / c))"),
        ("a + b * c + d / e - f", "(((a + (b * c)) + (d / e)) - f)"),
        ("3 + 4; -5 * 5", "(3 + 4)((-5) * 5)"),
        ("5 > 4 == 3 < 4", "((5 > 4) == (3 < 4))"),
        ("5 < 4 != 3 > 4", "((5 < 4) != (3 > 4))"),
        ("3 + 4 * 5 == 3 * 1 + 4 * 5", "((3 + (4 * 5)) == ((3 * 1) + (4 * 5)))"),
        ("true", "true"),
        ("false", "false"),
        ("3 > 5 == false", "((3 > 5) == false)"),
        ("3 < 5 == true", "((3 < 5) == true)"),
        ("1 + (2 + 3) + 4", "((1 + (2 + 3)) + 4)"),
        ("(5 + 5) * 2", "((5 + 5) * 2)"),
        ("2 / (5 + 5)", "(2 / (5 + 5))"),
        ("(5 + 5) * 2 * (5 + 5)", "(((5 + 5) * 2) * (5 + 5))"),
        ("-(5 + 5)", "(-(5 + 5))"),
        ("!(true == true)", "(!(true == true))"),
    ];
    check_parse(&tests);
}

#[test]
fn test_if_expression() {
    let tests = [("if (x < y) { x }", "if (x < y) { x }")];
    check_parse(&tests);
}

#[test]
fn test_if_else_expression() {
    let tests = [("if (x < y) { x } else { y }", "if (x < y) { x } else { y }")];
    check_parse(&tests);
}

#[test]
fn test_function_expression() {
    let tests = [
        ("fn() {};", "fn() {...}"),
        ("fn(x) {};", "fn(x) {...}"),
        ("fn(x, y, z) {};", "fn(x, y, z) {...}"),
    ];
    check_parse(&tests);
}

#[test]
fn test_fn_call_expression() {
    let tests = [("add(1, 2 * 3, 4 + 5);", "add(1, (2 * 3), (4 + 5))")];
    check_parse(&tests);
}

#[test]
fn test_logical_operator_precedence() {
    let tests = [
        ("a && b == c", "((a && b) == c)"),
        ("a || b && c", "((a || b) && c)"),
        ("1 + 2 && 3", "((1 + 2) && 3)"),
    ];
    check_parse(&tests);
}

#[test]
fn test_array_and_index_expressions() {
    let tests = [
        ("[]", "[]"),
        ("[1, 2 * 2, 3 + 3]", "[1, (2 * 2), (3 + 3)]"),
        ("myArray[1 + 1]", "(myArray[(1 + 1)])"),
        ("[1, 2, 3][0]", "([1, 2, 3][0])"),
    ];
    check_parse(&tests);
}

#[test]
fn test_while_expression() {
    let tests = [("while (x < 3) { x }", "while (x < 3) { x }")];
    check_parse(&tests);
}

#[test]
fn test_assignment_expression() {
    let tests = [
        ("a = 5", "a = 5"),
        ("a = a + 2", "a = (a + 2)"),
    ];
    check_parse(&tests);
}

#[test]
fn test_parser_error_messages() {
    match parse("let = 5;") {
        Ok(node) => panic!("expected an error, parsed {:?}", node.display_string()),
        Err(errors) => {
            assert_eq!(errors.len(), 2);
            assert_eq!(errors[0].message(), "Expected an identifier but got ASSIGN");
            assert_eq!(errors[1].message(), "no prefix parse function for ASSIGN");
        },
    }
    match parse("let x 5;") {
        Ok(node) => panic!("expected an error, parsed {:?}", node.display_string()),
        Err(errors) => {
            assert_eq!(errors[0].message(), "Expected ASSIGN, got INT(5)");
        },
    }
    match parse("@") {
        Ok(node) => panic!("expected an error, parsed {:?}", node.display_string()),
        Err(errors) => {
            assert_eq!(errors[0].message(), "no prefix parse function for ILLEGAL");
        },
    }
}
