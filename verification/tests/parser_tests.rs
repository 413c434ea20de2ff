use monkey_core::ast::{Expression, Statement};
use monkey_core::lexer::Lexer;
use monkey_core::parser::Parser;

fn parse(input: &str) -> (monkey_core::ast::Program, Vec<String>) {
    let lexer = Lexer::new(String::from(input));
    let mut parser = Parser::new(lexer);
    let program = match parser.parse_program() {
        Some(program) => program,
        None => panic!("Could not parse program"),
    };
    (program, parser.errors)
}

fn assert_integer_literal(expression: &Expression, expected: i32) {
    let integer = match expression {
        Expression::IntegerLiteral(il) => il,
        _ => panic!("fail in assert_integer_literal"),
    };
    assert_eq!(integer.value, expected);
}

#[test]
fn test_let_statements() {
    let input = "
          let x = 5;
          let y = 10;
          let bebe = 101010;
        ";
    let (program, errors) = parse(input);

    if !errors.is_empty() {
        println!("Parser encountered {} errors", errors.len());
        for error in errors {
            println!("parser error: {}", error);
        }
        panic!("A few parsing error encountered, see them above.");
    }

    assert_eq!(program.statements.len(), 3);

    let expected = vec!["x".to_string(), "y".to_string(), "bebe".to_string()];

    program
        .statements
        .into_iter()
        .zip(expected.into_iter())
        .for_each(|(statement, expected_identifier)| {
            assert_eq!(statement.token_literal(), "let");

            let let_statement = match statement {
                Statement::Let(statement) => statement,
                _ => panic!("I didn't expected anything besides `let` statement"),
            };

            assert_eq!(let_statement.name.value, expected_identifier);

            assert_eq!(let_statement.name.token_literal(), expected_identifier);
        });
}

#[test]
fn test_broken_let_statements_and_check_if_errors_appear() {
    let input = "
          let x = 5;
          let y = 10;
          let bebe 101010;
        ";
    let (_program, errors) = parse(input);

    if !errors.is_empty() {
        for error in errors {
            assert_eq!(
                "parser error: expected next token to be =, got INT instead",
                format!("parser error: {}", error)
            );
        }
    }
}

#[test]
fn test_return_statement() {
    let input = "
          return 1;
          return 111;
        ";
    let (program, errors) = parse(input);

    if !errors.is_empty() {
        println!("Parser encountered {} errors", errors.len());
        for error in errors {
            println!("parser error: {}", error);
        }
        panic!("A few parsing error encountered, see them above.");
    }

    assert_eq!(program.statements.len(), 2);

    program.statements.into_iter().for_each(|statement| {
        assert_eq!(statement.token_literal(), "return");

        match statement {
            Statement::Return(_statement) => {},
            _ => panic!("I didn't expected anything besides `return` statement"),
        };
    });
}

#[test]
fn test_identifier_expression() {
    let input = "
          bebe;
        ";
    let (program, errors) = parse(input);

    if !errors.is_empty() {
        println!("Parser encountered {} errors", errors.len());
        for error in errors {
            println!("parser error: {}", error);
        }
        panic!("A few parsing error encountered, see them above.");
    }

    assert_eq!(program.statements.len(), 1);

    program.statements.into_iter().for_each(|statement| {
        let expression_statement = match statement {
            Statement::Expr(statement) => statement,
            _ => panic!("I didn't expect something besides expression statement"),
        };

        let identifier = match expression_statement.expression {
            Expression::Identifier(i) => i,
            _ => panic!("expected to find identifier, but found smth else"),
        };
        assert_eq!(identifier.value, "bebe");
        assert_eq!(identifier.token_literal(), "bebe");
    })
}

#[test]
fn test_int_literal_expression() {
    let input = "
          42;
        ";
    let (program, errors) = parse(input);

    if !errors.is_empty() {
        println!("Parser encountered {} errors", errors.len());
        for error in errors {
            println!("parser error: {}", error);
        }
        panic!("A few parsing error encountered, see them above.");
    }

    assert_eq!(program.statements.len(), 1);

    program.statements.into_iter().for_each(|statement| {
        let expression_statement = match statement {
            Statement::Expr(statement) => statement,
            _ => panic!("I didn't expect something besides expression statement"),
        };

        let integer_literal = match expression_statement.expression {
            Expression::IntegerLiteral(il) => il,
            _ => panic!("expected to find an integer_literal, but found smth else"),
        };
        assert_eq!(integer_literal.value, 42);
        assert_eq!(integer_literal.token_literal(), "42");
    })
}

#[test]
fn test_prefix_expressions() {
    let inputs = ["!10;".to_string(), "-101010;".to_string()];

    let expected = vec![("!".to_string(), 10), ("-".to_string(), 101010)];

    inputs
        .into_iter()
        .zip(expected.into_iter())
        .for_each(|(input, token_pair)| {
            let (program, errors) = parse(&input);

            if !errors.is_empty() {
                println!("Parser encountered {} errors", errors.len());
                for error in errors {
                    println!("parser error: {}", error);
                }
                panic!("A few parsing error encountered, see them above.");
            }

            assert_eq!(program.statements.len(), 1);

            let expression_statement = match &program.statements[0] {
                Statement::Expr(statement) => statement,
                _ => panic!("I didn't expected anything besides `expression` statement"),
            };

            let prefix_expression = match &expression_statement.expression {
                Expression::Prefix(pe) => pe,
                _ => panic!("I've expected prefix expression here - sorry"),
            };

            let operator = token_pair.0;
            let integer = token_pair.1;

            assert_eq!(prefix_expression.operator, operator);
            assert_integer_literal(&prefix_expression.right, integer);
        });
}

#[test]
fn test_infix_expressions() {
    let inputs = [
        "1 + 1;".to_string(),
        "1 - 1;".to_string(),
        "1 * 1;".to_string(),
        "1 / 1;".to_string(),
        "1 > 1;".to_string(),
        "1 < 1;".to_string(),
        "1 == 1;".to_string(),
        "1 != 1;".to_string(),
    ];

    let expected = vec![
        (1, "+".to_string(), 1),
        (1, "-".to_string(), 1),
        (1, "*".to_string(), 1),
        (1, "/".to_string(), 1),
        (1, ">".to_string(), 1),
        (1, "<".to_string(), 1),
        (1, "==".to_string(), 1),
        (1, "!=".to_string(), 1),
    ];

    inputs.into_iter().zip(expected.into_iter()).for_each(
        |(input, (left_integer, operator, right_integer))| {
            let (program, errors) = parse(&input);

            if !errors.is_empty() {
                println!("Parser encountered {} errors", errors.len());
                for error in errors {
                    println!("parser error: {}", error);
                }
                panic!("A few parsing error encountered, see them above.");
            }

            assert_eq!(program.statements.len(), 1);

            let expression_statement = match &program.statements[0] {
                Statement::Expr(statement) => statement,
                _ => panic!("I didn't expected anything besides `expression` statement"),
            };

            let infix_expression = match &expression_statement.expression {
                Expression::Infix(ie) => ie,
                _ => panic!("I've expected infix expression here - sorry"),
            };

            assert_integer_literal(&infix_expression.left, left_integer);
            assert_eq!(infix_expression.operator, operator);
            assert_integer_literal(&infix_expression.right, right_integer);
        },
    );
}

#[test]
fn test_boolean_expressions() {
    let inputs = ["true;".to_string(), "false;".to_string()];

    let expected = vec![true, false];

    inputs
        .into_iter()
        .zip(expected.into_iter())
        .for_each(|(input, boolean_value)| {
            let (program, errors) = parse(&input);

            if !errors.is_empty() {
                println!("Parser encountered {} errors", errors.len());
                for error in errors {
                    println!("parser error: {}", error);
                }
                panic!("A few parsing error encountered, see them above.");
            }

            assert_eq!(program.statements.len(), 1);

            let expression_statement = match &program.statements[0] {
                Statement::Expr(statement) => statement,
                _ => panic!("I didn't expected anything besides `expression` statement"),
            };

            let boolean_expression = match &expression_statement.expression {
                Expression::Boolean(b) => b,
                _ => panic!("I've expected boolean expression here - sorry"),
            };

            assert_eq!(boolean_expression.value, boolean_value);
        });
}

#[test]
fn test_operator_precedence() {
    let inputs = [
        "(1 + 2) * 3 + 4;".to_string(),
        "!true == false;".to_string(),
    ];

    let expected = [
        "(((1 + 2) * 3) + 4)\n".to_string(),
        "((!true) == false)\n".to_string(),
    ];

    inputs
        .into_iter()
        .zip(expected.into_iter())
        .for_each(|(input, expected)| {
            let (program, errors) = parse(&input);

            if !errors.is_empty() {
                println!("Parser encountered {} errors", errors.len());
                for error in errors {
                    println!("parser error: {}", error);
                }
                panic!("A few parsing error encountered, see them above.");
            }

            assert_eq!(program.to_string(), *expected);
        });
}
