use monkey_core::builtins;
use monkey_core::env::EnvArena;
use monkey_core::evaluator::{eval, WrappedNode};
use monkey_core::lexer::Lexer;
use monkey_core::object::{CoreFunc, Object, ObjectT};
use monkey_core::parser::Parser;

fn run_eval(source_code: String) -> Object {
    let lexer = Lexer::new(source_code);
    let mut parser = Parser::new(lexer);

    let program = match parser.parse_program() {
        Some(program) => program,
        None => panic!("Could not parse program"),
    };
    assert!(parser.errors.is_empty(), "parser errors: {:?}", parser.errors);

    let mut arena = EnvArena::new();
    let env = arena.new_environment();
    eval(WrappedNode::P(program), &mut arena, env)
}

fn assert_integer_object(object: Object, expected: i32) {
    let integer = match object {
        Object::Integer(int) => int,
        otherwise => panic!("expected integer, got {}", otherwise.inspect()),
    };
    assert_eq!(integer.value, expected)
}

fn assert_boolean_object(object: Object, expected: bool) {
    let boolean = match object {
        Object::Boolean(b) => b,
        otherwise => panic!("expected boolean, got {}", otherwise.inspect()),
    };
    assert_eq!(boolean.value, expected)
}

fn assert_error_object(object: Object, expected: &str) {
    let error = match object {
        Object::Error(e) => e,
        otherwise => panic!("expected error, got {}", otherwise.inspect()),
    };
    assert_eq!(error.message, expected)
}

#[test]
fn test_eval_integer_expression() {
    let pairs = vec![("1".to_string(), 1), ("2".to_string(), 2)];

    pairs.into_iter().for_each(|(value, expected)| {
        let evaluated = run_eval(value);
        assert_integer_object(evaluated, expected);
    })
}

#[test]
fn test_arithmetic_scenarios() {
    assert_integer_object(run_eval("5 + 5 * 2".to_string()), 15);
    assert_integer_object(run_eval("(1 + 2) * 3 + 4;".to_string()), 13);
    assert_integer_object(run_eval("10 - 2 - 3".to_string()), 5);
    assert_integer_object(run_eval("7 / 2".to_string()), 3);
    assert_integer_object(run_eval("-7 / 2".to_string()), -3);
    assert_integer_object(run_eval("-5 + 5".to_string()), 0);
}

#[test]
fn test_boolean_scenarios() {
    assert_boolean_object(run_eval("!true == false".to_string()), true);
    assert_boolean_object(run_eval("1 < 2".to_string()), true);
    assert_boolean_object(run_eval("1 > 2".to_string()), false);
    assert_boolean_object(run_eval("1 == 1".to_string()), true);
    assert_boolean_object(run_eval("1 != 1".to_string()), false);
    assert_boolean_object(run_eval("!5".to_string()), false);
    assert_boolean_object(run_eval("!!5".to_string()), true);
    assert_boolean_object(run_eval("true != false".to_string()), true);
    assert_boolean_object(run_eval("5 == true".to_string()), false);
}

#[test]
fn test_pretty_print_scenarios() {
    let lexer = Lexer::new("(1 + 2) * 3 + 4;".to_string());
    let mut parser = Parser::new(lexer);
    let program = parser.parse_program().unwrap();
    assert_eq!(program.to_string(), "(((1 + 2) * 3) + 4)\n");

    let lexer = Lexer::new("!true == false".to_string());
    let mut parser = Parser::new(lexer);
    let program = parser.parse_program().unwrap();
    assert_eq!(program.to_string(), "((!true) == false)\n");
}

#[test]
fn test_round_trip_precedence() {
    // Printing a parse and parsing it again reaches a fixed point for a
    // closed suite of expressions.
    let suite = vec![
        "5 + 5 * 2",
        "(1 + 2) * 3 + 4;",
        "!true == false",
        "a + b * c - d / e",
        "-x * y",
        "fn(a, b) { a + b }(1, 2)",
        "if (x < y) { x } else { y }",
        "[1, 2 * 2, 3][1 + 1]",
        "length(\"hello\") + 1",
        "let q = 3 * -2;",
        "return 1 + 2;",
    ];
    for input in suite {
        let lexer = Lexer::new(input.to_string());
        let mut parser = Parser::new(lexer);
        let program = parser.parse_program().unwrap();
        assert!(parser.errors.is_empty());
        let once = program.to_string();

        let lexer = Lexer::new(once.clone());
        let mut parser = Parser::new(lexer);
        let reparsed = parser.parse_program().unwrap();
        assert!(parser.errors.is_empty());
        let twice = reparsed.to_string();

        // parse(print(parse(e))) == parse(e), and printing is a fixed point.
        assert!(program.same_ast(&reparsed), "round trip diverged for {}", input);
        assert_eq!(once, twice, "printing diverged for {}", input);
    }
}

#[test]
fn test_same_ast_distinguishes() {
    let parse_one = |src: &str| {
        let lexer = Lexer::new(src.to_string());
        let mut parser = Parser::new(lexer);
        parser.parse_program().unwrap()
    };
    let a = parse_one("1 + 2;");
    let b = parse_one("1 + 2;");
    let c = parse_one("1 + 3;");
    assert!(a.same_ast(&b));
    assert!(!a.same_ast(&c));
}

#[test]
fn test_error_accumulation_continues() {
    let lexer = Lexer::new("let x 5; 7;".to_string());
    let mut parser = Parser::new(lexer);
    let program = parser.parse_program().unwrap();
    assert!(parser
        .errors
        .iter()
        .any(|e| e == "expected next token to be =, got INT instead"));
    // Parsing went on past the malformed statement.
    assert_eq!(program.statements.len(), 2);
}

#[test]
fn test_closure_capture() {
    let input = "let makeAdder = fn(x) { fn(y) { x + y } }; \
                 let addTwo = makeAdder(2); addTwo(3)";
    assert_integer_object(run_eval(input.to_string()), 5);
}

#[test]
fn test_recursion_factorial() {
    let input = "let fact = fn(n) { if (n < 2) { 1 } else { n * fact(n - 1) } }; fact(5)";
    assert_integer_object(run_eval(input.to_string()), 120);
}

#[test]
fn test_error_short_circuit_scenario() {
    assert_error_object(
        run_eval("(5 + true) + 1".to_string()),
        "type mismatch: INTEGER + BOOLEAN",
    );
    assert_error_object(
        run_eval("foobar + 1".to_string()),
        "identifier not found: foobar",
    );
}

#[test]
fn test_type_mismatch() {
    assert_error_object(
        run_eval("5 + true".to_string()),
        "type mismatch: INTEGER + BOOLEAN",
    );
    assert_error_object(
        run_eval("true + false".to_string()),
        "unknown operator: BOOLEAN + BOOLEAN",
    );
    assert_error_object(run_eval("-true".to_string()), "unknown operator: -BOOLEAN");
    assert_error_object(
        run_eval("\"a\" == \"a\"".to_string()),
        "unknown operator: STRING == STRING",
    );
}

#[test]
fn test_division_edge_cases() {
    assert_error_object(run_eval("5 / 0".to_string()), "division by zero");
    assert_error_object(
        run_eval("2147483647 + 1".to_string()),
        "integer overflow",
    );
}

#[test]
fn test_builtin_arity() {
    assert_error_object(
        run_eval("length()".to_string()),
        "wrong number of arguments: got=0, expected=1",
    );
    assert_error_object(
        run_eval("length(1,2)".to_string()),
        "wrong number of arguments: got=2, expected=1",
    );
}

#[test]
fn test_push_immutability() {
    let input = "let a = [1]; let b = push(a, 2); length(a)";
    assert_integer_object(run_eval(input.to_string()), 1);
    let input = "let a = [1]; let b = push(a, 2); length(b)";
    assert_integer_object(run_eval(input.to_string()), 2);
}

#[test]
fn test_string_builtins() {
    assert_integer_object(run_eval("length(\"hello\")".to_string()), 5);
    let joined = run_eval("\"foo\" + \"bar\"".to_string());
    match joined {
        Object::Stringl(s) => assert_eq!(s.value, "foobar"),
        other => panic!("expected string, got {}", other.inspect()),
    }
}

#[test]
fn test_array_builtins() {
    assert_integer_object(run_eval("first([7, 8])".to_string()), 7);
    assert_integer_object(run_eval("last([7, 8])".to_string()), 8);
    assert_integer_object(run_eval("length(rest([7, 8, 9]))".to_string()), 2);
    assert_integer_object(run_eval("[1, 2 * 2, 3 + 3][1]".to_string()), 4);
    match run_eval("first([])".to_string()) {
        Object::Nil(_) => {},
        other => panic!("expected nil, got {}", other.inspect()),
    }
    match run_eval("[1, 2][5]".to_string()) {
        Object::Nil(_) => {},
        other => panic!("expected nil, got {}", other.inspect()),
    }
    assert_error_object(
        run_eval("first(1)".to_string()),
        "argument to `first` must be array, got INTEGER",
    );
    assert_error_object(
        run_eval("last(1)".to_string()),
        "argument to `last` must be array, got INTEGER",
    );
    assert_error_object(
        run_eval("rest(1)".to_string()),
        "argument to `rest` must be array, got INTEGER",
    );
    assert_error_object(
        run_eval("push(1, 2)".to_string()),
        "argument to `push` must be array, got INTEGER",
    );
    assert_error_object(
        run_eval("length(true)".to_string()),
        "argument to `length` not supported, got BOOLEAN",
    );
}

#[test]
fn test_call_and_index_errors() {
    assert_error_object(run_eval("5(1)".to_string()), "not a function: INTEGER");
    assert_error_object(
        run_eval("5[0]".to_string()),
        "index operator not supported: INTEGER",
    );
    assert_error_object(
        run_eval("let f = fn(a, b) { a }; f(1)".to_string()),
        "wrong number of arguments: got=1, expected=2",
    );
}

#[test]
fn test_return_semantics() {
    assert_integer_object(run_eval("9; return 2 * 5; 9;".to_string()), 10);
    let input = "let f = fn() { if (true) { return 1; }; return 2; }; f()";
    assert_integer_object(run_eval(input.to_string()), 1);
}

#[test]
fn test_if_semantics() {
    assert_integer_object(run_eval("if (1 < 2) { 10 } else { 20 }".to_string()), 10);
    assert_integer_object(run_eval("if (1 > 2) { 10 } else { 20 }".to_string()), 20);
    match run_eval("if (false) { 10 }".to_string()) {
        Object::Nil(_) => {},
        other => panic!("expected nil, got {}", other.inspect()),
    }
}

#[test]
fn test_let_shadowing_and_env() {
    assert_integer_object(run_eval("let a = 5; let b = a; b".to_string()), 5);
    assert_integer_object(run_eval("let a = 5; let a = 6; a".to_string()), 6);
}

#[test]
fn test_inspect_and_type_names() {
    let v = run_eval("[1, 2 + 3]".to_string());
    assert_eq!(v.inspect(), "[1, 5]");
    assert_eq!(v.object_type(), "ARRAY");
    let v = run_eval("-42".to_string());
    assert_eq!(v.inspect(), "-42");
    assert_eq!(v.object_type(), "INTEGER");
    let v = run_eval("if (false) { 1 }".to_string());
    assert_eq!(v.inspect(), "null");
    assert_eq!(v.object_type(), "NULL");
}

#[test]
fn test_same_tag() {
    let a = run_eval("1".to_string());
    let b = run_eval("2".to_string());
    let t = run_eval("true".to_string());
    assert!(a.same_tag(&b));
    assert!(!a.same_tag(&t));
    let f = run_eval("fn(x) { x }".to_string());
    let g = run_eval("fn(y) { y }".to_string());
    assert!(f.same_tag(&g));
    let c = run_eval("length".to_string());
    let d = run_eval("push".to_string());
    // Built-in function objects never share a tag, not even together.
    assert!(!c.same_tag(&d));
}

#[test]
fn test_core_func_registry() {
    match CoreFunc::try_new("length".to_string()) {
        Some(Object::CoreFunc(c)) => {
            assert_eq!(c.function_name, "length");
            assert_eq!(c.arity, 1);
            let out = c.call(vec![Object::Stringl(monkey_core::object::Stringl {
                value: "abc".to_string(),
            })]);
            assert_integer_object(out, 3);
        },
        _ => panic!("length should resolve as a built-in"),
    }
    assert!(CoreFunc::try_new("missing".to_string()).is_none());
}

#[test]
fn test_builtins_direct() {
    let arr = Object::Array(monkey_core::object::Array {
        elements: vec![
            Object::Integer(monkey_core::object::Integer { value: 4 }),
            Object::Integer(monkey_core::object::Integer { value: 5 }),
        ],
    });
    assert_integer_object(builtins::length_(arr), 2);
    let out = builtins::call(
        "push".to_string(),
        vec![
            Object::Array(monkey_core::object::Array { elements: vec![] }),
            Object::Integer(monkey_core::object::Integer { value: 9 }),
        ],
    );
    match out {
        Object::Array(a) => {
            assert_eq!(a.elements.len(), 1);
            assert_integer_object(builtins::first_(Object::Array(a)), 9);
        },
        other => panic!("expected array, got {}", other.inspect()),
    }
}

#[test]
fn test_integer_literal_bounds() {
    assert_integer_object(run_eval("2147483647".to_string()), 2147483647);
    let lexer = Lexer::new("2147483648".to_string());
    let mut parser = Parser::new(lexer);
    let _ = parser.parse_program().unwrap();
    assert!(parser
        .errors
        .iter()
        .any(|e| e == "could not parse 2147483648 as integer"));
}
