use minilang::{eval, parser, scanner, Env, EvalError, Expected, FunctionTable, ParseError, ScanError, Token};

fn run(src: &str) -> Result<Env, EvalError> {
    let mut env = Env::new();
    let mut ft = FunctionTable::new();
    let program = parser(scanner(src).unwrap()).unwrap();
    eval(program, &mut env, &mut ft)?;
    Ok(env)
}

#[test]
fn test_assign() {
    let str = "x = 123";
    let env = run(str).unwrap();
    assert_eq!(env.get("x"), Some(&123));
}

#[test]
fn test_negative() {
    let str = "x = -1";
    let env = run(str).unwrap();
    assert_eq!(env.get("x"), Some(&-1));
}

#[test]
fn test_if() {
    let str = "if 0 { x = 2 } else { x = 3 }";
    let env = run(str).unwrap();
    assert_eq!(env.get("x"), Some(&3));
}

#[test]
fn test_addition() {
    let str = "x = 1 + 2 + 3";
    let env = run(str).unwrap();
    assert_eq!(env.get("x"), Some(&6));
}

#[test]
fn test_subtraction() {
    let str = "x = 1 - 2 - 3";
    let env = run(str).unwrap();
    assert_eq!(env.get("x"), Some(&-4));
}

#[test]
fn test_multiplication() {
    let str = "x = 1 * 2 * 3";
    let env = run(str).unwrap();
    assert_eq!(env.get("x"), Some(&6));
}

#[test]
fn test_division() {
    let str = "x = 4 / 2 / 2";
    let env = run(str).unwrap();
    assert_eq!(env.get("x"), Some(&1));
}

#[test]
fn test_parenthesis() {
    let str = "x = 2 * (3 + 4) ";
    let env = run(str).unwrap();
    assert_eq!(env.get("x"), Some(&14));
}

#[test]
fn test_compound_statement() {
    let str = "if 0 { x = 0 } else { x = 1 } ; if x { x = 3 } else { x = 4 }";
    let env = run(str).unwrap();
    assert_eq!(env.get("x"), Some(&3));
}

#[test]
fn brace_group_is_a_parenthesis() {
    let env = run("x = 2 * {3 + 4}").unwrap();
    assert_eq!(env.get("x"), Some(&14));
}

#[test]
fn precedence_without_parentheses() {
    let env = run("x = 2 + 3 * 4 - 10 / 5").unwrap();
    assert_eq!(env.get("x"), Some(&12));
}

#[test]
fn binary_operators_on_values() {
    assert_eq!(run("x = 17 + 5").unwrap().get("x"), Some(&22));
    assert_eq!(run("x = 17 - 5").unwrap().get("x"), Some(&12));
    assert_eq!(run("x = 17 * 5").unwrap().get("x"), Some(&85));
    assert_eq!(run("x = 17 / 5").unwrap().get("x"), Some(&3));
}

#[test]
fn division_truncates_toward_zero() {
    assert_eq!(run("x = -7 / 2").unwrap().get("x"), Some(&-3));
    assert_eq!(run("x = 7 / -2").unwrap().get("x"), Some(&-3));
    assert_eq!(run("x = -7 / -2").unwrap().get("x"), Some(&3));
}

#[test]
fn subtracting_a_negative_literal() {
    assert_eq!(run("x = 3 - -2").unwrap().get("x"), Some(&5));
}

#[test]
fn positive_condition_takes_then_branch() {
    let env = run("if 1 { x = 0 } else { x = 1 }; if x { y = 3 } else { y = 4 }").unwrap();
    assert_eq!(env.get("x"), Some(&0));
    assert_eq!(env.get("y"), Some(&4));
}

#[test]
fn negative_condition_is_false() {
    let env = run("if -5 { x = 1 } else { x = 2 }").unwrap();
    assert_eq!(env.get("x"), Some(&2));
}

#[test]
fn later_statement_sees_earlier_assignment() {
    let env = run("x = 1; x = x + 1; y = x * 10").unwrap();
    assert_eq!(env.get("x"), Some(&2));
    assert_eq!(env.get("y"), Some(&20));
}

#[test]
fn function_declaration_and_call() {
    let env = run("fn f(a) { return a + 1 }; y = f(4)").unwrap();
    assert_eq!(env.get("y"), Some(&5));
    assert_eq!(env.get("a"), None);
    assert_eq!(env.get("return"), None);
}

#[test]
fn callee_does_not_see_caller_variables() {
    let r = run("z = 7; fn g(a) { return z }; y = g(1)");
    assert_eq!(r.err(), Some(EvalError::UnboundVariable("z".to_string())));
}

#[test]
fn arguments_with_and_without_commas() {
    let env = run("fn add(a b) { return a - b }; x = add(9, 4); y = add(9 4)").unwrap();
    assert_eq!(env.get("x"), Some(&5));
    assert_eq!(env.get("y"), Some(&5));
}

#[test]
fn extra_parameters_stay_unbound() {
    let env = run("fn f(a b) { return a }; x = f(1)").unwrap();
    assert_eq!(env.get("x"), Some(&1));
}

#[test]
fn recursive_function() {
    let src = "fn fact(n) { if n { return n * fact(n - 1) } else { return 1 } }; x = fact(5)";
    assert_eq!(run(src).unwrap().get("x"), Some(&120));
}

#[test]
fn unbound_variable_is_an_error() {
    assert_eq!(run("x = y + 1").err(), Some(EvalError::UnboundVariable("y".to_string())));
}

#[test]
fn unbound_function_is_an_error() {
    assert_eq!(run("x = h(1)").err(), Some(EvalError::UnboundFunction("h".to_string())));
}

#[test]
fn division_by_zero_is_an_error() {
    assert_eq!(run("x = 1 / 0").err(), Some(EvalError::DivisionByZero));
}

#[test]
fn overflow_is_an_error() {
    assert_eq!(run("x = 2147483647 + 1").err(), Some(EvalError::Overflow));
    assert_eq!(run("x = -2147483647 - 2").err(), Some(EvalError::Overflow));
    assert_eq!(run("x = 65536 * 65536").err(), Some(EvalError::Overflow));
}

#[test]
fn body_without_return_is_an_error() {
    assert_eq!(run("fn f() { x = 1 }; y = f()").err(), Some(EvalError::MissingReturn("f".to_string())));
}

#[test]
fn unbounded_recursion_is_an_error() {
    assert_eq!(run("fn f(a) { return f(a) }; y = f(1)").err(), Some(EvalError::CallDepthExceeded));
}

#[test]
fn largest_literal() {
    assert_eq!(run("x = 2147483647").unwrap().get("x"), Some(&2147483647));
}

#[test]
fn scanner_tokens() {
    let toks = scanner("if else fn return iff x1 = (2,-3);{}*/").unwrap();
    assert_eq!(
        toks,
        vec![
            Token::IF,
            Token::ELSE,
            Token::FN,
            Token::RETURN,
            Token::IDENT("iff".to_string()),
            Token::IDENT("x".to_string()),
            Token::NUMBER(1),
            Token::EQ,
            Token::LPAR,
            Token::NUMBER(2),
            Token::COMMA,
            Token::MINUS,
            Token::NUMBER(3),
            Token::RPAR,
            Token::SEMICOLON,
            Token::LBRACE,
            Token::RBRACE,
            Token::STAR,
            Token::SLASH,
        ]
    );
}

#[test]
fn scanner_empty_and_spaces() {
    assert_eq!(scanner("").unwrap(), vec![]);
    assert_eq!(scanner("   ").unwrap(), vec![]);
}

#[test]
fn scanner_rejects_unknown_character() {
    assert_eq!(scanner("x = 1 $"), Err(ScanError::UnexpectedChar { ch: '$', pos: 6 }));
    assert_eq!(scanner("X"), Err(ScanError::UnexpectedChar { ch: 'X', pos: 0 }));
}

#[test]
fn scanner_rejects_too_large_number() {
    assert_eq!(scanner("x = 2147483648"), Err(ScanError::NumberTooLarge { pos: 4 }));
}

#[test]
fn parser_reports_missing_close() {
    let toks = scanner("x = (1 + 2").unwrap();
    assert_eq!(
        parser(toks).err(),
        Some(ParseError::Unexpected { expected: Expected::Token(Token::RPAR), pos: 6 })
    );
}

#[test]
fn parser_rejects_trailing_tokens() {
    let toks = scanner("x = 1 )").unwrap();
    assert_eq!(parser(toks).err(), Some(ParseError::Unexpected { expected: Expected::End, pos: 3 }));
}

#[test]
fn parser_rejects_missing_operand() {
    let toks = scanner("x = ").unwrap();
    assert_eq!(parser(toks).err(), Some(ParseError::Unexpected { expected: Expected::Operand, pos: 2 }));
}

#[test]
fn parser_requires_else() {
    let toks = scanner("if 1 { x = 1 }").unwrap();
    assert_eq!(
        parser(toks).err(),
        Some(ParseError::Unexpected { expected: Expected::Token(Token::ELSE), pos: 7 })
    );
}

#[test]
fn parser_rejects_negated_minimum() {
    let toks = vec![Token::MINUS, Token::NUMBER(i32::MIN)];
    assert_eq!(parser(toks).err(), Some(ParseError::NegationOverflow { pos: 1 }));
}

#[test]
fn parser_requires_function_name() {
    let toks = scanner("fn (a) { return a }").unwrap();
    assert_eq!(parser(toks).err(), Some(ParseError::Unexpected { expected: Expected::Name, pos: 1 }));
}

fn run_in(src: &str, env: &mut Env, ft: &mut FunctionTable) -> Result<(), EvalError> {
    eval(parser(scanner(src).unwrap()).unwrap(), env, ft)
}

#[test]
fn failed_run_leaves_state_unchanged() {
    let mut env = Env::new();
    let mut ft = FunctionTable::new();
    run_in("x = 1", &mut env, &mut ft).unwrap();
    let r = run_in("x = 2; fn f(a) { return a }; y = z", &mut env, &mut ft);
    assert_eq!(r, Err(EvalError::UnboundVariable("z".to_string())));
    assert_eq!(env.get("x"), Some(&1));
    assert_eq!(env.get("y"), None);
    assert!(ft.get("f").is_none());
    let r = run_in("y = f(1)", &mut env, &mut ft);
    assert_eq!(r, Err(EvalError::UnboundFunction("f".to_string())));
}

#[test]
fn declarations_persist_across_runs() {
    let mut env = Env::new();
    let mut ft = FunctionTable::new();
    run_in("fn twice(a) { return a * 2 }", &mut env, &mut ft).unwrap();
    run_in("y = twice(21)", &mut env, &mut ft).unwrap();
    assert_eq!(env.get("y"), Some(&42));
}

#[test]
fn negative_operands() {
    assert_eq!(run("x = -6 * -7").unwrap().get("x"), Some(&42));
    assert_eq!(run("x = -7 - -2").unwrap().get("x"), Some(&-5));
    assert_eq!(run("x = -9 / 2").unwrap().get("x"), Some(&-4));
}

#[test]
fn arguments_are_evaluated_in_the_caller() {
    let env = run("z = 3; fn g(a) { return a * 2 }; y = g(z + 1)").unwrap();
    assert_eq!(env.get("y"), Some(&8));
}

#[test]
fn computed_condition() {
    let env = run("x = 2; if x - 2 { y = 1 } else { y = 2 }; if x * 3 { w = 5 } else { w = 6 }").unwrap();
    assert_eq!(env.get("y"), Some(&2));
    assert_eq!(env.get("w"), Some(&5));
}

#[test]
fn scanner_token_boundaries() {
    assert_eq!(scanner("+ -").unwrap(), vec![Token::PLUS, Token::MINUS]);
    assert_eq!(scanner("12X"), Err(ScanError::UnexpectedChar { ch: 'X', pos: 2 }));
    assert_eq!(scanner("ab12 "), Ok(vec![Token::IDENT("ab".to_string()), Token::NUMBER(12)]));
}
