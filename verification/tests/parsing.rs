use c4_interpreter::ast::{Expr, Stmt};
use c4_interpreter::error::{Error, ErrorKind};
use c4_interpreter::lexer::{Lexer, Token};
use c4_interpreter::parser::{Cursor, Parser};
use c4_interpreter::vm::Vm;

fn parse_all(code: &str) -> Result<Vec<Stmt>, Error> {
    let mut vm = Vm::new();
    let mut parser = Parser::new(Lexer::new(code), &mut vm)?;
    parser.parse()
}

fn shape(code: &str) -> String {
    let stmts = parse_all(code).expect("parses");
    format!("{:?}", stmts)
}

fn expr_shape(code: &str) -> String {
    let mut cursor = Cursor::new(Lexer::new(code)).expect("lexes");
    let e: Expr = cursor.parse_expression(u64::MAX).expect("parses");
    assert!(cursor.at(&Token::Eof));
    format!("{:?}", e)
}

fn parse_error(code: &str) -> ErrorKind {
    match parse_all(code) {
        Ok(stmts) => panic!("parsed to {:?}", stmts),
        Err(e) => e.kind,
    }
}

#[test]
fn multiplication_binds_tighter_than_addition() {
    assert_eq!(
        expr_shape("2 + 3 * 4"),
        "BinaryOp { op: Add, left: Number(2), right: BinaryOp { op: Mul, left: Number(3), right: Number(4) } }"
    );
}

#[test]
fn parentheses_group() {
    assert_eq!(
        expr_shape("(2 + 3) * 4"),
        "BinaryOp { op: Mul, left: BinaryOp { op: Add, left: Number(2), right: Number(3) }, right: Number(4) }"
    );
}

#[test]
fn binary_operators_associate_to_the_left() {
    assert_eq!(
        expr_shape("10 - 4 - 3"),
        "BinaryOp { op: Sub, left: BinaryOp { op: Sub, left: Number(10), right: Number(4) }, right: Number(3) }"
    );
    assert_eq!(
        expr_shape("8 / 4 % 3"),
        "BinaryOp { op: Mod, left: BinaryOp { op: Div, left: Number(8), right: Number(4) }, right: Number(3) }"
    );
}

#[test]
fn levels_of_precedence_from_loosest_to_tightest() {
    assert_eq!(
        expr_shape("1 || 2 && 3 | 4 ^ 5 & 6 == 7 << 8 + 9 * 10"),
        "BinaryOp { op: Or, left: Number(1), right: \
         BinaryOp { op: And, left: Number(2), right: \
         BinaryOp { op: BitOr, left: Number(3), right: \
         BinaryOp { op: BitXor, left: Number(4), right: \
         BinaryOp { op: BitAnd, left: Number(5), right: \
         BinaryOp { op: Equal, left: Number(6), right: \
         BinaryOp { op: Shl, left: Number(7), right: \
         BinaryOp { op: Add, left: Number(8), right: \
         BinaryOp { op: Mul, left: Number(9), right: Number(10) } } } } } } } } }"
    );
}

#[test]
fn shift_binds_tighter_than_comparison_on_both_sides() {
    assert_eq!(
        expr_shape("1 << 2 < 3 << 4"),
        "BinaryOp { op: LessThan, left: BinaryOp { op: Shl, left: Number(1), right: Number(2) }, \
         right: BinaryOp { op: Shl, left: Number(3), right: Number(4) } }"
    );
}

#[test]
fn comparisons_share_a_level() {
    assert_eq!(
        expr_shape("1 < 2 == 3 >= 4"),
        "BinaryOp { op: GreaterEqual, left: BinaryOp { op: Equal, left: \
         BinaryOp { op: LessThan, left: Number(1), right: Number(2) }, right: Number(3) }, right: Number(4) }"
    );
}

#[test]
fn assignment_associates_to_the_right() {
    assert_eq!(
        expr_shape("a = b = 1"),
        "BinaryOp { op: Assign, left: Variable(\"a\"), right: \
         BinaryOp { op: Assign, left: Variable(\"b\"), right: Number(1) } }"
    );
}

#[test]
fn assignment_to_an_array_element() {
    assert_eq!(
        expr_shape("a[1] = 2"),
        "BinaryOp { op: Assign, left: ArrayIndex(Variable(\"a\"), Number(1)), right: Number(2) }"
    );
}

#[test]
fn assignment_binds_looser_than_logical_or() {
    assert_eq!(
        expr_shape("a = 1 || 2"),
        "BinaryOp { op: Assign, left: Variable(\"a\"), right: BinaryOp { op: Or, left: Number(1), right: Number(2) } }"
    );
}

#[test]
fn ternary_takes_an_assignment_as_condition() {
    assert_eq!(
        expr_shape("a = 1 ? 2 : 3"),
        "Ternary { condition: BinaryOp { op: Assign, left: Variable(\"a\"), right: Number(1) }, \
         then_branch: Number(2), else_branch: Number(3) }"
    );
}

#[test]
fn ternary_nests_in_both_branches() {
    assert_eq!(
        expr_shape("1 ? 2 ? 3 : 4 : 5 ? 6 : 7"),
        "Ternary { condition: Number(1), \
         then_branch: Ternary { condition: Number(2), then_branch: Number(3), else_branch: Number(4) }, \
         else_branch: Ternary { condition: Number(5), then_branch: Number(6), else_branch: Number(7) } }"
    );
}

#[test]
fn prefix_operators() {
    assert_eq!(expr_shape("!x"), "UnaryOp { op: Not, expr: Variable(\"x\") }");
    assert_eq!(expr_shape("&x"), "AddressOf(Variable(\"x\"))");
    assert_eq!(expr_shape("*p"), "Deref(Variable(\"p\"))");
    assert_eq!(expr_shape("++x"), "PreInc(Variable(\"x\"))");
    assert_eq!(expr_shape("--x"), "PreDec(Variable(\"x\"))");
    assert_eq!(expr_shape("*&x"), "Deref(AddressOf(Variable(\"x\")))");
    assert_eq!(
        expr_shape("!!x"),
        "UnaryOp { op: Not, expr: UnaryOp { op: Not, expr: Variable(\"x\") } }"
    );
}

#[test]
fn postfix_operators_apply_after_prefix_ones() {
    assert_eq!(expr_shape("x++"), "PostInc(Variable(\"x\"))");
    assert_eq!(expr_shape("x--"), "PostDec(Variable(\"x\"))");
    assert_eq!(expr_shape("x++--"), "PostDec(PostInc(Variable(\"x\")))");
    assert_eq!(expr_shape("!x++"), "UnaryOp { op: Not, expr: PostInc(Variable(\"x\")) }");
}

#[test]
fn unary_binds_tighter_than_multiplication() {
    assert_eq!(
        expr_shape("a * *p"),
        "BinaryOp { op: Mul, left: Variable(\"a\"), right: Deref(Variable(\"p\")) }"
    );
    assert_eq!(
        expr_shape("a & &b"),
        "BinaryOp { op: BitAnd, left: Variable(\"a\"), right: AddressOf(Variable(\"b\")) }"
    );
}

#[test]
fn literal_shapes() {
    assert_eq!(expr_shape("7"), "Number(7)");
    assert_eq!(expr_shape("true"), "Boolean(true)");
    assert_eq!(expr_shape("false"), "Boolean(false)");
    assert_eq!(expr_shape("'c'"), "Char('c')");
    assert_eq!(expr_shape("\"s\""), "StringLiteral(\"s\")");
}

#[test]
fn array_literals_in_brackets_and_braces() {
    assert_eq!(expr_shape("[1, 2]"), "ArrayLiteral([Number(1), Number(2)])");
    assert_eq!(expr_shape("{1, 2}"), "ArrayLiteral([Number(1), Number(2)])");
    assert_eq!(expr_shape("[]"), "ArrayLiteral([])");
    assert_eq!(expr_shape("[1, ]"), "ArrayLiteral([Number(1)])");
    assert_eq!(
        expr_shape("[[1], [2, 3]]"),
        "ArrayLiteral([ArrayLiteral([Number(1)]), ArrayLiteral([Number(2), Number(3)])])"
    );
}

#[test]
fn calls_and_indexing() {
    assert_eq!(expr_shape("f()"), "FunctionCall { name: \"f\", args: [] }");
    assert_eq!(
        expr_shape("f(1, x)"),
        "FunctionCall { name: \"f\", args: [Number(1), Variable(\"x\")] }"
    );
    assert_eq!(
        expr_shape("f(1 2)"),
        "FunctionCall { name: \"f\", args: [Number(1), Number(2)] }"
    );
    assert_eq!(expr_shape("a[i + 1]"), "ArrayIndex(Variable(\"a\"), BinaryOp { op: Add, left: Variable(\"i\"), right: Number(1) })");
}

#[test]
fn sizeof_types() {
    assert_eq!(expr_shape("sizeof(int)"), "SizeOf(Int)");
    assert_eq!(expr_shape("sizeof(char)"), "SizeOf(Char)");
    assert_eq!(expr_shape("sizeof(bool)"), "SizeOf(Char)");
    assert_eq!(expr_shape("sizeof(str)"), "SizeOf(Pointer(Char))");
    assert_eq!(expr_shape("sizeof(void)"), "SizeOf(Void)");
    assert_eq!(expr_shape("sizeof(*int)"), "SizeOf(Pointer(Int))");
    assert_eq!(expr_shape("sizeof(**char)"), "SizeOf(Pointer(Pointer(Char)))");
    assert_eq!(expr_shape("sizeof(int[3])"), "SizeOf(Array(Int, 3))");
    assert_eq!(expr_shape("sizeof(int[3][2])"), "SizeOf(Array(Array(Int, 3), 2))");
    assert_eq!(expr_shape("sizeof()"), "SizeOf(Int)");
}

#[test]
fn casts() {
    assert_eq!(expr_shape("(int)x"), "Cast(Int, Variable(\"x\"))");
    assert_eq!(expr_shape("(char)300"), "Cast(Char, Number(300))");
    assert_eq!(expr_shape("(*int)p"), "Cast(Pointer(Int), Variable(\"p\"))");
    assert_eq!(
        expr_shape("(int)x + 1"),
        "BinaryOp { op: Add, left: Cast(Int, Variable(\"x\")), right: Number(1) }"
    );
    assert_eq!(expr_shape("(int)!x"), "Cast(Int, UnaryOp { op: Not, expr: Variable(\"x\") })");
}

#[test]
fn parenthesized_star_is_read_as_a_type() {
    let mut cursor = Cursor::new(Lexer::new("(*p)")).unwrap();
    let e = cursor.parse_expression(u64::MAX).unwrap_err();
    assert_eq!(e.kind, ErrorKind::UnknownType);
    assert_eq!(e.name, "p");
    assert_eq!(e.message(), "Unknown type 'p'");
}

#[test]
fn statements() {
    assert_eq!(shape("return 1;"), "[Return(Number(1))]");
    assert_eq!(shape("return;"), "[Return(Number(0))]");
    assert_eq!(shape("return 1"), "[Return(Number(1))]");
    assert_eq!(shape("{ return }"), "[Block([Return(Number(0))])]");
    assert_eq!(shape("print(1);"), "[Print(Number(1))]");
    assert_eq!(shape("f();"), "[ExprStmt(FunctionCall { name: \"f\", args: [] })]");
    assert_eq!(shape("{}"), "[Block([])]");
    assert_eq!(shape(""), "[]");
}

#[test]
fn let_declarations() {
    assert_eq!(
        shape("let x = 1;"),
        "[Let { name: \"x\", value: Number(1), var_type: Some(Int) }]"
    );
    assert_eq!(
        shape("let c: char = 'a';"),
        "[Let { name: \"c\", value: Char('a'), var_type: Some(Char) }]"
    );
    assert_eq!(
        shape("let x: = 1;"),
        "[Let { name: \"x\", value: Number(1), var_type: Some(Int) }]"
    );
    assert_eq!(
        shape("let x = 1, y = 2;"),
        "[Block([Let { name: \"x\", value: Number(1), var_type: Some(Int) }, \
         Let { name: \"y\", value: Number(2), var_type: Some(Int) }])]"
    );
}

#[test]
fn typed_declarations() {
    assert_eq!(
        shape("int x = 1;"),
        "[Let { name: \"x\", value: Number(1), var_type: Some(Int) }]"
    );
    assert_eq!(
        shape("str s = \"a\";"),
        "[Let { name: \"s\", value: StringLiteral(\"a\"), var_type: Some(Pointer(Char)) }]"
    );
    assert_eq!(
        shape("int[2] a = [1, 2];"),
        "[Let { name: \"a\", value: ArrayLiteral([Number(1), Number(2)]), var_type: Some(Array(Int, 2)) }]"
    );
}

#[test]
fn function_declarations() {
    assert_eq!(
        shape("int f(a, b) { return a; }"),
        "[Function { name: \"f\", params: [\"a\", \"b\"], body: Block([Return(Variable(\"a\"))]), return_type: Some(Int) }]"
    );
    assert_eq!(
        shape("void g() {}"),
        "[Function { name: \"g\", params: [], body: Block([]), return_type: Some(Void) }]"
    );
    assert_eq!(
        shape("int h(a,) {}"),
        "[Function { name: \"h\", params: [\"a\"], body: Block([]), return_type: Some(Int) }]"
    );
}

#[test]
fn function_declarations_with_fn() {
    assert_eq!(
        shape("fn f(a, b) { return b; }"),
        "[Function { name: \"f\", params: [\"a\", \"b\"], body: Block([Return(Variable(\"b\"))]), return_type: None }]"
    );
    assert_eq!(parse_error("fn (a) {}"), ErrorKind::ExpectedIdentifier);
    assert_eq!(parse_error("fn f {}"), ErrorKind::ExpectedOpenParen);
    assert_eq!(parse_error("fn f(a {}"), ErrorKind::ExpectedSeparator);
    assert_eq!(parse_error("fn f() return 1;"), ErrorKind::ExpectedOpenBrace);
}

#[test]
fn if_and_while() {
    assert_eq!(
        shape("if (x) y = 1;"),
        "[If { condition: Variable(\"x\"), then_branch: ExprStmt(BinaryOp { op: Assign, left: Variable(\"y\"), right: Number(1) }), else_branch: None }]"
    );
    assert_eq!(
        shape("if (x) {} else {}"),
        "[If { condition: Variable(\"x\"), then_branch: Block([]), else_branch: Some(Block([])) }]"
    );
    assert_eq!(
        shape("if (a) if (b) {} else {}"),
        "[If { condition: Variable(\"a\"), then_branch: If { condition: Variable(\"b\"), then_branch: Block([]), else_branch: Some(Block([])) }, else_branch: None }]"
    );
    assert_eq!(
        shape("while (x) x = x - 1;"),
        "[While { condition: Variable(\"x\"), body: ExprStmt(BinaryOp { op: Assign, left: Variable(\"x\"), \
         right: BinaryOp { op: Sub, left: Variable(\"x\"), right: Number(1) } }) }]"
    );
}

#[test]
fn enum_declares_constants_while_parsing() {
    let mut vm = Vm::new();
    let stmts = {
        let mut parser = Parser::new(Lexer::new("enum { A, B = 7, C, D = 2, E, };"), &mut vm).unwrap();
        parser.parse().unwrap()
    };
    assert_eq!(format!("{:?}", stmts), "[Block([])]");
    assert_eq!(vm.constants.get("A"), Some(&0));
    assert_eq!(vm.constants.get("B"), Some(&7));
    assert_eq!(vm.constants.get("C"), Some(&8));
    assert_eq!(vm.constants.get("D"), Some(&2));
    assert_eq!(vm.constants.get("E"), Some(&3));
    assert_eq!(vm.constants.len(), 5);
}

#[test]
fn enum_constants_stay_when_a_later_statement_fails() {
    let mut vm = Vm::new();
    {
        let mut parser = Parser::new(Lexer::new("enum { A = 4 }; return +;"), &mut vm).unwrap();
        assert_eq!(parser.parse().unwrap_err().kind, ErrorKind::UnexpectedToken);
    }
    assert_eq!(vm.constants.get("A"), Some(&4));
}

#[test]
fn parser_next_reads_one_token() {
    let mut vm = Vm::new();
    let mut parser = Parser::new(Lexer::new("1 2"), &mut vm).unwrap();
    assert_eq!(parser.cursor.current, Token::Num(1));
    parser.next().unwrap();
    assert_eq!(parser.cursor.current, Token::Num(2));
    parser.next().unwrap();
    assert_eq!(parser.cursor.current, Token::Eof);
    parser.next().unwrap();
    assert_eq!(parser.cursor.current, Token::Eof);
}

#[test]
fn parser_new_fails_where_the_first_token_does() {
    let mut vm = Vm::new();
    match Parser::new(Lexer::new("\"open"), &mut vm) {
        Ok(_) => panic!("no error"),
        Err(e) => assert_eq!(e.kind, ErrorKind::UnterminatedString),
    }
}

#[test]
fn errors_of_the_grammar() {
    assert_eq!(parse_error("x = 1"), ErrorKind::ExpectedSemicolon);
    assert_eq!(parse_error("print 1;"), ErrorKind::ExpectedOpenParen);
    assert_eq!(parse_error("print(1;"), ErrorKind::ExpectedCloseParen);
    assert_eq!(parse_error("int f() return 1;"), ErrorKind::ExpectedOpenBrace);
    assert_eq!(parse_error("x = {1, 2;"), ErrorKind::ExpectedCloseBrace);
    assert_eq!(parse_error("x = [1, 2;"), ErrorKind::ExpectedCloseBracket);
    assert_eq!(parse_error("x = a[1;"), ErrorKind::ExpectedCloseBracket);
    assert_eq!(parse_error("let x 1;"), ErrorKind::ExpectedAssign);
    assert_eq!(parse_error("int x;"), ErrorKind::ExpectedAssign);
    assert_eq!(parse_error("x = 1 ? 2;"), ErrorKind::ExpectedColon);
    assert_eq!(parse_error("let 1 = 2;"), ErrorKind::ExpectedIdentifier);
    assert_eq!(parse_error("int 1 = 2;"), ErrorKind::ExpectedIdentifier);
    assert_eq!(parse_error("enum { A = x };"), ErrorKind::ExpectedNumber);
    assert_eq!(parse_error("x = sizeof(int[y]);"), ErrorKind::ExpectedNumber);
    assert_eq!(parse_error("enum { A B };"), ErrorKind::ExpectedSeparator);
    assert_eq!(parse_error("int f(a b) {}"), ErrorKind::ExpectedSeparator);
    assert_eq!(parse_error("1 = 2;"), ErrorKind::InvalidAssignmentTarget);
    assert_eq!(parse_error("f() = 2;"), ErrorKind::InvalidAssignmentTarget);
    assert_eq!(parse_error("x = (*p);"), ErrorKind::UnknownType);
    assert_eq!(parse_error("x = (*);"), ErrorKind::UnknownType);
    assert_eq!(parse_error("x = ;"), ErrorKind::UnexpectedToken);
    assert_eq!(parse_error("x = @;"), ErrorKind::UnexpectedToken);
    assert_eq!(parse_error("{ x = 1;"), ErrorKind::UnexpectedToken);
    assert_eq!(parse_error("x = \"abc;"), ErrorKind::UnterminatedString);
    assert_eq!(parse_error("x = 'a;"), ErrorKind::UnterminatedChar);
    assert_eq!(parse_error("x = \"\\z\";"), ErrorKind::UnknownEscape);
}

#[test]
fn a_parse_error_carries_the_position_reached() {
    let e = parse_all("let x = 1;\nlet y = ;").unwrap_err();
    assert_eq!(e.kind, ErrorKind::UnexpectedToken);
    assert_eq!((e.line, e.col), (2, 10));
}

#[test]
fn a_small_budget_stops_the_parser() {
    let mut vm = Vm::new();
    let mut parser = Parser::new(Lexer::new("return ((((1))));"), &mut vm).unwrap();
    parser.budget = 20;
    assert_eq!(parser.parse().unwrap_err().kind, ErrorKind::LimitExceeded);
}

#[test]
fn the_full_budget_parses_deep_nesting() {
    let mut code = String::from("return ");
    for _ in 0..200 {
        code.push('(');
    }
    code.push('1');
    for _ in 0..200 {
        code.push(')');
    }
    code.push(';');
    assert_eq!(parse_all(&code).unwrap().len(), 1);
}

#[test]
fn statement_clone_is_equal() {
    let stmts = parse_all("int f(a) { if (a) { return [1, \"s\"]; } while (a) a = a - 1; }").unwrap();
    let copy: Vec<Stmt> = stmts.iter().map(|s| s.clone()).collect();
    assert_eq!(format!("{:?}", copy), format!("{:?}", stmts));
}
