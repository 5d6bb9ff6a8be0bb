use c4_interpreter::ast::{BinOp, Expr, Stmt, Type};
use c4_interpreter::error::{Error, ErrorKind};
use c4_interpreter::interpreter::run;
use c4_interpreter::lexer::Lexer;
use c4_interpreter::parser::Parser;
use c4_interpreter::vm::{render_value, Value, Vm};

fn value_of(code: &str) -> i32 {
    match run(code) {
        Ok(vm) => vm.get_result(),
        Err(e) => panic!("{}", e.message()),
    }
}

fn fails(code: &str) -> Error {
    match run(code) {
        Ok(vm) => panic!("ran to {:?}", vm.last_result),
        Err(e) => e,
    }
}

fn kind(code: &str) -> ErrorKind {
    fails(code).kind
}

fn output(code: &str) -> Vec<String> {
    run(code).expect("runs").output
}

fn number(n: i32) -> Box<Expr> {
    Box::new(Expr::Number(n))
}

#[test]
fn precedence_of_multiplication() {
    assert_eq!(value_of("return 2 + 3 * 4;"), 14);
    assert_eq!(value_of("return (2 + 3) * 4;"), 20);
}

#[test]
fn result_without_return_is_zero() {
    assert_eq!(value_of("let x = 5;"), 0);
    assert_eq!(value_of(""), 0);
}

#[test]
fn statements_after_return_do_nothing() {
    let vm = run("let x = 1; return x; x = 2; print(x); return 9;").unwrap();
    assert_eq!(vm.get_result(), 1);
    assert!(vm.should_return);
    assert!(vm.output.is_empty());
    assert!(matches!(vm.variables[0].get("x"), Some(Value::Int(1))));
}

#[test]
fn arithmetic_wraps_around() {
    assert_eq!(value_of("return 2147483647 + 1;"), -2147483648);
    assert_eq!(value_of("return 0 - 2147483647 - 2;"), 2147483647);
    assert_eq!(value_of("return 65536 * 65536;"), 0);
    assert_eq!(value_of("return 2147483647 * 2;"), -2);
}

#[test]
fn division_rounds_towards_zero() {
    assert_eq!(value_of("return 7 / 2;"), 3);
    assert_eq!(value_of("return (0 - 7) / 2;"), -3);
    assert_eq!(value_of("return 7 / (0 - 2);"), -3);
    assert_eq!(value_of("return (0 - 7) / (0 - 2);"), 3);
    assert_eq!(value_of("return 0 / 5;"), 0);
}

#[test]
fn remainder_has_the_sign_of_the_dividend() {
    assert_eq!(value_of("return 7 % 2;"), 1);
    assert_eq!(value_of("return (0 - 7) % 2;"), -1);
    assert_eq!(value_of("return 7 % (0 - 2);"), 1);
    assert_eq!(value_of("return (0 - 7) % (0 - 2);"), -1);
    assert_eq!(value_of("return 6 % 3;"), 0);
}

#[test]
fn smallest_integer_divided_by_minus_one() {
    assert_eq!(value_of("let m = 0 - 2147483647 - 1; return m / (0 - 1);"), -2147483648);
    assert_eq!(value_of("let m = 0 - 2147483647 - 1; return m % (0 - 1);"), 0);
}

#[test]
fn division_and_remainder_by_zero_fail() {
    assert_eq!(kind("return 10 / 0;"), ErrorKind::DivisionByZero);
    assert_eq!(kind("return 10 % 0;"), ErrorKind::ModuloByZero);
    assert_eq!(kind("return 0 / 0;"), ErrorKind::DivisionByZero);
    assert_eq!(kind("let z = 0; return 1 / z;"), ErrorKind::DivisionByZero);
    assert_eq!(fails("return 10 / 0;").message(), "Division by zero");
    assert_eq!(fails("return 10 % 0;").message(), "Modulo by zero");
}

#[test]
fn comparisons_give_one_or_zero() {
    assert_eq!(value_of("return 1 < 2;"), 1);
    assert_eq!(value_of("return 2 < 1;"), 0);
    assert_eq!(value_of("return 2 <= 2;"), 1);
    assert_eq!(value_of("return 3 > 2;"), 1);
    assert_eq!(value_of("return 2 >= 3;"), 0);
    assert_eq!(value_of("return 2 == 2;"), 1);
    assert_eq!(value_of("return 2 != 2;"), 0);
}

#[test]
fn logical_operators_do_not_short_circuit() {
    assert_eq!(value_of("return 2 && 3;"), 1);
    assert_eq!(value_of("return 2 && 0;"), 0);
    assert_eq!(value_of("return 0 || 0;"), 0);
    assert_eq!(value_of("return 0 || 5;"), 1);
    assert_eq!(value_of("let x = 0; let y = 0 && (x = 1); return x;"), 1);
    assert_eq!(value_of("let x = 0; let y = 1 || (x = 1); return x;"), 1);
    assert_eq!(kind("return 0 && 1 / 0;"), ErrorKind::DivisionByZero);
}

#[test]
fn bitwise_operators() {
    assert_eq!(value_of("return 6 & 3;"), 2);
    assert_eq!(value_of("return 6 | 3;"), 7);
    assert_eq!(value_of("return 6 ^ 3;"), 5);
    assert_eq!(value_of("return (0 - 1) & 255;"), 255);
}

#[test]
fn shifts_use_the_low_five_bits_of_the_right_operand() {
    assert_eq!(value_of("return 1 << 4;"), 16);
    assert_eq!(value_of("return 1 << 33;"), 2);
    assert_eq!(value_of("return 1 << 32;"), 1);
    assert_eq!(value_of("return 1 << 31;"), -2147483648);
    assert_eq!(value_of("return 256 >> 4;"), 16);
    assert_eq!(value_of("return (0 - 16) >> 2;"), -4);
    assert_eq!(value_of("return 16 >> 34;"), 4);
    assert_eq!(value_of("return 1 << (0 - 31);"), 2);
}

#[test]
fn not_operator() {
    assert_eq!(value_of("return !0;"), 1);
    assert_eq!(value_of("return !7;"), 0);
    assert_eq!(value_of("return !\"text\";"), 0);
    assert_eq!(kind("return ![1];"), ErrorKind::NotOnArray);
}

#[test]
fn booleans_and_characters_are_integers() {
    assert_eq!(value_of("return true;"), 1);
    assert_eq!(value_of("return false;"), 0);
    assert_eq!(value_of("return 'A';"), 65);
    assert_eq!(value_of("return 'a' + 1;"), 98);
}

#[test]
fn strings_join_and_compare() {
    let vm = run(r#"return "ab" + "cd";"#).unwrap();
    assert_eq!(vm.get_result_str(), Some("abcd"));
    assert_eq!(vm.get_result(), 0);
    assert_eq!(value_of(r#"return "a" == "a";"#), 1);
    assert_eq!(value_of(r#"return "a" == "b";"#), 0);
    assert_eq!(value_of(r#"return "a" != "b";"#), 1);
    assert_eq!(kind(r#"return "a" - "b";"#), ErrorKind::UnsupportedStringOperation);
    assert_eq!(kind(r#"return "a" < "b";"#), ErrorKind::UnsupportedStringOperation);
}

#[test]
fn operands_of_different_kinds_are_mismatched() {
    assert_eq!(kind(r#"return 1 + "a";"#), ErrorKind::MismatchedTypes);
    assert_eq!(kind(r#"return "a" + 1;"#), ErrorKind::MismatchedTypes);
    assert_eq!(kind("return [1] + [2];"), ErrorKind::MismatchedTypes);
    assert_eq!(kind("return [1] == [1];"), ErrorKind::MismatchedTypes);
    assert_eq!(fails("return 1 + \"a\";").message(), "Mismatched types for operation");
}

#[test]
fn get_result_str_is_none_for_an_integer() {
    let vm = run("return 5;").unwrap();
    assert_eq!(vm.get_result_str(), None);
}

#[test]
fn get_result_of_an_array_is_zero() {
    let vm = run("return [4, 5];").unwrap();
    assert_eq!(vm.get_result(), 0);
    assert_eq!(vm.get_result_str(), None);
    assert_eq!(render_value(&vm.last_result), "[4, 5]");
}

#[test]
fn set_result_sets_value_and_flag() {
    let mut vm = Vm::new();
    assert!(!vm.should_return);
    assert_eq!(vm.get_result(), 0);
    vm.set_result(Value::Int(12));
    assert!(vm.should_return);
    assert_eq!(vm.get_result(), 12);
    vm.set_result(Value::Str("s".to_string()));
    assert_eq!(vm.get_result_str(), Some("s"));
}

#[test]
fn new_evaluator_is_empty() {
    let vm = Vm::new();
    assert_eq!(vm.variables.len(), 1);
    assert_eq!(vm.variables[0].len(), 0);
    assert_eq!(vm.functions.len(), 0);
    assert_eq!(vm.constants.len(), 0);
    assert!(vm.output.is_empty());
    assert_eq!(vm.budget, u64::MAX);
    assert!(matches!(vm.last_result, Value::Int(0)));
}

#[test]
fn ternary_picks_one_branch() {
    assert_eq!(value_of("return 1 ? 10 : 20;"), 10);
    assert_eq!(value_of("return 0 ? 10 : 20;"), 20);
    assert_eq!(value_of("return \"\" ? 10 : 20;"), 10);
    assert_eq!(value_of("return [] ? 10 : 20;"), 10);
    assert_eq!(value_of("return 1 ? 10 : 1 / 0;"), 10);
}

#[test]
fn truthiness_in_if_and_while() {
    assert_eq!(value_of("if (\"\") return 1; return 2;"), 1);
    assert_eq!(value_of("if ([0]) return 1; return 2;"), 1);
    assert_eq!(value_of("if (0) return 1; return 2;"), 2);
    assert_eq!(value_of("if (0 - 1) return 1; return 2;"), 1);
    assert_eq!(value_of("if (0) return 1; else return 3;"), 3);
}

#[test]
fn fake_pointer_round_trip() {
    assert_eq!(value_of("return &5;"), 5000);
    assert_eq!(value_of("return *5000;"), 5);
    assert_eq!(value_of("return *5999;"), 5);
    assert_eq!(value_of("return *&42;"), 42);
    assert_eq!(value_of("return *&(0 - 42);"), -42);
    assert_eq!(value_of("return *&0;"), 0);
    assert_eq!(value_of("return *&2147483;"), 2147483);
    assert_eq!(value_of("return *&(0 - 2147483);"), -2147483);
}

#[test]
fn fake_pointer_of_a_large_integer_wraps() {
    assert_eq!(value_of("return &2147484;"), -2147483296);
    assert_eq!(value_of("return *&2147484;"), -2147483);
}

#[test]
fn fake_pointer_needs_an_integer() {
    assert_eq!(kind("return &\"s\";"), ErrorKind::AddressOfNonInt);
    assert_eq!(kind("return &[1];"), ErrorKind::AddressOfNonInt);
    assert_eq!(kind("return *\"s\";"), ErrorKind::InvalidDereference);
    assert_eq!(kind("return *[1];"), ErrorKind::InvalidDereference);
}

#[test]
fn array_indexing() {
    assert_eq!(value_of("let a = [100, 200, 300]; return a[1];"), 200);
    assert_eq!(value_of("let a = [100, 200, 300]; return a[0] + a[2];"), 400);
    assert_eq!(kind("let a = [100, 200, 300]; return a[5];"), ErrorKind::IndexOutOfBounds);
    assert_eq!(kind("let a = [100, 200, 300]; return a[3];"), ErrorKind::IndexOutOfBounds);
    assert_eq!(kind("let a = [100, 200, 300]; return a[0 - 1];"), ErrorKind::IndexOutOfBounds);
    assert_eq!(kind("let a = []; return a[0];"), ErrorKind::IndexOutOfBounds);
    assert_eq!(kind("let a = [1]; return a[\"x\"];"), ErrorKind::IndexNotInteger);
    assert_eq!(kind("let a = 1; return a[0];"), ErrorKind::NotAnArray);
    assert_eq!(kind("let a = 1; return a[\"x\"];"), ErrorKind::IndexNotInteger);
}

#[test]
fn indexing_an_array_literal_built_by_hand() {
    let mut vm = Vm::new();
    let e = Expr::ArrayIndex(
        Box::new(Expr::ArrayLiteral(vec![Expr::Number(100), Expr::Number(200), Expr::Number(300)])),
        number(1),
    );
    assert!(matches!(vm.eval_expr(&e, 10), Ok(Value::Int(200))));
    let e = Expr::ArrayIndex(
        Box::new(Expr::ArrayLiteral(vec![Expr::Number(100), Expr::Number(200), Expr::Number(300)])),
        number(5),
    );
    assert_eq!(vm.eval_expr(&e, 10).unwrap_err().kind, ErrorKind::IndexOutOfBounds);
}

#[test]
fn array_elements_are_evaluated_from_left_to_right() {
    assert_eq!(value_of("let x = 1; let a = [x = 2, x + 1, x++]; return a[0] * 100 + a[1] * 10 + a[2];"), 232);
    assert_eq!(value_of("let x = 1; let a = [x = 2, x + 1, x++]; return x;"), 3);
}

#[test]
fn array_element_assignment() {
    assert_eq!(value_of("let a = [1, 2, 3]; a[1] = 9; return a[0] + a[1] + a[2];"), 13);
    assert_eq!(value_of("let a = [1, 2, 3]; return a[2] = 7;"), 7);
    assert_eq!(value_of("let a = [1]; a[0] = \"s\"; return a[0] == \"s\";"), 1);
    assert_eq!(kind("let a = [1, 2, 3]; a[3] = 9;"), ErrorKind::IndexOutOfBounds);
    assert_eq!(kind("let a = [1, 2, 3]; a[0 - 1] = 9;"), ErrorKind::IndexOutOfBounds);
    assert_eq!(kind("let a = [1]; a[\"i\"] = 9;"), ErrorKind::IndexNotInteger);
    let e = fails("let a = 5; a[0] = 9;");
    assert_eq!(e.kind, ErrorKind::ArrayNotFound);
    assert_eq!(e.message(), "Array 'a' not found");
    assert_eq!(kind("b[0] = 9;"), ErrorKind::ArrayNotFound);
}

#[test]
fn array_element_assignment_finds_the_innermost_array() {
    assert_eq!(value_of("let a = [1, 2]; { let a = 5; a[0] = 9; } return a[0];"), 9);
    assert_eq!(value_of("let a = [1, 2]; { let a = [3]; a[0] = 9; } return a[0];"), 1);
}

#[test]
fn array_element_assignment_needs_a_variable() {
    let mut vm = Vm::new();
    let target = Expr::ArrayIndex(Box::new(Expr::ArrayLiteral(vec![Expr::Number(1)])), number(0));
    let e = Expr::BinaryOp { op: BinOp::Assign, left: Box::new(target), right: number(2) };
    assert_eq!(vm.eval_expr(&e, 10).unwrap_err().kind, ErrorKind::InvalidArrayTarget);
    let e = Expr::BinaryOp { op: BinOp::Assign, left: number(1), right: number(2) };
    assert_eq!(vm.eval_expr(&e, 10).unwrap_err().kind, ErrorKind::InvalidAssignmentTarget);
}

#[test]
fn arrays_are_copied_on_assignment() {
    assert_eq!(value_of("let a = [1, 2]; let b = a; b[0] = 9; return a[0];"), 1);
}

#[test]
fn increments_and_decrements() {
    assert_eq!(value_of("let x = 5; return ++x;"), 6);
    assert_eq!(value_of("let x = 5; return x++;"), 5);
    assert_eq!(value_of("let x = 5; x++; return x;"), 6);
    assert_eq!(value_of("let x = 5; return --x;"), 4);
    assert_eq!(value_of("let x = 5; return x--;"), 5);
    assert_eq!(value_of("let x = 5; x--; return x;"), 4);
    assert_eq!(value_of("let x = 2147483647; return ++x;"), -2147483648);
    assert_eq!(value_of("let x = 0 - 2147483647 - 1; return --x;"), 2147483647);
}

#[test]
fn increment_needs_a_variable_bound_to_an_integer() {
    assert_eq!(kind("return ++1;"), ErrorKind::IncrementTarget);
    assert_eq!(kind("return 1++;"), ErrorKind::IncrementTarget);
    assert_eq!(kind("return --1;"), ErrorKind::DecrementTarget);
    assert_eq!(kind("return 1--;"), ErrorKind::DecrementTarget);
    assert_eq!(fails("return ++1;").message(), "++ requires a variable");
    assert_eq!(fails("return --1;").message(), "-- requires a variable");
    assert_eq!(kind("return ++y;"), ErrorKind::VariableNotFound);
    assert_eq!(kind("let s = \"a\"; return ++s;"), ErrorKind::VariableNotFound);
    assert_eq!(kind("enum { A }; return ++A;"), ErrorKind::VariableNotFound);
}

#[test]
fn increment_skips_bindings_that_are_no_integers() {
    assert_eq!(value_of("let x = 5; { let x = \"s\"; ++x; } return x;"), 6);
}

#[test]
fn sizeof_values() {
    assert_eq!(value_of("return sizeof(int);"), 4);
    assert_eq!(value_of("return sizeof(char);"), 1);
    assert_eq!(value_of("return sizeof(bool);"), 1);
    assert_eq!(value_of("return sizeof(str);"), 8);
    assert_eq!(value_of("return sizeof(*int);"), 8);
    assert_eq!(value_of("return sizeof(void);"), 0);
    assert_eq!(value_of("return sizeof(int[3]);"), 12);
    assert_eq!(value_of("return sizeof(char[7]);"), 7);
    assert_eq!(value_of("return sizeof(str[2]);"), 16);
    assert_eq!(value_of("return sizeof(void[9]);"), 0);
    assert_eq!(value_of("return sizeof(int[0]);"), 0);
    assert_eq!(kind("return sizeof(int[3][2]);"), ErrorKind::NestedArraySizeof);
    assert_eq!(fails("return sizeof(int[3][2]);").message(), "Nested arrays not supported in sizeof");
}

#[test]
fn sizeof_of_a_pointer_to_an_array_is_eight() {
    let mut vm = Vm::new();
    let t = Type::Pointer(Box::new(Type::Array(Box::new(Type::Array(Box::new(Type::Int), 2)), 3)));
    assert!(matches!(vm.eval_expr(&Expr::SizeOf(t), 0), Ok(Value::Int(8))));
}

#[test]
fn sizeof_of_a_long_array_wraps() {
    let mut vm = Vm::new();
    let t = Type::Array(Box::new(Type::Int), 0x4000_0000);
    assert!(matches!(vm.eval_expr(&Expr::SizeOf(t), 0), Ok(Value::Int(0))));
    let t = Type::Array(Box::new(Type::Int), 0x2000_0000);
    assert!(matches!(vm.eval_expr(&Expr::SizeOf(t), 0), Ok(Value::Int(-2147483648))));
}

#[test]
fn cast_values() {
    assert_eq!(value_of("return (int)123;"), 123);
    assert_eq!(value_of("return (char)300;"), 44);
    assert_eq!(value_of("return (char)(0 - 1);"), 255);
    assert_eq!(value_of("return (bool)256;"), 0);
    assert_eq!(value_of("return (int)\"123\";"), 0);
    assert_eq!(kind("return (char)\"a\";"), ErrorKind::InvalidCast);
    assert_eq!(value_of("return (str)77;"), 77);
    assert_eq!(value_of("return (*int)77;"), 77);
    assert_eq!(kind("return (str)\"s\";"), ErrorKind::InvalidCast);
    assert_eq!(kind("return (int)[1];"), ErrorKind::InvalidCast);
    assert_eq!(kind("return (void)1;"), ErrorKind::InvalidCast);
    assert_eq!(kind("return (int[2])1;"), ErrorKind::InvalidCast);
    assert_eq!(fails("return (void)1;").message(), "Unsupported cast");
}

#[test]
fn variables_and_constants() {
    let e = fails("return y;");
    assert_eq!(e.kind, ErrorKind::VariableNotFound);
    assert_eq!(e.name, "y");
    assert_eq!(e.message(), "Variable 'y' not found");
    assert_eq!((e.line, e.col), (0, 0));
    assert_eq!(value_of("enum { A = 3 }; return A;"), 3);
    assert_eq!(value_of("enum { A = 3 }; let A = 4; return A;"), 4);
    assert_eq!(value_of("let x = 1; let x = 2; return x;"), 2);
}

#[test]
fn qualified_enum_constant() {
    let mut vm = Vm::new();
    vm.constants.insert("Color::Red".to_string(), 3);
    let e = Expr::EnumValue("Color".to_string(), "Red".to_string());
    assert!(matches!(vm.eval_expr(&e, 0), Ok(Value::Int(3))));
    let e = Expr::EnumValue("Color".to_string(), "Blue".to_string());
    let err = vm.eval_expr(&e, 0).unwrap_err();
    assert_eq!(err.kind, ErrorKind::EnumVariantNotFound);
    assert_eq!(err.name, "Color::Blue");
    assert_eq!(err.message(), "Enum variant 'Color::Blue' not found");
}

#[test]
fn enum_scenario() {
    assert_eq!(value_of("enum { A = 5, B, C = 10, D }; return A + B + C + D;"), 32);
}

#[test]
fn while_scenario() {
    assert_eq!(value_of("let i=0; let sum=0; while (i<5) { sum=sum+i; i=i+1; } return sum;"), 10);
}

#[test]
fn implicit_declaration_binds_in_the_innermost_scope() {
    assert_eq!(value_of("x = 7; return x;"), 7);
    let vm = run("x = 7;").unwrap();
    assert!(matches!(vm.variables[0].get("x"), Some(Value::Int(7))));
    assert_eq!(kind("{ x = 7; print(x); } return x;"), ErrorKind::VariableNotFound);
    assert_eq!(value_of("{ x = 7; return x; }"), 7);
}

#[test]
fn assignment_statement_built_by_hand() {
    let mut vm = Vm::new();
    vm.execute(Stmt::Assign { name: "x".to_string(), value: Expr::Number(7) }).unwrap();
    assert!(matches!(vm.variables[0].get("x"), Some(Value::Int(7))));
    vm.execute(Stmt::Assign { name: "x".to_string(), value: Expr::Number(8) }).unwrap();
    assert!(matches!(vm.variables[0].get("x"), Some(Value::Int(8))));
    assert_eq!(vm.variables[0].len(), 1);
}

#[test]
fn assignment_rebinds_the_innermost_binding() {
    assert_eq!(value_of("let x = 1; { x = 2; print(x); } return x;"), 2);
    assert_eq!(value_of("let x = 1; { let x = 5; x = 2; } return x;"), 1);
    assert_eq!(value_of("let x = 1; return (x = 4) + x;"), 8);
}

#[test]
fn a_block_with_another_statement_has_its_own_scope() {
    assert_eq!(value_of("let x=5; { let x=10; return x; } return x;"), 10);
    assert_eq!(value_of("let x=5; { let x=10; print(x); } return x;"), 5);
    assert_eq!(kind("{ let y = 1; print(y); } return y;"), ErrorKind::VariableNotFound);
    let vm = run("let x = 5; { let y = 1; print(y); }").unwrap();
    assert_eq!(vm.variables.len(), 1);
    assert_eq!(vm.variables[0].len(), 1);
}

#[test]
fn a_block_of_lets_has_no_scope_of_its_own() {
    assert_eq!(value_of("{ let y = 1; let z = 2; } return y + z;"), 3);
    assert_eq!(value_of("{ } return 4;"), 4);
    let vm = run("let a = 1, b = 2;").unwrap();
    assert_eq!(vm.variables[0].len(), 2);
}

#[test]
fn scope_is_popped_on_early_return() {
    let vm = run("{ let x = 1; { return x; } }").unwrap();
    assert_eq!(vm.get_result(), 1);
    assert_eq!(vm.variables.len(), 1);
    assert_eq!(vm.variables[0].len(), 0);
}

#[test]
fn functions_and_recursion() {
    assert_eq!(
        value_of("int factorial(n) { if (n == 0) { return 1; } else { return n * factorial(n - 1); } } return factorial(5);"),
        120
    );
    assert_eq!(value_of("int fib(n) { if (n < 2) return n; return fib(n - 1) + fib(n - 2); } return fib(15);"), 610);
}

#[test]
fn a_call_leaves_no_binding_behind() {
    assert_eq!(value_of("int f(a) { let t = a * 2; return t; } let x = f(1); let y = f(5); return x * 100 + y;"), 210);
    assert_eq!(kind("int f(a) { let t = a; return t; } f(1); return t;"), ErrorKind::VariableNotFound);
    assert_eq!(kind("int f(a) { return a; } f(1); return a;"), ErrorKind::VariableNotFound);
    assert_eq!(kind("int f(a) { u = a; return 0; } int g() { return u; } f(1); return g();"), ErrorKind::VariableNotFound);
    let vm = run("int f(a) { let t = a; return t; } let x = f(1);").unwrap();
    assert_eq!(vm.variables.len(), 1);
    assert_eq!(vm.variables[0].len(), 1);
}

#[test]
fn a_function_sees_globals_and_parameters_only() {
    assert_eq!(value_of("let g = 4; int f(a) { return g + a; } return f(1);"), 5);
    assert_eq!(value_of("let g = 4; int f() { g = g + 1; return 0; } f(); f(); return g;"), 6);
    assert_eq!(
        kind("int f() { return local; } int g() { let local = 1; return f(); } return g();"),
        ErrorKind::VariableNotFound
    );
    assert_eq!(
        kind("int f() { return p; } int g(p) { return f(); } return g(3);"),
        ErrorKind::VariableNotFound
    );
    assert_eq!(kind("int f() { return b; } { let b = 1; print(f()); }"), ErrorKind::VariableNotFound);
}

#[test]
fn a_function_cannot_change_the_locals_of_its_caller() {
    assert_eq!(
        value_of("int f() { v = 9; return 0; } int g() { let v = 1; f(); return v; } return g();"),
        1
    );
}

#[test]
fn the_caller_keeps_its_result_and_flag_over_a_call() {
    assert_eq!(value_of("int f() { return 9; } let x = f(); return x + 1;"), 10);
    let vm = run("int f() { return 9; } let x = f();").unwrap();
    assert!(!vm.should_return);
    assert_eq!(vm.get_result(), 0);
}

#[test]
fn a_function_without_return_gives_zero() {
    assert_eq!(value_of("int f() { let a = 1; } return f() + 5;"), 5);
}

#[test]
fn arguments_are_evaluated_in_the_caller_from_left_to_right() {
    assert_eq!(value_of("int f(a, b) { return a * 10 + b; } let x = 1; return f(x = 2, x + 1);"), 23);
}

#[test]
fn later_parameter_of_the_same_name_wins() {
    assert_eq!(value_of("int f(a, a) { return a; } return f(1, 2);"), 2);
}

#[test]
fn call_errors() {
    let e = fails("return f(1);");
    assert_eq!(e.kind, ErrorKind::FunctionNotFound);
    assert_eq!(e.message(), "Function 'f' not found");
    let e = fails("int f(a) { return a; } return f(1, 2);");
    assert_eq!(e.kind, ErrorKind::ArityMismatch);
    assert_eq!(e.message(), "Wrong number of arguments for function 'f'");
    assert_eq!(kind("int f(a) { return a; } return f();"), ErrorKind::ArityMismatch);
    assert_eq!(kind("return f(1 / 0);"), ErrorKind::FunctionNotFound);
    assert_eq!(kind("int f(a) { return a; } return f(1 / 0, 2);"), ErrorKind::DivisionByZero);
}

#[test]
fn a_later_declaration_replaces_a_function() {
    assert_eq!(value_of("int f() { return 1; } int f() { return 2; } return f();"), 2);
    assert_eq!(value_of("int f() { return 1; } let a = f(); int f() { return 2; } return a * 10 + f();"), 12);
}

#[test]
fn a_function_declared_inside_a_function_is_global() {
    assert_eq!(value_of("int outer() { int inner() { return 7; } return 0; } outer(); return inner();"), 7);
}

#[test]
fn a_declared_function_is_recorded() {
    let vm = run("int f(a) { return a; } fn g() { }").unwrap();
    let f = vm.functions.get("f").unwrap();
    assert_eq!(f.name, "f");
    assert_eq!(f.params, vec!["a".to_string()]);
    assert_eq!(f.return_type, Some(Type::Int));
    assert_eq!(format!("{:?}", f.body), "Block([Return(Variable(\"a\"))])");
    let g = vm.functions.get("g").unwrap();
    assert!(g.params.is_empty());
    assert!(g.return_type.is_none());
    assert_eq!(vm.functions.len(), 2);
}

#[test]
fn functions_declared_with_fn() {
    assert_eq!(value_of("fn twice(n) { return n * 2; } return twice(21);"), 42);
    assert_eq!(value_of("fn f() { return 1; } int f() { return 2; } return f();"), 2);
}

#[test]
fn return_inside_a_loop_stops_it() {
    assert_eq!(value_of("let i = 0; while (1) { i = i + 1; if (i == 3) return i; } return 0;"), 3);
    assert_eq!(value_of("int f() { while (1) { while (1) { return 5; } } } return f();"), 5);
}

#[test]
fn print_appends_lines() {
    assert_eq!(output("print(42);"), vec!["42"]);
    assert_eq!(output("print(0);"), vec!["0"]);
    assert_eq!(output("print(0 - 17);"), vec!["-17"]);
    assert_eq!(output("print(2147483647);"), vec!["2147483647"]);
    assert_eq!(output("print(0 - 2147483647 - 1);"), vec!["-2147483648"]);
    assert_eq!(output("print(1000000);"), vec!["1000000"]);
    assert_eq!(output("print(\"Hello\");"), vec!["Hello"]);
    assert_eq!(output("print(\"\");"), vec![""]);
    assert_eq!(output("print([1, 2, 3]);"), vec!["[1, 2, 3]"]);
    assert_eq!(output("print([]);"), vec!["[]"]);
    assert_eq!(output("print([7]);"), vec!["[7]"]);
    assert_eq!(output("print([1, \"a\", [2], 0 - 3]);"), vec!["[1, \"a\", ?, -3]"]);
    assert_eq!(output("print(1); print(2); print(\"x\");"), vec!["1", "2", "x"]);
    assert_eq!(output("void f() { print(5); } f(); f();"), vec!["5", "5"]);
}

#[test]
fn render_value_of_each_kind() {
    assert_eq!(render_value(&Value::Int(-5)), "-5");
    assert_eq!(render_value(&Value::Int(90)), "90");
    assert_eq!(render_value(&Value::Str("a b".to_string())), "a b");
    assert_eq!(
        render_value(&Value::Array(vec![Value::Str("q".to_string()), Value::Int(10)])),
        "[\"q\", 10]"
    );
}

#[test]
fn value_clone_is_deep() {
    let v = Value::Array(vec![Value::Int(1), Value::Array(vec![Value::Str("s".to_string())])]);
    assert_eq!(format!("{:?}", v.clone()), format!("{:?}", v));
}

#[test]
fn a_small_budget_stops_a_loop() {
    let mut vm = Vm::new();
    let stmts = {
        let mut parser = Parser::new(Lexer::new("let i = 0; while (1) { i = i + 1; }"), &mut vm).unwrap();
        parser.parse().unwrap()
    };
    vm.budget = 10;
    let mut last = Ok(());
    for stmt in stmts {
        last = vm.execute(stmt);
    }
    let e = last.unwrap_err();
    assert_eq!(e.kind, ErrorKind::LimitExceeded);
    assert_eq!(e.message(), "Limit exceeded");
    assert!(matches!(vm.variables[0].get("i"), Some(Value::Int(10))));
}

#[test]
fn a_budget_of_n_allows_n_minus_one_iterations() {
    let code = "let i = 0; while (i < 9) { i = i + 1; } return i;";
    let mut vm = Vm::new();
    let stmts = {
        let mut parser = Parser::new(Lexer::new(code), &mut vm).unwrap();
        parser.parse().unwrap()
    };
    vm.budget = 10;
    for stmt in stmts {
        vm.execute(stmt).unwrap();
    }
    assert_eq!(vm.get_result(), 9);

    let mut vm = Vm::new();
    let stmts = {
        let mut parser = Parser::new(Lexer::new(code), &mut vm).unwrap();
        parser.parse().unwrap()
    };
    vm.budget = 9;
    let mut failed = false;
    for stmt in stmts {
        if let Err(e) = vm.execute(stmt) {
            assert_eq!(e.kind, ErrorKind::LimitExceeded);
            failed = true;
        }
    }
    assert!(failed);
}

#[test]
fn a_small_budget_stops_recursion() {
    let mut vm = Vm::new();
    let stmts = {
        let mut parser = Parser::new(Lexer::new("int f(n) { return f(n + 1); } return f(0);"), &mut vm).unwrap();
        parser.parse().unwrap()
    };
    vm.budget = 50;
    let mut last = Ok(());
    for stmt in stmts {
        last = vm.execute(stmt);
    }
    assert_eq!(last.unwrap_err().kind, ErrorKind::LimitExceeded);
}

#[test]
fn a_call_needs_one_unit_of_budget() {
    let mut vm = Vm::new();
    vm.exec_stmt(
        &Stmt::Function {
            name: "f".to_string(),
            params: vec![],
            body: Box::new(Stmt::Return(Expr::Number(3))),
            return_type: None,
        },
        0,
    )
    .unwrap();
    let call = Expr::FunctionCall { name: "f".to_string(), args: vec![] };
    assert_eq!(vm.eval_expr(&call, 0).unwrap_err().kind, ErrorKind::LimitExceeded);
    assert!(matches!(vm.eval_expr(&call, 1), Ok(Value::Int(3))));
}

#[test]
fn run_reports_parse_errors() {
    assert_eq!(kind("return 1 +;"), ErrorKind::UnexpectedToken);
    assert_eq!(kind("let s = \"open;"), ErrorKind::UnterminatedString);
}

#[test]
fn error_constructors() {
    let e = Error::plain(ErrorKind::InvalidCast);
    assert_eq!((e.kind, e.name.as_str(), e.line, e.col), (ErrorKind::InvalidCast, "", 0, 0));
    let e = Error::named(ErrorKind::FunctionNotFound, &"go".to_string());
    assert_eq!((e.kind, e.name.as_str(), e.line, e.col), (ErrorKind::FunctionNotFound, "go", 0, 0));
    assert_eq!(e.message(), "Function 'go' not found");
}

#[test]
fn messages_of_the_parser() {
    let with = |kind| Error { kind, name: String::new(), line: 1, col: 1 }.message();
    assert_eq!(with(ErrorKind::UnterminatedString), "Unterminated string literal");
    assert_eq!(with(ErrorKind::UnterminatedChar), "Unterminated character literal");
    assert_eq!(with(ErrorKind::UnknownEscape), "Unknown escape sequence");
    assert_eq!(with(ErrorKind::UnexpectedToken), "Unexpected token");
    assert_eq!(with(ErrorKind::ExpectedSemicolon), "Expected ';'");
    assert_eq!(with(ErrorKind::ExpectedOpenParen), "Expected '('");
    assert_eq!(with(ErrorKind::ExpectedCloseParen), "Expected ')'");
    assert_eq!(with(ErrorKind::ExpectedOpenBrace), "Expected '{'");
    assert_eq!(with(ErrorKind::ExpectedCloseBrace), "Expected '}'");
    assert_eq!(with(ErrorKind::ExpectedCloseBracket), "Expected ']'");
    assert_eq!(with(ErrorKind::ExpectedAssign), "Expected '='");
    assert_eq!(with(ErrorKind::ExpectedColon), "Expected ':'");
    assert_eq!(with(ErrorKind::ExpectedIdentifier), "Expected identifier");
    assert_eq!(with(ErrorKind::ExpectedNumber), "Expected number");
    assert_eq!(with(ErrorKind::ExpectedSeparator), "Expected ',' or closing delimiter");
    assert_eq!(with(ErrorKind::InvalidAssignmentTarget), "Invalid assignment target");
    assert_eq!(with(ErrorKind::UnknownType), "Unknown type ''");
}

#[test]
fn messages_of_the_evaluator() {
    let with = |kind| Error::plain(kind).message();
    assert_eq!(with(ErrorKind::UnsupportedStringOperation), "Unsupported string operation");
    assert_eq!(with(ErrorKind::IndexOutOfBounds), "Array index out of bounds");
    assert_eq!(with(ErrorKind::IndexNotInteger), "Array index must be an integer");
    assert_eq!(with(ErrorKind::NotAnArray), "Attempted to index non-array value");
    assert_eq!(with(ErrorKind::InvalidArrayTarget), "Left-hand side must be a variable array reference");
    assert_eq!(with(ErrorKind::AddressOfNonInt), "Cannot take address of non-int");
    assert_eq!(with(ErrorKind::InvalidDereference), "Invalid pointer dereference");
    assert_eq!(with(ErrorKind::NotOnArray), "Cannot apply 'Not' operator to an array");
}
