use c4_interpreter::error::Error;
use c4_interpreter::lexer::Lexer;
use c4_interpreter::parser::Parser;
use c4_interpreter::vm::{Value, Vm};

fn check<T>(result: Result<T, Error>) -> T {
    match result {
        Ok(value) => value,
        Err(e) => panic!("{}", e.message()),
    }
}

fn run_vm(code: &str) -> Vm {
    let lexer = Lexer::new(code);
    let mut vm = Vm::new();
    let stmts = {
        let mut parser = check(Parser::new(lexer, &mut vm));
        check(parser.parse())
    };
    for stmt in stmts {
        check(vm.execute(stmt));
    }
    vm
}

fn run(code: &str) -> i32 {
    run_vm(code).get_result()
}

#[test]
fn test_array_element() {
    let code = "
        let arr = [100, 200, 300];
        return arr[1];
    ";
    assert_eq!(run(code), 200);
}

/// Tests basic arithmetic operations such as addition and multiplication.
#[test]
fn test_arithmetic() {
    let code = "return 2 + 3 * 4;";
    assert_eq!(run(code), 14);
}

/// Tests variable assignment and using those variables in calculations.
#[test]
fn test_variable_assignment() {
    let code = "let x = 10; let y = x + 5; return y;";
    assert_eq!(run(code), 15);
}

/// Tests function call with a single parameter and return value.
#[test]
fn test_function_call() {
    let code = "
        int square(n) {
            return n * n;
        }
        let result = square(6);
        return result;
    ";
    assert_eq!(run(code), 36);
}

/// Tests scope isolation in functions and variables.
#[test]
fn test_scope_isolation() {
    let code = "
        int test(x) { return x + 1; }
        let x = 5;
        let y = test(10);
        return x + y;
    ";
    assert_eq!(run(code), 16);
}

/// Tests recursion in functions, specifically calculating a factorial.
#[test]
fn test_recursion() {
    let code = "
        int factorial(n) {
            if (n == 0) {
                return 1;
            } else {
                return n * factorial(n - 1);
            }
        }
        let result = factorial(5);
        return result;
    ";
    assert_eq!(run(code), 120);
}

/// Tests if-else conditionals with basic true/false evaluations.
#[test]
fn test_if_else() {
    let code = "
        let x = 10;
        if (x < 5) {
            return 0;
        } else {
            return 1;
        }
    ";
    assert_eq!(run(code), 1);
}

/// Tests while loop for sum calculation with a break condition.
#[test]
fn test_while_loop() {
    let code = "
        let i = 0;
        let sum = 0;
        while (i < 5) {
            sum = sum + i;
            i = i + 1;
        }
        return sum;
    ";
    assert_eq!(run(code), 10);
}

/// Tests nested if-else statements.
#[test]
fn test_nested_if_else() {
    let code = "
        let x = 10;
        if (x > 5) {
            if (x < 15) {
                return 1;
            } else {
                return 2;
            }
        } else {
            return 0;
        }
    ";
    assert_eq!(run(code), 1);
}

/// Tests nested while loops for a sum calculation.
#[test]
fn test_nested_while_loops() {
    let code = "
        let i = 0;
        let sum = 0;
        while (i < 3) {
            let j = 0;
            while (j < 2) {
                sum = sum + i + j;
                j = j + 1;
            }
            i = i + 1;
        }
        return sum;
    ";
    assert_eq!(run(code), 9);
}

/// Tests function call with multiple parameters.
#[test]
fn test_function_multiple_params() {
    let code = "
        int add(a, b, c) {
            return a + b + c;
        }
        let result = add(1, 2, 3);
        return result;
    ";
    assert_eq!(run(code), 6);
}

/// Tests variable shadowing by declaring variables with the same name in different scopes.
#[test]
fn test_variable_shadowing() {
    let code = "
        let x = 5;
        {
            let x = 10;
            return x;
        }
        return x;
    ";
    assert_eq!(run(code), 10);
}

/// Tests boolean logic with `&&` and `!` operators.
#[test]
fn test_boolean_logic() {
    let code = "
        let a = true;
        let b = false;
        if (a && !b) {
            return 1;
        } else {
            return 0;
        }
    ";
    assert_eq!(run(code), 1);
}

/// Tests division by zero, expecting a panic.
#[test]
#[should_panic(expected = "Division by zero")]
fn test_division_by_zero() {
    let code = "return 10 / 0;";
    run(code);
}

/// Tests accessing an undefined variable, expecting a panic.
#[test]
#[should_panic(expected = "Variable 'y' not found")]
fn test_undefined_variable() {
    let code = "return y;";
    run(code);
}

/// Tests recursion with multiple parameters in a function, such as power calculation.
#[test]
fn test_recursive_function_multiple_params() {
    let code = "
        int power(base, exp) {
            if (exp == 0) {
                return 1;
            } else {
                return base * power(base, exp - 1);
            }
        }
        let result = power(2, 3);
        return result;
    ";
    assert_eq!(run(code), 8);
}

/// Tests an empty block of code, ensuring it doesn't cause issues.
#[test]
fn test_empty_block() {
    let code = "
        {
        }
        return 42;
    ";
    assert_eq!(run(code), 42);
}

/// Tests function overwriting, where a function with the same name is defined twice.
#[test]
fn test_function_overwriting() {
    let code = "
        int test() {
            return 1;
        }
        int test() {
            return 2;
        }
        return test();
    ";
    assert_eq!(run(code), 2);
}

/// Tests implicit variable declarations without the `let` keyword.
#[test]
fn test_implicit_let() {
    let code = "
        x = 7;
        y = x + 3;
        return y;
    ";
    assert_eq!(run(code), 10);
}

/// Tests global variable usage inside a function.
#[test]
fn test_global_variable_usage() {
    let code = "
        let x = 42;

        int show() {
            return x;
        }

        return show();
    ";
    assert_eq!(run(code), 42);
}

/// Tests string concatenation and printing.
#[test]
fn test_string_return_and_concatenation() {
    let code = r#"
        let hello = "Hello, ";
        let world = "World!";
        let message = hello + world;
        print(message);
        return message;
    "#;

    let vm = run_vm(code);

    match vm.last_result {
        Value::Str(ref s) => assert_eq!(s, "Hello, World!"),
        _ => panic!("Expected string result"),
    }
}

/// Tests global variable access inside a function.
#[test]
fn test_global_variable_access_in_function() {
    let code = r#"
        let x = 123;

        int get() {
            return x;
        }

        return get();
    "#;

    assert_eq!(run(code), 123);
}

/// Tests modifying a global variable inside a function.
#[test]
fn test_global_variable_modification_in_function() {
    let code = r#"
        let x = 10;

        int modify() {
            x = x + 5;
        }

        modify();
        return x;
    "#;

    assert_eq!(run(code), 15);
}

/// Tests global variable shadowing within nested blocks.
#[test]
fn test_global_variable_shadowing() {
    let code = r#"
        let x = 7;

        {
            let x = 42;
            print(x); // should print 42
        }

        return x; // should return 7
    "#;

    assert_eq!(run(code), 7);
}

/// Tests comma-separated variable declarations in a single statement.
#[test]
fn test_comma_separated_let_declaration() {
    let code = "
        let x = 1, y = 2, z = x + y;
        return z;
    ";
    assert_eq!(run(code), 3);
}

/// Tests parentheses overriding the default precedence in expressions.
#[test]
fn test_parentheses_override_precedence() {
    let code = "
        let a = 2;
        let b = 3;
        let c = 4;
        let d = 20;
        return (a + b) * c == d;
    ";
    assert_eq!(run(code), 1);
}

/// Tests the `sizeof` operator for different types.
#[test]
fn test_sizeof_expression() {
    let code = "
        return sizeof(int);
    ";
    assert_eq!(run(code), 4);
}

/// Tests `sizeof` for multiple types.
#[test]
fn test_sizeof_multiple_types() {
    assert_eq!(run("return sizeof(char);"), 1);
    assert_eq!(run("return sizeof(bool);"), 1);
    assert_eq!(run("return sizeof(str);"), 8);
}

/// Tests parsing and using enums in the language.
#[test]
fn test_enum_parsing_and_usage() {
    let code = "
        enum { A = 5, B, C = 10, D };
        return A + B + C + D; // 5 + 6 + 10 + 11 = 32
    ";

    let vm = run_vm(code);

    assert_eq!(vm.get_result(), 32);
}

/// Tests type casting with different types.
#[test]
fn test_type_casting() {
    let code = r#"
        let x = (int)"hello";
        let y = (char)300;
        let z = (int)123;
        return x + y + z;
    "#;
    assert_eq!(run(code), 167);
}

/// Tests printing from the main function.
#[test]
fn test_print_from_main() {
    let code = r#"
        void greet() {
            print("Hello from C4!");
        }

        int main() {
            greet();
            return 42;
        }

        return main();
    "#;

    let vm = run_vm(code);

    assert_eq!(vm.get_result(), 42);
}

/// Tests pre- and post-increment operators.
#[test]
fn test_pre_post_increment() {
    let code = "
        let x = 5;
        let a = ++x;  // x = 6, a = 6
        let b = x++;  // b = 6, x = 7
        return a + b + x;  // returns 19
    ";
    assert_eq!(run(code), 19);
}

/// Tests pre- and post-decrement operators.
#[test]
fn test_pre_post_decrement() {
    let code = "
        let x = 10;
        let a = --x;  // x = 9, a = 9
        let b = x--;  // b = 9, x = 8
        return a + b + x;  // 9 + 9 + 8 = 26
    ";
    assert_eq!(run(code), 26);
}

/// Tests enum parsing with automatic increments.
#[test]
fn test_enum_parsing_auto_increment() {
    let code = "
        enum { A = 10, B, C = 20, D };
        return A + B + C + D;
    ";

    let vm = run_vm(code);

    assert_eq!(vm.get_result(), 62);
}

/// Tests modulus operation in expressions.
#[test]
fn test_modulus() {
    let code = "return 10 % 3;";
    assert_eq!(run(code), 1);
}

/// Tests bitwise operations like AND, OR, XOR, and shifts.
#[test]
fn test_bitwise_operations() {
    let code = "
        let a = 6;      // 0b0110
        let b = 3;      // 0b0011
        let and = a & b;    // 0b0010 -> 2
        let or  = a | b;    // 0b0111 -> 7
        let xor = a ^ b;    // 0b0101 -> 5
        let shl = a << 1;   // 0b1100 -> 12
        let shr = a >> 1;   // 0b0011 -> 3
        return and + or + xor + shl + shr; // 2 + 7 + 5 + 12 + 3 = 29
    ";
    assert_eq!(run(code), 29);
}

/// Tests printing an array.
#[test]
fn test_print_array() {
    let code = r#"
        let x = [1, 2, 3];
        print(x); // should print: [1, 2, 3]
        return x[1]; // return middle element to confirm indexing
    "#;

    let vm = run_vm(code);

    assert_eq!(vm.get_result(), 2); // confirm array indexing works
}

/// Tests fake pointer dereferencing.
#[test]
fn test_pointer_fake_deref() {
    let code = "
        let x = 42;
        let p = &x;
        let y = *p;
        return y;
    ";
    assert_eq!(run(code), 42);
}

/// Tests identity of pointers.
#[test]
fn test_pointer_identity() {
    let code = "
        let x = 123;
        let ptr = &x;
        return *ptr + 1;
    ";
    assert_eq!(run(code), 124);
}

/// Tests array assignment functionality.
#[test]
fn test_array_assignment() {
    let code = "
        let arr = [0, 0, 0];
        arr[1] = 42;
        return arr[1];
    ";
    assert_eq!(run(code), 42);
}

/// Tests handling of nested arrays in `sizeof`.
#[test]
#[should_panic(expected = "Nested arrays not supported")]
fn test_nested_array_sizeof() {
    let code = "return sizeof(int[3][2]);";
    run(code);
}

/// Tests pointer casting in expressions.
#[test]
fn test_pointer_casting() {
    let code = "
        let x = 5;
        let ptr = &x;
        let val = (int)ptr;
        return val / 1000;  // should return original value of x
    ";
    assert_eq!(run(code), 5);
}

/// Tests using enums inside functions.
#[test]
fn test_enum_inside_function() {
    let code = "
        enum { A = 1, B = 2 };
        int sum() {
            return A + B;
        }
        return sum();
    ";
    assert_eq!(run(code), 3);
}
