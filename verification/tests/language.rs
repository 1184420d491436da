use bellronos::error::BellronosError;
use bellronos::interpreter::BellronosInterpreter;
use bellronos::value::Value;

const FUEL: u64 = 1_000_000;

fn run_program(code: &str) -> BellronosInterpreter {
    let mut interp = BellronosInterpreter::new();
    interp.run(code, "main.bellronos", FUEL).expect("program should run");
    interp
}

#[test]
fn arithmetic_binds_float_sum() {
    let interp = run_program("set x to 2\nset y to 3\nset z to x + y\n");
    match interp.get_global("z") {
        Some(Value::Float(bits)) => assert_eq!(bits, (5.0f64).to_bits()),
        other => panic!("expected a float binding for z, got {:?}", other.is_some()),
    }
}

#[test]
fn declared_int_parameters_coerce_and_add() {
    let mut interp = run_program("define add(a: int, b: int) -> int:\nreturn a + b\n");
    let call = bellronos::ast::ASTNode::Call {
        func: String::from("add"),
        args: vec![
            bellronos::ast::ASTNode::Num { value: (1.0f64).to_bits() },
            bellronos::ast::ASTNode::Num { value: (2.0f64).to_bits() },
        ],
    };
    match interp.eval_node(&call, FUEL) {
        Ok(Value::Int(i)) => assert_eq!(i, 3),
        other => panic!("expected the call to return an integer, ok: {:?}", other.is_ok()),
    }
}

#[test]
fn for_loop_binds_last_element() {
    let interp = run_program("set xs to [1, 2, 3]\nfor i in xs:\nset last to i\n");
    match interp.get_global("last") {
        Some(Value::Float(bits)) => assert_eq!(bits, (3.0f64).to_bits()),
        other => panic!("expected a float binding for last, got {:?}", other.is_some()),
    }
}

#[test]
fn if_with_true_comparison_takes_then_branch() {
    let interp = run_program("if 1 < 2:\nset r to \"yes\"\nelse:\nset r to \"no\"\n");
    match interp.get_global("r") {
        Some(Value::String(s)) => assert_eq!(s, "yes"),
        other => panic!("expected a string binding for r, got {:?}", other.is_some()),
    }
}

#[test]
fn class_call_builds_instance_and_method_resolves() {
    let mut interp = run_program(
        "class Point:\ndefine hello(self: Point) -> string:\nreturn \"hi\"\n",
    );
    let bind = bellronos::ast::ASTNode::Assign {
        target: String::from("p"),
        value: Box::new(bellronos::ast::ASTNode::Call {
            func: String::from("Point"),
            args: Vec::new(),
        }),
    };
    interp.eval_node(&bind, FUEL).expect("binding p should succeed");
    match interp.get_global("p") {
        Some(Value::Instance { class, attributes }) => {
            assert_eq!(class, "Point");
            assert!(attributes.is_empty());
        },
        other => panic!("expected an instance binding for p, got {:?}", other.is_some()),
    }
    let attr = bellronos::ast::ASTNode::Attribute {
        value: Box::new(bellronos::ast::ASTNode::Name { id: String::from("p") }),
        attr: String::from("hello"),
    };
    match interp.eval_node(&attr, FUEL) {
        Ok(Value::Function(params, _, _)) => assert_eq!(params.len(), 1),
        other => panic!("expected the method value, got ok: {:?}", other.is_ok()),
    }
}

#[test]
fn import_math_binds_module_dictionary() {
    let interp = run_program("import math\n");
    match interp.get_global("math") {
        Some(Value::Dict(entries)) => {
            let pi = entries.iter().find(|e| e.0 == "pi").expect("pi present");
            let e = entries.iter().find(|e| e.0 == "e").expect("e present");
            match (&pi.1, &e.1) {
                (Value::Float(pb), Value::Float(eb)) => {
                    assert_eq!(*pb, std::f64::consts::PI.to_bits());
                    assert_eq!(*eb, std::f64::consts::E.to_bits());
                },
                _ => panic!("pi and e should be floats"),
            }
        },
        other => panic!("expected a dictionary binding for math, got {:?}", other.is_some()),
    }
}

#[test]
fn for_over_number_is_runtime_error() {
    let mut interp = BellronosInterpreter::new();
    let r = interp.run("for i in 5:\nset x to i\n", "main.bellronos", FUEL);
    match r {
        Err(BellronosError::Runtime(msg)) => {
            assert!(msg.contains("iterable must be a list"), "message was: {}", msg)
        },
        _ => panic!("expected a runtime error"),
    }
}

#[test]
fn import_of_missing_package_is_io_error() {
    let mut interp = BellronosInterpreter::new();
    let r = interp.run("import does_not_exist\n", "main.bellronos", FUEL);
    match r {
        Err(BellronosError::IO(msg)) => {
            assert!(msg.contains("does_not_exist"), "message was: {}", msg)
        },
        _ => panic!("expected an input/output error"),
    }
}

#[test]
fn import_of_registered_package_runs_its_source() {
    let mut interp = BellronosInterpreter::new();
    interp.add_package(String::from("helper"), String::from("set forty to 40\n"));
    interp.run("import helper\nset answer to forty + 2\n", "main.bellronos", FUEL).unwrap();
    match interp.get_global("answer") {
        Some(Value::Float(bits)) => assert_eq!(bits, (42.0f64).to_bits()),
        _ => panic!("expected answer to be bound"),
    }
}

#[test]
fn integer_division_yields_float() {
    let mut interp = run_program("define halves(a: int, b: int) -> float:\nreturn a / b\n");
    let call = bellronos::ast::ASTNode::Call {
        func: String::from("halves"),
        args: vec![
            bellronos::ast::ASTNode::Num { value: (7.0f64).to_bits() },
            bellronos::ast::ASTNode::Num { value: (2.0f64).to_bits() },
        ],
    };
    match interp.eval_node(&call, FUEL) {
        Ok(Value::Float(bits)) => assert_eq!(bits, (3.5f64).to_bits()),
        other => panic!("expected a float quotient, ok: {:?}", other.is_ok()),
    }
}

#[test]
fn while_loop_counts_down() {
    let interp = run_program(
        "set n to 3\nset total to 0\nwhile n > 0:\nset total to total + n\nset n to n - 1\n",
    );
    match interp.get_global("total") {
        Some(Value::Float(bits)) => assert_eq!(bits, (6.0f64).to_bits()),
        _ => panic!("expected total to be bound"),
    }
}

#[test]
fn string_concatenation_joins() {
    let interp = run_program("set s to \"ab\" + \"cd\"\n");
    match interp.get_global("s") {
        Some(Value::String(s)) => assert_eq!(s, "abcd"),
        _ => panic!("expected a string binding"),
    }
}

#[test]
fn dictionary_literal_binds_entries() {
    let interp = run_program("set d to {\"a\": 1, \"b\": 2}\n");
    match interp.get_global("d") {
        Some(Value::Dict(entries)) => {
            assert_eq!(entries.len(), 2);
            assert_eq!(entries[0].0, "a");
        },
        _ => panic!("expected a dictionary binding"),
    }
}

#[test]
fn number_plus_string_is_runtime_error_at_evaluation() {
    let mut interp = BellronosInterpreter::new();
    let r = interp.run("set x to 1 + \"a\"\n", "main.bellronos", FUEL);
    match r {
        Err(BellronosError::Runtime(msg)) => {
            assert!(msg.contains("Unsupported operation"), "message was: {}", msg)
        },
        _ => panic!("expected a runtime error"),
    }
}

#[test]
fn undefined_variable_is_runtime_error() {
    let mut interp = BellronosInterpreter::new();
    let r = interp.run("set x to missing\n", "main.bellronos", FUEL);
    match r {
        Err(BellronosError::Runtime(msg)) => assert!(msg.contains("Undefined variable")),
        _ => panic!("expected a runtime error"),
    }
}

#[test]
fn yield_outside_generator_is_runtime_error() {
    let mut interp = BellronosInterpreter::new();
    let r = interp.run("yield 1\n", "main.bellronos", FUEL);
    match r {
        Err(BellronosError::Runtime(msg)) => assert!(msg.contains("Yield outside of generator")),
        _ => panic!("expected a runtime error"),
    }
}

#[test]
fn interop_outcome_is_returned_as_string() {
    let mut interp = BellronosInterpreter::new();
    interp.add_interop_outcome(
        String::from("python"),
        String::from("print(2)"),
        true,
        String::from("2\n"),
    );
    let node = bellronos::ast::ASTNode::InteropCall {
        language: String::from("python"),
        code: String::from("print(2)"),
    };
    match interp.eval_node(&node, FUEL) {
        Ok(Value::String(s)) => assert_eq!(s, "2\n"),
        _ => panic!("expected the prepared standard output"),
    }
}

#[test]
fn interop_unsupported_language_is_runtime_error() {
    let mut interp = BellronosInterpreter::new();
    let node = bellronos::ast::ASTNode::InteropCall {
        language: String::from("fortran"),
        code: String::from("x"),
    };
    match interp.eval_node(&node, FUEL) {
        Err(BellronosError::Runtime(msg)) => assert!(msg.contains("Unsupported language")),
        _ => panic!("expected a runtime error"),
    }
}

#[test]
fn error_render_carries_kind_and_detail() {
    let e = BellronosError::Runtime(String::from("boom"));
    assert_eq!(e.render(), "Runtime error: boom");
    let e2 = BellronosError::Package(String::from("gone"));
    assert_eq!(e2.render(), "Package error: gone");
}

#[test]
fn values_render_as_reported_text() {
    assert_eq!(Value::Int(5).render(), "5");
    assert_eq!(Value::Bool(true).render(), "true");
    assert_eq!(Value::String(String::from("hi")).render(), "\"hi\"");
    assert_eq!(Value::NoneVal.render(), "None");
    let l = Value::List(vec![Value::Int(1), Value::Int(2)]);
    assert_eq!(l.render(), "[1, 2]");
    let f = Value::Float((2.5f64).to_bits());
    assert_eq!(f.render(), "2.5");
}

#[test]
fn comparison_and_equality_operators_evaluate() {
    let interp = run_program(
        "set a to 3 >= 3\nset b to 2 <= 1\nset c to 2 > 1\nset e to 1 == 1\nset m to 6 * 7\n",
    );
    assert!(matches!(interp.get_global("a"), Some(Value::Bool(true))));
    assert!(matches!(interp.get_global("b"), Some(Value::Bool(false))));
    assert!(matches!(interp.get_global("c"), Some(Value::Bool(true))));
    assert!(matches!(interp.get_global("e"), Some(Value::Bool(true))));
    match interp.get_global("m") {
        Some(Value::Float(bits)) => assert_eq!(bits, (42.0f64).to_bits()),
        _ => panic!("expected a float product"),
    }
}

#[test]
fn inequality_operator_is_unsupported_at_evaluation() {
    let mut interp = BellronosInterpreter::new();
    let r = interp.run("set x to 1 != 2\n", "main.bellronos", FUEL);
    match r {
        Err(BellronosError::Runtime(msg)) => {
            assert!(msg.contains("Unsupported operation"), "message was: {}", msg)
        },
        _ => panic!("expected a runtime error"),
    }
}
