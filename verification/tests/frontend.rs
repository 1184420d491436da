use bellronos::ast::ASTNode;
use bellronos::error::BellronosError;
use bellronos::lexer::Lexer;
use bellronos::parser::Parser;
use bellronos::token::Token;
use bellronos::type_system::{
    bellronos_type_to_interop_type, interop_type_to_bellronos_type, InteropLanguage, InteropType,
    Type, TypeChecker,
};

fn tokens_of(src: &str) -> Vec<Token> {
    Lexer::new(src).tokenize().expect("lexing should succeed")
}

fn parse_of(src: &str) -> ASTNode {
    let mut p = Parser::new(tokens_of(src));
    p.parse().expect("parsing should succeed")
}

#[test]
fn tokenize_assignment_line() {
    let toks = tokens_of("set x to 2\n");
    assert!(matches!(toks[0], Token::SetKw));
    match &toks[1] {
        Token::Identifier(s) => assert_eq!(s, "x"),
        _ => panic!("expected an identifier"),
    }
    assert!(matches!(toks[2], Token::To));
    match toks[3] {
        Token::Number(bits) => assert_eq!(bits, (2.0f64).to_bits()),
        _ => panic!("expected a number"),
    }
    assert!(matches!(toks[4], Token::Newline));
    assert!(matches!(toks[5], Token::EOF));
}

#[test]
fn tokenize_two_character_operators() {
    let toks = tokens_of("== != <= >= ->");
    assert!(matches!(toks[0], Token::Equals));
    assert!(matches!(toks[1], Token::NotEquals));
    assert!(matches!(toks[2], Token::LessThanOrEqual));
    assert!(matches!(toks[3], Token::GreaterThanOrEqual));
    assert!(matches!(toks[4], Token::Arrow));
}

#[test]
fn tokenize_decimal_literal() {
    let toks = tokens_of("set pi to 3.25\n");
    match toks[3] {
        Token::Number(bits) => assert_eq!(bits, (3.25f64).to_bits()),
        _ => panic!("expected a number"),
    }
}

#[test]
fn tokenize_rejects_double_dot_number() {
    let r = Lexer::new("set x to 1.2.3\n").tokenize();
    match r {
        Err(BellronosError::Parser(msg)) => assert!(msg.contains("Invalid number literal")),
        _ => panic!("expected a parser error"),
    }
}

#[test]
fn tokenize_rejects_unterminated_string() {
    let r = Lexer::new("set s to \"abc").tokenize();
    match r {
        Err(BellronosError::Parser(msg)) => assert!(msg.contains("Unterminated string")),
        _ => panic!("expected a parser error"),
    }
}

#[test]
fn tokenize_skips_comments() {
    let toks = tokens_of("# note\nset x to 1\n");
    assert!(matches!(toks[0], Token::Newline));
    assert!(matches!(toks[1], Token::SetKw));
}

#[test]
fn parse_binary_chain_is_left_associative() {
    let m = parse_of("set z to 1 - 2 - 3\n");
    let body = match m {
        ASTNode::Module { body } => body,
        _ => panic!("expected a module"),
    };
    match &body[0] {
        ASTNode::Assign { target, value } => {
            assert_eq!(target, "z");
            match &**value {
                ASTNode::BinOp { left, .. } => {
                    assert!(matches!(&**left, ASTNode::BinOp { .. }));
                },
                _ => panic!("expected a binary operation"),
            }
        },
        _ => panic!("expected an assignment"),
    }
}

#[test]
fn parse_function_definition_shape() {
    let m = parse_of("define add(a: int, b: int) -> int:\nreturn a + b\n");
    let body = match m {
        ASTNode::Module { body } => body,
        _ => panic!("expected a module"),
    };
    match &body[0] {
        ASTNode::FunctionDef { name, args, return_type, body } => {
            assert_eq!(name, "add");
            assert_eq!(args.len(), 2);
            assert!(matches!(return_type, Type::Int));
            assert_eq!(body.len(), 1);
        },
        _ => panic!("expected a function definition"),
    }
}

#[test]
fn parse_reports_missing_colon() {
    let toks = tokens_of("if 1 < 2\nset x to 1\n");
    let mut p = Parser::new(toks);
    match p.parse() {
        Err(BellronosError::Parser(msg)) => assert!(msg.contains("Expected Colon")),
        _ => panic!("expected a parser error"),
    }
}

#[test]
fn type_check_accepts_declared_function() {
    let m = parse_of("define add(a: int, b: int) -> int:\nreturn a + b\n");
    let mut tc = TypeChecker::new();
    assert!(tc.check(&m).is_ok());
}

#[test]
fn number_plus_string_is_type_error() {
    let m = parse_of("set x to 1 + \"a\"\n");
    let mut tc = TypeChecker::new();
    match tc.check(&m) {
        Err(BellronosError::Type(msg)) => assert!(msg.contains("Invalid operation")),
        _ => panic!("expected a type error"),
    }
}

#[test]
fn comparison_yields_bool_and_equality_accepts_anything() {
    let ok = bellronos::type_system::check_binop_exec(
        &Type::Int,
        bellronos::ast::Op::Lt,
        &Type::Float,
    );
    assert!(matches!(ok, Ok(Type::Bool)));
    let eq = bellronos::type_system::check_binop_exec(
        &Type::String,
        bellronos::ast::Op::Eq,
        &Type::Bool,
    );
    assert!(matches!(eq, Ok(Type::Bool)));
}

#[test]
fn division_of_ints_checks_as_float() {
    let d = bellronos::type_system::check_binop_exec(
        &Type::Int,
        bellronos::ast::Op::Div,
        &Type::Int,
    );
    assert!(matches!(d, Ok(Type::Float)));
}

#[test]
fn language_tags_parse_case_insensitively() {
    assert!(matches!(InteropLanguage::from_str("PYTHON"), Ok(InteropLanguage::Python)));
    assert!(matches!(InteropLanguage::from_str("js"), Ok(InteropLanguage::JavaScript)));
    assert!(matches!(InteropLanguage::from_str("basic"), Err(BellronosError::Type(_))));
}

#[test]
fn interop_type_inference_scans_markers() {
    let lang = InteropLanguage::Python;
    assert!(matches!(lang.infer_type("x = int(1)"), Ok(InteropType::PyInt)));
    assert!(matches!(lang.infer_type("plain"), Ok(InteropType::Unknown)));
    let c = InteropLanguage::C;
    assert!(matches!(c.infer_type("int main()"), Ok(InteropType::CInt)));
}

#[test]
fn interop_type_conversions_round() {
    assert!(matches!(interop_type_to_bellronos_type(InteropType::JsNumber), Type::Float));
    assert!(
        matches!(
            bellronos_type_to_interop_type(&Type::Bool, &InteropLanguage::JavaScript),
            InteropType::JsBoolean
        )
    );
}

#[test]
fn checker_tables_keep_methods() {
    let mut tc = TypeChecker::new();
    tc.add_class_method("Point", String::from("hello"), Type::Function(Vec::new(), Box::new(Type::String)));
    assert!(tc.get_class_method("Point", "hello").is_some());
    assert!(tc.get_class_method("Point", "absent").is_none());
    tc.set_type(String::from("x"), Type::Int);
    assert!(matches!(tc.get_type("x"), Some(Type::Int)));
}
