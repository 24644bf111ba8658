use std::collections::VecDeque;
use stmt_lowering::data::error::CompileError;
use stmt_lowering::data::error::CppError;
use stmt_lowering::data::error::Error;
use stmt_lowering::data::error::ErrorHandler;
use stmt_lowering::data::error::LexError;
use stmt_lowering::data::error::Recover;
use stmt_lowering::data::error::RecoverableResult;
use stmt_lowering::data::error::SemanticError;
use stmt_lowering::data::error::SyntaxError;
use stmt_lowering::data::error::Warning;
use stmt_lowering::data::location::Locatable;
use stmt_lowering::data::location::Location;
use stmt_lowering::data::message::decimal_string;
use stmt_lowering::ir::builder::Block;

fn dummy_error() -> CompileError {
    Location::default().with(Error::Lex(LexError::UnterminatedComment))
}

fn new_error(error: Error) -> CompileError {
    Location::default().with(error)
}

fn at(line: u32, column: u32) -> Location {
    Location {
        file: 3,
        line,
        column,
    }
}

#[test]
fn test_error_handler_push_err() {
    let mut error_handler = ErrorHandler::new();
    error_handler.push_back(dummy_error());

    let mut errors = VecDeque::new();
    errors.push_back(dummy_error());
    assert_eq!(
        error_handler,
        ErrorHandler {
            errors,
            warnings: VecDeque::new(),
        }
    );
}

#[test]
fn test_error_handler_into_iterator() {
    let mut error_handler = ErrorHandler::new();
    error_handler.push_back(dummy_error());
    let errors = error_handler.drain();
    assert_eq!(errors.len(), 1);
}

#[test]
fn test_compile_error_semantic() {
    assert_eq!(
        CompileError::semantic(Location::default().with("".to_string())).data,
        Error::Semantic(SemanticError::Generic("".to_string())),
    );
}

#[test]
fn test_compile_error_is_kind() {
    let e = Error::Lex(LexError::Generic("".to_string()));
    assert!(e.is_lex_err());
    assert!(!e.is_semantic_err());
    assert!(!e.is_syntax_err());

    let e = Error::Semantic(SemanticError::Generic("".to_string()));
    assert!(!e.is_lex_err());
    assert!(e.is_semantic_err());
    assert!(!e.is_syntax_err());

    let e = Error::Syntax(SyntaxError::Generic("".to_string()));
    assert!(!e.is_lex_err());
    assert!(!e.is_semantic_err());
    assert!(e.is_syntax_err());
}

#[test]
fn test_compile_error_display() {
    assert_eq!(
        dummy_error().data.message(),
        "invalid token: unterminated /* comment"
    );

    assert_eq!(
        Error::Semantic(SemanticError::Generic("bad code".to_string())).message(),
        "invalid program: bad code"
    );
}

#[test]
fn test_compile_error_from_locatable_string() {
    let _ = CompileError::from(Location::default().with("apples".to_string()));
}

#[test]
fn test_compile_error_from_syntax_error() {
    let _ = Location::default().error(SyntaxError::from("oranges".to_string()));
}

#[test]
fn test_recover_error() {
    let mut error_handler = ErrorHandler::new();
    let r: RecoverableResult<i32> = Ok(1);
    assert_eq!(r.recover(&mut error_handler), 1);
    assert_eq!(error_handler.pop_front(), None);

    let mut error_handler = ErrorHandler::new();
    let r: RecoverableResult<i32> = Err((dummy_error(), 42));
    assert_eq!(r.recover(&mut error_handler), 42);
    let errors = error_handler.drain();
    assert_eq!(errors, vec![dummy_error()]);
}

#[test]
fn test_recover_multiple_errors() {
    let mut error_handler = ErrorHandler::new();
    let r: RecoverableResult<i32, Vec<CompileError>> = Ok(1);
    assert_eq!(r.recover(&mut error_handler), 1);
    assert_eq!(error_handler.pop_front(), None);

    let mut error_handler = ErrorHandler::new();
    let r: RecoverableResult<i32, Vec<CompileError>> = Err((
        vec![
            dummy_error(),
            new_error(Error::Semantic(SemanticError::Generic("pears".to_string()))),
        ],
        42,
    ));
    assert_eq!(r.recover(&mut error_handler), 42);
    let errors = error_handler.drain();
    assert_eq!(
        errors,
        vec![
            dummy_error(),
            new_error(Error::Semantic(SemanticError::Generic("pears".to_string()))),
        ]
    );
}

#[test]
fn default_location_is_the_origin() {
    assert_eq!(
        Location::default(),
        Location {
            file: 0,
            line: 0,
            column: 0
        }
    );
}

#[test]
fn with_attaches_the_location() {
    let located = at(4, 2).with(7u8);
    assert_eq!(
        located,
        Locatable {
            data: 7u8,
            location: at(4, 2)
        }
    );
}

#[test]
fn error_wraps_each_phase() {
    assert_eq!(
        at(1, 1).error(SemanticError::DivideByZero),
        Locatable {
            data: Error::Semantic(SemanticError::DivideByZero),
            location: at(1, 1)
        }
    );
    assert_eq!(
        at(1, 2).error(SyntaxError::EndOfFile("';'")).data,
        Error::Syntax(SyntaxError::EndOfFile("';'"))
    );
    assert_eq!(
        at(1, 3).error(CppError::UnexpectedEndIf).data,
        Error::PreProcessor(CppError::UnexpectedEndIf)
    );
    assert_eq!(
        at(1, 4).error(LexError::UnterminatedComment).data,
        Error::Lex(LexError::UnterminatedComment)
    );
}

#[test]
fn located_errors_convert_to_compile_errors() {
    assert_eq!(
        CompileError::from(at(2, 1).with(SemanticError::EmptyProgram)),
        at(2, 1).with(Error::Semantic(SemanticError::EmptyProgram))
    );
    assert_eq!(
        CompileError::from(at(2, 2).with(SyntaxError::Generic("x".to_string()))),
        at(2, 2).with(Error::Syntax(SyntaxError::Generic("x".to_string())))
    );
    assert_eq!(
        CompileError::from(at(2, 3).with(CppError::InvalidDirective)),
        at(2, 3).with(Error::PreProcessor(CppError::InvalidDirective))
    );
    let semantic: Locatable<SemanticError> = at(2, 4).with("plums".to_string()).into();
    assert_eq!(
        semantic,
        at(2, 4).with(SemanticError::Generic("plums".to_string()))
    );
    assert_eq!(
        SemanticError::from("kiwi"),
        SemanticError::Generic("kiwi".to_string())
    );
    assert_eq!(Warning::from("fig"), Warning::Generic("fig".to_string()));
}

#[test]
fn compile_error_knows_its_kind_and_place() {
    let e = at(9, 9).error(SemanticError::UnreachableStatement);
    assert_eq!(e.location(), at(9, 9));
    assert!(e.is_semantic_err());
    assert!(!e.is_lex_err());
    assert!(!e.is_syntax_err());
    let e = at(9, 9).error(LexError::UnterminatedComment);
    assert!(e.is_lex_err());
    let e = at(9, 9).error(SyntaxError::EndOfFile("x"));
    assert!(e.is_syntax_err());
    let e = at(9, 9).error(CppError::EmptyExpression);
    assert!(!e.is_semantic_err() && !e.is_lex_err() && !e.is_syntax_err());
}

#[test]
fn errors_leave_in_the_order_they_came() {
    let mut handler = ErrorHandler::new();
    let first = at(1, 1).error(SemanticError::DivideByZero);
    let second = at(2, 1).error(SyntaxError::EndOfFile("}"));
    let third = at(3, 1).error(LexError::UnterminatedComment);
    handler.push_back(first.clone());
    handler.push_back(at(2, 1).with(SyntaxError::EndOfFile("}")));
    handler.extend(vec![third.clone(), first.clone()]);
    assert_eq!(handler.pop_front(), Some(first.clone()));
    assert_eq!(handler.next(), Some(second.clone()));
    assert_eq!(handler.drain(), vec![third, first]);
    assert_eq!(handler.drain(), vec![]);
    assert_eq!(handler.pop_front(), None);
    assert_eq!(handler.next(), None);
}

#[test]
fn draining_leaves_warnings_alone() {
    let mut handler = ErrorHandler::new();
    handler.warn("first", at(1, 1));
    handler.push_back(dummy_error());
    handler.warn(Warning::Generic("second".to_string()), at(2, 1));
    assert_eq!(handler.drain(), vec![dummy_error()]);
    assert!(handler.errors.is_empty());
    let warnings: Vec<_> = handler.warnings.iter().collect();
    assert_eq!(
        warnings,
        vec![
            &at(1, 1).with(Warning::Generic("first".to_string())),
            &at(2, 1).with(Warning::Generic("second".to_string())),
        ]
    );
}

#[test]
fn recover_converts_what_it_reports() {
    let mut handler = ErrorHandler::new();
    handler.push_back(dummy_error());
    let r: RecoverableResult<&str, Locatable<SemanticError>> =
        Err((at(5, 5).with(SemanticError::DivideByZero), "fallback"));
    assert_eq!(r.recover(&mut handler), "fallback");
    let r: RecoverableResult<u8, Vec<Locatable<String>>> =
        Err((vec![at(6, 1).with("a".to_string()), at(6, 2).with("b".to_string())], 9));
    assert_eq!(r.recover(&mut handler), 9);
    assert_eq!(
        handler.drain(),
        vec![
            dummy_error(),
            at(5, 5).error(SemanticError::DivideByZero),
            at(6, 1).error(SemanticError::Generic("a".to_string())),
            at(6, 2).error(SemanticError::Generic("b".to_string())),
        ]
    );
}

#[test]
fn decimal_numerals() {
    assert_eq!(decimal_string(0), "0");
    assert_eq!(decimal_string(7), "7");
    assert_eq!(decimal_string(10), "10");
    assert_eq!(decimal_string(4096), "4096");
    assert_eq!(decimal_string(u64::MAX), "18446744073709551615");
    assert_eq!(Block(12).name(), "block12");
}

#[test]
fn semantic_messages() {
    let text = |e: SemanticError| e.message();
    assert_eq!(text(SemanticError::Generic("as is".to_string())), "as is");
    assert_eq!(text(SemanticError::EmptyProgram), "cannot have empty program");
    assert_eq!(
        text(SemanticError::UndeclaredVar("x".to_string())),
        "use of undeclared identifier 'x'"
    );
    assert_eq!(
        text(SemanticError::ConstOverflow { is_positive: true }),
        "positive overflow in expresson"
    );
    assert_eq!(
        text(SemanticError::ConstOverflow { is_positive: false }),
        "negative overflow in expresson"
    );
    assert_eq!(
        text(SemanticError::NotConstant("f()".to_string())),
        "not a constant expression: f()"
    );
    assert_eq!(
        text(SemanticError::NotAssignable("rvalue".to_string())),
        "cannot assign to rvalue"
    );
    assert_eq!(
        text(SemanticError::InvalidAddressOf("bitfield")),
        "cannot take address of bitfield"
    );
    assert_eq!(text(SemanticError::DivideByZero), "cannot divide by zero");
    assert_eq!(
        text(SemanticError::NegativeShift { is_left: true }),
        "cannot shift left by a negative amount"
    );
    assert_eq!(
        text(SemanticError::NegativeShift { is_left: false }),
        "cannot shift right by a negative amount"
    );
    assert_eq!(
        text(SemanticError::TooManyShiftBits {
            is_left: false,
            maximum: 32,
            ctype: "int".to_string(),
            current: 40,
        }),
        "cannot shift right by 32 or more bits for type 'int' (got 40)"
    );
    assert_eq!(text(SemanticError::UnreachableStatement), "unreachable statement");
    assert_eq!(
        text(SemanticError::LabelRedeclaration(Block(3))),
        "redeclaration of label block3"
    );
    assert_eq!(
        text(SemanticError::UndeclaredLabel("Z".to_string())),
        "use of undeclared label Z"
    );
    assert_eq!(
        text(SemanticError::CaseOutsideSwitch { is_default: false }),
        "case outside of switch statement"
    );
    assert_eq!(
        text(SemanticError::CaseOutsideSwitch { is_default: true }),
        "default case outside of switch statement"
    );
    assert_eq!(
        text(SemanticError::DuplicateCase { is_default: false }),
        "cannot have multiple cases in a switch statement"
    );
    assert_eq!(
        text(SemanticError::DuplicateCase { is_default: true }),
        "cannot have multiple default cases in a switch statement"
    );
    assert_eq!(
        text(SemanticError::MultipleDefaultCase),
        "cannot have multiple default cases in a switch statement"
    );
    assert_eq!(
        text(SemanticError::InvalidVoidParameter),
        "void must be the first and only parameter if specified"
    );
    assert_eq!(
        text(SemanticError::TypedefInExpressionContext),
        "expected expression, got typedef"
    );
}

#[test]
fn other_messages() {
    assert_eq!(SyntaxError::Generic("s".to_string()).message(), "s");
    assert_eq!(
        SyntaxError::EndOfFile("';'").message(),
        "expected ';', got <end-of-file>"
    );
    assert_eq!(
        SyntaxError::NotAStatement("int".to_string()).message(),
        "expected statement, got int"
    );
    assert_eq!(CppError::Generic("c".to_string()).message(), "c");
    assert_eq!(
        CppError::InvalidDirective.message(),
        "invalid preprocessing directive"
    );
    assert_eq!(
        CppError::UnexpectedToken("identifier", "+".to_string()).message(),
        "expected identifier, got +"
    );
    assert_eq!(
        CppError::EndOfFile("#endif").message(),
        "expected #endif, got <end-of-file>"
    );
    assert_eq!(
        CppError::InvalidCppToken("@".to_string()).message(),
        "invalid preprocessor token @"
    );
    assert_eq!(
        CppError::UnterminatedDirective("#if").message(),
        "#if is never terminated"
    );
    assert_eq!(CppError::EmptyExpression.message(), "expected expression for #if");
    assert_eq!(CppError::UnexpectedEndIf.message(), "#endif without #if");
    assert_eq!(LexError::Generic("l".to_string()).message(), "l");
    assert_eq!(Warning::Generic("w".to_string()).message(), "w");
    assert_eq!(
        Error::Syntax(SyntaxError::EndOfFile("x")).message(),
        "invalid syntax: expected x, got <end-of-file>"
    );
    assert_eq!(
        Error::PreProcessor(CppError::UnexpectedEndIf).message(),
        "invalid macro: #endif without #if"
    );
}
