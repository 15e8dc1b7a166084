use starlark_bridge::diagnostics::{EvalSeverity, Lint, ResolvedFileSpan, ResolvedPos, ResolvedSpan};
use starlark_bridge::dialect::{parse_dialect, Dialect, DialectTypes, LibraryExtension};
use starlark_bridge::error::BridgeError;

fn span(file: &str, begin: (usize, usize), end: (usize, usize)) -> ResolvedFileSpan {
    ResolvedFileSpan {
        file: file.to_string(),
        span: ResolvedSpan {
            begin: ResolvedPos { line: begin.0, column: begin.1 },
            end: ResolvedPos { line: end.0, column: end.1 },
        },
    }
}

#[test]
fn positions_are_read() {
    let s = span("f.star", (1, 2), (3, 4));
    assert_eq!(s.file(), "f.star");
    assert_eq!(s.span().begin().line(), 1);
    assert_eq!(s.span().begin().column(), 2);
    assert_eq!(s.span().end().line(), 3);
    assert_eq!(s.span().end().column(), 4);
    assert_eq!(s.duplicate(), s);
}

#[test]
fn span_prints_one_based() {
    assert_eq!(span("f.star", (0, 0), (0, 0)).to_text(), "f.star:1:1");
    assert_eq!(span("f.star", (0, 1), (0, 4)).to_text(), "f.star:1:2-5");
    assert_eq!(span("dir/f.star", (0, 1), (2, 3)).to_text(), "dir/f.star:1:2-3:4");
    assert_eq!(span("", (9, 99), (9, 99)).to_text(), ":10:100");
}

#[test]
fn span_prints_as_the_parser_prints_it() {
    let err = starlark::syntax::AstModule::parse(
        "filename",
        "\n(unmatched".to_owned(),
        &starlark::syntax::Dialect::Standard,
    )
    .unwrap_err();
    let resolved = err.span().unwrap().resolve();
    let ours = span(
        &resolved.file,
        (resolved.span.begin.line, resolved.span.begin.column),
        (resolved.span.end.line, resolved.span.end.column),
    );
    assert_eq!(ours.to_text(), resolved.to_string());
    assert_eq!(ours.to_text(), "filename:2:11");
}

#[test]
fn span_at_the_largest_position_prints() {
    let s = span("f", (usize::MAX, usize::MAX), (usize::MAX, usize::MAX));
    let one_more = (usize::MAX as u128 + 1).to_string();
    assert_eq!(s.to_text(), format!("f:{}:{}", one_more, one_more));
}

#[test]
fn severity_names() {
    assert_eq!(EvalSeverity::Error.repr(), "Error");
    assert_eq!(EvalSeverity::Warning.repr(), "Warning");
    assert_eq!(EvalSeverity::Advice.repr(), "Advice");
    assert_eq!(EvalSeverity::Disabled.repr(), "Disabled");
    assert_eq!(EvalSeverity::Warning.to_text(), "Warning");
    assert_eq!(EvalSeverity::Error.to_text(), starlark::analysis::EvalSeverity::Error.to_string());
    assert_eq!(EvalSeverity::Disabled.to_text(), starlark::analysis::EvalSeverity::Disabled.to_string());
}

#[test]
fn lint_prints_its_place_and_problem() {
    let lint = Lint {
        location: span("f.star", (2, 0), (2, 6)),
        short_name: "unused-load".to_string(),
        severity: EvalSeverity::Warning,
        problem: "Unused load".to_string(),
        original: "load()".to_string(),
    };
    assert_eq!(lint.to_text(), "f.star:3:1-7: Unused load");
    assert_eq!(lint.severity(), EvalSeverity::Warning);
    assert_eq!(lint.resolved_location(), span("f.star", (2, 0), (2, 6)));
}

fn same_dialect(ours: &Dialect, theirs: &starlark::syntax::Dialect) -> bool {
    let types = match theirs.enable_types {
        starlark::syntax::DialectTypes::Disable => DialectTypes::Disable,
        starlark::syntax::DialectTypes::ParseOnly => DialectTypes::ParseOnly,
        starlark::syntax::DialectTypes::Enable => DialectTypes::Enable,
    };
    ours.enable_def == theirs.enable_def
        && ours.enable_lambda == theirs.enable_lambda
        && ours.enable_load == theirs.enable_load
        && ours.enable_keyword_only_arguments == theirs.enable_keyword_only_arguments
        && ours.enable_types == types
        && ours.enable_load_reexport == theirs.enable_load_reexport
        && ours.enable_top_level_stmt == theirs.enable_top_level_stmt
        && ours.enable_f_strings == theirs.enable_f_strings
}

#[test]
fn dialects_are_those_of_the_language() {
    assert!(same_dialect(&Dialect::standard(), &starlark::syntax::Dialect::Standard));
    assert!(same_dialect(&Dialect::extended(), &starlark::syntax::Dialect::Extended));
    assert_ne!(Dialect::standard(), Dialect::extended());
}

#[test]
fn standard_dialect_by_its_options() {
    let d = Dialect::standard();
    assert!(d.enable_def);
    assert!(d.enable_lambda);
    assert!(d.enable_load);
    assert!(!d.enable_keyword_only_arguments);
    assert_eq!(d.enable_types, DialectTypes::Disable);
    assert!(d.enable_load_reexport);
    assert!(!d.enable_top_level_stmt);
    assert!(!d.enable_f_strings);
}

#[test]
fn each_option_is_set_alone() {
    let base = Dialect::standard();
    let mut d = base;
    d.enable_def(false);
    assert_eq!(d, Dialect { enable_def: false, ..base });
    let mut d = base;
    d.enable_lambda(false);
    assert_eq!(d, Dialect { enable_lambda: false, ..base });
    let mut d = base;
    d.enable_load(false);
    assert_eq!(d, Dialect { enable_load: false, ..base });
    let mut d = base;
    d.enable_keyword_only_arguments(true);
    assert_eq!(d, Dialect { enable_keyword_only_arguments: true, ..base });
    let mut d = base;
    d.enable_types(DialectTypes::ParseOnly);
    assert_eq!(d, Dialect { enable_types: DialectTypes::ParseOnly, ..base });
    let mut d = base;
    d.enable_load_reexport(false);
    assert_eq!(d, Dialect { enable_load_reexport: false, ..base });
    let mut d = base;
    d.enable_top_level_stmt(true);
    assert_eq!(d, Dialect { enable_top_level_stmt: true, ..base });
    let mut d = base;
    d.enable_f_strings(true);
    assert_eq!(d, Dialect { enable_f_strings: true, ..base });
}

#[test]
fn dialect_defaults_to_the_standard() {
    assert_eq!(parse_dialect(None), Dialect::standard());
    assert_eq!(parse_dialect(Some(Dialect::extended())), Dialect::extended());
}

#[test]
fn library_extensions_are_distinct_tags() {
    let all = [
        LibraryExtension::StructType,
        LibraryExtension::RecordType,
        LibraryExtension::EnumType,
        LibraryExtension::MapFunction,
        LibraryExtension::Filter,
        LibraryExtension::Partial,
        LibraryExtension::Debug,
        LibraryExtension::Print,
        LibraryExtension::Pprint,
        LibraryExtension::Breakpoint,
        LibraryExtension::Json,
        LibraryExtension::Typing,
        LibraryExtension::Internal,
        LibraryExtension::CallStack,
    ];
    for (i, a) in all.iter().enumerate() {
        for (j, b) in all.iter().enumerate() {
            assert_eq!(a == b, i == j);
        }
    }
}

fn text(s: &str) -> String {
    s.to_string()
}

#[test]
fn messages_of_errors() {
    let cases: Vec<(BridgeError, &str)> = vec![
        (BridgeError::Parse { message: text("Parse error"), span: None }, "Parse error"),
        (BridgeError::Eval { message: text("boom"), span: None }, "boom"),
        (
            BridgeError::Unrepresentable { kind: text("rust_decimal") },
            "Value of type `rust_decimal` has no canonical form",
        ),
        (
            BridgeError::UnrepresentableNumber { text: text("18446744073709551616") },
            "Number can't be represented, perhaps a float value that is too precise, got `18446744073709551616",
        ),
        (
            BridgeError::OperationNotSupported {
                op: text("+"),
                left_type: text("rust_decimal"),
                right_type: text("float"),
            },
            "Operation `+` not supported for types `rust_decimal` and `float`",
        ),
        (
            BridgeError::ConstructorTypeError { op: text("make_decimal()"), arg_type: text("float") },
            "Operation `make_decimal()` not supported on type `float`",
        ),
        (BridgeError::DivisionByZero, "Cannot divide by zero"),
        (BridgeError::Overflow { op: text("*") }, "Decimal overflow in operation `*`"),
        (BridgeError::FrozenViolation, "Cannot mutate a frozen namespace"),
        (
            BridgeError::Load { path: text("a.star"), message: text("not found") },
            "Cannot load `a.star`: not found",
        ),
        (BridgeError::Host { message: text("KeyError: 1") }, "KeyError: 1"),
        (BridgeError::InvalidDecimal { message: text("Invalid decimal") }, "Invalid decimal"),
        (BridgeError::AstConsumed, "The syntax tree was evaluated already"),
    ];
    for (error, message) in cases {
        assert_eq!(error.message(), message);
    }
}

#[test]
fn messages_are_those_of_the_embedded_language() {
    let theirs = starlark::values::ValueError::OperationNotSupportedBinary {
        op: text("%"),
        left: text("rust_decimal"),
        right: text("list"),
    };
    let ours = BridgeError::OperationNotSupported {
        op: text("%"),
        left_type: text("rust_decimal"),
        right_type: text("list"),
    };
    assert_eq!(ours.message(), theirs.to_string());
    assert_eq!(BridgeError::DivisionByZero.message(), starlark::values::ValueError::DivisionByZero.to_string());
    let theirs = starlark::values::ValueError::OperationNotSupported { op: text("f()"), typ: text("float") };
    let ours = BridgeError::ConstructorTypeError { op: text("f()"), arg_type: text("float") };
    assert_eq!(ours.message(), theirs.to_string());
}

#[test]
fn span_of_an_error() {
    let place = span("f.star", (0, 0), (0, 3));
    let e = BridgeError::Eval { message: text("boom"), span: Some(place.duplicate()) };
    assert_eq!(e.span(), Some(place.duplicate()));
    let e = BridgeError::Parse { message: text("boom"), span: Some(place.duplicate()) };
    assert_eq!(e.span(), Some(place));
    assert_eq!(BridgeError::Eval { message: text("boom"), span: None }.span(), None);
    assert_eq!(BridgeError::DivisionByZero.span(), None);
    assert_eq!(BridgeError::Host { message: text("m") }.span(), None);
}
