use brain_ops::schema::{
    check_document_cap, parse_error_to_wire, parse_failed_upload_response,
    validation_error_to_wire, ParseError, SourceSpan, ValidationError, MAX_SCHEMA_DOCUMENT_BYTES,
};

fn syntax(line: usize, col: usize, message: &str) -> ParseError {
    ParseError::Syntax { line, col, message: message.into() }
}

#[test]
fn check_document_cap_rejects_empty_and_oversized() {
    assert!(check_document_cap("").is_err());
    let big = "x".repeat(MAX_SCHEMA_DOCUMENT_BYTES + 1);
    assert!(check_document_cap(&big).is_err());
    assert!(check_document_cap("namespace acme").is_ok());
}

#[test]
fn parse_error_to_wire_carries_position() {
    let wire = parse_error_to_wire(syntax(7, 3, "boom"));
    assert_eq!(wire.code, "Syntax");
    assert_eq!(wire.line, 7);
    assert_eq!(wire.column, 3);
    assert_eq!(wire.severity, 2);
}

#[test]
fn validation_error_to_wire_uses_span_when_present() {
    let e = ValidationError {
        code: "DuplicateDefinition".into(),
        message: "dup".into(),
        source_span: Some(SourceSpan { line: 4, column: 5, length: 6 }),
    };
    let wire = validation_error_to_wire(&e);
    assert_eq!(wire.code, "DuplicateDefinition");
    assert_eq!(wire.line, 4);
    assert_eq!(wire.column, 5);
    assert_eq!(wire.length, 6);
    assert_eq!(wire.severity, 2);
}

#[test]
fn validation_error_to_wire_uses_zero_when_span_absent() {
    let e = ValidationError {
        code: "NamespaceMissing".into(),
        message: "missing".into(),
        source_span: None,
    };
    let wire = validation_error_to_wire(&e);
    assert_eq!(wire.line, 0);
    assert_eq!(wire.column, 0);
    assert_eq!(wire.length, 0);
}

#[test]
fn parse_failed_upload_response_zero_version() {
    let resp = parse_failed_upload_response(syntax(1, 1, "x"));
    assert_eq!(resp.schema_version, 0);
    assert!(resp.namespace.is_empty());
    assert_eq!(resp.validation_errors.len(), 1);
}
