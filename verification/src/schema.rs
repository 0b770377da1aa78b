//! Schema operations: upload, read, list and validate.
use vstd::prelude::*;

use vstd::utf8::encode_utf8;

use crate::bytes::{copy_bytes, length_u32, low32, put_text};
use crate::error::{fails, invalid, ErrorView, OpError};
use crate::events::SchemaUpdatedEvent;
use crate::hash::{blake3_digest, blake3_hash, byte_of, flag_byte};
use crate::membership::at_most;
use crate::schema_merge::{
    classify_schema_merge, first_conflict, nothing_new, unchanged, unchanged_schemas_merge,
    DeclaredItem,
};
use crate::text::{decimal, join2, join3, push_decimal, quoted, quoted_text, same_text};
use crate::write::{unexpected, unexpected_ack, Ack, Phase, PhaseAck, Write, WriteId};

verus! {

/// Longest schema document, in bytes: 1 MiB.
pub const MAX_SCHEMA_DOCUMENT_BYTES: usize = 1_048_576;

/// The severity of an error.
pub const SEVERITY_ERROR: u8 = 2;

/// The namespace that everyone may read.
pub open spec fn system_namespace() -> Seq<char> {
    "brain"@
}

/// Why a document is refused unread, if it is.
pub open spec fn document_error(doc: Seq<char>) -> Option<ErrorView> {
    if doc.len() == 0 {
        Some(ErrorView::InvalidRequest("schema_document must be non-empty"@))
    } else if encode_utf8(doc).len() > MAX_SCHEMA_DOCUMENT_BYTES {
        Some(
            ErrorView::InvalidRequest(
                "schema_document exceeds cap ("@ + decimal(encode_utf8(doc).len())
                    + " > 1048576 bytes)"@,
            ),
        )
    } else {
        None
    }
}

/// What checking a document comes to.
pub open spec fn admits_document(
    r: Result<(), OpError>,
    doc: Seq<char>,
) -> bool {
    match document_error(doc) {
        Some(e) => fails(r, e),
        None => r is Ok,
    }
}

/// Checks the size of a document.
pub fn check_document_cap(doc: &str) -> (r: Result<(), OpError>)
    ensures
        admits_document(r, doc@),
{
    if doc.is_empty() {
        return Err(invalid("schema_document must be non-empty"));
    }
    let size: usize = doc.as_bytes().len();
    if size > MAX_SCHEMA_DOCUMENT_BYTES {
        let mut message = "schema_document exceeds cap (".to_owned();
        push_decimal(&mut message, size as u64);
        message.push_str(" > 1048576 bytes)");
        return Err(OpError::InvalidRequest(message));
    }
    Ok(())
}

/// Why a document does not parse, where, and the error as it prints.
#[derive(Debug)]
pub enum ParseError {
    Syntax { line: usize, col: usize, message: String },
    InvalidNumber { line: usize, col: usize, message: String },
    InvalidJson { line: usize, col: usize, message: String },
    InvalidDuration { line: usize, col: usize, message: String },
    InvalidCost { line: usize, col: usize, message: String },
    MissingField { line: usize, col: usize, message: String },
}

impl ParseError {
    /// The name of the error, its place, and how it prints.
    pub open spec fn parts(self) -> (Seq<char>, usize, usize, String) {
        match self {
            ParseError::Syntax { line, col, message } => ("Syntax"@, line, col, message),
            ParseError::InvalidNumber { line, col, message } => (
                "InvalidNumber"@,
                line,
                col,
                message,
            ),
            ParseError::InvalidJson { line, col, message } => ("InvalidJson"@, line, col, message),
            ParseError::InvalidDuration { line, col, message } => (
                "InvalidDuration"@,
                line,
                col,
                message,
            ),
            ParseError::InvalidCost { line, col, message } => ("InvalidCost"@, line, col, message),
            ParseError::MissingField { line, col, message } => (
                "MissingField"@,
                line,
                col,
                message,
            ),
        }
    }
}

#[derive(Clone, Copy, Debug, PartialEq, Eq)]
pub struct SourceSpan {
    pub line: u32,
    pub column: u32,
    pub length: u32,
}

/// A violated rule, by the name of its code.
#[derive(Debug)]
pub struct ValidationError {
    pub code: String,
    pub message: String,
    pub source_span: Option<SourceSpan>,
}

/// An error as clients see it.
#[derive(Debug)]
pub struct SchemaValidationErrorWire {
    pub code: String,
    pub message: String,
    pub line: u32,
    pub column: u32,
    pub length: u32,
    pub severity: u8,
}

/// Whether a shown error is a parse error at its place.
pub open spec fn shows_parse_error(w: SchemaValidationErrorWire, e: ParseError) -> bool {
    let (code, line, col, message) = e.parts();
    &&& w.code@ == code
    &&& w.message == message
    &&& w.line == low32(line as nat)
    &&& w.column == low32(col as nat)
    &&& w.length == 0
    &&& w.severity == SEVERITY_ERROR
}

pub fn parse_error_to_wire(e: ParseError) -> (r: SchemaValidationErrorWire)
    ensures
        shows_parse_error(r, e),
{
    let (code, line, col, message) = match e {
        ParseError::Syntax { line, col, message } => ("Syntax", line, col, message),
        ParseError::InvalidNumber { line, col, message } => ("InvalidNumber", line, col, message),
        ParseError::InvalidJson { line, col, message } => ("InvalidJson", line, col, message),
        ParseError::InvalidDuration { line, col, message } => (
            "InvalidDuration",
            line,
            col,
            message,
        ),
        ParseError::InvalidCost { line, col, message } => ("InvalidCost", line, col, message),
        ParseError::MissingField { line, col, message } => ("MissingField", line, col, message),
    };
    SchemaValidationErrorWire {
        code: code.to_owned(),
        message,
        line: length_u32(line),
        column: length_u32(col),
        length: 0,
        severity: SEVERITY_ERROR,
    }
}

/// Whether a shown error is a violated rule, at its place where it has one.
pub open spec fn shows_violation(w: SchemaValidationErrorWire, e: ValidationError) -> bool {
    let span = match e.source_span {
        Some(s) => s,
        None => SourceSpan { line: 0, column: 0, length: 0 },
    };
    &&& w.code == e.code
    &&& w.message == e.message
    &&& w.line == span.line
    &&& w.column == span.column
    &&& w.length == span.length
    &&& w.severity == SEVERITY_ERROR
}

pub fn validation_error_to_wire(e: &ValidationError) -> (r: SchemaValidationErrorWire)
    ensures
        shows_violation(r, *e),
{
    let span = match e.source_span {
        Some(s) => s,
        None => SourceSpan { line: 0, column: 0, length: 0 },
    };
    SchemaValidationErrorWire {
        code: e.code.clone(),
        message: e.message.clone(),
        line: span.line,
        column: span.column,
        length: span.length,
        severity: SEVERITY_ERROR,
    }
}

/// Whether shown errors are violated rules, one for one.
pub open spec fn shows_violations(
    w: Seq<SchemaValidationErrorWire>,
    errors: Seq<ValidationError>,
) -> bool {
    w.len() == errors.len() && forall|i: int|
        0 <= i < w.len() ==> shows_violation(#[trigger] w[i], errors[i])
}

/// Shows violated rules.
pub fn validation_errors_to_wire(errors: &Vec<ValidationError>) -> (r: Vec<
    SchemaValidationErrorWire,
>)
    ensures
        shows_violations(r@, errors@),
{
    let mut out: Vec<SchemaValidationErrorWire> = Vec::new();
    for i in 0..errors.len()
        invariant
            out@.len() == i,
            forall|k: int| 0 <= k < i ==> shows_violation(#[trigger] out@[k], errors@[k]),
    {
        out.push(validation_error_to_wire(&errors[i]));
    }
    out
}

// Upload.

#[derive(Debug)]
pub struct SchemaUploadRequest {
    pub schema_document: String,
    pub allow_breaking: bool,
    pub dry_run: bool,
    pub request_id: [u8; 16],
}

#[derive(Debug)]
pub struct SchemaUploadResponse {
    pub namespace: String,
    pub schema_version: u32,
    pub validation_errors: Vec<SchemaValidationErrorWire>,
    pub backward_compatible: bool,
    pub migration_summary_blob: Vec<u8>,
}

/// The digested fields of an upload: the document and whether breaking changes
/// are allowed. A dry run never reaches the write path.
pub open spec fn schema_upload_fields(req: SchemaUploadRequest) -> Seq<u8> {
    encode_utf8("schema_upload:"@) + encode_utf8(req.schema_document@) + seq![0u8] + seq![
        flag_byte(req.allow_breaking),
    ]
}

pub fn hash_schema_upload_request(req: &SchemaUploadRequest) -> (r: [u8; 32])
    ensures
        r@ == blake3_digest(schema_upload_fields(*req)),
{
    let mut h: Vec<u8> = Vec::new();
    put_text(&mut h, "schema_upload:");
    put_text(&mut h, &req.schema_document);
    h.push(0);
    h.push(byte_of(req.allow_breaking));
    assert(h@ =~= schema_upload_fields(*req));
    blake3_hash(h.as_slice())
}

/// Whether an upload was accepted at a version, without errors.
pub open spec fn accepted_at(r: SchemaUploadResponse, namespace: Seq<char>, version: u32) -> bool {
    &&& r.namespace@ == namespace
    &&& r.schema_version == version
    &&& r.validation_errors@.len() == 0
    &&& r.backward_compatible
    &&& r.migration_summary_blob@.len() == 0
}

fn accepted(namespace: &str, schema_version: u32) -> (r: SchemaUploadResponse)
    ensures
        accepted_at(r, namespace@, schema_version),
{
    SchemaUploadResponse {
        namespace: namespace.to_owned(),
        schema_version,
        validation_errors: Vec::new(),
        backward_compatible: true,
        migration_summary_blob: Vec::new(),
    }
}

/// Whether an answer refuses a document that does not parse.
pub open spec fn refuses_unparsed(
    r: SchemaUploadResponse,
    e: ParseError,
) -> bool {
    &&& r.namespace@.len() == 0
    &&& r.schema_version == 0
    &&& r.validation_errors@.len() == 1
    &&& shows_parse_error(r.validation_errors@[0], e)
    &&& r.backward_compatible
    &&& r.migration_summary_blob@.len() == 0
}

/// The answer to a document that does not parse.
pub fn parse_failed_upload_response(e: ParseError) -> (r: SchemaUploadResponse)
    ensures
        refuses_unparsed(r, e),
{
    let mut validation_errors: Vec<SchemaValidationErrorWire> = Vec::new();
    validation_errors.push(parse_error_to_wire(e));
    SchemaUploadResponse {
        namespace: String::new(),
        schema_version: 0,
        validation_errors,
        backward_compatible: true,
        migration_summary_blob: Vec::new(),
    }
}

/// Whether an answer refuses a document that breaks its rules.
pub open spec fn refuses_invalid(
    r: SchemaUploadResponse,
    namespace: Seq<char>,
    errors: Vec<ValidationError>,
) -> bool {
    &&& r.namespace@ == namespace
    &&& r.schema_version == 0
    &&& shows_violations(r.validation_errors@, errors@)
    &&& r.backward_compatible
    &&& r.migration_summary_blob@.len() == 0
}

/// The answer to a document that breaks rules.
pub fn invalid_upload_response(namespace: &str, errors: &Vec<ValidationError>) -> (r:
    SchemaUploadResponse)
    ensures
        refuses_invalid(r, namespace@, *errors),
{
    SchemaUploadResponse {
        namespace: namespace.to_owned(),
        schema_version: 0,
        validation_errors: validation_errors_to_wire(errors),
        backward_compatible: true,
        migration_summary_blob: Vec::new(),
    }
}

/// The error for a caller that acts on another namespace; the names are
/// quoted.
pub open spec fn foreign_namespace(
    head: Seq<char>,
    caller: Seq<char>,
    middle: Seq<char>,
    namespace: Seq<char>,
) -> ErrorView {
    ErrorView::Unauthorized(head + quoted_text(caller) + middle + quoted_text(namespace))
}

/// The error for a caller that acts on another namespace, from its parts.
pub fn unauthorized(head: &str, caller_quoted: &str, middle: &str, namespace_quoted: &str) -> (r:
    OpError)
    ensures
        r@ == ErrorView::Unauthorized(head@ + caller_quoted@ + middle@ + namespace_quoted@),
{
    let front = join3(head, caller_quoted, middle);
    OpError::Unauthorized(join2(&front, namespace_quoted))
}

/// What binding a document to its caller comes to.
pub open spec fn binds_namespace(
    r: Result<(), OpError>,
    head: Seq<char>,
    middle: Seq<char>,
    caller_name: Seq<char>,
    namespace: Seq<char>,
) -> bool {
    &&& (namespace == caller_name ==> r is Ok)
    &&& (namespace != caller_name ==> fails(
        r,
        foreign_namespace(head, caller_name, middle, namespace),
    ))
}

/// Refuses a caller that acts on another namespace than its own.
pub fn bind_namespace(head: &str, middle: &str, caller_name: &str, namespace: &str) -> (r: Result<
    (),
    OpError,
>)
    ensures
        binds_namespace(r, head@, middle@, caller_name@, namespace@),
{
    if !same_text(namespace, caller_name) {
        let caller_quoted = quoted(caller_name);
        let namespace_quoted = quoted(namespace);
        return Err(unauthorized(head, &caller_quoted, middle, &namespace_quoted));
    }
    Ok(())
}

/// The version after the active one; the first is 1.
pub open spec fn next_version(active: Option<u32>) -> u32 {
    match active {
        None => 1,
        Some(v) => if v == u32::MAX {
            u32::MAX
        } else {
            (v + 1) as u32
        },
    }
}

/// The version after the active one.
pub fn version_after(active: Option<u32>) -> (r: u32)
    ensures
        r == next_version(active),
{
    let v: u32 = match active {
        Some(n) => n,
        None => 0,
    };
    v.saturating_add(1)
}

/// What to do with a valid upload.
#[derive(Debug)]
pub enum UploadStep {
    Answer(SchemaUploadResponse),
    Submit(Write),
}

/// Why a valid upload is refused, if it is: the namespace is not the caller's,
/// or, but for a dry run, a declaration conflicts with what is stored.
pub open spec fn upload_error(
    req: SchemaUploadRequest,
    namespace: Seq<char>,
    caller_name: Seq<char>,
    items: Seq<DeclaredItem>,
) -> Option<ErrorView> {
    if namespace != caller_name {
        Some(
            foreign_namespace(
                "schema_upload: caller in namespace "@,
                caller_name,
                " cannot declare schema for namespace "@,
                namespace,
            ),
        )
    } else if req.dry_run {
        None
    } else {
        first_conflict(items, namespace)
    }
}

/// Whether a write stores a schema document under the next version; its digest
/// aside.
pub open spec fn stores_document(
    w: Write,
    request_id: [u8; 16],
    space_id: [u8; 16],
    namespace_name: Seq<char>,
    document: Seq<char>,
    active: Option<u32>,
    now: u64,
    replaces: bool,
) -> bool {
    &&& w.write_id == (WriteId::Request { request_id, space_id })
    &&& w.space_id == space_id
    &&& w.namespace_id is None
    &&& w.space_string is None
    &&& w.phase matches Phase::UpsertSchema {
        namespace,
        version,
        blob,
        created_at_unix_nanos,
        replace_all,
    } && {
        &&& namespace@ == namespace_name
        &&& version == next_version(active)
        &&& blob@ == encode_utf8(document)
        &&& created_at_unix_nanos == now
        &&& replace_all == replaces
    }
}

/// Whether a write stores a schema document under the next version, stamped
/// with the digest of the request's fields.
pub open spec fn is_schema_write(
    w: Write,
    request_id: [u8; 16],
    space_id: [u8; 16],
    fields: Seq<u8>,
    namespace_name: Seq<char>,
    document: Seq<char>,
    active: Option<u32>,
    now: u64,
    replaces: bool,
) -> bool {
    &&& stores_document(
        w,
        request_id,
        space_id,
        namespace_name,
        document,
        active,
        now,
        replaces,
    )
    &&& w.request_hash matches Some(h) && h@ == blake3_digest(fields)
}

/// The write that stores a schema document.
pub fn schema_write(
    request_id: [u8; 16],
    space_id: [u8; 16],
    hash: [u8; 32],
    namespace: &str,
    document: &str,
    active: Option<u32>,
    now: u64,
    replace_all: bool,
) -> (r: Write)
    ensures
        stores_document(
            r,
            request_id,
            space_id,
            namespace@,
            document@,
            active,
            now,
            replace_all,
        ),
        r.request_hash == Some(hash),
{
    Write {
        write_id: WriteId::Request { request_id, space_id },
        space_id,
        namespace_id: None,
        space_string: None,
        request_hash: Some(hash),
        phase: Phase::UpsertSchema {
            namespace: namespace.to_owned(),
            version: version_after(active),
            blob: copy_bytes(document.as_bytes()),
            created_at_unix_nanos: now,
            replace_all,
        },
    }
}

/// What a valid upload comes to: its error, an answer, or the write that
/// stores the document.
pub open spec fn uploads(
    r: Result<UploadStep, OpError>,
    req: SchemaUploadRequest,
    namespace: Seq<char>,
    caller_name: Seq<char>,
    space_id: [u8; 16],
    active: Option<u32>,
    items: Seq<DeclaredItem>,
    now: u64,
) -> bool {
    match upload_error(req, namespace, caller_name, items) {
        Some(e) => fails(r, e),
        None => if req.dry_run {
            r matches Ok(UploadStep::Answer(a)) && accepted_at(a, namespace, next_version(active))
        } else if nothing_new(items) && active is Some {
            r matches Ok(UploadStep::Answer(a)) && accepted_at(a, namespace, active->0)
        } else {
            r matches Ok(UploadStep::Submit(w)) && is_schema_write(
                w,
                req.request_id,
                space_id,
                schema_upload_fields(req),
                namespace,
                req.schema_document@,
                active,
                now,
                false,
            )
        },
    }
}

/// Plans a valid upload. A dry run tells the version it would get; an upload
/// that changes nothing answers with the active version; anything else is
/// submitted.
pub fn plan_schema_upload(
    req: &SchemaUploadRequest,
    namespace: &str,
    caller_name: &str,
    space_id: [u8; 16],
    active: Option<u32>,
    items: &Vec<DeclaredItem>,
    now: u64,
) -> (r: Result<UploadStep, OpError>)
    ensures
        uploads(r, *req, namespace@, caller_name@, space_id, active, items@, now),
{
    match bind_namespace(
        "schema_upload: caller in namespace ",
        " cannot declare schema for namespace ",
        caller_name,
        namespace,
    ) {
        Ok(()) => {},
        Err(e) => {
            return Err(e);
        },
    }
    if req.dry_run {
        return Ok(UploadStep::Answer(accepted(namespace, version_after(active))));
    }
    let summary = match classify_schema_merge(namespace, items, active) {
        Ok(m) => m,
        Err(e) => {
            return Err(e);
        },
    };
    if summary.all_idempotent {
        match summary.current_version {
            Some(version) => {
                return Ok(UploadStep::Answer(accepted(namespace, version)));
            },
            None => {},
        }
    }
    let hash = hash_schema_upload_request(req);
    let write = schema_write(
        req.request_id,
        space_id,
        hash,
        namespace,
        &req.schema_document,
        active,
        now,
        false,
    );
    Ok(UploadStep::Submit(write))
}

/// Uploading an unchanged schema again, statement kinds included, writes
/// nothing and is answered with the active version.
pub proof fn unchanged_uploads_change_nothing(
    r: Result<UploadStep, OpError>,
    req: SchemaUploadRequest,
    namespace: Seq<char>,
    space_id: [u8; 16],
    active: u32,
    items: Seq<DeclaredItem>,
    now: u64,
)
    requires
        uploads(r, req, namespace, namespace, space_id, Some(active), items, now),
        !req.dry_run,
        forall|i: int| 0 <= i < items.len() ==> unchanged(#[trigger] items[i]),
    ensures
        r matches Ok(UploadStep::Answer(a)) && accepted_at(a, namespace, active),
{
    unchanged_schemas_merge(items, namespace);
}

/// What a stored upload is answered.
pub open spec fn answers_upload(
    r: Result<(SchemaUploadResponse, SchemaUpdatedEvent), OpError>,
    namespace: Seq<char>,
    active: Option<u32>,
    ack: Ack,
) -> bool {
    match ack.phase {
        PhaseAck::UpsertedSchema { version, dropped: _ } => r matches Ok(out) && {
            &&& accepted_at(out.0, namespace, version)
            &&& out.1.namespace@ == namespace
            &&& out.1.from_version == (match active {
                Some(v) => v,
                None => 0,
            })
            &&& out.1.to_version == version
            &&& out.1.backward_compatible
        },
        _ => fails(
            r,
            unexpected_ack("submit(UpsertSchema) returned unexpected PhaseAck: "@, ack.shown@),
        ),
    }
}

/// Answers a submitted upload with the stored version, and announces it.
pub fn finish_schema_upload(namespace: &str, active: Option<u32>, ack: &Ack) -> (r: Result<
    (SchemaUploadResponse, SchemaUpdatedEvent),
    OpError,
>)
    ensures
        answers_upload(r, namespace@, active, *ack),
{
    match &ack.phase {
        PhaseAck::UpsertedSchema { version, dropped: _ } => Ok(
            (
                accepted(namespace, *version),
                SchemaUpdatedEvent {
                    namespace: namespace.to_owned(),
                    from_version: match active {
                        Some(v) => v,
                        None => 0,
                    },
                    to_version: *version,
                    backward_compatible: true,
                },
            ),
        ),
        _ => Err(unexpected("submit(UpsertSchema) returned unexpected PhaseAck: ", &ack.shown)),
    }
}

// Reading.

/// Whether a caller may read a namespace: its own or the system's.
pub open spec fn may_read(caller_name: Seq<char>, requested: Seq<char>) -> bool {
    requested == caller_name || requested == system_namespace()
}

pub fn caller_may_read_namespace(caller_name: &str, requested: &str) -> (r: bool)
    ensures
        r == may_read(caller_name@, requested@),
{
    same_text(requested, caller_name) || same_text(requested, "brain")
}

/// What naming the namespace of a caller comes to.
pub open spec fn names_namespace(
    r: Result<String, OpError>,
    found: Option<String>,
    namespace_id: u32,
) -> bool {
    match found {
        Some(name) => r == Ok::<String, OpError>(name),
        None => fails(
            r,
            ErrorView::Internal(
                "caller namespace id "@ + decimal(namespace_id as nat)
                    + " has no registry row"@,
            ),
        ),
    }
}

/// The caller's namespace name, which every live caller has.
pub fn caller_namespace_name(found: Option<String>, namespace_id: u32) -> (r: Result<
    String,
    OpError,
>)
    ensures
        names_namespace(r, found, namespace_id),
{
    match found {
        Some(name) => Ok(name),
        None => {
            let mut message = "caller namespace id ".to_owned();
            push_decimal(&mut message, namespace_id as u64);
            message.push_str(" has no registry row");
            Err(OpError::Internal(message))
        },
    }
}

/// What the schema store reports.
#[derive(Debug)]
pub enum SchemaStoreError {
    VersionOverflow { namespace: String },
    /// Anything else, as it prints.
    Other(String),
}

/// The error that a failure of the store becomes.
pub open spec fn maps_store_error(
    r: OpError,
    e: SchemaStoreError,
) -> bool {
    r@ == (match e {
        SchemaStoreError::VersionOverflow { namespace } => ErrorView::Conflict(
            "schema_version overflow for namespace "@ + quoted_text(namespace@),
        ),
        SchemaStoreError::Other(m) => ErrorView::Internal(m@),
    })
}

/// Store errors: an overflow is a conflict, anything else is internal.
pub fn map_schema_store_error(e: SchemaStoreError) -> (r: OpError)
    ensures
        maps_store_error(r, e),
{
    match e {
        SchemaStoreError::VersionOverflow { namespace } => {
            let name = quoted(&namespace);
            OpError::Conflict(join2("schema_version overflow for namespace ", &name))
        },
        SchemaStoreError::Other(m) => OpError::Internal(m),
    }
}

#[derive(Debug)]
pub struct SchemaGetRequest {
    pub namespace: String,
    pub version: u32,
}

/// A stored schema version.
#[derive(Debug)]
pub struct SchemaRow {
    pub namespace: String,
    pub version: u32,
    pub source_text: Option<String>,
    pub source: Vec<u8>,
    pub uploaded_at_unix_nanos: u64,
    pub validator_version: u32,
}

#[derive(Debug)]
pub struct SchemaGetResponse {
    pub namespace: String,
    pub schema_version: u32,
    pub schema_document: String,
    pub source_blob: Vec<u8>,
    pub uploaded_at_unix_nanos: u64,
    pub validator_version: u32,
}

/// The error for a namespace without an active schema.
pub open spec fn no_schema(namespace: Seq<char>) -> ErrorView {
    ErrorView::NotFound {
        what: "schema"@,
        detail: "no active schema for namespace "@ + quoted_text(namespace),
    }
}

fn schema_not_found(namespace: &str) -> (r: OpError)
    ensures
        r@ == no_schema(namespace@),
{
    let name = quoted(namespace);
    OpError::NotFound { what: "schema", detail: join2("no active schema for namespace ", &name) }
}

/// Why a schema cannot be read, if it cannot: the active version is needed for
/// version 0.
pub open spec fn schema_get_error(
    namespace: Seq<char>,
    version: u32,
    caller_name: Seq<char>,
    active: Option<u32>,
) -> Option<ErrorView> {
    if namespace.len() == 0 {
        Some(ErrorView::InvalidRequest("schema_get: namespace must be non-empty"@))
    } else if !may_read(caller_name, namespace) || (version == 0 && active is None) {
        Some(no_schema(namespace))
    } else {
        None
    }
}

/// Whether a read needs the active version.
pub fn needs_active_version(req: &SchemaGetRequest, caller_name: &str) -> (r: bool)
    ensures
        r == (req.version == 0 && req.namespace@.len() > 0 && may_read(
            caller_name@,
            req.namespace@,
        )),
{
    req.version == 0 && !req.namespace.as_str().is_empty() && caller_may_read_namespace(
        caller_name,
        &req.namespace,
    )
}

/// Which version of a schema a request reads.
pub open spec fn picks_version(
    r: Result<u32, OpError>,
    req: SchemaGetRequest,
    caller_name: Seq<char>,
    active: Option<u32>,
) -> bool {
    match schema_get_error(req.namespace@, req.version, caller_name, active) {
        Some(e) => fails(r, e),
        None => r == Ok::<u32, OpError>(
            if req.version != 0 {
                req.version
            } else {
                active->0
            },
        ),
    }
}

/// The version to read: the one asked for, or the active one for 0.
pub fn schema_version_to_read(req: &SchemaGetRequest, caller_name: &str, active: Option<u32>) -> (r:
    Result<u32, OpError>)
    ensures
        picks_version(r, *req, caller_name@, active),
{
    if req.namespace.as_str().is_empty() {
        return Err(invalid("schema_get: namespace must be non-empty"));
    }
    if !caller_may_read_namespace(caller_name, &req.namespace) {
        return Err(schema_not_found(&req.namespace));
    }
    if req.version != 0 {
        return Ok(req.version);
    }
    match active {
        Some(v) => Ok(v),
        None => Err(schema_not_found(&req.namespace)),
    }
}

/// A foreign namespace answers as one without a schema, whatever it holds.
pub proof fn foreign_schemas_read_as_absent(
    namespace: Seq<char>,
    version: u32,
    caller_name: Seq<char>,
    active: Option<u32>,
)
    requires
        !may_read(caller_name, namespace),
    ensures
        schema_get_error(namespace, version, caller_name, active) == schema_get_error(
            namespace,
            0,
            namespace,
            None,
        ),
{
}

/// What reading a schema answers.
pub open spec fn shows_schema(
    r: Result<SchemaGetResponse, OpError>,
    req: SchemaGetRequest,
    version: u32,
    row: Option<SchemaRow>,
) -> bool {
    match row {
        Some(s) => r matches Ok(out) && {
            &&& out.namespace == s.namespace
            &&& out.schema_version == s.version
            &&& out.schema_document@ == (match s.source_text {
                Some(t) => t@,
                None => Seq::<char>::empty(),
            })
            &&& out.source_blob == s.source
            &&& out.uploaded_at_unix_nanos == s.uploaded_at_unix_nanos
            &&& out.validator_version == s.validator_version
        },
        None => fails(
            r,
            ErrorView::NotFound {
                what: "schema"@,
                detail: "namespace="@ + quoted_text(req.namespace@) + " version="@ + decimal(
                    version as nat,
                ),
            },
        ),
    }
}

/// Answers a read with the stored version.
pub fn schema_get_response(req: &SchemaGetRequest, version: u32, row: Option<SchemaRow>) -> (r:
    Result<SchemaGetResponse, OpError>)
    ensures
        shows_schema(r, *req, version, row),
{
    match row {
        Some(s) => {
            let schema_document = match s.source_text {
                Some(t) => t,
                None => {
                    let none = String::new();
                    assert(none@ =~= Seq::<char>::empty());
                    none
                },
            };
            Ok(
                SchemaGetResponse {
                    namespace: s.namespace,
                    schema_version: s.version,
                    schema_document,
                    source_blob: s.source,
                    uploaded_at_unix_nanos: s.uploaded_at_unix_nanos,
                    validator_version: s.validator_version,
                },
            )
        },
        None => {
            let name = quoted(&req.namespace);
            let mut detail = join3("namespace=", &name, " version=");
            push_decimal(&mut detail, version as u64);
            Err(OpError::NotFound { what: "schema", detail })
        },
    }
}

// Listing.

#[derive(Debug)]
pub struct SchemaListRequest {
    pub namespace: String,
    pub limit: u32,
    pub cursor: Vec<u8>,
}

#[derive(Clone, Copy, Debug, PartialEq, Eq)]
pub struct SchemaListItemWire {
    pub schema_version: u32,
    pub uploaded_at_unix_nanos: u64,
    pub validator_version: u32,
    pub has_source_text: bool,
}

#[derive(Debug)]
pub struct SchemaListResponseFrame {
    pub namespace: String,
    pub items: Vec<SchemaListItemWire>,
    pub total: u32,
    pub next_cursor: Vec<u8>,
    pub is_final: bool,
}

/// A stored version as the list shows it.
pub open spec fn list_item(s: SchemaRow) -> SchemaListItemWire {
    SchemaListItemWire {
        schema_version: s.version,
        uploaded_at_unix_nanos: s.uploaded_at_unix_nanos,
        validator_version: s.validator_version,
        has_source_text: s.source_text is Some,
    }
}

/// The versions that a list shows: the first `limit`, or all for 0.
pub open spec fn listed(rows: Seq<SchemaRow>, limit: u32) -> Seq<SchemaListItemWire> {
    let shown = if limit == 0 {
        rows
    } else {
        at_most(rows, limit as nat)
    };
    shown.map_values(|s: SchemaRow| list_item(s))
}

/// What admitting a list of versions comes to.
pub open spec fn admits_schema_list(
    r: Result<bool, OpError>,
    req: SchemaListRequest,
    caller_name: Seq<char>,
) -> bool {
    &&& (req.namespace@.len() == 0 ==> fails(
        r,
        ErrorView::InvalidRequest("schema_list: namespace must be non-empty"@),
    ))
    &&& (req.namespace@.len() > 0 ==> r == Ok::<bool, OpError>(
        may_read(caller_name, req.namespace@),
    ))
}

/// Whether a list needs the stored versions; a foreign namespace lists as
/// empty, so that it cannot be told from one without a schema.
pub fn admit_schema_list(req: &SchemaListRequest, caller_name: &str) -> (r: Result<bool, OpError>)
    ensures
        admits_schema_list(r, *req, caller_name@),
{
    if req.namespace.as_str().is_empty() {
        return Err(invalid("schema_list: namespace must be non-empty"));
    }
    Ok(caller_may_read_namespace(caller_name, &req.namespace))
}

/// Whether a frame lists versions.
pub open spec fn shows_versions(
    r: SchemaListResponseFrame,
    req: SchemaListRequest,
    rows: Vec<SchemaRow>,
) -> bool {
    &&& r.namespace == req.namespace
    &&& r.items@ == listed(rows@, req.limit)
    &&& r.total == low32(r.items@.len())
    &&& r.next_cursor@.len() == 0
    &&& r.is_final
}

/// The frame over the versions that were read; none are read for a foreign
/// namespace.
pub fn schema_list_frame(req: &SchemaListRequest, rows: &Vec<SchemaRow>) -> (r:
    SchemaListResponseFrame)
    ensures
        shows_versions(r, *req, *rows),
{
    let n: usize = if req.limit == 0 || rows.len() <= req.limit as usize {
        rows.len()
    } else {
        req.limit as usize
    };
    let mut items: Vec<SchemaListItemWire> = Vec::new();
    for i in 0..n
        invariant
            n <= rows@.len(),
            items@.len() == i,
            forall|k: int| 0 <= k < i ==> items@[k] == list_item(rows@[k]),
    {
        let s = &rows[i];
        items.push(
            SchemaListItemWire {
                schema_version: s.version,
                uploaded_at_unix_nanos: s.uploaded_at_unix_nanos,
                validator_version: s.validator_version,
                has_source_text: s.source_text.is_some(),
            },
        );
    }
    assert(items@ =~= listed(rows@, req.limit));
    let total: u32 = length_u32(items.len());
    SchemaListResponseFrame {
        namespace: req.namespace.clone(),
        items,
        total,
        next_cursor: Vec::new(),
        is_final: true,
    }
}

// Validating.

#[derive(Debug)]
pub struct SchemaValidateResponse {
    pub namespace: String,
    pub would_be_version: u32,
    pub validation_errors: Vec<SchemaValidationErrorWire>,
}

/// A document, as far as it was read.
#[derive(Debug)]
pub enum ReadDocument {
    Unparsed(ParseError),
    Invalid { namespace: String, errors: Vec<ValidationError> },
    Valid { namespace: String },
}

/// What validating a document answers.
pub open spec fn validates(
    r: SchemaValidateResponse,
    doc: ReadDocument,
    active: Option<u32>,
) -> bool {
    match doc {
        ReadDocument::Unparsed(e) => {
            &&& r.namespace@.len() == 0
            &&& r.would_be_version == 0
            &&& r.validation_errors@.len() == 1
            &&& shows_parse_error(r.validation_errors@[0], e)
        },
        ReadDocument::Invalid { namespace, errors } => {
            &&& r.namespace == namespace
            &&& r.would_be_version == 0
            &&& shows_violations(r.validation_errors@, errors@)
        },
        ReadDocument::Valid { namespace } => {
            &&& r.namespace == namespace
            &&& r.would_be_version == next_version(active)
            &&& r.validation_errors@.len() == 0
        },
    }
}

/// Answers a validation: the errors, or the version that the document would
/// get. `active` is the active version of a valid document's namespace.
pub fn schema_validate_response(doc: ReadDocument, active: Option<u32>) -> (r:
    SchemaValidateResponse)
    ensures
        validates(r, doc, active),
{
    match doc {
        ReadDocument::Unparsed(e) => {
            let mut validation_errors: Vec<SchemaValidationErrorWire> = Vec::new();
            validation_errors.push(parse_error_to_wire(e));
            SchemaValidateResponse {
                namespace: String::new(),
                would_be_version: 0,
                validation_errors,
            }
        },
        ReadDocument::Invalid { namespace, errors } => SchemaValidateResponse {
            namespace,
            would_be_version: 0,
            validation_errors: validation_errors_to_wire(&errors),
        },
        ReadDocument::Valid { namespace } => SchemaValidateResponse {
            namespace,
            would_be_version: version_after(active),
            validation_errors: Vec::new(),
        },
    }
}

} // verus!
