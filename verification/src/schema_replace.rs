//! Replacing the declared vocabulary of a namespace.
use vstd::prelude::*;

use vstd::utf8::encode_utf8;

use crate::bytes::put_text;
use crate::error::{fails, invalid, ErrorView, OpError};
use crate::hash::{blake3_digest, blake3_hash, byte_of, flag_byte};
use crate::schema::{
    bind_namespace, check_document_cap, document_error, foreign_namespace, is_schema_write,
    schema_write, shows_violations, validation_errors_to_wire, SchemaValidationErrorWire,
    ValidationError, SEVERITY_ERROR,
};
use crate::write::{unexpected, unexpected_ack, Ack, PhaseAck, Write};

verus! {

#[derive(Debug)]
pub struct SchemaReplaceRequest {
    pub schema_document: String,
    pub force_drop_existing: bool,
    pub request_id: [u8; 16],
}

#[derive(Debug)]
pub struct SchemaReplaceResponse {
    pub namespace: String,
    pub schema_version: u32,
    pub dropped_count: u32,
    pub validation_errors: Vec<SchemaValidationErrorWire>,
}

/// Why a replacement is refused unread, if it is: it must be confirmed.
pub open spec fn replace_error(req: SchemaReplaceRequest) -> Option<ErrorView> {
    if !req.force_drop_existing {
        Some(
            ErrorView::InvalidRequest(
                "schema_replace: force_drop_existing must be true to confirm a destructive replace"@,
            ),
        )
    } else {
        document_error(req.schema_document@)
    }
}

/// What admitting a replacement comes to.
pub open spec fn admits_replace(
    r: Result<(), OpError>,
    req: SchemaReplaceRequest,
) -> bool {
    match replace_error(req) {
        Some(e) => fails(r, e),
        None => r is Ok,
    }
}

/// Admits a replacement.
pub fn admit_schema_replace(req: &SchemaReplaceRequest) -> (r: Result<(), OpError>)
    ensures
        admits_replace(r, *req),
{
    if !req.force_drop_existing {
        return Err(
            invalid(
                "schema_replace: force_drop_existing must be true to confirm a destructive replace",
            ),
        );
    }
    check_document_cap(&req.schema_document)
}

/// Whether an answer refuses a document that does not parse.
pub open spec fn refuses_unparsed_replace(
    r: SchemaReplaceResponse,
    shown: String,
) -> bool {
    &&& r.namespace@.len() == 0
    &&& r.schema_version == 0
    &&& r.dropped_count == 0
    &&& r.validation_errors@.len() == 1
    &&& ({
        let e = r.validation_errors@[0];
        e.code@ == "ParseError"@ && e.message == shown && e.line == 0 && e.column == 0
            && e.length == 0 && e.severity == SEVERITY_ERROR
    })
}

/// The answer to a document that does not parse; `shown` is the error as it
/// prints.
pub fn parse_failed_replace_response(shown: String) -> (r: SchemaReplaceResponse)
    ensures
        refuses_unparsed_replace(r, shown),
{
    let mut validation_errors: Vec<SchemaValidationErrorWire> = Vec::new();
    validation_errors.push(
        SchemaValidationErrorWire {
            code: "ParseError".to_owned(),
            message: shown,
            line: 0,
            column: 0,
            length: 0,
            severity: SEVERITY_ERROR,
        },
    );
    SchemaReplaceResponse {
        namespace: String::new(),
        schema_version: 0,
        dropped_count: 0,
        validation_errors,
    }
}

/// Whether an answer refuses a document that breaks its rules.
pub open spec fn refuses_invalid_replace(
    r: SchemaReplaceResponse,
    namespace: Seq<char>,
    errors: Vec<ValidationError>,
) -> bool {
    &&& r.namespace@ == namespace
    &&& r.schema_version == 0
    &&& r.dropped_count == 0
    &&& shows_violations(r.validation_errors@, errors@)
}

/// The answer to a document that breaks rules.
pub fn invalid_replace_response(namespace: &str, errors: &Vec<ValidationError>) -> (r:
    SchemaReplaceResponse)
    ensures
        refuses_invalid_replace(r, namespace@, *errors),
{
    SchemaReplaceResponse {
        namespace: namespace.to_owned(),
        schema_version: 0,
        dropped_count: 0,
        validation_errors: validation_errors_to_wire(errors),
    }
}

/// The digested fields of a replacement.
pub open spec fn schema_replace_fields(req: SchemaReplaceRequest) -> Seq<u8> {
    encode_utf8("schema_replace:"@) + encode_utf8(req.schema_document@) + seq![0u8] + seq![
        flag_byte(req.force_drop_existing),
    ]
}

pub fn hash_schema_replace_request(req: &SchemaReplaceRequest) -> (r: [u8; 32])
    ensures
        r@ == blake3_digest(schema_replace_fields(*req)),
{
    let mut h: Vec<u8> = Vec::new();
    put_text(&mut h, "schema_replace:");
    put_text(&mut h, &req.schema_document);
    h.push(0);
    h.push(byte_of(req.force_drop_existing));
    assert(h@ =~= schema_replace_fields(*req));
    blake3_hash(h.as_slice())
}

/// What planning a replacement comes to.
pub open spec fn plans_replace(
    r: Result<Write, OpError>,
    req: SchemaReplaceRequest,
    namespace: Seq<char>,
    caller_name: Seq<char>,
    space_id: [u8; 16],
    active: Option<u32>,
    now: u64,
) -> bool {
    &&& (namespace != caller_name ==> fails(
        r,
        foreign_namespace(
            "schema_replace: caller in namespace "@,
            caller_name,
            " cannot replace schema for namespace "@,
            namespace,
        ),
    ))
    &&& (namespace == caller_name ==> (r matches Ok(w) && is_schema_write(
        w,
        req.request_id,
        space_id,
        schema_replace_fields(req),
        namespace,
        req.schema_document@,
        active,
        now,
        true,
    )))
}

/// Plans the replacement by a valid document of the caller's own namespace:
/// everything declared is dropped and the document stored, in one write.
pub fn plan_schema_replace(
    req: &SchemaReplaceRequest,
    namespace: &str,
    caller_name: &str,
    space_id: [u8; 16],
    active: Option<u32>,
    now: u64,
) -> (r: Result<Write, OpError>)
    ensures
        plans_replace(r, *req, namespace@, caller_name@, space_id, active, now),
{
    match bind_namespace(
        "schema_replace: caller in namespace ",
        " cannot replace schema for namespace ",
        caller_name,
        namespace,
    ) {
        Ok(()) => {},
        Err(e) => {
            return Err(e);
        },
    }
    let hash = hash_schema_replace_request(req);
    Ok(
        schema_write(
            req.request_id,
            space_id,
            hash,
            namespace,
            &req.schema_document,
            active,
            now,
            true,
        ),
    )
}

/// What a stored replacement is answered.
pub open spec fn answers_replace(
    r: Result<SchemaReplaceResponse, OpError>,
    namespace: Seq<char>,
    ack: Ack,
) -> bool {
    match ack.phase {
        PhaseAck::UpsertedSchema { version, dropped } => r matches Ok(out) && {
            &&& out.namespace@ == namespace
            &&& out.schema_version == version
            &&& out.dropped_count == dropped
            &&& out.validation_errors@.len() == 0
        },
        _ => fails(
            r,
            unexpected_ack("submit(UpsertSchema) returned unexpected PhaseAck: "@, ack.shown@),
        ),
    }
}

/// Answers a replacement with the stored version and how much was dropped.
pub fn finish_schema_replace(namespace: &str, ack: &Ack) -> (r: Result<
    SchemaReplaceResponse,
    OpError,
>)
    ensures
        answers_replace(r, namespace@, *ack),
{
    match &ack.phase {
        PhaseAck::UpsertedSchema { version, dropped } => Ok(
            SchemaReplaceResponse {
                namespace: namespace.to_owned(),
                schema_version: *version,
                dropped_count: *dropped,
                validation_errors: Vec::new(),
            },
        ),
        _ => Err(unexpected("submit(UpsertSchema) returned unexpected PhaseAck: ", &ack.shown)),
    }
}

/// A replacement that is not confirmed is refused, whatever the document.
pub proof fn replacing_needs_confirmation(req: SchemaReplaceRequest)
    requires
        !req.force_drop_existing,
    ensures
        replace_error(req) is Some,
{
}

} // verus!
