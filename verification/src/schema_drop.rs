//! Dropping one declared predicate or relation type from a schema.
use vstd::prelude::*;

use vstd::utf8::encode_utf8;

use crate::bytes::{copy_bytes, eq_bytes, length_u32, low32, put_text};
use crate::error::{fails, internal, invalid, ErrorView, OpError};
use crate::hash::{blake3_digest, blake3_hash, byte_of, flag_byte};
use crate::schema::{bind_namespace, foreign_namespace, SchemaValidationErrorWire};
use crate::text::{decimal, join2, join3, push_decimal, quoted, quoted_text, same_text};

verus! {

/// The target kinds of a drop.
pub const DROP_PREDICATE: u8 = 0;

pub const DROP_RELATION_TYPE: u8 = 1;

/// How many live rows are looked for: one is enough to know that there are
/// any.
pub const LIVE_ROW_SCAN_CAP: usize = 1;

#[derive(Debug)]
pub struct SchemaDropRequest {
    pub namespace: String,
    pub target_kind: u8,
    pub target_name: String,
    pub force: bool,
    pub request_id: [u8; 16],
}

#[derive(Debug)]
pub struct SchemaDropResponse {
    pub namespace: String,
    pub schema_version: u32,
    pub target_kind: u8,
    pub target_name: String,
    pub dropped: bool,
    pub live_rows: u32,
    pub validation_errors: Vec<SchemaValidationErrorWire>,
}

/// Why a drop is refused at once, if it is. Entity types are shared between
/// namespaces and cannot be dropped.
pub open spec fn drop_error(req: SchemaDropRequest, caller_name: Seq<char>) -> Option<ErrorView> {
    if target_error(req) is Some {
        target_error(req)
    } else if req.namespace@ != caller_name {
        Some(
            foreign_namespace(
                "schema_drop: caller in namespace "@,
                caller_name,
                " cannot drop from namespace "@,
                req.namespace@,
            ),
        )
    } else {
        None
    }
}

/// Why the target of a drop is refused, whoever asks, if it is.
pub open spec fn target_error(req: SchemaDropRequest) -> Option<ErrorView> {
    if req.target_kind != DROP_PREDICATE && req.target_kind != DROP_RELATION_TYPE {
        Some(
            ErrorView::InvalidRequest(
                "schema_drop: unsupported target_kind "@ + decimal(req.target_kind as nat)
                    + " (0 = predicate, 1 = relation_type; entity types are global in v1 and cannot be dropped)"@,
            ),
        )
    } else if req.target_name@.len() == 0 {
        Some(ErrorView::InvalidRequest("schema_drop: target_name must be non-empty"@))
    } else {
        None
    }
}

/// What checking the target of a drop comes to.
pub open spec fn checks_target(
    r: Result<(), OpError>,
    req: SchemaDropRequest,
) -> bool {
    match target_error(req) {
        Some(e) => fails(r, e),
        None => r is Ok,
    }
}

/// Checks the target of a drop, before anything is read.
pub fn check_drop_target(req: &SchemaDropRequest) -> (r: Result<(), OpError>)
    ensures
        checks_target(r, *req),
{
    if req.target_kind != DROP_PREDICATE && req.target_kind != DROP_RELATION_TYPE {
        let mut message = "schema_drop: unsupported target_kind ".to_owned();
        push_decimal(&mut message, req.target_kind as u64);
        message.push_str(
            " (0 = predicate, 1 = relation_type; entity types are global in v1 and cannot be dropped)",
        );
        return Err(OpError::InvalidRequest(message));
    }
    if req.target_name.as_str().is_empty() {
        return Err(invalid("schema_drop: target_name must be non-empty"));
    }
    Ok(())
}

/// What admitting a drop comes to.
pub open spec fn admits_drop(
    r: Result<(), OpError>,
    req: SchemaDropRequest,
    caller_name: Seq<char>,
) -> bool {
    match drop_error(req, caller_name) {
        Some(e) => fails(r, e),
        None => r is Ok,
    }
}

/// Admits a drop.
pub fn admit_schema_drop(req: &SchemaDropRequest, caller_name: &str) -> (r: Result<(), OpError>)
    ensures
        admits_drop(r, *req, caller_name@),
{
    match check_drop_target(req) {
        Ok(()) => {},
        Err(e) => {
            return Err(e);
        },
    }
    bind_namespace(
        "schema_drop: caller in namespace ",
        " cannot drop from namespace ",
        caller_name,
        &req.namespace,
    )
}

/// The digested fields of a drop.
pub open spec fn schema_drop_fields(req: SchemaDropRequest) -> Seq<u8> {
    encode_utf8("schema_drop:"@) + encode_utf8(req.namespace@) + seq![0u8] + seq![req.target_kind]
        + seq![0u8] + encode_utf8(req.target_name@) + seq![0u8] + seq![flag_byte(req.force)]
}

pub fn hash_schema_drop_request(req: &SchemaDropRequest) -> (r: [u8; 32])
    ensures
        r@ == blake3_digest(schema_drop_fields(*req)),
{
    let mut h: Vec<u8> = Vec::new();
    put_text(&mut h, "schema_drop:");
    put_text(&mut h, &req.namespace);
    h.push(0);
    h.push(req.target_kind);
    h.push(0);
    put_text(&mut h, &req.target_name);
    h.push(0);
    h.push(byte_of(req.force));
    assert(h@ =~= schema_drop_fields(*req));
    blake3_hash(h.as_slice())
}

// Replays.

/// What is remembered of an earlier request with the same id. `expired` tells
/// whether it is past its time to live.
#[derive(Debug)]
pub struct IdempotencyEntry {
    pub expired: bool,
    pub request_hash: [u8; 32],
    pub response_payload: Vec<u8>,
    pub created_at_unix_nanos: u64,
}

/// Whether an entry still counts.
pub open spec fn remembered(entry: Option<IdempotencyEntry>) -> bool {
    entry matches Some(e) && !e.expired
}

/// The error for a request id that another request used.
pub open spec fn other_request(req: SchemaDropRequest) -> ErrorView {
    ErrorView::Conflict(
        "schema_drop: request_id replay with different params (namespace "@ + quoted_text(
            req.namespace@,
        ) + ")"@,
    )
}

/// What is remembered of a drop.
pub open spec fn replays_drop(
    r: Result<Option<Vec<u8>>, OpError>,
    req: SchemaDropRequest,
    entry: Option<IdempotencyEntry>,
    request_hash: [u8; 32],
) -> bool {
    &&& (!remembered(entry) ==> r == Ok::<Option<Vec<u8>>, OpError>(None))
    &&& (remembered(entry) && entry->0.request_hash@ == request_hash@ ==> (r matches Ok(Some(p))
        && p@ == entry->0.response_payload@))
    &&& (remembered(entry) && entry->0.request_hash@ != request_hash@ ==> fails(
        r,
        other_request(req),
    ))
}

/// Checks a request against what is remembered: nothing to replay, the
/// remembered answer for the same request, or an error for another one.
pub fn replay_schema_drop(
    req: &SchemaDropRequest,
    entry: &Option<IdempotencyEntry>,
    request_hash: &[u8; 32],
) -> (r: Result<Option<Vec<u8>>, OpError>)
    ensures
        replays_drop(r, *req, *entry, *request_hash),
{
    match entry {
        Some(e) => {
            if e.expired {
                return Ok(None);
            }
            if !eq_bytes(e.request_hash.as_slice(), request_hash.as_slice()) {
                let name = quoted(&req.namespace);
                return Err(
                    OpError::Conflict(
                        join3(
                            "schema_drop: request_id replay with different params (namespace ",
                            &name,
                            ")",
                        ),
                    ),
                );
            }
            Ok(Some(copy_bytes(e.response_payload.as_slice())))
        },
        None => Ok(None),
    }
}

/// Whether an entry remembers an answer.
pub open spec fn remembers_drop(
    r: IdempotencyEntry,
    request_hash: [u8; 32],
    response_payload: Vec<u8>,
    now: u64,
) -> bool {
    r == (IdempotencyEntry {
        expired: false,
        request_hash,
        response_payload,
        created_at_unix_nanos: now,
    })
}

/// What to remember of a drop once it is done.
pub fn idempotency_entry(request_hash: [u8; 32], response_payload: Vec<u8>, now: u64) -> (r:
    IdempotencyEntry)
    ensures
        remembers_drop(r, request_hash, response_payload, now),
{
    IdempotencyEntry { expired: false, request_hash, response_payload, created_at_unix_nanos: now }
}

// The document.

#[derive(Clone, Copy, Debug, PartialEq, Eq, Structural)]
pub enum ItemKind {
    EntityType,
    Predicate,
    RelationType,
    Extractor,
    Kind,
}

/// A declaration of a stored document; `body` is the rest of it, as stored.
#[derive(Debug)]
pub struct DocumentItem {
    pub kind: ItemKind,
    pub name: String,
    pub body: Vec<u8>,
}

/// A stored document.
#[derive(Debug)]
pub struct SchemaDocument {
    pub namespace: String,
    pub items: Vec<DocumentItem>,
    pub source: Option<String>,
}

/// Whether a declaration is the one to drop.
pub open spec fn is_target(item: DocumentItem, kind: u8, name: Seq<char>) -> bool {
    &&& item.name@ == name
    &&& (kind == DROP_PREDICATE && item.kind == ItemKind::Predicate) || (kind == DROP_RELATION_TYPE
        && item.kind == ItemKind::RelationType)
}

/// Whether an index is that of the target.
pub open spec fn locates_target(
    r: Option<usize>,
    req: SchemaDropRequest,
    items: Vec<DocumentItem>,
) -> bool {
    match r {
        Some(i) => {
            &&& i < items@.len()
            &&& is_target(items@[i as int], req.target_kind, req.target_name@)
            &&& forall|k: int|
                0 <= k < i ==> !is_target(
                    #[trigger] items@[k],
                    req.target_kind,
                    req.target_name@,
                )
        },
        None => forall|k: int|
            0 <= k < items@.len() ==> !is_target(
                #[trigger] items@[k],
                req.target_kind,
                req.target_name@,
            ),
    }
}

/// Finds the declaration to drop: the first of its kind with that name.
pub fn locate_drop_target(req: &SchemaDropRequest, items: &Vec<DocumentItem>) -> (r: Option<usize>)
    ensures
        locates_target(r, *req, *items),
{
    for i in 0..items.len()
        invariant
            forall|k: int|
                0 <= k < i ==> !is_target(
                    #[trigger] items@[k],
                    req.target_kind,
                    req.target_name@,
                ),
    {
        let item = &items[i];
        let kind_fits = match item.kind {
            ItemKind::Predicate => req.target_kind == DROP_PREDICATE,
            ItemKind::RelationType => req.target_kind == DROP_RELATION_TYPE,
            _ => false,
        };
        if kind_fits && same_text(&item.name, &req.target_name) {
            return Some(i);
        }
    }
    None
}

/// Whether an answer says that there was nothing to do.
pub open spec fn says_not_declared(r: SchemaDropResponse, req: SchemaDropRequest, version: u32) -> bool {
    &&& r.namespace == req.namespace
    &&& r.schema_version == version
    &&& r.target_kind == req.target_kind
    &&& r.target_name == req.target_name
    &&& !r.dropped
    &&& r.live_rows == 0
    &&& r.validation_errors@.len() == 0
}

/// The answer to a drop of something that is not declared: nothing to do.
pub fn not_declared_response(req: &SchemaDropRequest, current_version: u32) -> (r:
    SchemaDropResponse)
    ensures
        says_not_declared(r, *req, current_version),
{
    SchemaDropResponse {
        namespace: req.namespace.clone(),
        schema_version: current_version,
        target_kind: req.target_kind,
        target_name: req.target_name.clone(),
        dropped: false,
        live_rows: 0,
        validation_errors: Vec::new(),
    }
}

/// The name of a target kind.
pub open spec fn target_label(kind: u8) -> Seq<char> {
    if kind == DROP_PREDICATE {
        "predicate"@
    } else if kind == DROP_RELATION_TYPE {
        "relation_type"@
    } else {
        "type"@
    }
}

pub fn target_kind_label(kind: u8) -> (r: &'static str)
    ensures
        r@ == target_label(kind),
{
    if kind == DROP_PREDICATE {
        "predicate"
    } else if kind == DROP_RELATION_TYPE {
        "relation_type"
    } else {
        "type"
    }
}

/// The error for a type that is still in use.
pub open spec fn in_use(req: SchemaDropRequest) -> ErrorView {
    ErrorView::Conflict(
        "schema_drop: "@ + target_label(req.target_kind) + " "@ + quoted_text(req.target_name@)
            + " still has live rows in namespace "@ + quoted_text(req.namespace@)
            + "; set force to drop it and leave those rows as orphans"@,
    )
}

/// What the live rows of a target let a drop do.
pub open spec fn gates_drop(
    r: Result<(), OpError>,
    req: SchemaDropRequest,
    live_rows: usize,
) -> bool {
    &&& (live_rows > 0 && !req.force ==> fails(r, in_use(req)))
    &&& (!(live_rows > 0 && !req.force) ==> r is Ok)
}

/// The safety gate: a type with live rows is dropped only by force.
pub fn gate_schema_drop(req: &SchemaDropRequest, live_rows: usize) -> (r: Result<(), OpError>)
    ensures
        gates_drop(r, *req, live_rows),
{
    if live_rows > 0 && !req.force {
        let name = quoted(&req.target_name);
        let namespace = quoted(&req.namespace);
        let mut message = join2("schema_drop: ", target_kind_label(req.target_kind));
        message.push_str(" ");
        message.push_str(&name);
        message.push_str(" still has live rows in namespace ");
        message.push_str(&namespace);
        message.push_str("; set force to drop it and leave those rows as orphans");
        return Err(OpError::Conflict(message));
    }
    Ok(())
}

/// Whether a document is another without one item.
pub open spec fn narrows(
    r: SchemaDocument,
    doc: SchemaDocument,
    at: usize,
) -> bool {
    &&& r.namespace == doc.namespace
    &&& r.items@ == doc.items@.remove(at as int)
    &&& r.source is None
}

/// Takes one declaration out of a document. Its source text goes too, because
/// it would still mention what was dropped.
pub fn narrow_document(doc: SchemaDocument, at: usize) -> (r: SchemaDocument)
    requires
        at < doc.items@.len(),
    ensures
        narrows(r, doc, at),
{
    let mut items = doc.items;
    items.remove(at);
    SchemaDocument { namespace: doc.namespace, items, source: None }
}

/// What to do with an admitted drop.
#[derive(Debug)]
pub enum DropStep {
    Answer(SchemaDropResponse),
    /// Drop the stored row and store the narrowed document.
    Narrow(SchemaDocument),
}

/// What a drop comes to once everything was read.
pub open spec fn decides_drop(
    r: Result<DropStep, OpError>,
    req: SchemaDropRequest,
    active: Option<(u32, SchemaDocument)>,
    live_rows: usize,
) -> bool {
    match active {
        None => r matches Ok(DropStep::Answer(a)) && says_not_declared(a, req, 0),
        Some((version, doc)) => if !declares(doc, req) {
            r matches Ok(DropStep::Answer(a)) && says_not_declared(a, req, version)
        } else if live_rows > 0 && !req.force {
            fails(r, in_use(req))
        } else {
            r matches Ok(DropStep::Narrow(n)) && is_narrowed(n, doc, req)
        },
    }
}

/// Decides a drop from the active version and its document: without either
/// there is nothing to drop. `live_rows` counts the rows of the target.
pub fn decide_schema_drop(
    req: &SchemaDropRequest,
    active: Option<(u32, SchemaDocument)>,
    live_rows: usize,
) -> (r: Result<DropStep, OpError>)
    ensures
        decides_drop(r, *req, active, live_rows),
{
    let (version, doc) = match active {
        Some(p) => p,
        None => {
            return Ok(DropStep::Answer(not_declared_response(req, 0)));
        },
    };
    let at: usize = match locate_drop_target(req, &doc.items) {
        Some(i) => i,
        None => {
            return Ok(DropStep::Answer(not_declared_response(req, version)));
        },
    };
    match gate_schema_drop(req, live_rows) {
        Ok(()) => {},
        Err(e) => {
            return Err(e);
        },
    }
    assert(is_target(doc.items@[at as int], req.target_kind, req.target_name@));
    Ok(DropStep::Narrow(narrow_document(doc, at)))
}

/// The error for a narrowed document that breaks rules.
pub open spec fn breaks_rules(errors: usize) -> ErrorView {
    ErrorView::Internal(
        "schema_drop: narrowed document failed re-validation: "@ + decimal(errors as nat)
            + " error(s)"@,
    )
}

/// The error for a narrowed document that breaks rules.
pub fn narrowing_failed(errors: usize) -> (r: OpError)
    ensures
        r@ == breaks_rules(errors),
{
    let mut message = "schema_drop: narrowed document failed re-validation: ".to_owned();
    push_decimal(&mut message, errors as u64);
    message.push_str(" error(s)");
    OpError::Internal(message)
}

/// The answer to a drop that narrowed the schema.
pub fn schema_drop_response(
    req: &SchemaDropRequest,
    new_version: u32,
    removed: bool,
    live_rows: usize,
) -> (r: SchemaDropResponse)
    ensures
        says_dropped(r, *req, new_version, removed, live_rows),
{
    SchemaDropResponse {
        namespace: req.namespace.clone(),
        schema_version: new_version,
        target_kind: req.target_kind,
        target_name: req.target_name.clone(),
        dropped: removed,
        live_rows: length_u32(live_rows),
        validation_errors: Vec::new(),
    }
}

// The steps of a drop.

/// What a drop needs next.
#[derive(Debug)]
pub enum DropNeed {
    /// What is remembered of the request id.
    Remembered,
    /// The active version and its document.
    Document,
    /// How many live rows the target has.
    LiveRows,
    /// Whether the narrowed document passes its rules.
    Validation,
    /// The target dropped and the narrowed document stored, all or nothing.
    Commit(SchemaDocument),
    /// Nothing: the stored answer of the same request.
    Replay(Vec<u8>),
    /// Nothing: the answer.
    Answer(Result<SchemaDropResponse, OpError>),
}

/// What came back.
#[derive(Debug)]
pub enum DropRead {
    Remembered(Option<IdempotencyEntry>),
    Document(Option<(u32, SchemaDocument)>),
    LiveRows(usize),
    /// Where it fails, with how many errors.
    Validation(Result<(), usize>),
    Committed { version: u32, removed: bool },
}

/// What a drop holds between two steps: the active version and its document
/// until the target is known, then the narrowed document.
#[derive(Debug)]
pub struct DropRun {
    pub active: Option<(u32, SchemaDocument)>,
    pub narrowed: Option<SchemaDocument>,
    pub live_rows: usize,
}

impl DropRun {
    pub fn new() -> (r: DropRun)
        ensures
            r == (DropRun { active: None, narrowed: None, live_rows: 0 }),
    {
        DropRun { active: None, narrowed: None, live_rows: 0 }
    }
}

/// Whether a document declares the target of a drop.
pub open spec fn declares(doc: SchemaDocument, req: SchemaDropRequest) -> bool {
    exists|k: int|
        0 <= k < doc.items@.len() && is_target(
            #[trigger] doc.items@[k],
            req.target_kind,
            req.target_name@,
        )
}

/// Whether a document is another one without the first declaration of the
/// target, and without source text.
pub open spec fn is_narrowed(n: SchemaDocument, doc: SchemaDocument, req: SchemaDropRequest) -> bool {
    &&& n.namespace == doc.namespace
    &&& n.source is None
    &&& exists|at: int|
        #![trigger doc.items@[at]]
        0 <= at < doc.items@.len() && is_target(doc.items@[at], req.target_kind, req.target_name@)
            && n.items@ == doc.items@.remove(at) && forall|k: int|
            0 <= k < at ==> !is_target(#[trigger] doc.items@[k], req.target_kind, req.target_name@)
}

/// Whether an answer says what a narrowing did.
pub open spec fn says_dropped(
    r: SchemaDropResponse,
    req: SchemaDropRequest,
    version: u32,
    removed: bool,
    live_rows: usize,
) -> bool {
    &&& r.namespace == req.namespace
    &&& r.schema_version == version
    &&& r.target_kind == req.target_kind
    &&& r.target_name == req.target_name
    &&& r.dropped == removed
    &&& r.live_rows == low32(live_rows as nat)
    &&& r.validation_errors@.len() == 0
}

/// What a drop needs after something came back. A remembered request is
/// replayed before anything is read; live rows are counted only for a declared
/// target; nothing is committed before the narrowed document passes.
pub open spec fn drop_follows(
    req: SchemaDropRequest,
    before: DropRun,
    read: DropRead,
    after: DropRun,
    need: DropNeed,
) -> bool {
    match read {
        DropRead::Remembered(entry) => {
            &&& after == before
            &&& if !remembered(entry) {
                need == DropNeed::Document
            } else if entry->0.request_hash@ == blake3_digest(schema_drop_fields(req)) {
                need matches DropNeed::Replay(p) && p@ == entry->0.response_payload@
            } else {
                need matches DropNeed::Answer(r) && fails(r, other_request(req))
            }
        },
        DropRead::Document(active) => match active {
            None => after == before && (need matches DropNeed::Answer(Ok(a))
                && says_not_declared(a, req, 0)),
            Some((version, doc)) => if declares(doc, req) {
                &&& need == DropNeed::LiveRows
                &&& after == DropRun { active, ..before }
            } else {
                after == before && (need matches DropNeed::Answer(Ok(a)) && says_not_declared(
                    a,
                    req,
                    version,
                ))
            },
        },
        DropRead::LiveRows(n) => match before.active {
            Some((version, doc)) if declares(doc, req) => {
                &&& after.active is None
                &&& after.live_rows == n
                &&& if n > 0 && !req.force {
                    after.narrowed is None && (need matches DropNeed::Answer(r) && fails(
                        r,
                        in_use(req),
                    ))
                } else {
                    need == DropNeed::Validation && (after.narrowed matches Some(d) && is_narrowed(
                        d,
                        doc,
                        req,
                    ))
                }
            },
            Some((version, _)) => after == (DropRun { active: None, narrowed: None, live_rows: n })
                && (need matches DropNeed::Answer(Ok(a)) && says_not_declared(a, req, version)),
            None => after == (DropRun { active: None, narrowed: None, live_rows: n }) && (
            need matches DropNeed::Answer(Ok(a)) && says_not_declared(a, req, 0)),
        },
        DropRead::Validation(Ok(())) => match before.narrowed {
            Some(doc) => need == DropNeed::Commit(doc) && after == (DropRun {
                narrowed: None,
                ..before
            }),
            None => after == before && (need matches DropNeed::Answer(r) && fails(
                r,
                ErrorView::Internal("schema_drop: no narrowed document"@),
            )),
        },
        DropRead::Validation(Err(errors)) => after == before && (need matches DropNeed::Answer(r)
            && fails(r, breaks_rules(errors))),
        DropRead::Committed { version, removed } => after == before && (
        need matches DropNeed::Answer(Ok(a)) && says_dropped(
            a,
            req,
            version,
            removed,
            before.live_rows,
        )),
    }
}

/// What a drop asks for first.
pub open spec fn starts_drop(
    r: Result<DropNeed, OpError>,
    req: SchemaDropRequest,
    caller_name: Seq<char>,
) -> bool {
    match drop_error(req, caller_name) {
        Some(e) => fails(r, e),
        None => r == Ok::<DropNeed, OpError>(DropNeed::Remembered),
    }
}

/// The first need of a drop, or why it is refused.
pub fn drop_start(req: &SchemaDropRequest, caller_name: &str) -> (r: Result<DropNeed, OpError>)
    ensures
        starts_drop(r, *req, caller_name@),
{
    match admit_schema_drop(req, caller_name) {
        Ok(()) => Ok(DropNeed::Remembered),
        Err(e) => Err(e),
    }
}

/// The next need of a drop.
pub fn drop_next(req: &SchemaDropRequest, run: &mut DropRun, read: DropRead) -> (r: DropNeed)
    ensures
        drop_follows(*req, *old(run), read, *final(run), r),
{
    match read {
        DropRead::Remembered(entry) => {
            let hash = hash_schema_drop_request(req);
            match replay_schema_drop(req, &entry, &hash) {
                Ok(None) => DropNeed::Document,
                Ok(Some(payload)) => DropNeed::Replay(payload),
                Err(e) => DropNeed::Answer(Err(e)),
            }
        },
        DropRead::Document(active) => match active {
            None => DropNeed::Answer(Ok(not_declared_response(req, 0))),
            Some((version, doc)) => match locate_drop_target(req, &doc.items) {
                None => DropNeed::Answer(Ok(not_declared_response(req, version))),
                Some(i) => {
                    assert(is_target(doc.items@[i as int], req.target_kind, req.target_name@));
                    run.active = Some((version, doc));
                    DropNeed::LiveRows
                },
            },
        },
        DropRead::LiveRows(n) => {
            let active = run.active.take();
            run.live_rows = n;
            run.narrowed = None;
            match decide_schema_drop(req, active, n) {
                Ok(DropStep::Narrow(doc)) => {
                    run.narrowed = Some(doc);
                    DropNeed::Validation
                },
                Ok(DropStep::Answer(a)) => DropNeed::Answer(Ok(a)),
                Err(e) => DropNeed::Answer(Err(e)),
            }
        },
        DropRead::Validation(Ok(())) => match run.narrowed.take() {
            Some(doc) => DropNeed::Commit(doc),
            None => DropNeed::Answer(Err(internal("schema_drop: no narrowed document"))),
        },
        DropRead::Validation(Err(errors)) => DropNeed::Answer(Err(narrowing_failed(errors))),
        DropRead::Committed { version, removed } => DropNeed::Answer(
            Ok(schema_drop_response(req, version, removed, run.live_rows)),
        ),
    }
}

/// A drop that the same request made before is replayed: its stored answer
/// comes back, and nothing is read or committed.
pub proof fn drops_are_replayed(
    first: SchemaDropRequest,
    again: SchemaDropRequest,
    entry: IdempotencyEntry,
    run: DropRun,
    after: DropRun,
    need: DropNeed,
)
    requires
        first.namespace@ == again.namespace@,
        first.target_kind == again.target_kind,
        first.target_name@ == again.target_name@,
        first.force == again.force,
        entry.request_hash@ == blake3_digest(schema_drop_fields(first)),
        !entry.expired,
        drop_follows(again, run, DropRead::Remembered(Some(entry)), after, need),
    ensures
        need matches DropNeed::Replay(p) && p@ == entry.response_payload@,
        after == run,
{
}

/// Nothing is committed but a document that passed its rules.
pub proof fn only_valid_documents_are_committed(
    req: SchemaDropRequest,
    before: DropRun,
    read: DropRead,
    after: DropRun,
    need: DropNeed,
)
    requires
        drop_follows(req, before, read, after, need),
        need is Commit,
    ensures
        read matches DropRead::Validation(Ok(_)),
        before.narrowed == Some(need->Commit_0),
{
}

/// A narrowed document keeps every other declaration, in order, and, where the
/// target was declared once, no longer declares it: dropping it again finds
/// nothing to do.
pub proof fn narrowing_is_surgical(
    items: Seq<DocumentItem>,
    at: int,
    kind: u8,
    name: Seq<char>,
)
    requires
        0 <= at < items.len(),
        is_target(items[at], kind, name),
        forall|k: int| 0 <= k < items.len() && k != at ==> !is_target(#[trigger] items[k], kind, name),
    ensures
        items.remove(at).len() == items.len() - 1,
        forall|k: int| 0 <= k < at ==> items.remove(at)[k] == #[trigger] items[k],
        forall|k: int| at < k < items.len() ==> items.remove(at)[k - 1] == #[trigger] items[k],
        forall|k: int|
            0 <= k < items.len() - 1 ==> !is_target(#[trigger] items.remove(at)[k], kind, name),
{
    assert forall|k: int| 0 <= k < items.len() - 1 implies !is_target(
        #[trigger] items.remove(at)[k],
        kind,
        name,
    ) by {
        if k < at {
            assert(items.remove(at)[k] == items[k]);
        } else {
            assert(items.remove(at)[k] == items[k + 1]);
        }
    }
}

} // verus!
