//! What uploading, reading, replacing and narrowing a schema comes to.
use vstd::prelude::*;

use vstd::utf8::encode_utf8;

use crate::error::OpError;
use crate::events::SchemaUpdatedEvent;
use crate::schema::{
    admits_document, admits_schema_list, answers_upload, binds_namespace, maps_store_error,
    names_namespace, picks_version, refuses_invalid, refuses_unparsed, shows_parse_error, shows_schema,
    shows_versions, shows_violation, shows_violations, uploads, validates,
    ParseError, ReadDocument, SchemaGetRequest, SchemaGetResponse, SchemaListRequest,
    SchemaListResponseFrame, SchemaRow, SchemaStoreError, SchemaUploadRequest, SchemaUploadResponse,
    SchemaValidateResponse, SchemaValidationErrorWire, UploadStep, ValidationError,
};
use crate::schema_drop::{
    admits_drop, checks_target, decides_drop, drop_follows, gates_drop, is_target, locates_target,
    narrows, remembers_drop, replays_drop, starts_drop, DocumentItem, DropNeed, DropRead, DropRun,
    DropStep, IdempotencyEntry, SchemaDocument, SchemaDropRequest,
};
use crate::schema_merge::{
    classifies_merge, declared_cardinality, declared_kind, first_conflict, item_conflict,
    nothing_new, predicate_differences, relation_differences, CardinalityAst, DeclaredItem,
    MergeSummary, StatementKindAst,
};
use crate::schema_replace::{
    admits_replace, answers_replace, plans_replace, refuses_invalid_replace,
    refuses_unparsed_replace, SchemaReplaceRequest, SchemaReplaceResponse,
};
use crate::statement::StatementKind;
use crate::write::{Ack, Phase, PhaseAck, Write, WriteId};

verus! {

// Documents.

/// A document is admitted if it is not empty and has at most a mebibyte.
pub proof fn documents_are_bounded(r: Result<(), OpError>, doc: Seq<char>)
    requires
        admits_document(r, doc),
    ensures
        r is Ok <==> doc.len() > 0 && encode_utf8(doc).len() <= 1024 * 1024,
        r matches Err(e) ==> e is InvalidRequest,
{
}

/// Where a document breaks its rules the caller sees each violation, in order,
/// with its code, message and place.
pub proof fn violations_are_shown(
    w: Seq<SchemaValidationErrorWire>,
    errors: Seq<ValidationError>,
    i: int,
)
    requires
        shows_violations(w, errors),
        0 <= i < errors.len(),
    ensures
        w.len() == errors.len(),
        w[i].code@ == errors[i].code@ && w[i].message@ == errors[i].message@ && w[i].severity == 2,
        errors[i].source_span matches Some(s) ==> (w[i].line, w[i].column, w[i].length) == (
            s.line,
            s.column,
            s.length,
        ),
        errors[i].source_span is None ==> (w[i].line, w[i].column, w[i].length) == (0u32, 0u32, 0u32),
{
    assert(shows_violation(w[i], errors[i]));
}

/// Where a document does not parse the caller sees where, and why.
pub proof fn parse_errors_are_shown(w: SchemaValidationErrorWire, e: ParseError)
    requires
        shows_parse_error(w, e),
    ensures
        e matches ParseError::Syntax { line, col, message } ==> w.code@ == "Syntax"@ && w.message@
            == message@ && (line <= u32::MAX ==> w.line == line) && (col <= u32::MAX ==> w.column
            == col),
        e matches ParseError::InvalidNumber { line, col, message } ==> w.code@ == "InvalidNumber"@
            && w.message@ == message@ && (line <= u32::MAX ==> w.line == line) && (col <= u32::MAX
            ==> w.column == col),
        e matches ParseError::InvalidJson { line, col, message } ==> w.code@ == "InvalidJson"@
            && w.message@ == message@ && (line <= u32::MAX ==> w.line == line) && (col <= u32::MAX
            ==> w.column == col),
        e matches ParseError::InvalidDuration { line, col, message } ==> w.code@
            == "InvalidDuration"@ && w.message@ == message@ && (line <= u32::MAX ==> w.line == line)
            && (col <= u32::MAX ==> w.column == col),
        e matches ParseError::InvalidCost { line, col, message } ==> w.code@ == "InvalidCost"@
            && w.message@ == message@ && (line <= u32::MAX ==> w.line == line) && (col <= u32::MAX
            ==> w.column == col),
        e matches ParseError::MissingField { line, col, message } ==> w.code@ == "MissingField"@
            && w.message@ == message@ && (line <= u32::MAX ==> w.line == line) && (col <= u32::MAX
            ==> w.column == col),
        w.severity == 2 && w.length == 0,
{
}

/// A document that does not parse, or breaks its rules, stores nothing: it is
/// answered with version 0 and its errors.
pub proof fn bad_documents_store_nothing(
    unparsed: SchemaUploadResponse,
    e: ParseError,
    invalid: SchemaUploadResponse,
    namespace: Seq<char>,
    errors: Vec<ValidationError>,
)
    requires
        refuses_unparsed(unparsed, e),
        refuses_invalid(invalid, namespace, errors),
    ensures
        unparsed.schema_version == 0 && unparsed.namespace@.len() == 0
            && unparsed.validation_errors@.len() == 1 && shows_parse_error(
            unparsed.validation_errors@[0],
            e,
        ) && unparsed.backward_compatible && unparsed.migration_summary_blob@.len() == 0,
        invalid.schema_version == 0 && invalid.namespace@ == namespace && shows_violations(
            invalid.validation_errors@,
            errors@,
        ),
{
}

// Merging.

/// Whether what a document declares is stored already.
pub open spec fn is_stored(item: DeclaredItem) -> bool {
    match item {
        DeclaredItem::EntityType { name: _, stored_blob } => stored_blob is Some,
        DeclaredItem::Predicate { decl: _, row } => row is Some,
        DeclaredItem::RelationType { decl: _, row } => row is Some,
        DeclaredItem::Extractor { name: _, kind: _, stored_kind } => stored_kind is Some,
        DeclaredItem::Kind { name: _, declared: _, stored } => stored is Some,
    }
}

/// Whether a description, absent or not, is a text.
pub open spec fn says(d: Option<String>, text: Seq<char>) -> bool {
    match d {
        Some(s) => s@ == text,
        None => text.len() == 0,
    }
}

/// Whether what is stored is not what the document declares.
pub open spec fn clashes(item: DeclaredItem) -> bool {
    match item {
        DeclaredItem::EntityType { name: _, stored_blob } => stored_blob matches Some(b)
            && b@.len() > 0,
        DeclaredItem::Predicate { decl, row } => row matches Some(p) && (p.kind_constraint
            != declared_kind(decl.kind) || p.object_type != decl.object_type
            || p.object_entity_type != decl.object_entity_type || !says(
            decl.description,
            p.description@,
        ) || p.stateful != decl.stateful),
        DeclaredItem::RelationType { decl, row } => row matches Some(q) && (q.cardinality
            != declared_cardinality(decl.cardinality) || q.symmetric != decl.symmetric || !says(
            decl.description,
            q.description@,
        )),
        DeclaredItem::Extractor { name: _, kind, stored_kind } => stored_kind matches Some(k) && k
            != kind,
        DeclaredItem::Kind { name: _, declared, stored } => stored matches Some(s) && s@
            != declared@,
    }
}

proof fn items_clash_as_stored(item: DeclaredItem, namespace: Seq<char>)
    ensures
        item_conflict(item, namespace) is Some <==> clashes(item),
        item_conflict(item, namespace) matches Some(e) ==> e is SchemaConflict,
{
    match item {
        DeclaredItem::Predicate { decl, row } => {
            if row is Some {
                let d = predicate_differences(decl, row->0);
                if !clashes(item) {
                    assert(row->0.description@ =~= crate::schema_merge::description_of(
                        decl.description,
                    ));
                    assert(d =~= Seq::<Seq<char>>::empty());
                }
            }
        },
        DeclaredItem::RelationType { decl, row } => {
            if row is Some {
                let d = relation_differences(decl, row->0);
                if !clashes(item) {
                    assert(row->0.description@ =~= crate::schema_merge::description_of(
                        decl.description,
                    ));
                    assert(d =~= Seq::<Seq<char>>::empty());
                }
            }
        },
        _ => {},
    }
}

proof fn first_clash_decides(items: Seq<DeclaredItem>, namespace: Seq<char>)
    ensures
        first_conflict(items, namespace) is Some <==> exists|i: int|
            0 <= i < items.len() && clashes(#[trigger] items[i]),
        first_conflict(items, namespace) matches Some(e) ==> e is SchemaConflict,
    decreases items.len(),
{
    if items.len() > 0 {
        let front = items.drop_last();
        first_clash_decides(front, namespace);
        items_clash_as_stored(items.last(), namespace);
        assert(items.last() == items[items.len() - 1]);
        if exists|i: int| 0 <= i < front.len() && clashes(#[trigger] front[i]) {
            let i = choose|i: int| 0 <= i < front.len() && clashes(#[trigger] front[i]);
            assert(items[i] == front[i]);
        }
        if exists|i: int| 0 <= i < items.len() && clashes(#[trigger] items[i]) {
            let i = choose|i: int| 0 <= i < items.len() && clashes(#[trigger] items[i]);
            if i < front.len() {
                assert(front[i] == items[i]);
            }
        }
    }
}

/// A document merges exactly if nothing that is stored differs from what it
/// declares; it changes nothing exactly if everything it declares is stored.
pub proof fn documents_merge_unless_they_clash(
    r: Result<MergeSummary, OpError>,
    namespace: Seq<char>,
    items: Vec<DeclaredItem>,
    current_version: Option<u32>,
)
    requires
        classifies_merge(r, namespace, items, current_version),
    ensures
        r is Ok <==> forall|i: int| 0 <= i < items@.len() ==> !clashes(#[trigger] items@[i]),
        r matches Err(e) ==> e is SchemaConflict,
        r matches Ok(m) ==> m.current_version == current_version && (m.all_idempotent
            <==> forall|i: int| 0 <= i < items@.len() ==> is_stored(#[trigger] items@[i])),
{
    first_clash_decides(items@, namespace);
    if nothing_new(items@) {
        assert forall|i: int| 0 <= i < items@.len() implies is_stored(#[trigger] items@[i]) by {
            assert(!crate::schema_merge::adds(items@[i]));
        }
    }
}

/// The kinds and cardinalities that a document names are those that are stored.
pub proof fn declared_words_keep_their_meaning(k: StatementKindAst, c: CardinalityAst)
    ensures
        k is Any <==> declared_kind(k) is None,
        k is Fact <==> declared_kind(k) == Some(StatementKind::Fact),
        k is Preference <==> declared_kind(k) == Some(StatementKind::Preference),
        k is Event <==> declared_kind(k) == Some(StatementKind::Event),
        k is Attribute <==> declared_kind(k) == Some(StatementKind::Attribute),
        k is Relation <==> declared_kind(k) == Some(StatementKind::Relation),
        k is Directive <==> declared_kind(k) == Some(StatementKind::Directive),
        c is OneToOne <==> declared_cardinality(c) is OneToOne,
        c is OneToMany <==> declared_cardinality(c) is OneToMany,
        c is ManyToOne <==> declared_cardinality(c) is ManyToOne,
        c is ManyToMany <==> declared_cardinality(c) is ManyToMany,
{
}

// Uploading.

/// Whether a version follows the active one.
pub open spec fn follows(version: u32, active: Option<u32>) -> bool {
    match active {
        None => version == 1,
        Some(v) => version == v + 1 || (v == u32::MAX && version == u32::MAX),
    }
}

/// Whether a write stores a document as the next version of its namespace.
pub open spec fn stores_next(
    w: Write,
    request_id: [u8; 16],
    space_id: [u8; 16],
    name: Seq<char>,
    document: Seq<char>,
    active: Option<u32>,
    now: u64,
    drops_the_rest: bool,
) -> bool {
    &&& w.write_id == (WriteId::Request { request_id, space_id })
    &&& w.space_id == space_id
    &&& w.request_hash is Some
    &&& w.phase matches Phase::UpsertSchema {
        namespace,
        version,
        blob,
        created_at_unix_nanos,
        replace_all,
    } && namespace@ == name && follows(version, active) && blob@ == encode_utf8(document)
        && created_at_unix_nanos == now && replace_all == drops_the_rest
}

/// A document is stored as the next version of the caller's own namespace,
/// beside what is stored already. Another namespace's is refused, a clash is a
/// conflict, a dry run only says which version it would be, and a document that
/// adds nothing is answered with the version that is active.
pub proof fn uploads_store_the_next_version(
    r: Result<UploadStep, OpError>,
    req: SchemaUploadRequest,
    namespace: Seq<char>,
    caller_name: Seq<char>,
    space_id: [u8; 16],
    active: Option<u32>,
    items: Seq<DeclaredItem>,
    now: u64,
)
    requires
        uploads(r, req, namespace, caller_name, space_id, active, items, now),
    ensures
        namespace != caller_name ==> (r matches Err(e) && e is Unauthorized),
        namespace == caller_name && req.dry_run ==> (r matches Ok(UploadStep::Answer(a))
            && a.namespace@ == namespace && follows(a.schema_version, active)
            && a.validation_errors@.len() == 0),
        namespace == caller_name && !req.dry_run && (exists|i: int|
            0 <= i < items.len() && clashes(#[trigger] items[i])) ==> (r matches Err(e)
            && e is SchemaConflict),
        namespace == caller_name && !req.dry_run && (forall|i: int|
            0 <= i < items.len() ==> !clashes(#[trigger] items[i])) ==> {
            if active is Some && (forall|i: int|
                0 <= i < items.len() ==> is_stored(#[trigger] items[i])) {
                r matches Ok(UploadStep::Answer(a)) && a.namespace@ == namespace
                    && a.schema_version == active->0 && a.validation_errors@.len() == 0
            } else {
                r matches Ok(UploadStep::Submit(w)) && stores_next(
                    w,
                    req.request_id,
                    space_id,
                    namespace,
                    req.schema_document@,
                    active,
                    now,
                    false,
                )
            }
        },
{
    first_clash_decides(items, namespace);
    if nothing_new(items) {
        assert forall|i: int| 0 <= i < items.len() implies is_stored(#[trigger] items[i]) by {
            assert(!crate::schema_merge::adds(items[i]));
        }
    }
}

/// An upload is answered with the version that was stored, and announced as the
/// step from the version before it.
pub proof fn uploads_answer_the_stored_version(
    r: Result<(SchemaUploadResponse, SchemaUpdatedEvent), OpError>,
    namespace: Seq<char>,
    active: Option<u32>,
    ack: Ack,
)
    requires
        answers_upload(r, namespace, active, ack),
    ensures
        r is Ok <==> ack.phase is UpsertedSchema,
        r matches Ok(out) ==> {
            &&& out.0.schema_version == ack.phase->UpsertedSchema_version
            &&& out.0.namespace@ == namespace && out.1.namespace@ == namespace
            &&& out.0.validation_errors@.len() == 0
            &&& out.1.to_version == out.0.schema_version
            &&& active is None ==> out.1.from_version == 0
            &&& active matches Some(v) ==> out.1.from_version == v
        },
{
}

/// A caller declares, replaces and drops in its own namespace alone.
pub proof fn namespaces_bind_their_callers(
    r: Result<(), OpError>,
    head: Seq<char>,
    middle: Seq<char>,
    caller_name: Seq<char>,
    namespace: Seq<char>,
)
    requires
        binds_namespace(r, head, middle, caller_name, namespace),
    ensures
        r is Ok <==> namespace == caller_name,
        r matches Err(e) ==> e is Unauthorized,
{
}

// Reading.

/// A caller reads its own schema and the system's, the version it asks for or
/// the active one; any other is as one that is not there.
pub proof fn callers_read_their_own_schema(
    r: Result<u32, OpError>,
    req: SchemaGetRequest,
    caller_name: Seq<char>,
    active: Option<u32>,
)
    requires
        picks_version(r, req, caller_name, active),
    ensures
        r is Ok <==> req.namespace@.len() > 0 && (req.namespace@ == caller_name || req.namespace@
            == "brain"@) && (req.version > 0 || active is Some),
        r matches Ok(v) ==> if req.version > 0 {
            v == req.version
        } else {
            active == Some(v)
        },
        req.namespace@.len() > 0 && r is Err ==> r->Err_0 is NotFound,
{
}

/// A schema is shown as it is stored.
pub proof fn schemas_are_shown_as_stored(
    r: Result<SchemaGetResponse, OpError>,
    req: SchemaGetRequest,
    version: u32,
    row: Option<SchemaRow>,
)
    requires
        shows_schema(r, req, version, row),
    ensures
        r is Ok <==> row is Some,
        r matches Err(e) ==> e is NotFound,
        r matches Ok(out) ==> (row matches Some(s) && out.namespace@ == s.namespace@
            && out.schema_version == s.version && out.source_blob@ == s.source@ && says(
            s.source_text,
            out.schema_document@,
        ) && (out.uploaded_at_unix_nanos, out.validator_version) == (
            s.uploaded_at_unix_nanos,
            s.validator_version,
        )),
{
}

/// A list of versions is for the callers that may read them. It shows the rows
/// in order, as many as the limit allows; a limit of 0 allows all.
pub proof fn version_lists_show_their_rows(
    admitted: Result<bool, OpError>,
    caller_name: Seq<char>,
    r: SchemaListResponseFrame,
    req: SchemaListRequest,
    rows: Vec<SchemaRow>,
    i: int,
)
    requires
        admits_schema_list(admitted, req, caller_name),
        shows_versions(r, req, rows),
        rows@.len() <= u32::MAX,
    ensures
        admitted is Ok <==> req.namespace@.len() > 0,
        admitted matches Ok(may) ==> (may <==> req.namespace@ == caller_name || req.namespace@
            == "brain"@),
        r.namespace@ == req.namespace@ && r.total == r.items@.len(),
        r.next_cursor@.len() == 0 && r.is_final,
        r.items@.len() <= rows@.len(),
        req.limit > 0 ==> r.items@.len() <= req.limit,
        r.items@.len() < rows@.len() ==> req.limit > 0 && r.items@.len() == req.limit,
        0 <= i < r.items@.len() ==> {
            let (v, s) = (r.items@[i], rows@[i]);
            &&& (v.schema_version, v.uploaded_at_unix_nanos, v.validator_version) == (
                s.version,
                s.uploaded_at_unix_nanos,
                s.validator_version,
            )
            &&& v.has_source_text == (s.source_text is Some)
        },
{
}

/// Validating a document says which version it would be, or shows its errors,
/// and nothing else.
pub proof fn validations_store_nothing(
    r: SchemaValidateResponse,
    doc: ReadDocument,
    active: Option<u32>,
)
    requires
        validates(r, doc, active),
    ensures
        doc matches ReadDocument::Valid { namespace } ==> r.namespace@ == namespace@ && follows(
            r.would_be_version,
            active,
        ) && r.validation_errors@.len() == 0,
        doc matches ReadDocument::Invalid { namespace, errors } ==> r.namespace@ == namespace@
            && r.would_be_version == 0 && r.validation_errors@.len() == errors@.len(),
        doc is Unparsed ==> r.would_be_version == 0 && r.validation_errors@.len() == 1,
{
}

// Replacing.

/// A replacement has to be confirmed and is stored as the next version of the
/// caller's own namespace, dropping what it does not declare.
pub proof fn replacements_drop_the_rest(
    admitted: Result<(), OpError>,
    r: Result<Write, OpError>,
    answer: Result<SchemaReplaceResponse, OpError>,
    req: SchemaReplaceRequest,
    namespace: Seq<char>,
    caller_name: Seq<char>,
    space_id: [u8; 16],
    active: Option<u32>,
    ack: Ack,
    now: u64,
)
    requires
        admits_replace(admitted, req),
        plans_replace(r, req, namespace, caller_name, space_id, active, now),
        answers_replace(answer, namespace, ack),
    ensures
        admitted is Ok <==> req.force_drop_existing && 0 < req.schema_document@.len()
            && encode_utf8(req.schema_document@).len() <= 1024 * 1024,
        r is Ok <==> namespace == caller_name,
        r matches Err(e) ==> e is Unauthorized,
        r matches Ok(w) ==> stores_next(
            w,
            req.request_id,
            space_id,
            namespace,
            req.schema_document@,
            active,
            now,
            true,
        ),
        answer is Ok <==> ack.phase is UpsertedSchema,
        answer matches Ok(out) ==> out.namespace@ == namespace && (ack.phase
            == PhaseAck::UpsertedSchema {
            version: out.schema_version,
            dropped: out.dropped_count,
        }) && out.validation_errors@.len() == 0,
{
}

// Narrowing.

/// Whether a document declares, at an index, what a drop names: a predicate for
/// kind 0, a relation type for kind 1.
pub open spec fn declared_at(items: Seq<DocumentItem>, req: SchemaDropRequest, i: int) -> bool {
    &&& 0 <= i < items.len()
    &&& items[i].name@ == req.target_name@
    &&& (req.target_kind == 0 && items[i].kind is Predicate) || (req.target_kind == 1
        && items[i].kind is RelationType)
}

/// Only predicates and relation types can be dropped, by name, and only by
/// their own namespace; the first thing that is asked is whether the request is
/// a repetition.
pub proof fn drops_are_admitted(
    r: Result<DropNeed, OpError>,
    req: SchemaDropRequest,
    caller_name: Seq<char>,
)
    requires
        starts_drop(r, req, caller_name),
    ensures
        r is Ok <==> req.target_kind <= 1 && req.target_name@.len() > 0 && req.namespace@
            == caller_name,
        r matches Ok(need) ==> need is Remembered,
        req.target_kind <= 1 && req.target_name@.len() > 0 && req.namespace@ != caller_name ==> (
        r matches Err(e) && e is Unauthorized),
{
}

/// A repeated drop is answered as before while it is remembered; the same id
/// with other parameters is a conflict.
pub proof fn repeated_drops_are_answered_as_before(
    r: Result<Option<Vec<u8>>, OpError>,
    req: SchemaDropRequest,
    entry: Option<IdempotencyEntry>,
    request_hash: [u8; 32],
    kept: IdempotencyEntry,
    payload: Vec<u8>,
    now: u64,
)
    requires
        replays_drop(r, req, entry, request_hash),
        remembers_drop(kept, request_hash, payload, now),
    ensures
        entry == Some(kept) ==> (r matches Ok(Some(p)) && p@ == payload@),
        entry is None || entry->0.expired ==> (r matches Ok(p) && p is None),
        entry matches Some(e) ==> !e.expired && e.request_hash@ != request_hash@ ==> (r matches Err(
            x,
        ) && x is Conflict),
        kept.created_at_unix_nanos == now && !kept.expired,
{
}

/// A target in use is dropped only by force.
pub proof fn targets_in_use_are_kept(r: Result<(), OpError>, req: SchemaDropRequest, live_rows: usize)
    requires
        gates_drop(r, req, live_rows),
    ensures
        r is Ok <==> live_rows == 0 || req.force,
        r matches Err(e) ==> e is Conflict,
{
}

/// The target of a drop is the first that the document declares.
pub proof fn first_declarations_are_the_target(
    r: Option<usize>,
    req: SchemaDropRequest,
    items: Vec<DocumentItem>,
    k: int,
)
    requires
        locates_target(r, req, items),
    ensures
        r matches Some(i) ==> declared_at(items@, req, i as int) && (k < i ==> !declared_at(
            items@,
            req,
            k,
        )),
        r is None ==> !declared_at(items@, req, k),
{
    if 0 <= k < items@.len() {
        assert(is_target(items@[k], req.target_kind, req.target_name@) == declared_at(items@, req, k));
    }
    if let Some(i) = r {
        assert(is_target(items@[i as int], req.target_kind, req.target_name@));
    }
}

/// Whether a document is another one without its first declaration of what a
/// drop names.
pub open spec fn lacks_one(n: SchemaDocument, doc: SchemaDocument, req: SchemaDropRequest) -> bool {
    exists|at: int| #[trigger]
        declared_at(doc.items@, req, at) && n.items@ == doc.items@.remove(at) && n.namespace
            == doc.namespace
}

/// A drop takes one declaration out of the document and leaves every other
/// where it is. What is not declared is not dropped, and what has live rows
/// stays unless it is forced.
pub proof fn drops_take_one_declaration(
    r: Result<DropStep, OpError>,
    req: SchemaDropRequest,
    version: u32,
    doc: SchemaDocument,
    live_rows: usize,
    at: int,
)
    requires
        decides_drop(r, req, Some((version, doc)), live_rows),
    ensures
        declared_at(doc.items@, req, at) && (live_rows == 0 || req.force) ==> (r matches Ok(
            DropStep::Narrow(n),
        ) && lacks_one(n, doc, req)),
        declared_at(doc.items@, req, at) && live_rows > 0 && !req.force ==> (r matches Err(e)
            && e is Conflict),
        r matches Ok(DropStep::Narrow(n)) ==> lacks_one(n, doc, req),
        r matches Ok(DropStep::Answer(a)) ==> !a.dropped && a.schema_version == version
            && a.live_rows == 0 && a.target_name@ == req.target_name@ && !declared_at(
            doc.items@,
            req,
            at,
        ),
{
    if declared_at(doc.items@, req, at) {
        assert(is_target(doc.items@[at], req.target_kind, req.target_name@));
    }
    if let Ok(DropStep::Narrow(n)) = r {
        let k = choose|k: int|
            #![trigger doc.items@[k]]
            0 <= k < doc.items@.len() && is_target(doc.items@[k], req.target_kind, req.target_name@)
                && n.items@ == doc.items@.remove(k) && forall|j: int|
                0 <= j < k ==> !is_target(
                    #[trigger] doc.items@[j],
                    req.target_kind,
                    req.target_name@,
                );
        assert(declared_at(doc.items@, req, k));
    }
}

/// A drop goes from the document over the live rows and the rules to the
/// commit: what was read is what is narrowed, what is committed was narrowed
/// and passed its rules, and the answer tells the committed version.
pub proof fn drops_go_step_by_step(
    req: SchemaDropRequest,
    before: DropRun,
    read: DropRead,
    after: DropRun,
    need: DropNeed,
    version: u32,
    doc: SchemaDocument,
    at: int,
)
    requires
        drop_follows(req, before, read, after, need),
    ensures
        read == DropRead::Document(Some((version, doc))) && declared_at(doc.items@, req, at) ==> need
            is LiveRows && after.active == Some((version, doc)),
        read is Document && need is LiveRows ==> after.active is Some,
        read matches DropRead::LiveRows(n) ==> before.active == Some((version, doc))
            && declared_at(doc.items@, req, at) ==> {
            &&& after.live_rows == n && after.active is None
            &&& n > 0 && !req.force ==> (need matches DropNeed::Answer(Err(e)) && e is Conflict)
            &&& n == 0 || req.force ==> need is Validation && (after.narrowed matches Some(d)
                && lacks_one(d, doc, req))
        },
        read matches DropRead::Validation(Ok(_)) ==> before.narrowed is Some ==> need
            == DropNeed::Commit(before.narrowed->0),
        read matches DropRead::Validation(Err(_)) ==> (need matches DropNeed::Answer(Err(e))
            && e is Internal) && after == before,
        read matches DropRead::Committed { version: v, removed } ==> (need matches DropNeed::Answer(
            Ok(a),
        ) && a.schema_version == v && a.dropped == removed && a.namespace@ == req.namespace@
            && a.target_name@ == req.target_name@ && a.target_kind == req.target_kind && (
        before.live_rows <= u32::MAX ==> a.live_rows == before.live_rows)),
        read == DropRead::Document(None) ==> (need matches DropNeed::Answer(Ok(a)) && !a.dropped
            && a.schema_version == 0),
{
    if declared_at(doc.items@, req, at) {
        assert(is_target(doc.items@[at], req.target_kind, req.target_name@));
    }
    if read is LiveRows && before.active == Some((version, doc)) && after.narrowed is Some
        && need is Validation {
        let n = after.narrowed->0;
        let k = choose|k: int|
            #![trigger doc.items@[k]]
            0 <= k < doc.items@.len() && is_target(doc.items@[k], req.target_kind, req.target_name@)
                && n.items@ == doc.items@.remove(k) && forall|j: int|
                0 <= j < k ==> !is_target(
                    #[trigger] doc.items@[j],
                    req.target_kind,
                    req.target_name@,
                );
        assert(declared_at(doc.items@, req, k));
    }
}

/// Dropping one item of a document leaves every other in its place.
pub proof fn narrowed_documents_keep_the_rest(
    r: SchemaDocument,
    doc: SchemaDocument,
    at: usize,
    k: int,
)
    requires
        narrows(r, doc, at),
        at < doc.items@.len(),
    ensures
        r.namespace == doc.namespace && r.source is None,
        r.items@.len() == doc.items@.len() - 1,
        0 <= k < at ==> r.items@[k] == doc.items@[k],
        at < k < doc.items@.len() ==> r.items@[k - 1] == doc.items@[k],
{
}

/// A drop is admitted to its own namespace, for a predicate or a relation type.
pub proof fn drops_need_a_target(
    checked: Result<(), OpError>,
    admitted: Result<(), OpError>,
    req: SchemaDropRequest,
    caller_name: Seq<char>,
)
    requires
        checks_target(checked, req),
        admits_drop(admitted, req, caller_name),
    ensures
        checked is Ok <==> req.target_kind <= 1 && req.target_name@.len() > 0,
        admitted is Ok <==> checked is Ok && req.namespace@ == caller_name,
        checked matches Err(e) ==> e is InvalidRequest,
{
}

/// A replacement that does not parse, or breaks its rules, drops nothing.
pub proof fn bad_replacements_drop_nothing(
    unparsed: SchemaReplaceResponse,
    shown: String,
    invalid: SchemaReplaceResponse,
    namespace: Seq<char>,
    errors: Vec<ValidationError>,
)
    requires
        refuses_unparsed_replace(unparsed, shown),
        refuses_invalid_replace(invalid, namespace, errors),
    ensures
        unparsed.schema_version == 0 && unparsed.dropped_count == 0
            && unparsed.validation_errors@.len() == 1 && unparsed.validation_errors@[0].message@
            == shown@,
        invalid.schema_version == 0 && invalid.dropped_count == 0 && invalid.namespace@ == namespace
            && invalid.validation_errors@.len() == errors@.len(),
{
}

/// The namespace of a caller is the one that is registered; a store that ran
/// out of versions is a conflict.
pub proof fn callers_have_their_namespace(
    r: Result<String, OpError>,
    found: Option<String>,
    namespace_id: u32,
    mapped: OpError,
    failure: SchemaStoreError,
)
    requires
        names_namespace(r, found, namespace_id),
        maps_store_error(mapped, failure),
    ensures
        r is Ok <==> found is Some,
        r matches Ok(name) ==> found == Some(name),
        r matches Err(e) ==> e is Internal,
        failure is VersionOverflow <==> mapped is Conflict,
        failure matches SchemaStoreError::Other(m) ==> mapped is Internal && mapped->Internal_0@
            == m@,
{
}

} // verus!
