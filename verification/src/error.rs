//! The errors that handlers answer with.
use vstd::prelude::*;

use crate::text::has_text;
use crate::text::contains_text;

verus! {

/// What the write path reports.
#[derive(Debug)]
pub enum WriterError {
    /// A request id was replayed with other parameters.
    Conflict(String),
    /// The write queue is full.
    Overloaded,
    /// Anything else, as text.
    Internal(String),
}

/// What running a planned operation reports.
#[derive(Debug)]
pub enum ExecError {
    WriterFailed(WriterError),
    MetadataReadFailed(String),
    EmbedFailed(String),
}

/// The error taxonomy of the wire.
#[derive(Debug)]
pub enum OpError {
    InvalidRequest(String),
    NotFound { what: &'static str, detail: String },
    Conflict(String),
    Overloaded(String),
    Internal(String),
    Unauthorized(String),
    NotYetImplemented(String),
    PredicateNotInSchema { predicate: String, namespace: String, version: u32 },
    SchemaConflict { kind: &'static str, name: String, namespace: String, conflict: String },
    ExecError(ExecError),
}

/// [`WriterError`] with its text as characters.
pub enum WriterErrorView {
    Conflict(Seq<char>),
    Overloaded,
    Internal(Seq<char>),
}

/// [`ExecError`] with its text as characters.
pub enum ExecErrorView {
    WriterFailed(WriterErrorView),
    MetadataReadFailed(Seq<char>),
    EmbedFailed(Seq<char>),
}

/// [`OpError`] with its text as characters.
pub enum ErrorView {
    InvalidRequest(Seq<char>),
    NotFound { what: Seq<char>, detail: Seq<char> },
    Conflict(Seq<char>),
    Overloaded(Seq<char>),
    Internal(Seq<char>),
    Unauthorized(Seq<char>),
    NotYetImplemented(Seq<char>),
    PredicateNotInSchema { predicate: Seq<char>, namespace: Seq<char>, version: u32 },
    SchemaConflict { kind: Seq<char>, name: Seq<char>, namespace: Seq<char>, conflict: Seq<char> },
    ExecError(ExecErrorView),
}

impl View for WriterError {
    type V = WriterErrorView;

    open spec fn view(&self) -> WriterErrorView {
        match *self {
            WriterError::Conflict(m) => WriterErrorView::Conflict(m@),
            WriterError::Overloaded => WriterErrorView::Overloaded,
            WriterError::Internal(m) => WriterErrorView::Internal(m@),
        }
    }
}

impl View for ExecError {
    type V = ExecErrorView;

    open spec fn view(&self) -> ExecErrorView {
        match *self {
            ExecError::WriterFailed(e) => ExecErrorView::WriterFailed(e@),
            ExecError::MetadataReadFailed(m) => ExecErrorView::MetadataReadFailed(m@),
            ExecError::EmbedFailed(m) => ExecErrorView::EmbedFailed(m@),
        }
    }
}

impl View for OpError {
    type V = ErrorView;

    open spec fn view(&self) -> ErrorView {
        match *self {
            OpError::InvalidRequest(m) => ErrorView::InvalidRequest(m@),
            OpError::NotFound { what, detail } => ErrorView::NotFound {
                what: what@,
                detail: detail@,
            },
            OpError::Conflict(m) => ErrorView::Conflict(m@),
            OpError::Overloaded(m) => ErrorView::Overloaded(m@),
            OpError::Internal(m) => ErrorView::Internal(m@),
            OpError::Unauthorized(m) => ErrorView::Unauthorized(m@),
            OpError::NotYetImplemented(m) => ErrorView::NotYetImplemented(m@),
            OpError::PredicateNotInSchema { predicate, namespace, version } =>
                ErrorView::PredicateNotInSchema {
                    predicate: predicate@,
                    namespace: namespace@,
                    version,
                },
            OpError::SchemaConflict { kind, name, namespace, conflict } =>
                ErrorView::SchemaConflict {
                    kind: kind@,
                    name: name@,
                    namespace: namespace@,
                    conflict: conflict@,
                },
            OpError::ExecError(e) => ErrorView::ExecError(e@),
        }
    }
}

/// A result with its error as characters.
pub open spec fn outcome<T>(r: Result<T, OpError>) -> Result<T, ErrorView> {
    match r {
        Ok(v) => Ok(v),
        Err(e) => Err(e@),
    }
}

/// Whether a result is exactly the given error.
pub open spec fn fails<T>(r: Result<T, OpError>, e: ErrorView) -> bool {
    r matches Err(x) && x@ == e
}

/// An `InvalidRequest` with a fixed message.
pub fn invalid(message: &str) -> (r: OpError)
    ensures
        r@ == ErrorView::InvalidRequest(message@),
{
    OpError::InvalidRequest(message.to_owned())
}

/// An `Internal` with a fixed message.
pub fn internal(message: &str) -> (r: OpError)
    ensures
        r@ == ErrorView::Internal(message@),
{
    OpError::Internal(message.to_owned())
}

/// The error that a failed write of an entity becomes.
pub open spec fn maps_entity_writer(
    r: OpError,
    err: WriterError,
) -> bool {
    r@ == (match err@ {
        WriterErrorView::Internal(m) if has_text(m, "not found"@) => ErrorView::NotFound {
            what: "entity"@,
            detail: m,
        },
        other => ErrorView::ExecError(ExecErrorView::WriterFailed(other)),
    })
}

/// Entity writes: a missing row reads as `NotFound`, anything else is a
/// failed write.
pub fn map_entity_writer_err(err: WriterError) -> (r: OpError)
    ensures
        maps_entity_writer(r, err),
{
    match err {
        WriterError::Internal(msg) => {
            if contains_text(&msg, "not found") {
                OpError::NotFound { what: "entity", detail: msg }
            } else {
                OpError::ExecError(ExecError::WriterFailed(WriterError::Internal(msg)))
            }
        },
        other => OpError::ExecError(ExecError::WriterFailed(other)),
    }
}

/// How the statement handlers classify the text of a failed write.
pub open spec fn statement_writer_error(err: WriterErrorView) -> ErrorView {
    match err {
        WriterErrorView::Internal(m) => if has_text(m, "UnknownPredicate"@) {
            ErrorView::NotFound { what: "predicate"@, detail: m }
        } else if has_text(m, "UnknownSubject"@) {
            ErrorView::NotFound { what: "subject entity"@, detail: m }
        } else if has_text(m, "AlreadyTombstoned"@) || has_text(m, "AlreadySuperseded"@)
            || has_text(m, "EventCannotSupersede"@) {
            ErrorView::Conflict(m)
        } else {
            ErrorView::ExecError(ExecErrorView::WriterFailed(err))
        },
        other => ErrorView::ExecError(ExecErrorView::WriterFailed(other)),
    }
}

/// The error that a failed write of a statement becomes.
pub open spec fn maps_statement_writer(
    r: OpError,
    err: WriterError,
) -> bool {
    r@ == statement_writer_error(err@)
}

/// Statement writes: unknown names are `NotFound`, lifecycle clashes are
/// `Conflict`, anything else is a failed write.
pub fn map_statement_writer_err(err: WriterError) -> (r: OpError)
    ensures
        maps_statement_writer(r, err),
{
    match err {
        WriterError::Internal(msg) => {
            if contains_text(&msg, "UnknownPredicate") {
                OpError::NotFound { what: "predicate", detail: msg }
            } else if contains_text(&msg, "UnknownSubject") {
                OpError::NotFound { what: "subject entity", detail: msg }
            } else if contains_text(&msg, "AlreadyTombstoned") || contains_text(
                &msg,
                "AlreadySuperseded",
            ) || contains_text(&msg, "EventCannotSupersede") {
                OpError::Conflict(msg)
            } else {
                OpError::ExecError(ExecError::WriterFailed(WriterError::Internal(msg)))
            }
        },
        other => OpError::ExecError(ExecError::WriterFailed(other)),
    }
}

/// The error that a failed write of a schema becomes.
pub open spec fn maps_schema_writer(
    r: OpError,
    err: WriterError,
) -> bool {
    r@ == (match err@ {
        WriterErrorView::Conflict(m) => ErrorView::Conflict(m),
        WriterErrorView::Overloaded => ErrorView::Overloaded("writer overloaded"@),
        WriterErrorView::Internal(m) => ErrorView::Internal(m),
    })
}

/// Schema writes keep the writer's own classes.
pub fn map_schema_writer_err(err: WriterError) -> (r: OpError)
    ensures
        maps_schema_writer(r, err),
{
    match err {
        WriterError::Conflict(msg) => OpError::Conflict(msg),
        WriterError::Overloaded => OpError::Overloaded("writer overloaded".to_owned()),
        WriterError::Internal(msg) => OpError::Internal(msg),
    }
}

/// Registry writes carry the writer's error unchanged.
pub fn writer_err(e: WriterError) -> (r: OpError)
    ensures
        r == OpError::ExecError(ExecError::WriterFailed(e)),
{
    OpError::ExecError(ExecError::WriterFailed(e))
}

} // verus!
