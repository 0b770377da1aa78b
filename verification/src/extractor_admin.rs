//! Listing the extractors.
use vstd::prelude::*;

use crate::bytes::{length_u32, low32};
use crate::error::{ErrorView, OpError};
use crate::text::{decimal, join3, push_decimal, quoted, quoted_text};

verus! {

/// A stored extractor.
#[derive(Debug)]
pub struct ExtractorRow {
    pub extractor_id: u32,
    pub namespace: String,
    pub name: String,
    pub kind: u8,
    pub schema_version: u32,
    pub created_at_unix_nanos: u64,
}

#[derive(Debug)]
pub struct ExtractorListItem {
    pub extractor_id: u32,
    pub namespace: String,
    pub name: String,
    pub kind: u8,
    pub schema_version: u32,
    pub created_at_unix_nanos: u64,
}

#[derive(Debug)]
pub struct ExtractorListResponseFrame {
    pub items: Vec<ExtractorListItem>,
    pub total: u32,
    pub is_final: bool,
}

/// Whether an item shows an extractor.
pub open spec fn shows_extractor(i: ExtractorListItem, row: ExtractorRow) -> bool {
    &&& i.extractor_id == row.extractor_id
    &&& i.namespace == row.namespace
    &&& i.name == row.name
    &&& i.kind == row.kind
    &&& i.schema_version == row.schema_version
    &&& i.created_at_unix_nanos == row.created_at_unix_nanos
}

/// Whether a frame lists extractors.
pub open spec fn shows_extractors(
    r: ExtractorListResponseFrame,
    rows: Vec<ExtractorRow>,
) -> bool {
    &&& r.items@.len() == rows@.len()
    &&& (forall|i: int|
        0 <= i < rows@.len() ==> shows_extractor(#[trigger] r.items@[i], rows@[i]))
    &&& r.total == low32(rows@.len())
    &&& r.is_final
}

/// Lists the extractors.
pub fn extractor_list_frame(rows: Vec<ExtractorRow>) -> (r: ExtractorListResponseFrame)
    ensures
        shows_extractors(r, rows),
{
    let ghost all = rows@;
    let mut items: Vec<ExtractorListItem> = Vec::new();
    for row in it: rows
        invariant
            it.seq() == all,
            items@.len() == it.index(),
            forall|k: int| 0 <= k < it.index() ==> shows_extractor(#[trigger] items@[k], all[k]),
    {
        items.push(
            ExtractorListItem {
                extractor_id: row.extractor_id,
                namespace: row.namespace,
                name: row.name,
                kind: row.kind,
                schema_version: row.schema_version,
                created_at_unix_nanos: row.created_at_unix_nanos,
            },
        );
    }
    let total: u32 = length_u32(items.len());
    ExtractorListResponseFrame { items, total, is_final: true }
}

/// What the extractor store reports.
#[derive(Debug)]
pub enum ExtractorOpError {
    NotFound { id: u32 },
    InvalidIdentifier { reason: String },
    AlreadyExists { qname: String, existing_id: u32 },
    /// Anything else, as it prints.
    Other(String),
}

/// How store errors are classified.
pub open spec fn extractor_error(e: ExtractorOpError) -> ErrorView {
    match e {
        ExtractorOpError::NotFound { id } => ErrorView::NotFound {
            what: "extractor"@,
            detail: "id "@ + decimal(id as nat),
        },
        ExtractorOpError::InvalidIdentifier { reason } => ErrorView::InvalidRequest(reason@),
        ExtractorOpError::AlreadyExists { qname, existing_id } => ErrorView::Conflict(
            "extractor "@ + quoted_text(qname@) + " already exists with id "@ + decimal(
                existing_id as nat,
            ),
        ),
        ExtractorOpError::Other(m) => ErrorView::Internal(m@),
    }
}

pub fn map_extractor_op_error(e: ExtractorOpError) -> (r: OpError)
    ensures
        r@ == extractor_error(e),
{
    match e {
        ExtractorOpError::NotFound { id } => {
            let mut detail = "id ".to_owned();
            push_decimal(&mut detail, id as u64);
            OpError::NotFound { what: "extractor", detail }
        },
        ExtractorOpError::InvalidIdentifier { reason } => OpError::InvalidRequest(reason),
        ExtractorOpError::AlreadyExists { qname, existing_id } => {
            let name = quoted(&qname);
            let mut message = join3("extractor ", &name, " already exists with id ");
            push_decimal(&mut message, existing_id as u64);
            OpError::Conflict(message)
        },
        ExtractorOpError::Other(m) => OpError::Internal(m),
    }
}

} // verus!
