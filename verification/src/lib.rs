//! The rules of a memory store's wire handlers: validation, tenant walls,
//! idempotency, pagination cursors, event projection and result assembly.
//!
//! Everything here works on plain values. Reading tables, submitting writes
//! and talking to clients happen around this crate.

pub mod answer_laws;
pub mod base_laws;
pub mod bytes;
pub mod choice_laws;
pub mod cursor;
pub mod digest_laws;
pub mod encode;
pub mod encode_flow;
pub mod encode_graph;
pub mod encode_laws;
pub mod encode_trace;
pub mod enrichment;
pub mod enrichment_laws;
pub mod entity;
pub mod entity_laws;
pub mod entity_ops;
pub mod entity_resolve;
pub mod error;
pub mod events;
pub mod evidence;
pub mod extractor_admin;
pub mod graph_builder;
pub mod graph_cover;
pub mod graph_fetch;
pub mod graph_laws;
pub mod grounded;
pub mod grounding_laws;
pub mod hash;
pub mod inference_laws;
pub mod labels;
pub mod list_laws;
pub mod membership;
pub mod membership_laws;
pub mod memory_inspect;
pub mod memory_list;
pub mod plan;
pub mod projection;
pub mod query;
pub mod query_laws;
pub mod ranking;
pub mod reason;
pub mod reason_trace;
pub mod recall;
pub mod recall_laws;
pub mod recall_trace;
pub mod registry_cascade;
pub mod registry_laws;
pub mod restore;
pub mod retrieval;
pub mod retrieval_laws;
pub mod schema;
pub mod schema_drop;
pub mod schema_laws;
pub mod schema_merge;
pub mod schema_replace;
pub mod scope;
pub mod session;
pub mod single;
pub mod space;
pub mod statement;
pub mod statement_laws;
pub mod statement_ops;
pub mod statement_reads;
pub mod subscribe;
pub mod subscribe_laws;
pub mod surfaces;
pub mod text;
pub mod trace_laws;
pub mod write;
