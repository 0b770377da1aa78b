//! Merging an uploaded schema into the declared vocabulary: each declaration is
//! new, unchanged, or in conflict with what is stored.
use vstd::prelude::*;

use crate::bytes::eq_bytes;
use crate::error::{fails, ErrorView, OpError};
use crate::statement::StatementKind;
use crate::text::{decimal, join2, join_list, joined, push_decimal, same_text, texts};

verus! {

/// The statement kinds that a predicate can be declared for.
#[derive(Clone, Copy, Debug, PartialEq, Eq, Structural)]
pub enum StatementKindAst {
    Fact,
    Preference,
    Event,
    Attribute,
    Relation,
    Directive,
    Any,
}

#[derive(Clone, Copy, Debug, PartialEq, Eq, Structural)]
pub enum CardinalityAst {
    OneToOne,
    OneToMany,
    ManyToOne,
    ManyToMany,
}

#[derive(Clone, Copy, Debug, PartialEq, Eq, Structural)]
pub enum Cardinality {
    OneToOne,
    OneToMany,
    ManyToOne,
    ManyToMany,
}

/// The kind that a declaration constrains a predicate to; none for any.
pub open spec fn declared_kind(k: StatementKindAst) -> Option<StatementKind> {
    match k {
        StatementKindAst::Fact => Some(StatementKind::Fact),
        StatementKindAst::Preference => Some(StatementKind::Preference),
        StatementKindAst::Event => Some(StatementKind::Event),
        StatementKindAst::Attribute => Some(StatementKind::Attribute),
        StatementKindAst::Relation => Some(StatementKind::Relation),
        StatementKindAst::Directive => Some(StatementKind::Directive),
        StatementKindAst::Any => None,
    }
}

pub fn map_statement_kind(k: StatementKindAst) -> (r: Option<StatementKind>)
    ensures
        r == declared_kind(k),
{
    match k {
        StatementKindAst::Fact => Some(StatementKind::Fact),
        StatementKindAst::Preference => Some(StatementKind::Preference),
        StatementKindAst::Event => Some(StatementKind::Event),
        StatementKindAst::Attribute => Some(StatementKind::Attribute),
        StatementKindAst::Relation => Some(StatementKind::Relation),
        StatementKindAst::Directive => Some(StatementKind::Directive),
        StatementKindAst::Any => None,
    }
}

/// The stored form of a declared cardinality.
pub open spec fn declared_cardinality(c: CardinalityAst) -> Cardinality {
    match c {
        CardinalityAst::OneToOne => Cardinality::OneToOne,
        CardinalityAst::OneToMany => Cardinality::OneToMany,
        CardinalityAst::ManyToOne => Cardinality::ManyToOne,
        CardinalityAst::ManyToMany => Cardinality::ManyToMany,
    }
}

pub fn map_cardinality(c: CardinalityAst) -> (r: Cardinality)
    ensures
        r == declared_cardinality(c),
{
    match c {
        CardinalityAst::OneToOne => Cardinality::OneToOne,
        CardinalityAst::OneToMany => Cardinality::OneToMany,
        CardinalityAst::ManyToOne => Cardinality::ManyToOne,
        CardinalityAst::ManyToMany => Cardinality::ManyToMany,
    }
}

/// A declared predicate. `object_type` is the encoded object constraint and
/// `object_entity_type` the entity type it names, 0 where it names none.
#[derive(Debug)]
pub struct PredicateDecl {
    pub name: String,
    pub kind: StatementKindAst,
    pub object_type: u8,
    pub object_entity_type: u32,
    pub description: Option<String>,
    pub stateful: bool,
}

/// A stored predicate.
#[derive(Debug)]
pub struct PredicateRow {
    pub kind_constraint: Option<StatementKind>,
    pub object_type: u8,
    pub object_entity_type: u32,
    pub description: String,
    pub stateful: bool,
}

#[derive(Debug)]
pub struct RelationDecl {
    pub name: String,
    pub cardinality: CardinalityAst,
    pub symmetric: bool,
    pub description: Option<String>,
}

#[derive(Debug)]
pub struct RelationRow {
    pub cardinality: Cardinality,
    pub symmetric: bool,
    pub description: String,
}

/// A declaration, with the stored row of the same name where there is one.
#[allow(inconsistent_fields)]
#[derive(Debug)]
pub enum DeclaredItem {
    /// The stored row is its encoded attributes.
    EntityType { name: String, stored_blob: Option<Vec<u8>> },
    Predicate { decl: PredicateDecl, row: Option<PredicateRow> },
    RelationType { decl: RelationDecl, row: Option<RelationRow> },
    /// An extractor by its kind byte.
    Extractor { name: String, kind: u8, stored_kind: Option<u8> },
    /// A statement kind by its encoded declaration.
    Kind { name: String, declared: Vec<u8>, stored: Option<Vec<u8>> },
}

/// A description, empty where there is none.
pub open spec fn description_of(d: Option<String>) -> Seq<char> {
    match d {
        Some(s) => s@,
        None => Seq::empty(),
    }
}

fn same_description(stored: &str, d: &Option<String>) -> (r: bool)
    ensures
        r == (stored@ == description_of(*d)),
{
    match d {
        Some(s) => same_text(stored, s),
        None => {
            let r = stored.is_empty();
            assert(r ==> stored@ =~= Seq::empty());
            r
        },
    }
}

/// How a kind prints.
pub open spec fn kind_name(k: StatementKind) -> Seq<char> {
    match k {
        StatementKind::Fact => "Fact"@,
        StatementKind::Preference => "Preference"@,
        StatementKind::Event => "Event"@,
        StatementKind::Attribute => "Attribute"@,
        StatementKind::Relation => "Relation"@,
        StatementKind::Directive => "Directive"@,
        StatementKind::Custom(b) => "Custom("@ + decimal(b as nat) + ")"@,
    }
}

/// How a kind constraint prints.
pub open spec fn constraint_text(k: Option<StatementKind>) -> Seq<char> {
    match k {
        Some(x) => "Some("@ + kind_name(x) + ")"@,
        None => "None"@,
    }
}

fn push_kind(out: &mut String, k: StatementKind)
    ensures
        final(out)@ == old(out)@ + kind_name(k),
{
    match k {
        StatementKind::Fact => out.push_str("Fact"),
        StatementKind::Preference => out.push_str("Preference"),
        StatementKind::Event => out.push_str("Event"),
        StatementKind::Attribute => out.push_str("Attribute"),
        StatementKind::Relation => out.push_str("Relation"),
        StatementKind::Directive => out.push_str("Directive"),
        StatementKind::Custom(b) => {
            out.push_str("Custom(");
            push_decimal(out, b as u64);
            out.push_str(")");
            assert(out@ =~= old(out)@ + kind_name(k));
        },
    }
}

fn push_constraint(out: &mut String, k: Option<StatementKind>)
    ensures
        final(out)@ == old(out)@ + constraint_text(k),
{
    match k {
        Some(x) => {
            out.push_str("Some(");
            push_kind(out, x);
            out.push_str(")");
            assert(out@ =~= old(out)@ + constraint_text(k));
        },
        None => out.push_str("None"),
    }
}

/// How a cardinality prints.
pub open spec fn cardinality_name(c: Cardinality) -> Seq<char> {
    match c {
        Cardinality::OneToOne => "OneToOne"@,
        Cardinality::OneToMany => "OneToMany"@,
        Cardinality::ManyToOne => "ManyToOne"@,
        Cardinality::ManyToMany => "ManyToMany"@,
    }
}

fn cardinality_text(c: Cardinality) -> (r: &'static str)
    ensures
        r@ == cardinality_name(c),
{
    match c {
        Cardinality::OneToOne => "OneToOne",
        Cardinality::OneToMany => "OneToMany",
        Cardinality::ManyToOne => "ManyToOne",
        Cardinality::ManyToMany => "ManyToMany",
    }
}

/// How a flag prints.
pub open spec fn flag_name(b: bool) -> Seq<char> {
    if b {
        "true"@
    } else {
        "false"@
    }
}

fn flag_text(b: bool) -> (r: &'static str)
    ensures
        r@ == flag_name(b),
{
    if b {
        "true"
    } else {
        "false"
    }
}

/// One line of a difference: what is stored and what is new.
pub open spec fn difference(what: Seq<char>, stored: Seq<char>, new: Seq<char>) -> Seq<char> {
    what + ": stored="@ + stored + " new="@ + new
}

fn describe(what: &str, stored: &str, new: &str) -> (r: String)
    ensures
        r@ == difference(what@, stored@, new@),
{
    let mut out = join2(what, ": stored=");
    out.push_str(stored);
    out.push_str(" new=");
    out.push_str(new);
    out
}

fn number_text(n: u64) -> (r: String)
    ensures
        r@ == decimal(n as nat),
{
    let mut out = String::new();
    push_decimal(&mut out, n);
    assert(out@ =~= decimal(n as nat));
    out
}

fn constraint_string(k: Option<StatementKind>) -> (r: String)
    ensures
        r@ == constraint_text(k),
{
    let mut out = String::new();
    push_constraint(&mut out, k);
    assert(out@ =~= constraint_text(k));
    out
}

/// A list that holds a text where a condition holds.
pub open spec fn when(b: bool, text: Seq<char>) -> Seq<Seq<char>> {
    if b {
        seq![text]
    } else {
        Seq::empty()
    }
}

/// How a predicate's declaration differs from its stored row.
pub open spec fn predicate_differences(d: PredicateDecl, row: PredicateRow) -> Seq<Seq<char>> {
    when(
        row.kind_constraint != declared_kind(d.kind),
        difference(
            "kind"@,
            constraint_text(row.kind_constraint),
            constraint_text(declared_kind(d.kind)),
        ),
    ) + when(
        row.object_type != d.object_type,
        difference(
            "object_type"@,
            decimal(row.object_type as nat),
            decimal(d.object_type as nat),
        ),
    ) + when(
        row.object_entity_type != d.object_entity_type,
        difference(
            "object entity_type"@,
            decimal(row.object_entity_type as nat),
            decimal(d.object_entity_type as nat),
        ),
    ) + when(row.description@ != description_of(d.description), "description differs"@) + when(
        row.stateful != d.stateful,
        difference("stateful"@, flag_name(row.stateful), flag_name(d.stateful)),
    )
}

fn push_difference(out: &mut Vec<String>, text: String)
    ensures
        texts(final(out)@) == texts(old(out)@).push(text@),
{
    out.push(text);
    assert(texts(out@) =~= texts(old(out)@).push(text@));
}

fn predicate_diff(d: &PredicateDecl, row: &PredicateRow) -> (r: Vec<String>)
    ensures
        texts(r@) == predicate_differences(*d, *row),
{
    let mut out: Vec<String> = Vec::new();
    let kind = map_statement_kind(d.kind);
    assert(texts(out@) =~= Seq::empty());
    if row.kind_constraint != kind {
        let stored = constraint_string(row.kind_constraint);
        let new = constraint_string(kind);
        push_difference(&mut out, describe("kind", &stored, &new));
    }
    if row.object_type != d.object_type {
        let stored = number_text(row.object_type as u64);
        let new = number_text(d.object_type as u64);
        push_difference(&mut out, describe("object_type", &stored, &new));
    }
    if row.object_entity_type != d.object_entity_type {
        let stored = number_text(row.object_entity_type as u64);
        let new = number_text(d.object_entity_type as u64);
        push_difference(&mut out, describe("object entity_type", &stored, &new));
    }
    if !same_description(&row.description, &d.description) {
        push_difference(&mut out, "description differs".to_owned());
    }
    if row.stateful != d.stateful {
        push_difference(
            &mut out,
            describe("stateful", flag_text(row.stateful), flag_text(d.stateful)),
        );
    }
    assert(texts(out@) =~= predicate_differences(*d, *row));
    out
}

/// How a relation type's declaration differs from its stored row.
pub open spec fn relation_differences(d: RelationDecl, row: RelationRow) -> Seq<Seq<char>> {
    when(
        row.cardinality != declared_cardinality(d.cardinality),
        difference(
            "cardinality"@,
            cardinality_name(row.cardinality),
            cardinality_name(declared_cardinality(d.cardinality)),
        ),
    ) + when(
        row.symmetric != d.symmetric,
        difference("symmetric"@, flag_name(row.symmetric), flag_name(d.symmetric)),
    ) + when(row.description@ != description_of(d.description), "description differs"@)
}

fn relation_diff(d: &RelationDecl, row: &RelationRow) -> (r: Vec<String>)
    ensures
        texts(r@) == relation_differences(*d, *row),
{
    let mut out: Vec<String> = Vec::new();
    let cardinality = map_cardinality(d.cardinality);
    assert(texts(out@) =~= Seq::empty());
    if row.cardinality != cardinality {
        push_difference(
            &mut out,
            describe(
                "cardinality",
                cardinality_text(row.cardinality),
                cardinality_text(cardinality),
            ),
        );
    }
    if row.symmetric != d.symmetric {
        push_difference(
            &mut out,
            describe("symmetric", flag_text(row.symmetric), flag_text(d.symmetric)),
        );
    }
    if !same_description(&row.description, &d.description) {
        push_difference(&mut out, "description differs".to_owned());
    }
    assert(texts(out@) =~= relation_differences(*d, *row));
    out
}

/// A conflict: the kind of item, its name, and what clashes.
pub open spec fn conflict(
    kind: Seq<char>,
    name: Seq<char>,
    namespace: Seq<char>,
    text: Seq<char>,
) -> ErrorView {
    ErrorView::SchemaConflict { kind, name, namespace, conflict: text }
}

/// Why a declaration cannot be merged, if it cannot.
pub open spec fn item_conflict(item: DeclaredItem, namespace: Seq<char>) -> Option<ErrorView> {
    match item {
        DeclaredItem::EntityType { name, stored_blob } => match stored_blob {
            Some(blob) if blob@.len() > 0 => Some(
                conflict(
                    "entity_type"@,
                    name@,
                    namespace,
                    "stored schema_blob is non-empty; merge requires a matching blob"@,
                ),
            ),
            _ => None,
        },
        DeclaredItem::Predicate { decl, row } => match row {
            Some(stored) if predicate_differences(decl, stored).len() > 0 => Some(
                conflict(
                    "predicate"@,
                    decl.name@,
                    namespace,
                    joined(predicate_differences(decl, stored), ", "@),
                ),
            ),
            _ => None,
        },
        DeclaredItem::RelationType { decl, row } => match row {
            Some(stored) if relation_differences(decl, stored).len() > 0 => Some(
                conflict(
                    "relation_type"@,
                    decl.name@,
                    namespace,
                    joined(relation_differences(decl, stored), ", "@),
                ),
            ),
            _ => None,
        },
        DeclaredItem::Extractor { name, kind, stored_kind } => match stored_kind {
            Some(stored) if stored != kind => Some(
                conflict(
                    "extractor"@,
                    name@,
                    namespace,
                    difference("kind"@, decimal(stored as nat), decimal(kind as nat)),
                ),
            ),
            _ => None,
        },
        DeclaredItem::Kind { name, declared, stored } => match stored {
            Some(s) if s@ != declared@ => Some(
                conflict("kind"@, name@, namespace, "stored declaration differs"@),
            ),
            _ => None,
        },
    }
}

/// Whether a declaration adds something.
pub open spec fn adds(item: DeclaredItem) -> bool {
    match item {
        DeclaredItem::EntityType { name: _, stored_blob } => stored_blob is None,
        DeclaredItem::Predicate { decl: _, row } => row is None,
        DeclaredItem::RelationType { decl: _, row } => row is None,
        DeclaredItem::Extractor { name: _, kind: _, stored_kind } => stored_kind is None,
        DeclaredItem::Kind { name: _, declared: _, stored } => stored is None,
    }
}

/// The first conflict among declarations.
pub open spec fn first_conflict(items: Seq<DeclaredItem>, namespace: Seq<char>) -> Option<
    ErrorView,
>
    decreases items.len(),
{
    if items.len() == 0 {
        None
    } else {
        match first_conflict(items.drop_last(), namespace) {
            Some(e) => Some(e),
            None => item_conflict(items.last(), namespace),
        }
    }
}

/// Whether every declaration is already stored as it is declared.
pub open spec fn nothing_new(items: Seq<DeclaredItem>) -> bool {
    forall|i: int| 0 <= i < items.len() ==> !adds(#[trigger] items[i])
}

/// The outcome of a merge without conflicts.
#[derive(Clone, Copy, Debug, PartialEq, Eq)]
pub struct MergeSummary {
    /// The active version of the namespace, where it has one.
    pub current_version: Option<u32>,
    /// Whether the upload changes nothing.
    pub all_idempotent: bool,
}

fn schema_conflict(kind: &'static str, name: &str, namespace: &str, text: String) -> (r: OpError)
    ensures
        r@ == conflict(kind@, name@, namespace@, text@),
{
    OpError::SchemaConflict {
        kind,
        name: name.to_owned(),
        namespace: namespace.to_owned(),
        conflict: text,
    }
}

/// Classifies one declaration: whether it adds something, or its conflict.
fn classify_item(item: &DeclaredItem, namespace: &str) -> (r: Result<bool, OpError>)
    ensures
        match item_conflict(*item, namespace@) {
            Some(e) => fails(r, e),
            None => r == Ok::<bool, OpError>(adds(*item)),
        },
{
    match item {
        DeclaredItem::EntityType { name, stored_blob } => match stored_blob {
            None => Ok(true),
            Some(blob) => {
                if blob.len() > 0 {
                    return Err(
                        schema_conflict(
                            "entity_type",
                            name,
                            namespace,
                            "stored schema_blob is non-empty; merge requires a matching blob".to_owned(),
                        ),
                    );
                }
                Ok(false)
            },
        },
        DeclaredItem::Predicate { decl, row } => match row {
            None => Ok(true),
            Some(stored) => {
                let diff = predicate_diff(decl, stored);
                assert(texts(diff@).len() == diff@.len());
                if diff.len() > 0 {
                    return Err(
                        schema_conflict("predicate", &decl.name, namespace, join_list(&diff, ", ")),
                    );
                }
                Ok(false)
            },
        },
        DeclaredItem::RelationType { decl, row } => match row {
            None => Ok(true),
            Some(stored) => {
                let diff = relation_diff(decl, stored);
                assert(texts(diff@).len() == diff@.len());
                if diff.len() > 0 {
                    return Err(
                        schema_conflict(
                            "relation_type",
                            &decl.name,
                            namespace,
                            join_list(&diff, ", "),
                        ),
                    );
                }
                Ok(false)
            },
        },
        DeclaredItem::Extractor { name, kind, stored_kind } => match stored_kind {
            None => Ok(true),
            Some(stored) => {
                if *stored != *kind {
                    let old_text = number_text(*stored as u64);
                    let new_text = number_text(*kind as u64);
                    return Err(
                        schema_conflict(
                            "extractor",
                            name,
                            namespace,
                            describe("kind", &old_text, &new_text),
                        ),
                    );
                }
                Ok(false)
            },
        },
        DeclaredItem::Kind { name, declared, stored } => match stored {
            None => Ok(true),
            Some(s) => {
                if !eq_bytes(s, declared) {
                    return Err(
                        schema_conflict(
                            "kind",
                            name,
                            namespace,
                            "stored declaration differs".to_owned(),
                        ),
                    );
                }
                Ok(false)
            },
        },
    }
}

proof fn conflict_is_first(items: Seq<DeclaredItem>, namespace: Seq<char>, n: int)
    requires
        0 <= n <= items.len(),
        first_conflict(items.take(n), namespace) is Some,
    ensures
        first_conflict(items, namespace) == first_conflict(items.take(n), namespace),
    decreases items.len(),
{
    if n < items.len() {
        assert(items.drop_last().take(n) =~= items.take(n));
        conflict_is_first(items.drop_last(), namespace, n);
    } else {
        assert(items.take(n) =~= items);
    }
}

/// What merging a document comes to.
pub open spec fn classifies_merge(
    r: Result<MergeSummary, OpError>,
    namespace: Seq<char>,
    items: Vec<DeclaredItem>,
    current_version: Option<u32>,
) -> bool {
    match first_conflict(items@, namespace) {
        Some(e) => fails(r, e),
        None => r == Ok::<MergeSummary, OpError>(
            MergeSummary { current_version, all_idempotent: nothing_new(items@) },
        ),
    }
}

/// Classifies an upload against what is stored: the first conflict refuses it
/// whole, so that the active version stays live.
pub fn classify_schema_merge(
    namespace: &str,
    items: &Vec<DeclaredItem>,
    current_version: Option<u32>,
) -> (r: Result<MergeSummary, OpError>)
    ensures
        classifies_merge(r, namespace@, *items, current_version),
{
    let mut all_idempotent = true;
    for i in 0..items.len()
        invariant
            first_conflict(items@.take(i as int), namespace@) is None,
            all_idempotent == nothing_new(items@.take(i as int)),
    {
        proof {
            assert(items@.take(i + 1).drop_last() =~= items@.take(i as int));
            assert(items@.take(i + 1).last() == items@[i as int]);
        }
        match classify_item(&items[i], namespace) {
            Ok(added) => {
                if added {
                    assert(adds(items@.take(i + 1)[i as int]));
                    all_idempotent = false;
                } else {
                    proof {
                    assert forall|k: int|
                        0 <= k < i + 1 && nothing_new(items@.take(i as int)) implies !adds(
                        #[trigger] items@.take(i + 1)[k],
                    ) by {
                        if k < i {
                            assert(items@.take(i as int)[k] == items@.take(i + 1)[k]);
                        }
                    }
                    if !nothing_new(items@.take(i as int)) {
                        let k = choose|k: int|
                            0 <= k < i && adds(#[trigger] items@.take(i as int)[k]);
                        assert(adds(items@.take(i + 1)[k]));
                    }
                    }
                }
            },
            Err(e) => {
                proof {
                    conflict_is_first(items@, namespace@, i + 1);
                }
                return Err(e);
            },
        }
    }
    assert(items@.take(items@.len() as int) =~= items@);
    Ok(MergeSummary { current_version, all_idempotent })
}

/// Whether an item is stored exactly as it is declared.
pub open spec fn unchanged(item: DeclaredItem) -> bool {
    match item {
        DeclaredItem::EntityType { name: _, stored_blob } => stored_blob matches Some(b)
            && b@.len() == 0,
        DeclaredItem::Predicate { decl, row } => row matches Some(p) && {
            &&& p.kind_constraint == declared_kind(decl.kind)
            &&& p.object_type == decl.object_type
            &&& p.object_entity_type == decl.object_entity_type
            &&& p.description@ == description_of(decl.description)
            &&& p.stateful == decl.stateful
        },
        DeclaredItem::RelationType { decl, row } => row matches Some(q) && {
            &&& q.cardinality == declared_cardinality(decl.cardinality)
            &&& q.symmetric == decl.symmetric
            &&& q.description@ == description_of(decl.description)
        },
        DeclaredItem::Extractor { name: _, kind, stored_kind } => stored_kind == Some(kind),
        DeclaredItem::Kind { name: _, declared, stored } => stored matches Some(s) && s@
            == declared@,
    }
}

/// Uploading a schema again, unchanged, neither conflicts nor adds anything;
/// and a schema that adds nothing and has no conflict is stored as declared.
pub proof fn unchanged_schemas_merge(items: Seq<DeclaredItem>, namespace: Seq<char>)
    ensures
        (forall|i: int| 0 <= i < items.len() ==> unchanged(#[trigger] items[i])) <==> (
        first_conflict(items, namespace) is None && nothing_new(items)),
    decreases items.len(),
{
    if items.len() > 0 {
        let front = items.drop_last();
        unchanged_schemas_merge(front, namespace);
        unchanged_item_merges(items.last(), namespace);
        assert(forall|i: int| 0 <= i < front.len() ==> front[i] == #[trigger] items[i]);
        if forall|i: int| 0 <= i < items.len() ==> unchanged(#[trigger] items[i]) {
            assert forall|i: int| 0 <= i < front.len() implies unchanged(#[trigger] front[i]) by {
                assert(front[i] == items[i]);
            }
            assert(unchanged(items[items.len() - 1]));
            assert forall|i: int| 0 <= i < items.len() implies !adds(#[trigger] items[i]) by {
                if i < front.len() {
                    assert(!adds(front[i]));
                }
            }
        }
        if first_conflict(items, namespace) is None && nothing_new(items) {
            assert forall|i: int| 0 <= i < front.len() implies !adds(#[trigger] front[i]) by {
                assert(front[i] == items[i]);
            }
            assert(!adds(items[items.len() - 1]));
            assert forall|i: int| 0 <= i < items.len() implies unchanged(#[trigger] items[i]) by {
                if i < front.len() {
                    assert(unchanged(front[i]));
                }
            }
        }
    }
}

proof fn unchanged_item_merges(item: DeclaredItem, namespace: Seq<char>)
    ensures
        unchanged(item) <==> (item_conflict(item, namespace) is None && !adds(item)),
{
    match item {
        DeclaredItem::Predicate { decl, row } => {
            if let Some(p) = row {
                let d = predicate_differences(decl, p);
                if d.len() == 0 {
                    assert(p.kind_constraint == declared_kind(decl.kind));
                }
            }
        },
        _ => {},
    }
}

} // verus!
