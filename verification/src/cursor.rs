//! Continuation tokens for list reads.
//!
//! A cursor names the row a page ended on, the tenant that owns it, and the
//! version of the layout. The next page resumes strictly after that row.
use vstd::arithmetic::div_mod::{lemma_basic_div, lemma_div_plus_one, lemma_div_pos_is_pos};
use vstd::prelude::*;

use crate::bytes::{
    eq16_at, le_bytes, le_round_trip, le_value_round_trip, less16, lex_less, lex_order_is_strict,
    pow256_values, put_bytes, put_le, read_le, take16,
};
use crate::error::{fails, invalid, ErrorView, OpError};
use crate::scope::RowScope;

verus! {

/// The layout version.
pub const CURSOR_VERSION: u8 = 1;

/// `version(1) + namespace(4) + space(16) + id(16)`.
pub const CURSOR_LEN: usize = 37;

/// The tenant part of a token: the namespace number and the space id.
pub open spec fn scope_bytes(scope: RowScope) -> Seq<u8> {
    le_bytes(scope.namespace_id as nat, 4) + scope.space_id_bytes@
}

/// The bytes of a token.
pub open spec fn cursor_bytes(scope: RowScope, last_id: Seq<u8>) -> Seq<u8> {
    seq![CURSOR_VERSION] + scope_bytes(scope) + last_id
}

/// Whether bytes 1 to 20 of a token are the tenant part of `scope`.
pub open spec fn owned_by(cursor: Seq<u8>, scope: RowScope) -> bool {
    cursor.subrange(1, 21) == scope_bytes(scope)
}

/// Whether a token has this layout's length and version.
pub open spec fn well_formed(cursor: Seq<u8>) -> bool {
    cursor.len() == CURSOR_LEN && cursor[0] == CURSOR_VERSION
}

/// Appends the tenant part of a token.
pub fn put_scope(out: &mut Vec<u8>, scope: &RowScope)
    ensures
        final(out)@ == old(out)@ + scope_bytes(*scope),
{
    put_le(out, scope.namespace_id as u128, 4);
    put_bytes(out, scope.space_id_bytes.as_slice());
    assert(out@ =~= old(out)@ + scope_bytes(*scope));
}

/// Whether the tenant part of a token is that of `scope`.
pub fn scope_matches(cursor: &[u8], scope: &RowScope) -> (r: bool)
    requires
        cursor@.len() >= 21,
    ensures
        r == owned_by(cursor@, *scope),
{
    let ns = read_le(cursor, 1, 4);
    proof {
        let part = cursor@.subrange(1, 21);
        let head = cursor@.subrange(1, 5);
        let tail = cursor@.subrange(5, 21);
        assert(part =~= head + tail);
        le_value_round_trip(head);
        le_round_trip(scope.namespace_id as nat, 4);
        pow256_values();
        let want = scope_bytes(*scope);
        assert(want.take(4) =~= le_bytes(scope.namespace_id as nat, 4));
        assert(want.skip(4) =~= scope.space_id_bytes@);
        assert(part.take(4) =~= head);
        assert(part.skip(4) =~= tail);
    }
    ns == scope.namespace_id as u128 && eq16_at(cursor, 5, &scope.space_id_bytes)
}

/// Encodes a continuation token: resume strictly after `last_id` in `scope`.
#[must_use]
pub fn encode(scope: RowScope, last_id: [u8; 16]) -> (r: Vec<u8>)
    ensures
        r@ == cursor_bytes(scope, last_id@),
{
    let mut out: Vec<u8> = Vec::new();
    out.push(CURSOR_VERSION);
    put_scope(&mut out, &scope);
    put_bytes(&mut out, last_id.as_slice());
    assert(out@ =~= cursor_bytes(scope, last_id@));
    out
}

/// What reading a cursor back comes to.
pub open spec fn reads_cursor(
    r: Result<[u8; 16], OpError>,
    scope: RowScope,
    cursor: Seq<u8>,
) -> bool {
    &&& (!well_formed(cursor) ==> fails(r, ErrorView::InvalidRequest("malformed cursor"@)))
    &&& (well_formed(cursor) && !owned_by(cursor, scope) ==> fails(
        r,
        ErrorView::InvalidRequest("cursor does not belong to the caller's tenant"@),
    ))
    &&& (well_formed(cursor) && owned_by(cursor, scope) ==> (r matches Ok(id) && id@
        == cursor.subrange(21, 37)))
}

/// Decodes a token minted by [`encode`] for the caller's own scope.
pub fn decode(scope: RowScope, cursor: &[u8]) -> (r: Result<[u8; 16], OpError>)
    ensures
        reads_cursor(r, scope, cursor@),
{
    if cursor.len() != CURSOR_LEN || cursor[0] != CURSOR_VERSION {
        return Err(invalid("malformed cursor"));
    }
    if !scope_matches(cursor, &scope) {
        return Err(invalid("cursor does not belong to the caller's tenant"));
    }
    Ok(take16(cursor, 21))
}

/// What reading back a cursor that may be absent comes to.
pub open spec fn reads_cursor_or_none(
    r: Result<Option<[u8; 16]>, OpError>,
    scope: RowScope,
    cursor: Seq<u8>,
) -> bool {
    &&& (cursor.len() == 0 ==> r == Ok::<Option<[u8; 16]>, OpError>(None))
    &&& (cursor.len() > 0 && !well_formed(cursor) ==> fails(
        r,
        ErrorView::InvalidRequest("malformed cursor"@),
    ))
    &&& (well_formed(cursor) && !owned_by(cursor, scope) ==> fails(
        r,
        ErrorView::InvalidRequest("cursor does not belong to the caller's tenant"@),
    ))
    &&& (well_formed(cursor) && owned_by(cursor, scope) ==> (r matches Ok(Some(id)) && id@
        == cursor.subrange(21, 37)))
}

/// Decodes the optional request cursor: an empty one asks for the first page.
pub fn decode_opt(scope: RowScope, cursor: &[u8]) -> (r: Result<Option<[u8; 16]>, OpError>)
    ensures
        reads_cursor_or_none(r, scope, cursor@),
{
    if cursor.len() == 0 {
        return Ok(None);
    }
    match decode(scope, cursor) {
        Ok(id) => Ok(Some(id)),
        Err(e) => Err(e),
    }
}

/// Two tenants have one token prefix only when they are one tenant.
pub proof fn scope_bytes_injective(a: RowScope, b: RowScope)
    ensures
        scope_bytes(a).len() == 20,
        scope_bytes(a) == scope_bytes(b) ==> a == b,
{
    pow256_values();
    le_round_trip(a.namespace_id as nat, 4);
    le_round_trip(b.namespace_id as nat, 4);
    if scope_bytes(a) == scope_bytes(b) {
        assert(scope_bytes(a).take(4) =~= le_bytes(a.namespace_id as nat, 4));
        assert(scope_bytes(b).take(4) =~= le_bytes(b.namespace_id as nat, 4));
        assert(scope_bytes(a).skip(4) =~= a.space_id_bytes@);
        assert(scope_bytes(b).skip(4) =~= b.space_id_bytes@);
        assert(a.space_id_bytes =~= b.space_id_bytes);
    }
}

/// A token decodes, for the tenant it was minted for, to the id it was minted
/// with; for any other tenant it is well formed but not owned, so it is
/// refused.
pub proof fn cursor_round_trip(minted: RowScope, last_id: [u8; 16], caller: RowScope)
    ensures
        well_formed(cursor_bytes(minted, last_id@)),
        owned_by(cursor_bytes(minted, last_id@), caller) <==> minted == caller,
        cursor_bytes(minted, last_id@).subrange(21, 37) == last_id@,
{
    let c = cursor_bytes(minted, last_id@);
    scope_bytes_injective(minted, caller);
    scope_bytes_injective(caller, minted);
    assert(c.subrange(1, 21) =~= scope_bytes(minted));
    assert(c.subrange(21, 37) =~= last_id@);
}

/// The id that a functional closure gives an item.
pub open spec fn id_by<T, F: Fn(&T) -> [u8; 16]>(id_of: F, item: T) -> [u8; 16] {
    choose|id: [u8; 16]| call_ensures(id_of, (&item,), id)
}

/// Whether a closure gives every item one id.
pub open spec fn is_id_function<T, F: Fn(&T) -> [u8; 16]>(id_of: F) -> bool {
    &&& forall|item: &T| #[trigger] call_requires(id_of, (item,))
    &&& forall|item: &T, a: [u8; 16], b: [u8; 16]| #[trigger]
        call_ensures(id_of, (item,), a) && #[trigger] call_ensures(id_of, (item,), b) ==> a == b
}

/// Whether the id that a closure gives an item is what a call of it returns.
pub open spec fn returns_id<T, F: Fn(&T) -> [u8; 16]>(id_of: F, item: T) -> bool {
    call_ensures(id_of, (&item,), id_by(id_of, item))
}

/// The test that a row lies strictly after the resume point.
pub open spec fn follows<T>(ids: spec_fn(T) -> Seq<u8>, after: Option<Seq<u8>>) -> spec_fn(
    T,
) -> bool {
    |x: T| after matches Some(a) ==> lex_less(a, ids(x))
}

/// The items strictly after the resume point.
pub open spec fn remaining<T>(
    items: Seq<T>,
    ids: spec_fn(T) -> Seq<u8>,
    after: Option<Seq<u8>>,
) -> Seq<T> {
    items.filter(follows(ids, after))
}

/// The items of one page.
pub open spec fn page_of<T>(
    items: Seq<T>,
    ids: spec_fn(T) -> Seq<u8>,
    after: Option<Seq<u8>>,
    limit: nat,
) -> Seq<T> {
    let rest = remaining(items, ids, after);
    if rest.len() > limit {
        rest.take(limit as int)
    } else {
        rest
    }
}

/// Whether a page is followed by another: rows are left, and the page has a
/// last row to resume after.
pub open spec fn has_next<T>(
    items: Seq<T>,
    ids: spec_fn(T) -> Seq<u8>,
    after: Option<Seq<u8>>,
    limit: nat,
) -> bool {
    limit > 0 && remaining(items, ids, after).len() > limit
}

/// A resume point as bytes.
pub open spec fn resume_bytes(after: Option<[u8; 16]>) -> Option<Seq<u8>> {
    match after {
        Some(a) => Some(a@),
        None => None,
    }
}

/// Whether a page and its token are those of a candidate set.
pub open spec fn is_page<T, F: Fn(&T) -> [u8; 16]>(
    r: (Vec<T>, Vec<u8>),
    scope: RowScope,
    items: Seq<T>,
    resume_after: Option<[u8; 16]>,
    limit: nat,
    id_of: F,
) -> bool {
    let ids = |x: T| id_by(id_of, x)@;
    let after = resume_bytes(resume_after);
    let page = page_of(items, ids, after, limit);
    &&& r.0@ == page
    &&& has_next(items, ids, after, limit) ==> r.1@ == cursor_bytes(scope, ids(page.last()))
    &&& !has_next(items, ids, after, limit) ==> r.1@ == Seq::<u8>::empty()
    &&& has_next(items, ids, after, limit) ==> returns_id(id_of, page.last())
}

/// Slices one page out of a candidate set that is sorted by id, and gives the
/// token of the next page, empty when there is none.
pub fn paginate<T, F: Fn(&T) -> [u8; 16]>(
    scope: RowScope,
    items: Vec<T>,
    resume_after: Option<[u8; 16]>,
    limit: usize,
    id_of: F,
) -> (r: (Vec<T>, Vec<u8>))
    requires
        is_id_function::<T, F>(id_of),
    ensures
        is_page(r, scope, items@, resume_after, limit as nat, id_of),
        resume_after is Some ==> forall|i: int|
            0 <= i < items@.len() ==> returns_id(id_of, #[trigger] items@[i]),
{
    let ghost ids = |x: T| id_by(id_of, x)@;
    let ghost after = resume_bytes(resume_after);
    let ghost keep = follows(ids, after);
    let ghost all = items@;
    let mut kept: Vec<T> = Vec::new();
    for item in it: items
        invariant
            it.seq() == all,
            is_id_function::<T, F>(id_of),
            ids == (|x: T| id_by(id_of, x)@),
            after == resume_bytes(resume_after),
            keep == follows(ids, after),
            kept@ == all.take(it.index()).filter(keep),
            resume_after is Some ==> forall|i: int|
                0 <= i < it.index() ==> returns_id(id_of, #[trigger] all[i]),
    {
        let stays = match &resume_after {
            Some(a) => {
                let id = id_of(&item);
                assert(returns_id(id_of, item));
                less16(a, &id)
            },
            None => true,
        };
        proof {
            let n = it.index();
            assert(all.take(n + 1).drop_last() =~= all.take(n));
            assert(all.take(n + 1).last() == item);
            reveal(Seq::filter);
        }
        if stays {
            kept.push(item);
        }
    }
    proof {
        assert(all.take(all.len() as int) =~= all);
    }
    let ghost rest = kept@;
    let has_more = kept.len() > limit;
    kept.truncate(limit);
    assert(kept@ =~= page_of(all, ids, after, limit as nat));
    let next = if has_more && kept.len() > 0 {
        let last = &kept[kept.len() - 1];
        let id = id_of(last);
        assert(returns_id(id_of, *last));
        encode(scope, id)
    } else {
        Vec::new()
    };
    (kept, next)
}

/// Whether ids rise strictly along the list.
pub open spec fn sorted_by_id<T>(items: Seq<T>, ids: spec_fn(T) -> Seq<u8>) -> bool {
    &&& forall|i: int| 0 <= i < items.len() ==> (#[trigger] ids(items[i])).len() == 16
    &&& forall|i: int, j: int|
        #![trigger items[i], items[j]]
        0 <= i < j < items.len() ==> lex_less(ids(items[i]), ids(items[j]))
}

proof fn remaining_is_suffix<T>(items: Seq<T>, ids: spec_fn(T) -> Seq<u8>, k: int)
    requires
        sorted_by_id(items, ids),
        0 <= k < items.len(),
    ensures
        remaining(items, ids, Some(ids(items[k]))) == items.skip(k + 1),
    decreases items.len(),
{
    reveal(Seq::filter);
    let a = ids(items[k]);
    let keep = follows(ids, Some(a));
    let n = items.len() - 1;
    let front = items.drop_last();
    if k < n {
        remaining_is_suffix(front, ids, k);
        assert(front[k] == items[k]);
        assert(keep(items[n]));
        assert(items.skip(k + 1) =~= front.skip(k + 1).push(items[n]));
    } else {
        lex_order_is_strict(a, a, a);
        assert forall|i: int| 0 <= i < items.len() implies !keep(#[trigger] items[i]) by {
            if i < k {
                lex_order_is_strict(ids(items[i]), a, a);
            }
        }
        filter_none(items, keep);
        assert(items.skip(k + 1) =~= Seq::<T>::empty());
    }
}

proof fn filter_none<T>(items: Seq<T>, keep: spec_fn(T) -> bool)
    requires
        forall|i: int| 0 <= i < items.len() ==> !keep(#[trigger] items[i]),
    ensures
        items.filter(keep) == Seq::<T>::empty(),
    decreases items.len(),
{
    reveal(Seq::filter);
    if items.len() > 0 {
        filter_none(items.drop_last(), keep);
    }
}

proof fn filter_all<T>(items: Seq<T>, keep: spec_fn(T) -> bool)
    requires
        forall|i: int| 0 <= i < items.len() ==> keep(#[trigger] items[i]),
    ensures
        items.filter(keep) == items,
    decreases items.len(),
{
    reveal(Seq::filter);
    if items.len() > 0 {
        filter_all(items.drop_last(), keep);
        assert(items.drop_last().push(items.last()) =~= items);
    }
}

proof fn remaining_of_start<T>(items: Seq<T>, ids: spec_fn(T) -> Seq<u8>)
    ensures
        remaining(items, ids, None) == items,
{
    let keep = follows(ids, None);
    assert forall|i: int| 0 <= i < items.len() implies keep(#[trigger] items[i]) by {}
    filter_all(items, keep);
}

/// All the rows that a client sees by following the tokens from a resume
/// point until a page has none.
pub open spec fn walk<T>(
    items: Seq<T>,
    ids: spec_fn(T) -> Seq<u8>,
    after: Option<Seq<u8>>,
    limit: nat,
    pages: nat,
) -> Seq<T>
    decreases pages,
{
    if pages == 0 {
        Seq::empty()
    } else if has_next(items, ids, after, limit) {
        let page = page_of(items, ids, after, limit);
        page + walk(items, ids, Some(ids(page.last())), limit, (pages - 1) as nat)
    } else {
        page_of(items, ids, after, limit)
    }
}

/// How many pages a client reads by following the tokens from a resume point
/// until a page has none, of at most `pages`.
pub open spec fn pages_read<T>(
    items: Seq<T>,
    ids: spec_fn(T) -> Seq<u8>,
    after: Option<Seq<u8>>,
    limit: nat,
    pages: nat,
) -> nat
    decreases pages,
{
    if pages == 0 {
        0
    } else if has_next(items, ids, after, limit) {
        let last = page_of(items, ids, after, limit).last();
        1 + pages_read(items, ids, Some(ids(last)), limit, (pages - 1) as nat)
    } else {
        1
    }
}

/// The number of pages that `n` rows fill: an empty list has one, too.
pub open spec fn page_count(n: nat, limit: nat) -> nat
    recommends
        limit > 0,
{
    if n == 0 {
        1
    } else {
        ((n + limit - 1) / (limit as int)) as nat
    }
}

proof fn page_count_steps(n: nat, limit: nat)
    requires
        limit > 0,
    ensures
        n <= limit ==> page_count(n, limit) == 1,
        n > limit ==> page_count(n, limit) == 1 + page_count((n - limit) as nat, limit),
{
    let d = limit as int;
    if n > limit {
        lemma_div_plus_one(n - 1, d);
        lemma_div_pos_is_pos(n - 1, d);
    } else if n > 0 {
        lemma_div_plus_one(n - 1, d);
        lemma_basic_div(n - 1, d);
    }
}

proof fn walk_from<T>(items: Seq<T>, ids: spec_fn(T) -> Seq<u8>, k: int, limit: nat, pages: nat)
    requires
        sorted_by_id(items, ids),
        limit > 0,
        0 <= k < items.len(),
        pages >= page_count((items.len() - k - 1) as nat, limit),
    ensures
        walk(items, ids, Some(ids(items[k])), limit, pages) == items.skip(k + 1),
        pages_read(items, ids, Some(ids(items[k])), limit, pages) == page_count(
            (items.len() - k - 1) as nat,
            limit,
        ),
    decreases pages,
{
    remaining_is_suffix(items, ids, k);
    let rest = items.skip(k + 1);
    page_count_steps(rest.len(), limit);
    if rest.len() > limit {
        let page = rest.take(limit as int);
        let last = k + limit;
        assert(page.last() == items[last]);
        walk_from(items, ids, last, limit, (pages - 1) as nat);
        assert(page + items.skip(last + 1) =~= rest);
    }
}

/// Following the tokens over rows that do not change shows every row on
/// exactly one page, in order: no overlap and no gap. It takes as many reads as
/// the rows fill pages, and one for no rows.
pub proof fn pages_cover_without_overlap_or_gap<T>(
    items: Seq<T>,
    ids: spec_fn(T) -> Seq<u8>,
    limit: nat,
    pages: nat,
)
    requires
        sorted_by_id(items, ids),
        limit > 0,
        pages >= page_count(items.len(), limit),
    ensures
        walk(items, ids, None, limit, pages) == items,
        pages_read(items, ids, None, limit, pages) == page_count(items.len(), limit),
{
    remaining_of_start(items, ids);
    page_count_steps(items.len(), limit);
    let page = page_of(items, ids, None, limit);
    if items.len() > limit {
        let last = limit - 1;
        assert(page == items.take(limit as int));
        assert(page.last() == items[last]);
        walk_from(items, ids, last, limit, (pages - 1) as nat);
        assert(has_next(items, ids, None, limit));
        assert(walk(items, ids, None, limit, pages) == page + items.skip(last + 1));
        assert(page + items.skip(last + 1) =~= items);
    } else {
        assert(!has_next(items, ids, None, limit));
        assert(page == items);
    }
}

} // verus!
