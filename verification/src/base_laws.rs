//! What the building blocks of the handlers hold: cursors, pages, numbers and
//! texts.
use vstd::prelude::*;

use vstd::utf8::encode_utf8;

use crate::bytes::{lex_less, low32};
use crate::cursor::{cursor_bytes, id_by, is_page, reads_cursor, reads_cursor_or_none, remaining};
use crate::entity_laws::filed_for;
use crate::error::{
    maps_entity_writer, maps_schema_writer, maps_statement_writer, OpError, WriterError,
};
use crate::hash::flag_byte;
use crate::labels::{renders_object, renders_value, value_label, EntityName};
use crate::projection::{evidence_memory, EvidenceMemories, StatementEvidence};
use crate::ranking::filter_keeps_what_passes;
use crate::recall::wire_count;
use crate::registry_cascade::files_registry;
use crate::scope::RowScope;
use crate::statement::{
    admits_qname, finds_colon, splits_qname, StatementObject, StatementValue,
};
use crate::statement_reads::{admits_limit, shows_nothing, StatementListResponseFrame};
use crate::subscribe::{advances, takes_next};
use crate::text::{
    decimal, first_chars, has_text, hex, hex_digit, signed_decimal, trimmed, white_space,
    word_state, words,
};
use crate::write::{files_request, Phase, Write};

verus! {

// Cursors and pages.

/// A cursor gives back the id that it was minted with to the tenant it was
/// minted for, and is refused to any other.
pub proof fn cursors_give_back_their_id(
    r: Result<[u8; 16], OpError>,
    minted: RowScope,
    id: [u8; 16],
    caller: RowScope,
)
    requires
        reads_cursor(r, caller, cursor_bytes(minted, id@)),
    ensures
        r is Ok <==> minted == caller,
        r matches Ok(x) ==> x == id,
        r matches Err(e) ==> e is InvalidRequest,
{
    crate::cursor::cursor_round_trip(minted, id, caller);
    if let Ok(x) = r {
        assert(x@ == id@);
        assert(x =~= id);
    }
}

/// Only the bytes of a cursor of the caller are read, and they give the id that
/// they were made of.
pub proof fn cursors_are_those_of_the_caller(
    r: Result<[u8; 16], OpError>,
    cursor: Seq<u8>,
    caller: RowScope,
)
    requires
        reads_cursor(r, caller, cursor),
    ensures
        r matches Ok(id) ==> cursor == cursor_bytes(caller, id@),
        r is Err ==> forall|id: [u8; 16]| cursor != #[trigger] cursor_bytes(caller, id@),
        r matches Err(e) ==> e is InvalidRequest,
{
    if let Ok(id) = r {
        assert(cursor =~= cursor.subrange(0, 1) + cursor.subrange(1, 21) + cursor.subrange(21, 37));
        assert(cursor =~= cursor_bytes(caller, id@));
    }
    assert forall|id: [u8; 16]| r is Err implies cursor != #[trigger] cursor_bytes(
        caller,
        id@,
    ) by {
        crate::cursor::cursor_round_trip(caller, id, caller);
    }
}

/// An absent cursor starts at the first item; any other is read as one.
pub proof fn absent_cursors_start_at_the_first(
    r: Result<Option<[u8; 16]>, OpError>,
    cursor: Seq<u8>,
    minted: RowScope,
    id: [u8; 16],
    caller: RowScope,
)
    requires
        reads_cursor_or_none(r, caller, cursor),
    ensures
        cursor.len() == 0 ==> (r matches Ok(x) && x is None),
        cursor.len() > 0 ==> !(r matches Ok(x) && x is None),
        cursor == cursor_bytes(minted, id@) ==> if minted == caller {
            r matches Ok(Some(x)) && x == id
        } else {
            r is Err
        },
{
    crate::cursor::cursor_round_trip(minted, id, caller);
    if cursor == cursor_bytes(minted, id@) && minted == caller {
        let x = r->Ok_0->0;
        assert(x@ == id@);
        assert(x =~= id);
    }
}

/// A page holds items after the resume point, at most as many as its limit, and
/// all of them where they fit; a page that is not the last has the token of its
/// last item.
pub proof fn pages_hold_what_follows<T, F: Fn(&T) -> [u8; 16]>(
    r: (Vec<T>, Vec<u8>),
    scope: RowScope,
    items: Seq<T>,
    resume_after: Option<[u8; 16]>,
    limit: nat,
    id_of: F,
    x: T,
    i: int,
)
    requires
        is_page(r, scope, items, resume_after, limit, id_of),
        items.contains(x),
    ensures
        r.0@.len() <= limit,
        0 <= i < r.0@.len() ==> items.contains(r.0@[i]) && (resume_after matches Some(a)
            ==> lex_less(a@, id_by(id_of, r.0@[i])@)),
        r.0@.len() < limit && (resume_after matches Some(a) ==> lex_less(a@, id_by(id_of, x)@))
            ==> r.0@.contains(x),
        r.0@.len() < limit ==> r.1@.len() == 0,
        r.1@.len() > 0 ==> r.0@.len() == limit && r.1@ == cursor_bytes(
            scope,
            id_by(id_of, r.0@.last())@,
        ),
{
    let ids = |y: T| id_by(id_of, y)@;
    let after = crate::cursor::resume_bytes(resume_after);
    let test = crate::cursor::follows(ids, after);
    let rest = remaining(items, ids, after);
    filter_keeps_what_passes(items, test, x);
    if 0 <= i < r.0@.len() {
        assert(r.0@[i] == rest[i]);
        assert(rest.contains(rest[i]));
        filter_keeps_what_passes(items, test, rest[i]);
    }
}

/// The limit of a list is one to a thousand.
pub proof fn limits_are_bounded(r: Result<(), OpError>, limit: u32)
    requires
        admits_limit(r, limit),
    ensures
        r is Ok <==> 1 <= limit <= 1000,
        r matches Err(e) ==> e is InvalidRequest,
{
}

/// A list of nothing shows nothing, and is the last page.
pub proof fn empty_lists_show_nothing(r: StatementListResponseFrame)
    requires
        shows_nothing(r),
    ensures
        r.items@.len() == 0 && r.next_cursor@.len() == 0 && r.cumulative_count == 0 && r.is_final,
{
}

// Sequence numbers.

/// Numbers rise by one, and never fall: a noted number is passed, and a smaller
/// one changes nothing.
pub proof fn numbers_rise_by_one(before: u64, given: u64, r: u64, noted: u64, floor: u64)
    requires
        takes_next(before, given, r),
        advances(given, noted, floor),
    ensures
        r > before && r - before == 1 && given == r,
        noted >= given && noted >= floor,
        noted == given || noted == floor,
{
}

// Writes.

/// A write is filed under the request that asked for it, for its caller.
pub proof fn writes_are_filed(
    w: Write,
    request_id: [u8; 16],
    caller: RowScope,
    request_hash: [u8; 32],
    phase: Phase,
    registry: Write,
    domain: Seq<char>,
)
    requires
        files_request(w, request_id, caller, request_hash, phase),
        files_registry(registry, request_id, caller, phase, domain),
    ensures
        filed_for(w, request_id, caller) && w.phase == phase && w.request_hash == Some(request_hash),
        filed_for(registry, request_id, caller) && registry.phase == phase,
{
}

// Errors.

/// A failed write of an entity is told as not found exactly where the store
/// says so.
pub proof fn entity_writes_fail_as_told(r: OpError, err: WriterError)
    requires
        maps_entity_writer(r, err),
    ensures
        r is NotFound <==> (err matches WriterError::Internal(m) && has_text(m@, "not found"@)),
        r is NotFound || r is ExecError,
{
}

/// A failed write of a statement is told as what the store names: an unknown
/// predicate or subject is not found, and a statement that is gone already is a
/// conflict.
pub proof fn statement_writes_fail_as_told(r: OpError, err: WriterError)
    requires
        maps_statement_writer(r, err),
    ensures
        err matches WriterError::Internal(m) ==> {
            let unknown = has_text(m@, "UnknownPredicate"@) || has_text(m@, "UnknownSubject"@);
            let gone = has_text(m@, "AlreadyTombstoned"@) || has_text(m@, "AlreadySuperseded"@)
                || has_text(m@, "EventCannotSupersede"@);
            &&& r is NotFound <==> unknown
            &&& r is Conflict <==> !unknown && gone
            &&& r is ExecError <==> !unknown && !gone
        },
        err !is Internal ==> r is ExecError,
{
}

/// A failed write of a schema keeps its kind.
pub proof fn schema_writes_fail_as_told(r: OpError, err: WriterError)
    requires
        maps_schema_writer(r, err),
    ensures
        r is Conflict <==> err is Conflict,
        r is Overloaded <==> err is Overloaded,
        r is Internal <==> err is Internal,
        err matches WriterError::Conflict(m) ==> r->Conflict_0@ == m@,
        err matches WriterError::Internal(m) ==> r->Internal_0@ == m@,
{
}

// Predicate names.

/// The name of a predicate is a namespace and a name around the first colon, in
/// at most 96 bytes.
pub proof fn predicate_names_are_qualified(
    admitted: Result<(), OpError>,
    split: Result<(&str, &str), OpError>,
    at: Option<usize>,
    q: Seq<char>,
)
    requires
        admits_qname(admitted, q),
        splits_qname(split, q),
        finds_colon(at, q),
    ensures
        admitted is Ok <==> q.contains(':') && encode_utf8(q).len() <= 96,
        split is Ok <==> q.contains(':'),
        split matches Ok(p) ==> q == p.0@.push(':') + p.1@ && !p.0@.contains(':'),
        at is Some <==> q.contains(':'),
        at matches Some(i) ==> i < q.len() && q[i as int] == ':' && forall|k: int|
            0 <= k < i ==> #[trigger] q[k] != ':',
{
    if let Some(i) = at {
        assert(q.contains(q[i as int]));
        assert forall|k: int| 0 <= k < i implies #[trigger] q[k] != ':' by {
            assert(q.take(i as int)[k] == q[k]);
            if q[k] == ':' {
                assert(q.take(i as int).contains(':'));
            }
        }
    }
}

// Numbers as text.

proof fn decimals_are_digits(n: nat)
    ensures
        decimal(n).len() > 0,
        forall|i: int| 0 <= i < decimal(n).len() ==> '0' as nat <= #[trigger] decimal(n)[i] as nat
            <= '9' as nat,
        decimal(n).last() as nat == '0' as nat + n % 10,
        n < 10 ==> decimal(n).len() == 1,
        n >= 10 ==> decimal(n).len() > 1 && decimal(n).drop_last() == decimal(n / 10),
    decreases n,
{
    if n >= 10 {
        decimals_are_digits(n / 10);
        assert(decimal(n).drop_last() =~= decimal(n / 10));
        assert forall|i: int| 0 <= i < decimal(n).len() implies '0' as nat
            <= #[trigger] decimal(n)[i] as nat <= '9' as nat by {
            if i < decimal(n / 10).len() {
                assert(decimal(n)[i] == decimal(n / 10)[i]);
            }
        }
    }
}

/// A number is written in decimal digits, the last of them its remainder by
/// ten.
pub proof fn numbers_are_written_in_digits(n: nat, i: int)
    ensures
        decimal(n).len() > 0,
        0 <= i < decimal(n).len() ==> '0' as nat <= decimal(n)[i] as nat <= '9' as nat,
        decimal(n).last() as nat == '0' as nat + n % 10,
        n >= 10 ==> decimal(n).drop_last() == decimal(n / 10),
{
    decimals_are_digits(n);
}

/// Two numbers that are written alike are the same.
pub proof fn written_numbers_differ(a: nat, b: nat)
    requires
        decimal(a) == decimal(b),
    ensures
        a == b,
    decreases a,
{
    decimals_are_digits(a);
    decimals_are_digits(b);
    assert(a % 10 == b % 10);
    if a >= 10 && b >= 10 {
        written_numbers_differ(a / 10, b / 10);
    } else if a >= 10 {
        assert(decimal(a).len() > 1);
    } else if b >= 10 {
        assert(decimal(b).len() > 1);
    }
}

/// A negative number is written with a sign before its magnitude.
pub proof fn negative_numbers_have_a_sign(n: int)
    ensures
        n >= 0 ==> signed_decimal(n) == decimal(n as nat),
        n < 0 ==> signed_decimal(n).len() == decimal((-n) as nat).len() + 1 && signed_decimal(n)[0]
            == '-' && signed_decimal(n).skip(1) == decimal((-n) as nat),
{
    if n < 0 {
        assert(signed_decimal(n).skip(1) =~= decimal((-n) as nat));
    }
}

proof fn hex_digits_differ(a: nat, b: nat)
    requires
        a < 16,
        b < 16,
        hex_digit(a) == hex_digit(b),
    ensures
        a == b,
{
}

/// Bytes are written in two digits each, and bytes that are written alike are
/// the same.
pub proof fn written_bytes_differ(a: Seq<u8>, b: Seq<u8>)
    ensures
        hex(a).len() == 2 * a.len(),
        hex(a) == hex(b) ==> a == b,
    decreases a.len(),
{
    if a.len() > 0 {
        written_bytes_differ(a.drop_last(), a.drop_last());
    }
    hex_lengths(b);
    if hex(a) == hex(b) {
        assert(a.len() == b.len());
        if a.len() > 0 {
            let (x, y) = (hex(a), hex(b));
            let n = x.len() as int;
            assert(x[n - 1] == hex_digit((a.last() % 16) as nat));
            assert(y[n - 1] == hex_digit((b.last() % 16) as nat));
            assert(x[n - 2] == hex_digit((a.last() / 16) as nat));
            assert(y[n - 2] == hex_digit((b.last() / 16) as nat));
            hex_digits_differ((a.last() % 16) as nat, (b.last() % 16) as nat);
            hex_digits_differ((a.last() / 16) as nat, (b.last() / 16) as nat);
            assert(a.last() == b.last());
            assert(x.take(n - 2) =~= hex(a.drop_last()));
            assert(y.take(n - 2) =~= hex(b.drop_last()));
            written_bytes_differ(a.drop_last(), b.drop_last());
            assert(a =~= a.drop_last().push(a.last()));
            assert(b =~= b.drop_last().push(b.last()));
        } else {
            assert(a =~= b);
        }
    }
}

proof fn hex_lengths(a: Seq<u8>)
    ensures
        hex(a).len() == 2 * a.len(),
    decreases a.len(),
{
    if a.len() > 0 {
        hex_lengths(a.drop_last());
    }
}

// Words.

proof fn later_words_join(a: Seq<char>, t: Seq<char>)
    requires
        word_state(a).1.len() == 0,
    ensures
        word_state(a + t).0 == word_state(a).0 + word_state(t).0,
        word_state(a + t).1 == word_state(t).1,
    decreases t.len(),
{
    if t.len() == 0 {
        assert(a + t =~= a);
        assert(word_state(a).0 + word_state(t).0 =~= word_state(a).0);
        assert(word_state(a).1 =~= word_state(t).1);
    } else {
        let front = t.drop_last();
        later_words_join(a, front);
        assert((a + t).drop_last() =~= a + front);
        assert((a + t).last() == t.last());
        let (d, o) = word_state(front);
        if white_space(t.last()) && o.len() > 0 {
            assert(word_state(a).0 + d.push(o) =~= (word_state(a).0 + d).push(o));
        }
    }
}

/// The words of two texts with white space between them are the words of the
/// first and then those of the second.
pub proof fn words_of_two_texts(a: Seq<char>, c: char, b: Seq<char>)
    requires
        white_space(c),
    ensures
        words(a.push(c) + b) == words(a) + words(b),
{
    let s = a.push(c);
    assert(s.drop_last() =~= a);
    assert(word_state(s).1.len() == 0);
    later_words_join(s, b);
    assert(word_state(s).0 == words(a)) by {
        if word_state(a).1.len() == 0 {
            assert(word_state(s).0 == word_state(a).0);
        }
    }
    let (d, o) = word_state(b);
    if o.len() > 0 {
        assert((words(a) + d).push(o) =~= words(a) + d.push(o));
    }
}

proof fn unbroken_texts_stay_open(s: Seq<char>)
    requires
        forall|i: int| 0 <= i < s.len() ==> !white_space(#[trigger] s[i]),
    ensures
        word_state(s).0.len() == 0,
        word_state(s).1 == s,
    decreases s.len(),
{
    if s.len() > 0 {
        let front = s.drop_last();
        assert forall|i: int| 0 <= i < front.len() implies !white_space(#[trigger] front[i]) by {
            assert(s[i] == front[i]);
        }
        unbroken_texts_stay_open(front);
        assert(!white_space(s[s.len() - 1]));
        assert(front.push(s.last()) =~= s);
    }
}

/// A text without white space is one word.
pub proof fn unbroken_texts_are_one_word(s: Seq<char>)
    requires
        s.len() > 0,
        forall|i: int| 0 <= i < s.len() ==> !white_space(#[trigger] s[i]),
    ensures
        words(s) == seq![s],
{
    unbroken_texts_stay_open(s);
    assert(words(s) =~= seq![s]);
}

/// White space at either end of a text does not count, and what is left has
/// none there.
pub proof fn trimming_drops_outer_white_space(s: Seq<char>, c: char)
    requires
        white_space(c),
    ensures
        trimmed(seq![c] + s) == trimmed(s),
        trimmed(s.push(c)) == trimmed(s),
        trimmed(s).len() > 0 ==> !white_space(trimmed(s)[0]) && !white_space(trimmed(s).last()),
        s.len() > 0 && !white_space(s[0]) && !white_space(s.last()) ==> trimmed(s) == s,
    decreases s.len(),
{
    assert((seq![c] + s).skip(1) =~= s);
    let p = s.push(c);
    assert(p.drop_last() =~= s);
    if s.len() == 0 {
        assert(p.skip(1) =~= s);
    } else if white_space(s[0]) {
        assert(p[0] == s[0]);
        assert(p.skip(1) =~= s.skip(1).push(c));
        trimming_drops_outer_white_space(s.skip(1), c);
    } else if white_space(s.last()) {
        assert(p[0] == s[0]);
        trimming_drops_outer_white_space(s.drop_last(), c);
    } else {
        assert(p[0] == s[0]);
    }
}

/// White space is what Unicode says it is: blanks, tabs and line ends, and no
/// letter, digit or mark of ASCII.
pub proof fn white_space_is_blank(c: char)
    ensures
        c == ' ' || c == '\t' || c == '\n' || c == '\r' ==> white_space(c),
        0x21 <= c as u32 <= 0x7E ==> !white_space(c),
        c as u32 == 0xA0 || c as u32 == 0x3000 || c as u32 == 0x2003 ==> white_space(c),
{
}

/// The head of a text is its first characters, all of them where they fit.
pub proof fn heads_are_first_characters(s: Seq<char>, n: nat, i: int)
    ensures
        first_chars(s, n).len() <= n || first_chars(s, n) == s,
        s.len() <= n ==> first_chars(s, n) == s,
        s.len() > n ==> first_chars(s, n).len() == n,
        0 <= i < first_chars(s, n).len() ==> first_chars(s, n)[i] == s[i],
{
}

/// A text holds every part of it.
pub proof fn texts_hold_their_parts(before: Seq<char>, part: Seq<char>, after: Seq<char>)
    ensures
        has_text(before + part + after, part),
        part.len() > before.len() ==> !has_text(before, part),
{
    let whole = before + part + after;
    assert(whole.subrange(before.len() as int, (before.len() + part.len()) as int) =~= part);
    assert(crate::text::text_at(whole, part, before.len() as int));
}

// Labels and counts.

/// A value is labelled as it reads: a text by itself, a number by its digits, a
/// truth by its word.
pub proof fn values_are_labelled_as_they_read(r: String, v: StatementValue)
    requires
        renders_value(r, v),
    ensures
        v matches StatementValue::Text(s) ==> r@ == s@,
        v matches StatementValue::Integer(n) ==> r@ == signed_decimal(n as int),
        v matches StatementValue::UnixNanos(t) ==> r@ == decimal(t as nat),
        v matches StatementValue::Bool(b) ==> r@ == (if b {
            "true"@
        } else {
            "false"@
        }),
        v matches StatementValue::Float { bits: _, shown } ==> r@ == shown@,
        v matches StatementValue::Blob(b) ==> r@ == "<"@ + decimal(b@.len()) + " bytes>"@,
{
}

/// An object is labelled by the name of its entity or by its value.
pub proof fn objects_are_labelled(r: String, o: StatementObject, names: Vec<EntityName>)
    requires
        renders_object(r, o, names),
    ensures
        o matches StatementObject::Value(v) ==> r@ == value_label(v),
        o matches StatementObject::EntityRef(id) ==> r@ == crate::labels::name_of(names@, id),
        o matches StatementObject::MemoryRef(id) ==> r@ == "memory:"@ + crate::labels::hex_list(id@),
        o matches StatementObject::StatementRef(id) ==> r@ == "statement:"@
            + crate::labels::hex_list(id@),
{
}

/// A count is shown as it is as far as it fits.
pub proof fn counts_are_shown(n: nat, b: bool)
    ensures
        n <= u32::MAX ==> wire_count(n) == n && low32(n) == n,
        n > u32::MAX ==> wire_count(n) == u32::MAX,
        flag_byte(b) == 1 <==> b,
        flag_byte(b) <= 1,
{
}

/// The memory of a statement is the first that evidences it, while the
/// statement stands.
pub proof fn statements_stand_on_their_first_evidence(s: StatementEvidence)
    ensures
        s.tombstoned ==> evidence_memory(Some(s)) is None,
        !s.tombstoned ==> (s.evidence matches EvidenceMemories::Inline(v) ==> if v@.len() > 0 {
            evidence_memory(Some(s)) == Some(v@[0])
        } else {
            evidence_memory(Some(s)) is None
        }),
        evidence_memory(None) is None,
{
}

} // verus!
