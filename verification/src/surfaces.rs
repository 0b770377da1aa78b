//! The names that a cue may be about.
use vstd::prelude::*;

use crate::bytes::has16;
use crate::recall::MAX_SUBJECT_CANDIDATES;
use crate::single::Single;
use crate::text::{
    alphanumeric, chars_each, split_words, string_of, texts, trim_text, trimmed, uppercase, words,
};

verus! {

/// A word without the punctuation at its ends.
pub open spec fn bare_word(w: Seq<char>) -> Seq<char>
    decreases w.len(),
{
    if w.len() == 0 {
        w
    } else if !alphanumeric(w[0]) {
        bare_word(w.skip(1))
    } else if !alphanumeric(w.last()) {
        bare_word(w.drop_last())
    } else {
        w
    }
}

/// A word without the possessive endings of one apostrophe.
pub open spec fn without_possessive(w: Seq<char>, apostrophe: char) -> Seq<char>
    decreases w.len(),
{
    if w.len() >= 2 && w[w.len() - 2] == apostrophe && w.last() == 's' {
        without_possessive(w.take(w.len() - 2), apostrophe)
    } else {
        w
    }
}

/// The surface of a word: without punctuation at its ends and without a
/// possessive.
pub open spec fn surface(w: Seq<char>) -> Seq<char> {
    without_possessive(without_possessive(bare_word(w), '\''), '\u{2019}')
}

/// Whether a surface starts with an upper-case letter.
pub open spec fn starts_upper(w: Seq<char>) -> bool {
    w.len() > 0 && uppercase(w[0])
}

/// The runs that end before the last word, and the run still open there. A
/// run is a maximal row of words whose surfaces start in upper case, joined
/// by blanks.
pub open spec fn run_state(ws: Seq<Seq<char>>) -> (Seq<Seq<char>>, Seq<char>)
    decreases ws.len(),
{
    if ws.len() == 0 {
        (Seq::empty(), Seq::empty())
    } else {
        let (done, open) = run_state(ws.drop_last());
        let w = surface(ws.last());
        if starts_upper(w) {
            if open.len() == 0 {
                (done, w)
            } else {
                (done, open.push(' ') + w)
            }
        } else if open.len() > 0 {
            (done.push(open), Seq::empty())
        } else {
            (done, open)
        }
    }
}

/// The capitalised runs of a cue.
pub open spec fn runs_of(cue: Seq<char>) -> Seq<Seq<char>> {
    let (done, open) = run_state(words(cue));
    if open.len() > 0 {
        done.push(open)
    } else {
        done
    }
}

fn strip_punctuation(w: &Vec<char>) -> (r: Vec<char>)
    ensures
        r@ == bare_word(w@),
{
    let mut lo: usize = 0;
    let mut hi: usize = w.len();
    assert(w@.subrange(0, hi as int) =~= w@);
    while lo < hi && !w[lo].is_alphanumeric()
        invariant
            lo <= hi == w@.len(),
            bare_word(w@) == bare_word(w@.subrange(lo as int, hi as int)),
        decreases hi - lo,
    {
        let ghost cut = w@.subrange(lo as int, hi as int);
        assert(cut.skip(1) =~= w@.subrange(lo + 1, hi as int));
        lo = lo + 1;
    }
    while lo < hi && !w[hi - 1].is_alphanumeric()
        invariant
            lo <= hi <= w@.len(),
            lo < hi ==> alphanumeric(w@[lo as int]),
            bare_word(w@) == bare_word(w@.subrange(lo as int, hi as int)),
        decreases hi - lo,
    {
        let ghost cut = w@.subrange(lo as int, hi as int);
        assert(cut.drop_last() =~= w@.subrange(lo as int, hi - 1));
        hi = hi - 1;
    }
    let mut out: Vec<char> = Vec::new();
    for i in lo..hi
        invariant
            lo <= hi <= w@.len(),
            out@ == w@.subrange(lo as int, i as int),
    {
        out.push(w[i]);
        assert(w@.subrange(lo as int, i + 1) =~= w@.subrange(lo as int, i as int).push(
            w@[i as int],
        ));
    }
    out
}

fn strip_possessive(w: Vec<char>, apostrophe: char) -> (r: Vec<char>)
    ensures
        r@ == without_possessive(w@, apostrophe),
{
    let ghost all = w@;
    let mut out = w;
    while out.len() >= 2 && out[out.len() - 2] == apostrophe && out[out.len() - 1] == 's'
        invariant
            without_possessive(all, apostrophe) == without_possessive(out@, apostrophe),
        decreases out@.len(),
    {
        let n: usize = out.len() - 2;
        assert(out@.take(out@.len() - 2) =~= out@.subrange(0, n as int));
        out.truncate(n);
    }
    out
}

/// The capitalised runs of a cue: maximal rows of words that start in upper
/// case, without punctuation at their ends and without possessives.
pub fn capitalized_runs(cue: &str) -> (r: Vec<String>)
    ensures
        texts(r@) == runs_of(cue@),
{
    let ws = split_words(cue);
    let ghost all = words(cue@);
    let mut runs: Vec<String> = Vec::new();
    let mut open: Vec<char> = Vec::new();
    assert(texts(runs@) =~= Seq::empty());
    for i in 0..ws.len()
        invariant
            chars_each(ws@) == all,
            (texts(runs@), open@) == run_state(all.take(i as int)),
    {
        assert(all.take(i + 1).drop_last() =~= all.take(i as int));
        assert(all.take(i + 1).last() == ws@[i as int]@);
        let bare = strip_punctuation(&ws[i]);
        let plain = strip_possessive(bare, '\'');
        let mut w = strip_possessive(plain, '\u{2019}');
        if w.len() > 0 && w[0].is_uppercase() {
            if open.len() == 0 {
                open = w;
            } else {
                open.push(' ');
                open.append(&mut w);
            }
        } else if open.len() > 0 {
            let ghost before = runs@;
            let run = string_of(&open);
            open = Vec::new();
            runs.push(run);
            assert(texts(runs@) =~= texts(before).push(run@));
        }
    }
    assert(all.take(all.len() as int) =~= all);
    if open.len() > 0 {
        let ghost before = runs@;
        let run = string_of(&open);
        runs.push(run);
        assert(texts(runs@) =~= texts(before).push(run@));
    }
    runs
}

/// The words of at least two characters.
pub open spec fn long_words(ws: Seq<Seq<char>>) -> Seq<Seq<char>> {
    ws.filter(|w: Seq<char>| w.len() >= 2)
}

/// The surfaces to look up for a cue: the subject that the client gave, else
/// the capitalised runs and then the words of at least two characters.
pub open spec fn surfaces_of(subject_name: Seq<char>, cue: Seq<char>) -> Seq<Seq<char>> {
    let subject = trimmed(subject_name);
    if subject.len() == 0 {
        runs_of(cue) + long_words(words(cue))
    } else {
        seq![subject]
    }
}

/// The surfaces to look up for a cue.
pub fn subject_surfaces(subject_name: &str, cue: &str) -> (r: Vec<String>)
    ensures
        texts(r@) == surfaces_of(subject_name@, cue@),
{
    let subject = trim_text(subject_name);
    if subject.as_str().unicode_len() > 0 {
        let mut out: Vec<String> = Vec::new();
        out.push(subject);
        assert(texts(out@) =~= seq![subject@]);
        return out;
    }
    let mut out = capitalized_runs(cue);
    let ws = split_words(cue);
    let ghost all = words(cue@);
    let ghost first = texts(out@);
    let ghost long = |w: Seq<char>| w.len() >= 2;
    assert(all.take(0).filter(long) =~= Seq::empty()) by {
        reveal(Seq::filter);
    }
    for i in 0..ws.len()
        invariant
            chars_each(ws@) == all,
            long == (|w: Seq<char>| w.len() >= 2),
            texts(out@) == first + all.take(i as int).filter(long),
    {
        proof {
            assert(all.take(i + 1).drop_last() =~= all.take(i as int));
            assert(all.take(i + 1).last() == ws@[i as int]@);
            reveal(Seq::filter);
        }
        if ws[i].len() >= 2 {
            let ghost before = out@;
            let w = string_of(&ws[i]);
            out.push(w);
            assert(texts(out@) =~= texts(before).push(w@));
        }
    }
    assert(all.take(all.len() as int) =~= all);
    out
}

/// The pattern of `0.9`: a looser name match anchors nothing.
pub const NAME_MATCH_BITS: u32 = 0x3F66_6666;

/// Whether a scored name match is close enough to anchor a cue.
pub open spec fn anchors_cue(hit: ([u8; 16], Single)) -> bool {
    (Single { bits: NAME_MATCH_BITS }).at_most(hit.1)
}

/// The candidates after the matches of one surface: each close one that is
/// new, up to the cap.
pub open spec fn with_matches(out: Seq<[u8; 16]>, hits: Seq<([u8; 16], Single)>) -> Seq<[u8; 16]>
    decreases hits.len(),
{
    if hits.len() == 0 {
        out
    } else {
        let before = with_matches(out, hits.drop_last());
        let hit = hits.last();
        if before.len() < MAX_SUBJECT_CANDIDATES && anchors_cue(hit) && !before.contains(hit.0) {
            before.push(hit.0)
        } else {
            before
        }
    }
}

/// A list of matches, surface by surface.
pub open spec fn match_lists(resolved: Seq<Vec<([u8; 16], Single)>>) -> Seq<
    Seq<([u8; 16], Single)>,
> {
    resolved.map_values(|v: Vec<([u8; 16], Single)>| v@)
}

/// The subjects of a cue: the caller, then the close matches of each surface.
pub open spec fn subjects(self_id: [u8; 16], resolved: Seq<Seq<([u8; 16], Single)>>) -> Seq<
    [u8; 16],
>
    decreases resolved.len(),
{
    if resolved.len() == 0 {
        seq![self_id]
    } else {
        with_matches(subjects(self_id, resolved.drop_last()), resolved.last())
    }
}

/// Whether the ids are the subjects of a cue.
pub open spec fn finds_subjects(
    r: Vec<[u8; 16]>,
    self_id: [u8; 16],
    resolved: Vec<Vec<([u8; 16], Single)>>,
) -> bool {
    &&& r@ == subjects(self_id, match_lists(resolved@))
    &&& 1 <= r@.len() <= MAX_SUBJECT_CANDIDATES
    &&& r@[0] == self_id
}

/// The subjects of a cue, from the scored name matches of each surface.
pub fn subject_candidates_from_cue(
    self_id: [u8; 16],
    resolved: &Vec<Vec<([u8; 16], Single)>>,
) -> (r: Vec<[u8; 16]>)
    ensures
        finds_subjects(r, self_id, *resolved),
{
    let ghost lists = match_lists(resolved@);
    let mut out: Vec<[u8; 16]> = Vec::new();
    out.push(self_id);
    assert(out@ =~= seq![self_id]);
    for i in 0..resolved.len()
        invariant
            lists == match_lists(resolved@),
            out@ == subjects(self_id, lists.take(i as int)),
            1 <= out@.len() <= MAX_SUBJECT_CANDIDATES,
            out@[0] == self_id,
    {
        assert(lists.take(i + 1).drop_last() =~= lists.take(i as int));
        let ghost start = out@;
        let hits = &resolved[i];
        for k in 0..hits.len()
            invariant
                out@ == with_matches(start, hits@.take(k as int)),
                1 <= out@.len() <= MAX_SUBJECT_CANDIDATES,
                out@[0] == self_id,
        {
            assert(hits@.take(k + 1).drop_last() =~= hits@.take(k as int));
            let (id, score) = hits[k];
            if out.len() < MAX_SUBJECT_CANDIDATES && (Single {
                bits: NAME_MATCH_BITS,
            }).is_at_most(score) && !has16(&out, &id) {
                out.push(id);
            }
        }
        assert(hits@.take(hits@.len() as int) =~= hits@);
        assert(lists.take(i + 1).last() == hits@);
    }
    assert(lists.take(lists.len() as int) =~= lists);
    out
}

/// The test for any other id.
pub open spec fn other_than(self_id: [u8; 16]) -> spec_fn([u8; 16]) -> bool {
    |id: [u8; 16]| id != self_id
}

/// The subjects that a cue named: all but the caller.
pub open spec fn named_subjects(self_id: [u8; 16], candidates: Seq<[u8; 16]>) -> Seq<[u8; 16]> {
    candidates.filter(other_than(self_id))
}

/// The subjects that a cue named: all but the caller.
pub fn anchors_of(self_id: &[u8; 16], candidates: &Vec<[u8; 16]>) -> (r: Vec<[u8; 16]>)
    ensures
        r@ == named_subjects(*self_id, candidates@),
{
    let ghost keep = other_than(*self_id);
    let mut out: Vec<[u8; 16]> = Vec::new();
    assert(candidates@.take(0).filter(keep) =~= Seq::empty()) by {
        reveal(Seq::filter);
    }
    for i in 0..candidates.len()
        invariant
            keep == other_than(*self_id),
            out@ == candidates@.take(i as int).filter(keep),
    {
        proof {
            assert(candidates@.take(i + 1).drop_last() =~= candidates@.take(i as int));
            reveal(Seq::filter);
        }
        if !crate::bytes::eq16(&candidates[i], self_id) {
            out.push(candidates[i]);
        }
    }
    assert(candidates@.take(candidates@.len() as int) =~= candidates@);
    out
}

/// Which subject a walk of the graph starts from.
pub open spec fn picks_anchor(
    r: Option<[u8; 16]>,
    self_id: [u8; 16],
    candidates: Vec<[u8; 16]>,
) -> bool {
    r == (if named_subjects(self_id, candidates@).len() > 0 {
        Some(named_subjects(self_id, candidates@)[0])
    } else {
        None
    })
}

/// The subject that the graph walk starts from: the first one named.
pub fn resolve_graph_anchor(self_id: &[u8; 16], candidates: &Vec<[u8; 16]>) -> (r: Option<
    [u8; 16],
>)
    ensures
        picks_anchor(r, *self_id, *candidates),
{
    let anchors = anchors_of(self_id, candidates);
    if anchors.len() > 0 {
        Some(anchors[0])
    } else {
        None
    }
}

} // verus!
