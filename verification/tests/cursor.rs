use brain_ops::cursor::{decode, decode_opt, encode, paginate};
use brain_ops::scope::RowScope;

fn scope() -> RowScope {
    RowScope { namespace_id: 7, space_id_bytes: [0xAB; 16] }
}

fn id(n: u8) -> [u8; 16] {
    [n; 16]
}

#[test]
fn round_trips_within_scope() {
    let s = scope();
    let token = encode(s, id(9));
    assert_eq!(decode(s, &token).unwrap(), id(9));
}

#[test]
fn rejects_wrong_tenant() {
    let token = encode(scope(), id(3));
    let other = RowScope { namespace_id: 8, space_id_bytes: [0xAB; 16] };
    assert!(decode(other, &token).is_err());
    let other_space = RowScope { namespace_id: 7, space_id_bytes: [0xCD; 16] };
    assert!(decode(other_space, &token).is_err());
}

#[test]
fn rejects_malformed() {
    let s = scope();
    assert!(decode(s, &[]).is_err());
    assert!(decode(s, &[1, 2, 3]).is_err());
    let mut token = encode(s, id(1));
    token[0] = 0xFF;
    assert!(decode(s, &token).is_err());
    let mut over = encode(s, id(1));
    over.push(0);
    assert!(decode(s, &over).is_err());
}

#[test]
fn decode_opt_empty_is_first_page() {
    assert_eq!(decode_opt(scope(), &[]).unwrap(), None);
}

#[test]
fn paginate_walks_without_overlap_or_gap() {
    let s = scope();
    let all: Vec<[u8; 16]> = (1u8..=7).map(id).collect();
    let mut seen = Vec::new();
    let mut cursor: Option<[u8; 16]> = None;
    loop {
        let (page, next) = paginate(s, all.clone(), cursor, 3, |x: &[u8; 16]| *x);
        seen.extend(page.iter().copied());
        if next.is_empty() {
            break;
        }
        cursor = Some(decode(s, &next).unwrap());
    }
    assert_eq!(seen, all);
}

#[test]
fn paginate_last_page_has_empty_cursor() {
    let s = scope();
    let all: Vec<[u8; 16]> = (1u8..=3).map(id).collect();
    let (page, next) = paginate(s, all.clone(), None, 3, |x: &[u8; 16]| *x);
    assert_eq!(page, all);
    assert!(next.is_empty());
}

#[test]
fn paginate_exact_multiple_final_page_empty() {
    let s = scope();
    let all: Vec<[u8; 16]> = (1u8..=6).map(id).collect();
    // First page of 3: more remain.
    let (p1, n1) = paginate(s, all.clone(), None, 3, |x: &[u8; 16]| *x);
    assert_eq!(p1.len(), 3);
    assert!(!n1.is_empty());
    let after = decode(s, &n1).unwrap();
    // Second page of 3 exactly exhausts, so no next cursor.
    let (p2, n2) = paginate(s, all, Some(after), 3, |x: &[u8; 16]| *x);
    assert_eq!(p2.len(), 3);
    assert!(n2.is_empty());
}

#[test]
fn paging_cursor_layout() {
    let token = encode(scope(), id(9));
    let mut want = vec![1u8, 7, 0, 0, 0];
    want.extend([0xAB; 16]);
    want.extend([9; 16]);
    assert_eq!(token, want);
}

#[test]
fn paging_cursor_errors() {
    let shown = |r: Result<[u8; 16], _>| match r {
        Err(brain_ops::error::OpError::InvalidRequest(m)) => m,
        other => panic!("{other:?}"),
    };
    assert_eq!(shown(decode(scope(), &[1])), "malformed cursor");
    let token = encode(scope(), id(1));
    let other = RowScope { namespace_id: 8, space_id_bytes: [0xAB; 16] };
    assert_eq!(shown(decode(other, &token)), "cursor does not belong to the caller's tenant");
}

#[test]
fn a_walk_takes_as_many_reads_as_there_are_pages() {
    let s = scope();
    for (n, limit, want) in [(0u8, 3usize, 1), (1, 3, 1), (3, 3, 1), (4, 3, 2), (6, 3, 2), (7, 3, 3)] {
        let all: Vec<[u8; 16]> = (1..=n).map(id).collect();
        let mut cursor: Option<[u8; 16]> = None;
        let mut reads = 0;
        loop {
            let (_, next) = paginate(s, all.clone(), cursor, limit, |x: &[u8; 16]| *x);
            reads += 1;
            if next.is_empty() {
                break;
            }
            cursor = Some(decode(s, &next).unwrap());
        }
        assert_eq!(reads, want, "{n} rows");
    }
}
