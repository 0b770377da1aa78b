//! Fixed-width integers as bytes, and byte-string helpers.
use vstd::prelude::*;

use vstd::utf8::encode_utf8;

verus! {

/// Sixteen zero bytes: the "absent" id of the wire.
pub open spec fn zero16() -> Seq<u8> {
    Seq::new(16, |i: int| 0u8)
}

/// The "absent" id as an array.
pub open spec fn zero_id() -> [u8; 16] {
    choose|a: [u8; 16]| a@ == zero16()
}

/// The zero id is all zeros, and no other id is.
pub proof fn zero_id_is_zero()
    ensures
        zero_id()@ == zero16(),
        forall|a: [u8; 16]| #[trigger] a@ == zero16() ==> a == zero_id(),
{
    let a: [u8; 16] = [
        0u8, 0u8, 0u8, 0u8, 0u8, 0u8, 0u8, 0u8, 0u8, 0u8, 0u8, 0u8, 0u8, 0u8, 0u8, 0u8,
    ];
    assert(a@ =~= zero16());
    assert forall|b: [u8; 16]| #[trigger] b@ == zero16() implies b == zero_id() by {
        assert(b =~= zero_id());
    }
}

/// The "absent" id.
pub fn nil_id() -> (r: [u8; 16])
    ensures
        r == zero_id(),
        r@ == zero16(),
{
    let r: [u8; 16] = [0u8;16];
    assert(r@ =~= zero16());
    assert(zero_id()@ == zero16());
    assert(r =~= zero_id());
    r
}

/// `256` to the power `n`.
pub open spec fn pow256(n: nat) -> nat
    decreases n,
{
    if n == 0 {
        1
    } else {
        256 * pow256((n - 1) as nat)
    }
}

/// The `n` low-order bytes of `x`, least significant first.
pub open spec fn le_bytes(x: nat, n: nat) -> Seq<u8>
    decreases n,
{
    if n == 0 {
        Seq::empty()
    } else {
        seq![(x % 256) as u8] + le_bytes(x / 256, (n - 1) as nat)
    }
}

/// The number that bytes stand for, least significant first.
pub open spec fn le_value(s: Seq<u8>) -> nat
    decreases s.len(),
{
    if s.len() == 0 {
        0
    } else {
        s[0] as nat + 256 * le_value(s.skip(1))
    }
}

/// The `n` low-order bytes of `x`, most significant first.
pub open spec fn be_bytes(x: nat, n: nat) -> Seq<u8> {
    le_bytes(x, n).reverse()
}

/// The number that bytes stand for, most significant first.
pub open spec fn be_value(s: Seq<u8>) -> nat {
    le_value(s.reverse())
}

/// Encoding a number that fits and reading it back gives the number.
pub proof fn le_round_trip(x: nat, n: nat)
    ensures
        le_bytes(x, n).len() == n,
        x < pow256(n) ==> le_value(le_bytes(x, n)) == x,
    decreases n,
{
    if n > 0 {
        le_round_trip(x / 256, (n - 1) as nat);
        assert(le_bytes(x, n).skip(1) =~= le_bytes(x / 256, (n - 1) as nat));
    }
}

/// Reading bytes and encoding the number again gives the bytes.
pub proof fn le_value_round_trip(s: Seq<u8>)
    ensures
        le_value(s) < pow256(s.len()),
        le_bytes(le_value(s), s.len()) == s,
    decreases s.len(),
{
    if s.len() > 0 {
        le_value_round_trip(s.skip(1));
        let rest = le_value(s.skip(1));
        let x = le_value(s);
        assert(x == s[0] as nat + 256 * rest);
        assert(x / 256 == rest);
        assert(x % 256 == s[0] as nat);
        assert(le_bytes(x, s.len()) =~= s);
    }
}

/// Big-endian encoding and reading back gives the number.
pub proof fn be_round_trip(x: nat, n: nat)
    ensures
        be_bytes(x, n).len() == n,
        x < pow256(n) ==> be_value(be_bytes(x, n)) == x,
{
    le_round_trip(x, n);
    assert(le_bytes(x, n).reverse().reverse() =~= le_bytes(x, n));
}

/// Big-endian reading and encoding again gives the bytes.
pub proof fn be_value_round_trip(s: Seq<u8>)
    ensures
        be_value(s) < pow256(s.len()),
        be_bytes(be_value(s), s.len()) == s,
{
    le_value_round_trip(s.reverse());
    assert(s.reverse().reverse() =~= s);
}

/// The widths used here are those of the machine integers.
pub proof fn pow256_values()
    ensures
        pow256(0) == 1,
        pow256(1) == 0x100,
        pow256(4) == 0x1_0000_0000,
        pow256(8) == 0x1_0000_0000_0000_0000,
        pow256(16) == 0x1_0000_0000_0000_0000_0000_0000_0000_0000,
{
    assert(pow256(0) == 1);
    assert(pow256(1) == 0x100);
    assert(pow256(2) == 0x1_0000);
    assert(pow256(3) == 0x100_0000);
    assert(pow256(4) == 0x1_0000_0000);
    assert(pow256(5) == 0x100_0000_0000);
    assert(pow256(6) == 0x1_0000_0000_0000);
    assert(pow256(7) == 0x100_0000_0000_0000);
    assert(pow256(8) == 0x1_0000_0000_0000_0000);
    assert(pow256(9) == 0x100_0000_0000_0000_0000);
    assert(pow256(10) == 0x1_0000_0000_0000_0000_0000);
    assert(pow256(11) == 0x100_0000_0000_0000_0000_0000);
    assert(pow256(12) == 0x1_0000_0000_0000_0000_0000_0000);
    assert(pow256(13) == 0x100_0000_0000_0000_0000_0000_0000);
    assert(pow256(14) == 0x1_0000_0000_0000_0000_0000_0000_0000);
    assert(pow256(15) == 0x100_0000_0000_0000_0000_0000_0000_0000);
    assert(pow256(16) == 0x1_0000_0000_0000_0000_0000_0000_0000_0000);
}

proof fn pow256_monotone(a: nat, b: nat)
    requires
        a <= b,
    ensures
        0 < pow256(a) <= pow256(b),
    decreases b,
{
    if a < b {
        pow256_monotone(a, (b - 1) as nat);
    } else if a > 0 {
        pow256_monotone((a - 1) as nat, (a - 1) as nat);
    }
}

proof fn be_value_push(s: Seq<u8>, b: u8)
    ensures
        be_value(s.push(b)) == be_value(s) * 256 + b,
{
    assert(s.push(b).reverse().skip(1) =~= s.reverse());
}

/// Appends the `n` low-order bytes of `x`, least significant first.
pub fn put_le(out: &mut Vec<u8>, x: u128, n: usize)
    ensures
        final(out)@ == old(out)@ + le_bytes(x as nat, n as nat),
{
    let mut v: u128 = x;
    let mut i: usize = 0;
    let ghost before = out@;
    proof {
        le_round_trip(x as nat, n as nat);
    }
    while i < n
        invariant
            i <= n,
            out@ + le_bytes(v as nat, (n - i) as nat) == before + le_bytes(x as nat, n as nat),
        decreases n - i,
    {
        let ghost rest = le_bytes((v / 256) as nat, (n - i - 1) as nat);
        let ghost was = out@;
        let b: u8 = (v % 256) as u8;
        out.push(b);
        proof {
            assert(le_bytes(v as nat, (n - i) as nat) == seq![b] + rest);
            assert(was.push(b) + rest =~= was + (seq![b] + rest));
        }
        v = v / 256;
        i = i + 1;
    }
    assert(out@ + le_bytes(v as nat, 0) =~= out@);
}

/// Appends the `n` low-order bytes of `x`, most significant first.
pub fn put_be(out: &mut Vec<u8>, x: u128, n: usize)
    ensures
        final(out)@ == old(out)@ + be_bytes(x as nat, n as nat),
{
    let mut low: Vec<u8> = Vec::new();
    put_le(&mut low, x, n);
    proof {
        le_round_trip(x as nat, n as nat);
        assert(low@ =~= le_bytes(x as nat, n as nat));
    }
    let ghost before = out@;
    let mut i: usize = 0;
    while i < n
        invariant
            i <= n,
            low@.len() == n,
            out@ == before + low@.reverse().take(i as int),
        decreases n - i,
    {
        out.push(low[n - 1 - i]);
        i = i + 1;
        assert(low@.reverse().take(i as int) =~= low@.reverse().take(i - 1).push(
            low@[n - i],
        ));
    }
    assert(low@.reverse().take(n as int) =~= low@.reverse());
}

/// Reads `n` little-endian bytes at `at`.
pub fn read_le(b: &[u8], at: usize, n: usize) -> (r: u128)
    requires
        n <= 16,
        at + n <= b@.len(),
    ensures
        r as nat == le_value(b@.subrange(at as int, at + n)),
        r < pow256(n as nat),
{
    let total: usize = b.len();
    let mut acc: u128 = 0;
    let mut k: usize = n;
    proof {
        pow256_values();
        assert(b@.subrange(at + n, at + n) =~= Seq::<u8>::empty());
    }
    while k > 0
        invariant
            k <= n <= 16,
            at + n <= total == b@.len(),
            acc as nat == le_value(b@.subrange(at + k, at + n)),
        decreases k,
    {
        k = k - 1;
        proof {
            let s = b@.subrange(at + k, at + n);
            assert(s.skip(1) =~= b@.subrange(at + k + 1, at + n));
            le_value_round_trip(s);
            pow256_monotone(s.len(), 16);
            pow256_values();
        }
        acc = acc * 256 + b[at + k] as u128;
    }
    proof {
        le_value_round_trip(b@.subrange(at as int, at + n));
    }
    acc
}

/// Reads `n` big-endian bytes at `at`.
pub fn read_be(b: &[u8], at: usize, n: usize) -> (r: u128)
    requires
        n <= 16,
        at + n <= b@.len(),
    ensures
        r as nat == be_value(b@.subrange(at as int, at + n)),
        r < pow256(n as nat),
{
    let total: usize = b.len();
    let mut acc: u128 = 0;
    let mut k: usize = 0;
    proof {
        assert(b@.subrange(at as int, at as int).reverse() =~= Seq::<u8>::empty());
    }
    while k < n
        invariant
            k <= n <= 16,
            at + n <= total == b@.len(),
            acc as nat == be_value(b@.subrange(at as int, at + k)),
        decreases n - k,
    {
        proof {
            let s = b@.subrange(at as int, at + k);
            let t = b@.subrange(at as int, at + k + 1);
            assert(t =~= s.push(b@[at + k]));
            be_value_push(s, b@[at + k]);
            be_value_round_trip(t);
            pow256_monotone(t.len(), 16);
            pow256_values();
        }
        acc = acc * 256 + b[at + k] as u128;
        k = k + 1;
    }
    proof {
        be_value_round_trip(b@.subrange(at as int, at + n));
    }
    acc
}

/// Appends a byte string.
pub fn put_bytes(out: &mut Vec<u8>, s: &[u8])
    ensures
        final(out)@ == old(out)@ + s@,
{
    let ghost before = out@;
    for i in 0..s.len()
        invariant
            out@ == before + s@.take(i as int),
    {
        out.push(s[i]);
        assert(s@.take(i + 1) =~= s@.take(i as int).push(s@[i as int]));
    }
    assert(s@.take(s@.len() as int) =~= s@);
}

/// Appends the UTF-8 bytes of a string.
pub fn put_text(out: &mut Vec<u8>, s: &str)
    ensures
        final(out)@ == old(out)@ + encode_utf8(s@),
{
    put_bytes(out, s.as_bytes());
}

/// A copy of a byte string.
pub fn copy_bytes(s: &[u8]) -> (r: Vec<u8>)
    ensures
        r@ == s@,
{
    let mut out: Vec<u8> = Vec::new();
    put_bytes(&mut out, s);
    assert(out@ =~= s@);
    out
}

/// The sixteen bytes at `at`.
pub fn take16(b: &[u8], at: usize) -> (r: [u8; 16])
    requires
        at + 16 <= b@.len(),
    ensures
        r@ == b@.subrange(at as int, at + 16),
{
    let total: usize = b.len();
    let mut r: [u8; 16] = [0u8;16];
    for i in 0..16usize
        invariant
            at + 16 <= total == b@.len(),
            forall|j: int| 0 <= j < i ==> r@[j] == b@[at + j],
    {
        r[i] = b[at + i];
    }
    assert(r@ =~= b@.subrange(at as int, at + 16));
    r
}

/// Byte-string equality.
pub fn eq_bytes(a: &[u8], b: &[u8]) -> (r: bool)
    ensures
        r == (a@ == b@),
{
    if a.len() != b.len() {
        return false;
    }
    for i in 0..a.len()
        invariant
            a@.len() == b@.len(),
            forall|j: int| 0 <= j < i ==> a@[j] == b@[j],
    {
        if a[i] != b[i] {
            return false;
        }
    }
    assert(a@ =~= b@);
    true
}

/// Equality of sixteen-byte ids.
pub fn eq16(a: &[u8; 16], b: &[u8; 16]) -> (r: bool)
    ensures
        r == (*a == *b),
        r == (a@ == b@),
{
    let r = eq_bytes(a.as_slice(), b.as_slice());
    assert(r == (a@ == b@));
    assert(a@ == b@ ==> *a =~= *b);
    r
}

/// Whether the sixteen bytes at `at` are those of `id`.
pub fn eq16_at(b: &[u8], at: usize, id: &[u8; 16]) -> (r: bool)
    requires
        at + 16 <= b@.len(),
    ensures
        r == (b@.subrange(at as int, at + 16) == id@),
{
    let t = take16(b, at);
    eq_bytes(t.as_slice(), id.as_slice())
}

/// Whether an id is the all-zero "absent" id.
pub fn is_zero16(a: &[u8; 16]) -> (r: bool)
    ensures
        r == (a@ == zero16()),
        r == (*a == zero_id()),
{
    let zero = nil_id();
    eq16(a, &zero)
}

/// Whether an id is in a list.
pub fn has16(list: &Vec<[u8; 16]>, id: &[u8; 16]) -> (r: bool)
    ensures
        r == list@.contains(*id),
{
    for i in 0..list.len()
        invariant
            forall|j: int| 0 <= j < i ==> list@[j] != *id,
    {
        if eq16(&list[i], id) {
            return true;
        }
    }
    false
}

/// A copy of a list of small values.
pub fn copy_list<T: Copy>(v: &Vec<T>) -> (r: Vec<T>)
    ensures
        r@ == v@,
{
    let mut out: Vec<T> = Vec::new();
    for i in 0..v.len()
        invariant
            out@ == v@.take(i as int),
    {
        out.push(v[i]);
        assert(v@.take(i + 1) =~= v@.take(i as int).push(v@[i as int]));
    }
    assert(v@.take(v@.len() as int) =~= v@);
    out
}

/// Whether a number is in a list.
pub fn has_u32(list: &Vec<u32>, x: u32) -> (r: bool)
    ensures
        r == list@.contains(x),
{
    for i in 0..list.len()
        invariant
            forall|j: int| 0 <= j < i ==> list@[j] != x,
    {
        if list[i] == x {
            return true;
        }
    }
    false
}

/// Whether a number is in a list.
pub fn has_u64(list: &Vec<u64>, x: u64) -> (r: bool)
    ensures
        r == list@.contains(x),
{
    for i in 0..list.len()
        invariant
            forall|j: int| 0 <= j < i ==> list@[j] != x,
    {
        if list[i] == x {
            return true;
        }
    }
    false
}

/// Whether a number is in a list.
pub fn has_u128(list: &Vec<u128>, x: u128) -> (r: bool)
    ensures
        r == list@.contains(x),
{
    for i in 0..list.len()
        invariant
            forall|j: int| 0 <= j < i ==> list@[j] != x,
    {
        if list[i] == x {
            return true;
        }
    }
    false
}

/// Lexicographic order of byte strings of one length.
#[verifier::opaque]
pub open spec fn lex_less(a: Seq<u8>, b: Seq<u8>) -> bool {
    exists|i: int|
        #![trigger a[i]]
        0 <= i < a.len() && i < b.len() && a[i] < b[i] && a.take(i) == b.take(i)
}

/// `a < b` on sixteen-byte ids.
pub fn less16(a: &[u8; 16], b: &[u8; 16]) -> (r: bool)
    ensures
        r == lex_less(a@, b@),
{
    reveal(lex_less);
    for i in 0..16usize
        invariant
            forall|j: int| 0 <= j < i ==> a@[j] == b@[j],
    {
        if a[i] != b[i] {
            proof {
                reveal(lex_less);
                assert(a@.take(i as int) =~= b@.take(i as int));
                if a@[i as int] < b@[i as int] {
                    assert(lex_less(a@, b@));
                } else {
                    assert forall|k: int|
                        #![trigger a@[k]]
                        0 <= k < 16 && a@[k] < b@[k] implies a@.take(k) != b@.take(k) by {
                        assert(k > i);
                        assert(a@.take(k)[i as int] != b@.take(k)[i as int]);
                    }
                }
            }
            return a[i] < b[i];
        }
    }
    false
}

/// The order of ids is irreflexive, transitive and total.
pub proof fn lex_order_is_strict(a: Seq<u8>, b: Seq<u8>, c: Seq<u8>)
    requires
        a.len() == b.len() == c.len(),
    ensures
        !lex_less(a, a),
        lex_less(a, b) && lex_less(b, c) ==> lex_less(a, c),
        lex_less(a, b) ==> !lex_less(b, a),
        a == b || lex_less(a, b) || lex_less(b, a),
{
    reveal(lex_less);
    if lex_less(a, b) {
        lex_asymmetric(a, b);
    }
    if lex_less(a, a) {
        lex_asymmetric(a, a);
    }
    lex_total(a, b);
    if lex_less(a, b) && lex_less(b, c) {
        let i = choose|i: int|
            #![trigger a[i]]
            0 <= i < a.len() && i < b.len() && a[i] < b[i] && a.take(i) == b.take(i);
        let j = choose|j: int|
            #![trigger b[j]]
            0 <= j < b.len() && j < c.len() && b[j] < c[j] && b.take(j) == c.take(j);
        let k = if i <= j {
            i
        } else {
            j
        };
        assert forall|m: int| 0 <= m < k implies a[m] == c[m] by {
            assert(a.take(i)[m] == b.take(i)[m]);
            assert(b.take(j)[m] == c.take(j)[m]);
        }
        if i < j {
            assert(b.take(j)[i] == c.take(j)[i]);
        } else if j < i {
            assert(a.take(i)[j] == b.take(i)[j]);
        }
        assert(a.take(k) =~= c.take(k));
        assert(a[k] < c[k]);
    }
}

proof fn lex_asymmetric(a: Seq<u8>, b: Seq<u8>)
    requires
        a.len() == b.len(),
        lex_less(a, b),
    ensures
        !lex_less(b, a),
{
    reveal(lex_less);
    let i = choose|i: int|
        #![trigger a[i]]
        0 <= i < a.len() && i < b.len() && a[i] < b[i] && a.take(i) == b.take(i);
    assert forall|k: int|
        #![trigger b[k]]
        0 <= k < b.len() && b[k] < a[k] implies b.take(k) != a.take(k) by {
        if k < i {
            assert(a.take(i)[k] == b.take(i)[k]);
        } else {
            assert(b.take(k)[i] != a.take(k)[i]);
        }
    }
}

proof fn lex_total(a: Seq<u8>, b: Seq<u8>)
    requires
        a.len() == b.len(),
    ensures
        a == b || lex_less(a, b) || lex_less(b, a),
    decreases a.len(),
{
    reveal(lex_less);
    if a.len() > 0 {
        let n = (a.len() - 1) as int;
        let p = a.take(n);
        let q = b.take(n);
        lex_total(p, q);
        if p == q {
            assert(a =~= p.push(a[n]));
            assert(b =~= q.push(b[n]));
            if a[n] < b[n] {
                assert(lex_less(a, b));
            } else if b[n] < a[n] {
                assert(lex_less(b, a));
            }
        } else if lex_less(p, q) {
            let i = choose|i: int|
                #![trigger p[i]]
                0 <= i < p.len() && i < q.len() && p[i] < q[i] && p.take(i) == q.take(i);
            assert(a.take(i) =~= p.take(i));
            assert(b.take(i) =~= q.take(i));
            assert(a[i] < b[i]);
        } else {
            let i = choose|i: int|
                #![trigger q[i]]
                0 <= i < q.len() && i < p.len() && q[i] < p[i] && q.take(i) == p.take(i);
            assert(a.take(i) =~= p.take(i));
            assert(b.take(i) =~= q.take(i));
            assert(b[i] < a[i]);
        }
    } else {
        assert(a =~= b);
    }
}

/// The low 32 bits of a length.
pub open spec fn low32(n: nat) -> u32 {
    (n % 0x1_0000_0000) as u32
}

/// The low 32 bits of a length.
pub fn length_u32(n: usize) -> (r: u32)
    ensures
        r == low32(n as nat),
{
    (n as u64 % 0x1_0000_0000) as u32
}

} // verus!
