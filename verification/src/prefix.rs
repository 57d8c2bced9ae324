//! Variable-length prefix codec: a payload length is written as 7-bit groups,
//! least-significant group first, the high bit of each byte marking that
//! another group follows. At most five bytes are written; lengths above
//! `0x7FFF_FFFF` are clamped to that maximum.

use vstd::prelude::*;

verus! {

/// Largest length value the prefix can carry; larger lengths are clamped.
pub const MAX_PREFIX_VALUE: usize = 0x7FFF_FFFF;

/// The 7-bit-group encoding of a non-negative value: low groups first, the
/// high bit set on every byte that another group follows.
pub open spec fn vlq(n: int) -> Seq<u8>
    decreases n,
{
    if n < 128 {
        seq![n as u8]
    } else {
        seq![(n % 128 + 128) as u8] + vlq(n / 128)
    }
}

/// The bytes the length-prefix encoder emits for a length `n`: the 7-bit-group
/// encoding of `n` clamped to `MAX_PREFIX_VALUE`.
pub open spec fn prefix_bytes(n: int) -> Seq<u8> {
    vlq(if n > 0x7FFF_FFFF { 0x7FFF_FFFF } else { n })
}

/// Where a prefix that starts at index `i` of `s` ends: `Some(j)` means the
/// prefix occupies `s[0..j]`. A byte below 128 ends the prefix, and the fifth
/// byte ends it unconditionally; `None` means the bytes ran out first.
pub open spec fn prefix_scan(s: Seq<u8>, i: int) -> Option<int>
    decreases 5 - i,
{
    if i < 0 || i > 4 || i >= s.len() {
        None
    } else if i == 4 {
        Some(5)
    } else if s[i] < 128 {
        Some(i + 1)
    } else {
        prefix_scan(s, i + 1)
    }
}

/// The value carried by the prefix bytes `s[i..n]`, low groups first.
pub open spec fn prefix_value(s: Seq<u8>, i: int, n: int) -> int
    decreases n - i,
{
    if i < 0 || i >= n || i >= s.len() {
        0
    } else {
        (s[i] % 128) + 128 * prefix_value(s, i + 1, n)
    }
}

/// 128 raised to the `k`-th power.
pub open spec fn pow128(k: int) -> int
    decreases k,
{
    if k <= 0 {
        1
    } else {
        128 * pow128(k - 1)
    }
}

/// Shape of the 7-bit-group encoding: it is never empty, every byte but the
/// last marks a continuation, the last byte does not, and a value that fits
/// in `k` groups takes at most `k` bytes.
pub proof fn lemma_vlq_shape(n: int)
    requires
        0 <= n,
    ensures
        1 <= vlq(n).len(),
        forall|i: int| 0 <= i < vlq(n).len() - 1 ==> vlq(n)[i] >= 128,
        vlq(n).last() < 128,
        n < 128 ==> vlq(n).len() == 1,
        n < 0x4000 ==> vlq(n).len() <= 2,
        n < 0x20_0000 ==> vlq(n).len() <= 3,
        n < 0x1000_0000 ==> vlq(n).len() <= 4,
        n < 0x8_0000_0000 ==> vlq(n).len() <= 5,
    decreases n,
{
    if n >= 128 {
        lemma_vlq_shape(n / 128);
        let b = (n % 128 + 128) as u8;
        let sub = vlq(n / 128);
        assert(vlq(n) == seq![b] + sub);
        assert(vlq(n).last() == sub.last());
        assert forall|i: int| 0 <= i < vlq(n).len() - 1 implies vlq(n)[i] >= 128 by {
            if i > 0 {
                assert(vlq(n)[i] == sub[i - 1]);
            }
        }
    }
}

/// Scanning a sequence that starts with a well-shaped prefix of `l` bytes
/// stops exactly after those `l` bytes.
pub proof fn lemma_scan_stops(s: Seq<u8>, l: int, i: int)
    requires
        1 <= l <= 5,
        l <= s.len(),
        forall|j: int| 0 <= j < l - 1 ==> s[j] >= 128,
        l <= 4 ==> s[l - 1] < 128,
        0 <= i <= l - 1,
    ensures
        prefix_scan(s, i) == Some(l),
    decreases l - i,
{
    if i < l - 1 {
        lemma_scan_stops(s, l, i + 1);
    }
}

/// Appending the value of one more group: the value of `n + 1` prefix bytes is
/// the value of the first `n` plus the new group scaled by its position.
pub proof fn lemma_prefix_value_snoc(s: Seq<u8>, i: int, n: int)
    requires
        0 <= i <= n,
        n < s.len(),
    ensures
        prefix_value(s, i, n + 1) == prefix_value(s, i, n) + (s[n] % 128) * pow128(n - i),
    decreases n - i,
{
    if i < n {
        lemma_prefix_value_snoc(s, i + 1, n);
        assert(prefix_value(s, i, n + 1) == (s[i] % 128) + 128 * prefix_value(s, i + 1, n + 1));
        assert(prefix_value(s, i, n) == (s[i] % 128) + 128 * prefix_value(s, i + 1, n));
        assert(pow128(n - i) == 128 * pow128(n - i - 1));
        assert(128 * ((s[n] % 128) * pow128(n - i - 1)) == (s[n] % 128) * pow128(n - i))
            by (nonlinear_arith)
            requires pow128(n - i) == 128 * pow128(n - i - 1),
        ;
    } else {
        assert(prefix_value(s, i, i + 1) == (s[i] % 128) + 128 * prefix_value(s, i + 1, i + 1));
        assert(prefix_value(s, i + 1, i + 1) == 0);
        assert(prefix_value(s, i, i) == 0);
        assert(pow128(0) == 1);
    }
}

/// The value of `n - i` prefix groups is below `128^(n - i)`.
pub proof fn lemma_prefix_value_bound(s: Seq<u8>, i: int, n: int)
    ensures
        0 <= prefix_value(s, i, n) < pow128(n - i),
    decreases n - i,
{
    if i < 0 || i >= n || i >= s.len() {
        if n - i > 0 {
            lemma_pow128_positive(n - i);
        }
    } else {
        lemma_prefix_value_bound(s, i + 1, n);
        assert(128 * prefix_value(s, i + 1, n) <= 128 * (pow128(n - i - 1) - 1))
            by (nonlinear_arith)
            requires prefix_value(s, i + 1, n) <= pow128(n - i - 1) - 1,
        ;
    }
}

/// `128^k` is positive.
pub proof fn lemma_pow128_positive(k: int)
    ensures
        pow128(k) >= 1,
    decreases k,
{
    if k > 0 {
        lemma_pow128_positive(k - 1);
    }
}

/// Clamping: every length of `MAX_PREFIX_VALUE` or more is encoded as
/// `MAX_PREFIX_VALUE` itself, so all such lengths share one encoding.
pub proof fn lemma_prefix_clamped(n: int)
    requires
        n >= 0x7FFF_FFFF,
    ensures
        prefix_bytes(n) == prefix_bytes(0x7FFF_FFFF),
{
}

/// Encodes `length` as a length prefix: 7-bit groups, low group first, the
/// high bit marking continuation, the value clamped to `MAX_PREFIX_VALUE`.
pub fn encode_prefix(length: usize) -> (r: Vec<u8>)
    ensures
        r@ == prefix_bytes(length as int),
{
    let mut n: usize = if length > MAX_PREFIX_VALUE {
        MAX_PREFIX_VALUE
    } else {
        length
    };
    let ghost n0 = n as int;
    let mut out: Vec<u8> = Vec::new();
    while n >= 128
        invariant
            out@ + vlq(n as int) == vlq(n0),
        decreases n,
    {
        let b: u8 = ((n % 128) + 128) as u8;
        assert(vlq(n as int) == seq![b] + vlq(n as int / 128));
        out.push(b);
        assert(out@ + vlq(n as int / 128) == vlq(n0));
        n = n / 128;
    }
    out.push(n as u8);
    assert(vlq(n as int) == seq![n as u8]);
    assert(out@ == vlq(n0));
    out
}

/// Reads a length prefix from the front of `bytes`: the accumulated value and
/// the number of bytes the prefix occupies. `None` means the bytes ran out
/// before the prefix ended.
pub fn decode_prefix(bytes: &[u8]) -> (r: Option<(u64, usize)>)
    ensures
        r is Some <==> prefix_scan(bytes@, 0) is Some,
        r matches Some(p) ==> {
            &&& prefix_scan(bytes@, 0) == Some(p.1 as int)
            &&& p.0 == prefix_value(bytes@, 0, p.1 as int)
            &&& 1 <= p.1 <= 5
            &&& p.1 <= bytes@.len()
        },
{
    let mut i: usize = 0;
    let mut value: u64 = 0;
    let mut mult: u64 = 1;
    proof {
        lemma_pow128_table();
    }
    loop
        invariant
            i <= 4,
            value == prefix_value(bytes@, 0, i as int),
            value < pow128(i as int),
            mult == pow128(i as int),
            prefix_scan(bytes@, 0) == prefix_scan(bytes@, i as int),
            pow128(4) == 0x1000_0000,
            pow128(5) == 0x8_0000_0000,
        decreases 5 - i,
    {
        if i >= bytes.len() {
            return None;
        }
        let b = *vstd::slice::slice_index_get(bytes, i);
        proof {
            lemma_prefix_value_snoc(bytes@, 0, i as int);
            lemma_prefix_value_bound(bytes@, 0, i as int + 1);
            lemma_pow128_monotone(i as int + 1, 5);
        }
        value = value + (b as u64 % 128) * mult;
        if i == 4 || b < 128 {
            return Some((value, i + 1));
        }
        mult = mult * 128;
        i = i + 1;
    }
}

/// The first five powers of 128, spelled out.
proof fn lemma_pow128_table()
    ensures
        pow128(0) == 1,
        pow128(1) == 128,
        pow128(2) == 0x4000,
        pow128(3) == 0x20_0000,
        pow128(4) == 0x1000_0000,
        pow128(5) == 0x8_0000_0000,
{
    assert(pow128(0) == 1);
    assert(pow128(1) == 128);
    assert(pow128(2) == 0x4000);
    assert(pow128(3) == 0x20_0000);
    assert(pow128(4) == 0x1000_0000);
    assert(pow128(5) == 0x8_0000_0000);
}

/// `128^j <= 128^k` when `j <= k`.
proof fn lemma_pow128_monotone(j: int, k: int)
    requires
        j <= k,
    ensures
        pow128(j) <= pow128(k),
    decreases k - j,
{
    if j < k && k > 0 {
        lemma_pow128_monotone(j, k - 1);
        lemma_pow128_positive(k - 1);
        assert(pow128(k) == 128 * pow128(k - 1));
        assert(128 * pow128(k - 1) >= pow128(k - 1)) by (nonlinear_arith)
            requires pow128(k - 1) >= 1,
        ;
    }
}

} // verus!
