//! PKCS#7 padding for a 16-byte block cipher: `k` bytes of value `k` are
//! appended, where `k` makes the length a multiple of 16; a message already
//! block-aligned still gains a full block of value 16.

use vstd::prelude::*;

verus! {

/// How many padding bytes a message of length `n` gains: always in `1..=16`.
pub open spec fn pad_len(n: int) -> int {
    16 - n % 16
}

/// A message with its PKCS#7 padding appended.
pub open spec fn pad_bytes(s: Seq<u8>) -> Seq<u8> {
    s + Seq::new(pad_len(s.len() as int) as nat, |i: int| pad_len(s.len() as int) as u8)
}

/// Whether `s` ends in well-formed PKCS#7 padding: a last byte `k` in
/// `1..=16`, no longer than the message, with the last `k` bytes all `k`.
pub open spec fn unpad_ok(s: Seq<u8>) -> bool {
    &&& s.len() > 0
    &&& 1 <= s.last() <= 16
    &&& s.last() <= s.len()
    &&& forall|i: int| s.len() - s.last() <= i < s.len() ==> s[i] == s.last()
}

/// The message with its padding removed.
pub open spec fn unpadded(s: Seq<u8>) -> Seq<u8> {
    s.take(s.len() - s.last())
}

/// Padding always produces a block-aligned, longer sequence whose padding is
/// well formed and strips back to the original message.
pub proof fn lemma_pad_unpad(s: Seq<u8>)
    ensures
        pad_bytes(s).len() == s.len() + pad_len(s.len() as int),
        1 <= pad_len(s.len() as int) <= 16,
        pad_bytes(s).len() % 16 == 0,
        unpad_ok(pad_bytes(s)),
        unpadded(pad_bytes(s)) == s,
{
    let n = s.len() as int;
    let k = pad_len(n);
    let p = pad_bytes(s);
    assert(0 <= n % 16 < 16);
    assert((n + (16 - n % 16)) % 16 == 0) by (nonlinear_arith)
        requires n >= 0,
    ;
    assert(p.last() == k as u8);
    assert(forall|i: int| n <= i < p.len() ==> p[i] == k as u8);
    assert(unpadded(p) =~= s);
}

/// A block-aligned message gains exactly one full block of value 16, and
/// stripping removes exactly that block.
pub proof fn lemma_pad_full_block(s: Seq<u8>)
    requires
        s.len() % 16 == 0,
    ensures
        pad_bytes(s).len() == s.len() + 16,
        pad_bytes(s) == s + Seq::new(16, |i: int| 16u8),
        unpad_ok(pad_bytes(s)),
        unpadded(pad_bytes(s)) == s,
{
    lemma_pad_unpad(s);
    assert(pad_len(s.len() as int) == 16);
    assert(pad_bytes(s) =~= s + Seq::new(16, |i: int| 16u8));
}

/// Appends PKCS#7 padding to `data`.
pub fn pkcs7_pad(data: Vec<u8>) -> (r: Vec<u8>)
    ensures
        r@ == pad_bytes(data@),
{
    let k: u8 = 16 - (data.len() % 16) as u8;
    let ghost orig = data@;
    let mut out = data;
    let mut j: usize = 0;
    while j < k as usize
        invariant
            j <= k as usize,
            1 <= k <= 16,
            k as int == pad_len(orig.len() as int),
            out@ == orig + Seq::new(j as nat, |i: int| k),
        decreases k as usize - j,
    {
        out.push(k);
        j = j + 1;
        assert(out@ =~= orig + Seq::new(j as nat, |i: int| k));
    }
    assert(out@ =~= pad_bytes(orig));
    out
}

/// Strips PKCS#7 padding from `data`; `None` when the padding is malformed.
pub fn pkcs7_unpad(data: Vec<u8>) -> (r: Option<Vec<u8>>)
    ensures
        r is Some <==> unpad_ok(data@),
        r matches Some(v) ==> v@ == unpadded(data@),
{
    let ghost orig = data@;
    let n = data.len();
    if n == 0 {
        return None;
    }
    let k: u8 = *vstd::slice::slice_index_get(data.as_slice(), n - 1);
    if k == 0 || k > 16 {
        return None;
    }
    let ku = k as usize;
    if ku > n {
        return None;
    }
    let mut i: usize = n - ku;
    while i < n
        invariant
            n == data@.len(),
            n - ku <= i <= n,
            ku == k as int,
            k == data@.last(),
            forall|j: int| n - ku <= j < i ==> data@[j] == k,
        decreases n - i,
    {
        if *vstd::slice::slice_index_get(data.as_slice(), i) != k {
            return None;
        }
        i = i + 1;
    }
    assert(unpad_ok(orig));
    let mut out = data;
    out.truncate(n - ku);
    assert(out@ =~= unpadded(orig));
    Some(out)
}

} // verus!
