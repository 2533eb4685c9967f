//! Byte strings: comparison, search, copying, and little-endian integers.

use vstd::prelude::*;

verus! {

/// `needle` lies in `haystack` at position `at`.
pub open spec fn occurs_at(haystack: Seq<u8>, needle: Seq<u8>, at: int) -> bool {
    &&& 0 <= at
    &&& at + needle.len() <= haystack.len()
    &&& haystack.subrange(at, at + needle.len()) == needle
}

/// `needle` lies somewhere in `haystack`.
pub open spec fn contains_bytes(haystack: Seq<u8>, needle: Seq<u8>) -> bool {
    exists|at: int| occurs_at(haystack, needle, at)
}

/// The little-endian bytes of a 16-bit value.
#[verifier::opaque]
pub open spec fn u16_le(v: u16) -> Seq<u8> {
    seq![(v % 256) as u8, (v / 256) as u8]
}

/// The little-endian bytes of a 32-bit value.
#[verifier::opaque]
pub open spec fn u32_le(v: u32) -> Seq<u8> {
    seq![
        (v % 256) as u8,
        (v / 256 % 256) as u8,
        (v / 65536 % 256) as u8,
        (v / 16777216) as u8,
    ]
}

/// The 32-bit value whose little-endian bytes stand at `at` in `bytes`.
#[verifier::opaque]
pub open spec fn u32_at(bytes: Seq<u8>, at: int) -> int {
    bytes[at] + 256 * bytes[at + 1] + 65536 * bytes[at + 2] + 16777216 * bytes[at + 3]
}

/// A run of `n` zero bytes.
pub open spec fn zeros(n: nat) -> Seq<u8> {
    Seq::new(n, |i: int| 0u8)
}

/// A 16-bit value has two bytes.
pub proof fn lemma_u16_le_len(v: u16)
    ensures
        u16_le(v).len() == 2,
{
    reveal(u16_le);
}

/// A 32-bit value has four bytes.
pub proof fn lemma_u32_le_len(v: u32)
    ensures
        u32_le(v).len() == 4,
{
    reveal(u32_le);
}

/// Reading back the bytes of a value gives the value.
pub proof fn lemma_u32_le_round_trip(v: u32)
    ensures
        u32_le(v).len() == 4,
        u32_at(u32_le(v), 0) == v,
{
    reveal(u32_le);
    reveal(u32_at);
    let b0 = (v % 256) as int;
    let b1 = (v / 256 % 256) as int;
    let b2 = (v / 65536 % 256) as int;
    let b3 = (v / 16777216) as int;
    assert(v == b0 + 256 * (v / 256));
    assert(v / 256 == b1 + 256 * (v / 65536));
    assert(v / 65536 == b2 + 256 * b3);
}

/// The value read at `at` depends on the four bytes at `at` alone, and fits
/// 32 bits.
pub proof fn lemma_u32_at_subrange(bytes: Seq<u8>, at: int)
    requires
        0 <= at,
        at + 4 <= bytes.len(),
    ensures
        u32_at(bytes, at) == u32_at(bytes.subrange(at, at + 4), 0),
        0 <= u32_at(bytes, at) <= u32::MAX,
{
    reveal(u32_at);
}

/// A range that lies inside a prefix reads the same from the whole as from
/// the prefix.
pub proof fn lemma_prefix_subrange(whole: Seq<u8>, prefix: Seq<u8>, from: int, to: int)
    requires
        prefix.len() <= whole.len(),
        whole.subrange(0, prefix.len() as int) == prefix,
        0 <= from <= to <= prefix.len(),
    ensures
        whole.subrange(from, to) == prefix.subrange(from, to),
{
    assert(whole.subrange(from, to) =~= whole.subrange(0, prefix.len() as int).subrange(from, to));
}

/// Whether two byte strings hold the same bytes.
pub fn bytes_equal(a: &[u8], b: &[u8]) -> (r: bool)
    ensures
        r == (a@ == b@),
{
    if a.len() != b.len() {
        return false;
    }
    let mut i: usize = 0;
    while i < a.len()
        invariant
            a.len() == b.len(),
            i <= a.len(),
            a@.subrange(0, i as int) == b@.subrange(0, i as int),
        decreases a.len() - i,
    {
        if a[i] != b[i] {
            return false;
        }
        assert(a@.subrange(0, i + 1) == a@.subrange(0, i as int).push(a@[i as int]));
        assert(b@.subrange(0, i + 1) == b@.subrange(0, i as int).push(b@[i as int]));
        i += 1;
    }
    assert(a@ == a@.subrange(0, i as int));
    assert(b@ == b@.subrange(0, i as int));
    true
}

/// Whether `needle` lies in `haystack` at position `at`.
fn occurs_at_exec(haystack: &[u8], needle: &[u8], at: usize) -> (r: bool)
    requires
        at + needle.len() <= haystack.len(),
    ensures
        r == occurs_at(haystack@, needle@, at as int),
{
    let mut i: usize = 0;
    while i < needle.len()
        invariant
            at + needle.len() <= haystack.len(),
            i <= needle.len(),
            haystack@.subrange(at as int, at + i) == needle@.subrange(0, i as int),
        decreases needle.len() - i,
    {
        if haystack[at + i] != needle[i] {
            assert(haystack@.subrange(at as int, at + needle.len())[i as int] != needle@[i as int]);
            return false;
        }
        assert(haystack@.subrange(at as int, at + i + 1) == haystack@.subrange(
            at as int,
            at + i,
        ).push(haystack@[at + i]));
        assert(needle@.subrange(0, i + 1) == needle@.subrange(0, i as int).push(needle@[i as int]));
        i += 1;
    }
    assert(needle@ == needle@.subrange(0, i as int));
    true
}

/// Whether `needle` lies somewhere in `haystack`.
pub fn contains(haystack: &[u8], needle: &[u8]) -> (r: bool)
    ensures
        r == contains_bytes(haystack@, needle@),
{
    if needle.len() > haystack.len() {
        return false;
    }
    let last: usize = haystack.len() - needle.len();
    let mut at: usize = 0;
    while at < last
        invariant
            last == haystack.len() - needle.len(),
            at <= last,
            forall|k: int| 0 <= k < at ==> !occurs_at(haystack@, needle@, k),
        decreases last - at,
    {
        if occurs_at_exec(haystack, needle, at) {
            return true;
        }
        at += 1;
    }
    occurs_at_exec(haystack, needle, last)
}

/// Appends `src[start..end]` to `dst`.
pub fn append_range(dst: &mut Vec<u8>, src: &[u8], start: usize, end: usize)
    requires
        start <= end <= src.len(),
    ensures
        final(dst)@ == old(dst)@ + src@.subrange(start as int, end as int),
{
    let mut i: usize = start;
    while i < end
        invariant
            start <= i <= end <= src.len(),
            dst@ == old(dst)@ + src@.subrange(start as int, i as int),
        decreases end - i,
    {
        dst.push(src[i]);
        assert(src@.subrange(start as int, i + 1) == src@.subrange(start as int, i as int).push(
            src@[i as int],
        ));
        i += 1;
    }
}

/// Appends the little-endian bytes of `v` to `dst`.
pub fn append_u16_le(dst: &mut Vec<u8>, v: u16)
    ensures
        final(dst)@ == old(dst)@ + u16_le(v),
{
    dst.push((v % 256) as u8);
    dst.push((v / 256) as u8);
    proof {
        reveal(u16_le);
    }
    assert(dst@ == old(dst)@ + u16_le(v));
}

/// Appends the little-endian bytes of `v` to `dst`.
pub fn append_u32_le(dst: &mut Vec<u8>, v: u32)
    ensures
        final(dst)@ == old(dst)@ + u32_le(v),
{
    dst.push((v % 256) as u8);
    dst.push((v / 256 % 256) as u8);
    dst.push((v / 65536 % 256) as u8);
    dst.push((v / 16777216) as u8);
    proof {
        reveal(u32_le);
    }
    assert(dst@ == old(dst)@ + u32_le(v));
}

/// The 32-bit value whose little-endian bytes stand at `at` in `bytes`.
pub fn read_u32_le(bytes: &[u8], at: usize) -> (r: u32)
    requires
        at + 4 <= bytes.len(),
    ensures
        r == u32_at(bytes@, at as int),
{
    proof {
        reveal(u32_at);
    }
    let b0: u32 = bytes[at] as u32;
    let b1: u32 = bytes[at + 1] as u32;
    let b2: u32 = bytes[at + 2] as u32;
    let b3: u32 = bytes[at + 3] as u32;
    b0 + 256 * b1 + 65536 * b2 + 16777216 * b3
}

} // verus!
