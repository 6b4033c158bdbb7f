//! Big-endian integers, padding and byte-sequence helpers, as STUN lays them
//! out on the wire.

use vstd::prelude::*;

verus! {

/// The two bytes of `v`, most significant first.
pub open spec fn u16_be(v: u16) -> Seq<u8> {
    seq![(v / 256) as u8, (v % 256) as u8]
}

/// The four bytes of `v`, most significant first.
pub open spec fn u32_be(v: u32) -> Seq<u8> {
    seq![
        (v / 16777216) as u8,
        ((v / 65536) % 256) as u8,
        ((v / 256) % 256) as u8,
        (v % 256) as u8,
    ]
}

/// The big-endian 16-bit integer that starts at `at`.
pub open spec fn u16_at(s: Seq<u8>, at: int) -> u16 {
    (s[at] as int * 256 + s[at + 1] as int) as u16
}

/// The big-endian 32-bit integer that starts at `at`.
pub open spec fn u32_at(s: Seq<u8>, at: int) -> u32 {
    (((s[at] as int * 256 + s[at + 1] as int) * 256 + s[at + 2] as int) * 256 + s[at + 3] as int) as u32
}

/// How many bytes bring a value of `n` bytes up to a multiple of four.
pub open spec fn pad_len(n: int) -> int {
    (4 - n % 4) % 4
}

/// `n` zero bytes.
pub open spec fn zeros(n: int) -> Seq<u8> {
    Seq::new(n as nat, |i: int| 0u8)
}

/// `s` with the two bytes at `at` replaced by `v`, most significant first.
pub open spec fn with_u16_at(s: Seq<u8>, at: int, v: u16) -> Seq<u8> {
    s.update(at, (v / 256) as u8).update(at + 1, (v % 256) as u8)
}

/// Reading back what `u16_be` wrote gives the number again.
pub proof fn lemma_u16_round_trip(v: u16)
    ensures
        u16_be(v).len() == 2,
        u16_at(u16_be(v), 0) == v,
{
}

/// Reading back what `u32_be` wrote gives the number again.
pub proof fn lemma_u32_round_trip(v: u32)
    ensures
        u32_be(v).len() == 4,
        u32_at(u32_be(v), 0) == v,
{
}

/// Appends `v`, most significant byte first.
pub fn push_u16(out: &mut Vec<u8>, v: u16)
    ensures
        final(out)@ == old(out)@ + u16_be(v),
{
    out.push((v / 256) as u8);
    out.push((v % 256) as u8);
    assert(out@ =~= old(out)@ + u16_be(v));
}

/// Appends `v`, most significant byte first.
pub fn push_u32(out: &mut Vec<u8>, v: u32)
    ensures
        final(out)@ == old(out)@ + u32_be(v),
{
    out.push((v / 16777216) as u8);
    out.push(((v / 65536) % 256) as u8);
    out.push(((v / 256) % 256) as u8);
    out.push((v % 256) as u8);
    assert(out@ =~= old(out)@ + u32_be(v));
}

/// Appends a copy of `src`.
pub fn push_bytes(out: &mut Vec<u8>, src: &[u8])
    ensures
        final(out)@ == old(out)@ + src@,
{
    out.extend_from_slice(src);
    assert(out@ =~= old(out)@ + src@);
}

/// Appends the zero bytes that pad a value of `n` bytes to a multiple of four.
pub fn push_padding(out: &mut Vec<u8>, n: usize)
    ensures
        final(out)@ == old(out)@ + zeros(pad_len(n as int)),
{
    let pad: usize = (4 - n % 4) % 4;
    let mut i: usize = 0;
    while i < pad
        invariant
            i <= pad,
            pad == pad_len(n as int),
            out@ == old(out)@ + zeros(i as int),
        decreases pad - i,
    {
        out.push(0u8);
        i += 1;
        assert(out@ =~= old(out)@ + zeros(i as int));
    }
}

/// Reads the big-endian 16-bit integer at `at`.
pub fn read_u16(buf: &[u8], at: usize) -> (v: u16)
    requires
        at + 2 <= buf@.len(),
    ensures
        v == u16_at(buf@, at as int),
{
    let hi: u16 = buf[at] as u16;
    let lo: u16 = buf[at + 1] as u16;
    hi * 256 + lo
}

/// Reads the big-endian 32-bit integer at `at`.
pub fn read_u32(buf: &[u8], at: usize) -> (v: u32)
    requires
        at + 4 <= buf@.len(),
    ensures
        v == u32_at(buf@, at as int),
{
    let a: u32 = buf[at] as u32;
    let b: u32 = buf[at + 1] as u32;
    let c: u32 = buf[at + 2] as u32;
    let d: u32 = buf[at + 3] as u32;
    ((a * 256 + b) * 256 + c) * 256 + d
}

/// A fresh vector holding `buf[from..to]`.
pub fn copy_range(buf: &[u8], from: usize, to: usize) -> (v: Vec<u8>)
    requires
        from <= to <= buf@.len(),
    ensures
        v@ == buf@.subrange(from as int, to as int),
{
    let mut v: Vec<u8> = Vec::new();
    let mut i: usize = from;
    while i < to
        invariant
            from <= i <= to <= buf@.len(),
            v@ == buf@.subrange(from as int, i as int),
        decreases to - i,
    {
        v.push(buf[i]);
        i += 1;
        assert(v@ =~= buf@.subrange(from as int, i as int));
    }
    v
}

/// Whether two byte strings hold the same bytes.
pub fn bytes_eq(a: &[u8], b: &[u8]) -> (r: bool)
    ensures
        r == (a@ == b@),
{
    if a.len() != b.len() {
        return false;
    }
    let mut i: usize = 0;
    while i < a.len()
        invariant
            i <= a@.len(),
            a@.len() == b@.len(),
            forall|k: int| 0 <= k < i ==> a@[k] == b@[k],
        decreases a@.len() - i,
    {
        if a[i] != b[i] {
            return false;
        }
        i += 1;
    }
    assert(a@ =~= b@);
    true
}

} // verus!
