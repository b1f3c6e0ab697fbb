//! Little- and big-endian field encodings shared by every wire format of the
//! driver, with the byte-level views that the contracts are written over.
use vstd::prelude::*;

verus! {

/// The two bytes of `v`, least significant first.
pub open spec fn le16(v: u16) -> Seq<u8> {
    seq![(v % 256) as u8, (v / 256) as u8]
}

/// The two bytes of `v`, most significant first.
pub open spec fn be16(v: u16) -> Seq<u8> {
    seq![(v / 256) as u8, (v % 256) as u8]
}

/// The four bytes of `v`, least significant first.
pub open spec fn le32(v: u32) -> Seq<u8> {
    seq![
        (v % 256) as u8,
        ((v / 256) % 256) as u8,
        ((v / 65536) % 256) as u8,
        (v / 16777216) as u8,
    ]
}

/// The eight bytes of `v`, most significant first.
pub open spec fn be64(v: u64) -> Seq<u8> {
    seq![
        (v / 0x100_0000_0000_0000) as u8,
        ((v / 0x1_0000_0000_0000) % 256) as u8,
        ((v / 0x100_0000_0000) % 256) as u8,
        ((v / 0x1_0000_0000) % 256) as u8,
        ((v / 0x100_0000) % 256) as u8,
        ((v / 0x1_0000) % 256) as u8,
        ((v / 0x100) % 256) as u8,
        (v % 256) as u8,
    ]
}

/// The little-endian `u16` stored at `s[i..i + 2]`.
pub open spec fn le16_at(s: Seq<u8>, i: int) -> u16 {
    (s[i] + 256 * s[i + 1]) as u16
}

/// The big-endian `u16` stored at `s[i..i + 2]`.
pub open spec fn be16_at(s: Seq<u8>, i: int) -> u16 {
    (256 * s[i] + s[i + 1]) as u16
}

/// The little-endian `u32` stored at `s[i..i + 4]`.
pub open spec fn le32_at(s: Seq<u8>, i: int) -> u32 {
    (s[i] + 256 * s[i + 1] + 65536 * s[i + 2] + 16777216 * s[i + 3]) as u32
}

/// The big-endian `u64` stored at `s[i..i + 8]`.
pub open spec fn be64_at(s: Seq<u8>, i: int) -> u64 {
    (0x100_0000_0000_0000 * s[i] + 0x1_0000_0000_0000 * s[i + 1] + 0x100_0000_0000 * s[i + 2]
        + 0x1_0000_0000 * s[i + 3] + 0x100_0000 * s[i + 4] + 0x1_0000 * s[i + 5] + 0x100 * s[i
        + 6] + s[i + 7]) as u64
}

/// `n` as a `usize`.
pub open spec fn usize_of(n: int) -> usize {
    n as usize
}

/// A machine index as an integer.
pub open spec fn int_of(n: usize) -> int {
    n as int
}

/// A machine length as a natural number.
pub open spec fn nat_of(n: usize) -> nat {
    n as nat
}

/// `n` as a `usize`, or the largest `usize` when it does not fit.
pub open spec fn saturated(n: int) -> usize {
    if n <= usize::MAX {
        n as usize
    } else {
        usize::MAX
    }
}

/// A length as a `usize`.
pub open spec fn usize_of_nat(n: nat) -> usize {
    n as usize
}

/// `n` zero bytes.
pub open spec fn zeros(n: nat) -> Seq<u8> {
    Seq::new(n, |i: int| 0u8)
}

/// Reads the little-endian `u16` at `offset`.
pub fn read_le16(bytes: &[u8], offset: usize) -> (v: u16)
    requires
        offset + 2 <= bytes@.len(),
    ensures
        v == le16_at(bytes@, offset as int),
{
    bytes[offset] as u16 + (bytes[offset + 1] as u16) * 256
}

/// Reads the big-endian `u16` at `offset`.
pub fn read_be16(bytes: &[u8], offset: usize) -> (v: u16)
    requires
        offset + 2 <= bytes@.len(),
    ensures
        v == be16_at(bytes@, offset as int),
{
    (bytes[offset] as u16) * 256 + bytes[offset + 1] as u16
}

/// Reads the little-endian `u32` at `offset`.
pub fn read_le32(bytes: &[u8], offset: usize) -> (v: u32)
    requires
        offset + 4 <= bytes@.len(),
    ensures
        v == le32_at(bytes@, offset as int),
{
    bytes[offset] as u32 + (bytes[offset + 1] as u32) * 256 + (bytes[offset + 2] as u32) * 65536
        + (bytes[offset + 3] as u32) * 16777216
}

/// Reads the big-endian `u64` at `offset`.
pub fn read_be64(bytes: &[u8], offset: usize) -> (v: u64)
    requires
        offset + 8 <= bytes@.len(),
    ensures
        v == be64_at(bytes@, offset as int),
{
    (bytes[offset] as u64) * 0x100_0000_0000_0000 + (bytes[offset + 1] as u64) * 0x1_0000_0000_0000
        + (bytes[offset + 2] as u64) * 0x100_0000_0000 + (bytes[offset + 3] as u64) * 0x1_0000_0000
        + (bytes[offset + 4] as u64) * 0x100_0000 + (bytes[offset + 5] as u64) * 0x1_0000
        + (bytes[offset + 6] as u64) * 0x100 + bytes[offset + 7] as u64
}

/// Appends the little-endian bytes of `v`.
pub fn push_le16(out: &mut Vec<u8>, v: u16)
    ensures
        final(out)@ == old(out)@ + le16(v),
{
    out.push((v % 256) as u8);
    out.push((v / 256) as u8);
}

/// The little-endian bytes of `v`.
pub fn le32_bytes(v: u32) -> (bytes: [u8; 4])
    ensures
        bytes@ == le32(v),
{
    let bytes = [(v % 256) as u8, ((v / 256) % 256) as u8, ((v / 65536) % 256) as u8, (v / 16777216) as u8];
    assert(bytes@ =~= le32(v));
    bytes
}

/// Appends the big-endian bytes of `v`.
pub fn push_be16(out: &mut Vec<u8>, v: u16)
    ensures
        final(out)@ == old(out)@ + be16(v),
{
    out.push((v / 256) as u8);
    out.push((v % 256) as u8);
}

/// Appends the little-endian bytes of `v`.
pub fn push_le32(out: &mut Vec<u8>, v: u32)
    ensures
        final(out)@ == old(out)@ + le32(v),
{
    out.push((v % 256) as u8);
    out.push(((v / 256) % 256) as u8);
    out.push(((v / 65536) % 256) as u8);
    out.push((v / 16777216) as u8);
}

/// Appends the big-endian bytes of `v`.
pub fn push_be64(out: &mut Vec<u8>, v: u64)
    ensures
        final(out)@ == old(out)@ + be64(v),
{
    out.push((v / 0x100_0000_0000_0000) as u8);
    out.push(((v / 0x1_0000_0000_0000) % 256) as u8);
    out.push(((v / 0x100_0000_0000) % 256) as u8);
    out.push(((v / 0x1_0000_0000) % 256) as u8);
    out.push(((v / 0x100_0000) % 256) as u8);
    out.push(((v / 0x1_0000) % 256) as u8);
    out.push(((v / 0x100) % 256) as u8);
    out.push((v % 256) as u8);
}

/// Appends `count` zero bytes.
pub fn push_zeros(out: &mut Vec<u8>, count: usize)
    ensures
        final(out)@ == old(out)@ + zeros(count as nat),
{
    let ghost start = out@;
    let mut i: usize = 0;
    while i < count
        invariant
            i <= count,
            out@ == start + zeros(i as nat),
        decreases count - i,
    {
        out.push(0);
        i = i + 1;
        assert(out@ =~= start + zeros(i as nat));
    }
}

/// Appends the bytes of `bytes`.
pub fn push_slice(out: &mut Vec<u8>, bytes: &[u8])
    ensures
        final(out)@ == old(out)@ + bytes@,
{
    let ghost start = out@;
    let mut i: usize = 0;
    while i < bytes.len()
        invariant
            i <= bytes@.len(),
            out@ == start + bytes@.subrange(0, i as int),
        decreases bytes@.len() - i,
    {
        out.push(bytes[i]);
        i = i + 1;
        assert(out@ =~= start + bytes@.subrange(0, i as int));
    }
    assert(bytes@.subrange(0, bytes@.len() as int) =~= bytes@);
}

/// Copies `bytes` over the front of `output`, leaving the rest of `output` as it was.
pub fn copy_prefix(output: &mut [u8], bytes: &[u8])
    requires
        bytes@.len() <= old(output)@.len(),
    ensures
        final(output)@ == bytes@ + old(output)@.skip(bytes@.len() as int),
{
    let ghost original = output@;
    let mut i: usize = 0;
    while i < bytes.len()
        invariant
            i <= bytes@.len(),
            bytes@.len() <= original.len(),
            output@.len() == original.len(),
            forall|j: int| 0 <= j < i ==> output@[j] == bytes@[j],
            forall|j: int| i <= j < original.len() ==> output@[j] == original[j],
        decreases bytes@.len() - i,
    {
        output[i] = bytes[i];
        i = i + 1;
    }
    assert(output@ =~= bytes@ + original.skip(bytes@.len() as int));
}

/// Copies `bytes` into `output` starting at `offset`, leaving every other byte as it was.
pub fn copy_at(output: &mut [u8], offset: usize, bytes: &[u8])
    requires
        offset + bytes@.len() <= old(output)@.len(),
    ensures
        final(output)@ == old(output)@.subrange(0, offset as int) + bytes@ + old(output)@.skip(
            offset + bytes@.len(),
        ),
{
    let ghost original = output@;
    let total = output.len();
    let mut i: usize = 0;
    while i < bytes.len()
        invariant
            i <= bytes@.len(),
            offset + bytes@.len() <= original.len(),
            original.len() == total,
            output@.len() == original.len(),
            forall|j: int| 0 <= j < offset ==> output@[j] == original[j],
            forall|j: int| 0 <= j < i ==> output@[offset + j] == bytes@[j],
            forall|j: int| offset + i <= j < original.len() ==> output@[j] == original[j],
        decreases bytes@.len() - i,
    {
        output[offset + i] = bytes[i];
        i = i + 1;
    }
    assert(output@ =~= original.subrange(0, offset as int) + bytes@ + original.skip(
        offset + bytes@.len(),
    ));
}

/// Sets `output[start..end]` to zero, leaving every other byte as it was.
pub fn zero_range(output: &mut [u8], start: usize, end: usize)
    requires
        start <= end <= old(output)@.len(),
    ensures
        final(output)@ == old(output)@.subrange(0, start as int) + zeros((end - start) as nat)
            + old(output)@.skip(end as int),
{
    let ghost original = output@;
    let mut i: usize = start;
    while i < end
        invariant
            start <= i <= end,
            end <= original.len(),
            output@.len() == original.len(),
            forall|j: int| 0 <= j < start ==> output@[j] == original[j],
            forall|j: int| start <= j < i ==> output@[j] == 0,
            forall|j: int| i <= j < original.len() ==> output@[j] == original[j],
        decreases end - i,
    {
        output[i] = 0;
        i = i + 1;
    }
    assert(output@ =~= original.subrange(0, start as int) + zeros((end - start) as nat)
        + original.skip(end as int));
}

/// The bytes `bytes[start..end]` as a fixed six-byte array.
pub fn array6_at(bytes: &[u8], start: usize) -> (a: [u8; 6])
    requires
        start + 6 <= bytes@.len(),
    ensures
        a@ == bytes@.subrange(start as int, start + 6),
{
    let a = [
        bytes[start],
        bytes[start + 1],
        bytes[start + 2],
        bytes[start + 3],
        bytes[start + 4],
        bytes[start + 5],
    ];
    assert(a@ =~= bytes@.subrange(start as int, start + 6));
    a
}

/// The bytes `bytes[start..start + 8]` as a fixed array.
pub fn array8_at(bytes: &[u8], start: usize) -> (a: [u8; 8])
    requires
        start + 8 <= bytes@.len(),
    ensures
        a@ == bytes@.subrange(start as int, start + 8),
{
    let mut a = [0u8; 8];
    let mut i: usize = 0;
    while i < 8
        invariant
            i <= 8,
            start + 8 <= bytes@.len(),
            bytes@.len() == bytes.len(),
            a@.len() == 8,
            forall|j: int| 0 <= j < i ==> a@[j] == bytes@[start + j],
        decreases 8 - i,
    {
        a[i] = bytes[start + i];
        i = i + 1;
    }
    assert(a@ =~= bytes@.subrange(start as int, start + 8));
    a
}

/// The bytes `bytes[start..start + 4]` as a fixed array.
pub fn array4_at(bytes: &[u8], start: usize) -> (a: [u8; 4])
    requires
        start + 4 <= bytes@.len(),
    ensures
        a@ == bytes@.subrange(start as int, start + 4),
{
    let mut a = [0u8; 4];
    let mut i: usize = 0;
    while i < 4
        invariant
            i <= 4,
            start + 4 <= bytes@.len(),
            bytes@.len() == bytes.len(),
            a@.len() == 4,
            forall|j: int| 0 <= j < i ==> a@[j] == bytes@[start + j],
        decreases 4 - i,
    {
        a[i] = bytes[start + i];
        i = i + 1;
    }
    assert(a@ =~= bytes@.subrange(start as int, start + 4));
    a
}

/// The bytes `bytes[start..start + 16]` as a fixed array.
pub fn array16_at(bytes: &[u8], start: usize) -> (a: [u8; 16])
    requires
        start + 16 <= bytes@.len(),
    ensures
        a@ == bytes@.subrange(start as int, start + 16),
{
    let mut a = [0u8; 16];
    let mut i: usize = 0;
    while i < 16
        invariant
            i <= 16,
            start + 16 <= bytes@.len(),
            bytes@.len() == bytes.len(),
            a@.len() == 16,
            forall|j: int| 0 <= j < i ==> a@[j] == bytes@[start + j],
        decreases 16 - i,
    {
        a[i] = bytes[start + i];
        i = i + 1;
    }
    assert(a@ =~= bytes@.subrange(start as int, start + 16));
    a
}

/// The bytes `bytes[start..start + 32]` as a fixed array.
pub fn array32_at(bytes: &[u8], start: usize) -> (a: [u8; 32])
    requires
        start + 32 <= bytes@.len(),
    ensures
        a@ == bytes@.subrange(start as int, start + 32),
{
    let mut a = [0u8; 32];
    let mut i: usize = 0;
    while i < 32
        invariant
            i <= 32,
            start + 32 <= bytes@.len(),
            bytes@.len() == bytes.len(),
            a@.len() == 32,
            forall|j: int| 0 <= j < i ==> a@[j] == bytes@[start + j],
        decreases 32 - i,
    {
        a[i] = bytes[start + i];
        i = i + 1;
    }
    assert(a@ =~= bytes@.subrange(start as int, start + 32));
    a
}

/// A `u16` widened to `usize`.
pub fn usize_from_u16(v: u16) -> (r: usize)
    ensures
        r == v,
{
    v as usize
}

/// The low sixteen bits of a `usize`.
pub fn low_u16(v: usize) -> (r: u16)
    ensures
        r == v as u16,
{
    v as u16
}

/// A `u8` widened to `usize`.
pub fn usize_from_u8(v: u8) -> (r: usize)
    ensures
        r == v,
{
    v as usize
}

/// A `usize` known to fit in sixteen bits, narrowed to `u16`.
pub fn u16_from_usize(v: usize) -> (r: u16)
    requires
        v <= 0xffff,
    ensures
        r == v,
{
    v as u16
}

/// Whether two byte strings are equal.
pub fn bytes_equal(a: &[u8], b: &[u8]) -> (equal: bool)
    ensures
        equal == (a@ == b@),
{
    if a.len() != b.len() {
        return false;
    }
    let mut i: usize = 0;
    while i < a.len()
        invariant
            i <= a@.len(),
            a@.len() == b@.len(),
            forall|j: int| 0 <= j < i ==> a@[j] == b@[j],
        decreases a@.len() - i,
    {
        if a[i] != b[i] {
            return false;
        }
        i = i + 1;
    }
    assert(a@ =~= b@);
    true
}

/// Accumulating `a ^ b` into a difference by `|` leaves it zero exactly while every pair
/// compared so far was equal.
pub proof fn lemma_or_xor_zero(difference: u8, a: u8, b: u8)
    ensures
        ((difference | (a ^ b)) == 0) == (difference == 0 && a == b),
{
    assert(((difference | (a ^ b)) == 0) == (difference == 0 && a == b)) by (bit_vector);
}

/// The little-endian encoding read back gives the value that was encoded.
pub proof fn lemma_le16_roundtrip(v: u16)
    ensures
        le16_at(le16(v), 0) == v,
{
}

/// The big-endian encoding read back gives the value that was encoded.
pub proof fn lemma_be16_roundtrip(v: u16)
    ensures
        be16_at(be16(v), 0) == v,
{
}

/// The little-endian encoding read back gives the value that was encoded.
pub proof fn lemma_le32_roundtrip(v: u32)
    ensures
        le32_at(le32(v), 0) == v,
{
}

} // verus!
