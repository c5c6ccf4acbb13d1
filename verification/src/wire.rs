//! The building blocks of every byte format in this crate: fixed-width
//! little-endian integers, variable-length integers, and byte strings that
//! carry their length in front.
//!
//! Each block has one encoding, and the readers accept nothing else: a
//! variable-length integer with needless trailing groups is refused.  That
//! makes every reader the exact inverse of its writer.

use vstd::prelude::*;

verus! {

/// Whether `s` begins with `p`.
pub open spec fn starts_with(s: Seq<u8>, p: Seq<u8>) -> bool {
    p.len() <= s.len() && s.take(p.len() as int) == p
}

/// A 16-bit integer, low byte first.
pub open spec fn u16_le(v: u16) -> Seq<u8> {
    seq![(v % 256) as u8, (v / 256) as u8]
}

/// A 32-bit integer, low byte first.
pub open spec fn u32_le(v: u32) -> Seq<u8> {
    seq![
        (v % 256) as u8,
        (v / 256 % 256) as u8,
        (v / 65536 % 256) as u8,
        (v / 16777216) as u8,
    ]
}

/// A variable-length integer: seven bits per byte, low group first, the high
/// bit set on every byte but the last.
pub open spec fn varint(v: u64) -> Seq<u8>
    decreases v,
{
    if v < 128 {
        seq![v as u8]
    } else {
        seq![(v % 128 + 128) as u8] + varint(v / 128)
    }
}

/// A byte string with its length in front.
pub open spec fn prefixed(bytes: Seq<u8>) -> Seq<u8> {
    varint(bytes.len() as u64) + bytes
}

/// What a strict reader makes of a variable-length integer at the front of
/// `s`, reading at most `limit` bytes: the number and how many bytes it took.
pub open spec fn parse_varint(s: Seq<u8>, limit: nat) -> Option<(u64, nat)>
    decreases limit,
{
    if limit == 0 || s.len() == 0 {
        None
    } else if s[0] < 128 {
        Some((s[0] as u64, 1nat))
    } else {
        match parse_varint(s.skip(1), (limit - 1) as nat) {
            Some((high, n)) => if high == 0 || high > 0x01ff_ffff_ffff_ffff {
                None
            } else {
                Some(((high * 128 + (s[0] - 128)) as u64, n + 1))
            },
            None => None,
        }
    }
}

/// A variable-length integer takes at most ten bytes.
pub proof fn lemma_varint_len(v: u64)
    ensures
        1 <= varint(v).len() <= 10,
{
    lemma_varint_len_bound(v, 10);
}

proof fn lemma_varint_len_bound(v: u64, k: nat)
    requires
        k >= 1,
        k < 10 ==> v < pow128(k),
    ensures
        1 <= varint(v).len() <= k,
    decreases v,
{
    reveal_with_fuel(pow128, 11);
    if v >= 128 {
        assert(k >= 2);
        lemma_varint_len_bound(v / 128, (k - 1) as nat);
    }
}

spec fn pow128(k: nat) -> int
    decreases k,
{
    if k == 0 {
        1
    } else {
        128 * pow128((k - 1) as nat)
    }
}

/// Reading what was written gives the number back, and takes just the bytes
/// that were written.
pub proof fn lemma_parse_varint_of_varint(v: u64, rest: Seq<u8>, limit: nat)
    requires
        limit >= varint(v).len(),
    ensures
        parse_varint(varint(v) + rest, limit) == Some((v, varint(v).len())),
    decreases v,
{
    let s = varint(v) + rest;
    if v < 128 {
        assert(s[0] == v as u8);
    } else {
        let tail = varint(v / 128);
        assert(s[0] == (v % 128 + 128) as u8);
        assert(s.skip(1) =~= tail + rest);
        lemma_parse_varint_of_varint(v / 128, rest, (limit - 1) as nat);
    }
}

/// What a strict reader accepts is what the writer writes for that number.
pub proof fn lemma_varint_of_parse_varint(s: Seq<u8>, limit: nat)
    requires
        parse_varint(s, limit).is_some(),
    ensures
        ({
            let (v, n) = parse_varint(s, limit).unwrap();
            &&& 1 <= n <= limit
            &&& n <= s.len()
            &&& s.take(n as int) == varint(v)
        }),
    decreases limit,
{
    let (v, n) = parse_varint(s, limit).unwrap();
    if s[0] < 128 {
        assert(s.take(1) =~= varint(v));
    } else {
        lemma_varint_of_parse_varint(s.skip(1), (limit - 1) as nat);
        let (high, m) = parse_varint(s.skip(1), (limit - 1) as nat).unwrap();
        assert(v / 128 == high);
        assert(v % 128 + 128 == s[0]);
        assert(s.take(n as int) =~= seq![s[0]] + s.skip(1).take(m as int));
    }
}

proof fn lemma_u32_from_le(b0: u8, b1: u8, b2: u8, b3: u8)
    by (bit_vector)
    ensures
        ({
            let v = b0 as u32 + b1 as u32 * 256 + b2 as u32 * 65536 + b3 as u32 * 16777216;
            &&& v <= 0xffff_ffff
            &&& v % 256 == b0 as u32
            &&& v / 256 % 256 == b1 as u32
            &&& v / 65536 % 256 == b2 as u32
            &&& v / 16777216 == b3 as u32
        }),
{
}

proof fn lemma_u16_from_le(b0: u8, b1: u8)
    by (bit_vector)
    ensures
        ({
            let v = b0 as u16 + b1 as u16 * 256;
            &&& v <= 0xffff
            &&& v % 256 == b0 as u16
            &&& v / 256 == b1 as u16
        }),
{
}

/// Two numbers with the same bytes are the same number.
pub proof fn lemma_u32_le_injective(a: u32, b: u32)
    requires
        u32_le(a) == u32_le(b),
    ensures
        a == b,
{
    assert(u32_le(a)[0] == u32_le(b)[0]);
    assert(u32_le(a)[1] == u32_le(b)[1]);
    assert(u32_le(a)[2] == u32_le(b)[2]);
    assert(u32_le(a)[3] == u32_le(b)[3]);
    assert(a % 256 == b % 256 && a / 256 % 256 == b / 256 % 256 && a / 65536 % 256 == b / 65536
        % 256 && a / 16777216 == b / 16777216 ==> a == b) by (bit_vector);
}

/// Two numbers with the same bytes are the same number.
pub proof fn lemma_u16_le_injective(a: u16, b: u16)
    requires
        u16_le(a) == u16_le(b),
    ensures
        a == b,
{
    assert(u16_le(a)[0] == u16_le(b)[0]);
    assert(u16_le(a)[1] == u16_le(b)[1]);
    assert(a % 256 == b % 256 && a / 256 == b / 256 ==> a == b) by (bit_vector);
}

/// Appends a 16-bit integer.
pub fn put_u16(buf: &mut Vec<u8>, v: u16)
    ensures
        final(buf)@ == old(buf)@ + u16_le(v),
{
    buf.push((v % 256) as u8);
    buf.push((v / 256) as u8);
    assert(buf@ =~= old(buf)@ + u16_le(v));
}

/// Appends a 32-bit integer.
pub fn put_u32(buf: &mut Vec<u8>, v: u32)
    ensures
        final(buf)@ == old(buf)@ + u32_le(v),
{
    buf.push((v % 256) as u8);
    buf.push((v / 256 % 256) as u8);
    buf.push((v / 65536 % 256) as u8);
    buf.push((v / 16777216) as u8);
    assert(buf@ =~= old(buf)@ + u32_le(v));
}

/// Appends a variable-length integer.
pub fn put_varint(buf: &mut Vec<u8>, v: u64)
    ensures
        final(buf)@ == old(buf)@ + varint(v),
{
    let mut rest = v;
    while rest >= 128
        invariant
            buf@ + varint(rest) == old(buf)@ + varint(v),
        decreases rest,
    {
        let ghost before = buf@;
        buf.push((rest % 128 + 128) as u8);
        assert(buf@ + varint(rest / 128) =~= before + varint(rest));
        rest = rest / 128;
    }
    let ghost before = buf@;
    buf.push(rest as u8);
    assert(buf@ =~= before + varint(rest));
}

/// Appends every byte of `bytes`.
pub fn put_bytes(buf: &mut Vec<u8>, bytes: &[u8])
    ensures
        final(buf)@ == old(buf)@ + bytes@,
{
    let mut i: usize = 0;
    while i < bytes.len()
        invariant
            i <= bytes@.len(),
            buf@ == old(buf)@ + bytes@.take(i as int),
        decreases bytes@.len() - i,
    {
        buf.push(bytes[i]);
        i += 1;
        assert(buf@ =~= old(buf)@ + bytes@.take(i as int));
    }
    assert(bytes@.take(bytes@.len() as int) =~= bytes@);
}

/// Appends a byte string with its length in front.
pub fn put_prefixed(buf: &mut Vec<u8>, bytes: &[u8])
    ensures
        final(buf)@ == old(buf)@ + prefixed(bytes@),
{
    put_varint(buf, bytes.len() as u64);
    put_bytes(buf, bytes);
    assert(buf@ =~= old(buf)@ + prefixed(bytes@));
}

/// Reads a 16-bit integer at `pos`, or `None` where fewer than two bytes
/// are left.
pub fn take_u16(bytes: &[u8], pos: usize) -> (r: Option<u16>)
    ensures
        match r {
            Some(v) => pos + 2 <= bytes@.len() && bytes@.subrange(pos as int, pos + 2) == u16_le(v),
            None => bytes@.len() < pos + 2,
        },
{
    if pos > bytes.len() || bytes.len() - pos < 2 {
        return None;
    }
    let b0 = bytes[pos];
    let b1 = bytes[pos + 1];
    proof {
        lemma_u16_from_le(b0, b1);
    }
    let v: u16 = b0 as u16 + b1 as u16 * 256;
    assert(bytes@.subrange(pos as int, pos + 2) =~= u16_le(v));
    Some(v)
}

/// Reads a 32-bit integer at `pos`, or `None` where fewer than four bytes
/// are left.
pub fn take_u32(bytes: &[u8], pos: usize) -> (r: Option<u32>)
    ensures
        match r {
            Some(v) => pos + 4 <= bytes@.len() && bytes@.subrange(pos as int, pos + 4) == u32_le(v),
            None => bytes@.len() < pos + 4,
        },
{
    if pos > bytes.len() || bytes.len() - pos < 4 {
        return None;
    }
    let b0 = bytes[pos];
    let b1 = bytes[pos + 1];
    let b2 = bytes[pos + 2];
    let b3 = bytes[pos + 3];
    proof {
        lemma_u32_from_le(b0, b1, b2, b3);
    }
    let v: u32 = b0 as u32 + b1 as u32 * 256 + b2 as u32 * 65536 + b3 as u32 * 16777216;
    assert(bytes@.subrange(pos as int, pos + 4) =~= u32_le(v));
    Some(v)
}

/// Reads a variable-length integer at `pos`, strictly: the number and the
/// position after it.
pub fn take_varint(bytes: &[u8], pos: usize) -> (r: Option<(u64, usize)>)
    ensures
        match r {
            Some((v, next)) => parse_varint(bytes@.skip(pos as int), 10) == Some(
                (v, (next - pos) as nat),
            ) && pos < next <= bytes@.len(),
            None => pos > bytes@.len() || parse_varint(bytes@.skip(pos as int), 10).is_none(),
        },
{
    if pos > bytes.len() {
        return None;
    }
    take_varint_within(bytes, pos, 10)
}

fn take_varint_within(bytes: &[u8], pos: usize, limit: usize) -> (r: Option<(u64, usize)>)
    requires
        pos <= bytes@.len(),
    ensures
        match r {
            Some((v, next)) => parse_varint(bytes@.skip(pos as int), limit as nat) == Some(
                (v, (next - pos) as nat),
            ) && pos < next <= bytes@.len(),
            None => parse_varint(bytes@.skip(pos as int), limit as nat).is_none(),
        },
    decreases limit,
{
    if limit == 0 || pos >= bytes.len() {
        return None;
    }
    let first = bytes[pos];
    assert(bytes@.skip(pos as int)[0] == first);
    if first < 128 {
        return Some((first as u64, pos + 1));
    }
    assert(bytes@.skip(pos as int).skip(1) =~= bytes@.skip(pos + 1));
    match take_varint_within(bytes, pos + 1, limit - 1) {
        Some((high, next)) => {
            if high == 0 || high > 0x01ff_ffff_ffff_ffff {
                None
            } else {
                Some((high * 128 + (first - 128) as u64, next))
            }
        },
        None => None,
    }
}

/// What a strict reader makes of a length-prefixed byte string at the front
/// of `s`: the string and how many bytes it took, prefix included.
pub open spec fn parse_prefixed(s: Seq<u8>) -> Option<(Seq<u8>, nat)> {
    match parse_varint(s, 10) {
        Some((len, n)) => if n + len <= s.len() {
            Some((s.subrange(n as int, (n + len) as int), (n + len) as nat))
        } else {
            None
        },
        None => None,
    }
}

/// Reading a length-prefixed string that was written gives it back.
pub proof fn lemma_parse_prefixed_of_prefixed(b: Seq<u8>, rest: Seq<u8>)
    requires
        b.len() <= u64::MAX,
    ensures
        parse_prefixed(prefixed(b) + rest) == Some((b, prefixed(b).len())),
{
    let head = varint(b.len() as u64);
    lemma_varint_len(b.len() as u64);
    assert(prefixed(b) + rest =~= head + (b + rest));
    lemma_parse_varint_of_varint(b.len() as u64, b + rest, 10);
    assert((head + (b + rest)).subrange(head.len() as int, (head.len() + b.len()) as int) =~= b);
}

/// What a strict reader accepts as a length-prefixed string is what the
/// writer writes for that string.
pub proof fn lemma_prefixed_of_parse_prefixed(s: Seq<u8>)
    requires
        parse_prefixed(s).is_some(),
    ensures
        ({
            let (b, n) = parse_prefixed(s).unwrap();
            &&& n <= s.len()
            &&& b.len() <= u64::MAX
            &&& s.take(n as int) == prefixed(b)
        }),
{
    lemma_varint_of_parse_varint(s, 10);
    let (len, k) = parse_varint(s, 10).unwrap();
    let (b, n) = parse_prefixed(s).unwrap();
    assert(s.take(n as int) =~= s.take(k as int) + b);
}

/// Reads a length-prefixed byte string at `pos`, strictly: the string and
/// the position after it.
pub fn take_prefixed(bytes: &[u8], pos: usize) -> (r: Option<(Vec<u8>, usize)>)
    ensures
        match r {
            Some((v, next)) => parse_prefixed(bytes@.skip(pos as int)) == Some(
                (v@, (next - pos) as nat),
            ) && pos < next <= bytes@.len(),
            None => pos > bytes@.len() || parse_prefixed(bytes@.skip(pos as int)).is_none(),
        },
{
    match take_varint(bytes, pos) {
        Some((len, start)) => {
            if len > (bytes.len() - start) as u64 {
                return None;
            }
            let end = start + len as usize;
            let v = copy_range(bytes, start, end);
            assert(bytes@.skip(pos as int).subrange(start - pos, end - pos) =~= v@);
            Some((v, end))
        },
        None => None,
    }
}

/// A copy of `bytes[start..end]`.
pub fn copy_range(bytes: &[u8], start: usize, end: usize) -> (v: Vec<u8>)
    requires
        start <= end <= bytes@.len(),
    ensures
        v@ == bytes@.subrange(start as int, end as int),
{
    let mut v: Vec<u8> = Vec::new();
    let mut i: usize = start;
    while i < end
        invariant
            start <= i <= end <= bytes@.len(),
            v@ == bytes@.subrange(start as int, i as int),
        decreases end - i,
    {
        v.push(bytes[i]);
        i += 1;
        assert(v@ =~= bytes@.subrange(start as int, i as int));
    }
    v
}

/// Overwrites `array` with the `N` bytes of `bytes` that start at `pos`.
pub fn copy_array<const N: usize>(array: [u8; N], bytes: &[u8], pos: usize) -> (filled: [u8; N])
    requires
        pos + N <= bytes@.len(),
    ensures
        filled@ == bytes@.subrange(pos as int, pos + N),
{
    let mut filled = array;
    let len = bytes.len();
    let mut i: usize = 0;
    while i < N
        invariant
            i <= N,
            len == bytes@.len(),
            pos + N <= bytes@.len(),
            forall|k: int| 0 <= k < i ==> filled@[k] == bytes@[pos + k],
        decreases N - i,
    {
        filled[i] = bytes[pos + i];
        i += 1;
    }
    assert(filled@ =~= bytes@.subrange(pos as int, pos + N));
    filled
}

/// Whether two byte strings are the same.
pub fn same_bytes(a: &[u8], b: &[u8]) -> (same: bool)
    ensures
        same == (a@ == b@),
{
    if a.len() != b.len() {
        return false;
    }
    let mut i: usize = 0;
    while i < a.len()
        invariant
            i <= a@.len(),
            a@.len() == b@.len(),
            forall|k: int| 0 <= k < i ==> a@[k] == b@[k],
        decreases a@.len() - i,
    {
        if a[i] != b[i] {
            return false;
        }
        i += 1;
    }
    assert(a@ =~= b@);
    true
}

} // verus!
