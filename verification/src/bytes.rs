//! Fixed-width integers as little- and big-endian bytes.
use vstd::prelude::*;

verus! {

/// Little-endian bytes of a 16-bit number.
pub open spec fn u16_le(x: u16) -> Seq<u8> {
    seq![(x % 256) as u8, (x / 256) as u8]
}

/// Little-endian bytes of a 32-bit number.
pub open spec fn u32_le(x: u32) -> Seq<u8> {
    seq![
        (x % 256) as u8,
        (x / 256 % 256) as u8,
        (x / 0x1_0000 % 256) as u8,
        (x / 0x100_0000) as u8,
    ]
}

/// Little-endian bytes of a 64-bit number.
pub open spec fn u64_le(x: u64) -> Seq<u8> {
    u32_le((x % 0x1_0000_0000) as u32) + u32_le((x / 0x1_0000_0000) as u32)
}

/// Big-endian bytes of a 16-bit number.
pub open spec fn u16_be(x: u16) -> Seq<u8> {
    seq![(x / 256) as u8, (x % 256) as u8]
}

/// Big-endian bytes of a 32-bit number.
pub open spec fn u32_be(x: u32) -> Seq<u8> {
    seq![
        (x / 0x100_0000) as u8,
        (x / 0x1_0000 % 256) as u8,
        (x / 256 % 256) as u8,
        (x % 256) as u8,
    ]
}

/// Big-endian bytes of a 64-bit number.
pub open spec fn u64_be(x: u64) -> Seq<u8> {
    u32_be((x / 0x1_0000_0000) as u32) + u32_be((x % 0x1_0000_0000) as u32)
}

/// The 16-bit number stored little-endian at `at`.
pub open spec fn le16(s: Seq<u8>, at: int) -> u16 {
    (s[at] + 256 * s[at + 1]) as u16
}

/// The 32-bit number stored little-endian at `at`.
pub open spec fn le32(s: Seq<u8>, at: int) -> u32 {
    (s[at] + 256 * s[at + 1] + 0x1_0000 * s[at + 2] + 0x100_0000 * s[at + 3]) as u32
}

/// The 64-bit number stored little-endian at `at`.
pub open spec fn le64(s: Seq<u8>, at: int) -> u64 {
    (le32(s, at) + 0x1_0000_0000 * le32(s, at + 4)) as u64
}

/// The 32-bit number stored big-endian at `at`.
pub open spec fn be32(s: Seq<u8>, at: int) -> u32 {
    (0x100_0000 * s[at] + 0x1_0000 * s[at + 1] + 256 * s[at + 2] + s[at + 3]) as u32
}

/// The 64-bit number stored big-endian at `at`.
pub open spec fn be64(s: Seq<u8>, at: int) -> u64 {
    (0x1_0000_0000 * be32(s, at) + be32(s, at + 4)) as u64
}

/// Reading a number back from its bytes gives the number.
pub proof fn round_trips(a: u16, b: u32, c: u64)
    ensures
        le16(u16_le(a), 0) == a,
        le32(u32_le(b), 0) == b,
        le64(u64_le(c), 0) == c,
        be32(u32_be(b), 0) == b,
        be64(u64_be(c), 0) == c,
{
    let lo = (c % 0x1_0000_0000) as u32;
    let hi = (c / 0x1_0000_0000) as u32;
    lemma_u32_parts(b);
    lemma_u32_parts(lo);
    lemma_u32_parts(hi);
    let s = u64_le(c);
    assert(le32(s, 0) == lo);
    assert(le32(s, 4) == hi);
    let t = u64_be(c);
    assert(be32(t, 0) == hi);
    assert(be32(t, 4) == lo);
}

proof fn lemma_u32_parts(b: u32)
    ensures
        b == (b % 256) + 256 * (b / 256 % 256) + 0x1_0000 * (b / 0x1_0000 % 256) + 0x100_0000 * (b
            / 0x100_0000),
{
}

/// Appends a 16-bit number, little-endian.
pub fn push_u16_le(v: &mut Vec<u8>, x: u16)
    ensures
        final(v)@ == old(v)@ + u16_le(x),
{
    v.push((x % 256) as u8);
    v.push((x / 256) as u8);
    assert(v@ =~= old(v)@ + u16_le(x));
}

/// Appends a 32-bit number, little-endian.
pub fn push_u32_le(v: &mut Vec<u8>, x: u32)
    ensures
        final(v)@ == old(v)@ + u32_le(x),
{
    v.push((x % 256) as u8);
    v.push((x / 256 % 256) as u8);
    v.push((x / 0x1_0000 % 256) as u8);
    v.push((x / 0x100_0000) as u8);
    assert(v@ =~= old(v)@ + u32_le(x));
}

/// Appends a 64-bit number, little-endian.
pub fn push_u64_le(v: &mut Vec<u8>, x: u64)
    ensures
        final(v)@ == old(v)@ + u64_le(x),
{
    push_u32_le(v, (x % 0x1_0000_0000) as u32);
    push_u32_le(v, (x / 0x1_0000_0000) as u32);
    assert(v@ =~= old(v)@ + u64_le(x));
}

/// Appends a 16-bit number, big-endian.
pub fn push_u16_be(v: &mut Vec<u8>, x: u16)
    ensures
        final(v)@ == old(v)@ + u16_be(x),
{
    v.push((x / 256) as u8);
    v.push((x % 256) as u8);
    assert(v@ =~= old(v)@ + u16_be(x));
}

/// Appends a 32-bit number, big-endian.
pub fn push_u32_be(v: &mut Vec<u8>, x: u32)
    ensures
        final(v)@ == old(v)@ + u32_be(x),
{
    v.push((x / 0x100_0000) as u8);
    v.push((x / 0x1_0000 % 256) as u8);
    v.push((x / 256 % 256) as u8);
    v.push((x % 256) as u8);
    assert(v@ =~= old(v)@ + u32_be(x));
}

/// Appends a 64-bit number, big-endian.
pub fn push_u64_be(v: &mut Vec<u8>, x: u64)
    ensures
        final(v)@ == old(v)@ + u64_be(x),
{
    push_u32_be(v, (x / 0x1_0000_0000) as u32);
    push_u32_be(v, (x % 0x1_0000_0000) as u32);
    assert(v@ =~= old(v)@ + u64_be(x));
}

/// Appends a byte string.
pub fn push_bytes(v: &mut Vec<u8>, s: &[u8])
    ensures
        final(v)@ == old(v)@ + s@,
{
    let mut i: usize = 0;
    assert(v@ =~= old(v)@ + s@.take(0));
    while i < s.len()
        invariant
            i <= s@.len(),
            v@ == old(v)@ + s@.take(i as int),
        decreases s@.len() - i,
    {
        v.push(s[i]);
        i = i + 1;
        assert(v@ =~= old(v)@ + s@.take(i as int));
    }
    assert(s@.take(i as int) =~= s@);
}

/// Appends `n` zero bytes.
pub fn push_zeros(v: &mut Vec<u8>, n: usize)
    ensures
        final(v)@ == old(v)@ + Seq::new(n as nat, |i: int| 0u8),
{
    let mut i: usize = 0;
    while i < n
        invariant
            i <= n,
            v@ =~= old(v)@ + Seq::new(i as nat, |k: int| 0u8),
        decreases n - i,
    {
        v.push(0);
        i = i + 1;
    }
}

/// Reads a 16-bit number, little-endian.
pub fn read_u16_le(s: &[u8], at: usize) -> (x: u16)
    requires
        at + 2 <= s@.len(),
    ensures
        x == le16(s@, at as int),
{
    s[at] as u16 + 256 * (s[at + 1] as u16)
}

/// Reads a 32-bit number, little-endian.
pub fn read_u32_le(s: &[u8], at: usize) -> (x: u32)
    requires
        at + 4 <= s@.len(),
    ensures
        x == le32(s@, at as int),
{
    s[at] as u32 + 256 * (s[at + 1] as u32) + 0x1_0000 * (s[at + 2] as u32) + 0x100_0000 * (s[at
        + 3] as u32)
}

/// Reads a 64-bit number, little-endian.
pub fn read_u64_le(s: &[u8], at: usize) -> (x: u64)
    requires
        at + 8 <= s@.len(),
    ensures
        x == le64(s@, at as int),
{
    let len: usize = s.len();
    assert(at + 8 <= len);
    read_u32_le(s, at) as u64 + 0x1_0000_0000 * (read_u32_le(s, at + 4) as u64)
}

/// Reads a 32-bit number, big-endian.
pub fn read_u32_be(s: &[u8], at: usize) -> (x: u32)
    requires
        at + 4 <= s@.len(),
    ensures
        x == be32(s@, at as int),
{
    0x100_0000 * (s[at] as u32) + 0x1_0000 * (s[at + 1] as u32) + 256 * (s[at + 2] as u32) + s[at
        + 3] as u32
}

/// Reads a 64-bit number, big-endian.
pub fn read_u64_be(s: &[u8], at: usize) -> (x: u64)
    requires
        at + 8 <= s@.len(),
    ensures
        x == be64(s@, at as int),
{
    let len: usize = s.len();
    assert(at + 8 <= len);
    0x1_0000_0000 * (read_u32_be(s, at) as u64) + read_u32_be(s, at + 4) as u64
}

/// `s` with the bytes of `b` written at `at`.
pub open spec fn spliced(s: Seq<u8>, at: int, b: Seq<u8>) -> Seq<u8> {
    Seq::new(
        s.len(),
        |i: int|
            if at <= i < at + b.len() {
                b[i - at]
            } else {
                s[i]
            },
    )
}

/// Overwrites bytes in place.
pub fn write_bytes(v: &mut Vec<u8>, at: usize, b: &[u8])
    requires
        at + b@.len() <= old(v)@.len(),
    ensures
        final(v)@ == spliced(old(v)@, at as int, b@),
{
    let mut i: usize = 0;
    while i < b.len()
        invariant
            i <= b@.len(),
            at + b@.len() <= old(v)@.len(),
            v@.len() == old(v)@.len(),
            v@ =~= spliced(old(v)@, at as int, b@.take(i as int)),
        decreases b@.len() - i,
    {
        let len: usize = v.len();
        assert(at + i < len);
        v[at + i] = b[i];
        i = i + 1;
    }
    assert(b@.take(i as int) =~= b@);
}

/// Overwrites a 32-bit number in place, little-endian.
pub fn write_u32_le(v: &mut Vec<u8>, at: usize, x: u32)
    requires
        at + 4 <= old(v)@.len(),
    ensures
        final(v)@ == spliced(old(v)@, at as int, u32_le(x)),
{
    let mut b: Vec<u8> = Vec::new();
    push_u32_le(&mut b, x);
    assert(b@ =~= u32_le(x));
    write_bytes(v, at, b.as_slice());
}

/// Up to eight bytes, padded with zeros.
pub open spec fn zero_padded(s: Seq<u8>) -> Seq<u8> {
    Seq::new(
        8,
        |i: int|
            if i < s.len() {
                s[i]
            } else {
                0u8
            },
    )
}

/// Reads up to eight bytes as a little-endian number.
pub fn read_le(s: &[u8]) -> (x: u64)
    requires
        s@.len() <= 8,
    ensures
        x == le64(zero_padded(s@), 0),
{
    let mut v: Vec<u8> = Vec::new();
    let mut i: usize = 0;
    while i < 8
        invariant
            i <= 8,
            s@.len() <= 8,
            v@ =~= zero_padded(s@).take(i as int),
        decreases 8 - i,
    {
        if i < s.len() {
            v.push(s[i]);
        } else {
            v.push(0);
        }
        i = i + 1;
    }
    assert(v@ =~= zero_padded(s@));
    read_u64_le(v.as_slice(), 0)
}

/// Fills a buffer of up to eight bytes with the low bytes of a number.
pub fn fill_le(data: &mut [u8], x: u64)
    requires
        old(data)@.len() <= 8,
    ensures
        final(data)@ == u64_le(x).take(old(data)@.len() as int),
{
    let mut v: Vec<u8> = Vec::new();
    push_u64_le(&mut v, x);
    assert(v@ =~= u64_le(x));
    let n: usize = data.len();
    let mut i: usize = 0;
    while i < n
        invariant
            i <= n <= 8,
            n == data@.len(),
            n == old(data)@.len(),
            v@ == u64_le(x),
            v@.len() == 8,
            forall|k: int| 0 <= k < i ==> data@[k] == v@[k],
        decreases n - i,
    {
        data[i] = v[i];
        i = i + 1;
    }
    assert(data@ =~= u64_le(x).take(n as int));
}

/// Fills a buffer with one byte.
pub fn fill_byte(data: &mut [u8], b: u8)
    ensures
        final(data)@ == Seq::new(old(data)@.len(), |i: int| b),
{
    let n: usize = data.len();
    let mut i: usize = 0;
    while i < n
        invariant
            i <= n,
            n == data@.len(),
            n == old(data)@.len(),
            forall|k: int| 0 <= k < i ==> data@[k] == b,
        decreases n - i,
    {
        data[i] = b;
        i = i + 1;
    }
    assert(data@ =~= Seq::new(n as nat, |i: int| b));
}

/// `len` bytes of `s` from `offset` on; bytes past its end read as zero.
pub open spec fn window(s: Seq<u8>, offset: int, len: nat) -> Seq<u8> {
    Seq::new(
        len,
        |i: int|
            if offset + i < s.len() {
                s[offset + i]
            } else {
                0u8
            },
    )
}

/// Fills a buffer from a register block; bytes past its end read as zero.
pub fn read_window(s: &Vec<u8>, offset: u64, data: &mut [u8])
    requires
        offset + old(data)@.len() <= u64::MAX + 1,
    ensures
        final(data)@ == window(s@, offset as int, old(data)@.len()),
{
    let n: usize = data.len();
    let mut i: usize = 0;
    while i < n
        invariant
            i <= n,
            n == data@.len(),
            n == old(data)@.len(),
            offset + n <= u64::MAX + 1,
            forall|k: int| 0 <= k < i ==> data@[k] == window(s@, offset as int, n as nat)[k],
        decreases n - i,
    {
        let at: u64 = offset + i as u64;
        data[i] = if at < s.len() as u64 {
            s[at as usize]
        } else {
            0
        };
        i = i + 1;
    }
    assert(data@ =~= window(s@, offset as int, n as nat));
}

/// Overwrites a register block; bytes past its end are dropped.
pub fn write_window(s: &mut Vec<u8>, offset: u64, data: &[u8])
    requires
        offset + data@.len() <= u64::MAX + 1,
    ensures
        final(s)@ == spliced(old(s)@, offset as int, data@),
{
    let n: usize = data.len();
    let mut i: usize = 0;
    while i < n
        invariant
            i <= n,
            n == data@.len(),
            offset + n <= u64::MAX + 1,
            s@ =~= spliced(old(s)@, offset as int, data@.take(i as int)),
        decreases n - i,
    {
        let at: u64 = offset + i as u64;
        if at < s.len() as u64 {
            let k: usize = at as usize;
            s[k] = data[i];
        }
        i = i + 1;
    }
    assert(data@.take(n as int) =~= data@);
}

/// Byte `k` of a 32-bit number, counted from the least significant.
pub fn byte_of_u32(v: u32, k: usize) -> (r: u8)
    requires
        k < 4,
    ensures
        r == u32_le(v)[k as int],
{
    if k == 0 {
        (v % 256) as u8
    } else if k == 1 {
        (v / 256 % 256) as u8
    } else if k == 2 {
        (v / 0x1_0000 % 256) as u8
    } else {
        (v / 0x100_0000) as u8
    }
}

pub(crate) proof fn lemma_u32_of_parts(a: int, b: int, c: int, d: int)
    requires
        0 <= a < 256,
        0 <= b < 256,
        0 <= c < 256,
        0 <= d < 256,
    ensures
        ({
            let r = a + 256 * b + 0x1_0000 * c + 0x100_0000 * d;
            &&& 0 <= r <= u32::MAX
            &&& r % 256 == a
            &&& r / 256 % 256 == b
            &&& r / 0x1_0000 % 256 == c
            &&& r / 0x100_0000 == d
        }),
{
    let r = a + 256 * b + 0x1_0000 * c + 0x100_0000 * d;
    assert(r / 256 == b + 256 * c + 0x1_0000 * d);
    assert(r / 0x1_0000 == c + 256 * d);
}

proof fn lemma_read_then_written_u32(s: Seq<u8>, at: int)
    requires
        0 <= at,
        at + 4 <= s.len(),
    ensures
        u32_le(le32(s, at)) == s.subrange(at, at + 4),
{
    lemma_u32_of_parts(s[at] as int, s[at + 1] as int, s[at + 2] as int, s[at + 3] as int);
    assert(u32_le(le32(s, at)) =~= s.subrange(at, at + 4));
}

proof fn lemma_u64_of_parts(low: u32, high: u32)
    ensures
        ({
            let r = low + 0x1_0000_0000 * high;
            &&& 0 <= r <= u64::MAX
            &&& r % 0x1_0000_0000 == low
            &&& r / 0x1_0000_0000 == high
        }),
{
}

/// Writing back a number that was read gives the bytes it was read from.
pub proof fn read_then_written(s: Seq<u8>, at: int)
    requires
        0 <= at,
        at + 8 <= s.len(),
    ensures
        u32_le(le32(s, at)) == s.subrange(at, at + 4),
        u64_le(le64(s, at)) == s.subrange(at, at + 8),
{
    lemma_read_then_written_u32(s, at);
    lemma_read_then_written_u32(s, at + 4);
    lemma_u64_of_parts(le32(s, at), le32(s, at + 4));
    assert(s.subrange(at, at + 4) + s.subrange(at + 4, at + 8) =~= s.subrange(at, at + 8));
}

/// A 32-bit number with byte `k` replaced.
pub fn with_byte_u32(v: u32, k: usize, b: u8) -> (r: u32)
    requires
        k < 4,
    ensures
        u32_le(r) == u32_le(v).update(k as int, b),
{
    let b0: u32 = v % 256;
    let b1: u32 = v / 256 % 256;
    let b2: u32 = v / 0x1_0000 % 256;
    let b3: u32 = v / 0x100_0000;
    let x: u32 = b as u32;
    proof {
        if k == 0 {
            lemma_u32_of_parts(x as int, b1 as int, b2 as int, b3 as int);
        } else if k == 1 {
            lemma_u32_of_parts(b0 as int, x as int, b2 as int, b3 as int);
        } else if k == 2 {
            lemma_u32_of_parts(b0 as int, b1 as int, x as int, b3 as int);
        } else {
            lemma_u32_of_parts(b0 as int, b1 as int, b2 as int, x as int);
        }
    }
    let r: u32 = if k == 0 {
        x + 256 * b1 + 0x1_0000 * b2 + 0x100_0000 * b3
    } else if k == 1 {
        b0 + 256 * x + 0x1_0000 * b2 + 0x100_0000 * b3
    } else if k == 2 {
        b0 + 256 * b1 + 0x1_0000 * x + 0x100_0000 * b3
    } else {
        b0 + 256 * b1 + 0x1_0000 * b2 + 0x100_0000 * x
    };
    assert(u32_le(r) =~= u32_le(v).update(k as int, b));
    r
}

/// Byte `k` of a 16-bit number, counted from the least significant.
pub fn byte_of_u16(v: u16, k: usize) -> (r: u8)
    requires
        k < 2,
    ensures
        r == u16_le(v)[k as int],
{
    if k == 0 {
        (v % 256) as u8
    } else {
        (v / 256) as u8
    }
}

/// A 16-bit number with byte `k` replaced.
pub fn with_byte_u16(v: u16, k: usize, b: u8) -> (r: u16)
    requires
        k < 2,
    ensures
        u16_le(r) == u16_le(v).update(k as int, b),
{
    let r: u16 = if k == 0 {
        b as u16 + 256 * (v / 256)
    } else {
        v % 256 + 256 * (b as u16)
    };
    assert(u16_le(r) =~= u16_le(v).update(k as int, b));
    r
}

/// A sequence cut off or filled up with zeros to a length.
pub open spec fn resized(s: Seq<u8>, n: nat) -> Seq<u8> {
    Seq::new(
        n,
        |i: int|
            if i < s.len() {
                s[i]
            } else {
                0u8
            },
    )
}

/// Cuts off or fills up with zeros to a length.
pub fn resize_zeros(v: &mut Vec<u8>, n: usize)
    ensures
        final(v)@ == resized(old(v)@, n as nat),
{
    if v.len() > n {
        v.truncate(n);
    } else {
        let more: usize = n - v.len();
        push_zeros(v, more);
    }
    assert(v@ =~= resized(old(v)@, n as nat));
}

/// Numbers are stored with their lowest byte first, or with their highest byte
/// first.
pub proof fn bytes_have_their_order(a: u16, b: u32, c: u64)
    ensures
        u16_le(a).len() == 2 && u16_le(a)[0] == a % 256 && u16_le(a)[1] == a / 256,
        u16_be(a).len() == 2 && u16_be(a)[0] == a / 256 && u16_be(a)[1] == a % 256,
        u32_le(b).len() == 4 && u32_le(b)[0] == b % 256 && u32_le(b)[1] == b / 0x100 % 256
            && u32_le(b)[2] == b / 0x1_0000 % 256 && u32_le(b)[3] == b / 0x100_0000,
        u32_be(b).len() == 4 && u32_be(b)[3] == b % 256 && u32_be(b)[2] == b / 0x100 % 256
            && u32_be(b)[1] == b / 0x1_0000 % 256 && u32_be(b)[0] == b / 0x100_0000,
        u64_le(c).len() == 8 && u64_le(c)[0] == c % 256 && u64_le(c)[7] == c / 0x100_0000_0000_0000,
        u64_be(c).len() == 8 && u64_be(c)[7] == c % 256 && u64_be(c)[0] == c / 0x100_0000_0000_0000,
{
}

/// A read of part of a block gets the bytes that are there and zeros past the
/// end; a write changes those that are there and is cut off at the end.
pub proof fn blocks_are_read_and_written_in_part(
    s: Seq<u8>,
    offset: int,
    len: nat,
    b: Seq<u8>,
    i: int,
)
    requires
        0 <= offset,
    ensures
        window(s, offset, len).len() == len,
        0 <= i < len && offset + i < s.len() ==> window(s, offset, len)[i] == s[offset + i],
        0 <= i < len && offset + i >= s.len() ==> window(s, offset, len)[i] == 0,
        spliced(s, offset, b).len() == s.len(),
        0 <= i < s.len() && offset <= i < offset + b.len() ==> spliced(s, offset, b)[i] == b[i
            - offset],
        0 <= i < s.len() && !(offset <= i < offset + b.len()) ==> spliced(s, offset, b)[i] == s[i],
{
}

} // verus!
