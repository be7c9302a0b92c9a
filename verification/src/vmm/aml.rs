//! Programs of the ACPI machine language, written as a list of tokens.
use crate::bytes::{push_bytes, push_u16_le, push_u32_le};
use uuid::Uuid;
use vstd::prelude::*;

verus! {

/// Name of an object. Slots are named by their number in decimal, segments
/// after the first by theirs in hexadecimal.
#[derive(Clone, Copy, Debug)]
pub enum AmlName {
    Fixed(&'static str),
    Slot(u8),
    Segment(u8),
}

/// A token. Those that stand for something with parts are followed by the
/// parts and by [`AmlOp::Close`].
#[allow(inconsistent_fields)]
#[derive(Clone, Copy, Debug)]
pub enum AmlOp {
    Zero,
    One,
    U8(u8),
    U16(u16),
    U32(u32),
    /// A number of the machine's word size.
    Word(u64),
    Path(AmlName),
    EisaName(&'static str),
    Arg(u8),
    Local(u8),
    /// Bytes, each a [`AmlOp::Raw`].
    Buffer,
    Raw(u8),
    /// The value of the object.
    Name(AmlName),
    /// What is in the device.
    Device(AmlName),
    /// What the method does.
    Method { name: AmlName, args: u8, serialized: bool },
    /// Arguments.
    MethodCall(AmlName),
    /// Target and two operands.
    And,
    /// Target and two operands.
    Or,
    /// Two operands.
    Equal,
    /// Two operands.
    NotEqual,
    /// Condition, then what to do.
    If,
    /// Object and value.
    Notify,
    /// Target and value.
    Store,
    /// Value.
    Return,
    /// Name of the field, buffer and offset.
    CreateDwordField,
    /// Elements.
    Package,
    /// Resources.
    ResourceTemplate,
    Acquire { mutex: AmlName, timeout: u16 },
    Release { mutex: AmlName },
    Interrupt { consumer: bool, edge_triggered: bool, active_low: bool, shared: bool, number: u32 },
    BusNumber { min: u16, max: u16 },
    Io { min: u16, max: u16, alignment: u8, length: u8 },
    Memory32Fixed { read_write: bool, base: u32, length: u32 },
    /// Memory that is not cached.
    Memory { read_write: bool, min: u64, max: u64 },
    IoRange { min: u16, max: u16 },
    Close,
}

/// Digit of a number below 16, in upper case.
pub open spec fn hex_char(d: int) -> u8 {
    if d < 10 {
        (0x30 + d) as u8
    } else {
        (0x41 + d - 10) as u8
    }
}

impl AmlName {
    /// The name as text.
    pub open spec fn text(&self) -> Seq<u8> {
        match *self {
            AmlName::Fixed(s) => vstd::utf8::encode_utf8(s@),
            AmlName::Slot(id) => seq![
                0x53u8,
                hex_char(id as int / 100),
                hex_char(id as int / 10 % 10),
                hex_char(id as int % 10),
            ],
            AmlName::Segment(id) => vstd::utf8::encode_utf8("_SB_.PC"@) + seq![
                hex_char(id as int / 16),
                hex_char(id as int % 16),
            ],
        }
    }

    /// The name as text: `S` and three decimal digits for a slot, `_SB_.PC`
    /// and two hexadecimal digits for a segment.
    pub fn to_text(&self) -> (r: Vec<u8>)
        ensures
            r@ == self.text(),
    {
        let mut r: Vec<u8> = Vec::new();
        match *self {
            AmlName::Fixed(s) => {
                push_bytes(&mut r, s.as_bytes());
            },
            AmlName::Slot(id) => {
                r.push(0x53);
                r.push(hex_digit_char(id / 100));
                r.push(hex_digit_char(id / 10 % 10));
                r.push(hex_digit_char(id % 10));
            },
            AmlName::Segment(id) => {
                push_bytes(&mut r, "_SB_.PC".as_bytes());
                r.push(hex_digit_char(id / 16));
                r.push(hex_digit_char(id % 16));
            },
        }
        assert(r@ =~= self.text());
        r
    }
}

fn hex_digit_char(d: u8) -> (r: u8)
    requires
        d < 16,
    ensures
        r == hex_char(d as int),
{
    if d < 10 {
        0x30 + d
    } else {
        0x41 + (d - 10)
    }
}

/// Value of a hexadecimal digit, or -1.
pub open spec fn hex_value(c: char) -> int {
    if '0' <= c <= '9' {
        c as int - '0' as int
    } else if 'a' <= c <= 'f' {
        c as int - 'a' as int + 10
    } else if 'A' <= c <= 'F' {
        c as int - 'A' as int + 10
    } else {
        -1
    }
}

/// Position of digit `i` of the 32 in a hyphenated UUID.
pub open spec fn uuid_digit_at(i: int) -> int {
    if i < 8 {
        i
    } else if i < 12 {
        i + 1
    } else if i < 16 {
        i + 2
    } else if i < 20 {
        i + 3
    } else {
        i + 4
    }
}

/// Whether a text is a UUID with hyphens.
pub open spec fn is_hyphenated_uuid(s: Seq<char>) -> bool {
    &&& s.len() == 36
    &&& s[8] == '-' && s[13] == '-' && s[18] == '-' && s[23] == '-'
    &&& forall|i: int| 0 <= i < 32 ==> hex_value(s[#[trigger] uuid_digit_at(i)]) >= 0
}

/// The 16 bytes of a hyphenated UUID, in the order of its digits.
pub open spec fn uuid_bytes(s: Seq<char>) -> Seq<u8> {
    Seq::new(
        16,
        |j: int|
            (16 * hex_value(s[uuid_digit_at(2 * j)]) + hex_value(
                s[uuid_digit_at(2 * j + 1)],
            )) as u8,
    )
}

/// The fields of a UUID in hyphenated text: `Uuid::parse_str` of the uuid
/// crate, which takes any 36 characters with hyphens in place and digits of
/// either case elsewhere, and `Uuid::as_fields`. The first three fields are
/// the first digits as numbers, the last one is the remaining bytes.
#[verifier::external_body]
fn uuid_fields(text: &str) -> (r: (u32, u16, u16, [u8; 8]))
    requires
        is_hyphenated_uuid(text@),
    ensures
        crate::bytes::u32_be(r.0) == uuid_bytes(text@).subrange(0, 4),
        crate::bytes::u16_be(r.1) == uuid_bytes(text@).subrange(4, 6),
        crate::bytes::u16_be(r.2) == uuid_bytes(text@).subrange(6, 8),
        r.3@ == uuid_bytes(text@).subrange(8, 16),
{
    let uuid = Uuid::parse_str(text).unwrap();
    let (d1, d2, d3, d4) = uuid.as_fields();
    (d1, d2, d3, *d4)
}

/// A UUID as the machine language holds it: the first three fields in
/// little-endian order, the rest as written.
pub open spec fn mixed_endian(b: Seq<u8>) -> Seq<u8> {
    b.subrange(0, 4).reverse() + b.subrange(4, 6).reverse() + b.subrange(6, 8).reverse()
        + b.subrange(8, 16)
}

/// The fields of a UUID in the order in which the machine language holds them.
pub fn mixed_endian_buffer(d1: u32, d2: u16, d3: u16, d4: &[u8]) -> (r: Vec<u8>)
    ensures
        r@ == crate::bytes::u32_le(d1) + crate::bytes::u16_le(d2) + crate::bytes::u16_le(d3) + d4@,
{
    let mut r: Vec<u8> = Vec::new();
    push_u32_le(&mut r, d1);
    push_u16_le(&mut r, d2);
    push_u16_le(&mut r, d3);
    push_bytes(&mut r, d4);
    assert(r@ =~= crate::bytes::u32_le(d1) + crate::bytes::u16_le(d2) + crate::bytes::u16_le(d3)
        + d4@);
    r
}

/// A UUID in hyphenated text as the machine language holds it.
pub fn uuid_buffer(text: &str) -> (r: Vec<u8>)
    requires
        is_hyphenated_uuid(text@),
    ensures
        r@ == mixed_endian(uuid_bytes(text@)),
{
    let (d1, d2, d3, d4): (u32, u16, u16, [u8; 8]) = uuid_fields(text);
    let ghost b = uuid_bytes(text@);
    assert(crate::bytes::u32_le(d1) =~= crate::bytes::u32_be(d1).reverse());
    assert(crate::bytes::u16_le(d2) =~= crate::bytes::u16_be(d2).reverse());
    assert(crate::bytes::u16_le(d3) =~= crate::bytes::u16_be(d3).reverse());
    mixed_endian_buffer(d1, d2, d3, &d4)
}

/// Bytes as tokens.
pub open spec fn raw(b: Seq<u8>) -> Seq<AmlOp> {
    b.map_values(|x: u8| AmlOp::Raw(x))
}

/// Bytes as tokens.
pub fn raw_tokens(b: &Vec<u8>) -> (r: Vec<AmlOp>)
    ensures
        r@ == raw(b@),
{
    let mut r: Vec<AmlOp> = Vec::new();
    let mut i: usize = 0;
    while i < b.len()
        invariant
            i <= b@.len(),
            r@ == raw(b@.take(i as int)),
        decreases b@.len() - i,
    {
        r.push(AmlOp::Raw(b[i]));
        i = i + 1;
        assert(raw(b@.take(i as int)) =~= raw(b@.take(i - 1)).push(AmlOp::Raw(b@[i - 1])));
    }
    assert(b@.take(i as int) =~= b@);
    r
}

/// How a token changes the depth of what follows.
pub open spec fn depth_change(op: AmlOp) -> int {
    match op {
        AmlOp::Buffer
        | AmlOp::Name(_)
        | AmlOp::Device(_)
        | AmlOp::Method { .. }
        | AmlOp::MethodCall(_)
        | AmlOp::And
        | AmlOp::Or
        | AmlOp::Equal
        | AmlOp::NotEqual
        | AmlOp::If
        | AmlOp::Notify
        | AmlOp::Store
        | AmlOp::Return
        | AmlOp::CreateDwordField
        | AmlOp::Package
        | AmlOp::ResourceTemplate => 1,
        AmlOp::Close => -1,
        _ => 0,
    }
}

/// The depth after the tokens from `i` on, starting at a depth; -1 if it ever
/// falls below zero.
pub open spec fn nesting(s: Seq<AmlOp>, i: int, depth: int) -> int
    decreases s.len() - i,
{
    if depth < 0 {
        -1
    } else if i >= s.len() || i < 0 {
        depth
    } else {
        nesting(s, i + 1, depth + depth_change(s[i]))
    }
}

/// The depth after two lists is the depth after the second, starting from the
/// depth after the first.
pub proof fn nesting_adds(a: Seq<AmlOp>, b: Seq<AmlOp>, depth: int)
    ensures
        nesting(a + b, 0, depth) == nesting(b, 0, nesting(a, 0, depth)),
{
    lemma_nesting_first(a, b, 0, depth);
}

proof fn lemma_nesting_first(a: Seq<AmlOp>, b: Seq<AmlOp>, i: int, depth: int)
    requires
        0 <= i <= a.len(),
    ensures
        nesting(a + b, i, depth) == nesting(b, 0, nesting(a, i, depth)),
    decreases a.len() - i,
{
    if depth >= 0 {
        if i < a.len() {
            assert((a + b)[i] == a[i]);
            lemma_nesting_first(a, b, i + 1, depth + depth_change(a[i]));
        } else {
            lemma_nesting_second(a, b, 0, depth);
        }
    }
}

proof fn lemma_nesting_second(a: Seq<AmlOp>, b: Seq<AmlOp>, i: int, depth: int)
    requires
        0 <= i <= b.len(),
    ensures
        nesting(a + b, a.len() + i, depth) == nesting(b, i, depth),
    decreases b.len() - i,
{
    if depth >= 0 && i < b.len() {
        assert((a + b)[a.len() + i] == b[i]);
        lemma_nesting_second(a, b, i + 1, depth + depth_change(b[i]));
    }
}

/// Bytes leave the depth as it is.
pub proof fn raw_is_flat(b: Seq<u8>, i: int, depth: int)
    requires
        0 <= i <= b.len(),
    ensures
        nesting(raw(b), i, depth) == if depth < 0 {
            -1
        } else {
            depth
        },
    decreases b.len() - i,
{
    if depth >= 0 && i < b.len() {
        raw_is_flat(b, i + 1, depth);
    }
}

/// A slot's name is `S` and its number in decimal.
pub proof fn slot_name_spells_its_number(id: u8)
    ensures
        ({
            let t = AmlName::Slot(id).text();
            &&& t.len() == 4 && t[0] == 0x53
            &&& 100 * digit_value(t[1]) + 10 * digit_value(t[2]) + digit_value(t[3]) == id
            &&& digit_value(t[1]) < 10 && digit_value(t[2]) < 10 && digit_value(t[3]) < 10
        }),
{
    lemma_digit(id as int / 100);
    lemma_digit(id as int / 10 % 10);
    lemma_digit(id as int % 10);
}

/// A segment's name ends in its number in hexadecimal.
pub proof fn segment_name_spells_its_number(id: u8)
    ensures
        ({
            let t = AmlName::Segment(id).text();
            let n = t.len();
            &&& n >= 2
            &&& 16 * digit_value(t[n - 2]) + digit_value(t[n - 1]) == id
        }),
{
    lemma_digit(id as int / 16);
    lemma_digit(id as int % 16);
    let stem = vstd::utf8::encode_utf8("_SB_.PC"@);
    let t = AmlName::Segment(id).text();
    assert(t.len() == stem.len() + 2);
    assert(t[t.len() - 2] == hex_char(id as int / 16));
    assert(t[t.len() - 1] == hex_char(id as int % 16));
}

proof fn lemma_digit(d: int)
    requires
        0 <= d < 16,
    ensures
        digit_value(hex_char(d)) == d,
{
}

/// What a digit stands for, in upper case.
pub open spec fn digit_value(c: u8) -> int {
    if 0x30 <= c <= 0x39 {
        c - 0x30
    } else if 0x41 <= c <= 0x46 {
        c - 0x41 + 10
    } else {
        -1
    }
}

/// The first three fields of an identifier are turned round, the others are not.
pub proof fn first_fields_are_turned_round(b: Seq<u8>, i: int)
    requires
        b.len() == 16,
        8 <= i < 16,
    ensures
        mixed_endian(b).len() == 16,
        mixed_endian(b)[0] == b[3] && mixed_endian(b)[1] == b[2] && mixed_endian(b)[2] == b[1]
            && mixed_endian(b)[3] == b[0],
        mixed_endian(b)[4] == b[5] && mixed_endian(b)[5] == b[4],
        mixed_endian(b)[6] == b[7] && mixed_endian(b)[7] == b[6],
        mixed_endian(b)[i] == b[i],
{
}

} // verus!
