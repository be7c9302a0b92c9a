//! Tables that describe the machine to management software.
use crate::bytes::{push_bytes, push_u16_le, push_u32_le, push_zeros, resize_zeros};
use vstd::prelude::*;

verus! {

/// Size of the entry point.
pub const Q35_SMBIOS_ANCHOR_SIZE: usize = 0x18;

/// Size of the tables.
pub const Q35_SMBIOS_TABLES_SIZE: usize = 0x13b;

/// Sum of bytes.
pub open spec fn byte_sum(s: Seq<u8>) -> int
    decreases s.len(),
{
    if s.len() == 0 {
        0
    } else {
        byte_sum(s.drop_last()) + s.last()
    }
}

/// The byte that brings a sum to zero.
pub open spec fn balancing(sum: int) -> u8 {
    ((256 - sum % 256) % 256) as u8
}

/// Sets the checksum of an entry point, byte 5, to balance all bytes.
pub fn smbios_checksum(bytes: &mut Vec<u8>)
    requires
        old(bytes)@.len() > 5,
    ensures
        final(bytes)@ == old(bytes)@.update(5, balancing(byte_sum(old(bytes)@))),
{
    let mut sum: u8 = 0;
    let mut i: usize = 0;
    while i < bytes.len()
        invariant
            i <= bytes@.len(),
            bytes@ == old(bytes)@,
            sum == byte_sum(bytes@.take(i as int)) % 256,
        decreases bytes@.len() - i,
    {
        assert(bytes@.take(i + 1).drop_last() =~= bytes@.take(i as int));
        sum = sum.wrapping_add(bytes[i]);
        i = i + 1;
    }
    assert(bytes@.take(i as int) =~= bytes@);
    bytes.set(5, 0u8.wrapping_sub(sum));
}

/// An entry point whose checksum was clear sums to zero once it is set.
pub proof fn checksum_balances(s: Seq<u8>)
    requires
        s.len() > 5,
        s[5] == 0,
    ensures
        byte_sum(s.update(5, balancing(byte_sum(s)))) % 256 == 0,
{
    lemma_sum_update(s, 5, balancing(byte_sum(s)));
}

proof fn lemma_sum_update(s: Seq<u8>, at: int, b: u8)
    requires
        0 <= at < s.len(),
    ensures
        byte_sum(s.update(at, b)) == byte_sum(s) - s[at] + b,
    decreases s.len(),
{
    let t = s.update(at, b);
    if at == s.len() - 1 {
        assert(t.drop_last() =~= s.drop_last());
    } else {
        assert(t.drop_last() =~= s.drop_last().update(at, b));
        lemma_sum_update(s.drop_last(), at, b);
    }
}

/// The first `n` strings of a table, each with its terminator.
pub open spec fn table_strings(strings: Seq<&'static str>, n: nat) -> Seq<u8>
    decreases n,
{
    if n == 0 {
        Seq::empty()
    } else {
        (table_strings(strings, (n - 1) as nat) + vstd::utf8::encode_utf8(
            strings[n - 1]@,
        )).push(0)
    }
}

/// A table: header, formatted part and strings. Without strings it ends in two
/// zeros.
pub open spec fn table_bytes(
    type_: u8,
    handle: u16,
    formatted: Seq<u8>,
    strings: Seq<&'static str>,
) -> Seq<u8> {
    let head = seq![type_, ((4 + formatted.len()) % 256) as u8] + crate::bytes::u16_le(handle) + formatted;
    if strings.len() == 0 {
        head + seq![0u8, 0u8]
    } else {
        (head + table_strings(strings, strings.len())).push(0)
    }
}

/// Makes a table. Its length byte takes the low bits of the length of the
/// formatted part.
pub fn smbios_table(type_: u8, handle: u16, formatted: &Vec<u8>, strings: &Vec<&'static str>) -> (r:
    Vec<u8>)
    ensures
        r@ == table_bytes(type_, handle, formatted@, strings@),
{
    let mut table: Vec<u8> = Vec::new();
    table.push(type_);
    table.push(((formatted.len() % 256 + 4) % 256) as u8);
    push_u16_le(&mut table, handle);
    push_bytes(&mut table, formatted.as_slice());
    let ghost head = seq![type_, ((4 + formatted@.len()) % 256) as u8] + crate::bytes::u16_le(handle)
        + formatted@;
    assert(table@ =~= head);
    if strings.len() == 0 {
        table.push(0);
        table.push(0);
        assert(table@ =~= head + seq![0u8, 0u8]);
    } else {
        let mut i: usize = 0;
        assert(table@ =~= head + table_strings(strings@, 0));
        while i < strings.len()
            invariant
                i <= strings@.len(),
                table@ == head + table_strings(strings@, i as nat),
            decreases strings@.len() - i,
        {
            push_bytes(&mut table, strings[i].as_bytes());
            table.push(0);
            i = i + 1;
            assert(table@ =~= head + table_strings(strings@, i as nat));
        }
        table.push(0);
    }
    table
}

/// Firmware information: vendor, version and date, and where it starts.
pub open spec fn bios_info() -> Seq<u8> {
    Seq::new(
        0x14,
        |i: int|
            if i == 0 {
                1u8
            } else if i == 1 {
                2u8
            } else if i == 3 {
                0xe8u8
            } else if i == 4 {
                3u8
            } else {
                0u8
            },
    )
}

/// System information: manufacturer and product, and what woke the machine.
pub open spec fn system_info() -> Seq<u8> {
    Seq::new(
        0x17,
        |i: int|
            if i == 0 {
                1u8
            } else if i == 1 {
                2u8
            } else if i == 0x14 {
                6u8
            } else {
                0u8
            },
    )
}

/// The tables, filled up to their size.
pub open spec fn smbios_tables() -> Seq<u8> {
    crate::bytes::resized(
        table_bytes(0, 0, bios_info(), seq!["EDK II", "QEMU", "01/01/2026"]) + table_bytes(
            1,
            0x0100,
            system_info(),
            seq!["minimal-tdx", "payload-initramfs"],
        ) + table_bytes(127, 0x7f00, Seq::empty(), Seq::empty()),
        0x13b,
    )
}

/// The entry point before its checksum is set: signature, its own length, the
/// version, and the size of the tables.
pub open spec fn unbalanced_anchor() -> Seq<u8> {
    seq![0x5fu8, 0x53, 0x4d, 0x33, 0x5f, 0, 0x18, 1, 3, 0, 0, 0] + crate::bytes::u32_le(0x13b)
        + Seq::new(8, |i: int| 0u8)
}

/// The entry point.
pub open spec fn smbios_anchor() -> Seq<u8> {
    unbalanced_anchor().update(5, balancing(byte_sum(unbalanced_anchor())))
}

/// Makes the entry point and the tables.
pub fn build_qemu_compat_smbios() -> (r: (Vec<u8>, Vec<u8>))
    ensures
        r.0@ == smbios_anchor(),
        r.1@ == smbios_tables(),
{
    let mut info: Vec<u8> = Vec::new();
    push_zeros(&mut info, 0x18 - 4);
    info.set(0, 1);
    info.set(1, 2);
    info.set(2, 0x00);
    info.set(3, 0xe8);
    info.set(4, 3);
    assert(info@ =~= bios_info());
    let names: Vec<&'static str> = vec!["EDK II", "QEMU", "01/01/2026"];
    assert(names@ =~= seq!["EDK II", "QEMU", "01/01/2026"]);
    let mut tables: Vec<u8> = smbios_table(0, 0x0000, &info, &names);

    let mut info: Vec<u8> = Vec::new();
    push_zeros(&mut info, 0x1b - 4);
    info.set(0, 1);
    info.set(1, 2);
    info.set(0x14, 0x06);
    assert(info@ =~= system_info());
    let names: Vec<&'static str> = vec!["minimal-tdx", "payload-initramfs"];
    assert(names@ =~= seq!["minimal-tdx", "payload-initramfs"]);
    let mut system: Vec<u8> = smbios_table(1, 0x0100, &info, &names);
    tables.append(&mut system);

    let none: Vec<u8> = Vec::new();
    let no_names: Vec<&'static str> = Vec::new();
    assert(none@ =~= Seq::empty());
    assert(no_names@ =~= Seq::empty());
    let mut end: Vec<u8> = smbios_table(127, 0x7f00, &none, &no_names);
    tables.append(&mut end);
    resize_zeros(&mut tables, Q35_SMBIOS_TABLES_SIZE);

    let mut anchor: Vec<u8> = vec![0x5f, 0x53, 0x4d, 0x33, 0x5f, 0, 0x18, 1, 3, 0, 0, 0];
    push_u32_le(&mut anchor, tables.len() as u32);
    push_zeros(&mut anchor, 8);
    assert(anchor@ =~= unbalanced_anchor());
    smbios_checksum(&mut anchor);
    (anchor, tables)
}

/// The entry point has its size and sums to zero.
pub proof fn anchor_is_valid()
    ensures
        smbios_anchor().len() == Q35_SMBIOS_ANCHOR_SIZE,
        byte_sum(smbios_anchor()) % 256 == 0,
{
    checksum_balances(unbalanced_anchor());
}

/// The entry point says what it is and how long, and that the tables are as long
/// as they are.
pub proof fn anchor_describes_the_tables()
    ensures
        smbios_anchor().take(5) == seq![0x5fu8, 0x53, 0x4d, 0x33, 0x5f],
        smbios_anchor()[6] == smbios_anchor().len(),
        crate::bytes::le32(smbios_anchor(), 12) == smbios_tables().len(),
        crate::bytes::le64(smbios_anchor(), 16) == 0,
{
    let a = smbios_anchor();
    let size = crate::bytes::u32_le(0x13b);
    crate::bytes::round_trips(0, 0x13b, 0);
    assert(a.take(5) =~= seq![0x5fu8, 0x53, 0x4d, 0x33, 0x5f]);
    assert(crate::bytes::le32(a, 12) == crate::bytes::le32(size, 0));
    assert(smbios_tables().len() == 0x13b);
}

/// A table can be walked: it starts with its type, the length of its header and
/// formatted part together, and its handle; the formatted part follows; and the
/// table ends in two zeros.
pub proof fn tables_can_be_walked(
    type_: u8,
    handle: u16,
    formatted: Seq<u8>,
    strings: Seq<&'static str>,
)
    requires
        formatted.len() < 252,
    ensures
        ({
            let t = table_bytes(type_, handle, formatted, strings);
            let n = t.len();
            &&& n >= t[1] + 2
            &&& t[0] == type_
            &&& t[1] == 4 + formatted.len()
            &&& crate::bytes::le16(t, 2) == handle
            &&& t.subrange(4, t[1] as int) == formatted
            &&& t[n - 1] == 0 && t[n - 2] == 0
        }),
{
    let t = table_bytes(type_, handle, formatted, strings);
    let h = crate::bytes::u16_le(handle);
    crate::bytes::round_trips(handle, 0, 0);
    let head = seq![type_, ((4 + formatted.len()) % 256) as u8] + h + formatted;
    assert(head.len() == 4 + formatted.len());
    assert(crate::bytes::le16(t, 2) == crate::bytes::le16(h, 0));
    if strings.len() > 0 {
        let list = table_strings(strings, strings.len());
        assert(list.len() > 0 && list[list.len() - 1] == 0);
        assert(t == (head + list).push(0));
        assert(t[t.len() - 2] == list[list.len() - 1]);
    }
    assert(t.subrange(4, t[1] as int) =~= formatted);
}

} // verus!
