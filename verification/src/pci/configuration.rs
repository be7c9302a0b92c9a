//! Configuration space of a PCI function.
use crate::bytes::{push_u32_le, read_u32_le, write_bytes};
use vstd::prelude::*;

verus! {

/// Number of 32-bit registers in a configuration space.
pub const NUM_CONFIGURATION_REGISTERS: usize = 1024;

/// Registers and, for each bit, whether software can change it.
pub struct PciConfiguration {
    pub registers: [u32; 1024],
    pub writable_bits: [u32; 1024],
}

/// What identifies a function.
#[derive(Clone, Copy, Debug, PartialEq, Eq, Structural)]
pub struct PciIdentity {
    pub vendor_id: u16,
    pub device_id: u16,
    pub revision_id: u8,
    pub class_code: u8,
    pub subclass: u8,
    pub programming_interface: u8,
    pub subsystem_vendor_id: u16,
    pub subsystem_id: u16,
}

/// A register after bytes were written into it, as far as its bits can be
/// changed.
pub open spec fn register_written(
    before: u32,
    writable: u32,
    offset: int,
    data: Seq<u8>,
) -> u32 {
    let value = crate::bytes::le32(
        crate::bytes::spliced(crate::bytes::u32_le(before), offset, data),
        0,
    );
    (before & !writable) | (value & writable)
}

/// The registers of a fresh device function.
pub open spec fn header_registers(id: PciIdentity) -> Seq<u32> {
    Seq::new(
        1024,
        |i: int|
            if i == 0 {
                (id.device_id * 0x1_0000 + id.vendor_id) as u32
            } else if i == 2 {
                (id.class_code * 0x100_0000 + id.subclass * 0x1_0000 + id.programming_interface
                    * 0x100 + id.revision_id) as u32
            } else if i == 11 {
                (id.subsystem_id * 0x1_0000 + id.subsystem_vendor_id) as u32
            } else {
                0u32
            },
    )
}

/// The changeable bits of a fresh device function: the command register, the
/// cache line size and the interrupt line.
pub open spec fn header_writable() -> Seq<u32> {
    Seq::new(
        1024,
        |i: int|
            if i == 1 {
                0x0000_ffffu32
            } else if i == 3 || i == 15 {
                0x0000_00ffu32
            } else {
                0u32
            },
    )
}

impl PciConfiguration {
    /// A fresh device function.
    pub fn new(id: PciIdentity) -> (r: Self)
        ensures
            r.registers@ == header_registers(id),
            r.writable_bits@ == header_writable(),
    {
        let mut registers: [u32; 1024] = [0u32;1024];
        let mut writable_bits: [u32; 1024] = [0u32;1024];
        registers[0] = id.device_id as u32 * 0x1_0000 + id.vendor_id as u32;
        writable_bits[1] = 0x0000_ffff;
        registers[2] = id.class_code as u32 * 0x100_0000 + id.subclass as u32 * 0x1_0000
            + id.programming_interface as u32 * 0x100 + id.revision_id as u32;
        writable_bits[3] = 0x0000_00ff;
        writable_bits[15] = 0x0000_00ff;
        registers[11] = id.subsystem_id as u32 * 0x1_0000 + id.subsystem_vendor_id as u32;
        assert(registers@ =~= header_registers(id));
        assert(writable_bits@ =~= header_writable());
        PciConfiguration { registers, writable_bits }
    }

    /// Value of a register; ones past the end.
    pub open spec fn reg(&self, reg_idx: int) -> u32 {
        if reg_idx < 1024 {
            self.registers@[reg_idx]
        } else {
            0xffff_ffff
        }
    }

    /// Reads a register; ones past the end.
    pub fn read_reg(&self, reg_idx: usize) -> (r: u32)
        ensures
            r == self.reg(reg_idx as int),
    {
        if reg_idx < 1024 {
            self.registers[reg_idx]
        } else {
            0xffff_ffff
        }
    }

    /// Sets a register.
    pub fn set_reg(&mut self, reg_idx: usize, value: u32)
        requires
            reg_idx < 1024,
        ensures
            final(self).registers@ == old(self).registers@.update(reg_idx as int, value),
            final(self).writable_bits == old(self).writable_bits,
    {
        self.registers[reg_idx] = value;
    }

    /// Sets which bits of a register software can change.
    pub fn set_writable_bits(&mut self, reg_idx: usize, mask: u32)
        requires
            reg_idx < 1024,
        ensures
            final(self).writable_bits@ == old(self).writable_bits@.update(reg_idx as int, mask),
            final(self).registers == old(self).registers,
    {
        self.writable_bits[reg_idx] = mask;
    }

    /// The registers after software wrote to one of them. Aligned accesses of
    /// 1, 2 and 4 bytes inside a register are served.
    pub open spec fn written(&self, reg_idx: int, offset: int, data: Seq<u8>) -> Seq<u32> {
        if offset + data.len() > 4 || reg_idx >= 1024 || !(data.len() == 1 || data.len() == 4 || (
        data.len() == 2 && offset % 2 == 0)) {
            self.registers@
        } else {
            self.registers@.update(
                reg_idx,
                register_written(
                    self.registers@[reg_idx],
                    self.writable_bits@[reg_idx],
                    offset,
                    data,
                ),
            )
        }
    }

    /// Writes to a register on behalf of software.
    pub fn write_config_register(&mut self, reg_idx: usize, offset: u64, data: &[u8])
        ensures
            final(self).registers@ == old(self).written(reg_idx as int, offset as int, data@),
            final(self).writable_bits == old(self).writable_bits,
    {
        let len: usize = data.len();
        if reg_idx >= 1024 || offset > 4 || !(len == 1 || len == 4 || (len == 2 && offset % 2
            == 0)) || offset + len as u64 > 4 {
            return;
        }
        let before: u32 = self.registers[reg_idx];
        let writable: u32 = self.writable_bits[reg_idx];
        let mut b: Vec<u8> = Vec::new();
        push_u32_le(&mut b, before);
        assert(b@ =~= crate::bytes::u32_le(before));
        write_bytes(&mut b, offset as usize, data);
        let value: u32 = read_u32_le(b.as_slice(), 0);
        self.registers[reg_idx] = (before & !writable) | (value & writable);
    }
}

/// A full register that software writes reads back in its writable bits, and
/// no other bit changes.
pub proof fn written_bits_read_back(before: u32, writable: u32, x: u32)
    ensures
        register_written(before, writable, 0, crate::bytes::u32_le(x)) & writable == x & writable,
        register_written(before, writable, 0, crate::bytes::u32_le(x)) & !writable == before
            & !writable,
{
    let data = crate::bytes::u32_le(x);
    assert(crate::bytes::spliced(crate::bytes::u32_le(before), 0, data) =~= data);
    crate::bytes::round_trips(0, x, 0);
    lemma_masked(before, writable, x);
}

/// Software never changes a bit that is not writable, whatever it writes.
pub proof fn fixed_bits_stay(before: u32, writable: u32, offset: int, data: Seq<u8>)
    ensures
        register_written(before, writable, offset, data) & !writable == before & !writable,
{
    let value = crate::bytes::le32(
        crate::bytes::spliced(crate::bytes::u32_le(before), offset, data),
        0,
    );
    lemma_masked(before, writable, value);
}

proof fn lemma_masked(before: u32, writable: u32, x: u32)
    by (bit_vector)
    ensures
        ((before & !writable) | (x & writable)) & writable == x & writable,
        ((before & !writable) | (x & writable)) & !writable == before & !writable,
        (before & !0xffff_ffffu32) | (x & 0xffff_ffffu32) == x,
        (before & !0u32) | (x & 0u32) == before,
{
}

/// A write goes to the bytes of the one register that it is made to. Where
/// software can change all of them, each written byte reads back and all others
/// are as they were; where it can change none, nothing changes.
pub proof fn bytes_land_where_they_are_written(
    config: PciConfiguration,
    reg_idx: int,
    offset: int,
    data: Seq<u8>,
    i: int,
    other: int,
)
    requires
        0 <= reg_idx < 1024,
        0 <= other < 1024,
        0 <= offset,
        offset + data.len() <= 4,
        data.len() == 1 || data.len() == 4 || (data.len() == 2 && offset % 2 == 0),
        0 <= i < 4,
    ensures
        ({
            let after = config.written(reg_idx, offset, data);
            let byte = crate::bytes::u32_le(after[reg_idx])[i];
            &&& other != reg_idx ==> after[other] == config.registers@[other]
            &&& config.writable_bits@[reg_idx] == 0 ==> after[reg_idx]
                == config.registers@[reg_idx]
            &&& config.writable_bits@[reg_idx] == 0xffff_ffff ==> byte == (if offset <= i < offset
                + data.len() {
                data[i - offset]
            } else {
                crate::bytes::u32_le(config.registers@[reg_idx])[i]
            })
        }),
{
    let before = config.registers@[reg_idx];
    let spliced = crate::bytes::spliced(crate::bytes::u32_le(before), offset, data);
    let value = crate::bytes::le32(spliced, 0);
    lemma_masked(before, 0, value);
    let padded = spliced + spliced;
    crate::bytes::read_then_written(padded, 0);
    assert(crate::bytes::le32(padded, 0) == value);
    assert(padded.subrange(0, 4) =~= spliced);
}

/// A fresh function reads as what it is: vendor and device in register 0,
/// revision, programming interface, subclass and class in register 2, subsystem
/// vendor and subsystem in register 11, each in its place. All else is zero.
/// Software can change its command, its cache line size and its interrupt line.
pub proof fn identity_is_in_its_place(id: PciIdentity, i: int)
    requires
        0 <= i < 1024,
    ensures
        ({
            let r = header_registers(id);
            &&& r[0] % 0x1_0000 == id.vendor_id && r[0] / 0x1_0000 == id.device_id
            &&& r[2] % 0x100 == id.revision_id
            &&& r[2] / 0x100 % 0x100 == id.programming_interface
            &&& r[2] / 0x1_0000 % 0x100 == id.subclass
            &&& r[2] / 0x100_0000 == id.class_code
            &&& r[11] % 0x1_0000 == id.subsystem_vendor_id && r[11] / 0x1_0000 == id.subsystem_id
            &&& i != 0 && i != 2 && i != 11 ==> r[i] == 0
        }),
        header_writable()[1] == 0xffff && header_writable()[3] == 0xff && header_writable()[15]
            == 0xff,
        i != 1 && i != 3 && i != 15 ==> header_writable()[i] == 0,
{
}

} // verus!
