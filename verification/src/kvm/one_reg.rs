//! Registers of virtual CPUs that are read and written one by one.
//!
//! On AArch64 and RISC-V the core registers have no call of their own: each is
//! accessed by a number that is made of its place in the register file.
use crate::bytes::{push_u32_le, push_u64_le, read_u32_le, read_u64_le};
use vstd::prelude::*;

verus! {

pub const KVM_REG_ARM64: u64 = 0x6000_0000_0000_0000;

pub const KVM_REG_RISCV: u64 = 0x8000_0000_0000_0000;

pub const KVM_REG_SIZE_U32: u64 = 0x0020_0000_0000_0000;

pub const KVM_REG_SIZE_U64: u64 = 0x0030_0000_0000_0000;

pub const KVM_REG_SIZE_U128: u64 = 0x0040_0000_0000_0000;

pub const KVM_REG_ARM_CORE: u64 = 0x0010_0000;

pub const KVM_REG_ARM64_SYSREG: u64 = 0x0013_0000;

pub const KVM_REG_RISCV_CORE: u64 = 0x0200_0000;

/// Processor state of a CPU that is about to boot: all interrupts masked, in
/// the kernel's mode.
pub const PSTATE_FAULT_BITS_64: u64 = 0x3c5;

pub const KVM_ARM_VCPU_POWER_OFF: u32 = 0;

pub const KVM_ARM_VCPU_PSCI_0_2: u32 = 2;

pub const KVM_ARM_VCPU_PMU_V3: u32 = 3;

pub const KVM_ARM_VCPU_SVE: u32 = 4;

/// Number of core registers on AArch64: 41 of 64 bits, 32 of 128 bits and two
/// of 32 bits.
pub const ARM64_CORE_REGS: usize = 75;

/// Number of core registers on RISC-V.
pub const RISCV64_CORE_REGS: usize = 33;

/// A register and its bytes.
pub struct OneReg {
    pub id: u64,
    pub bytes: Vec<u8>,
}

/// A register and its bytes as values.
pub struct OneRegView {
    pub id: u64,
    pub bytes: Seq<u8>,
}

impl View for OneReg {
    type V = OneRegView;

    open spec fn view(&self) -> OneRegView {
        OneRegView { id: self.id, bytes: self.bytes@ }
    }
}

/// Number of an AArch64 core register, by its size and its offset in the
/// register file.
pub open spec fn arm64_core_reg_id(size: u64, offset: int) -> u64 {
    (KVM_REG_ARM64 + KVM_REG_ARM_CORE + size + offset / 4) as u64
}

/// Number of a RISC-V core register, by its offset in the register file.
pub open spec fn riscv64_core_reg_id(offset: int) -> u64 {
    (KVM_REG_RISCV + KVM_REG_SIZE_U64 + KVM_REG_RISCV_CORE + offset / 8) as u64
}

/// Core registers of an AArch64 CPU.
#[derive(Clone, Copy, Debug)]
pub struct Arm64Regs {
    pub regs: [u64; 31],
    pub sp: u64,
    pub pc: u64,
    pub pstate: u64,
    pub sp_el1: u64,
    pub elr_el1: u64,
    pub spsr: [u64; 5],
    pub vregs: [u128; 32],
    pub fpsr: u32,
    pub fpcr: u32,
}

/// Bytes of a 128-bit number.
pub open spec fn u128_le(x: u128) -> Seq<u8> {
    crate::bytes::u64_le((x % 0x1_0000_0000_0000_0000) as u64) + crate::bytes::u64_le(
        (x / 0x1_0000_0000_0000_0000) as u64,
    )
}

impl Arm64Regs {
    /// The 64-bit registers in the order of the register file.
    pub open spec fn word(&self, i: int) -> u64 {
        if i < 31 {
            self.regs@[i]
        } else if i == 31 {
            self.sp
        } else if i == 32 {
            self.pc
        } else if i == 33 {
            self.pstate
        } else if i == 34 {
            self.sp_el1
        } else if i == 35 {
            self.elr_el1
        } else {
            self.spsr@[i - 36]
        }
    }

    /// Register `i` with its number: the 64-bit registers, the 128-bit ones, and
    /// the status and control of floating point.
    pub open spec fn one_reg(&self, i: int) -> OneRegView {
        if i < 41 {
            OneRegView {
                id: arm64_core_reg_id(KVM_REG_SIZE_U64, 8 * i),
                bytes: crate::bytes::u64_le(self.word(i)),
            }
        } else if i < 73 {
            OneRegView {
                id: arm64_core_reg_id(KVM_REG_SIZE_U128, 336 + 16 * (i - 41)),
                bytes: u128_le(self.vregs@[i - 41]),
            }
        } else if i == 73 {
            OneRegView {
                id: arm64_core_reg_id(KVM_REG_SIZE_U32, 848),
                bytes: crate::bytes::u32_le(self.fpsr),
            }
        } else {
            OneRegView {
                id: arm64_core_reg_id(KVM_REG_SIZE_U32, 852),
                bytes: crate::bytes::u32_le(self.fpcr),
            }
        }
    }

    fn get_word(&self, i: usize) -> (r: u64)
        requires
            i < 41,
        ensures
            r == self.word(i as int),
    {
        if i < 31 {
            self.regs[i]
        } else if i == 31 {
            self.sp
        } else if i == 32 {
            self.pc
        } else if i == 33 {
            self.pstate
        } else if i == 34 {
            self.sp_el1
        } else if i == 35 {
            self.elr_el1
        } else {
            self.spsr[i - 36]
        }
    }

    /// All registers with their numbers, in the order in which they are written.
    pub fn set_regs(&self) -> (r: Vec<OneReg>)
        ensures
            r@.len() == ARM64_CORE_REGS,
            forall|i: int| 0 <= i < ARM64_CORE_REGS ==> (#[trigger] r@[i])@ == self.one_reg(i),
    {
        let mut r: Vec<OneReg> = Vec::new();
        let mut i: usize = 0;
        while i < ARM64_CORE_REGS
            invariant
                i <= 75,
                r@.len() == i,
                forall|k: int| 0 <= k < i ==> (#[trigger] r@[k])@ == self.one_reg(k),
            decreases 75 - i,
        {
            let mut bytes: Vec<u8> = Vec::new();
            if i < 41 {
                push_u64_le(&mut bytes, self.get_word(i));
            } else if i < 73 {
                let x: u128 = self.vregs[i - 41];
                push_u64_le(&mut bytes, (x % 0x1_0000_0000_0000_0000) as u64);
                push_u64_le(&mut bytes, (x / 0x1_0000_0000_0000_0000) as u64);
            } else if i == 73 {
                push_u32_le(&mut bytes, self.fpsr);
            } else {
                push_u32_le(&mut bytes, self.fpcr);
            }
            assert(bytes@ =~= self.one_reg(i as int).bytes);
            r.push(OneReg { id: arm64_reg(i).0, bytes });
            i = i + 1;
        }
        r
    }

    /// The registers, from what was read of each.
    pub fn get_regs(values: &Vec<Vec<u8>>) -> (r: Self)
        requires
            sized(values@),
        ensures
            forall|i: int| 0 <= i < ARM64_CORE_REGS ==> #[trigger] r.one_reg(i).bytes == values@[i]@,
    {
        let mut regs: [u64; 31] = [0;31];
        let mut i: usize = 0;
        while i < 31
            invariant
                i <= 31,
                sized(values@),
                forall|k: int|
                    0 <= k < i ==> crate::bytes::u64_le(#[trigger] regs@[k]) == values@[k]@,
            decreases 31 - i,
        {
            regs[i] = read_word(&values[i]);
            i = i + 1;
        }
        let mut spsr: [u64; 5] = [0;5];
        let mut i: usize = 0;
        while i < 5
            invariant
                i <= 5,
                sized(values@),
                forall|k: int|
                    0 <= k < i ==> crate::bytes::u64_le(#[trigger] spsr@[k]) == values@[k + 36]@,
            decreases 5 - i,
        {
            spsr[i] = read_word(&values[i + 36]);
            i = i + 1;
        }
        let mut vregs: [u128; 32] = [0;32];
        let mut i: usize = 0;
        while i < 32
            invariant
                i <= 32,
                sized(values@),
                forall|k: int| 0 <= k < i ==> u128_le(#[trigger] vregs@[k]) == values@[k + 41]@,
            decreases 32 - i,
        {
            vregs[i] = read_wide(&values[i + 41]);
            i = i + 1;
        }
        let r: Arm64Regs = Arm64Regs {
            regs,
            sp: read_word(&values[31]),
            pc: read_word(&values[32]),
            pstate: read_word(&values[33]),
            sp_el1: read_word(&values[34]),
            elr_el1: read_word(&values[35]),
            spsr,
            vregs,
            fpsr: read_half(&values[73]),
            fpcr: read_half(&values[74]),
        };
        assert forall|k: int| 0 <= k < ARM64_CORE_REGS implies #[trigger] r.one_reg(k).bytes
            == values@[k]@ by {
            if k < 31 {
                assert(crate::bytes::u64_le(regs@[k]) == values@[k]@);
            } else if 36 <= k < 41 {
                assert(crate::bytes::u64_le(spsr@[k - 36]) == values@[k]@);
            } else if 41 <= k < 73 {
                assert(u128_le(vregs@[k - 41]) == values@[k]@);
            }
        }
        r
    }
}

/// Whether there are bytes for every AArch64 core register.
pub open spec fn sized(values: Seq<Vec<u8>>) -> bool {
    &&& values.len() == ARM64_CORE_REGS
    &&& forall|i: int|
        0 <= i < ARM64_CORE_REGS ==> (#[trigger] values[i])@.len() == arm64_reg_size(i)
}

fn read_word(b: &Vec<u8>) -> (r: u64)
    requires
        b@.len() == 8,
    ensures
        crate::bytes::u64_le(r) == b@,
{
    proof {
        crate::bytes::read_then_written(b@, 0);
    }
    assert(b@.subrange(0, 8) =~= b@);
    read_u64_le(b.as_slice(), 0)
}

fn read_half(b: &Vec<u8>) -> (r: u32)
    requires
        b@.len() == 4,
    ensures
        crate::bytes::u32_le(r) == b@,
{
    proof {
        let padded = b@ + b@;
        crate::bytes::read_then_written(padded, 0);
        assert(padded.subrange(0, 4) =~= b@);
    }
    read_u32_le(b.as_slice(), 0)
}

fn read_wide(b: &Vec<u8>) -> (r: u128)
    requires
        b@.len() == 16,
    ensures
        u128_le(r) == b@,
{
    let low: u64 = read_u64_le(b.as_slice(), 0);
    let high: u64 = read_u64_le(b.as_slice(), 8);
    proof {
        lemma_halves(low, high);
        lemma_wide_bytes(b@, low, high);
    }
    low as u128 + 0x1_0000_0000_0000_0000 * high as u128
}

proof fn lemma_halves(low: u64, high: u64)
    ensures
        ({
            let x = low + 0x1_0000_0000_0000_0000 * high;
            &&& 0 <= x <= u128::MAX
            &&& x % 0x1_0000_0000_0000_0000 == low
            &&& x / 0x1_0000_0000_0000_0000 == high
        }),
{
}

proof fn lemma_wide_bytes(b: Seq<u8>, low: u64, high: u64)
    requires
        b.len() == 16,
        low == crate::bytes::le64(b, 0),
        high == crate::bytes::le64(b, 8),
    ensures
        crate::bytes::u64_le(low) + crate::bytes::u64_le(high) == b,
{
    crate::bytes::read_then_written(b, 0);
    crate::bytes::read_then_written(b, 8);
    assert(b.subrange(0, 8) + b.subrange(8, 16) =~= b);
}

/// Size of an AArch64 core register.
pub open spec fn arm64_reg_size(i: int) -> int {
    if i < 41 {
        8
    } else if i < 73 {
        16
    } else {
        4
    }
}

/// Number of an AArch64 core register.
pub open spec fn arm64_reg_id(i: int) -> u64 {
    if i < 41 {
        arm64_core_reg_id(KVM_REG_SIZE_U64, 8 * i)
    } else if i < 73 {
        arm64_core_reg_id(KVM_REG_SIZE_U128, 336 + 16 * (i - 41))
    } else {
        arm64_core_reg_id(KVM_REG_SIZE_U32, 848 + 4 * (i - 73))
    }
}

/// Number and size of an AArch64 core register.
pub fn arm64_reg(i: usize) -> (r: (u64, usize))
    requires
        i < ARM64_CORE_REGS,
    ensures
        r.0 == arm64_reg_id(i as int),
        r.1 == arm64_reg_size(i as int),
{
    let base: u64 = KVM_REG_ARM64 + KVM_REG_ARM_CORE;
    if i < 41 {
        (base + KVM_REG_SIZE_U64 + 2 * i as u64, 8)
    } else if i < 73 {
        (base + KVM_REG_SIZE_U128 + 84 + 4 * (i as u64 - 41), 16)
    } else {
        (base + KVM_REG_SIZE_U32 + 212 + (i as u64 - 73), 4)
    }
}

/// No two AArch64 core registers have the same number.
pub proof fn arm64_ids_are_distinct(i: int, j: int)
    requires
        0 <= i < j < ARM64_CORE_REGS,
    ensures
        arm64_reg_id(i) != arm64_reg_id(j),
{
}

/// What was written is what is read back.
#[verifier::rlimit(30)]
pub proof fn arm64_regs_read_back(a: Arm64Regs, b: Arm64Regs)
    requires
        forall|i: int|
            0 <= i < ARM64_CORE_REGS ==> #[trigger] a.one_reg(i).bytes == b.one_reg(i).bytes,
    ensures
        a.regs@ == b.regs@,
        a.sp == b.sp,
        a.pc == b.pc,
        a.pstate == b.pstate,
        a.sp_el1 == b.sp_el1,
        a.elr_el1 == b.elr_el1,
        a.spsr@ == b.spsr@,
        a.vregs@ == b.vregs@,
        a.fpsr == b.fpsr,
        a.fpcr == b.fpcr,
{
    assert forall|i: int| 0 <= i < 41 implies #[trigger] a.word(i) == b.word(i) by {
        assert(a.one_reg(i).bytes == b.one_reg(i).bytes);
        crate::bytes::round_trips(0, 0, a.word(i));
        crate::bytes::round_trips(0, 0, b.word(i));
    }
    assert forall|i: int| 0 <= i < 31 implies a.regs@[i] == b.regs@[i] by {
        assert(a.word(i) == b.word(i));
    }
    assert forall|i: int| 0 <= i < 5 implies a.spsr@[i] == b.spsr@[i] by {
        assert(a.word(i + 36) == b.word(i + 36));
    }
    assert(a.word(31) == b.word(31) && a.word(32) == b.word(32) && a.word(33) == b.word(33)
        && a.word(34) == b.word(34) && a.word(35) == b.word(35));
    assert forall|i: int| 0 <= i < 32 implies a.vregs@[i] == b.vregs@[i] by {
        assert(a.one_reg(i + 41).bytes == b.one_reg(i + 41).bytes);
        let x = a.vregs@[i];
        let y = b.vregs@[i];
        let m = 0x1_0000_0000_0000_0000u128;
        assert(u128_le(x).subrange(0, 8) =~= crate::bytes::u64_le((x % m) as u64));
        assert(u128_le(y).subrange(0, 8) =~= crate::bytes::u64_le((y % m) as u64));
        assert(u128_le(x).subrange(8, 16) =~= crate::bytes::u64_le((x / m) as u64));
        assert(u128_le(y).subrange(8, 16) =~= crate::bytes::u64_le((y / m) as u64));
        crate::bytes::round_trips(0, 0, (x % m) as u64);
        crate::bytes::round_trips(0, 0, (y % m) as u64);
        crate::bytes::round_trips(0, 0, (x / m) as u64);
        crate::bytes::round_trips(0, 0, (y / m) as u64);
    }
    assert(a.one_reg(73).bytes == b.one_reg(73).bytes);
    assert(a.one_reg(74).bytes == b.one_reg(74).bytes);
    crate::bytes::round_trips(0, a.fpsr, 0);
    crate::bytes::round_trips(0, b.fpsr, 0);
    crate::bytes::round_trips(0, a.fpcr, 0);
    crate::bytes::round_trips(0, b.fpcr, 0);
    assert(a.regs@ =~= b.regs@);
    assert(a.spsr@ =~= b.spsr@);
    assert(a.vregs@ =~= b.vregs@);
}

/// Core registers of a RISC-V CPU, in the order of the register file: the
/// program counter, then `ra`, `sp`, `gp`, `tp`, `t0` to `t2`, `s0`, `s1`, `a0`
/// to `a7`, `s2` to `s11` and `t3` to `t6`, then the mode.
#[derive(Clone, Copy, Debug)]
pub struct Riscv64Regs {
    pub regs: [u64; 33],
}

/// Position of the program counter.
pub const RISCV64_PC: usize = 0;

/// Position of the first argument.
pub const RISCV64_A0: usize = 10;

/// Position of the second argument.
pub const RISCV64_A1: usize = 11;

/// Number of a RISC-V core register.
pub fn riscv64_reg(i: usize) -> (r: u64)
    requires
        i < RISCV64_CORE_REGS,
    ensures
        r == riscv64_core_reg_id(8 * i),
{
    KVM_REG_RISCV + KVM_REG_SIZE_U64 + KVM_REG_RISCV_CORE + i as u64
}

impl Riscv64Regs {
    /// All registers with their numbers, in the order in which they are written.
    pub fn set_regs(&self) -> (r: Vec<OneReg>)
        ensures
            r@.len() == RISCV64_CORE_REGS,
            forall|i: int|
                0 <= i < RISCV64_CORE_REGS ==> (#[trigger] r@[i])@ == (OneRegView {
                    id: riscv64_core_reg_id(8 * i),
                    bytes: crate::bytes::u64_le(self.regs@[i]),
                }),
    {
        let mut r: Vec<OneReg> = Vec::new();
        let mut i: usize = 0;
        while i < RISCV64_CORE_REGS
            invariant
                i <= 33,
                r@.len() == i,
                forall|k: int|
                    0 <= k < i ==> (#[trigger] r@[k])@ == (OneRegView {
                        id: riscv64_core_reg_id(8 * k),
                        bytes: crate::bytes::u64_le(self.regs@[k]),
                    }),
            decreases 33 - i,
        {
            r.push(word_reg(riscv64_reg(i), self.regs[i]));
            i = i + 1;
        }
        r
    }

    /// The registers, from what was read of each.
    pub fn get_regs(values: &Vec<u64>) -> (r: Self)
        requires
            values@.len() == RISCV64_CORE_REGS,
        ensures
            r.regs@ == values@,
    {
        let mut regs: [u64; 33] = [0;33];
        let mut i: usize = 0;
        while i < RISCV64_CORE_REGS
            invariant
                i <= 33,
                values@.len() == 33,
                forall|k: int| 0 <= k < i ==> regs@[k] == values@[k],
            decreases 33 - i,
        {
            regs[i] = values[i];
            i = i + 1;
        }
        assert(regs@ =~= values@);
        Riscv64Regs { regs }
    }
}

fn word_reg(id: u64, value: u64) -> (r: OneReg)
    ensures
        r@ == (OneRegView { id, bytes: crate::bytes::u64_le(value) }),
{
    let mut bytes: Vec<u8> = Vec::new();
    push_u64_le(&mut bytes, value);
    assert(bytes@ =~= crate::bytes::u64_le(value));
    OneReg { id, bytes }
}

/// A 64-bit register and its value.
pub open spec fn word_reg_view(id: u64, value: u64) -> OneRegView {
    OneRegView { id, bytes: crate::bytes::u64_le(value) }
}

/// Registers of an AArch64 CPU that is about to boot.
pub open spec fn arm64_boot_regs(cpu_id: u32, boot_ip: u64, fdt_start: u64) -> Seq<OneRegView> {
    if cpu_id == 0 {
        seq![
            word_reg_view(arm64_reg_id(33), PSTATE_FAULT_BITS_64),
            word_reg_view(arm64_reg_id(32), boot_ip),
            word_reg_view(arm64_reg_id(0), fdt_start),
        ]
    } else {
        seq![word_reg_view(arm64_reg_id(33), PSTATE_FAULT_BITS_64)]
    }
}

/// Registers of a RISC-V CPU that is about to boot.
pub open spec fn riscv64_boot_regs(cpu_id: u32, boot_ip: u64, fdt_start: u64) -> Seq<OneRegView> {
    seq![
        word_reg_view(riscv64_core_reg_id(80), cpu_id as u64),
        word_reg_view(riscv64_core_reg_id(0), boot_ip),
        word_reg_view(riscv64_core_reg_id(88), fdt_start),
    ]
}

/// Registers of an AArch64 CPU that is about to boot. Only the first one gets an
/// address to start at and the device tree; the others wait to be woken.
pub fn arm64_setup_regs(cpu_id: u32, boot_ip: u64, fdt_start: u64) -> (r: Vec<OneReg>)
    ensures
        r@.map_values(|x: OneReg| x@) == arm64_boot_regs(cpu_id, boot_ip, fdt_start),
{
    let mut r: Vec<OneReg> = Vec::new();
    r.push(word_reg(arm64_reg(33).0, PSTATE_FAULT_BITS_64));
    if cpu_id == 0 {
        r.push(word_reg(arm64_reg(32).0, boot_ip));
        r.push(word_reg(arm64_reg(0).0, fdt_start));
    }
    r
}

/// Registers of a RISC-V CPU that is about to boot: its number, the address to
/// start at, and the device tree.
pub fn riscv64_setup_regs(cpu_id: u32, boot_ip: u64, fdt_start: u64) -> (r: Vec<OneReg>)
    ensures
        r@.map_values(|x: OneReg| x@) == riscv64_boot_regs(cpu_id, boot_ip, fdt_start),
{
    let mut r: Vec<OneReg> = Vec::new();
    r.push(word_reg(riscv64_reg(RISCV64_A0), cpu_id as u64));
    r.push(word_reg(riscv64_reg(RISCV64_PC), boot_ip));
    r.push(word_reg(riscv64_reg(RISCV64_A1), fdt_start));
    r
}

/// Number of an AArch64 system register, by its encoding in instructions.
pub fn arm64_sys_reg(sys_reg: u32) -> (r: u64)
    ensures
        r == KVM_REG_ARM64 + KVM_REG_SIZE_U64 + KVM_REG_ARM64_SYSREG + sys_reg as int / 32
            % 0x1_0000,
{
    KVM_REG_ARM64 + KVM_REG_SIZE_U64 + KVM_REG_ARM64_SYSREG + (sys_reg / 32 % 0x1_0000) as u64
}

/// Features that an AArch64 CPU is created with, added to those asked for: the
/// power interface, performance counters and vectors where the host has them,
/// and, for all but the first CPU, that it is off.
pub fn arm64_processor_features(features: u32, pmu: bool, sve: bool, id: u32) -> (r: u32)
    ensures
        forall|bit: u32|
            bit < 32 ==> (#[trigger] (r >> bit)) & 1 == (if bit == KVM_ARM_VCPU_PSCI_0_2 || (pmu
                && bit == KVM_ARM_VCPU_PMU_V3) || (sve && bit == KVM_ARM_VCPU_SVE) || (id > 0 && bit
                == KVM_ARM_VCPU_POWER_OFF) {
                1
            } else {
                (features >> bit) & 1
            }),
{
    let mut mask: u32 = 4;
    if pmu {
        mask = mask + 8;
    }
    if sve {
        mask = mask + 16;
    }
    if id > 0 {
        mask = mask + 1;
    }
    let r: u32 = features | mask;
    let off: bool = id > 0;
    assert forall|bit: u32| bit < 32 implies (#[trigger] (r >> bit)) & 1 == (if bit
        == KVM_ARM_VCPU_PSCI_0_2 || (pmu && bit == KVM_ARM_VCPU_PMU_V3) || (sve && bit
        == KVM_ARM_VCPU_SVE) || (id > 0 && bit == KVM_ARM_VCPU_POWER_OFF) {
        1
    } else {
        (features >> bit) & 1
    }) by {
        assert(((features | mask) >> bit) & 1 == (if bit == 2 || (pmu && bit == 3) || (sve && bit
            == 4) || (off && bit == 0) {
            1
        } else {
            (features >> bit) & 1
        })) by (bit_vector)
            requires
                bit < 32,
                mask == 4 + (if pmu {
                    8u32
                } else {
                    0u32
                }) + (if sve {
                    16u32
                } else {
                    0u32
                }) + (if off {
                    1u32
                } else {
                    0u32
                }),
        ;
    }
    r
}

/// Each general register is at its own number, which says how wide it is and how
/// many 32-bit words of the register file come before it, and its bytes are its
/// value, lowest first.
pub proof fn arm64_words_have_their_place(r: Arm64Regs, i: int)
    requires
        0 <= i < 41,
    ensures
        r.one_reg(i).id == 0x6030_0000_0010_0000 + 2 * i,
        r.one_reg(i).bytes.len() == 8,
        arm64_reg_id(i) == r.one_reg(i).id,
        arm64_reg_size(i) == 8,
        ({
            let value = crate::bytes::le64(r.one_reg(i).bytes, 0);
            &&& i < 31 ==> value == r.regs@[i]
            &&& i == 31 ==> value == r.sp
            &&& i == 32 ==> value == r.pc
            &&& i == 33 ==> value == r.pstate
            &&& i == 34 ==> value == r.sp_el1
            &&& i == 35 ==> value == r.elr_el1
            &&& i >= 36 ==> value == r.spsr@[i - 36]
        }),
{
    crate::bytes::round_trips(0, 0, r.word(i));
}

/// Each vector register is at its own number, and its bytes are its value.
pub proof fn arm64_vectors_have_their_place(r: Arm64Regs, i: int)
    requires
        0 <= i < 32,
    ensures
        r.one_reg(41 + i).id == 0x6040_0000_0010_0054 + 4 * i,
        r.one_reg(41 + i).bytes.len() == 16,
        arm64_reg_id(41 + i) == r.one_reg(41 + i).id,
        arm64_reg_size(41 + i) == 16,
        crate::bytes::le64(r.one_reg(41 + i).bytes, 0) + 0x1_0000_0000_0000_0000
            * crate::bytes::le64(r.one_reg(41 + i).bytes, 8) == r.vregs@[i],
{
    let x = r.vregs@[i];
    let low = (x % 0x1_0000_0000_0000_0000) as u64;
    let high = (x / 0x1_0000_0000_0000_0000) as u64;
    let a = crate::bytes::u64_le(low);
    let c = crate::bytes::u64_le(high);
    let b = r.one_reg(41 + i).bytes;
    assert(b == a + c);
    assert(a.len() == 8 && crate::bytes::le64(a, 0) == low) by {
        crate::bytes::round_trips(0, 0, low);
    }
    assert(c.len() == 8 && crate::bytes::le64(c, 0) == high) by {
        crate::bytes::round_trips(0, 0, high);
    }
    assert(crate::bytes::le64(b, 0) == crate::bytes::le64(a, 0));
    assert(crate::bytes::le64(b, 8) == crate::bytes::le64(c, 0));
}

/// The two registers of floating point are at their numbers, status first.
pub proof fn arm64_controls_have_their_place(r: Arm64Regs)
    ensures
        r.one_reg(73).id == 0x6020_0000_0010_00d4 && arm64_reg_id(73) == r.one_reg(73).id,
        r.one_reg(74).id == 0x6020_0000_0010_00d5 && arm64_reg_id(74) == r.one_reg(74).id,
        r.one_reg(73).bytes.len() == 4 && crate::bytes::le32(r.one_reg(73).bytes, 0) == r.fpsr,
        r.one_reg(74).bytes.len() == 4 && crate::bytes::le32(r.one_reg(74).bytes, 0) == r.fpcr,
        arm64_reg_size(73) == 4 && arm64_reg_size(74) == 4,
{
    crate::bytes::round_trips(0, r.fpsr, 0);
    crate::bytes::round_trips(0, r.fpcr, 0);
}

/// Each RISC-V register is at the number of its place in the register file.
pub proof fn riscv64_registers_have_their_place(i: int)
    requires
        0 <= i < 33,
    ensures
        riscv64_core_reg_id(8 * i) == 0x8030_0000_0200_0000 + i,
{
}

/// Whether a list sets a register to a value.
pub open spec fn sets_reg(list: Seq<OneRegView>, id: u64, value: u64) -> bool {
    exists|i: int|
        0 <= i < list.len() && (#[trigger] list[i]).id == id && list[i].bytes.len() == 8
            && crate::bytes::le64(list[i].bytes, 0) == value
}

/// The first CPU starts where the kernel is, with the device tree in its first
/// register; the others are not told where to start. All have their interrupts
/// masked. Every RISC-V CPU starts there too, with its own number before the
/// device tree.
pub proof fn cpus_start_where_the_kernel_is(cpu_id: u32, boot_ip: u64, fdt_start: u64)
    ensures
        ({
            let r = arm64_boot_regs(cpu_id, boot_ip, fdt_start);
            &&& sets_reg(r, 0x6030_0000_0010_0042, 0x3c5)
            &&& cpu_id == 0 ==> r.len() == 3 && sets_reg(r, 0x6030_0000_0010_0040, boot_ip)
                && sets_reg(r, 0x6030_0000_0010_0000, fdt_start)
            &&& cpu_id != 0 ==> r.len() == 1
        }),
        ({
            let r = riscv64_boot_regs(cpu_id, boot_ip, fdt_start);
            &&& r.len() == 3
            &&& sets_reg(r, 0x8030_0000_0200_0000, boot_ip)
            &&& sets_reg(r, 0x8030_0000_0200_000a, cpu_id as u64)
            &&& sets_reg(r, 0x8030_0000_0200_000b, fdt_start)
        }),
{
    let a = arm64_boot_regs(cpu_id, boot_ip, fdt_start);
    let r = riscv64_boot_regs(cpu_id, boot_ip, fdt_start);
    lemma_word(0x3c5);
    lemma_word(boot_ip);
    lemma_word(fdt_start);
    lemma_word(cpu_id as u64);
    assert(a[0].id == 0x6030_0000_0010_0042);
    if cpu_id == 0 {
        assert(a[1].id == 0x6030_0000_0010_0040);
        assert(a[2].id == 0x6030_0000_0010_0000);
    }
    assert(r[0].id == 0x8030_0000_0200_000a);
    assert(r[1].id == 0x8030_0000_0200_0000);
    assert(r[2].id == 0x8030_0000_0200_000b);
}

proof fn lemma_word(value: u64)
    ensures
        crate::bytes::u64_le(value).len() == 8,
        crate::bytes::le64(crate::bytes::u64_le(value), 0) == value,
{
    crate::bytes::round_trips(0, 0, value);
}

} // verus!
