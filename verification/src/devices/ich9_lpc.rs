//! Power management block of the southbridge: general purpose events, system
//! management interrupt control and the watchdog (TCO) registers.
//!
//! No event source is wired and no system management interrupt is ever raised.
//! Status registers are cleared by writing ones, the other registers hold what
//! is written to them, and the watchdog's timer and reload registers are inert.
use crate::bytes::{byte_of_u16, byte_of_u32, with_byte_u16, with_byte_u32};
use vstd::prelude::*;

verus! {

/// Where the block starts, relative to the power management base.
pub const ICH9_PM_BLOCK_OFFSET: u16 = 0x10;

/// Length of the block.
pub const ICH9_PM_BLOCK_LEN: u16 = 0x70;

/// General purpose event status.
pub const ICH9_PMIO_GPE0_STS: u16 = 0x20;

/// General purpose event enable.
pub const ICH9_PMIO_GPE0_EN: u16 = 0x28;

/// Length of the event block, status and enable half together.
pub const ICH9_PMIO_GPE0_BLK_LEN: u8 = 8;

/// System management interrupt enable.
pub const ICH9_PMIO_SMI_EN: u16 = 0x30;

/// System management interrupt status.
pub const ICH9_PMIO_SMI_STS: u16 = 0x34;

/// Start of the watchdog registers.
pub const ICH9_PMIO_TCO_BASE: u16 = 0x60;

/// Length of the watchdog registers.
pub const ICH9_PMIO_TCO_LEN: u16 = 0x20;

/// Reload; writes are ignored.
pub const TCO_RLD: u16 = 0x00;

pub const TCO_DAT_IN: u16 = 0x02;

pub const TCO_DAT_OUT: u16 = 0x03;

pub const TCO1_STS: u16 = 0x04;

pub const TCO2_STS: u16 = 0x06;

pub const TCO1_CNT: u16 = 0x08;

pub const TCO2_CNT: u16 = 0x0a;

pub const TCO_MESSAGE1: u16 = 0x0c;

pub const TCO_MESSAGE2: u16 = 0x0d;

pub const TCO_WDSTATUS: u16 = 0x0e;

pub const TCO_SW_IRQ_GEN: u16 = 0x10;

pub const TCO_TMR: u16 = 0x12;

/// Watchdog registers.
#[derive(Clone, Copy, Debug, PartialEq, Eq, Structural)]
pub struct TcoRegs {
    pub rld: u16,
    pub dat_in: u8,
    pub dat_out: u8,
    pub sts1: u16,
    pub sts2: u16,
    pub cnt1: u16,
    pub cnt2: u16,
    pub message1: u8,
    pub message2: u8,
    pub wdstatus: u8,
    pub sw_irq_gen: u8,
}

/// The power management block.
#[derive(Clone, Copy, Debug, PartialEq, Eq, Structural)]
pub struct Ich9Pm {
    pub gpe0_sts: u32,
    pub gpe0_en: u32,
    pub smi_en: u32,
    pub smi_sts: u32,
    pub tco: TcoRegs,
}

/// Whether the byte at an offset is cleared by writing ones.
pub open spec fn clears_on_ones(abs: int) -> bool {
    ||| 0x20 <= abs <= 0x23
    ||| 0x34 <= abs <= 0x37
    ||| 0x64 <= abs <= 0x67
    ||| abs == 0x6e
}

/// Whether the byte at an offset holds what is written to it.
pub open spec fn holds_writes(abs: int) -> bool {
    ||| 0x28 <= abs <= 0x2b
    ||| 0x30 <= abs <= 0x33
    ||| 0x62 <= abs <= 0x63
    ||| 0x68 <= abs <= 0x6d
    ||| abs == 0x70
}

/// A byte of the block after a byte was written there.
pub open spec fn byte_written(abs: int, before: u8, data: u8) -> u8 {
    if clears_on_ones(abs) {
        before & !data
    } else if holds_writes(abs) {
        data
    } else {
        before
    }
}

impl Ich9Pm {
    /// The byte that reads at an offset from the power management base.
    pub open spec fn byte_at(&self, abs: int) -> u8 {
        if 0x20 <= abs <= 0x23 {
            crate::bytes::u32_le(self.gpe0_sts)[abs - 0x20]
        } else if 0x28 <= abs <= 0x2b {
            crate::bytes::u32_le(self.gpe0_en)[abs - 0x28]
        } else if 0x30 <= abs <= 0x33 {
            crate::bytes::u32_le(self.smi_en)[abs - 0x30]
        } else if 0x34 <= abs <= 0x37 {
            crate::bytes::u32_le(self.smi_sts)[abs - 0x34]
        } else if 0x60 <= abs <= 0x61 {
            crate::bytes::u16_le(self.tco.rld)[abs - 0x60]
        } else if abs == 0x62 {
            self.tco.dat_in
        } else if abs == 0x63 {
            self.tco.dat_out
        } else if 0x64 <= abs <= 0x65 {
            crate::bytes::u16_le(self.tco.sts1)[abs - 0x64]
        } else if 0x66 <= abs <= 0x67 {
            crate::bytes::u16_le(self.tco.sts2)[abs - 0x66]
        } else if 0x68 <= abs <= 0x69 {
            crate::bytes::u16_le(self.tco.cnt1)[abs - 0x68]
        } else if 0x6a <= abs <= 0x6b {
            crate::bytes::u16_le(self.tco.cnt2)[abs - 0x6a]
        } else if abs == 0x6c {
            self.tco.message1
        } else if abs == 0x6d {
            self.tco.message2
        } else if abs == 0x6e {
            self.tco.wdstatus
        } else if abs == 0x70 {
            self.tco.sw_irq_gen
        } else {
            0
        }
    }

    /// The block after bytes were written at an offset.
    pub open spec fn written(&self, after: &Ich9Pm, abs_off: int, data: Seq<u8>) -> bool {
        forall|abs: int|
            #[trigger] after.byte_at(abs) == (if abs_off <= abs < abs_off + data.len() {
                byte_written(abs, self.byte_at(abs), data[abs - abs_off])
            } else {
                self.byte_at(abs)
            })
    }

    /// A block with all registers zero.
    pub fn new() -> (r: Self)
        ensures
            r == (Ich9Pm {
                gpe0_sts: 0,
                gpe0_en: 0,
                smi_en: 0,
                smi_sts: 0,
                tco: TcoRegs {
                    rld: 0,
                    dat_in: 0,
                    dat_out: 0,
                    sts1: 0,
                    sts2: 0,
                    cnt1: 0,
                    cnt2: 0,
                    message1: 0,
                    message2: 0,
                    wdstatus: 0,
                    sw_irq_gen: 0,
                },
            }),
    {
        Ich9Pm {
            gpe0_sts: 0,
            gpe0_en: 0,
            smi_en: 0,
            smi_sts: 0,
            tco: TcoRegs {
                rld: 0,
                dat_in: 0,
                dat_out: 0,
                sts1: 0,
                sts2: 0,
                cnt1: 0,
                cnt2: 0,
                message1: 0,
                message2: 0,
                wdstatus: 0,
                sw_irq_gen: 0,
            },
        }
    }

    fn read_byte(&self, abs: usize) -> (r: u8)
        ensures
            r == self.byte_at(abs as int),
    {
        match abs {
            0x20..=0x23 => byte_of_u32(self.gpe0_sts, abs - 0x20),
            0x28..=0x2b => byte_of_u32(self.gpe0_en, abs - 0x28),
            0x30..=0x33 => byte_of_u32(self.smi_en, abs - 0x30),
            0x34..=0x37 => byte_of_u32(self.smi_sts, abs - 0x34),
            0x60..=0x7f => self.tco_read_byte((abs - 0x60) as u16),
            _ => 0,
        }
    }

    fn tco_read_byte(&self, off: u16) -> (r: u8)
        requires
            off < 0x20,
        ensures
            r == self.byte_at(0x60 + off),
    {
        if off <= TCO_RLD + 1 {
            byte_of_u16(self.tco.rld, (off - TCO_RLD) as usize)
        } else if off == TCO_DAT_IN {
            self.tco.dat_in
        } else if off == TCO_DAT_OUT {
            self.tco.dat_out
        } else if off <= TCO1_STS + 1 {
            byte_of_u16(self.tco.sts1, (off - TCO1_STS) as usize)
        } else if off <= TCO2_STS + 1 {
            byte_of_u16(self.tco.sts2, (off - TCO2_STS) as usize)
        } else if off <= TCO1_CNT + 1 {
            byte_of_u16(self.tco.cnt1, (off - TCO1_CNT) as usize)
        } else if off <= TCO2_CNT + 1 {
            byte_of_u16(self.tco.cnt2, (off - TCO2_CNT) as usize)
        } else if off == TCO_MESSAGE1 {
            self.tco.message1
        } else if off == TCO_MESSAGE2 {
            self.tco.message2
        } else if off == TCO_WDSTATUS {
            self.tco.wdstatus
        } else if off == TCO_SW_IRQ_GEN {
            self.tco.sw_irq_gen
        } else {
            0
        }
    }

    /// Reads bytes at an offset from the power management base. Holes read as
    /// zero.
    pub fn handle_read(&self, abs_off: u16, data: &mut [u8])
        ensures
            final(data)@ == Seq::new(old(data)@.len(), |i: int| self.byte_at(abs_off + i)),
    {
        let n: usize = data.len();
        let mut i: usize = 0;
        while i < n
            invariant
                i <= n,
                n == data@.len(),
                n == old(data)@.len(),
                forall|k: int| 0 <= k < i ==> data@[k] == self.byte_at(abs_off + k),
            decreases n - i,
        {
            data[i] = match (abs_off as usize).checked_add(i) {
                Some(abs) => self.read_byte(abs),
                None => 0,
            };
            i = i + 1;
        }
        assert(data@ =~= Seq::new(n as nat, |i: int| self.byte_at(abs_off + i)));
    }

    fn write_byte(&mut self, abs: usize, b: u8)
        ensures
            old(self).written(final(self), abs as int, seq![b]),
    {
        match abs {
            0x20..=0x23 => {
                let k: usize = abs - 0x20;
                self.gpe0_sts = with_byte_u32(
                    self.gpe0_sts,
                    k,
                    byte_of_u32(self.gpe0_sts, k) & !b,
                );
            },
            0x28..=0x2b => {
                self.gpe0_en = with_byte_u32(self.gpe0_en, abs - 0x28, b);
            },
            0x30..=0x33 => {
                self.smi_en = with_byte_u32(self.smi_en, abs - 0x30, b);
            },
            0x34..=0x37 => {
                let k: usize = abs - 0x34;
                self.smi_sts = with_byte_u32(self.smi_sts, k, byte_of_u32(self.smi_sts, k) & !b);
            },
            0x60..=0x7f => {
                self.tco_write((abs - 0x60) as u16, b);
            },
            _ => {},
        }
    }

    fn tco_write(&mut self, off: u16, b: u8)
        requires
            off < 0x20,
        ensures
            old(self).written(final(self), 0x60 + off, seq![b]),
    {
        if off == TCO_DAT_IN {
            self.tco.dat_in = b;
        } else if off == TCO_DAT_OUT {
            self.tco.dat_out = b;
        } else if TCO1_STS <= off && off <= TCO1_STS + 1 {
            let k: usize = (off - TCO1_STS) as usize;
            self.tco.sts1 = with_byte_u16(self.tco.sts1, k, byte_of_u16(self.tco.sts1, k) & !b);
        } else if TCO2_STS <= off && off <= TCO2_STS + 1 {
            let k: usize = (off - TCO2_STS) as usize;
            self.tco.sts2 = with_byte_u16(self.tco.sts2, k, byte_of_u16(self.tco.sts2, k) & !b);
        } else if TCO1_CNT <= off && off <= TCO1_CNT + 1 {
            self.tco.cnt1 = with_byte_u16(self.tco.cnt1, (off - TCO1_CNT) as usize, b);
        } else if TCO2_CNT <= off && off <= TCO2_CNT + 1 {
            self.tco.cnt2 = with_byte_u16(self.tco.cnt2, (off - TCO2_CNT) as usize, b);
        } else if off == TCO_MESSAGE1 {
            self.tco.message1 = b;
        } else if off == TCO_MESSAGE2 {
            self.tco.message2 = b;
        } else if off == TCO_WDSTATUS {
            self.tco.wdstatus = self.tco.wdstatus & !b;
        } else if off == TCO_SW_IRQ_GEN {
            self.tco.sw_irq_gen = b;
        }
    }

    /// The block after the part of a write at `start` that falls into
    /// `[reg_off, reg_off + reg_len)`.
    pub open spec fn written_within(
        &self,
        after: &Ich9Pm,
        start: int,
        data: Seq<u8>,
        reg_off: int,
        reg_len: int,
    ) -> bool {
        forall|abs: int|
            #[trigger] after.byte_at(abs) == (if start <= abs < start + data.len() && reg_off <= abs
                < reg_off + reg_len {
                byte_written(abs, self.byte_at(abs), data[abs - start])
            } else {
                self.byte_at(abs)
            })
    }

    fn write_within(&mut self, start: usize, data: &[u8], reg_off: usize, reg_len: usize)
        requires
            reg_off + reg_len <= ICH9_PM_BLOCK_OFFSET + ICH9_PM_BLOCK_LEN,
        ensures
            old(self).written_within(
                final(self),
                start as int,
                data@,
                reg_off as int,
                reg_len as int,
            ),
    {
        let end: usize = start.saturating_add(data.len());
        if let Some((rel, slice_off, slice_len)) = slice_within(start, end, reg_off, reg_len) {
            let mut i: usize = 0;
            while i < slice_len
                invariant
                    i <= slice_len,
                    reg_off + reg_len <= 0x80,
                    rel + slice_len <= reg_len,
                    slice_off + slice_len <= data@.len(),
                    start + slice_off == reg_off + rel,
                    old(self).written_within(self, start as int, data@, reg_off + rel, i as int),
                decreases slice_len - i,
            {
                let ghost before = *self;
                self.write_byte(reg_off + rel + i, data[slice_off + i]);
                proof {
                    assert forall|abs: int|
                        #[trigger] self.byte_at(abs) == (if start <= abs < start + data@.len()
                            && reg_off + rel <= abs < reg_off + rel + i + 1 {
                            byte_written(abs, old(self).byte_at(abs), data@[abs - start])
                        } else {
                            old(self).byte_at(abs)
                        }) by {
                        assert(before.byte_at(abs) == before.byte_at(abs));
                    }
                }
                i = i + 1;
            }
            proof {
                assert forall|abs: int|
                    #[trigger] self.byte_at(abs) == (if start <= abs < start + data@.len()
                        && reg_off <= abs < reg_off + reg_len {
                        byte_written(abs, old(self).byte_at(abs), data@[abs - start])
                    } else {
                        old(self).byte_at(abs)
                    }) by {
                    if start <= abs < start + data@.len() && reg_off <= abs < reg_off + reg_len {
                        assert(reg_off + rel <= abs < reg_off + rel + slice_len);
                    }
                }
            }
        }
    }

    /// Writes bytes at an offset from the power management base: each register
    /// gets the part of the write that falls into it.
    pub fn handle_write(&mut self, abs_off: u16, data: &[u8])
        ensures
            old(self).written(final(self), abs_off as int, data@),
    {
        let start: usize = abs_off as usize;
        self.write_within(start, data, ICH9_PMIO_GPE0_STS as usize, 4);
        let ghost status = *self;
        self.write_within(start, data, ICH9_PMIO_GPE0_EN as usize, 4);
        let ghost enable = *self;
        self.write_within(start, data, ICH9_PMIO_SMI_EN as usize, 4);
        let ghost smi_enable = *self;
        self.write_within(start, data, ICH9_PMIO_SMI_STS as usize, 4);
        let ghost smi_status = *self;
        self.write_within(start, data, ICH9_PMIO_TCO_BASE as usize, ICH9_PMIO_TCO_LEN as usize);
        proof {
            assert forall|abs: int|
                #[trigger] self.byte_at(abs) == (if abs_off <= abs < abs_off + data@.len() {
                    byte_written(abs, old(self).byte_at(abs), data@[abs - abs_off])
                } else {
                    old(self).byte_at(abs)
                }) by {
                assert(status.byte_at(abs) == status.byte_at(abs));
                assert(enable.byte_at(abs) == enable.byte_at(abs));
                assert(smi_enable.byte_at(abs) == smi_enable.byte_at(abs));
                assert(smi_status.byte_at(abs) == smi_status.byte_at(abs));
            }
        }
    }

    /// Reads from the block. The offset is relative to its start, and its low
    /// 16 bits count.
    pub fn read(&self, offset: u64, data: &mut [u8])
        requires
            old(data)@.len() > 0 ==> offset % 0x1_0000 <= u16::MAX - ICH9_PM_BLOCK_OFFSET,
        ensures
            final(data)@ == Seq::new(
                old(data)@.len(),
                |i: int| self.byte_at(ICH9_PM_BLOCK_OFFSET + offset % 0x1_0000 + i),
            ),
    {
        if data.len() == 0 {
            assert(data@ =~= Seq::new(
                0,
                |i: int| self.byte_at(ICH9_PM_BLOCK_OFFSET + offset % 0x1_0000 + i),
            ));
            return;
        }
        let abs: u16 = ICH9_PM_BLOCK_OFFSET + (offset % 0x1_0000) as u16;
        self.handle_read(abs, data);
    }

    /// Writes to the block. The offset is relative to its start, and its low 16
    /// bits count.
    pub fn write(&mut self, offset: u64, data: &[u8])
        requires
            data@.len() > 0 ==> offset % 0x1_0000 <= u16::MAX - ICH9_PM_BLOCK_OFFSET,
        ensures
            old(self).written(final(self), ICH9_PM_BLOCK_OFFSET + offset % 0x1_0000, data@),
    {
        if data.len() == 0 {
            return;
        }
        let abs: u16 = ICH9_PM_BLOCK_OFFSET + (offset % 0x1_0000) as u16;
        self.handle_write(abs, data);
    }
}

/// The part of an access to `[start, end)` that falls into a register at
/// `[reg_off, reg_off + reg_len)`: where it begins in the register, where it
/// begins in the access, and how long it is.
pub fn slice_within(start: usize, end: usize, reg_off: usize, reg_len: usize) -> (r: Option<
    (usize, usize, usize),
>)
    requires
        reg_off + reg_len <= usize::MAX,
    ensures
        ({
            let lo = if start > reg_off {
                start as int
            } else {
                reg_off as int
            };
            let hi = if end < reg_off + reg_len {
                end as int
            } else {
                reg_off + reg_len
            };
            match r {
                Some((rel, slice_off, slice_len)) => {
                    &&& lo < hi
                    &&& rel == lo - reg_off
                    &&& slice_off == lo - start
                    &&& slice_len == hi - lo
                },
                None => hi <= lo,
            }
        }),
{
    let reg_end: usize = reg_off + reg_len;
    let lo: usize = if start > reg_off {
        start
    } else {
        reg_off
    };
    let hi: usize = if end < reg_end {
        end
    } else {
        reg_end
    };
    if hi <= lo {
        return None;
    }
    Some((lo - reg_off, lo - start, hi - lo))
}

impl Default for Ich9Pm {
    fn default() -> (r: Self)
        ensures
            r == (Ich9Pm {
                gpe0_sts: 0,
                gpe0_en: 0,
                smi_en: 0,
                smi_sts: 0,
                tco: TcoRegs {
                    rld: 0,
                    dat_in: 0,
                    dat_out: 0,
                    sts1: 0,
                    sts2: 0,
                    cnt1: 0,
                    cnt2: 0,
                    message1: 0,
                    message2: 0,
                    wdstatus: 0,
                    sw_irq_gen: 0,
                },
            }),
    {
        Self::new()
    }
}

/// Registers that hold what is written read back what was written; the system
/// management interrupt enable register is among them.
pub proof fn held_bytes_read_back(
    before: Ich9Pm,
    after: Ich9Pm,
    abs_off: int,
    data: Seq<u8>,
    i: int,
)
    requires
        before.written(&after, abs_off, data),
        0 <= i < data.len(),
        holds_writes(abs_off + i),
    ensures
        after.byte_at(abs_off + i) == data[i],
{
}

/// Status bits are cleared by ones and by nothing else: a zero leaves a bit
/// alone, a one clears it, no write sets one, and repeating a write changes
/// nothing more.
pub proof fn status_bits_only_clear(
    before: Ich9Pm,
    once: Ich9Pm,
    twice: Ich9Pm,
    abs_off: int,
    data: Seq<u8>,
    abs: int,
)
    requires
        before.written(&once, abs_off, data),
        once.written(&twice, abs_off, data),
        abs_off <= abs < abs_off + data.len(),
        clears_on_ones(abs),
    ensures
        data[abs - abs_off] == 0 ==> once.byte_at(abs) == before.byte_at(abs),
        once.byte_at(abs) & data[abs - abs_off] == 0,
        once.byte_at(abs) & !before.byte_at(abs) == 0,
        twice.byte_at(abs) == once.byte_at(abs),
{
    let v = before.byte_at(abs);
    let d = data[abs - abs_off];
    assert(once.byte_at(abs) == v & !d);
    assert(twice.byte_at(abs) == (v & !d) & !d);
    assert((d == 0 ==> v & !d == v) && (v & !d) & d == 0 && (v & !d) & !v == 0 && (v & !d) & !d == v
        & !d) by (bit_vector);
}

/// The watchdog's timer and reload registers are inert: no write to them
/// changes anything, and the timer reads zero.
pub proof fn watchdog_timer_is_inert(before: Ich9Pm, after: Ich9Pm, at: int, data: Seq<u8>)
    requires
        before.written(&after, at, data),
        at == 0x60 || at == 0x72,
        data.len() <= 2,
    ensures
        forall|abs: int| #[trigger] after.byte_at(abs) == before.byte_at(abs),
        after.byte_at(0x72) == 0 && after.byte_at(0x73) == 0,
{
}

/// A word written at 0x28 is the event enable register, and one written at 0x30
/// the system management interrupt enable register.
pub proof fn enables_hold_the_word(before: Ich9Pm, after: Ich9Pm, at: int, data: Seq<u8>)
    requires
        before.written(&after, at, data),
        data.len() == 4,
        at == 0x28 || at == 0x30,
    ensures
        at == 0x28 ==> after.gpe0_en == crate::bytes::le32(data, 0),
        at == 0x30 ==> after.smi_en == crate::bytes::le32(data, 0),
{
    crate::bytes::round_trips(0, after.gpe0_en, 0);
    crate::bytes::round_trips(0, after.smi_en, 0);
    assert(after.byte_at(at) == data[0]);
    assert(after.byte_at(at + 1) == data[1]);
    assert(after.byte_at(at + 2) == data[2]);
    assert(after.byte_at(at + 3) == data[3]);
}

/// Of a word written at 0x20 the ones are cleared in the event status, and of one
/// at 0x34 in the system management interrupt status.
pub proof fn statuses_lose_the_ones(
    before: Ich9Pm,
    after: Ich9Pm,
    at: int,
    data: Seq<u8>,
    i: int,
)
    requires
        before.written(&after, at, data),
        data.len() == 4,
        0 <= i < 4,
        at == 0x20 || at == 0x34,
    ensures
        at == 0x20 ==> crate::bytes::u32_le(after.gpe0_sts)[i] == crate::bytes::u32_le(
            before.gpe0_sts,
        )[i] & !data[i],
        at == 0x34 ==> crate::bytes::u32_le(after.smi_sts)[i] == crate::bytes::u32_le(
            before.smi_sts,
        )[i] & !data[i],
{
    assert(after.byte_at(at + i) == before.byte_at(at + i) & !data[i]);
}

/// The watchdog registers are at 0x60 and above, each at its place.
pub proof fn watchdog_registers_have_their_place(p: Ich9Pm)
    ensures
        p.byte_at(0x62) == p.tco.dat_in,
        p.byte_at(0x63) == p.tco.dat_out,
        p.byte_at(0x64) + 256 * p.byte_at(0x65) == p.tco.sts1,
        p.byte_at(0x66) + 256 * p.byte_at(0x67) == p.tco.sts2,
        p.byte_at(0x68) + 256 * p.byte_at(0x69) == p.tco.cnt1,
        p.byte_at(0x6a) + 256 * p.byte_at(0x6b) == p.tco.cnt2,
        p.byte_at(0x6c) == p.tco.message1,
        p.byte_at(0x6d) == p.tco.message2,
        p.byte_at(0x6e) == p.tco.wdstatus,
        p.byte_at(0x70) == p.tco.sw_irq_gen,
{
}

} // verus!
