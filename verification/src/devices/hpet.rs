//! High Precision Event Timer.
//!
//! The register block, three timers and the legacy replacement routing. Time
//! is handed in as nanoseconds of a monotonic host clock.
use crate::bytes::{fill_byte, fill_le, read_le};
use vstd::prelude::*;

verus! {

/// Address of the register block.
pub const HPET_BASE: u64 = 0xfed0_0000;

/// Size of the register block.
pub const HPET_LEN: u64 = 0x400;

/// Number of timers.
pub const HPET_NUM_TIMERS: usize = 3;

/// Clock period in femtoseconds: 100 MHz.
pub const HPET_CLK_PERIOD_FS: u64 = 10_000_000;

/// Clock period in nanoseconds.
pub const HPET_CLK_PERIOD_NS: u64 = 10;

pub const HPET_REG_ID: u64 = 0x000;

pub const HPET_REG_CFG: u64 = 0x010;

pub const HPET_REG_STATUS: u64 = 0x020;

pub const HPET_REG_COUNTER: u64 = 0x0f0;

pub const TIMER_BLOCK_BASE: u64 = 0x100;

pub const TIMER_BLOCK_STRIDE: u64 = 0x20;

pub const TIMER_OFFSET_CFG: u64 = 0x00;

pub const TIMER_OFFSET_COMPARATOR: u64 = 0x08;

pub const TIMER_OFFSET_ROUTE: u64 = 0x10;

pub const HPET_CFG_ENABLE: u64 = 1;

pub const HPET_CFG_LEGACY: u64 = 2;

pub const HPET_CFG_WRITE_MASK: u64 = 3;

pub const HPET_TN_TYPE_LEVEL: u64 = 0x2;

pub const HPET_TN_ENABLE: u64 = 0x4;

pub const HPET_TN_PERIODIC: u64 = 0x8;

pub const HPET_TN_SETVAL: u64 = 0x40;

pub const HPET_TN_32BIT: u64 = 0x100;

/// Bits of a timer configuration that a write changes.
pub const HPET_TN_WRITABLE: u64 = 0xffff_ffff_0000_7f4e;

/// A timer configuration after reset: periodic and 64-bit capable, routable to
/// interrupts 2, 8 and 11.
pub const HPET_TN_RESET: u64 = 0x0000_0904_0000_0030;

/// Longest time, in nanoseconds, that a timer is armed ahead.
pub const MAX_ARM_NS: u64 = 3_600_000_000_000;

/// Interrupt group that replaces the interval timer.
pub const IRQ_GROUP_LEGACY_PIT: usize = 3;

/// Interrupt group that replaces the real-time clock.
pub const IRQ_GROUP_LEGACY_RTC: usize = 4;

/// Number of interrupt groups.
pub const HPET_IRQ_GROUP_COUNT: usize = 5;

proof fn lemma_constants()
    by (bit_vector)
    ensures
        (0x8086u32 << 16) | (1u32 << 15) | (1u32 << 13) | (2u32 << 8) | 1u32 == 0x8086_a201u32,
        0x8086_a201u64 | (10_000_000u64 << 32) == 0x0098_9680_8086_a201u64,
        0xf0u64 & !7u64 == 0xf0u64,
        0xf0u64 & 7u64 == 0,
        0x20u64 & !7u64 == 0x20u64,
        0x20u64 & 7u64 == 0,
{
}

proof fn lemma_access(addr: u64, reg: u64, value: u64, mask: u64)
    by (bit_vector)
    ensures
        addr & 7 <= 7,
        (addr & !7u64) % 8 == 0,
        addr % 8 == addr & 7,
        addr % 8 == 0 ==> addr & !7u64 == addr,
        addr & !7u64 > 0xff ==> addr & !7u64 >= 0x100,
        (0u64 & !mask) | value == value,
        reg & !(reg & value) == reg & !value,
        value == 0 ==> reg & !value == reg,
        (reg & !(0xffff_ffff_ffff_ffffu64 << 0u64)) | ((value & 0xffff_ffff_ffff_ffffu64) << 0u64)
            == value,
{
}

/// Event timer block identifier: vendor 0x8086, legacy replacement capable,
/// 64-bit counter, three timers, revision 1.
pub fn hpet_block_id() -> (r: u32)
    ensures
        r == 0x8086_a201,
{
    let vendor: u32 = 0x8086;
    let leg_rt_cap: u32 = 1u32 << 15;
    let count_size_cap: u32 = 1u32 << 13;
    let num_tim_cap: u32 = ((HPET_NUM_TIMERS as u32) - 1) << 8;
    let rev_id: u32 = 1;
    proof {
        lemma_constants();
    }
    (vendor << 16) | leg_rt_cap | count_size_cap | num_tim_cap | rev_id
}

/// Capabilities and identifier register: the block identifier below the clock
/// period.
pub fn hpet_capability() -> (r: u64)
    ensures
        r == 0x0098_9680_8086_a201,
{
    proof {
        lemma_constants();
    }
    (hpet_block_id() as u64) | (HPET_CLK_PERIOD_FS << 32)
}

/// One timer.
#[derive(Clone, Copy, Debug, PartialEq, Eq)]
pub struct HpetTimer {
    pub config: u64,
    pub comparator: u64,
    pub fsb: u64,
    pub period: u64,
    /// When the timer fires next; `None` if it is not armed.
    pub next_deadline: Option<u64>,
}

/// The timer device.
pub struct Hpet {
    /// Capabilities and identifier register.
    pub capability: u64,
    /// General configuration register.
    pub config: u64,
    /// General interrupt status register.
    pub isr: u64,
    /// Counter value at `counter_base`, and while the counter is halted.
    pub counter_when_halted: u64,
    /// When the counter was last started or set.
    pub counter_base: u64,
    pub timers: [HpetTimer; 3],
    /// Whether the worker is asked to end.
    pub shutdown: bool,
}

/// What the worker does next.
#[derive(Debug)]
pub enum WorkerStep {
    /// End.
    Exit,
    /// Fire these timers, one after the other.
    Fire(Vec<usize>),
    /// Sleep until this time or until woken.
    WaitUntil(u64),
    /// Sleep until woken.
    Wait,
}

/// A point in time that leaves room for the longest deadline.
pub open spec fn time_ok(now: u64) -> bool {
    now + MAX_ARM_NS <= u64::MAX
}

/// The low bytes of an access of 1, 2, 4 or 8 bytes.
pub open spec fn access_mask(len: int) -> u64 {
    if len == 1 {
        0xff
    } else if len == 2 {
        0xffff
    } else if len == 4 {
        0xffff_ffff
    } else {
        0xffff_ffff_ffff_ffff
    }
}

/// A register after `len` bytes of `value` were written at byte `addr % 8`.
pub open spec fn merged(before: u64, addr: u64, value: u64, len: int) -> u64 {
    let shift = (addr & 7) * 8;
    (before & !(access_mask(len) << (shift as u64))) | ((value & access_mask(len)) << (
    shift as u64))
}

impl HpetTimer {
    /// A timer after reset.
    pub open spec fn reset() -> HpetTimer {
        HpetTimer {
            config: HPET_TN_RESET,
            comparator: u64::MAX,
            fsb: 0,
            period: 0,
            next_deadline: None,
        }
    }

    pub open spec fn on(&self) -> bool {
        self.config & HPET_TN_ENABLE != 0
    }

    pub open spec fn repeats(&self) -> bool {
        self.config & HPET_TN_PERIODIC != 0
    }

    pub open spec fn narrow(&self) -> bool {
        self.config & HPET_TN_32BIT != 0
    }

    /// A value cut to the width of the timer.
    pub open spec fn fit(&self, v: u64) -> u64 {
        if self.narrow() {
            v & 0xffff_ffff
        } else {
            v
        }
    }

    fn new() -> (r: Self)
        ensures
            r == HpetTimer::reset(),
    {
        HpetTimer {
            config: HPET_TN_RESET,
            comparator: u64::MAX,
            fsb: 0,
            period: 0,
            next_deadline: None,
        }
    }

    fn enabled(&self) -> (r: bool)
        ensures
            r == self.on(),
    {
        self.config & HPET_TN_ENABLE != 0
    }

    fn periodic(&self) -> (r: bool)
        ensures
            r == self.repeats(),
    {
        self.config & HPET_TN_PERIODIC != 0
    }

    fn is_32bit(&self) -> (r: bool)
        ensures
            r == self.narrow(),
    {
        self.config & HPET_TN_32BIT != 0
    }
}

impl Hpet {
    pub open spec fn on(&self) -> bool {
        self.config & HPET_CFG_ENABLE != 0
    }

    pub open spec fn replaces_legacy(&self) -> bool {
        self.config & HPET_CFG_LEGACY != 0
    }

    /// The counter at a point in time.
    pub open spec fn ticks(&self, now: u64) -> u64 {
        if self.on() {
            let elapsed = if now >= self.counter_base {
                (now - self.counter_base) as u64
            } else {
                0u64
            };
            self.counter_when_halted.wrapping_add((elapsed / 10) as u64)
        } else {
            self.counter_when_halted
        }
    }

    /// When a timer fires next: when the counter reaches its comparator, but
    /// at most an hour ahead; never while it or the device is off.
    pub open spec fn deadline(&self, timer: HpetTimer, now: u64) -> Option<u64> {
        if !self.on() || !timer.on() {
            None
        } else {
            let delta = timer.fit(timer.comparator).wrapping_sub(self.ticks(now));
            Some(
                (now + (if delta * 10 < MAX_ARM_NS {
                    delta * 10
                } else {
                    MAX_ARM_NS as int
                })) as u64,
            )
        }
    }

    /// A timer armed anew.
    pub open spec fn rearmed(&self, timer: HpetTimer, now: u64) -> HpetTimer {
        HpetTimer { next_deadline: self.deadline(timer, now), ..timer }
    }

    /// No timer is armed while the device is off.
    pub open spec fn wf(&self) -> bool {
        !self.on() ==> forall|i: int| 0 <= i < 3 ==> (#[trigger] self.timers@[i]).next_deadline is None
    }

    /// Registers outside the timer blocks and everything but the timers.
    pub open spec fn same_globals(&self, other: &Hpet) -> bool {
        &&& self.capability == other.capability
        &&& self.config == other.config
        &&& self.isr == other.isr
        &&& self.counter_when_halted == other.counter_when_halted
        &&& self.counter_base == other.counter_base
        &&& self.shutdown == other.shutdown
    }

    /// Creates the device. It drives five interrupt groups: one per timer, and
    /// the two that replace the interval timer and the real-time clock.
    pub fn new(irq_groups: usize, now: u64) -> (r: Self)
        requires
            irq_groups == HPET_IRQ_GROUP_COUNT,
        ensures
            r.wf(),
            r.capability == 0x0098_9680_8086_a201,
            r.config == 0,
            r.isr == 0,
            r.counter_when_halted == 0,
            r.counter_base == now,
            r.timers@ == seq![HpetTimer::reset(), HpetTimer::reset(), HpetTimer::reset()],
            !r.shutdown,
    {
        let r = Hpet {
            capability: hpet_capability(),
            config: 0,
            isr: 0,
            counter_when_halted: 0,
            counter_base: now,
            timers: [HpetTimer::new(), HpetTimer::new(), HpetTimer::new()],
            shutdown: false,
        };
        assert(r.timers@ =~= seq![HpetTimer::reset(), HpetTimer::reset(), HpetTimer::reset()]);
        r
    }

    fn enabled(&self) -> (r: bool)
        ensures
            r == self.on(),
    {
        self.config & HPET_CFG_ENABLE != 0
    }

    fn legacy(&self) -> (r: bool)
        ensures
            r == self.replaces_legacy(),
    {
        self.config & HPET_CFG_LEGACY != 0
    }

    /// The counter at a point in time.
    pub fn current_ticks(&self, now: u64) -> (r: u64)
        ensures
            r == self.ticks(now),
    {
        if self.enabled() {
            let ns: u64 = now.saturating_sub(self.counter_base);
            self.counter_when_halted.wrapping_add(ns / HPET_CLK_PERIOD_NS)
        } else {
            self.counter_when_halted
        }
    }

    fn rearm_timer(&mut self, idx: usize, now: u64)
        requires
            idx < 3,
            time_ok(now),
        ensures
            final(self).same_globals(old(self)),
            final(self).timers@ == old(self).timers@.update(
                idx as int,
                old(self).rearmed(old(self).timers@[idx as int], now),
            ),
    {
        let mut timer: HpetTimer = self.timers[idx];
        if !self.enabled() || !timer.enabled() {
            timer.next_deadline = None;
            self.timers[idx] = timer;
            return;
        }
        let target: u64 = if timer.is_32bit() {
            timer.comparator & 0xffff_ffff
        } else {
            timer.comparator
        };
        let now_ticks: u64 = self.current_ticks(now);
        let delta: u64 = target.wrapping_sub(now_ticks);
        let nanos: u64 = if delta < MAX_ARM_NS / HPET_CLK_PERIOD_NS {
            delta * HPET_CLK_PERIOD_NS
        } else {
            MAX_ARM_NS
        };
        timer.next_deadline = Some(now + nanos);
        self.timers[idx] = timer;
    }

    /// The value of a register. `addr` is a multiple of eight inside the block.
    pub open spec fn register(&self, addr: u64, now: u64) -> u64 {
        if addr <= 0xff {
            if addr == HPET_REG_ID {
                self.capability
            } else if addr == HPET_REG_CFG {
                self.config
            } else if addr == HPET_REG_STATUS {
                self.isr
            } else if addr == HPET_REG_COUNTER {
                self.ticks(now)
            } else {
                0
            }
        } else if addr >= TIMER_BLOCK_BASE + 3 * TIMER_BLOCK_STRIDE {
            0
        } else {
            let t = self.timers@[(addr - TIMER_BLOCK_BASE) / 0x20];
            let offset = (addr - TIMER_BLOCK_BASE) % 0x20;
            if offset == TIMER_OFFSET_CFG {
                t.config
            } else if offset == TIMER_OFFSET_COMPARATOR {
                t.comparator
            } else if offset == TIMER_OFFSET_ROUTE {
                t.fsb
            } else {
                0
            }
        }
    }

    /// Reads the register that an address falls into.
    pub fn read_register(&self, addr: u64, now: u64) -> (r: u64)
        ensures
            r == self.register(addr & !7, now),
    {
        proof {
            lemma_access(addr, 0, 0, 0);
        }
        let addr: u64 = addr & !0x7u64;
        if addr <= 0xff {
            match addr {
                HPET_REG_ID => self.capability,
                HPET_REG_CFG => self.config,
                HPET_REG_STATUS => self.isr,
                HPET_REG_COUNTER => self.current_ticks(now),
                _ => 0,
            }
        } else {
            let timer_id: u64 = (addr - TIMER_BLOCK_BASE) / TIMER_BLOCK_STRIDE;
            if timer_id >= 3 {
                return 0;
            }
            let t: &HpetTimer = &self.timers[timer_id as usize];
            match (addr - TIMER_BLOCK_BASE) % TIMER_BLOCK_STRIDE {
                TIMER_OFFSET_CFG => t.config,
                TIMER_OFFSET_COMPARATOR => t.comparator,
                TIMER_OFFSET_ROUTE => t.fsb,
                _ => 0,
            }
        }
    }
}

/// What a register write leaves behind.
impl Hpet {
    /// The general configuration becomes `new`. Starting the counter lets it
    /// run on from its halted value and arms the timers; halting it captures its
    /// value and disarms them.
    pub open spec fn config_becomes(&self, after: &Hpet, new: u64, now: u64) -> bool {
        let starts = !self.on() && new & HPET_CFG_ENABLE != 0;
        let halts = self.on() && new & HPET_CFG_ENABLE == 0;
        &&& after.config == new
        &&& after.capability == self.capability
        &&& after.isr == self.isr
        &&& after.shutdown == self.shutdown
        &&& after.counter_when_halted == (if halts {
            self.ticks(now)
        } else {
            self.counter_when_halted
        })
        &&& after.counter_base == (if starts {
            now
        } else {
            self.counter_base
        })
        &&& forall|i: int|
            0 <= i < 3 ==> #[trigger] after.timers@[i] == (if starts {
                after.rearmed(self.timers@[i], now)
            } else if halts {
                HpetTimer { next_deadline: None, ..self.timers@[i] }
            } else {
                self.timers@[i]
            })
    }

    /// Timer `idx` becomes `timer`, armed anew if the device is on.
    pub open spec fn timer_becomes(
        &self,
        after: &Hpet,
        idx: int,
        timer: HpetTimer,
        now: u64,
    ) -> bool {
        &&& after.same_globals(self)
        &&& after.timers@ == self.timers@.update(
            idx,
            if self.on() {
                self.rearmed(timer, now)
            } else {
                timer
            },
        )
    }

    /// A timer after its configuration register was written.
    pub open spec fn timer_configured(t: HpetTimer, addr: u64, value: u64, len: int) -> HpetTimer {
        HpetTimer {
            config: (t.config & !HPET_TN_WRITABLE) | (merged(t.config, addr, value, len)
                & HPET_TN_WRITABLE),
            ..t
        }
    }

    /// A timer after its comparator was written. A one-shot timer takes the
    /// comparator. A periodic timer takes the value as its period, and as its
    /// comparator only if the set-value bit asks for that; the bit is used up.
    pub open spec fn timer_compared(t: HpetTimer, addr: u64, value: u64, len: int) -> HpetTimer {
        HpetTimer {
            config: t.config & !HPET_TN_SETVAL,
            comparator: if !t.repeats() || t.config & HPET_TN_SETVAL != 0 {
                t.fit(merged(t.comparator, addr, value, len))
            } else {
                t.comparator
            },
            period: if t.repeats() {
                t.fit(merged(t.period, addr, value, len))
            } else {
                t.period
            },
            ..t
        }
    }

    /// The device after `len` bytes of `value` were written at `addr`.
    pub open spec fn written(
        &self,
        after: &Hpet,
        addr: u64,
        value: u64,
        len: int,
        now: u64,
    ) -> bool {
        let reg = addr & !7;
        if reg == HPET_REG_CFG {
            self.config_becomes(
                after,
                merged(self.config, addr, value, len) & HPET_CFG_WRITE_MASK,
                now,
            )
        } else if reg == HPET_REG_STATUS {
            &&& after.isr == self.isr & !merged(0, addr, value, len)
            &&& after.capability == self.capability
            &&& after.config == self.config
            &&& after.counter_when_halted == self.counter_when_halted
            &&& after.counter_base == self.counter_base
            &&& after.shutdown == self.shutdown
            &&& after.timers@ == self.timers@
        } else if reg == HPET_REG_COUNTER {
            &&& after.counter_when_halted == merged(self.counter_when_halted, addr, value, len)
            &&& after.counter_base == (if self.on() {
                now
            } else {
                self.counter_base
            })
            &&& after.capability == self.capability
            &&& after.config == self.config
            &&& after.isr == self.isr
            &&& after.shutdown == self.shutdown
            &&& after.timers@ == self.timers@
        } else if TIMER_BLOCK_BASE <= reg < TIMER_BLOCK_BASE + 3 * TIMER_BLOCK_STRIDE {
            let idx = (reg - TIMER_BLOCK_BASE) / 0x20;
            let offset = (reg - TIMER_BLOCK_BASE) % 0x20;
            let t = self.timers@[idx];
            if offset == TIMER_OFFSET_CFG {
                self.timer_becomes(after, idx, Hpet::timer_configured(t, addr, value, len), now)
            } else if offset == TIMER_OFFSET_COMPARATOR {
                self.timer_becomes(after, idx, Hpet::timer_compared(t, addr, value, len), now)
            } else if offset == TIMER_OFFSET_ROUTE {
                &&& after.same_globals(self)
                &&& after.timers@ == self.timers@.update(
                    idx,
                    HpetTimer { fsb: merged(t.fsb, addr, value, len), ..t },
                )
            } else {
                after.same_globals(self) && after.timers@ == self.timers@
            }
        } else {
            after.same_globals(self) && after.timers@ == self.timers@
        }
    }

    /// Whether a write to a register may change when the worker wakes.
    pub open spec fn wakes(addr: u64) -> bool {
        let reg = addr & !7;
        ||| reg == HPET_REG_CFG
        ||| reg == HPET_REG_STATUS
        ||| reg == HPET_REG_COUNTER
        ||| TIMER_BLOCK_BASE <= reg < TIMER_BLOCK_BASE + 3 * TIMER_BLOCK_STRIDE && (reg
            - TIMER_BLOCK_BASE) % 0x20 <= TIMER_OFFSET_COMPARATOR
    }

    fn write_config(&mut self, new: u64, now: u64)
        requires
            time_ok(now),
            old(self).wf(),
        ensures
            old(self).config_becomes(final(self), new, now),
            final(self).wf(),
    {
        let was: u64 = self.config;
        let activating: bool = (was & HPET_CFG_ENABLE == 0) && (new & HPET_CFG_ENABLE != 0);
        let deactivating: bool = (was & HPET_CFG_ENABLE != 0) && (new & HPET_CFG_ENABLE == 0);
        let ticks: u64 = self.current_ticks(now);
        self.config = new;
        if activating {
            self.counter_base = now;
            self.rearm_timer(0, now);
            self.rearm_timer(1, now);
            self.rearm_timer(2, now);
        } else if deactivating {
            self.counter_when_halted = ticks;
            let mut idx: usize = 0;
            while idx < 3
                invariant
                    idx <= 3,
                    self.capability == old(self).capability,
                    self.config == new,
                    self.isr == old(self).isr,
                    self.counter_when_halted == ticks,
                    self.counter_base == old(self).counter_base,
                    self.shutdown == old(self).shutdown,
                    forall|i: int|
                        0 <= i < 3 ==> #[trigger] self.timers@[i] == (if i < idx {
                            HpetTimer { next_deadline: None, ..old(self).timers@[i] }
                        } else {
                            old(self).timers@[i]
                        }),
                decreases 3 - idx,
            {
                let mut timer: HpetTimer = self.timers[idx];
                timer.next_deadline = None;
                self.timers[idx] = timer;
                idx = idx + 1;
            }
        }
    }

    fn put_timer(&mut self, idx: usize, timer: HpetTimer, now: u64)
        requires
            idx < 3,
            time_ok(now),
            old(self).wf(),
            timer.next_deadline == old(self).timers@[idx as int].next_deadline,
        ensures
            old(self).timer_becomes(final(self), idx as int, timer, now),
            final(self).wf(),
    {
        let ghost before = *self;
        self.timers[idx] = timer;
        if self.enabled() {
            self.rearm_timer(idx, now);
            assert(self.timers@ =~= before.timers@.update(
                idx as int,
                before.rearmed(timer, now),
            ));
        }
    }

    /// Applies a write of 1, 2, 4 or 8 bytes. Says whether the worker has to
    /// be woken.
    pub fn write_register(&mut self, addr: u64, value: u64, len: usize, now: u64) -> (wake: bool)
        requires
            len == 1 || len == 2 || len == 4 || len == 8,
            time_ok(now),
            old(self).wf(),
        ensures
            old(self).written(final(self), addr, value, len as int, now),
            final(self).wf(),
            wake == Hpet::wakes(addr),
    {
        let aligned: u64 = addr & !0x7u64;
        let low: u64 = addr & 0x7;
        proof {
            lemma_access(addr, 0, 0, 0);
        }
        let shift: u64 = low * 8;
        let mask: u64 = if len == 1 {
            0xff
        } else if len == 2 {
            0xffff
        } else if len == 4 {
            0xffff_ffff
        } else {
            u64::MAX
        };
        let value: u64 = (value & mask) << shift;
        let write_mask: u64 = mask << shift;
        proof {
            lemma_access(addr, self.isr, value, write_mask);
        }
        if aligned <= 0xff {
            match aligned {
                HPET_REG_CFG => {
                    let new: u64 = ((self.config & !write_mask) | value) & HPET_CFG_WRITE_MASK;
                    self.write_config(new, now);
                    true
                },
                HPET_REG_STATUS => {
                    let cleared: u64 = self.isr & value;
                    self.isr = self.isr & !cleared;
                    true
                },
                HPET_REG_COUNTER => {
                    let current: u64 = (self.counter_when_halted & !write_mask) | value;
                    self.counter_when_halted = current;
                    if self.enabled() {
                        self.counter_base = now;
                    }
                    true
                },
                _ => false,
            }
        } else {
            let timer_id: u64 = (aligned - TIMER_BLOCK_BASE) / TIMER_BLOCK_STRIDE;
            if timer_id >= 3 {
                return false;
            }
            let idx: usize = timer_id as usize;
            let mut timer: HpetTimer = self.timers[idx];
            match (aligned - TIMER_BLOCK_BASE) % TIMER_BLOCK_STRIDE {
                TIMER_OFFSET_CFG => {
                    let new: u64 = (timer.config & !write_mask) | value;
                    timer.config = (timer.config & !HPET_TN_WRITABLE) | (new & HPET_TN_WRITABLE);
                    self.put_timer(idx, timer, now);
                    true
                },
                TIMER_OFFSET_COMPARATOR => {
                    let mut target: u64 = (timer.comparator & !write_mask) | value;
                    if timer.is_32bit() {
                        target = target & 0xffff_ffff;
                    }
                    if !timer.periodic() || (timer.config & HPET_TN_SETVAL != 0) {
                        timer.comparator = target;
                    }
                    if timer.periodic() {
                        let mut period: u64 = (timer.period & !write_mask) | value;
                        if timer.is_32bit() {
                            period = period & 0xffff_ffff;
                        }
                        timer.period = period;
                    }
                    timer.config = timer.config & !HPET_TN_SETVAL;
                    self.put_timer(idx, timer, now);
                    true
                },
                TIMER_OFFSET_ROUTE => {
                    timer.fsb = (timer.fsb & !write_mask) | value;
                    self.timers[idx] = timer;
                    false
                },
                _ => false,
            }
        }
    }

    /// Whether an access of `len` bytes is served.
    pub open spec fn serves(offset: u64, len: int) -> bool {
        (len == 1 || len == 2 || len == 4 || len == 8) && offset + len <= HPET_LEN
    }

    /// Reads from the register block. An access of another size, or one that
    /// runs past the block, reads zeros.
    pub fn read(&self, offset: u64, data: &mut [u8], now: u64)
        ensures
            final(data)@ == (if Hpet::serves(offset, old(data)@.len() as int) {
                crate::bytes::u64_le(
                    self.register(offset & !7, now) >> (((offset & 7) * 8) as u64),
                ).take(old(data)@.len() as int)
            } else {
                Seq::new(old(data)@.len(), |i: int| 0u8)
            }),
    {
        let len: usize = data.len();
        if !(len == 1 || len == 2 || len == 4 || len == 8) || offset > HPET_LEN || offset
            + len as u64 > HPET_LEN {
            fill_byte(data, 0);
            return;
        }
        proof {
            lemma_access(offset, 0, 0, 0);
        }
        let raw: u64 = self.read_register(offset, now);
        let low: u64 = offset & 0x7;
        let value: u64 = raw >> (low * 8);
        fill_le(data, value);
    }

    /// Writes to the register block. An access of another size, or one that
    /// runs past the block, is ignored. Says whether the worker has to be
    /// woken.
    pub fn write(&mut self, offset: u64, data: &[u8], now: u64) -> (wake: bool)
        requires
            time_ok(now),
            old(self).wf(),
        ensures
            final(self).wf(),
            if Hpet::serves(offset, data@.len() as int) {
                &&& old(self).written(
                    final(self),
                    offset,
                    crate::bytes::le64(crate::bytes::zero_padded(data@), 0),
                    data@.len() as int,
                    now,
                )
                &&& wake == Hpet::wakes(offset)
            } else {
                *final(self) == *old(self) && !wake
            },
    {
        let len: usize = data.len();
        if !(len == 1 || len == 2 || len == 4 || len == 8) || offset > HPET_LEN || offset
            + len as u64 > HPET_LEN {
            return false;
        }
        let value: u64 = read_le(data);
        self.write_register(offset, value, len, now)
    }

    /// Asks the worker to end.
    pub fn stop(&mut self)
        ensures
            *final(self) == (Hpet { shutdown: true, ..*old(self) }),
    {
        self.shutdown = true;
    }

    /// Whether a timer is due.
    pub open spec fn due(&self, idx: int, now: u64) -> bool {
        self.on() && self.timers@[idx].next_deadline is Some && self.timers@[idx].next_deadline->0
            <= now
    }

    /// The due timers among the first `n`, in order.
    pub open spec fn due_list(&self, now: u64, n: nat) -> Seq<usize>
        decreases n,
    {
        if n == 0 {
            Seq::empty()
        } else if self.due(n - 1, now) {
            self.due_list(now, (n - 1) as nat).push((n - 1) as usize)
        } else {
            self.due_list(now, (n - 1) as nat)
        }
    }

    /// The earliest deadline after `now` among the first `n` timers.
    pub open spec fn next_wake(&self, now: u64, n: nat) -> Option<u64>
        decreases n,
    {
        if n == 0 || !self.on() {
            None
        } else {
            let rest = self.next_wake(now, (n - 1) as nat);
            match self.timers@[n - 1].next_deadline {
                Some(d) if d > now => match rest {
                    Some(r) if r < d => Some(r),
                    _ => Some(d),
                },
                _ => rest,
            }
        }
    }

    /// When a timer is to fire; never while the device is off.
    pub open spec fn armed_for(&self, idx: int) -> Option<u64> {
        if self.on() {
            self.timers@[idx].next_deadline
        } else {
            None
        }
    }

    /// Decides what the worker does at a point in time.
    pub fn poll(&self, now: u64) -> (r: WorkerStep)
        ensures
            if self.shutdown {
                r is Exit
            } else if self.due_list(now, 3).len() > 0 {
                r is Fire && r->Fire_0@ == self.due_list(now, 3)
            } else {
                match self.next_wake(now, 3) {
                    Some(d) => r is WaitUntil && r->WaitUntil_0 == d,
                    None => r is Wait,
                }
            },
            r matches WorkerStep::WaitUntil(d) ==> {
                &&& now < d
                &&& exists|i: int| 0 <= i < 3 && self.armed_for(i) == Some(d)
                &&& forall|i: int| 0 <= i < 3 ==> (#[trigger] self.armed_for(i) matches Some(e) ==> d <= e)
            },
            r is Wait ==> forall|i: int| 0 <= i < 3 ==> #[trigger] self.armed_for(i) is None,
            r matches WorkerStep::Fire(l) ==> {
                &&& l@.len() > 0
                &&& forall|i: usize|
                    #[trigger] l@.contains(i) <==> i < 3 && (self.armed_for(i as int) matches Some(
                        e,
                    ) && e <= now)
            },
    {
        proof {
            worker_serves_the_earliest_deadline(*self, now);
        }
        if self.shutdown {
            return WorkerStep::Exit;
        }
        let mut next_wake: Option<u64> = None;
        let mut to_fire: Vec<usize> = Vec::new();
        if self.enabled() {
            let mut idx: usize = 0;
            while idx < 3
                invariant
                    idx <= 3,
                    self.on(),
                    to_fire@ == self.due_list(now, idx as nat),
                    next_wake == self.next_wake(now, idx as nat),
                decreases 3 - idx,
            {
                if let Some(deadline) = self.timers[idx].next_deadline {
                    if deadline <= now {
                        to_fire.push(idx);
                    } else {
                        next_wake = match next_wake {
                            None => Some(deadline),
                            Some(prev) => if prev < deadline {
                                Some(prev)
                            } else {
                                Some(deadline)
                            },
                        };
                    }
                }
                idx = idx + 1;
            }
        } else {
            assert(self.due_list(now, 3).len() == 0) by {
                reveal_with_fuel(Hpet::due_list, 4);
            }
        }
        if to_fire.len() > 0 {
            return WorkerStep::Fire(to_fire);
        }
        match next_wake {
            Some(deadline) => WorkerStep::WaitUntil(deadline),
            None => WorkerStep::Wait,
        }
    }

    /// The interrupt group of a timer.
    pub open spec fn group(&self, idx: int) -> int {
        if self.replaces_legacy() && idx == 0 {
            IRQ_GROUP_LEGACY_PIT as int
        } else if self.replaces_legacy() && idx == 1 {
            IRQ_GROUP_LEGACY_RTC as int
        } else {
            idx
        }
    }

    /// A timer after it fired: a periodic one moves its comparator on and is
    /// armed again, a one-shot one is disarmed.
    pub open spec fn fired(&self, t: HpetTimer, now: u64) -> HpetTimer {
        if t.repeats() && t.period != 0 {
            self.rearmed(
                HpetTimer { comparator: t.fit(t.comparator.wrapping_add(t.period)), ..t },
                now,
            )
        } else {
            HpetTimer { next_deadline: None, ..t }
        }
    }

    /// Fires a timer: sets its status bit if it is level triggered, arms it
    /// again or disarms it, and says which interrupt group to trigger.
    pub fn fire(&mut self, idx: usize, now: u64) -> (group: usize)
        requires
            idx < 3,
            time_ok(now),
            old(self).wf(),
        ensures
            final(self).wf(),
            group == old(self).group(idx as int),
            group < HPET_IRQ_GROUP_COUNT,
            final(self).isr == (if old(self).timers@[idx as int].config & HPET_TN_TYPE_LEVEL != 0 {
                old(self).isr | (1u64 << (idx as u64))
            } else {
                old(self).isr
            }),
            final(self).capability == old(self).capability,
            final(self).config == old(self).config,
            final(self).counter_when_halted == old(self).counter_when_halted,
            final(self).counter_base == old(self).counter_base,
            final(self).shutdown == old(self).shutdown,
            final(self).timers@ == old(self).timers@.update(
                idx as int,
                old(self).fired(old(self).timers@[idx as int], now),
            ),
    {
        let legacy: bool = self.legacy();
        let mut timer: HpetTimer = self.timers[idx];
        if timer.config & HPET_TN_TYPE_LEVEL != 0 {
            self.isr = self.isr | (1u64 << (idx as u64));
        }
        let group: usize = if legacy && idx == 0 {
            IRQ_GROUP_LEGACY_PIT
        } else if legacy && idx == 1 {
            IRQ_GROUP_LEGACY_RTC
        } else {
            idx
        };
        if timer.periodic() && timer.period != 0 {
            let mut target: u64 = timer.comparator.wrapping_add(timer.period);
            if timer.is_32bit() {
                target = target & 0xffff_ffff;
            }
            timer.comparator = target;
            self.timers[idx] = timer;
            self.rearm_timer(idx, now);
        } else {
            timer.next_deadline = None;
            self.timers[idx] = timer;
        }
        assert(self.timers@ =~= old(self).timers@.update(
            idx as int,
            old(self).fired(old(self).timers@[idx as int], now),
        ));
        group
    }
}

/// A halted counter stands still; a running one gains one tick every ten
/// nanoseconds.
pub proof fn counter_runs_only_when_enabled(h: Hpet, t1: u64, t2: u64)
    requires
        h.counter_base <= t1 <= t2,
    ensures
        !h.on() ==> h.ticks(t1) == h.ticks(t2),
        h.on() ==> h.ticks(t2) == h.ticks(t1).wrapping_add(
            (((t2 - h.counter_base) / 10) - ((t1 - h.counter_base) / 10)) as u64,
        ),
{
}

/// Starting and halting lose no count: the counter reads the same just before
/// and just after a write to the configuration, and once halted it keeps that
/// value.
pub proof fn counter_survives_halts(before: Hpet, after: Hpet, new: u64, now: u64, later: u64)
    requires
        before.config_becomes(&after, new, now),
    ensures
        after.ticks(now) == before.ticks(now),
        !after.on() ==> after.ticks(later) == before.ticks(now),
{
}

/// Reading the counter at the instant of a full-width write gives back the
/// value that was written, whether the counter runs or not.
pub proof fn counter_reads_back(before: Hpet, after: Hpet, value: u64, now: u64)
    requires
        before.written(&after, HPET_REG_COUNTER, value, 8, now),
    ensures
        after.ticks(now) == value,
{
    lemma_constants();
    lemma_access(0, before.counter_when_halted, value, 0);
    assert(0u64 * 8 == 0);
}

/// Writing ones to the status register clears exactly those bits, and writing
/// zeros clears nothing.
pub proof fn status_is_cleared_by_ones(before: Hpet, after: Hpet, value: u64, now: u64)
    requires
        before.written(&after, HPET_REG_STATUS, value, 8, now),
    ensures
        after.isr == before.isr & !value,
        value == 0 ==> after.isr == before.isr,
{
    lemma_constants();
    lemma_access(0, before.isr, value, 0);
    lemma_access(0, 0, value, 0);
    assert(0u64 * 8 == 0);
}

/// The worker fires exactly the timers whose deadline has come, lowest first.
/// As long as there is none, it sleeps until a deadline that some timer has and
/// that no timer's deadline comes before; it sleeps without end only if no timer
/// is armed.
pub proof fn worker_serves_the_earliest_deadline(h: Hpet, now: u64)
    ensures
        forall|i: usize|
            #[trigger] h.due_list(now, 3).contains(i) <==> i < 3 && (h.armed_for(
                i as int,
            ) matches Some(e) && e <= now),
        forall|i: int, j: int|
            0 <= i < j < h.due_list(now, 3).len() ==> (#[trigger] h.due_list(now, 3)[i]) < (
            #[trigger] h.due_list(now, 3)[j]),
        h.due_list(now, 3).len() == 0 ==> match h.next_wake(now, 3) {
            Some(d) => {
                &&& now < d
                &&& exists|i: int| 0 <= i < 3 && h.armed_for(i) == Some(d)
                &&& forall|i: int| 0 <= i < 3 ==> (#[trigger] h.armed_for(i) matches Some(e) ==> d <= e)
            },
            None => forall|i: int| 0 <= i < 3 ==> #[trigger] h.armed_for(i) is None,
        },
{
    reveal_with_fuel(Hpet::due_list, 4);
    reveal_with_fuel(Hpet::next_wake, 4);
    let l = h.due_list(now, 3);
    lemma_due_list(h, now, 3);
    assert forall|i: usize| #[trigger] l.contains(i) <==> i < 3 && (h.armed_for(
        i as int,
    ) matches Some(e) && e <= now) by {
        assert(l.contains(i) <==> i < 3 && h.due(i as int, now));
    }
    if l.len() == 0 {
        assert(!l.contains(0usize) && !l.contains(1usize) && !l.contains(2usize));
        assert forall|i: int| 0 <= i < 3 implies (#[trigger] h.armed_for(i) matches Some(e) ==> e > now) by {
            assert(!l.contains(i as usize));
        }
        let (a, b, c) = (h.armed_for(0), h.armed_for(1), h.armed_for(2));
        assert(h.next_wake(now, 3) == a || h.next_wake(now, 3) == b || h.next_wake(now, 3) == c);
    }
}

proof fn lemma_due_list(h: Hpet, now: u64, n: nat)
    requires
        n <= 3,
    ensures
        forall|i: usize| #[trigger] h.due_list(now, n).contains(i) <==> i < n && h.due(i as int, now),
        forall|i: int, j: int|
            0 <= i < j < h.due_list(now, n).len() ==> (#[trigger] h.due_list(now, n)[i]) < (
            #[trigger] h.due_list(now, n)[j]),
    decreases n,
{
    if n > 0 {
        lemma_due_list(h, now, (n - 1) as nat);
        let before = h.due_list(now, (n - 1) as nat);
        let l = h.due_list(now, n);
        assert forall|k: int| 0 <= k < before.len() implies #[trigger] before[k] < n - 1 by {
            assert(before.contains(before[k]));
        }
        assert forall|i: usize| #[trigger] l.contains(i) <==> i < n && h.due(i as int, now) by {
            if l.contains(i) {
                let k = choose|k: int| 0 <= k < l.len() && l[k] == i;
                if k < before.len() {
                    assert(before[k] == i);
                    assert(before.contains(i));
                }
            }
            if i < n && h.due(i as int, now) {
                if i == n - 1 {
                    assert(l[l.len() - 1] == i);
                } else {
                    assert(before.contains(i));
                    let k = choose|k: int| 0 <= k < before.len() && before[k] == i;
                    assert(l[k] == i);
                }
            }
        }
    }
}

/// A timer that is armed less than an hour ahead fires at the very moment at
/// which the counter reads its comparator, and one that has longer to go is
/// looked at again after an hour.
pub proof fn deadline_is_when_the_counter_gets_there(h: Hpet, t: HpetTimer, now: u64)
    requires
        h.on(),
        t.on(),
        time_ok(now),
        h.counter_base <= now,
    ensures
        h.deadline(t, now) matches Some(d) && {
            &&& now <= d <= now + 3_600_000_000_000
            &&& d < now + 3_600_000_000_000 ==> h.ticks(d) == (if t.config & 0x100 != 0 {
                t.comparator & 0xffff_ffff
            } else {
                t.comparator
            })
            &&& d == now + 3_600_000_000_000 ==> (t.fit(t.comparator) - h.ticks(now)) % 0x1_0000_0000_0000_0000
                >= 360_000_000_000
        },
{
}

/// No timer is ever due while the device is off.
pub proof fn nothing_fires_while_off(h: Hpet, now: u64)
    requires
        !h.on(),
    ensures
        h.due_list(now, 3).len() == 0,
        h.next_wake(now, 3) is None,
{
    reveal_with_fuel(Hpet::due_list, 4);
}

proof fn lemma_merged_bytes(before: u64, value: u64, mask: u64, len: u64, low: u64, k: u64)
    by (bit_vector)
    requires
        low < 8 && k < 8 && low + len <= 8,
        mask == 0xff && len == 1 || mask == 0xffff && len == 2 || mask == 0xffff_ffff && len == 4
            || mask == 0xffff_ffff_ffff_ffff && len == 8,
    ensures
        low <= k && k < low + len ==> (((before & !(mask << ((low * 8) as u64))) | ((value & mask)
            << ((low * 8) as u64))) >> ((8 * k) as u64)) & 0xff == (value >> ((8 * (k
            - low)) as u64)) & 0xff,
        k < low || k >= low + len ==> (((before & !(mask << ((low * 8) as u64))) | ((value & mask)
            << ((low * 8) as u64))) >> ((8 * k) as u64)) & 0xff == (before >> ((8 * k) as u64))
            & 0xff,
{
}

/// A write changes the bytes that it is made to and no others.
pub proof fn write_changes_its_bytes(before: u64, addr: u64, value: u64, len: u64, k: u64)
    requires
        len == 1 || len == 2 || len == 4 || len == 8,
        addr % 8 + len <= 8,
        k < 8,
    ensures
        ({
            let byte = (merged(before, addr, value, len as int) >> ((8 * k) as u64)) & 0xff;
            let low = addr % 8;
            &&& low <= k < low + len ==> byte == (value >> ((8 * (k - low)) as u64)) & 0xff
            &&& !(low <= k < low + len) ==> byte == (before >> ((8 * k) as u64)) & 0xff
        }),
{
    lemma_access(addr, 0, 0, 0);
    lemma_merged_bytes(before, value, access_mask(len as int), len, addr % 8, k);
}

/// What a guest writes to a timer is what it reads back, at the same address,
/// and what the timer then goes by. A configuration takes all but the reserved
/// bits. A comparator, cut to 32 bits for a narrow timer, is taken by a one-shot
/// timer, or after bit 6 of the configuration was set, which is then clear; the
/// timer fires when the counter gets there. The other timers stay as they are.
pub proof fn timer_registers_read_back(
    before: Hpet,
    after: Hpet,
    idx: int,
    offset: int,
    value: u64,
    now: u64,
)
    requires
        0 <= idx < 3,
        offset == 0 || offset == 8 || offset == 16,
        time_ok(now),
        before.counter_base <= now,
        before.written(&after, (0x100 + 0x20 * idx + offset) as u64, value, 8, now),
    ensures
        ({
            let at = 0x100 + 0x20 * idx;
            let old_config = before.register(at as u64, now);
            let config = after.register(at as u64, now);
            let comparator = after.register((at + 8) as u64, now);
            let wanted = if old_config & 0x100 != 0 {
                value & 0xffff_ffff
            } else {
                value
            };
            let taken = old_config & 8 == 0 || old_config & 0x40 != 0;
            &&& offset == 0 ==> config == (old_config & !0xffff_ffff_0000_7f4eu64) | (value
                & 0xffff_ffff_0000_7f4e) && comparator == before.register((at + 8) as u64, now)
            &&& offset == 8 ==> {
                &&& config == old_config & !0x40u64
                &&& comparator == (if taken {
                    wanted
                } else {
                    before.register((at + 8) as u64, now)
                })
                &&& old_config & 8 != 0 ==> after.timers@[idx].period == wanted
                &&& old_config & 8 == 0 ==> after.timers@[idx].period == before.timers@[idx].period
            }
            &&& offset == 16 ==> after.register((at + 16) as u64, now) == value && config
                == old_config && comparator == before.register((at + 8) as u64, now)
                && after.armed_for(idx) == before.armed_for(idx)
            &&& offset != 16 && before.config & 1 != 0 && config & 4 != 0 ==> {
                &&& after.armed_for(idx) matches Some(d)
                &&& now <= d <= now + 3_600_000_000_000
                &&& d < now + 3_600_000_000_000 ==> after.ticks(d) == (if config & 0x100 != 0 {
                    comparator & 0xffff_ffff
                } else {
                    comparator
                })
            }
            &&& offset != 16 && before.config & 1 != 0 && config & 4 == 0 ==> after.armed_for(
                idx,
            ) is None
            &&& forall|j: int| 0 <= j < 3 && j != idx ==> after.timers@[j] == before.timers@[j]
            &&& after.ticks(now) == before.ticks(now)
        }),
{
    let addr = (0x100 + 0x20 * idx + offset) as u64;
    lemma_access(addr, 0, 0, 0);
    let t = before.timers@[idx];
    lemma_access(addr, t.config, value, 0);
    lemma_access(addr, t.comparator, value, 0);
    lemma_access(addr, t.period, value, 0);
    lemma_access(addr, t.fsb, value, 0);
    assert((addr & 7) * 8 == 0);
    assert((addr - 0x100) / 0x20 == idx && (addr - 0x100) % 0x20 == offset);
    if before.on() && offset != 16 {
        let u = if offset == 0 {
            Hpet::timer_configured(t, addr, value, 8)
        } else {
            Hpet::timer_compared(t, addr, value, 8)
        };
        if u.on() {
            deadline_is_when_the_counter_gets_there(before, u, now);
        }
    }
}

/// The general registers read back at their addresses: the configuration as far
/// as it can be written, the counter as it was set, and the status without the
/// bits that were written as ones.
pub proof fn general_registers_read_back(before: Hpet, after: Hpet, addr: u64, value: u64, now: u64)
    requires
        addr == 0x10 || addr == 0x20 || addr == 0xf0,
        before.written(&after, addr, value, 8, now),
    ensures
        addr == 0x10 ==> after.register(0x10, now) == value & 3,
        addr == 0x20 ==> after.register(0x20, now) == before.register(0x20, now) & !value,
        addr == 0xf0 ==> after.register(0xf0, now) == value,
        after.register(0, now) == before.register(0, now),
        addr != 0x10 ==> after.register(0x10, now) == before.register(0x10, now),
        addr != 0x20 ==> after.register(0x20, now) == before.register(0x20, now),
        addr != 0xf0 ==> after.register(0xf0, now) == before.register(0xf0, now),
        addr == 0x10 && before.config & 1 == 0 && value & 3 & 1 != 0 ==> forall|i: int|
            0 <= i < 3 ==> #[trigger] after.armed_for(i) == after.deadline(before.timers@[i], now),
        value & 3 & 1 == 0 && addr == 0x10 ==> forall|i: int|
            0 <= i < 3 ==> #[trigger] after.armed_for(i) is None,
{
    lemma_access(addr, before.config, value, 0);
    lemma_access(addr, before.isr, value, 0);
    lemma_access(addr, before.counter_when_halted, value, 0);
    lemma_access(addr, 0, value, 0);
    assert((addr & 7) * 8 == 0);
    if addr == 0x10 {
        counter_survives_halts(before, after, value & 3, now, now);
        assert forall|i: int| 0 <= i < 3 && before.config & 1 == 0 && value & 3 & 1
            != 0 implies #[trigger] after.armed_for(i) == after.deadline(before.timers@[i], now) by {
            assert(after.timers@[i] == after.rearmed(before.timers@[i], now));
        }
    }
}

/// A write that does not wake the worker moves no deadline.
pub proof fn worker_sleeps_through_other_writes(
    before: Hpet,
    after: Hpet,
    addr: u64,
    value: u64,
    len: int,
    now: u64,
    i: int,
)
    requires
        before.written(&after, addr, value, len, now),
        !Hpet::wakes(addr),
        0 <= i < 3,
    ensures
        after.armed_for(i) == before.armed_for(i),
        after.ticks(now) == before.ticks(now),
{
    lemma_access(addr, 0, 0, 0);
}

/// A periodic timer that fired waits for the next multiple of its period, and is
/// armed for when the counter gets there. A one-shot timer does not fire again.
/// With legacy replacement, the first two timers drive the groups of the interval
/// timer and the real-time clock; all others drive their own.
pub proof fn periodic_timer_fires_again(h: Hpet, t: HpetTimer, now: u64, idx: int)
    requires
        h.on(),
        time_ok(now),
        h.counter_base <= now,
        0 <= idx < 3,
    ensures
        ({
            let f = h.fired(t, now);
            let next = (t.comparator + t.period) % 0x1_0000_0000_0000_0000;
            &&& f.config == t.config && f.period == t.period && f.fsb == t.fsb
            &&& t.config & 8 == 0 || t.period == 0 ==> f.next_deadline is None && f.comparator
                == t.comparator
            &&& t.config & 8 != 0 && t.period != 0 ==> {
                &&& f.comparator == (if t.config & 0x100 != 0 {
                    (next as u64) & 0xffff_ffff
                } else {
                    next as u64
                })
                &&& f.next_deadline is Some <==> t.config & 4 != 0
                &&& f.next_deadline matches Some(d) ==> d < now + 3_600_000_000_000 ==> h.ticks(d)
                    == (if t.config & 0x100 != 0 {
                    f.comparator & 0xffff_ffff
                } else {
                    f.comparator
                })
            }
        }),
        h.config & 2 != 0 ==> h.group(0) == 3 && h.group(1) == 4 && h.group(2) == 2,
        h.config & 2 == 0 ==> h.group(idx) == idx,
{
    let moved = HpetTimer { comparator: t.fit(t.comparator.wrapping_add(t.period)), ..t };
    if moved.on() {
        deadline_is_when_the_counter_gets_there(h, moved, now);
    }
}

/// Accesses of 1, 2, 4 and 8 bytes that lie in the first kibibyte are served, and
/// no others.
pub proof fn accesses_in_the_block_are_served(offset: u64, len: int)
    ensures
        Hpet::serves(offset, len) <==> (len == 1 || len == 2 || len == 4 || len == 8) && offset + len
            <= 1024,
{
}

} // verus!
