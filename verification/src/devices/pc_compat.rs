//! Legacy ports that firmware and kernels probe on a PC.
use crate::bytes::{push_u16_le, read_u16_le, read_window, write_window};
use vstd::prelude::*;

verus! {

/// Interrupt controller masks. Interrupts are routed elsewhere; keeping the
/// masks readable keeps firmware off its fallback paths.
#[derive(Clone, Copy, Debug, PartialEq, Eq, Structural)]
pub struct PicStub {
    pub master_mask: u8,
    pub slave_mask: u8,
}

impl PicStub {
    /// What a port reads as: the masks, zero from the command ports, ones
    /// elsewhere.
    pub open spec fn port_reads(&self, port: int) -> u8 {
        if port == 0x21 {
            self.master_mask
        } else if port == 0xa1 {
            self.slave_mask
        } else if port == 0x20 || port == 0xa0 {
            0
        } else {
            0xff
        }
    }

    /// The masks after a byte was written to a port.
    pub open spec fn port_written(&self, port: int, b: u8) -> PicStub {
        PicStub {
            master_mask: if port == 0x21 {
                b
            } else {
                self.master_mask
            },
            slave_mask: if port == 0xa1 {
                b
            } else {
                self.slave_mask
            },
        }
    }

    /// All interrupts masked.
    pub fn new() -> (r: Self)
        ensures
            r == (PicStub { master_mask: 0xff, slave_mask: 0xff }),
    {
        Self { master_mask: 0xff, slave_mask: 0xff }
    }

    /// Reads one byte: the masks, zero from the command ports, ones elsewhere.
    /// A wider access leaves the buffer alone.
    pub fn read(&self, base: u64, offset: u64, data: &mut [u8])
        requires
            old(data)@.len() == 1 ==> base + offset <= u64::MAX,
        ensures
            final(data)@ == (if old(data)@.len() != 1 {
                old(data)@
            } else {
                seq![self.port_reads(base + offset)]
            }),
    {
        if data.len() != 1 {
            return;
        }
        let port: u64 = base + offset;
        data[0] = match port {
            0x21 => self.master_mask,
            0xa1 => self.slave_mask,
            0x20 | 0xa0 => 0,
            _ => 0xff,
        };
    }

    /// Writes one byte: the masks take it, other ports and wider accesses are
    /// ignored.
    pub fn write(&mut self, base: u64, offset: u64, data: &[u8])
        requires
            data@.len() == 1 ==> base + offset <= u64::MAX,
        ensures
            *final(self) == (if data@.len() == 1 {
                old(self).port_written(base + offset, data@[0])
            } else {
                *old(self)
            }),
    {
        if data.len() != 1 {
            return;
        }
        match base + offset {
            0x21 => {
                self.master_mask = data[0];
            },
            0xa1 => {
                self.slave_mask = data[0];
            },
            _ => {},
        }
    }
}

/// Frequency of the interval timer.
pub const PIT_HZ: u64 = 1_193_182;

/// Interval timer ports and the periodic interrupt of channel 0. Time is
/// handed in as nanoseconds of a monotonic host clock.
#[derive(Clone, Copy, Debug)]
pub struct PitStub {
    pub channels: [u16; 3],
    pub read_high: [bool; 3],
    pub write_high: [bool; 3],
    pub access_mode: [u8; 3],
    pub selected: usize,
    pub last_programmed: [u64; 3],
    /// Period of channel 0 in nanoseconds, once it was programmed.
    pub period: Option<u64>,
    /// When channel 0 fires next.
    pub next_tick: u64,
}

/// What the interrupt thread of channel 0 does.
#[derive(Clone, Copy, Debug, PartialEq, Eq, Structural)]
pub struct PitTick {
    /// Whether to trigger the interrupt now.
    pub fire: bool,
    /// How long to sleep then, in nanoseconds.
    pub sleep_ns: u64,
}

/// A point in time that leaves room for the longest period.
pub open spec fn pit_time_ok(now: u64) -> bool {
    now + 1_000_000_000 <= u64::MAX
}

/// Period of a reload value in nanoseconds, rounded up. Zero stands for 65536.
pub open spec fn pit_period(reload: u16) -> int {
    let ticks = if reload == 0 {
        0x1_0000
    } else {
        reload as int
    };
    (ticks * 1_000_000_000 + (PIT_HZ - 1)) / PIT_HZ as int
}

impl PitStub {
    /// What a channel counts down to at a point in time.
    pub open spec fn count(&self, channel: int, now: u64) -> u16 {
        let reload = self.channels@[channel];
        let elapsed = if now >= self.last_programmed@[channel] {
            now - self.last_programmed@[channel]
        } else {
            0
        };
        if reload == 0 {
            0
        } else {
            (reload - (elapsed * PIT_HZ / 1_000_000_000) % reload as int) as u16
        }
    }

    /// Same but for the given channel's reload value and time.
    pub open spec fn programmed(&self, after: &PitStub, channel: int, reload: u16, now: u64) -> bool {
        &&& after.channels@ == self.channels@.update(channel, reload)
        &&& after.last_programmed@ == self.last_programmed@.update(channel, now)
        &&& after.period == (if channel == 0 {
            Some(pit_period(reload) as u64)
        } else {
            self.period
        })
        &&& after.next_tick == (if channel == 0 {
            now + pit_period(reload)
        } else {
            self.next_tick as int
        })
    }

    /// What looking at channel 0 leads to: whether it fires, how long to sleep,
    /// and when it fires next.
    pub open spec fn ticks(&self, after: &PitStub, now: u64, r: PitTick) -> bool {
        &&& r.fire == (self.period is Some && now >= self.next_tick)
        &&& r.sleep_ns == (if self.period is Some && now < self.next_tick {
            if self.next_tick - now < 10_000_000 {
                self.next_tick - now
            } else {
                10_000_000
            }
        } else {
            1_000_000
        })
        &&& after.next_tick == (if r.fire {
            now + self.period->0
        } else {
            self.next_tick as int
        })
        &&& after.period == self.period
    }

    /// What a one-byte read at an offset from the first port gives: a byte of the
    /// channel's count, low and high byte in turn.
    pub open spec fn byte_read(&self, offset: u64, now: u64) -> u8 {
        if offset < 3 {
            let count = self.count(offset as int, now);
            (if self.read_high@[offset as int] {
                count / 256
            } else {
                (count % 256) as u16
            }) as u8
        } else {
            0
        }
    }

    /// Which byte of each channel is read next, after a read.
    pub open spec fn halves_after_read(&self, offset: u64) -> Seq<bool> {
        if offset < 3 {
            self.read_high@.update(offset as int, !self.read_high@[offset as int])
        } else {
            self.read_high@
        }
    }

    /// What a one-byte write at an offset from the first port leads to.
    pub open spec fn byte_written(&self, after: &PitStub, offset: u64, b: u8, now: u64) -> bool {
        if offset < 3 {
            let c = offset as int;
            let mode = self.access_mode@[c];
            let reload = self.channels@[c];
            let in_turn = mode != 1 && mode != 2;
            let high = mode == 2 || in_turn && self.write_high@[c];
            let value = PitStub::with_byte(reload, high, b);
            &&& if in_turn && !high {
                &&& after.channels@ == self.channels@.update(c, value)
                &&& after.last_programmed == self.last_programmed
                &&& after.period == self.period
                &&& after.next_tick == self.next_tick
            } else {
                self.programmed(after, c, value, now)
            }
            &&& after.write_high@ == (if in_turn {
                self.write_high@.update(c, !self.write_high@[c])
            } else {
                self.write_high@
            })
            &&& after.read_high == self.read_high
            &&& after.access_mode == self.access_mode
            &&& after.selected == self.selected
        } else if offset == 3 && b / 64 != 3 {
            let c = b as int / 64;
            &&& after.selected == c
            &&& after.access_mode@ == self.access_mode@.update(c, (b / 16 % 4) as u8)
            &&& after.read_high@ == self.read_high@.update(c, false)
            &&& after.write_high@ == self.write_high@.update(c, false)
            &&& after.channels == self.channels
            &&& after.last_programmed == self.last_programmed
            &&& after.period == self.period
            &&& after.next_tick == self.next_tick
        } else {
            *after == *self
        }
    }

    /// Channels that hold nothing and take low byte then high byte.
    pub fn new(now: u64) -> (r: Self)
        ensures
            r.channels@ == seq![0u16, 0u16, 0u16],
            r.read_high@ == seq![false, false, false],
            r.write_high@ == seq![false, false, false],
            r.access_mode@ == seq![3u8, 3u8, 3u8],
            r.selected == 0,
            r.last_programmed@ == seq![now, now, now],
            r.period is None,
            r.next_tick == now,
    {
        let r = Self {
            channels: [0, 0, 0],
            read_high: [false, false, false],
            write_high: [false, false, false],
            access_mode: [3, 3, 3],
            selected: 0,
            last_programmed: [now, now, now],
            period: None,
            next_tick: now,
        };
        assert(r.channels@ =~= seq![0u16, 0u16, 0u16]);
        assert(r.read_high@ =~= seq![false, false, false]);
        assert(r.write_high@ =~= seq![false, false, false]);
        assert(r.access_mode@ =~= seq![3u8, 3u8, 3u8]);
        assert(r.last_programmed@ =~= seq![now, now, now]);
        r
    }

    /// What a channel counts down to at a point in time.
    pub fn current_value(&self, channel: usize, now: u64) -> (r: u16)
        requires
            channel < 3,
        ensures
            r == self.count(channel as int, now),
    {
        let reload: u16 = self.channels[channel];
        if reload == 0 {
            return 0;
        }
        let elapsed: u64 = now.saturating_sub(self.last_programmed[channel]);
        let ticks: u128 = (elapsed as u128) * (PIT_HZ as u128) / 1_000_000_000;
        let position: u16 = (ticks % (reload as u128)) as u16;
        reload - position
    }

    /// Starts the periodic interrupt of channel 0 anew.
    fn update_channel0_timer(&mut self, now: u64)
        requires
            pit_time_ok(now),
        ensures
            final(self).period == Some(pit_period(old(self).channels@[0]) as u64),
            final(self).next_tick == now + pit_period(old(self).channels@[0]),
            final(self).channels == old(self).channels,
            final(self).read_high == old(self).read_high,
            final(self).write_high == old(self).write_high,
            final(self).access_mode == old(self).access_mode,
            final(self).selected == old(self).selected,
            final(self).last_programmed == old(self).last_programmed,
    {
        let reload: u64 = if self.channels[0] == 0 {
            0x1_0000
        } else {
            self.channels[0] as u64
        };
        let nanos: u64 = (reload * 1_000_000_000 + (PIT_HZ - 1)) / PIT_HZ;
        self.period = Some(nanos);
        self.next_tick = now + nanos;
    }

    /// Decides on the interrupt of channel 0: fire once the period is over, and
    /// never sleep longer than 10 ms.
    pub fn tick(&mut self, now: u64) -> (r: PitTick)
        requires
            old(self).period matches Some(p) ==> now + p <= u64::MAX,
        ensures
            old(self).ticks(final(self), now, r),
            final(self).channels == old(self).channels,
            final(self).read_high == old(self).read_high,
            final(self).write_high == old(self).write_high,
            final(self).access_mode == old(self).access_mode,
            final(self).selected == old(self).selected,
            final(self).last_programmed == old(self).last_programmed,
    {
        match self.period {
            Some(period) => {
                if now >= self.next_tick {
                    self.next_tick = now + period;
                    PitTick { fire: true, sleep_ns: 1_000_000 }
                } else {
                    let left: u64 = self.next_tick - now;
                    PitTick {
                        fire: false,
                        sleep_ns: if left < 10_000_000 {
                            left
                        } else {
                            10_000_000
                        },
                    }
                }
            },
            None => PitTick { fire: false, sleep_ns: 1_000_000 },
        }
    }

    /// Reads one byte of a channel's count, low and high byte in turn. The
    /// command port reads as zero; a wider access leaves the buffer alone.
    pub fn read(&mut self, offset: u64, data: &mut [u8], now: u64)
        ensures
            final(data)@ == (if old(data)@.len() != 1 {
                old(data)@
            } else {
                seq![old(self).byte_read(offset, now)]
            }),
            final(self).read_high@ == (if old(data)@.len() == 1 {
                old(self).halves_after_read(offset)
            } else {
                old(self).read_high@
            }),
            final(self).channels == old(self).channels,
            final(self).write_high == old(self).write_high,
            final(self).access_mode == old(self).access_mode,
            final(self).selected == old(self).selected,
            final(self).last_programmed == old(self).last_programmed,
            final(self).period == old(self).period,
            final(self).next_tick == old(self).next_tick,
    {
        if data.len() != 1 {
            return;
        }
        if offset < 3 {
            let channel: usize = offset as usize;
            let value: u16 = self.current_value(channel, now);
            let high: bool = self.read_high[channel];
            data[0] = if high {
                (value / 256) as u8
            } else {
                (value % 256) as u8
            };
            self.read_high[channel] = !high;
        } else {
            data[0] = 0;
        }
    }

    fn program(&mut self, channel: usize, reload: u16, now: u64)
        requires
            channel < 3,
            pit_time_ok(now),
        ensures
            old(self).programmed(final(self), channel as int, reload, now),
            final(self).read_high == old(self).read_high,
            final(self).write_high == old(self).write_high,
            final(self).access_mode == old(self).access_mode,
            final(self).selected == old(self).selected,
    {
        self.channels[channel] = reload;
        self.last_programmed[channel] = now;
        if channel == 0 {
            self.update_channel0_timer(now);
        }
    }

    /// The reload value with its low or high byte replaced.
    pub open spec fn with_byte(reload: u16, high: bool, b: u8) -> u16 {
        if high {
            (reload % 256 + 256 * b) as u16
        } else {
            ((reload / 256) * 256 + b) as u16
        }
    }

    /// Writes one byte. On a channel port it is the low byte, the high byte, or
    /// the two in turn, as the access mode says; the channel is programmed once
    /// the value is complete. On the command port it selects a channel and its
    /// access mode and starts both sequences with the low byte. Anything else
    /// is ignored.
    pub fn write(&mut self, offset: u64, data: &[u8], now: u64)
        requires
            pit_time_ok(now),
        ensures
            if data@.len() == 1 {
                old(self).byte_written(final(self), offset, data@[0], now)
            } else {
                *final(self) == *old(self)
            },
    {
        if data.len() != 1 {
            return;
        }
        let b: u8 = data[0];
        if offset < 3 {
            let channel: usize = offset as usize;
            let reload: u16 = self.channels[channel];
            let low_written: u16 = (reload / 256) * 256 + b as u16;
            let high_written: u16 = reload % 256 + 256 * (b as u16);
            match self.access_mode[channel] {
                1 => {
                    self.program(channel, low_written, now);
                },
                2 => {
                    self.program(channel, high_written, now);
                },
                _ => {
                    let high: bool = self.write_high[channel];
                    if high {
                        self.program(channel, high_written, now);
                    } else {
                        self.channels[channel] = low_written;
                    }
                    self.write_high[channel] = !high;
                },
            }
        } else if offset == 3 {
            let channel: u8 = b / 64;
            if channel == 3 {
                return;
            }
            let c: usize = channel as usize;
            self.selected = c;
            self.access_mode[c] = b / 16 % 4;
            self.read_high[c] = false;
            self.write_high[c] = false;
        }
    }
}

/// System control port 0x61. Bit 5 always reads as set, which keeps timer
/// calibration from hanging where there is no speaker.
#[derive(Clone, Copy, Debug, PartialEq, Eq, Structural)]
pub struct Port61 {
    pub value: u8,
}

impl Port61 {
    pub fn new() -> (r: Self)
        ensures
            r == (Port61 { value: 0x20 }),
    {
        Self { value: 0x20 }
    }

    /// Reads one byte; a wider access leaves the buffer alone.
    pub fn read(&self, data: &mut [u8])
        ensures
            final(data)@ == (if old(data)@.len() == 1 {
                seq![self.value | 0x20]
            } else {
                old(data)@
            }),
    {
        if data.len() == 1 {
            data[0] = self.value | 0x20;
        }
    }

    /// Writes one byte; a wider access is ignored.
    pub fn write(&mut self, data: &[u8])
        ensures
            final(self).value == (if data@.len() == 1 {
                data@[0] | 0x20
            } else {
                old(self).value
            }),
    {
        if data.len() == 1 {
            self.value = data[0] | 0x20;
        }
    }
}

/// System control port 0x92 with the A20 line enabled. The reset bit is
/// ignored: guests reset through the keyboard controller.
#[derive(Clone, Copy, Debug, PartialEq, Eq, Structural)]
pub struct Port92 {
    pub value: u8,
}

impl Port92 {
    pub fn new() -> (r: Self)
        ensures
            r == (Port92 { value: 0x02 }),
    {
        Self { value: 0x02 }
    }

    /// Reads one byte; a wider access leaves the buffer alone.
    pub fn read(&self, data: &mut [u8])
        ensures
            final(data)@ == (if old(data)@.len() == 1 {
                seq![self.value]
            } else {
                old(data)@
            }),
    {
        if data.len() == 1 {
            data[0] = self.value;
        }
    }

    /// Writes one byte less its reset bit; a wider access is ignored.
    pub fn write(&mut self, data: &[u8])
        ensures
            final(self).value == (if data@.len() == 1 {
                data@[0] & !0x01
            } else {
                old(self).value
            }),
    {
        if data.len() == 1 {
            self.value = data[0] & !0x01u8;
        }
    }
}

/// Power management event block: a status word cleared by writing ones, and an
/// enable word.
#[derive(Clone, Copy, Debug, PartialEq, Eq, Structural)]
pub struct Q35Pm1Evt {
    pub status: u16,
    pub enable: u16,
}

impl Q35Pm1Evt {
    /// The block as bytes.
    pub open spec fn block(&self) -> Seq<u8> {
        crate::bytes::u16_le(self.status) + crate::bytes::u16_le(self.enable)
    }

    /// The block after bytes were written: those that are ones in the status word
    /// are cleared, and the enable word is taken over.
    pub open spec fn written(&self, offset: int, data: Seq<u8>) -> Q35Pm1Evt {
        let block = crate::bytes::spliced(self.block(), offset, data);
        Q35Pm1Evt {
            status: self.status & !crate::bytes::le16(block, 0),
            enable: crate::bytes::le16(block, 2),
        }
    }

    pub fn new() -> (r: Self)
        ensures
            r == (Q35Pm1Evt { status: 0, enable: 0 }),
    {
        Self { status: 0, enable: 0 }
    }

    fn bytes(&self) -> (b: Vec<u8>)
        ensures
            b@ == self.block(),
    {
        let mut b: Vec<u8> = Vec::new();
        push_u16_le(&mut b, self.status);
        push_u16_le(&mut b, self.enable);
        assert(b@ =~= self.block());
        b
    }

    /// Reads bytes of the block; bytes past its end read as zero.
    pub fn read(&self, offset: u64, data: &mut [u8])
        requires
            offset + old(data)@.len() <= u64::MAX + 1,
        ensures
            final(data)@ == crate::bytes::window(self.block(), offset as int, old(data)@.len()),
    {
        let b: Vec<u8> = self.bytes();
        read_window(&b, offset, data);
    }

    /// Writes bytes of the block. The bytes are laid over the current block;
    /// the status word of the result names the status bits to clear, and its
    /// enable word is taken over. A write that leaves out the status word
    /// therefore clears the bits that are set.
    pub fn write(&mut self, offset: u64, data: &[u8])
        requires
            offset + data@.len() <= u64::MAX + 1,
        ensures
            *final(self) == old(self).written(offset as int, data@),
    {
        let mut b: Vec<u8> = self.bytes();
        write_window(&mut b, offset, data);
        let written_status: u16 = read_u16_le(b.as_slice(), 0);
        self.status = self.status & !written_status;
        self.enable = read_u16_le(b.as_slice(), 2);
    }
}

/// Power management control register.
#[derive(Clone, Copy, Debug, PartialEq, Eq, Structural)]
pub struct Q35Pm1Cnt {
    pub value: u16,
}

/// Whether a control value asks for power-off: sleep enable with the soft-off
/// sleep type, which is zero or five.
pub open spec fn asks_for_shutdown(value: u16) -> bool {
    value & 0x2000 != 0 && ((value >> 10) & 7 == 0 || (value >> 10) & 7 == 5)
}

impl Q35Pm1Cnt {
    /// The value with bytes laid over it.
    pub open spec fn written(&self, offset: int, data: Seq<u8>) -> u16 {
        crate::bytes::le16(
            crate::bytes::spliced(crate::bytes::u16_le(self.value), offset, data),
            0,
        )
    }

    pub fn new() -> (r: Self)
        ensures
            r == (Q35Pm1Cnt { value: 0 }),
    {
        Self { value: 0 }
    }

    /// Reads bytes of the register; bytes past its end read as zero.
    pub fn read(&self, offset: u64, data: &mut [u8])
        requires
            offset + old(data)@.len() <= u64::MAX + 1,
        ensures
            final(data)@ == crate::bytes::window(
                crate::bytes::u16_le(self.value),
                offset as int,
                old(data)@.len(),
            ),
    {
        let mut b: Vec<u8> = Vec::new();
        push_u16_le(&mut b, self.value);
        assert(b@ =~= crate::bytes::u16_le(self.value));
        read_window(&b, offset, data);
    }

    /// Writes bytes of the register. Says whether the guest asks to be powered
    /// off. Sleep enable is write-only: it never stays set.
    pub fn write(&mut self, offset: u64, data: &[u8]) -> (shutdown: bool)
        requires
            offset + data@.len() <= u64::MAX + 1,
        ensures
            shutdown == asks_for_shutdown(old(self).written(offset as int, data@)),
            final(self).value == old(self).written(offset as int, data@) & !0x2000,
    {
        let mut b: Vec<u8> = Vec::new();
        push_u16_le(&mut b, self.value);
        assert(b@ =~= crate::bytes::u16_le(self.value));
        write_window(&mut b, offset, data);
        let value: u16 = read_u16_le(b.as_slice(), 0);
        let sleep_value: u16 = (value >> 10) & 7;
        let shutdown: bool = (sleep_value == 0 || sleep_value == 5) && (value & 0x2000) != 0;
        self.value = value & !0x2000u16;
        shutdown
    }
}

/// Advanced power management command and status ports.
#[derive(Clone, Copy, Debug, PartialEq, Eq, Structural)]
pub struct ApmStub {
    pub command: u8,
    pub status: u8,
}

impl ApmStub {
    pub fn new() -> (r: Self)
        ensures
            r == (ApmStub { command: 0, status: 0 }),
    {
        Self { command: 0, status: 0 }
    }

    /// Reads bytes of the two ports; bytes past them read as zero.
    pub fn read(&self, offset: u64, data: &mut [u8])
        requires
            offset + old(data)@.len() <= u64::MAX + 1,
        ensures
            final(data)@ == crate::bytes::window(
                seq![self.command, self.status],
                offset as int,
                old(data)@.len(),
            ),
    {
        let b: Vec<u8> = vec![self.command, self.status];
        assert(b@ =~= seq![self.command, self.status]);
        read_window(&b, offset, data);
    }

    /// Writes bytes of the two ports; bytes past them are dropped.
    pub fn write(&mut self, offset: u64, data: &[u8])
        requires
            offset + data@.len() <= u64::MAX + 1,
        ensures
            seq![final(self).command, final(self).status] == crate::bytes::spliced(
                seq![old(self).command, old(self).status],
                offset as int,
                data@,
            ),
    {
        let mut b: Vec<u8> = vec![self.command, self.status];
        assert(b@ =~= seq![self.command, self.status]);
        write_window(&mut b, offset, data);
        self.command = b[0];
        self.status = b[1];
        assert(seq![self.command, self.status] =~= b@);
    }
}

/// Programming a channel low byte first and then high byte sets its reload
/// value to the two bytes.
pub proof fn pit_two_bytes_make_the_value(reload: u16, low: u8, high: u8)
    ensures
        PitStub::with_byte(PitStub::with_byte(reload, false, low), true, high) == low + 256 * high,
{
}

/// A channel that was just programmed counts from its reload value, and never
/// reads zero while it counts.
pub proof fn pit_counts_from_reload(pit: PitStub, channel: int, now: u64)
    requires
        0 <= channel < 3,
        pit.channels@[channel] != 0,
    ensures
        pit.last_programmed@[channel] == now ==> pit.count(channel, now) == pit.channels@[channel],
        1 <= pit.count(channel, now) <= pit.channels@[channel],
{
    let reload = pit.channels@[channel] as int;
    assert(0int % reload == 0) by (nonlinear_arith)
        requires
            reload > 0,
    ;
}

/// The control register never reads back a set sleep enable bit. The guest asks
/// to be powered off with that bit, number 13, and a sleep type of zero or five
/// in the three bits from number 10 on.
pub proof fn sleep_enable_never_sticks(value: u16)
    ensures
        (value & !0x2000u16) & 0x2000 == 0,
        asks_for_shutdown(value) <==> (value / 0x2000) % 2 == 1 && ((value / 0x400) % 8 == 0 || (value
            / 0x400) % 8 == 5),
        !asks_for_shutdown(value & !0x2000u16),
{
    assert((value & !0x2000u16) & 0x2000 == 0 && (value & 0x2000 != 0) == ((value / 0x2000u16)
        % 2u16 == 1u16) && (value >> 10) & 7 == (value / 0x400u16) % 8u16) by (bit_vector);
}

/// The interrupt of channel 0 comes as often as the timer counts down to zero at
/// 1193182 Hz: its period is the first whole number of nanoseconds that is not
/// shorter. A count of zero stands for 65536.
pub proof fn pit_period_is_not_too_short(reload: u16)
    ensures
        ({
            let ticks = if reload == 0 {
                0x1_0000
            } else {
                reload as int
            };
            let p = pit_period(reload);
            &&& p * 1_193_182 >= ticks * 1_000_000_000
            &&& (p - 1) * 1_193_182 < ticks * 1_000_000_000
        }),
{
}

/// A channel starts over from its reload value after as many ticks as it counts,
/// and is one lower after each tick in between.
pub proof fn pit_counts_down(pit: PitStub, channel: int, ticks: int, now: u64)
    requires
        0 <= channel < 3,
        pit.last_programmed@[channel] <= now,
        ticks == (now - pit.last_programmed@[channel]) * 1_193_182 / 1_000_000_000,
        pit.channels@[channel] != 0,
    ensures
        ticks < pit.channels@[channel] ==> pit.count(channel, now) == pit.channels@[channel] - ticks,
        ticks == pit.channels@[channel] ==> pit.count(channel, now) == pit.channels@[channel],
{
    let reload = pit.channels@[channel] as int;
    assert(0 <= ticks);
    if ticks < reload {
        vstd::arithmetic::div_mod::lemma_small_mod(ticks as nat, reload as nat);
    } else if ticks == reload {
        vstd::arithmetic::div_mod::lemma_mod_self_0(reload);
    }
}

/// A mask that is written to its port is read there, and the other one stays.
pub proof fn masks_read_back(pic: PicStub, port: int, b: u8)
    ensures
        pic.port_written(0x21, b).port_reads(0x21) == b,
        pic.port_written(0xa1, b).port_reads(0xa1) == b,
        port != 0x21 ==> pic.port_written(port, b).port_reads(0x21) == pic.port_reads(0x21),
        port != 0xa1 ==> pic.port_written(port, b).port_reads(0xa1) == pic.port_reads(0xa1),
        pic.port_reads(0x20) == 0 && pic.port_reads(0xa0) == 0,
{
}

/// A command that selects a channel for low and high byte, and then both bytes,
/// program the channel: it counts from the two bytes, from that moment on. The
/// other channels stay as they are. Channel 0 interrupts after one period.
pub proof fn pit_is_programmed_in_three_writes(
    pit: PitStub,
    selected: PitStub,
    half: PitStub,
    done: PitStub,
    channel: u8,
    low: u8,
    high: u8,
    now: u64,
)
    requires
        channel < 3,
        pit_time_ok(now),
        pit.byte_written(&selected, 3, (64 * channel + 0x30) as u8, now),
        selected.byte_written(&half, channel as u64, low, now),
        half.byte_written(&done, channel as u64, high, now),
    ensures
        done.channels@[channel as int] == low + 256 * high,
        done.last_programmed@[channel as int] == now,
        done.read_high@[channel as int] == false,
        forall|c: int|
            0 <= c < 3 && c != channel ==> done.channels@[c] == pit.channels@[c]
                && done.last_programmed@[c] == pit.last_programmed@[c],
        channel == 0 ==> done.next_tick == now + pit_period((low + 256 * high) as u16)
            && done.period == Some(pit_period((low + 256 * high) as u16) as u64),
        channel != 0 ==> done.period == pit.period && done.next_tick == pit.next_tick,
{
    let command = (64 * channel + 0x30) as u8;
    assert(command / 64 == channel && command / 16 % 4 == 3);
    pit_two_bytes_make_the_value(pit.channels@[channel as int], low, high);
}

/// Two reads of a channel give the two bytes of its count, low byte first.
pub proof fn pit_count_is_read_in_two_bytes(
    pit: PitStub,
    next: PitStub,
    channel: u64,
    now: u64,
)
    requires
        channel < 3,
        !pit.read_high@[channel as int],
        next.read_high@ == pit.halves_after_read(channel),
        next.channels == pit.channels,
        next.last_programmed == pit.last_programmed,
    ensures
        pit.byte_read(channel, now) + 256 * next.byte_read(channel, now) == pit.count(
            channel as int,
            now,
        ),
        next.halves_after_read(channel)[channel as int] == false,
{
}

/// Channel 0 interrupts no earlier than it is due, and then not again before
/// another period is over. The sleep in between never goes past when it is due.
pub proof fn pit_interrupts_once_a_period(
    pit: PitStub,
    after: PitStub,
    last: PitStub,
    now: u64,
    later: u64,
    r: PitTick,
    s: PitTick,
)
    requires
        pit.ticks(&after, now, r),
        after.ticks(&last, later, s),
        now <= later,
    ensures
        pit.period is None ==> !r.fire && !s.fire,
        r.fire ==> pit.next_tick <= now,
        pit.period matches Some(p) ==> {
            &&& r.fire && s.fire ==> later >= now + p
            &&& r.fire && later >= now + p ==> s.fire
            &&& !r.fire ==> now + r.sleep_ns <= pit.next_tick
        },
        r.sleep_ns <= 10_000_000,
{
}

/// The event block takes a whole write: bits of the status word that are written
/// as ones are cleared, and the enable word is what was written.
pub proof fn event_block_is_written(pm: Q35Pm1Evt, data: Seq<u8>)
    requires
        data.len() == 4,
    ensures
        pm.written(0, data).status == pm.status & !crate::bytes::le16(data, 0),
        pm.written(0, data).enable == crate::bytes::le16(data, 2),
        crate::bytes::window(pm.written(0, data).block(), 2, 2) == data.skip(2),
{
    let after = pm.written(0, data);
    assert(crate::bytes::spliced(pm.block(), 0, data) =~= data);
    let enable = crate::bytes::u16_le(after.enable);
    assert(enable =~= data.skip(2));
    assert(crate::bytes::window(after.block(), 2, 2) =~= data.skip(2));
}

/// The control register takes what is written at its start.
pub proof fn control_is_written(pm: Q35Pm1Cnt, data: Seq<u8>)
    requires
        data.len() == 2,
    ensures
        pm.written(0, data) == crate::bytes::le16(data, 0),
{
    assert(crate::bytes::spliced(crate::bytes::u16_le(pm.value), 0, data) =~= data);
}

} // verus!
