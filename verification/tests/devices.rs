//! Device models.
use tdx_q35::devices::hpet::{
    hpet_block_id, hpet_capability, Hpet, WorkerStep, HPET_CLK_PERIOD_FS, HPET_IRQ_GROUP_COUNT,
};
use tdx_q35::devices::ich9_lpc::{slice_within, Ich9Pm, TCO1_STS, TCO_TMR};
use tdx_q35::devices::pc_compat::{
    ApmStub, PicStub, PitStub, Port61, Port92, Q35Pm1Cnt, Q35Pm1Evt,
};

#[test]
fn block_id_matches_qemu() {
    // 0x8086a201 for a 3-timer 64-bit HPET with legacy replacement support
    // (rev_id=0x01).
    assert_eq!(hpet_block_id(), 0x8086_a201);
}

#[test]
fn capability_layout() {
    let cap = hpet_capability();
    assert_eq!(cap as u32, hpet_block_id());
    assert_eq!((cap >> 32) as u32, HPET_CLK_PERIOD_FS as u32);
}

#[test]
fn gpe0_sts_w1c() {
    let mut dev = Ich9Pm::new();
    // Pretend a status bit is latched.
    dev.gpe0_sts = 0x0000_0003;
    // Write 0x01 to the low byte: bit 0 should clear, bit 1 stays.
    dev.handle_write(0x20, &[0x01, 0x00, 0x00, 0x00]);
    assert_eq!(dev.gpe0_sts, 0x0000_0002);
}

#[test]
fn gpe0_en_plain_store() {
    let mut dev = Ich9Pm::new();
    dev.handle_write(0x28, &[0xaa, 0xbb, 0xcc, 0xdd]);
    assert_eq!(dev.gpe0_en, 0xddccbbaa);
    let mut buf = [0u8; 4];
    dev.handle_read(0x28, &mut buf);
    assert_eq!(buf, [0xaa, 0xbb, 0xcc, 0xdd]);
}

#[test]
fn smi_en_returns_what_was_written_but_does_nothing() {
    let mut dev = Ich9Pm::new();
    dev.handle_write(0x30, &[0x12, 0x34, 0x56, 0x78]);
    // Reads echo back (no SMI delivery exists).
    let mut buf = [0u8; 4];
    dev.handle_read(0x30, &mut buf);
    assert_eq!(buf, [0x12, 0x34, 0x56, 0x78]);
}

#[test]
fn tco_timer_writes_ignored() {
    let mut dev = Ich9Pm::new();
    dev.handle_write(0x60 + TCO_TMR, &[0x55, 0xaa]);
    let mut buf = [0u8; 2];
    dev.handle_read(0x60 + TCO_TMR, &mut buf);
    assert_eq!(buf, [0, 0]);
}

#[test]
fn tco1_sts_w1c() {
    let mut dev = Ich9Pm::new();
    dev.tco.sts1 = 0x000f;
    dev.handle_write(0x60 + TCO1_STS, &[0x05, 0x00]);
    assert_eq!(dev.tco.sts1, 0x000a);
}

#[test]
fn unmapped_offset_reads_zero() {
    let dev = Ich9Pm::new();
    let mut buf = [0xffu8; 4];
    dev.handle_read(0x10, &mut buf);
    assert_eq!(buf, [0, 0, 0, 0]);
}

#[test]
fn hpet_capability_reads_through_the_bus() {
    let hpet = Hpet::new(HPET_IRQ_GROUP_COUNT, 0);
    let mut data = [0u8; 8];
    hpet.read(0, &mut data, 0);
    assert_eq!(u64::from_le_bytes(data), hpet_capability());
}

#[test]
fn hpet_counter_stands_until_enabled() {
    let mut hpet = Hpet::new(HPET_IRQ_GROUP_COUNT, 0);
    assert_eq!(hpet.current_ticks(1_000_000), 0);
    hpet.write(0x10, &1u64.to_le_bytes(), 1_000_000);
    let period_ns = HPET_CLK_PERIOD_FS / 1_000_000;
    assert_eq!(hpet.current_ticks(1_000_000 + 100 * period_ns), 100);
}

#[test]
fn hpet_one_shot_fires_once() {
    let mut hpet = Hpet::new(HPET_IRQ_GROUP_COUNT, 0);
    // Timer 0: interrupts on, comparator 50; then the counter runs.
    hpet.write(0x100, &4u64.to_le_bytes(), 0);
    hpet.write(0x108, &50u64.to_le_bytes(), 0);
    hpet.write(0x10, &1u64.to_le_bytes(), 0);
    let period_ns = HPET_CLK_PERIOD_FS / 1_000_000;
    assert!(!matches!(hpet.poll(0), WorkerStep::Fire(_)));
    match hpet.poll(60 * period_ns) {
        WorkerStep::Fire(timers) => assert_eq!(timers, vec![0]),
        _ => panic!("timer 0 is due"),
    }
    hpet.fire(0, 60 * period_ns);
    assert!(!matches!(hpet.poll(61 * period_ns), WorkerStep::Fire(_)));
}

#[test]
fn hpet_is_quiet_while_off() {
    let mut hpet = Hpet::new(HPET_IRQ_GROUP_COUNT, 0);
    hpet.write(0x100, &4u64.to_le_bytes(), 0);
    hpet.write(0x108, &5u64.to_le_bytes(), 0);
    assert!(!matches!(hpet.poll(1_000_000_000), WorkerStep::Fire(_)));
}

#[test]
fn hpet_periodic_timer_runs_on() {
    let mut hpet = Hpet::new(HPET_IRQ_GROUP_COUNT, 0);
    // Timer 1: level triggered, on, periodic, comparator set along.
    hpet.write(0x120, &0x4eu64.to_le_bytes(), 0);
    hpet.write(0x128, &100u64.to_le_bytes(), 0);
    // The device takes over the lines of the older timers.
    hpet.write(0x10, &3u64.to_le_bytes(), 0);
    match hpet.poll(0) {
        WorkerStep::WaitUntil(deadline) => assert_eq!(deadline, 1000),
        _ => panic!("timer 1 is armed"),
    }
    assert_eq!(hpet.fire(1, 1000), 4);
    assert_eq!(hpet.isr, 2);
    assert_eq!(hpet.timers[1].comparator, 200);
    assert_eq!(hpet.timers[1].next_deadline, Some(2000));
    // The status bit is cleared by a one.
    hpet.write(0x20, &1u64.to_le_bytes(), 1000);
    assert_eq!(hpet.isr, 2);
    hpet.write(0x20, &2u64.to_le_bytes(), 1000);
    assert_eq!(hpet.isr, 0);
    hpet.stop();
    assert!(matches!(hpet.poll(5000), WorkerStep::Exit));
}

#[test]
fn hpet_counter_is_set_while_halted_and_running() {
    let mut hpet = Hpet::new(HPET_IRQ_GROUP_COUNT, 0);
    hpet.write(0xf0, &7u64.to_le_bytes(), 0);
    assert_eq!(hpet.current_ticks(500), 7);
    hpet.write(0x10, &1u64.to_le_bytes(), 500);
    assert_eq!(hpet.current_ticks(600), 17);
    hpet.write(0xf0, &1000u64.to_le_bytes(), 600);
    assert_eq!(hpet.current_ticks(600), 1000);
    // A half of a register is read and written on its own.
    let mut data = [0u8; 4];
    hpet.read(4, &mut data, 600);
    assert_eq!(u32::from_le_bytes(data), 10_000_000);
    // Accesses of other sizes, or past the block, read zeros.
    let mut odd = [0xffu8; 3];
    hpet.read(0, &mut odd, 600);
    assert_eq!(odd, [0; 3]);
    let mut late = [0xffu8; 8];
    hpet.read(0x3f9, &mut late, 600);
    assert_eq!(late, [0; 8]);
    assert!(!hpet.write(0x3fc, &[0; 8], 600));
}

#[test]
fn hpet_halted_counter_keeps_its_value() {
    let mut hpet = Hpet::new(HPET_IRQ_GROUP_COUNT, 0);
    hpet.write(0x100, &0x4u64.to_le_bytes(), 0);
    hpet.write(0x10, &1u64.to_le_bytes(), 0);
    assert_eq!(hpet.current_ticks(1000), 100);
    hpet.write(0x10, &0u64.to_le_bytes(), 1000);
    assert_eq!(hpet.current_ticks(1000), 100);
    assert_eq!(hpet.current_ticks(9000), 100);
    assert_eq!(hpet.timers[0].next_deadline, None);
    // It runs on from there.
    hpet.write(0x10, &1u64.to_le_bytes(), 9000);
    assert_eq!(hpet.current_ticks(9050), 105);
}

#[test]
fn hpet_registers_are_read_at_any_of_their_bytes() {
    let mut hpet = Hpet::new(HPET_IRQ_GROUP_COUNT, 0);
    hpet.write(0x128, &77u64.to_le_bytes(), 0);
    assert_eq!(hpet.read_register(0x12b, 0), 77);
    assert_eq!(hpet.read_register(0x7, 0), 0x0098_9680_8086_a201);
    assert_eq!(hpet.read_register(0x1ff, 0), 0);
}

#[test]
fn ich9_ports_read_back_through_the_bus() {
    let mut dev = Ich9Pm::new();
    // The block starts 0x10 behind the base: event enable is at 0x18.
    dev.write(0x18, &[0x0f, 0, 0, 0x80]);
    assert_eq!(dev.gpe0_en, 0x8000_000f);
    let mut data = [0u8; 6];
    dev.read(0x16, &mut data);
    assert_eq!(data, [0, 0, 0x0f, 0, 0, 0x80]);
    // A write over two registers reaches both.
    dev.smi_sts = 0xff;
    dev.write(0x23, &[0x11, 0x0f]);
    assert_eq!((dev.smi_en, dev.smi_sts), (0x1100_0000, 0xf0));
    assert_eq!(Ich9Pm::default(), Ich9Pm::new());
}

#[test]
fn tco_reload_writes_ignored() {
    let mut dev = Ich9Pm::new();
    dev.handle_write(0x60, &[0x55, 0xaa, 0x11]);
    let mut buf = [0xffu8; 3];
    dev.handle_read(0x60, &mut buf);
    assert_eq!(buf, [0, 0, 0x11]);
}

#[test]
fn part_of_an_access_falls_into_a_register() {
    assert_eq!(slice_within(0x1e, 0x22, 0x20, 4), Some((0, 2, 2)));
    assert_eq!(slice_within(0x22, 0x30, 0x20, 4), Some((2, 0, 2)));
    assert_eq!(slice_within(0x21, 0x22, 0x20, 4), Some((1, 0, 1)));
    assert_eq!(slice_within(0x10, 0x20, 0x20, 4), None);
    assert_eq!(slice_within(0x24, 0x28, 0x20, 4), None);
}

#[test]
fn pic_mask_reads_back() {
    let mut pic = PicStub::new();
    pic.write(0x20, 1, &[0xfb]);
    let mut data = [0u8; 1];
    pic.read(0x20, 1, &mut data);
    assert_eq!(data, [0xfb]);
}

#[test]
fn pit_two_bytes_are_a_reload() {
    let mut pit = PitStub::new(0);
    // Channel 2, low byte then high byte, mode 2.
    pit.write(3, &[0xb4], 0);
    pit.write(2, &[0x34], 0);
    pit.write(2, &[0x12], 0);
    assert_eq!(pit.current_value(2, 0), 0x1234);
}

#[test]
fn pit_fires_once_a_period() {
    let mut pit = PitStub::new(0);
    let idle = pit.tick(0);
    assert!(!idle.fire);
    assert_eq!(idle.sleep_ns, 1_000_000);
    // Channel 0 counts 1193 ticks: a millisecond, rounded up.
    pit.write(3, &[0x34], 0);
    pit.write(0, &[0xa9], 0);
    pit.write(0, &[0x04], 0);
    let early = pit.tick(500_000);
    assert!(!early.fire);
    assert!(early.sleep_ns <= 10_000_000);
    assert!(pit.tick(1_000_000).fire);
    assert!(!pit.tick(1_000_001).fire);
}

#[test]
fn pit_counts_down() {
    let mut pit = PitStub::new(0);
    pit.write(3, &[0x34], 0);
    pit.write(0, &[0xe8], 0);
    pit.write(0, &[0x03], 0);
    assert_eq!(pit.current_value(0, 0), 1000);
    // 1193182 ticks per second: 119 after 100 microseconds.
    assert_eq!(pit.current_value(0, 100_000), 881);
    let mut data = [0u8; 1];
    pit.read(0, &mut data, 0);
    assert_eq!(data, [0xe8]);
    pit.read(0, &mut data, 0);
    assert_eq!(data, [0x03]);
}

#[test]
fn system_ports_hold_their_bits() {
    let mut p61 = Port61::new();
    p61.write(&[0x03]);
    let mut data = [0u8; 1];
    p61.read(&mut data);
    assert_eq!(data[0] & 0x03, 0x03);
    let mut p92 = Port92::new();
    p92.write(&[0x02]);
    p92.read(&mut data);
    assert_eq!(data[0], 0x02);
}

#[test]
fn sleep_enable_asks_for_power_off() {
    let mut cnt = Q35Pm1Cnt::new();
    assert!(!cnt.write(0, &0x0001u16.to_le_bytes()));
    // Sleep types zero and five are power-off, others are not.
    assert!(cnt.write(0, &0x2001u16.to_le_bytes()));
    assert!(cnt.write(0, &0x3401u16.to_le_bytes()));
    assert!(!cnt.write(0, &0x2401u16.to_le_bytes()));
    let mut data = [0u8; 2];
    cnt.read(0, &mut data);
    assert_eq!(u16::from_le_bytes(data), 0x0401);
}

#[test]
fn power_events_clear_by_ones() {
    let mut evt = Q35Pm1Evt { status: 0x0101, enable: 0 };
    evt.write(0, &[0x01, 0x00, 0x20, 0x01]);
    assert_eq!((evt.status, evt.enable), (0x0100, 0x0120));
    let mut data = [0u8; 6];
    evt.read(0, &mut data);
    assert_eq!(data, [0x00, 0x01, 0x20, 0x01, 0, 0]);
}

#[test]
fn apm_ports_hold_bytes() {
    let mut apm = ApmStub::new();
    apm.write(0, &[0x5a, 0xa5, 0xff]);
    let mut two = [0u8; 2];
    apm.read(0, &mut two);
    assert_eq!(two, [0x5a, 0xa5]);
}
