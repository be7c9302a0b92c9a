//! Interrupt routing entries.
use vstd::prelude::*;

verus! {

/// `KVM_MSI_VALID_DEVID`.
pub const KVM_MSI_VALID_DEVID: u32 = 1;

/// Bit of a message address that marks the remappable format.
pub const REMAPPABLE_FORMAT_BIT_MASK: u32 = 0x10;

/// Bits of a message address that hold the extended destination.
pub const EXT_ID_MASK: u32 = 0xfe0;

/// Where an interrupt comes from.
#[derive(Clone, Copy, Debug, PartialEq, Eq, Structural)]
pub enum InterruptSourceConfig {
    /// A pin of an interrupt controller.
    LegacyIrq { irqchip: u32, pin: u32 },
    /// A message.
    MsiIrq { high_addr: u32, low_addr: u32, data: u32, devid: u32 },
}

/// A routing entry for KVM.
#[derive(Clone, Copy, Debug, PartialEq, Eq, Structural)]
pub enum IrqRoutingEntry {
    Irqchip { gsi: u32, irqchip: u32, pin: u32 },
    Msi { gsi: u32, flags: u32, address_lo: u32, address_hi: u32, data: u32, devid: u32 },
}

/// A message address as one 64-bit number.
pub open spec fn msi_address(lo: u32, hi: u32) -> u64 {
    (hi as u64) << 32 | (lo as u64)
}

/// A message address with its extended destination moved: bits 5 to 11 go to
/// bits 40 to 46. An address in the remappable format, or with its upper half
/// in use, stays.
pub open spec fn moved_ext_dest_id(address: u64) -> u64 {
    if address >> 32 == 0 && address & 0x10 == 0 {
        (address & !0xfe0) | ((address & 0xfe0) << 35)
    } else {
        address
    }
}

proof fn lemma_moved(lo: u32, hi: u32)
    by (bit_vector)
    ensures
        ((((hi as u64) << 32 | (lo as u64)) >> 32) == 0) == (hi == 0),
        ((((hi as u64) << 32 | (lo as u64)) & 0x10u64) == 0) == (lo & 0x10u32 == 0),
        hi == 0 ==> (((0u32 | ((lo & 0xfe0u32) << 3u32)) as u64) << 32 | ((lo & !0xfe0u32) as u64))
            == ((((hi as u64) << 32 | (lo as u64)) & !0xfe0u64) | ((((hi as u64) << 32
            | (lo as u64)) & 0xfe0u64) << 35)),
{
}

/// Moves the extended destination of a message address, given in two halves.
pub fn translate_msi_ext_dest_id(address_lo: u32, address_hi: u32) -> (r: (u32, u32))
    ensures
        msi_address(r.0, r.1) == moved_ext_dest_id(msi_address(address_lo, address_hi)),
{
    proof {
        lemma_moved(address_lo, address_hi);
    }
    let remappable_format_bit_is_set: bool = (address_lo & REMAPPABLE_FORMAT_BIT_MASK) != 0;
    if address_hi == 0 && !remappable_format_bit_is_set {
        let ext_id: u32 = address_lo & EXT_ID_MASK;
        (address_lo & !EXT_ID_MASK, address_hi | (ext_id << 3u32))
    } else {
        (address_lo, address_hi)
    }
}

/// The device identifier for KVM: the bus byte is replaced by the low byte of
/// the segment, which keeps it within 16 bits.
pub open spec fn modified_devid(devid: u32) -> u32 {
    ((devid & 0x00ff_0000) >> 8) | (devid & 0xff)
}

/// The routing entry of an interrupt. `msi_devid` says whether KVM wants the
/// device identifier of a message.
pub fn make_routing_entry(gsi: u32, config: &InterruptSourceConfig, msi_devid: bool) -> (r:
    IrqRoutingEntry)
    ensures
        match *config {
            InterruptSourceConfig::LegacyIrq { irqchip, pin } => r == (IrqRoutingEntry::Irqchip {
                gsi,
                irqchip,
                pin,
            }),
            InterruptSourceConfig::MsiIrq { high_addr, low_addr, data, devid } => {
                &&& r matches IrqRoutingEntry::Msi {
                    gsi: g,
                    flags,
                    address_lo,
                    address_hi,
                    data: d,
                    devid: id,
                }
                &&& g == gsi
                &&& d == data
                &&& msi_address(address_lo, address_hi) == moved_ext_dest_id(
                    msi_address(low_addr, high_addr),
                )
                &&& flags == (if msi_devid {
                    KVM_MSI_VALID_DEVID
                } else {
                    0
                })
                &&& id == (if msi_devid {
                    modified_devid(devid)
                } else {
                    0
                })
            },
        },
{
    match config {
        InterruptSourceConfig::MsiIrq { high_addr, low_addr, data, devid } => {
            let (address_lo, address_hi): (u32, u32) = translate_msi_ext_dest_id(
                *low_addr,
                *high_addr,
            );
            let mut flags: u32 = 0;
            let mut id: u32 = 0;
            if msi_devid {
                flags = KVM_MSI_VALID_DEVID;
                id = ((*devid & 0x00ff_0000) >> 8) | (*devid & 0xff);
            }
            IrqRoutingEntry::Msi { gsi, flags, address_lo, address_hi, data: *data, devid: id }
        },
        InterruptSourceConfig::LegacyIrq { irqchip, pin } => IrqRoutingEntry::Irqchip {
            gsi,
            irqchip: *irqchip,
            pin: *pin,
        },
    }
}

/// Two devices in the same slot of segments that differ in their low byte get
/// different identifiers, and every identifier fits 16 bits.
pub proof fn devid_separates_segments(a: u32, b: u32)
    by (bit_vector)
    ensures
        modified_devid(a) <= 0xffff,
        modified_devid(a) == modified_devid(b) <==> (a & 0x00ff_00ff == b & 0x00ff_00ff),
{
}

/// Moving an extended destination twice is moving it once.
pub proof fn moving_is_idempotent(address: u64)
    ensures
        moved_ext_dest_id(moved_ext_dest_id(address)) == moved_ext_dest_id(address),
{
    assert(moved_ext_dest_id(moved_ext_dest_id(address)) == moved_ext_dest_id(address))
        by (bit_vector);
}

/// A message address is its two halves side by side. Its destination is seven
/// bits from bit 5 on, which take part in no address above 4 GiB and in none
/// that has bit 4 set; in the others they are taken out and put in from bit 40
/// on. An identifier keeps its low byte; its third byte becomes the second.
pub proof fn destination_is_moved(lo: u32, hi: u32, address: u64, devid: u32)
    ensures
        msi_address(lo, hi) == 0x1_0000_0000 * hi + lo,
        address >= 0x1_0000_0000 || address & 0x10 != 0 ==> moved_ext_dest_id(address) == address,
        address < 0x1_0000_0000 && address & 0x10 == 0 ==> moved_ext_dest_id(address) == address
            - 32 * ((address / 32) % 128) + 0x100_0000_0000 * ((address / 32) % 128),
        modified_devid(devid) == ((devid / 0x1_0000) % 0x100) * 0x100 + devid % 0x100,
{
    lemma_halves(lo, hi);
    lemma_destination(address);
    lemma_devid(devid);
}

proof fn lemma_halves(lo: u32, hi: u32)
    by (bit_vector)
    ensures
        (hi as u64) << 32 | (lo as u64) == 0x1_0000_0000 * hi + lo,
{
}

proof fn lemma_destination(address: u64)
    by (bit_vector)
    ensures
        address < 0x1_0000_0000u64 ==> address >> 32 == 0 && (address & !0xfe0) | ((address & 0xfe0)
            << 35) == address - 32 * ((address / 32) % 128) + 0x100_0000_0000 * ((address / 32)
            % 128),
        address >= 0x1_0000_0000u64 ==> address >> 32 != 0,
{
}

proof fn lemma_devid(devid: u32)
    by (bit_vector)
    ensures
        ((devid & 0x00ff_0000) >> 8) | (devid & 0xff) == ((devid / 0x1_0000) % 0x100) * 0x100
            + devid % 0x100,
{
}

} // verus!
