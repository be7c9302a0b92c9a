//! Description of a PCI segment in the ACPI machine language.
use crate::arch::layout::PCI_MMIO_CONFIG_SIZE_PER_SEGMENT;
use crate::vmm::aml::{raw_tokens, uuid_buffer, AmlName, AmlOp};
use vstd::prelude::*;

verus! {

/// The operating system may handle hot-plug.
pub const PCIE_OSC_CTRL_HOTPLUG: u32 = 0x01;

/// The operating system may handle power management events.
pub const PCIE_OSC_CTRL_PME: u32 = 0x04;

/// The operating system may handle error reports.
pub const PCIE_OSC_CTRL_AER: u32 = 0x08;

/// The operating system may use the PCIe capability structure.
pub const PCIE_OSC_CTRL_CAP_STRUCT: u32 = 0x10;

/// All that the platform is willing to hand over.
pub const PCIE_OSC_CTRL_MASK: u32 = PCIE_OSC_CTRL_HOTPLUG + PCIE_OSC_CTRL_PME + PCIE_OSC_CTRL_AER
    + PCIE_OSC_CTRL_CAP_STRUCT;

/// Interface of a PCIe root complex.
pub const OSC_UUID: &'static str = "33DB4D5B-1FF7-401C-9657-7441C03DD766";

/// Interface for labels of devices.
pub const DSM_UUID: &'static str = "E5C937D0-3553-4D7A-9117-EA4D19C3434D";

/// A device slot, with a method that ejects what is in it.
pub open spec fn slot_device(id: u8) -> Seq<AmlOp> {
    seq![
        AmlOp::Device(AmlName::Slot(id)),
        AmlOp::Name(AmlName::Fixed("_SUN")),
        AmlOp::U8(id),
        AmlOp::Close,
        AmlOp::Name(AmlName::Fixed("_ADR")),
        AmlOp::U32((id * 0x1_0000) as u32),
        AmlOp::Close,
        AmlOp::Method { name: AmlName::Fixed("_EJ0"), args: 1, serialized: true },
        AmlOp::MethodCall(AmlName::Fixed("\\_SB_.PHPR.PCEJ")),
        AmlOp::Path(AmlName::Fixed("_SUN")),
        AmlOp::Path(AmlName::Fixed("_SEG")),
        AmlOp::Close,
        AmlOp::Close,
        AmlOp::Close,
    ]
}

fn make_slot_device(id: u8) -> (r: Vec<AmlOp>)
    ensures
        r@ == slot_device(id),
{
    vec![
        AmlOp::Device(AmlName::Slot(id)),
        AmlOp::Name(AmlName::Fixed("_SUN")),
        AmlOp::U8(id),
        AmlOp::Close,
        AmlOp::Name(AmlName::Fixed("_ADR")),
        AmlOp::U32(id as u32 * 0x1_0000),
        AmlOp::Close,
        AmlOp::Method { name: AmlName::Fixed("_EJ0"), args: 1, serialized: true },
        AmlOp::MethodCall(AmlName::Fixed("\\_SB_.PHPR.PCEJ")),
        AmlOp::Path(AmlName::Fixed("_SUN")),
        AmlOp::Path(AmlName::Fixed("_SEG")),
        AmlOp::Close,
        AmlOp::Close,
        AmlOp::Close,
    ]
}

/// The first `n` device slots.
pub open spec fn slot_devices(n: nat) -> Seq<AmlOp>
    decreases n,
{
    if n == 0 {
        Seq::empty()
    } else {
        slot_devices((n - 1) as nat) + slot_device((n - 1) as u8)
    }
}

/// Notifies a slot if its bit is set in the first argument.
pub open spec fn slot_notify(id: u8) -> Seq<AmlOp> {
    seq![
        AmlOp::And,
        AmlOp::Local(0),
        AmlOp::Arg(0),
        AmlOp::U32(1u32 << id as u32),
        AmlOp::Close,
        AmlOp::If,
        AmlOp::Equal,
        AmlOp::Local(0),
        AmlOp::U32(1u32 << id as u32),
        AmlOp::Close,
        AmlOp::Notify,
        AmlOp::Path(AmlName::Slot(id)),
        AmlOp::Arg(1),
        AmlOp::Close,
        AmlOp::Close,
    ]
}

fn make_slot_notify(id: u8) -> (r: Vec<AmlOp>)
    requires
        id < 32,
    ensures
        r@ == slot_notify(id),
{
    let mask: u32 = 1u32 << id as u32;
    vec![
        AmlOp::And,
        AmlOp::Local(0),
        AmlOp::Arg(0),
        AmlOp::U32(mask),
        AmlOp::Close,
        AmlOp::If,
        AmlOp::Equal,
        AmlOp::Local(0),
        AmlOp::U32(mask),
        AmlOp::Close,
        AmlOp::Notify,
        AmlOp::Path(AmlName::Slot(id)),
        AmlOp::Arg(1),
        AmlOp::Close,
        AmlOp::Close,
    ]
}

/// Notifications of the first `n` slots.
pub open spec fn slot_notifies(n: nat) -> Seq<AmlOp>
    decreases n,
{
    if n == 0 {
        Seq::empty()
    } else {
        slot_notifies((n - 1) as nat) + slot_notify((n - 1) as u8)
    }
}

/// The start of the method that notifies slots.
pub open spec fn notify_method() -> Seq<AmlOp> {
    seq![AmlOp::Method { name: AmlName::Fixed("DVNT"), args: 2, serialized: true }]
}

/// The end of the method that notifies slots, and the one that looks which
/// devices came and went.
pub open spec fn scan_method() -> Seq<AmlOp> {
    seq![
        AmlOp::Close,
        AmlOp::Method { name: AmlName::Fixed("PCNT"), args: 0, serialized: true },
        AmlOp::Acquire { mutex: AmlName::Fixed("\\_SB_.PHPR.BLCK"), timeout: 0xffff },
        AmlOp::Store,
        AmlOp::Path(AmlName::Fixed("\\_SB_.PHPR.PSEG")),
        AmlOp::Path(AmlName::Fixed("_SEG")),
        AmlOp::Close,
        AmlOp::MethodCall(AmlName::Fixed("DVNT")),
        AmlOp::Path(AmlName::Fixed("\\_SB_.PHPR.PCIU")),
        AmlOp::One,
        AmlOp::Close,
        AmlOp::MethodCall(AmlName::Fixed("DVNT")),
        AmlOp::Path(AmlName::Fixed("\\_SB_.PHPR.PCID")),
        AmlOp::Word(3),
        AmlOp::Close,
        AmlOp::Release { mutex: AmlName::Fixed("\\_SB_.PHPR.BLCK") },
        AmlOp::Close,
    ]
}

/// The methods behind hot-plug.
pub open spec fn slot_methods() -> Seq<AmlOp> {
    notify_method() + slot_notifies(32) + scan_method()
}

fn make_slot_methods() -> (r: Vec<AmlOp>)
    ensures
        r@ == slot_methods(),
{
    let mut r: Vec<AmlOp> = vec![
        AmlOp::Method { name: AmlName::Fixed("DVNT"), args: 2, serialized: true },
    ];
    assert(r@ =~= notify_method() + slot_notifies(0));
    let mut id: u8 = 0;
    while id < 32
        invariant
            id <= 32,
            r@ == notify_method() + slot_notifies(id as nat),
        decreases 32 - id,
    {
        let mut one: Vec<AmlOp> = make_slot_notify(id);
        r.append(&mut one);
        id = id + 1;
        assert(r@ =~= notify_method() + slot_notifies(id as nat));
    }
    let mut scan: Vec<AmlOp> = vec![
        AmlOp::Close,
        AmlOp::Method { name: AmlName::Fixed("PCNT"), args: 0, serialized: true },
        AmlOp::Acquire { mutex: AmlName::Fixed("\\_SB_.PHPR.BLCK"), timeout: 0xffff },
        AmlOp::Store,
        AmlOp::Path(AmlName::Fixed("\\_SB_.PHPR.PSEG")),
        AmlOp::Path(AmlName::Fixed("_SEG")),
        AmlOp::Close,
        AmlOp::MethodCall(AmlName::Fixed("DVNT")),
        AmlOp::Path(AmlName::Fixed("\\_SB_.PHPR.PCIU")),
        AmlOp::One,
        AmlOp::Close,
        AmlOp::MethodCall(AmlName::Fixed("DVNT")),
        AmlOp::Path(AmlName::Fixed("\\_SB_.PHPR.PCID")),
        AmlOp::Word(3),
        AmlOp::Close,
        AmlOp::Release { mutex: AmlName::Fixed("\\_SB_.PHPR.BLCK") },
        AmlOp::Close,
    ];
    assert(scan@ =~= scan_method());
    r.append(&mut scan);
    r
}

/// The start of the method that hands control over: it applies to one
/// interface only.
pub open spec fn osc_head() -> Seq<AmlOp> {
    seq![
        AmlOp::Method { name: AmlName::Fixed("_OSC"), args: 4, serialized: false },
        AmlOp::CreateDwordField,
        AmlOp::Path(AmlName::Fixed("CDW1")),
        AmlOp::Arg(3),
        AmlOp::U8(0),
        AmlOp::Close,
        AmlOp::If,
        AmlOp::Equal,
        AmlOp::Arg(0),
        AmlOp::Buffer,
    ]
}

/// What the method does for its interface: it keeps what the platform hands
/// over, and flags an unknown revision and a request for more. For another
/// interface it flags that.
pub open spec fn osc_tail() -> Seq<AmlOp> {
    seq![
        AmlOp::Close,
        AmlOp::Close,
        AmlOp::CreateDwordField,
        AmlOp::Path(AmlName::Fixed("CDW2")),
        AmlOp::Arg(3),
        AmlOp::U8(4),
        AmlOp::Close,
        AmlOp::CreateDwordField,
        AmlOp::Path(AmlName::Fixed("CDW3")),
        AmlOp::Arg(3),
        AmlOp::U8(8),
        AmlOp::Close,
        AmlOp::Store,
        AmlOp::Path(AmlName::Fixed("SUPP")),
        AmlOp::Path(AmlName::Fixed("CDW2")),
        AmlOp::Close,
        AmlOp::Store,
        AmlOp::Path(AmlName::Fixed("CTRL")),
        AmlOp::Path(AmlName::Fixed("CDW3")),
        AmlOp::Close,
        AmlOp::And,
        AmlOp::Path(AmlName::Fixed("CTRL")),
        AmlOp::Path(AmlName::Fixed("CTRL")),
        AmlOp::U32(0x1d),
        AmlOp::Close,
        AmlOp::If,
        AmlOp::NotEqual,
        AmlOp::Arg(1),
        AmlOp::One,
        AmlOp::Close,
        AmlOp::Or,
        AmlOp::Path(AmlName::Fixed("CDW1")),
        AmlOp::Path(AmlName::Fixed("CDW1")),
        AmlOp::U32(0x08),
        AmlOp::Close,
        AmlOp::Close,
        AmlOp::If,
        AmlOp::NotEqual,
        AmlOp::Path(AmlName::Fixed("CDW3")),
        AmlOp::Path(AmlName::Fixed("CTRL")),
        AmlOp::Close,
        AmlOp::Or,
        AmlOp::Path(AmlName::Fixed("CDW1")),
        AmlOp::Path(AmlName::Fixed("CDW1")),
        AmlOp::U32(0x10),
        AmlOp::Close,
        AmlOp::Close,
        AmlOp::Store,
        AmlOp::Path(AmlName::Fixed("CDW3")),
        AmlOp::Path(AmlName::Fixed("CTRL")),
        AmlOp::Close,
        AmlOp::Return,
        AmlOp::Arg(3),
        AmlOp::Close,
        AmlOp::Close,
        AmlOp::Or,
        AmlOp::Path(AmlName::Fixed("CDW1")),
        AmlOp::Path(AmlName::Fixed("CDW1")),
        AmlOp::U32(0x04),
        AmlOp::Close,
        AmlOp::Return,
        AmlOp::Arg(3),
        AmlOp::Close,
        AmlOp::Close,
    ]
}

/// The method by which the operating system asks for control.
pub open spec fn osc_method() -> Seq<AmlOp> {
    osc_head() + crate::vmm::aml::raw(
        crate::vmm::aml::mixed_endian(crate::vmm::aml::uuid_bytes(OSC_UUID@)),
    ) + osc_tail()
}

fn make_osc_method() -> (r: Vec<AmlOp>)
    ensures
        r@ == osc_method(),
{
    proof {
        lemma_uuids();
    }
    let uuid: Vec<u8> = uuid_buffer(OSC_UUID);
    let mut r: Vec<AmlOp> = vec![
        AmlOp::Method { name: AmlName::Fixed("_OSC"), args: 4, serialized: false },
        AmlOp::CreateDwordField,
        AmlOp::Path(AmlName::Fixed("CDW1")),
        AmlOp::Arg(3),
        AmlOp::U8(0),
        AmlOp::Close,
        AmlOp::If,
        AmlOp::Equal,
        AmlOp::Arg(0),
        AmlOp::Buffer,
    ];
    assert(r@ =~= osc_head());
    let mut bytes: Vec<AmlOp> = raw_tokens(&uuid);
    r.append(&mut bytes);
    let mut tail: Vec<AmlOp> = vec![
        AmlOp::Close,
        AmlOp::Close,
        AmlOp::CreateDwordField,
        AmlOp::Path(AmlName::Fixed("CDW2")),
        AmlOp::Arg(3),
        AmlOp::U8(4),
        AmlOp::Close,
        AmlOp::CreateDwordField,
        AmlOp::Path(AmlName::Fixed("CDW3")),
        AmlOp::Arg(3),
        AmlOp::U8(8),
        AmlOp::Close,
        AmlOp::Store,
        AmlOp::Path(AmlName::Fixed("SUPP")),
        AmlOp::Path(AmlName::Fixed("CDW2")),
        AmlOp::Close,
        AmlOp::Store,
        AmlOp::Path(AmlName::Fixed("CTRL")),
        AmlOp::Path(AmlName::Fixed("CDW3")),
        AmlOp::Close,
        AmlOp::And,
        AmlOp::Path(AmlName::Fixed("CTRL")),
        AmlOp::Path(AmlName::Fixed("CTRL")),
        AmlOp::U32(PCIE_OSC_CTRL_MASK),
        AmlOp::Close,
        AmlOp::If,
        AmlOp::NotEqual,
        AmlOp::Arg(1),
        AmlOp::One,
        AmlOp::Close,
        AmlOp::Or,
        AmlOp::Path(AmlName::Fixed("CDW1")),
        AmlOp::Path(AmlName::Fixed("CDW1")),
        AmlOp::U32(0x08),
        AmlOp::Close,
        AmlOp::Close,
        AmlOp::If,
        AmlOp::NotEqual,
        AmlOp::Path(AmlName::Fixed("CDW3")),
        AmlOp::Path(AmlName::Fixed("CTRL")),
        AmlOp::Close,
        AmlOp::Or,
        AmlOp::Path(AmlName::Fixed("CDW1")),
        AmlOp::Path(AmlName::Fixed("CDW1")),
        AmlOp::U32(0x10),
        AmlOp::Close,
        AmlOp::Close,
        AmlOp::Store,
        AmlOp::Path(AmlName::Fixed("CDW3")),
        AmlOp::Path(AmlName::Fixed("CTRL")),
        AmlOp::Close,
        AmlOp::Return,
        AmlOp::Arg(3),
        AmlOp::Close,
        AmlOp::Close,
        AmlOp::Or,
        AmlOp::Path(AmlName::Fixed("CDW1")),
        AmlOp::Path(AmlName::Fixed("CDW1")),
        AmlOp::U32(0x04),
        AmlOp::Close,
        AmlOp::Return,
        AmlOp::Arg(3),
        AmlOp::Close,
        AmlOp::Close,
    ];
    assert(tail@ =~= osc_tail());
    r.append(&mut tail);
    r
}

proof fn lemma_uuids()
    ensures
        crate::vmm::aml::is_hyphenated_uuid(OSC_UUID@),
        crate::vmm::aml::is_hyphenated_uuid(DSM_UUID@),
{
    reveal_strlit("33DB4D5B-1FF7-401C-9657-7441C03DD766");
    reveal_strlit("E5C937D0-3553-4D7A-9117-EA4D19C3434D");
}

/// The start of the method that names devices.
pub open spec fn dsm_head() -> Seq<AmlOp> {
    seq![
        AmlOp::Method { name: AmlName::Fixed("_DSM"), args: 4, serialized: false },
        AmlOp::If,
        AmlOp::Equal,
        AmlOp::Arg(0),
        AmlOp::Buffer,
    ]
}

/// What the method answers: which functions there are, and that the boot
/// configuration need not be kept. For another interface there are none.
pub open spec fn dsm_tail() -> Seq<AmlOp> {
    seq![
        AmlOp::Close,
        AmlOp::Close,
        AmlOp::If,
        AmlOp::Equal,
        AmlOp::Arg(2),
        AmlOp::Zero,
        AmlOp::Close,
        AmlOp::Return,
        AmlOp::Buffer,
        AmlOp::Raw(0x21),
        AmlOp::Close,
        AmlOp::Close,
        AmlOp::Close,
        AmlOp::If,
        AmlOp::Equal,
        AmlOp::Arg(2),
        AmlOp::U8(0x05),
        AmlOp::Close,
        AmlOp::Return,
        AmlOp::Zero,
        AmlOp::Close,
        AmlOp::Close,
        AmlOp::Close,
        AmlOp::Return,
        AmlOp::Buffer,
        AmlOp::Raw(0),
        AmlOp::Close,
        AmlOp::Close,
        AmlOp::Close,
    ]
}

/// The method that is specific to the device.
pub open spec fn dsm_method() -> Seq<AmlOp> {
    dsm_head() + crate::vmm::aml::raw(
        crate::vmm::aml::mixed_endian(crate::vmm::aml::uuid_bytes(DSM_UUID@)),
    ) + dsm_tail()
}

fn make_dsm_method() -> (r: Vec<AmlOp>)
    ensures
        r@ == dsm_method(),
{
    proof {
        lemma_uuids();
    }
    let uuid: Vec<u8> = uuid_buffer(DSM_UUID);
    let mut r: Vec<AmlOp> = vec![
        AmlOp::Method { name: AmlName::Fixed("_DSM"), args: 4, serialized: false },
        AmlOp::If,
        AmlOp::Equal,
        AmlOp::Arg(0),
        AmlOp::Buffer,
    ];
    assert(r@ =~= dsm_head());
    let mut bytes: Vec<AmlOp> = raw_tokens(&uuid);
    r.append(&mut bytes);
    let mut tail: Vec<AmlOp> = vec![
        AmlOp::Close,
        AmlOp::Close,
        AmlOp::If,
        AmlOp::Equal,
        AmlOp::Arg(2),
        AmlOp::Zero,
        AmlOp::Close,
        AmlOp::Return,
        AmlOp::Buffer,
        AmlOp::Raw(0x21),
        AmlOp::Close,
        AmlOp::Close,
        AmlOp::Close,
        AmlOp::If,
        AmlOp::Equal,
        AmlOp::Arg(2),
        AmlOp::U8(0x05),
        AmlOp::Close,
        AmlOp::Return,
        AmlOp::Zero,
        AmlOp::Close,
        AmlOp::Close,
        AmlOp::Close,
        AmlOp::Return,
        AmlOp::Buffer,
        AmlOp::Raw(0),
        AmlOp::Close,
        AmlOp::Close,
        AmlOp::Close,
    ];
    assert(tail@ =~= dsm_tail());
    r.append(&mut tail);
    r
}

/// An interrupt link on one line, which is level-triggered, active-low and
/// shared. The route is fixed: setting it has no effect.
pub open spec fn link_device(name: &'static str, irq: u32) -> Seq<AmlOp> {
    seq![
        AmlOp::Device(AmlName::Fixed(name)),
        AmlOp::Name(AmlName::Fixed("_HID")),
        AmlOp::EisaName("PNP0C0F"),
        AmlOp::Close,
        AmlOp::Name(AmlName::Fixed("_UID")),
        AmlOp::U32(irq),
        AmlOp::Close,
        AmlOp::Name(AmlName::Fixed("_STA")),
        AmlOp::U8(0x0b),
        AmlOp::Close,
        AmlOp::Name(AmlName::Fixed("_PRS")),
        AmlOp::ResourceTemplate,
        AmlOp::Interrupt { consumer: true, edge_triggered: false, active_low: true, shared: true, number: irq },
        AmlOp::Close,
        AmlOp::Close,
        AmlOp::Name(AmlName::Fixed("_CRS")),
        AmlOp::ResourceTemplate,
        AmlOp::Interrupt { consumer: true, edge_triggered: false, active_low: true, shared: true, number: irq },
        AmlOp::Close,
        AmlOp::Close,
        AmlOp::Method { name: AmlName::Fixed("_SRS"), args: 1, serialized: false },
        AmlOp::Close,
        AmlOp::Method { name: AmlName::Fixed("_DIS"), args: 0, serialized: false },
        AmlOp::Store,
        AmlOp::Path(AmlName::Fixed("_STA")),
        AmlOp::U8(0x09),
        AmlOp::Close,
        AmlOp::Close,
        AmlOp::Close,
    ]
}

fn make_link_device(name: &'static str, irq: u32) -> (r: Vec<AmlOp>)
    ensures
        r@ == link_device(name, irq),
{
    vec![
        AmlOp::Device(AmlName::Fixed(name)),
        AmlOp::Name(AmlName::Fixed("_HID")),
        AmlOp::EisaName("PNP0C0F"),
        AmlOp::Close,
        AmlOp::Name(AmlName::Fixed("_UID")),
        AmlOp::U32(irq),
        AmlOp::Close,
        AmlOp::Name(AmlName::Fixed("_STA")),
        AmlOp::U8(0x0b),
        AmlOp::Close,
        AmlOp::Name(AmlName::Fixed("_PRS")),
        AmlOp::ResourceTemplate,
        AmlOp::Interrupt { consumer: true, edge_triggered: false, active_low: true, shared: true, number: irq },
        AmlOp::Close,
        AmlOp::Close,
        AmlOp::Name(AmlName::Fixed("_CRS")),
        AmlOp::ResourceTemplate,
        AmlOp::Interrupt { consumer: true, edge_triggered: false, active_low: true, shared: true, number: irq },
        AmlOp::Close,
        AmlOp::Close,
        AmlOp::Method { name: AmlName::Fixed("_SRS"), args: 1, serialized: false },
        AmlOp::Close,
        AmlOp::Method { name: AmlName::Fixed("_DIS"), args: 0, serialized: false },
        AmlOp::Store,
        AmlOp::Path(AmlName::Fixed("_STA")),
        AmlOp::U8(0x09),
        AmlOp::Close,
        AmlOp::Close,
        AmlOp::Close,
    ]
}

/// Name of the link that number `i` falls on.
pub open spec fn link_name(i: int) -> &'static str {
    if i % 4 == 0 {
        "LNKA"
    } else if i % 4 == 1 {
        "LNKB"
    } else if i % 4 == 2 {
        "LNKC"
    } else {
        "LNKD"
    }
}

fn make_link_name(i: u32) -> (r: &'static str)
    ensures
        r == link_name(i as int),
{
    if i % 4 == 0 {
        "LNKA"
    } else if i % 4 == 1 {
        "LNKB"
    } else if i % 4 == 2 {
        "LNKC"
    } else {
        "LNKD"
    }
}

/// The four links, on the lines of the first four slots.
pub open spec fn link_devices(irqs: Seq<u8>) -> Seq<AmlOp> {
    link_device("LNKA", irqs[0] as u32) + link_device("LNKB", irqs[1] as u32) + link_device(
        "LNKC",
        irqs[2] as u32,
    ) + link_device("LNKD", irqs[3] as u32)
}

fn make_link_devices(irqs: &[u8; 32]) -> (r: Vec<AmlOp>)
    ensures
        r@ == link_devices(irqs@),
{
    let mut r: Vec<AmlOp> = make_link_device("LNKA", irqs[0] as u32);
    let mut b: Vec<AmlOp> = make_link_device("LNKB", irqs[1] as u32);
    let mut c: Vec<AmlOp> = make_link_device("LNKC", irqs[2] as u32);
    let mut d: Vec<AmlOp> = make_link_device("LNKD", irqs[3] as u32);
    r.append(&mut b);
    r.append(&mut c);
    r.append(&mut d);
    r
}

/// Route of one pin of a device: pin `P` of device `N` falls on link
/// `(N + P) % 4`.
pub open spec fn route(device: int, pin: int) -> Seq<AmlOp> {
    seq![
        AmlOp::Package,
        AmlOp::U32((device * 0x1_0000 + 0xffff) as u32),
        AmlOp::U32(pin as u32),
        AmlOp::Path(AmlName::Fixed(link_name(device + pin))),
        AmlOp::U32(0),
        AmlOp::Close,
    ]
}

fn make_route(device: u32, pin: u32) -> (r: Vec<AmlOp>)
    requires
        device < 32,
        pin < 4,
    ensures
        r@ == route(device as int, pin as int),
{
    let link: &'static str = make_link_name(device + pin);
    vec![
        AmlOp::Package,
        AmlOp::U32(device * 0x1_0000 + 0xffff),
        AmlOp::U32(pin),
        AmlOp::Path(AmlName::Fixed(link)),
        AmlOp::U32(0),
        AmlOp::Close,
    ]
}

/// Routes of the first `n` pins, four to a device.
pub open spec fn routes(n: nat) -> Seq<AmlOp>
    decreases n,
{
    if n == 0 {
        Seq::empty()
    } else {
        routes((n - 1) as nat) + route((n - 1) / 4, (n - 1) % 4)
    }
}

/// The start of the routing table.
pub open spec fn routing_head() -> Seq<AmlOp> {
    seq![AmlOp::Name(AmlName::Fixed("_PRT")), AmlOp::Package]
}

/// The routing table: 32 devices with four pins each.
pub open spec fn routing_table() -> Seq<AmlOp> {
    routing_head() + routes(128) + seq![AmlOp::Close, AmlOp::Close]
}

fn make_routing_table() -> (r: Vec<AmlOp>)
    ensures
        r@ == routing_table(),
{
    let mut r: Vec<AmlOp> = vec![AmlOp::Name(AmlName::Fixed("_PRT")), AmlOp::Package];
    assert(r@ =~= routing_head() + routes(0));
    let mut device: u32 = 0;
    while device < 32
        invariant
            device <= 32,
            r@ == routing_head() + routes((4 * device) as nat),
        decreases 32 - device,
    {
        let mut pin: u32 = 0;
        while pin < 4
            invariant
                device < 32,
                pin <= 4,
                r@ == routing_head() + routes((4 * device + pin) as nat),
            decreases 4 - pin,
        {
            let mut one: Vec<AmlOp> = make_route(device, pin);
            r.append(&mut one);
            pin = pin + 1;
            assert((4 * device + pin - 1) / 4 == device);
            assert(r@ =~= routing_head() + routes((4 * device + pin) as nat));
        }
        device = device + 1;
    }
    let mut end: Vec<AmlOp> = vec![AmlOp::Close, AmlOp::Close];
    assert(end@ =~= seq![AmlOp::Close, AmlOp::Close]);
    r.append(&mut end);
    r
}

/// What identifies the bridge, what its control method keeps, and which
/// proximity domain it is in.
pub open spec fn bridge_objects(id: u16, proximity_domain: u32) -> Seq<AmlOp> {
    seq![
        AmlOp::Name(AmlName::Fixed("_HID")),
        AmlOp::EisaName("PNP0A08"),
        AmlOp::Close,
        AmlOp::Name(AmlName::Fixed("_CID")),
        AmlOp::EisaName("PNP0A03"),
        AmlOp::Close,
        AmlOp::Name(AmlName::Fixed("_ADR")),
        AmlOp::Zero,
        AmlOp::Close,
        AmlOp::Name(AmlName::Fixed("_SEG")),
        AmlOp::U16(id),
        AmlOp::Close,
        AmlOp::Name(AmlName::Fixed("_UID")),
        AmlOp::U16(id),
        AmlOp::Close,
        AmlOp::Name(AmlName::Fixed("_CCA")),
        AmlOp::One,
        AmlOp::Close,
        AmlOp::Name(AmlName::Fixed("SUPP")),
        AmlOp::Zero,
        AmlOp::Close,
        AmlOp::Name(AmlName::Fixed("CTRL")),
        AmlOp::Zero,
        AmlOp::Close,
        AmlOp::Method { name: AmlName::Fixed("_PXM"), args: 0, serialized: false },
        AmlOp::Return,
        AmlOp::U32(proximity_domain),
        AmlOp::Close,
        AmlOp::Close,
    ]
}

fn make_bridge_objects(id: u16, proximity_domain: u32) -> (r: Vec<AmlOp>)
    ensures
        r@ == bridge_objects(id, proximity_domain),
{
    vec![
        AmlOp::Name(AmlName::Fixed("_HID")),
        AmlOp::EisaName("PNP0A08"),
        AmlOp::Close,
        AmlOp::Name(AmlName::Fixed("_CID")),
        AmlOp::EisaName("PNP0A03"),
        AmlOp::Close,
        AmlOp::Name(AmlName::Fixed("_ADR")),
        AmlOp::Zero,
        AmlOp::Close,
        AmlOp::Name(AmlName::Fixed("_SEG")),
        AmlOp::U16(id),
        AmlOp::Close,
        AmlOp::Name(AmlName::Fixed("_UID")),
        AmlOp::U16(id),
        AmlOp::Close,
        AmlOp::Name(AmlName::Fixed("_CCA")),
        AmlOp::One,
        AmlOp::Close,
        AmlOp::Name(AmlName::Fixed("SUPP")),
        AmlOp::Zero,
        AmlOp::Close,
        AmlOp::Name(AmlName::Fixed("CTRL")),
        AmlOp::Zero,
        AmlOp::Close,
        AmlOp::Method { name: AmlName::Fixed("_PXM"), args: 0, serialized: false },
        AmlOp::Return,
        AmlOp::U32(proximity_domain),
        AmlOp::Close,
        AmlOp::Close,
    ]
}

/// Resources that the bridge hands down. Only the first segment has ports.
pub open spec fn resources(id: u16, config: u64, mem32: (u64, u64), mem64: (u64, u64)) -> Seq<
    AmlOp,
> {
    if id == 0 {
        seq![
            AmlOp::Name(AmlName::Fixed("_CRS")),
            AmlOp::ResourceTemplate,
            AmlOp::BusNumber { min: 0, max: 0 },
            AmlOp::Io { min: 0xcf8, max: 0xcf8, alignment: 1, length: 8 },
            AmlOp::Memory32Fixed { read_write: true, base: (config % 0x1_0000_0000) as u32, length: 0x10_0000 },
            AmlOp::Memory { read_write: true, min: mem32.0, max: mem32.1 },
            AmlOp::Memory { read_write: true, min: mem64.0, max: mem64.1 },
            AmlOp::IoRange { min: 0, max: 0x0cf7 },
            AmlOp::IoRange { min: 0x0d00, max: 0xffff },
            AmlOp::Close,
            AmlOp::Close,
        ]
    } else {
        seq![
            AmlOp::Name(AmlName::Fixed("_CRS")),
            AmlOp::ResourceTemplate,
            AmlOp::BusNumber { min: 0, max: 0 },
            AmlOp::Memory32Fixed { read_write: true, base: (config % 0x1_0000_0000) as u32, length: 0x10_0000 },
            AmlOp::Memory { read_write: true, min: mem32.0, max: mem32.1 },
            AmlOp::Memory { read_write: true, min: mem64.0, max: mem64.1 },
            AmlOp::Close,
            AmlOp::Close,
        ]
    }
}

fn make_resources(id: u16, config: u64, mem32: (u64, u64), mem64: (u64, u64)) -> (r: Vec<AmlOp>)
    ensures
        r@ == resources(id, config, mem32, mem64),
{
    if id == 0 {
        vec![
            AmlOp::Name(AmlName::Fixed("_CRS")),
            AmlOp::ResourceTemplate,
            AmlOp::BusNumber { min: 0, max: 0 },
            AmlOp::Io { min: 0xcf8, max: 0xcf8, alignment: 1, length: 8 },
            AmlOp::Memory32Fixed { read_write: true, base: (config % 0x1_0000_0000) as u32, length: PCI_MMIO_CONFIG_SIZE_PER_SEGMENT as u32 },
            AmlOp::Memory { read_write: true, min: mem32.0, max: mem32.1 },
            AmlOp::Memory { read_write: true, min: mem64.0, max: mem64.1 },
            AmlOp::IoRange { min: 0, max: 0x0cf7 },
            AmlOp::IoRange { min: 0x0d00, max: 0xffff },
            AmlOp::Close,
            AmlOp::Close,
        ]
    } else {
        vec![
            AmlOp::Name(AmlName::Fixed("_CRS")),
            AmlOp::ResourceTemplate,
            AmlOp::BusNumber { min: 0, max: 0 },
            AmlOp::Memory32Fixed { read_write: true, base: (config % 0x1_0000_0000) as u32, length: PCI_MMIO_CONFIG_SIZE_PER_SEGMENT as u32 },
            AmlOp::Memory { read_write: true, min: mem32.0, max: mem32.1 },
            AmlOp::Memory { read_write: true, min: mem64.0, max: mem64.1 },
            AmlOp::Close,
            AmlOp::Close,
        ]
    }
}

/// Name of a segment.
pub open spec fn segment_name(id: u16) -> AmlName {
    if id == 0 {
        AmlName::Fixed("_SB_.PCI0")
    } else {
        AmlName::Segment(id as u8)
    }
}

/// What a description depends on.
#[derive(Clone, Copy, Debug)]
pub struct SegmentLayout {
    pub id: u16,
    pub proximity_domain: u32,
    /// Start of memory-mapped configuration space.
    pub config: u64,
    /// First and last address of the memory below 4 GiB.
    pub mem32: (u64, u64),
    /// First and last address of the memory above.
    pub mem64: (u64, u64),
    /// Interrupt line of each device.
    pub irqs: [u8; 32],
}

/// Description of a segment: the bridge, its methods and resources, the 32
/// slots, the interrupt links and the routing table.
pub open spec fn segment_aml(s: SegmentLayout) -> Seq<AmlOp> {
    seq![AmlOp::Device(segment_name(s.id))] + bridge_objects(s.id, s.proximity_domain)
        + osc_method() + dsm_method() + resources(s.id, s.config, s.mem32, s.mem64) + slot_devices(
        32,
    ) + slot_methods() + link_devices(s.irqs@) + routing_table() + seq![AmlOp::Close]
}

/// Describes a segment. Its number has to fit the two digits of its name.
pub fn make_segment_aml(s: &SegmentLayout) -> (r: Vec<AmlOp>)
    requires
        s.id <= 0xff,
    ensures
        r@ == segment_aml(*s),
{
    let name: AmlName = if s.id == 0 {
        AmlName::Fixed("_SB_.PCI0")
    } else {
        AmlName::Segment(s.id as u8)
    };
    let mut r: Vec<AmlOp> = vec![AmlOp::Device(name)];
    assert(r@ =~= seq![AmlOp::Device(segment_name(s.id))]);
    let mut part: Vec<AmlOp> = make_bridge_objects(s.id, s.proximity_domain);
    r.append(&mut part);
    let mut part: Vec<AmlOp> = make_osc_method();
    r.append(&mut part);
    let mut part: Vec<AmlOp> = make_dsm_method();
    r.append(&mut part);
    let mut part: Vec<AmlOp> = make_resources(s.id, s.config, s.mem32, s.mem64);
    r.append(&mut part);
    let mut part: Vec<AmlOp> = make_slot_devices();
    r.append(&mut part);
    let mut part: Vec<AmlOp> = make_slot_methods();
    r.append(&mut part);
    let mut part: Vec<AmlOp> = make_link_devices(&s.irqs);
    r.append(&mut part);
    let mut part: Vec<AmlOp> = make_routing_table();
    r.append(&mut part);
    r.push(AmlOp::Close);
    assert(r@ =~= segment_aml(*s));
    r
}

fn make_slot_devices() -> (r: Vec<AmlOp>)
    ensures
        r@ == slot_devices(32),
{
    let mut r: Vec<AmlOp> = Vec::new();
    let mut id: u8 = 0;
    while id < 32
        invariant
            id <= 32,
            r@ == slot_devices(id as nat),
        decreases 32 - id,
    {
        let mut one: Vec<AmlOp> = make_slot_device(id);
        r.append(&mut one);
        id = id + 1;
    }
    r
}

/// The routing table holds the route of every pin of every device, and
/// nothing else: the route of pin `P` of device `N` is at its own place.
pub proof fn every_pin_is_routed(device: int, pin: int)
    requires
        0 <= device < 32,
        0 <= pin < 4,
    ensures
        routing_table().len() == 2 + 6 * 128 + 2,
        routing_table().subrange(
            2 + 6 * (4 * device + pin),
            2 + 6 * (4 * device + pin) + 6,
        ) == route(device, pin),
{
    lemma_routes(128, 4 * device + pin);
    assert((4 * device + pin) / 4 == device);
    assert((4 * device + pin) % 4 == pin);
    let at = 6 * (4 * device + pin);
    assert(routing_table().subrange(2 + at, 2 + at + 6) =~= routes(128).subrange(at, at + 6));
}

proof fn lemma_routes(n: nat, k: int)
    requires
        0 <= k < n,
    ensures
        routes(n).len() == 6 * n,
        routes(n).subrange(6 * k, 6 * k + 6) == route(k / 4, k % 4),
    decreases n,
{
    let last = route((n - 1) / 4, (n - 1) % 4);
    if n == 1 {
        assert(routes(0).len() == 0);
        assert(routes(1).subrange(0, 6) =~= last);
    } else {
        let m = (n - 1) as nat;
        lemma_routes(m, if k < m {
            k
        } else {
            0
        });
        if k < m {
            assert(routes(n).subrange(6 * k, 6 * k + 6) =~= routes(m).subrange(6 * k, 6 * k + 6));
        } else {
            assert(routes(n).subrange(6 * k, 6 * k + 6) =~= last);
        }
    }
}

/// The pins of one device fall on four different links.
pub proof fn pins_rotate_over_the_links(device: int, pin: int, other: int)
    requires
        0 <= device,
        0 <= pin < 4,
        0 <= other < 4,
        pin != other,
    ensures
        link_name(device + pin)@ != link_name(device + other)@,
{
    reveal_strlit("LNKA");
    reveal_strlit("LNKB");
    reveal_strlit("LNKC");
    reveal_strlit("LNKD");
    assert((device + pin) % 4 != (device + other) % 4);
    assert(link_name(device + pin)@[3] != link_name(device + other)@[3]);
}

#[verifier::rlimit(50)]
proof fn lemma_osc_tail_nests()
    ensures
        crate::vmm::aml::nesting(osc_tail(), 0, 5) == 1,
{
    reveal_with_fuel(crate::vmm::aml::nesting, 66);
}

proof fn lemma_osc_nests()
    ensures
        crate::vmm::aml::nesting(osc_method(), 0, 1) == 1,
{
    let id = crate::vmm::aml::mixed_endian(crate::vmm::aml::uuid_bytes(OSC_UUID@));
    assert(crate::vmm::aml::nesting(osc_head(), 0, 1) == 5) by {
        reveal_with_fuel(crate::vmm::aml::nesting, 12);
    }
    lemma_osc_tail_nests();
    crate::vmm::aml::raw_is_flat(id, 0, 5);
    crate::vmm::aml::nesting_adds(osc_head(), crate::vmm::aml::raw(id), 1);
    crate::vmm::aml::nesting_adds(osc_head() + crate::vmm::aml::raw(id), osc_tail(), 1);
}

#[verifier::rlimit(30)]
proof fn lemma_dsm_nests()
    ensures
        crate::vmm::aml::nesting(dsm_method(), 0, 1) == 1,
{
    let id = crate::vmm::aml::mixed_endian(crate::vmm::aml::uuid_bytes(DSM_UUID@));
    assert(crate::vmm::aml::nesting(dsm_head(), 0, 1) == 5) by {
        reveal_with_fuel(crate::vmm::aml::nesting, 8);
    }
    assert(crate::vmm::aml::nesting(dsm_tail(), 0, 5) == 1) by {
        reveal_with_fuel(crate::vmm::aml::nesting, 32);
    }
    crate::vmm::aml::raw_is_flat(id, 0, 5);
    crate::vmm::aml::nesting_adds(dsm_head(), crate::vmm::aml::raw(id), 1);
    crate::vmm::aml::nesting_adds(dsm_head() + crate::vmm::aml::raw(id), dsm_tail(), 1);
}

proof fn lemma_slot_methods_nest()
    ensures
        crate::vmm::aml::nesting(slot_methods(), 0, 1) == 1,
{
    assert(crate::vmm::aml::nesting(notify_method(), 0, 1) == 2) by {
        reveal_with_fuel(crate::vmm::aml::nesting, 3);
    }
    assert(crate::vmm::aml::nesting(scan_method(), 0, 2) == 1) by {
        reveal_with_fuel(crate::vmm::aml::nesting, 20);
    }
    lemma_notifies_nest(32);
    crate::vmm::aml::nesting_adds(notify_method(), slot_notifies(32), 1);
    crate::vmm::aml::nesting_adds(notify_method() + slot_notifies(32), scan_method(), 1);
}

proof fn lemma_notifies_nest(n: nat)
    ensures
        crate::vmm::aml::nesting(slot_notifies(n), 0, 2) == 2,
    decreases n,
{
    if n > 0 {
        let id = (n - 1) as u8;
        lemma_notifies_nest((n - 1) as nat);
        assert(crate::vmm::aml::nesting(slot_notify(id), 0, 2) == 2) by {
            reveal_with_fuel(crate::vmm::aml::nesting, 17);
        }
        crate::vmm::aml::nesting_adds(slot_notifies((n - 1) as nat), slot_notify(id), 2);
    }
}

proof fn lemma_slots_nest(n: nat)
    ensures
        crate::vmm::aml::nesting(slot_devices(n), 0, 1) == 1,
    decreases n,
{
    if n > 0 {
        let id = (n - 1) as u8;
        lemma_slots_nest((n - 1) as nat);
        assert(crate::vmm::aml::nesting(slot_device(id), 0, 1) == 1) by {
            reveal_with_fuel(crate::vmm::aml::nesting, 16);
        }
        crate::vmm::aml::nesting_adds(slot_devices((n - 1) as nat), slot_device(id), 1);
    }
}

proof fn lemma_links_nest(irqs: Seq<u8>)
    ensures
        crate::vmm::aml::nesting(link_devices(irqs), 0, 1) == 1,
{
    let a = link_device("LNKA", irqs[0] as u32);
    let b = link_device("LNKB", irqs[1] as u32);
    let c = link_device("LNKC", irqs[2] as u32);
    let d = link_device("LNKD", irqs[3] as u32);
    lemma_link_nests("LNKA", irqs[0] as u32);
    lemma_link_nests("LNKB", irqs[1] as u32);
    lemma_link_nests("LNKC", irqs[2] as u32);
    lemma_link_nests("LNKD", irqs[3] as u32);
    crate::vmm::aml::nesting_adds(a, b, 1);
    crate::vmm::aml::nesting_adds(a + b, c, 1);
    crate::vmm::aml::nesting_adds(a + b + c, d, 1);
}

proof fn lemma_link_nests(name: &'static str, irq: u32)
    ensures
        crate::vmm::aml::nesting(link_device(name, irq), 0, 1) == 1,
{
    reveal_with_fuel(crate::vmm::aml::nesting, 32);
}

proof fn lemma_routing_nests()
    ensures
        crate::vmm::aml::nesting(routing_table(), 0, 1) == 1,
{
    let z = seq![AmlOp::Close, AmlOp::Close];
    assert(crate::vmm::aml::nesting(routing_head(), 0, 1) == 3) by {
        reveal_with_fuel(crate::vmm::aml::nesting, 4);
    }
    assert(crate::vmm::aml::nesting(z, 0, 3) == 1) by {
        reveal_with_fuel(crate::vmm::aml::nesting, 4);
    }
    lemma_routes_nest(128);
    crate::vmm::aml::nesting_adds(routing_head(), routes(128), 1);
    crate::vmm::aml::nesting_adds(routing_head() + routes(128), z, 1);
}

proof fn lemma_routes_nest(n: nat)
    ensures
        crate::vmm::aml::nesting(routes(n), 0, 3) == 3,
    decreases n,
{
    if n > 0 {
        let last = route((n - 1) / 4, (n - 1) % 4);
        lemma_routes_nest((n - 1) as nat);
        assert(crate::vmm::aml::nesting(last, 0, 3) == 3) by {
            reveal_with_fuel(crate::vmm::aml::nesting, 8);
        }
        crate::vmm::aml::nesting_adds(routes((n - 1) as nat), last, 3);
    }
}

/// A description is well nested: every token with parts is closed, in turn,
/// and nothing else is.
pub proof fn description_is_well_nested(s: SegmentLayout)
    ensures
        crate::vmm::aml::nesting(segment_aml(s), 0, 0) == 0,
{
    let a = seq![AmlOp::Device(segment_name(s.id))];
    let b = bridge_objects(s.id, s.proximity_domain);
    let e = resources(s.id, s.config, s.mem32, s.mem64);
    let z = seq![AmlOp::Close];
    assert(crate::vmm::aml::nesting(a, 0, 0) == 1) by {
        reveal_with_fuel(crate::vmm::aml::nesting, 3);
    }
    assert(crate::vmm::aml::nesting(b, 0, 1) == 1) by {
        reveal_with_fuel(crate::vmm::aml::nesting, 31);
    }
    assert(crate::vmm::aml::nesting(e, 0, 1) == 1) by {
        reveal_with_fuel(crate::vmm::aml::nesting, 13);
    }
    assert(crate::vmm::aml::nesting(z, 0, 1) == 0) by {
        reveal_with_fuel(crate::vmm::aml::nesting, 3);
    }
    lemma_osc_nests();
    lemma_dsm_nests();
    lemma_slot_methods_nest();
    lemma_slots_nest(32);
    lemma_links_nest(s.irqs@);
    lemma_routing_nests();
    let ab = a + b;
    let abc = ab + osc_method();
    let abcd = abc + dsm_method();
    let abcde = abcd + e;
    let f = abcde + slot_devices(32);
    let g = f + slot_methods();
    let h = g + link_devices(s.irqs@);
    let i = h + routing_table();
    crate::vmm::aml::nesting_adds(a, b, 0);
    crate::vmm::aml::nesting_adds(ab, osc_method(), 0);
    crate::vmm::aml::nesting_adds(abc, dsm_method(), 0);
    crate::vmm::aml::nesting_adds(abcd, e, 0);
    crate::vmm::aml::nesting_adds(abcde, slot_devices(32), 0);
    crate::vmm::aml::nesting_adds(f, slot_methods(), 0);
    crate::vmm::aml::nesting_adds(g, link_devices(s.irqs@), 0);
    crate::vmm::aml::nesting_adds(h, routing_table(), 0);
    crate::vmm::aml::nesting_adds(i, z, 0);
}

/// Whether a port is among those that a list of resources hands down.
pub open spec fn has_port(list: Seq<AmlOp>, x: int) -> bool {
    exists|i: int| 0 <= i < list.len() && port_in(#[trigger] list[i], x)
}

/// Whether a port is in a resource.
pub open spec fn port_in(op: AmlOp, x: int) -> bool {
    match op {
        AmlOp::Io { min, length, .. } => min <= x < min + length,
        AmlOp::IoRange { min, max } => min <= x <= max,
        _ => false,
    }
}

/// Whether an address is in memory that a list of resources hands down.
pub open spec fn has_memory(list: Seq<AmlOp>, x: int) -> bool {
    exists|i: int| 0 <= i < list.len() && memory_in(#[trigger] list[i], x)
}

/// Whether an address is in a range of memory for devices.
pub open spec fn memory_in(op: AmlOp, x: int) -> bool {
    match op {
        AmlOp::Memory { read_write, min, max } => read_write && min <= x <= max,
        _ => false,
    }
}

/// Whether an address is where a list of resources puts configuration space.
pub open spec fn has_config(list: Seq<AmlOp>, x: int) -> bool {
    exists|i: int| 0 <= i < list.len() && config_in(#[trigger] list[i], x)
}

/// Whether an address is in a fixed range of memory.
pub open spec fn config_in(op: AmlOp, x: int) -> bool {
    match op {
        AmlOp::Memory32Fixed { base, length, .. } => base <= x < base + length,
        _ => false,
    }
}

/// The guest is told of exactly the memory that the segment has for devices, and
/// of a configuration space of 1 MiB where it is. The first segment has all ports,
/// the others none.
pub proof fn resources_are_those_of_the_segment(
    id: u16,
    config: u64,
    mem32: (u64, u64),
    mem64: (u64, u64),
    x: int,
)
    requires
        config < 0x1_0000_0000,
    ensures
        ({
            let list = resources(id, config, mem32, mem64);
            &&& has_port(list, x) <==> id == 0 && 0 <= x <= 0xffff
            &&& has_memory(list, x) <==> mem32.0 <= x <= mem32.1 || mem64.0 <= x <= mem64.1
            &&& has_config(list, x) <==> config <= x < config + 0x10_0000
        }),
{
    let list = resources(id, config, mem32, mem64);
    if id == 0 {
        assert(port_in(list[3], x) <==> 0xcf8 <= x < 0xd00);
        assert(port_in(list[7], x) <==> 0 <= x <= 0xcf7);
        assert(port_in(list[8], x) <==> 0xd00 <= x <= 0xffff);
        assert(config_in(list[4], x) <==> config <= x < config + 0x10_0000);
        assert(memory_in(list[5], x) <==> mem32.0 <= x <= mem32.1);
        assert(memory_in(list[6], x) <==> mem64.0 <= x <= mem64.1);
    } else {
        assert(config_in(list[3], x) <==> config <= x < config + 0x10_0000);
        assert(memory_in(list[4], x) <==> mem32.0 <= x <= mem32.1);
        assert(memory_in(list[5], x) <==> mem64.0 <= x <= mem64.1);
    }
}

/// Each slot is described at its own place: it has its own name, its number is
/// that of the slot, and its address has the device number in its upper half.
/// Ejecting it names that number and the segment.
pub proof fn slots_are_described(k: int)
    requires
        0 <= k < 32,
    ensures
        ({
            let s = slot_devices(32).subrange(14 * k, 14 * k + 14);
            &&& slot_devices(32).len() == 14 * 32
            &&& s[0] == AmlOp::Device(AmlName::Slot(k as u8))
            &&& s[1] == AmlOp::Name(AmlName::Fixed("_SUN")) && s[2] == AmlOp::U8(k as u8)
            &&& s[4] == AmlOp::Name(AmlName::Fixed("_ADR")) && s[5] == AmlOp::U32(
                (0x1_0000 * k) as u32,
            )
            &&& s[8] == AmlOp::MethodCall(AmlName::Fixed("\\_SB_.PHPR.PCEJ"))
            &&& s[9] == AmlOp::Path(AmlName::Fixed("_SUN"))
            &&& s[10] == AmlOp::Path(AmlName::Fixed("_SEG"))
        }),
{
    lemma_slots(32, k);
}

proof fn lemma_slots(n: nat, k: int)
    requires
        0 <= k < n <= 32,
    ensures
        slot_devices(n).len() == 14 * n,
        slot_devices(n).subrange(14 * k, 14 * k + 14) == slot_device(k as u8),
    decreases n,
{
    let last = slot_device((n - 1) as u8);
    if n == 1 {
        assert(slot_devices(0).len() == 0);
        assert(slot_devices(1).subrange(0, 14) =~= last);
    } else {
        let m = (n - 1) as nat;
        lemma_slots(m, if k < m {
            k
        } else {
            0
        });
        let at = 14 * k;
        if k < m {
            assert(slot_devices(n).subrange(at, at + 14) =~= slot_devices(m).subrange(at, at + 14));
        } else {
            assert(slot_devices(n).subrange(at, at + 14) =~= last);
        }
    }
}

/// Each slot is notified by its own bit: slot `k` by the bit that stands for two
/// to the power of `k`, with what the second argument says.
pub proof fn slots_are_notified_by_their_bit(k: int)
    requires
        0 <= k < 32,
    ensures
        ({
            let s = slot_notifies(32).subrange(15 * k, 15 * k + 15);
            &&& slot_notifies(32).len() == 15 * 32
            &&& s[0] == AmlOp::And && s[2] == AmlOp::Arg(0)
            &&& s[3] matches AmlOp::U32(mask) && mask == vstd::arithmetic::power2::pow2(k as nat)
            &&& s[5] == AmlOp::If && s[6] == AmlOp::Equal && s[7] == s[1] && s[8] == s[3]
            &&& s[10] == AmlOp::Notify && s[11] == AmlOp::Path(AmlName::Slot(k as u8))
            &&& s[12] == AmlOp::Arg(1)
        }),
{
    lemma_notifies(32, k);
    vstd::arithmetic::power2::lemma_pow2_strictly_increases(k as nat, 32);
    vstd::arithmetic::power2::lemma2_to64();
    vstd::bits::lemma_u32_shl_is_mul(1, k as u32);
}

proof fn lemma_notifies(n: nat, k: int)
    requires
        0 <= k < n <= 32,
    ensures
        slot_notifies(n).len() == 15 * n,
        slot_notifies(n).subrange(15 * k, 15 * k + 15) == slot_notify(k as u8),
    decreases n,
{
    let last = slot_notify((n - 1) as u8);
    if n == 1 {
        assert(slot_notifies(0).len() == 0);
        assert(slot_notifies(1).subrange(0, 15) =~= last);
    } else {
        let m = (n - 1) as nat;
        lemma_notifies(m, if k < m {
            k
        } else {
            0
        });
        let at = 15 * k;
        if k < m {
            assert(slot_notifies(n).subrange(at, at + 15) =~= slot_notifies(m).subrange(at, at + 15));
        } else {
            assert(slot_notifies(n).subrange(at, at + 15) =~= last);
        }
    }
}

/// The routing table says of each pin of each device that it goes to the link
/// whose number is the sum of both, counted round the four links.
pub proof fn pins_go_to_their_link(device: int, pin: int)
    requires
        0 <= device < 32,
        0 <= pin < 4,
    ensures
        ({
            let at = 2 + 6 * (4 * device + pin);
            let link = (device + pin) % 4;
            &&& routing_table()[at + 1] == AmlOp::U32((0x1_0000 * device + 0xffff) as u32)
            &&& routing_table()[at + 2] == AmlOp::U32(pin as u32)
            &&& link == 0 ==> routing_table()[at + 3] == AmlOp::Path(AmlName::Fixed("LNKA"))
            &&& link == 1 ==> routing_table()[at + 3] == AmlOp::Path(AmlName::Fixed("LNKB"))
            &&& link == 2 ==> routing_table()[at + 3] == AmlOp::Path(AmlName::Fixed("LNKC"))
            &&& link == 3 ==> routing_table()[at + 3] == AmlOp::Path(AmlName::Fixed("LNKD"))
            &&& routing_table()[at + 4] == AmlOp::U32(0)
        }),
{
    every_pin_is_routed(device, pin);
    let at = 2 + 6 * (4 * device + pin);
    let one = routing_table().subrange(at, at + 6);
    assert(one[1] == routing_table()[at + 1]);
    assert(one[2] == routing_table()[at + 2]);
    assert(one[3] == routing_table()[at + 3]);
    assert(one[4] == routing_table()[at + 4]);
}

/// Link number `k` is on the line of slot `k`, in what it can have and in what it
/// has: level-triggered, active-low and shared.
pub proof fn links_have_their_line(irqs: Seq<u8>, k: int)
    requires
        0 <= k < 4,
        irqs.len() == 32,
    ensures
        ({
            let all = link_devices(irqs);
            let line = AmlOp::Interrupt {
                consumer: true,
                edge_triggered: false,
                active_low: true,
                shared: true,
                number: irqs[k] as u32,
            };
            &&& all.len() == 4 * 29
            &&& all[29 * k + 12] == line
            &&& all[29 * k + 17] == line
            &&& k == 0 ==> all[29 * k] == AmlOp::Device(AmlName::Fixed("LNKA"))
            &&& k == 1 ==> all[29 * k] == AmlOp::Device(AmlName::Fixed("LNKB"))
            &&& k == 2 ==> all[29 * k] == AmlOp::Device(AmlName::Fixed("LNKC"))
            &&& k == 3 ==> all[29 * k] == AmlOp::Device(AmlName::Fixed("LNKD"))
        }),
{
    let a = link_device("LNKA", irqs[0] as u32);
    let b = link_device("LNKB", irqs[1] as u32);
    let c = link_device("LNKC", irqs[2] as u32);
    let d = link_device("LNKD", irqs[3] as u32);
    assert(a.len() == 29 && b.len() == 29 && c.len() == 29 && d.len() == 29);
}

/// The operating system is handed no more control than hot-plug, power events,
/// error reports and the capability structure, bits 0, 2, 3 and 4; a request of an
/// unknown revision is flagged by bit 3 of the first word, one for more control by
/// bit 4, and one of another interface by bit 2.
pub proof fn control_is_cut_and_flagged()
    ensures
        ({
            let t = osc_tail();
            &&& t[20] == AmlOp::And && t[21] == AmlOp::Path(AmlName::Fixed("CTRL")) && t[22]
                == AmlOp::Path(AmlName::Fixed("CTRL")) && t[23] == AmlOp::U32(0x1d)
            &&& t[26] == AmlOp::NotEqual && t[27] == AmlOp::Arg(1) && t[28] == AmlOp::One
            &&& t[30] == AmlOp::Or && t[31] == AmlOp::Path(AmlName::Fixed("CDW1")) && t[33]
                == AmlOp::U32(8)
            &&& t[37] == AmlOp::NotEqual && t[38] == AmlOp::Path(AmlName::Fixed("CDW3")) && t[39]
                == AmlOp::Path(AmlName::Fixed("CTRL"))
            &&& t[41] == AmlOp::Or && t[42] == AmlOp::Path(AmlName::Fixed("CDW1")) && t[44]
                == AmlOp::U32(0x10)
            &&& t[47] == AmlOp::Store && t[48] == AmlOp::Path(AmlName::Fixed("CDW3")) && t[49]
                == AmlOp::Path(AmlName::Fixed("CTRL"))
            &&& t[55] == AmlOp::Or && t[56] == AmlOp::Path(AmlName::Fixed("CDW1")) && t[58]
                == AmlOp::U32(4)
        }),
{
}

} // verus!
