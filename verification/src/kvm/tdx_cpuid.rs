//! CPUID shaping for trust domains.
//!
//! A trust domain only sees CPUID bits that the TDX module lets the host
//! configure. The tables below say, for each leaf and register, which bits the
//! module forces to zero, which it forces to one, and which depend on what the
//! monitor can emulate.
use vstd::prelude::*;

verus! {

/// Number of CPUID slots in the capability and initialisation structures.
pub const TDX_MAX_NR_CPUID_CONFIGS: usize = 256;

/// Sub-leaf value of a configuration entry that covers every sub-leaf.
pub const TDX_CPUID_NO_SUBLEAF: u32 = 0xffff_ffff;

pub const CPUID_1_EDX_MSR: u32 = 0x0000_0020;
pub const CPUID_1_EDX_PAE: u32 = 0x0000_0040;
pub const CPUID_1_EDX_MCE: u32 = 0x0000_0080;
pub const CPUID_1_EDX_APIC: u32 = 0x0000_0200;
pub const CPUID_1_EDX_MTRR: u32 = 0x0000_1000;
pub const CPUID_1_EDX_MCA: u32 = 0x0000_4000;
pub const CPUID_1_EDX_CLFLUSH: u32 = 0x0008_0000;
pub const CPUID_1_EDX_DTS: u32 = 0x0020_0000;
pub const CPUID_1_EDX_ACPI: u32 = 0x0040_0000;
pub const CPUID_1_EDX_IA64: u32 = 0x4000_0000;
pub const CPUID_1_EDX_PBE: u32 = 0x8000_0000;
pub const CPUID_1_ECX_MONITOR: u32 = 0x0000_0008;
pub const CPUID_1_ECX_VMX: u32 = 0x0000_0020;
pub const CPUID_1_ECX_SMX: u32 = 0x0000_0040;
pub const CPUID_1_ECX_EST: u32 = 0x0000_0080;
pub const CPUID_1_ECX_TM2: u32 = 0x0000_0100;
pub const CPUID_1_ECX_CX16: u32 = 0x0000_2000;
pub const CPUID_1_ECX_XTPR: u32 = 0x0000_4000;
pub const CPUID_1_ECX_PDCM: u32 = 0x0000_8000;
pub const CPUID_1_ECX_DCA: u32 = 0x0004_0000;
pub const CPUID_1_ECX_X2APIC: u32 = 0x0020_0000;
pub const CPUID_1_ECX_AES: u32 = 0x0200_0000;
pub const CPUID_1_ECX_XSAVE: u32 = 0x0400_0000;
pub const CPUID_1_ECX_RDRAND: u32 = 0x4000_0000;
pub const CPUID_1_ECX_HYPERVISOR: u32 = 0x8000_0000;
pub const CPUID_EXT2_NX: u32 = 0x0010_0000;
pub const CPUID_EXT2_PDPE1GB: u32 = 0x0400_0000;
pub const CPUID_EXT2_RDTSCP: u32 = 0x0800_0000;
pub const CPUID_EXT2_LM: u32 = 0x2000_0000;
pub const CPUID_7_0_EBX_FSGSBASE: u32 = 0x0000_0001;
pub const CPUID_7_0_EBX_TSC_ADJUST: u32 = 0x0000_0002;
pub const CPUID_7_0_EBX_SGX: u32 = 0x0000_0004;
pub const CPUID_7_0_EBX_RTM: u32 = 0x0000_0800;
pub const CPUID_7_0_EBX_PQM: u32 = 0x0000_1000;
pub const CPUID_7_0_EBX_MPX: u32 = 0x0000_4000;
pub const CPUID_7_0_EBX_RDT_A: u32 = 0x0000_8000;
pub const CPUID_7_0_EBX_RDSEED: u32 = 0x0004_0000;
pub const CPUID_7_0_EBX_SMAP: u32 = 0x0010_0000;
pub const CPUID_7_0_EBX_CLFLUSHOPT: u32 = 0x0080_0000;
pub const CPUID_7_0_EBX_CLWB: u32 = 0x0100_0000;
pub const CPUID_7_0_EBX_INTEL_PT: u32 = 0x0200_0000;
pub const CPUID_7_0_EBX_SHA_NI: u32 = 0x2000_0000;
pub const CPUID_7_0_ECX_TME: u32 = 0x0000_2000;
pub const CPUID_7_0_ECX_FZM: u32 = 0x0000_8000;
pub const CPUID_7_0_ECX_MAWAU: u32 = 0x003e_0000;
pub const CPUID_7_0_ECX_KEY_LOCKER: u32 = 0x0080_0000;
pub const CPUID_7_0_ECX_BUS_LOCK_DETECT: u32 = 0x0100_0000;
pub const CPUID_7_0_ECX_MOVDIR64B: u32 = 0x1000_0000;
pub const CPUID_7_0_ECX_ENQCMD: u32 = 0x2000_0000;
pub const CPUID_7_0_ECX_SGX_LC: u32 = 0x4000_0000;
pub const CPUID_7_0_ECX_PKS: u32 = 0x8000_0000;
pub const CPUID_7_0_EDX_PCONFIG: u32 = 0x0004_0000;
pub const CPUID_7_0_EDX_SPEC_CTRL: u32 = 0x0400_0000;
pub const CPUID_7_0_EDX_ARCH_CAPABILITIES: u32 = 0x2000_0000;
pub const CPUID_7_0_EDX_CORE_CAPABILITY: u32 = 0x4000_0000;
pub const CPUID_7_0_EDX_SPEC_CTRL_SSBD: u32 = 0x8000_0000;
pub const CPUID_8000_0008_EBX_WBNOINVD: u32 = 0x0000_0200;
pub const CPUID_XSAVE_XSAVEOPT: u32 = 0x0000_0001;
pub const CPUID_XSAVE_XSAVEC: u32 = 0x0000_0002;
pub const CPUID_XSAVE_XSAVES: u32 = 0x0000_0008;
pub const CPUID_6_EAX_ARAT: u32 = 0x0000_0004;
pub const CPUID_XSTATE_XCR0_MASK: u64 = 0x0006_02ff;
pub const CPUID_XSTATE_XSS_MASK: u64 = 0x0000_8000;
pub const TDX_SUPPORTED_KVM_FEATURES_LEGACY: u32 = 0x0000_ba82;

/// One CPUID leaf as exchanged with KVM.
#[derive(Clone, Copy, Debug, PartialEq, Eq, Structural)]
pub struct CpuIdEntry {
    pub function: u32,
    pub index: u32,
    pub flags: u32,
    pub eax: u32,
    pub ebx: u32,
    pub ecx: u32,
    pub edx: u32,
}

impl CpuIdEntry {
    /// The all-zero entry.
    pub open spec fn zeroed() -> CpuIdEntry {
        CpuIdEntry { function: 0, index: 0, flags: 0, eax: 0, ebx: 0, ecx: 0, edx: 0 }
    }

    /// Value of one output register.
    pub open spec fn reg(self, reg: TdxCpuidReg) -> u32 {
        match reg {
            TdxCpuidReg::Eax => self.eax,
            TdxCpuidReg::Ebx => self.ebx,
            TdxCpuidReg::Ecx => self.ecx,
            TdxCpuidReg::Edx => self.edx,
        }
    }
}

impl CpuIdEntry {
    /// A table of all-zero entries.
    pub fn zeroed_table() -> (r: [CpuIdEntry; 256])
        ensures
            r@ == Seq::new(256, |i: int| CpuIdEntry::zeroed()),
    {
        let none: CpuIdEntry = CpuIdEntry::default();
        let r: [CpuIdEntry; 256] = [none;256];
        assert(r == vstd::array::spec_array_fill_for_copy_type::<CpuIdEntry, 256>(none));
        assert(r@ =~= Seq::new(256, |i: int| CpuIdEntry::zeroed()));
        r
    }
}

impl Default for CpuIdEntry {
    fn default() -> (r: CpuIdEntry)
        ensures
            r == CpuIdEntry::zeroed(),
    {
        CpuIdEntry { function: 0, index: 0, flags: 0, eax: 0, ebx: 0, ecx: 0, edx: 0 }
    }
}

/// Output registers of the CPUID instruction on the host for one leaf.
#[derive(Clone, Copy, Debug, PartialEq, Eq, Structural)]
pub struct HostCpuid {
    pub eax: u32,
    pub ebx: u32,
    pub ecx: u32,
    pub edx: u32,
}

impl HostCpuid {
    /// Value of one output register.
    pub open spec fn reg(self, reg: TdxCpuidReg) -> u32 {
        match reg {
            TdxCpuidReg::Eax => self.eax,
            TdxCpuidReg::Ebx => self.ebx,
            TdxCpuidReg::Ecx => self.ecx,
            TdxCpuidReg::Edx => self.edx,
        }
    }
}

/// Names a CPUID output register.
#[derive(Clone, Copy, Debug, PartialEq, Eq, Structural)]
pub enum TdxCpuidReg {
    Eax,
    Ebx,
    Ecx,
    Edx,
}

/// Host-configurable bits of one CPUID leaf.
#[derive(Clone, Copy, Debug, PartialEq, Eq, Structural)]
pub struct TdxCpuidConfigLegacy {
    pub leaf: u32,
    pub sub_leaf: u32,
    pub eax: u32,
    pub ebx: u32,
    pub ecx: u32,
    pub edx: u32,
}

impl TdxCpuidConfigLegacy {
    /// The all-zero entry.
    pub open spec fn zeroed() -> TdxCpuidConfigLegacy {
        TdxCpuidConfigLegacy { leaf: 0, sub_leaf: 0, eax: 0, ebx: 0, ecx: 0, edx: 0 }
    }

    /// Whether this entry speaks about the given leaf and sub-leaf.
    pub open spec fn covers(self, function: u32, index: u32) -> bool {
        self.leaf == function && (self.sub_leaf == TDX_CPUID_NO_SUBLEAF || self.sub_leaf == index)
    }

    /// Configurable bits of one register.
    pub open spec fn reg(self, reg: TdxCpuidReg) -> u32 {
        match reg {
            TdxCpuidReg::Eax => self.eax,
            TdxCpuidReg::Ebx => self.ebx,
            TdxCpuidReg::Ecx => self.ecx,
            TdxCpuidReg::Edx => self.edx,
        }
    }
}

impl Default for TdxCpuidConfigLegacy {
    fn default() -> (r: TdxCpuidConfigLegacy)
        ensures
            r == TdxCpuidConfigLegacy::zeroed(),
    {
        TdxCpuidConfigLegacy { leaf: 0, sub_leaf: 0, eax: 0, ebx: 0, ecx: 0, edx: 0 }
    }
}

/// Capabilities reported by the older KVM interface.
///
/// A clear bit in a `fixed0` mask must be zero in the guest, a set bit in a
/// `fixed1` mask must be one.
pub struct TdxCapabilitiesLegacy {
    pub attrs_fixed0: u64,
    pub attrs_fixed1: u64,
    pub xfam_fixed0: u64,
    pub xfam_fixed1: u64,
    pub supported_gpaw: u32,
    pub nr_cpuid_configs: u32,
    pub cpuid_configs: [TdxCpuidConfigLegacy; 256],
}

impl TdxCapabilitiesLegacy {
    /// The configuration entries that the kernel filled in.
    pub open spec fn configs(self) -> Seq<TdxCpuidConfigLegacy> {
        self.cpuid_configs@.take(
            if self.nr_cpuid_configs < 256 {
                self.nr_cpuid_configs as int
            } else {
                256
            },
        )
    }
}

impl Default for TdxCapabilitiesLegacy {
    fn default() -> (r: TdxCapabilitiesLegacy)
        ensures
            r.attrs_fixed0 == 0,
            r.attrs_fixed1 == 0,
            r.xfam_fixed0 == 0,
            r.xfam_fixed1 == 0,
            r.supported_gpaw == 0,
            r.nr_cpuid_configs == 256,
            r.cpuid_configs@ == Seq::new(256, |i: int| TdxCpuidConfigLegacy::zeroed()),
    {
        let r = TdxCapabilitiesLegacy {
            attrs_fixed0: 0,
            attrs_fixed1: 0,
            xfam_fixed0: 0,
            xfam_fixed1: 0,
            supported_gpaw: 0,
            nr_cpuid_configs: 256,
            cpuid_configs: [TdxCpuidConfigLegacy::default();256],
        };
        assert(r.cpuid_configs@ =~= Seq::new(256, |i: int| TdxCpuidConfigLegacy::zeroed()));
        r
    }
}

/// What the TDX module does to one CPUID register.
#[derive(Clone, Copy, Debug, PartialEq, Eq, Structural)]
pub struct TdxCpuidRule {
    pub fixed0: u32,
    pub fixed1: u32,
    pub depends_on_vmm_cap: u32,
    pub inducing_ve: bool,
    pub supported_value_on_ve: u32,
}

/// A register whose bits are fixed by the module.
pub open spec fn fixed_rule(fixed0: u32, fixed1: u32, depends_on_vmm_cap: u32) -> TdxCpuidRule {
    TdxCpuidRule {
        fixed0,
        fixed1,
        depends_on_vmm_cap,
        inducing_ve: false,
        supported_value_on_ve: 0,
    }
}

/// A register whose reads trap to the guest, and the bits the monitor may answer.
pub open spec fn ve_rule(supported: u32) -> TdxCpuidRule {
    TdxCpuidRule {
        fixed0: 0,
        fixed1: 0,
        depends_on_vmm_cap: 0,
        inducing_ve: true,
        supported_value_on_ve: supported,
    }
}

/// The module's table before host configuration and attributes are applied.
pub open spec fn base_rule(
    xfam_fixed0: u64,
    xfam_fixed1: u64,
    function: u32,
    index: u32,
    reg: TdxCpuidReg,
) -> Option<TdxCpuidRule> {
    if function == 1 && reg == TdxCpuidReg::Edx {
        Some(fixed_rule(0x4010_0400, 0x0028_52e0, 0x8040_0000))
    } else if function == 1 && reg == TdxCpuidReg::Ecx {
        Some(fixed_rule(0x0001_0060, 0xc620_a000, 0x0004_4180))
    } else if function == 0x8000_0001 && reg == TdxCpuidReg::Edx {
        Some(fixed_rule(0, 0x2c10_0000, 0))
    } else if function == 7 && index == 0 && reg == TdxCpuidReg::Ebx {
        Some(fixed_rule(0x0000_4006, 0x2194_0801, 0x0000_9000))
    } else if function == 7 && index == 0 && reg == TdxCpuidReg::Ecx {
        Some(fixed_rule(0x603e_8000, 0x1100_0000, 0x0000_2000))
    } else if function == 7 && index == 0 && reg == TdxCpuidReg::Edx {
        Some(fixed_rule(0, 0xe400_0000, 0x0004_0000))
    } else if function == 0x8000_0008 && reg == TdxCpuidReg::Ebx {
        Some(fixed_rule(0xffff_fdff, 0x0000_0200, 0))
    } else if function == 0xd && index == 1 && reg == TdxCpuidReg::Eax {
        Some(fixed_rule(0, 0x0000_000b, 0))
    } else if function == 6 && reg == TdxCpuidReg::Eax {
        Some(ve_rule(0x0000_0004))
    } else if function == 0x8000_0007 && reg == TdxCpuidReg::Edx {
        Some(ve_rule(0xffff_ffff))
    } else if function == 0x4000_0001 && reg == TdxCpuidReg::Eax {
        Some(ve_rule(0x0000_ba82))
    } else if function == 0xd && index == 0 && reg == TdxCpuidReg::Eax {
        Some(
            fixed_rule(
                (!xfam_fixed0 & CPUID_XSTATE_XCR0_MASK) as u32,
                (xfam_fixed1 & CPUID_XSTATE_XCR0_MASK) as u32,
                0,
            ),
        )
    } else if function == 0xd && index == 0 && reg == TdxCpuidReg::Edx {
        Some(
            fixed_rule(
                ((!xfam_fixed0 & CPUID_XSTATE_XCR0_MASK) >> 32) as u32,
                ((xfam_fixed1 & CPUID_XSTATE_XCR0_MASK) >> 32) as u32,
                0,
            ),
        )
    } else if function == 0xd && index == 1 && reg == TdxCpuidReg::Ecx {
        Some(
            fixed_rule(
                (!xfam_fixed0 & CPUID_XSTATE_XSS_MASK) as u32,
                (xfam_fixed1 & CPUID_XSTATE_XSS_MASK) as u32,
                0,
            ),
        )
    } else if function == 0xd && index == 1 && reg == TdxCpuidReg::Edx {
        Some(
            fixed_rule(
                ((!xfam_fixed0 & CPUID_XSTATE_XSS_MASK) >> 32) as u32,
                ((xfam_fixed1 & CPUID_XSTATE_XSS_MASK) >> 32) as u32,
                0,
            ),
        )
    } else {
        None
    }
}

/// Configurable bits of a register: those of the last entry that covers the
/// leaf, or none.
pub open spec fn cap_config(
    configs: Seq<TdxCpuidConfigLegacy>,
    function: u32,
    index: u32,
    reg: TdxCpuidReg,
) -> u32
    decreases configs.len(),
{
    if configs.len() == 0 {
        0
    } else if configs.last().covers(function, index) {
        configs.last().reg(reg)
    } else {
        cap_config(configs.drop_last(), function, index, reg)
    }
}

/// Bits of leaf 7 `ecx` that the attributes force: protection keys for
/// supervisor pages follow attribute 30, key locker follows attribute 31.
pub open spec fn attr_forced(attrs: u64, when_set: bool) -> u32 {
    (if (attrs & 0x4000_0000 != 0) == when_set {
        CPUID_7_0_ECX_PKS
    } else {
        0
    }) | (if (attrs & 0x8000_0000 != 0) == when_set {
        CPUID_7_0_ECX_KEY_LOCKER
    } else {
        0
    })
}

/// The rule in force for a register: configurable bits are no longer fixed,
/// and leaf 7 `ecx` follows the fixed attributes.
pub open spec fn cpuid_rule(
    caps: TdxCapabilitiesLegacy,
    function: u32,
    index: u32,
    reg: TdxCpuidReg,
) -> Option<TdxCpuidRule> {
    let config = cap_config(caps.configs(), function, index, reg);
    match base_rule(caps.xfam_fixed0, caps.xfam_fixed1, function, index, reg) {
        None => None,
        Some(base) => {
            let attrs = function == 7 && reg == TdxCpuidReg::Ecx;
            Some(
                TdxCpuidRule {
                    fixed0: (base.fixed0 & !config) | (if attrs {
                        attr_forced(caps.attrs_fixed0, false)
                    } else {
                        0
                    }),
                    fixed1: (base.fixed1 & !config) | (if attrs {
                        attr_forced(caps.attrs_fixed1, true)
                    } else {
                        0
                    }),
                    ..base
                },
            )
        },
    }
}

/// Bits that are never shown, whatever the module offers.
pub open spec fn never_shown(function: u32, reg: TdxCpuidReg) -> u32 {
    if function == 1 && reg == TdxCpuidReg::Ecx {
        CPUID_1_ECX_MONITOR
    } else if function == 7 && reg == TdxCpuidReg::Ebx {
        CPUID_7_0_EBX_INTEL_PT
    } else {
        0
    }
}

/// Value of a register after shaping, from what the monitor offers and what
/// the host reports.
pub open spec fn supported_reg(
    caps: TdxCapabilitiesLegacy,
    function: u32,
    index: u32,
    reg: TdxCpuidReg,
    vmm_cap: u32,
    host: u32,
) -> u32 {
    match cpuid_rule(caps, function, index, reg) {
        None => vmm_cap,
        Some(rule) => if rule.inducing_ve {
            vmm_cap & rule.supported_value_on_ve
        } else {
            ((((vmm_cap | host | rule.fixed1) & !rule.fixed0) | cap_config(
                caps.configs(),
                function,
                index,
                reg,
            )) & !(rule.depends_on_vmm_cap & !vmm_cap)) & !never_shown(function, reg)
        },
    }
}

/// Leaves that are handed to the TDX module.
pub open spec fn leaf_allowed(function: u32) -> bool {
    ||| function == 0
    ||| function == 1
    ||| function == 2
    ||| 4 <= function <= 7
    ||| function == 0xb
    ||| function == 0xd
    ||| function == 0x12
    ||| function == 0x14
    ||| function == 0x1d
    ||| function == 0x1e
    ||| 0x4000_0000 <= function <= 0x4000_0001
    ||| 0x8000_0000 <= function <= 0x8000_0006
    ||| function == 0x8000_0008
}

/// Leaves and sub-leaves that are handed to the TDX module.
pub open spec fn entry_allowed(entry: CpuIdEntry) -> bool {
    &&& leaf_allowed(entry.function)
    &&& entry.function == 7 ==> entry.index <= 1
    &&& entry.function == 0xb ==> entry.index <= 2
    &&& entry.function == 0xd ==> {
        ||| entry.index <= 2
        ||| 5 <= entry.index <= 7
        ||| entry.index == 9
        ||| entry.index == 15
        ||| entry.index == 17
        ||| entry.index == 18
        ||| entry.index == 63
    }
}

/// A CPUID entry with its four registers replaced.
pub open spec fn with_regs(e: CpuIdEntry, eax: u32, ebx: u32, ecx: u32, edx: u32) -> CpuIdEntry {
    CpuIdEntry { eax, ebx, ecx, edx, ..e }
}

/// An entry after shaping.
pub open spec fn filtered_entry(
    caps: TdxCapabilitiesLegacy,
    e: CpuIdEntry,
    host: HostCpuid,
) -> CpuIdEntry {
    let eax = supported_reg(caps, e.function, e.index, TdxCpuidReg::Eax, e.eax, host.eax);
    let ebx = supported_reg(caps, e.function, e.index, TdxCpuidReg::Ebx, e.ebx, host.ebx);
    let ecx = supported_reg(caps, e.function, e.index, TdxCpuidReg::Ecx, e.ecx, host.ecx);
    let edx = supported_reg(caps, e.function, e.index, TdxCpuidReg::Edx, e.edx, host.edx);
    if e.function == 0xb {
        with_regs(e, eax, ebx, (ecx & !0xff) | e.index, edx)
    } else if e.function == 0x12 || e.function == 0x14 {
        with_regs(e, 0, 0, 0, 0)
    } else if e.function == 0x4000_0000 {
        with_regs(e, 0x4000_0001, ebx, ecx, edx)
    } else {
        with_regs(e, eax, ebx, ecx, edx)
    }
}

/// The entries that are handed to the TDX module: the allowed ones, shaped,
/// in order.
pub open spec fn filtered_entries(
    caps: TdxCapabilitiesLegacy,
    cpuid: Seq<CpuIdEntry>,
    hosts: Seq<HostCpuid>,
) -> Seq<CpuIdEntry>
    decreases cpuid.len(),
{
    if cpuid.len() == 0 {
        Seq::empty()
    } else {
        let rest = filtered_entries(caps, cpuid.drop_last(), hosts.drop_last());
        if entry_allowed(cpuid.last()) {
            rest.push(filtered_entry(caps, cpuid.last(), hosts.last()))
        } else {
            rest
        }
    }
}

proof fn lemma_masks()
    by (bit_vector)
    ensures
        0x400u32 | 0x10_0000u32 | CPUID_1_EDX_IA64 == 0x4010_0400u32,
        CPUID_1_EDX_MSR | CPUID_1_EDX_PAE | CPUID_1_EDX_MCE | CPUID_1_EDX_APIC | CPUID_1_EDX_MTRR
            | CPUID_1_EDX_MCA | CPUID_1_EDX_CLFLUSH | CPUID_1_EDX_DTS == 0x0028_52e0u32,
        CPUID_1_EDX_ACPI | CPUID_1_EDX_PBE == 0x8040_0000u32,
        CPUID_1_ECX_VMX | CPUID_1_ECX_SMX | 0x1_0000u32 == 0x0001_0060u32,
        CPUID_1_ECX_CX16 | CPUID_1_ECX_PDCM | CPUID_1_ECX_X2APIC | CPUID_1_ECX_AES
            | CPUID_1_ECX_XSAVE | CPUID_1_ECX_RDRAND | CPUID_1_ECX_HYPERVISOR == 0xc620_a000u32,
        CPUID_1_ECX_EST | CPUID_1_ECX_TM2 | CPUID_1_ECX_XTPR | CPUID_1_ECX_DCA == 0x0004_4180u32,
        CPUID_EXT2_NX | CPUID_EXT2_PDPE1GB | CPUID_EXT2_RDTSCP | CPUID_EXT2_LM == 0x2c10_0000u32,
        CPUID_7_0_EBX_TSC_ADJUST | CPUID_7_0_EBX_SGX | CPUID_7_0_EBX_MPX == 0x0000_4006u32,
        CPUID_7_0_EBX_FSGSBASE | CPUID_7_0_EBX_RTM | CPUID_7_0_EBX_RDSEED | CPUID_7_0_EBX_SMAP
            | CPUID_7_0_EBX_CLFLUSHOPT | CPUID_7_0_EBX_CLWB | CPUID_7_0_EBX_SHA_NI
            == 0x2194_0801u32,
        CPUID_7_0_EBX_PQM | CPUID_7_0_EBX_RDT_A == 0x0000_9000u32,
        CPUID_7_0_ECX_FZM | CPUID_7_0_ECX_MAWAU | CPUID_7_0_ECX_ENQCMD | CPUID_7_0_ECX_SGX_LC
            == 0x603e_8000u32,
        CPUID_7_0_ECX_MOVDIR64B | CPUID_7_0_ECX_BUS_LOCK_DETECT == 0x1100_0000u32,
        CPUID_7_0_EDX_SPEC_CTRL | CPUID_7_0_EDX_ARCH_CAPABILITIES | CPUID_7_0_EDX_CORE_CAPABILITY
            | CPUID_7_0_EDX_SPEC_CTRL_SSBD == 0xe400_0000u32,
        !CPUID_8000_0008_EBX_WBNOINVD == 0xffff_fdffu32,
        CPUID_XSAVE_XSAVEOPT | CPUID_XSAVE_XSAVEC | CPUID_XSAVE_XSAVES == 0x0000_000bu32,
{
}

proof fn lemma_or_steps()
    by (bit_vector)
    ensures
        forall|a: u32| #[trigger] (a | 0u32) == a,
        forall|a: u32, p: u32, k: u32| #[trigger] ((a | p) | k) == a | (p | k),
        forall|a: u32| #[trigger] (0u32 | a) == a,
        forall|a: u32| a & #[trigger] !0u32 == a,
{
}

/// Whether a leaf is handed to the TDX module.
pub fn tdx_legacy_cpuid_leaf_allowed(function: u32) -> (r: bool)
    ensures
        r == leaf_allowed(function),
{
    matches!(
        function,
        0x0000_0000
            | 0x0000_0001
            | 0x0000_0002
            | 0x0000_0004
            | 0x0000_0005
            | 0x0000_0006
            | 0x0000_0007
            | 0x0000_000b
            | 0x0000_000d
            | 0x0000_0012
            | 0x0000_0014
            | 0x0000_001d
            | 0x0000_001e
            | 0x4000_0000
            | 0x4000_0001
            | 0x8000_0000
            | 0x8000_0001
            | 0x8000_0002
            | 0x8000_0003
            | 0x8000_0004
            | 0x8000_0005
            | 0x8000_0006
            | 0x8000_0008
    )
}

/// Whether a leaf with its sub-leaf is handed to the TDX module.
pub fn tdx_legacy_cpuid_entry_allowed(entry: &CpuIdEntry) -> (r: bool)
    ensures
        r == entry_allowed(*entry),
{
    if !tdx_legacy_cpuid_leaf_allowed(entry.function) {
        return false;
    }
    match entry.function {
        0x0000_0007 => entry.index <= 1,
        0x0000_000b => entry.index <= 2,
        0x0000_000d => matches!(entry.index, 0 | 1 | 2 | 5 | 6 | 7 | 9 | 15 | 17 | 18 | 63),
        _ => true,
    }
}

/// Configurable bits of a register according to the reported capabilities.
pub fn tdx_legacy_cap_cpuid_config(
    caps: &TdxCapabilitiesLegacy,
    function: u32,
    index: u32,
    reg: TdxCpuidReg,
) -> (value: u32)
    ensures
        value == cap_config(caps.configs(), function, index, reg),
{
    let mut value: u32 = 0;
    let nent: usize = if caps.nr_cpuid_configs < 256 {
        caps.nr_cpuid_configs as usize
    } else {
        256
    };
    let mut i: usize = 0;
    assert(caps.configs().take(0) =~= Seq::empty());
    while i < nent
        invariant
            i <= nent <= 256,
            nent == caps.configs().len(),
            caps.cpuid_configs@.len() == 256,
            caps.configs() == caps.cpuid_configs@.take(nent as int),
            value == cap_config(caps.configs().take(i as int), function, index, reg),
        decreases nent - i,
    {
        let config = &caps.cpuid_configs[i];
        proof {
            let pre = caps.configs().take(i + 1);
            assert(pre.last() == *config);
            assert(pre.drop_last() =~= caps.configs().take(i as int));
        }
        if config.leaf == function && (config.sub_leaf == TDX_CPUID_NO_SUBLEAF || config.sub_leaf
            == index) {
            value = match reg {
                TdxCpuidReg::Eax => config.eax,
                TdxCpuidReg::Ebx => config.ebx,
                TdxCpuidReg::Ecx => config.ecx,
                TdxCpuidReg::Edx => config.edx,
            };
        }
        i = i + 1;
    }
    assert(caps.configs().take(nent as int) =~= caps.configs());
    value
}

/// A rule for a register whose bits are fixed by the module.
fn make_fixed_rule(fixed0: u32, fixed1: u32, depends_on_vmm_cap: u32) -> (r: TdxCpuidRule)
    ensures
        r == fixed_rule(fixed0, fixed1, depends_on_vmm_cap),
{
    TdxCpuidRule {
        fixed0,
        fixed1,
        depends_on_vmm_cap,
        inducing_ve: false,
        supported_value_on_ve: 0,
    }
}

/// A rule for a register whose reads trap to the guest.
fn make_ve_rule(supported: u32) -> (r: TdxCpuidRule)
    ensures
        r == ve_rule(supported),
{
    TdxCpuidRule {
        fixed0: 0,
        fixed1: 0,
        depends_on_vmm_cap: 0,
        inducing_ve: true,
        supported_value_on_ve: supported,
    }
}

/// The rule in force for a register, if the module has one.
pub fn tdx_legacy_cpuid_rule(
    caps: &TdxCapabilitiesLegacy,
    function: u32,
    index: u32,
    reg: TdxCpuidReg,
) -> (r: Option<TdxCpuidRule>)
    ensures
        r == cpuid_rule(*caps, function, index, reg),
{
    proof {
        lemma_masks();
        lemma_or_steps();
    }
    let mut rule: TdxCpuidRule = match (function, index, reg) {
        (0x0000_0001, _, TdxCpuidReg::Edx) => make_fixed_rule(
            0x400 | 0x10_0000 | CPUID_1_EDX_IA64,
            CPUID_1_EDX_MSR | CPUID_1_EDX_PAE | CPUID_1_EDX_MCE | CPUID_1_EDX_APIC
                | CPUID_1_EDX_MTRR | CPUID_1_EDX_MCA | CPUID_1_EDX_CLFLUSH | CPUID_1_EDX_DTS,
            CPUID_1_EDX_ACPI | CPUID_1_EDX_PBE,
        ),
        (0x0000_0001, _, TdxCpuidReg::Ecx) => make_fixed_rule(
            CPUID_1_ECX_VMX | CPUID_1_ECX_SMX | 0x1_0000,
            CPUID_1_ECX_CX16 | CPUID_1_ECX_PDCM | CPUID_1_ECX_X2APIC | CPUID_1_ECX_AES
                | CPUID_1_ECX_XSAVE | CPUID_1_ECX_RDRAND | CPUID_1_ECX_HYPERVISOR,
            CPUID_1_ECX_EST | CPUID_1_ECX_TM2 | CPUID_1_ECX_XTPR | CPUID_1_ECX_DCA,
        ),
        (0x8000_0001, _, TdxCpuidReg::Edx) => make_fixed_rule(
            0,
            CPUID_EXT2_NX | CPUID_EXT2_PDPE1GB | CPUID_EXT2_RDTSCP | CPUID_EXT2_LM,
            0,
        ),
        (0x0000_0007, 0, TdxCpuidReg::Ebx) => make_fixed_rule(
            CPUID_7_0_EBX_TSC_ADJUST | CPUID_7_0_EBX_SGX | CPUID_7_0_EBX_MPX,
            CPUID_7_0_EBX_FSGSBASE | CPUID_7_0_EBX_RTM | CPUID_7_0_EBX_RDSEED | CPUID_7_0_EBX_SMAP
                | CPUID_7_0_EBX_CLFLUSHOPT | CPUID_7_0_EBX_CLWB | CPUID_7_0_EBX_SHA_NI,
            CPUID_7_0_EBX_PQM | CPUID_7_0_EBX_RDT_A,
        ),
        (0x0000_0007, 0, TdxCpuidReg::Ecx) => make_fixed_rule(
            CPUID_7_0_ECX_FZM | CPUID_7_0_ECX_MAWAU | CPUID_7_0_ECX_ENQCMD | CPUID_7_0_ECX_SGX_LC,
            CPUID_7_0_ECX_MOVDIR64B | CPUID_7_0_ECX_BUS_LOCK_DETECT,
            CPUID_7_0_ECX_TME,
        ),
        (0x0000_0007, 0, TdxCpuidReg::Edx) => make_fixed_rule(
            0,
            CPUID_7_0_EDX_SPEC_CTRL | CPUID_7_0_EDX_ARCH_CAPABILITIES
                | CPUID_7_0_EDX_CORE_CAPABILITY | CPUID_7_0_EDX_SPEC_CTRL_SSBD,
            CPUID_7_0_EDX_PCONFIG,
        ),
        (0x8000_0008, _, TdxCpuidReg::Ebx) => make_fixed_rule(
            !CPUID_8000_0008_EBX_WBNOINVD,
            CPUID_8000_0008_EBX_WBNOINVD,
            0,
        ),
        (0x0000_000d, 1, TdxCpuidReg::Eax) => make_fixed_rule(
            0,
            CPUID_XSAVE_XSAVEOPT | CPUID_XSAVE_XSAVEC | CPUID_XSAVE_XSAVES,
            0,
        ),
        (0x0000_0006, _, TdxCpuidReg::Eax) => make_ve_rule(CPUID_6_EAX_ARAT),
        (0x8000_0007, _, TdxCpuidReg::Edx) => make_ve_rule(u32::MAX),
        (0x4000_0001, _, TdxCpuidReg::Eax) => make_ve_rule(TDX_SUPPORTED_KVM_FEATURES_LEGACY),
        (0x0000_000d, 0, TdxCpuidReg::Eax) => make_fixed_rule(
            (!caps.xfam_fixed0 & CPUID_XSTATE_XCR0_MASK) as u32,
            (caps.xfam_fixed1 & CPUID_XSTATE_XCR0_MASK) as u32,
            0,
        ),
        (0x0000_000d, 0, TdxCpuidReg::Edx) => make_fixed_rule(
            ((!caps.xfam_fixed0 & CPUID_XSTATE_XCR0_MASK) >> 32) as u32,
            ((caps.xfam_fixed1 & CPUID_XSTATE_XCR0_MASK) >> 32) as u32,
            0,
        ),
        (0x0000_000d, 1, TdxCpuidReg::Ecx) => make_fixed_rule(
            (!caps.xfam_fixed0 & CPUID_XSTATE_XSS_MASK) as u32,
            (caps.xfam_fixed1 & CPUID_XSTATE_XSS_MASK) as u32,
            0,
        ),
        (0x0000_000d, 1, TdxCpuidReg::Edx) => make_fixed_rule(
            ((!caps.xfam_fixed0 & CPUID_XSTATE_XSS_MASK) >> 32) as u32,
            ((caps.xfam_fixed1 & CPUID_XSTATE_XSS_MASK) >> 32) as u32,
            0,
        ),
        _ => {
            return None;
        },
    };
    assert(base_rule(caps.xfam_fixed0, caps.xfam_fixed1, function, index, reg) == Some(rule));
    let ghost base = rule;
    let config: u32 = tdx_legacy_cap_cpuid_config(caps, function, index, reg);
    rule.fixed0 = rule.fixed0 & !config;
    rule.fixed1 = rule.fixed1 & !config;
    if function == 0x0000_0007 && reg == TdxCpuidReg::Ecx {
        if caps.attrs_fixed0 & 0x4000_0000 == 0 {
            rule.fixed0 = rule.fixed0 | CPUID_7_0_ECX_PKS;
        }
        if caps.attrs_fixed1 & 0x4000_0000 != 0 {
            rule.fixed1 = rule.fixed1 | CPUID_7_0_ECX_PKS;
        }
        if caps.attrs_fixed0 & 0x8000_0000 == 0 {
            rule.fixed0 = rule.fixed0 | CPUID_7_0_ECX_KEY_LOCKER;
        }
        if caps.attrs_fixed1 & 0x8000_0000 != 0 {
            rule.fixed1 = rule.fixed1 | CPUID_7_0_ECX_KEY_LOCKER;
        }
        assert(rule.fixed0 == (base.fixed0 & !config) | attr_forced(caps.attrs_fixed0, false));
        assert(rule.fixed1 == (base.fixed1 & !config) | attr_forced(caps.attrs_fixed1, true));
    }
    Some(rule)
}

/// Value of a register after shaping. `host` is what the CPUID instruction
/// returns in that register for the same leaf.
pub fn tdx_legacy_supported_cpuid_reg(
    caps: &TdxCapabilitiesLegacy,
    function: u32,
    index: u32,
    reg: TdxCpuidReg,
    vmm_cap: u32,
    host: u32,
) -> (value: u32)
    ensures
        value == supported_reg(*caps, function, index, reg, vmm_cap, host),
{
    let rule: TdxCpuidRule = match tdx_legacy_cpuid_rule(caps, function, index, reg) {
        Some(rule) => rule,
        None => {
            return vmm_cap;
        },
    };
    if rule.inducing_ve {
        return vmm_cap & rule.supported_value_on_ve;
    }
    let mut value: u32 = vmm_cap | host;
    value = value | rule.fixed1;
    value = value & !rule.fixed0;
    value = value | tdx_legacy_cap_cpuid_config(caps, function, index, reg);
    value = value & !(rule.depends_on_vmm_cap & !vmm_cap);
    proof {
        lemma_or_steps();
    }
    if function == 0x0000_0001 && reg == TdxCpuidReg::Ecx {
        value = value & !CPUID_1_ECX_MONITOR;
    }
    if function == 0x0000_0007 && reg == TdxCpuidReg::Ebx {
        value = value & !CPUID_7_0_EBX_INTEL_PT;
    }
    value
}

/// Shapes one entry in place.
pub fn tdx_legacy_filter_cpuid_entry(
    caps: &TdxCapabilitiesLegacy,
    entry: &mut CpuIdEntry,
    host: &HostCpuid,
)
    ensures
        *final(entry) == filtered_entry(*caps, *old(entry), *host),
{
    let function: u32 = entry.function;
    let index: u32 = entry.index;
    entry.eax = tdx_legacy_supported_cpuid_reg(
        caps,
        function,
        index,
        TdxCpuidReg::Eax,
        entry.eax,
        host.eax,
    );
    entry.ebx = tdx_legacy_supported_cpuid_reg(
        caps,
        function,
        index,
        TdxCpuidReg::Ebx,
        entry.ebx,
        host.ebx,
    );
    entry.ecx = tdx_legacy_supported_cpuid_reg(
        caps,
        function,
        index,
        TdxCpuidReg::Ecx,
        entry.ecx,
        host.ecx,
    );
    entry.edx = tdx_legacy_supported_cpuid_reg(
        caps,
        function,
        index,
        TdxCpuidReg::Edx,
        entry.edx,
        host.edx,
    );
    match function {
        0x0000_000b => {
            entry.ecx = (entry.ecx & !0xff) | index;
        },
        0x0000_0012 | 0x0000_0014 => {
            entry.eax = 0;
            entry.ebx = 0;
            entry.ecx = 0;
            entry.edx = 0;
        },
        0x4000_0000 => {
            entry.eax = 0x4000_0001;
        },
        _ => {},
    }
}

/// The shaped entries that are handed to the TDX module. `hosts` holds, for
/// each entry, what the CPUID instruction returns for its leaf.
pub fn tdx_legacy_cpuid_entries(
    caps: &TdxCapabilitiesLegacy,
    cpuid: &Vec<CpuIdEntry>,
    hosts: &Vec<HostCpuid>,
) -> (entries: Vec<CpuIdEntry>)
    requires
        cpuid@.len() == hosts@.len(),
    ensures
        entries@ == filtered_entries(*caps, cpuid@, hosts@),
{
    let mut entries: Vec<CpuIdEntry> = Vec::new();
    let mut i: usize = 0;
    while i < cpuid.len()
        invariant
            i <= cpuid@.len(),
            cpuid@.len() == hosts@.len(),
            entries@ == filtered_entries(*caps, cpuid@.take(i as int), hosts@.take(i as int)),
        decreases cpuid@.len() - i,
    {
        let mut entry: CpuIdEntry = cpuid[i];
        proof {
            assert(cpuid@.take(i + 1).drop_last() =~= cpuid@.take(i as int));
            assert(hosts@.take(i + 1).drop_last() =~= hosts@.take(i as int));
        }
        if tdx_legacy_cpuid_entry_allowed(&entry) {
            tdx_legacy_filter_cpuid_entry(caps, &mut entry, &hosts[i]);
            entries.push(entry);
        }
        i = i + 1;
    }
    assert(cpuid@.take(cpuid@.len() as int) =~= cpuid@);
    assert(hosts@.take(cpuid@.len() as int) =~= hosts@);
    entries
}

/// Whether bit `b` of `x` is set.
pub open spec fn bit(x: u32, b: u32) -> bool {
    x & (1u32 << b) != 0
}

/// Shaping bit by bit. For a register that the module fixes: a bit is shown
/// exactly if it is not on the never-shown list, is not one that only the
/// monitor can provide while the monitor does not offer it, and is
/// configurable, or else not forced to zero and either forced to one, offered
/// by the monitor or present on the host.
pub proof fn supported_reg_bits(
    caps: TdxCapabilitiesLegacy,
    function: u32,
    index: u32,
    reg: TdxCpuidReg,
    vmm_cap: u32,
    host: u32,
    b: u32,
)
    requires
        b < 32,
        cpuid_rule(caps, function, index, reg) is Some,
        !cpuid_rule(caps, function, index, reg)->0.inducing_ve,
    ensures
        ({
            let rule = cpuid_rule(caps, function, index, reg)->0;
            let config = cap_config(caps.configs(), function, index, reg);
            bit(supported_reg(caps, function, index, reg, vmm_cap, host), b) <==> {
                &&& !bit(never_shown(function, reg), b)
                &&& bit(rule.depends_on_vmm_cap, b) ==> bit(vmm_cap, b)
                &&& bit(config, b) || (!bit(rule.fixed0, b) && (bit(rule.fixed1, b) || bit(
                    vmm_cap,
                    b,
                ) || bit(host, b)))
            }
        }),
{
    let rule = cpuid_rule(caps, function, index, reg)->0;
    let config = cap_config(caps.configs(), function, index, reg);
    let f0 = rule.fixed0;
    let f1 = rule.fixed1;
    let d = rule.depends_on_vmm_cap;
    let n = never_shown(function, reg);
    assert(b < 32 ==> ((((((((vmm_cap | host | f1) & !f0) | config) & !(d & !vmm_cap)) & !n) & (1u32
        << b)) != 0) == ((n & (1u32 << b) == 0) && ((d & (1u32 << b) != 0) ==> (vmm_cap & (1u32
        << b) != 0)) && ((config & (1u32 << b) != 0) || ((f0 & (1u32 << b) == 0) && ((f1 & (1u32
        << b) != 0) || (vmm_cap & (1u32 << b) != 0) || (host & (1u32 << b) != 0))))))) by (bit_vector);
}

/// Every entry handed to the TDX module comes from an allowed entry with the
/// same leaf and sub-leaf, and there are never more of them than were offered.
pub proof fn filtered_entries_allowed(
    caps: TdxCapabilitiesLegacy,
    cpuid: Seq<CpuIdEntry>,
    hosts: Seq<HostCpuid>,
)
    requires
        cpuid.len() == hosts.len(),
    ensures
        filtered_entries(caps, cpuid, hosts).len() <= cpuid.len(),
        forall|i: int|
            #![trigger filtered_entries(caps, cpuid, hosts)[i]]
            0 <= i < filtered_entries(caps, cpuid, hosts).len() ==> entry_allowed(
                filtered_entries(caps, cpuid, hosts)[i],
            ),
    decreases cpuid.len(),
{
    if cpuid.len() > 0 {
        filtered_entries_allowed(caps, cpuid.drop_last(), hosts.drop_last());
    }
}

/// Bits that the module forces to zero where they cannot be configured, by their
/// number. Leaf 0xd follows the fixed extended features, and two bits of leaf 7
/// follow the fixed attributes.
pub open spec fn zero_bit(
    caps: TdxCapabilitiesLegacy,
    function: u32,
    index: u32,
    reg: TdxCpuidReg,
    b: u32,
) -> bool {
    if function == 1 && reg == TdxCpuidReg::Edx {
        b == 10 || b == 20 || b == 30
    } else if function == 1 && reg == TdxCpuidReg::Ecx {
        b == 5 || b == 6 || b == 16
    } else if function == 7 && index == 0 && reg == TdxCpuidReg::Ebx {
        b == 1 || b == 2 || b == 14
    } else if function == 7 && index == 0 && reg == TdxCpuidReg::Ecx {
        b == 15 || 17 <= b <= 21 || b == 29 || b == 30
    } else if function == 0x8000_0008 && reg == TdxCpuidReg::Ebx {
        b != 9
    } else if function == 0xd && index == 0 && reg == TdxCpuidReg::Eax {
        (b <= 7 || b == 9 || b == 17 || b == 18) && caps.xfam_fixed0 & (1u64 << b) == 0
    } else if function == 0xd && index == 1 && reg == TdxCpuidReg::Ecx {
        b == 15 && caps.xfam_fixed0 & (1u64 << b) == 0
    } else {
        false
    }
}

/// Bits that the module forces to one where they cannot be configured.
pub open spec fn one_bit(
    caps: TdxCapabilitiesLegacy,
    function: u32,
    index: u32,
    reg: TdxCpuidReg,
    b: u32,
) -> bool {
    if function == 1 && reg == TdxCpuidReg::Edx {
        5 <= b <= 7 || b == 9 || b == 12 || b == 14 || b == 19 || b == 21
    } else if function == 1 && reg == TdxCpuidReg::Ecx {
        b == 13 || b == 15 || b == 21 || b == 25 || b == 26 || b == 30 || b == 31
    } else if function == 0x8000_0001 && reg == TdxCpuidReg::Edx {
        b == 20 || b == 26 || b == 27 || b == 29
    } else if function == 7 && index == 0 && reg == TdxCpuidReg::Ebx {
        b == 0 || b == 11 || b == 18 || b == 20 || b == 23 || b == 24 || b == 29
    } else if function == 7 && index == 0 && reg == TdxCpuidReg::Ecx {
        b == 24 || b == 28
    } else if function == 7 && index == 0 && reg == TdxCpuidReg::Edx {
        b == 26 || 29 <= b <= 31
    } else if function == 0x8000_0008 && reg == TdxCpuidReg::Ebx {
        b == 9
    } else if function == 0xd && index == 1 && reg == TdxCpuidReg::Eax {
        b == 0 || b == 1 || b == 3
    } else if function == 0xd && index == 0 && reg == TdxCpuidReg::Eax {
        (b <= 7 || b == 9 || b == 17 || b == 18) && caps.xfam_fixed1 & (1u64 << b) != 0
    } else if function == 0xd && index == 1 && reg == TdxCpuidReg::Ecx {
        b == 15 && caps.xfam_fixed1 & (1u64 << b) != 0
    } else {
        false
    }
}

/// Bits that only show where the monitor offers them.
pub open spec fn offered_bit(function: u32, index: u32, reg: TdxCpuidReg, b: u32) -> bool {
    if function == 1 && reg == TdxCpuidReg::Edx {
        b == 22 || b == 31
    } else if function == 1 && reg == TdxCpuidReg::Ecx {
        b == 7 || b == 8 || b == 14 || b == 18
    } else if function == 7 && index == 0 && reg == TdxCpuidReg::Ebx {
        b == 12 || b == 15
    } else if function == 7 && index == 0 && reg == TdxCpuidReg::Ecx {
        b == 13
    } else if function == 7 && index == 0 && reg == TdxCpuidReg::Edx {
        b == 18
    } else {
        false
    }
}

/// Whether the table has the register among those that the module fixes.
pub open spec fn fixed_register(function: u32, index: u32, reg: TdxCpuidReg) -> bool {
    ||| function == 1 && (reg == TdxCpuidReg::Ecx || reg == TdxCpuidReg::Edx)
    ||| function == 7 && index == 0 && reg != TdxCpuidReg::Eax
    ||| function == 0xd && index == 0 && (reg == TdxCpuidReg::Eax || reg == TdxCpuidReg::Edx)
    ||| function == 0xd && index == 1 && reg != TdxCpuidReg::Ebx
    ||| function == 0x8000_0001 && reg == TdxCpuidReg::Edx
    ||| function == 0x8000_0008 && reg == TdxCpuidReg::Ebx
}

/// Whether the table has the register among those whose reads trap.
pub open spec fn trapping_register(function: u32, reg: TdxCpuidReg) -> bool {
    ||| function == 6 && reg == TdxCpuidReg::Eax
    ||| function == 0x4000_0001 && reg == TdxCpuidReg::Eax
    ||| function == 0x8000_0007 && reg == TdxCpuidReg::Edx
}

proof fn lemma_bits(x: u32, y: u32, w: u64, b: u32)
    by (bit_vector)
    requires
        b < 32,
    ensures
        bit(x & !y, b) <==> bit(x, b) && !bit(y, b),
        bit(x | y, b) <==> bit(x, b) || bit(y, b),
        bit(x & y, b) <==> bit(x, b) && bit(y, b),
        bit((w & 0x602ffu64) as u32, b) <==> (b <= 7 || b == 9 || b == 17 || b == 18) && w & (1u64
            << b) != 0,
        bit((!w & 0x602ffu64) as u32, b) <==> (b <= 7 || b == 9 || b == 17 || b == 18) && w & (1u64
            << b) == 0,
        bit((w & 0x8000u64) as u32, b) <==> b == 15 && w & (1u64 << b) != 0,
        bit((!w & 0x8000u64) as u32, b) <==> b == 15 && w & (1u64 << b) == 0,
        ((w & 0x602ffu64) >> 32) as u32 == 0u32,
        ((!w & 0x602ffu64) >> 32) as u32 == 0u32,
        ((w & 0x8000u64) >> 32) as u32 == 0u32,
        ((!w & 0x8000u64) >> 32) as u32 == 0u32,
        bit(0xffff_ffffu32, b),
        !bit(0, b),
        bit(0x0000_0004u32, b) <==> (b == 2),
        bit(0x0000_0008u32, b) <==> (b == 3),
        bit(0x0000_000bu32, b) <==> (b == 0 || b == 1 || b == 3),
        bit(0x0000_0200u32, b) <==> (b == 9),
        bit(0x0000_2000u32, b) <==> (b == 13),
        bit(0x0000_4006u32, b) <==> (b == 1 || b == 2 || b == 14),
        bit(0x0000_9000u32, b) <==> (b == 12 || b == 15),
        bit(0x0000_ba82u32, b) <==> (b == 1 || b == 7 || b == 9 || 11 <= b <= 13 || b == 15),
        bit(0x0001_0060u32, b) <==> (b == 5 || b == 6 || b == 16),
        bit(0x0004_0000u32, b) <==> (b == 18),
        bit(0x0004_4180u32, b) <==> (b == 7 || b == 8 || b == 14 || b == 18),
        bit(0x0028_52e0u32, b) <==> (5 <= b <= 7 || b == 9 || b == 12 || b == 14 || b == 19 || b == 21),
        bit(0x0080_0000u32, b) <==> (b == 23),
        bit(0x0200_0000u32, b) <==> (b == 25),
        bit(0x1100_0000u32, b) <==> (b == 24 || b == 28),
        bit(0x2194_0801u32, b) <==> (b == 0 || b == 11 || b == 18 || b == 20 || b == 23 || b == 24 || b == 29),
        bit(0x2c10_0000u32, b) <==> (b == 20 || b == 26 || b == 27 || b == 29),
        bit(0x4010_0400u32, b) <==> (b == 10 || b == 20 || b == 30),
        bit(0x603e_8000u32, b) <==> (b == 15 || 17 <= b <= 21 || b == 29 || b == 30),
        bit(0x8000_0000u32, b) <==> (b == 31),
        bit(0x8040_0000u32, b) <==> (b == 22 || b == 31),
        bit(0xc620_a000u32, b) <==> (b == 13 || b == 15 || b == 21 || b == 25 || b == 26 || b == 30 || b == 31),
        bit(0xe400_0000u32, b) <==> (b == 26 || 29 <= b <= 31),
        bit(0xffff_fdffu32, b) <==> b != 9,
{
}

/// What a trust domain sees, bit by bit and by the numbers of the bits. A bit of
/// a register that the module fixes shows exactly if it can be configured, or is
/// not forced to zero and is forced to one, offered or present on the host; but
/// some only show where they are offered, and `MONITOR` and processor tracing
/// never do. Where reads trap, the monitor's answer shows as far as it can be
/// given. What the module says nothing about is as offered.
#[verifier::rlimit(40)]
pub proof fn bits_are_shown_by_the_table(
    caps: TdxCapabilitiesLegacy,
    function: u32,
    index: u32,
    reg: TdxCpuidReg,
    vmm_cap: u32,
    host: u32,
    b: u32,
)
    requires
        b < 32,
    ensures
        ({
            let shown = bit(supported_reg(caps, function, index, reg, vmm_cap, host), b);
            let config = bit(cap_config(caps.configs(), function, index, reg), b);
            let keys = function == 7 && index == 0 && reg == TdxCpuidReg::Ecx;
            let zero = (zero_bit(caps, function, index, reg, b) && !config) || (keys && b == 31
                && caps.attrs_fixed0 & 0x4000_0000 == 0) || (keys && b == 23 && caps.attrs_fixed0
                & 0x8000_0000 == 0);
            let one = (one_bit(caps, function, index, reg, b) && !config) || (keys && b == 31
                && caps.attrs_fixed1 & 0x4000_0000 != 0) || (keys && b == 23 && caps.attrs_fixed1
                & 0x8000_0000 != 0);
            &&& fixed_register(function, index, reg) ==> (shown <==> {
                &&& !(function == 1 && reg == TdxCpuidReg::Ecx && b == 3)
                &&& !(function == 7 && reg == TdxCpuidReg::Ebx && b == 25)
                &&& offered_bit(function, index, reg, b) ==> bit(vmm_cap, b)
                &&& config || (!zero && (one || bit(vmm_cap, b) || bit(host, b)))
            })
            &&& function == 6 && reg == TdxCpuidReg::Eax ==> (shown <==> b == 2 && bit(vmm_cap, b))
            &&& function == 0x4000_0001 && reg == TdxCpuidReg::Eax ==> (shown <==> (b == 1 || b == 7
                || b == 9 || 11 <= b <= 13 || b == 15) && bit(vmm_cap, b))
            &&& function == 0x8000_0007 && reg == TdxCpuidReg::Edx ==> (shown <==> bit(vmm_cap, b))
            &&& !fixed_register(function, index, reg) && !trapping_register(function, reg)
                ==> supported_reg(caps, function, index, reg, vmm_cap, host) == vmm_cap
        }),
{
    let config = cap_config(caps.configs(), function, index, reg);
    let base = base_rule(caps.xfam_fixed0, caps.xfam_fixed1, function, index, reg);
    lemma_bits(0, 0, caps.xfam_fixed0, b);
    lemma_bits(0, 0, caps.xfam_fixed1, b);
    if let Some(rule) = cpuid_rule(caps, function, index, reg) {
        let f0 = base->0.fixed0;
        let f1 = base->0.fixed1;
        lemma_bits(f0, config, 0, b);
        lemma_bits(f1, config, 0, b);
        lemma_bits(f0 & !config, attr_forced(caps.attrs_fixed0, false), 0, b);
        lemma_bits(f1 & !config, attr_forced(caps.attrs_fixed1, true), 0, b);
        lemma_bits(f0 & !config, 0, 0, b);
        lemma_bits(f1 & !config, 0, 0, b);
        lemma_bits(CPUID_7_0_ECX_PKS, CPUID_7_0_ECX_KEY_LOCKER, 0, b);
        lemma_bits(0, CPUID_7_0_ECX_KEY_LOCKER, 0, b);
        lemma_bits(CPUID_7_0_ECX_PKS, 0, 0, b);
        if rule.inducing_ve {
            lemma_bits(vmm_cap, rule.supported_value_on_ve, 0, b);
        } else {
            supported_reg_bits(caps, function, index, reg, vmm_cap, host, b);
        }
    }
}

/// Configurable bits come from the last entry that speaks of the leaf, and
/// there are none where no entry does.
pub proof fn last_configuration_counts(
    configs: Seq<TdxCpuidConfigLegacy>,
    function: u32,
    index: u32,
    reg: TdxCpuidReg,
    k: int,
)
    requires
        0 <= k < configs.len(),
        forall|i: int|
            k < i < configs.len() ==> (#[trigger] configs[i]).leaf != function || (
            configs[i].sub_leaf != 0xffff_ffff && configs[i].sub_leaf != index),
    ensures
        configs[k].leaf == function && (configs[k].sub_leaf == index || configs[k].sub_leaf
            == 0xffff_ffff) ==> {
            &&& reg == TdxCpuidReg::Eax ==> cap_config(configs, function, index, reg)
                == configs[k].eax
            &&& reg == TdxCpuidReg::Ebx ==> cap_config(configs, function, index, reg)
                == configs[k].ebx
            &&& reg == TdxCpuidReg::Ecx ==> cap_config(configs, function, index, reg)
                == configs[k].ecx
            &&& reg == TdxCpuidReg::Edx ==> cap_config(configs, function, index, reg)
                == configs[k].edx
        },
        cap_config(configs, function, index, reg) == cap_config(
            configs.take(k + 1),
            function,
            index,
            reg,
        ),
    decreases configs.len(),
{
    if k == configs.len() - 1 {
        assert(configs.take(k + 1) =~= configs);
    } else {
        let shorter = configs.drop_last();
        assert(configs[configs.len() - 1].leaf != function || (configs[configs.len() - 1].sub_leaf
            != 0xffff_ffff && configs[configs.len() - 1].sub_leaf != index));
        last_configuration_counts(shorter, function, index, reg, k);
        assert(shorter.take(k + 1) =~= configs.take(k + 1));
    }
}

/// Exactly the leaves that the module takes are handed over, one for each in the
/// list, in the order of the list. The result says where each comes from. Leaf,
/// sub-leaf and flags stay; the registers of a leaf are shaped by what the host
/// reports for that same leaf. Leaves 0x12 and 0x14 are empty, and 0x4000_0000
/// says that there is one more leaf.
pub proof fn allowed_leaves_are_handed_over(
    caps: TdxCapabilitiesLegacy,
    cpuid: Seq<CpuIdEntry>,
    hosts: Seq<HostCpuid>,
) -> (at: Seq<int>)
    requires
        cpuid.len() == hosts.len(),
    ensures
        at.len() == filtered_entries(caps, cpuid, hosts).len(),
        forall|k: int| 0 <= k < at.len() ==> 0 <= #[trigger] at[k] < cpuid.len(),
        forall|j: int, k: int| 0 <= j < k < at.len() ==> #[trigger] at[j] < #[trigger] at[k],
        forall|i: int|
            0 <= i < cpuid.len() ==> (at.contains(i) <==> module_takes(#[trigger] cpuid[i])),
        forall|k: int|
            0 <= k < at.len() ==> shaped(
                caps,
                cpuid[#[trigger] at[k]],
                hosts[at[k]],
                filtered_entries(caps, cpuid, hosts)[k],
            ),
    decreases cpuid.len(),
{
    if cpuid.len() == 0 {
        Seq::empty()
    } else {
        let n = cpuid.len() - 1;
        let e = cpuid.last();
        let rest = allowed_leaves_are_handed_over(caps, cpuid.drop_last(), hosts.drop_last());
        let at = if entry_allowed(e) {
            rest.push(n)
        } else {
            rest
        };
        assert(entry_allowed(e) <==> module_takes(e));
        assert forall|i: int| 0 <= i < cpuid.len() implies (at.contains(i) <==> module_takes(
            #[trigger] cpuid[i],
        )) by {
            if i < n {
                assert(cpuid.drop_last()[i] == cpuid[i]);
                assert(rest.contains(i) <==> module_takes(cpuid[i]));
                if at.contains(i) {
                    let k = choose|k: int| 0 <= k < at.len() && at[k] == i;
                    assert(rest[k] == i);
                }
                if rest.contains(i) {
                    let k = choose|k: int| 0 <= k < rest.len() && rest[k] == i;
                    assert(at[k] == i);
                }
            } else {
                if entry_allowed(e) {
                    assert(at[at.len() - 1] == n);
                }
                if rest.contains(n) {
                    let k = choose|k: int| 0 <= k < rest.len() && rest[k] == n;
                    assert(rest[k] < n);
                }
            }
        }
        assert forall|k: int| 0 <= k < at.len() implies shaped(
            caps,
            cpuid[#[trigger] at[k]],
            hosts[at[k]],
            filtered_entries(caps, cpuid, hosts)[k],
        ) by {
            if k < rest.len() {
                assert(cpuid.drop_last()[rest[k]] == cpuid[at[k]]);
                assert(hosts.drop_last()[rest[k]] == hosts[at[k]]);
            }
        }
        at
    }
}

/// Whether the module takes an entry: the leaves that it knows, and the
/// sub-leaves that it knows of them.
pub open spec fn module_takes(e: CpuIdEntry) -> bool {
    let f = e.function;
    let i = e.index;
    ||| f == 0 || f == 1 || f == 2 || f == 4 || f == 5 || f == 6
    ||| f == 7 && (i == 0 || i == 1)
    ||| f == 0xb && (i == 0 || i == 1 || i == 2)
    ||| f == 0xd && (i == 0 || i == 1 || i == 2 || i == 5 || i == 6 || i == 7 || i == 9 || i == 15
        || i == 17 || i == 18 || i == 63)
    ||| f == 0x12 || f == 0x14 || f == 0x1d || f == 0x1e
    ||| f == 0x4000_0000 || f == 0x4000_0001
    ||| f == 0x8000_0000 || f == 0x8000_0001 || f == 0x8000_0002 || f == 0x8000_0003 || f
        == 0x8000_0004 || f == 0x8000_0005 || f == 0x8000_0006 || f == 0x8000_0008
}

/// Whether one entry is another one after shaping.
pub open spec fn shaped(
    caps: TdxCapabilitiesLegacy,
    e: CpuIdEntry,
    host: HostCpuid,
    r: CpuIdEntry,
) -> bool {
    let f = e.function;
    let i = e.index;
    &&& r.function == f && r.index == i && r.flags == e.flags
    &&& f == 0x12 || f == 0x14 ==> r.eax == 0 && r.ebx == 0 && r.ecx == 0 && r.edx == 0
    &&& f == 0x4000_0000 ==> r.eax == 0x4000_0001
    &&& f == 0xb ==> r.ecx == (supported_reg(caps, f, i, TdxCpuidReg::Ecx, e.ecx, host.ecx) & !0xff)
        | i
    &&& f != 0x12 && f != 0x14 ==> {
        &&& f != 0x4000_0000 ==> r.eax == supported_reg(
            caps,
            f,
            i,
            TdxCpuidReg::Eax,
            e.eax,
            host.eax,
        )
        &&& r.ebx == supported_reg(caps, f, i, TdxCpuidReg::Ebx, e.ebx, host.ebx)
        &&& f != 0xb ==> r.ecx == supported_reg(caps, f, i, TdxCpuidReg::Ecx, e.ecx, host.ecx)
        &&& r.edx == supported_reg(caps, f, i, TdxCpuidReg::Edx, e.edx, host.edx)
    }
}

} // verus!
