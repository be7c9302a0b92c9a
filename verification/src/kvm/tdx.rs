//! Setting up a trust domain and answering its calls.
use crate::bytes::read_u64_le;
use crate::kvm::tdx_cpuid::{
    tdx_legacy_cpuid_entries, CpuIdEntry, HostCpuid, TdxCapabilitiesLegacy,
};
use crate::kvm::vm::EnableCap;
use vstd::prelude::*;

verus! {

/// Attribute bit 0: the trust domain can be debugged.
pub const TDX_TD_ATTRIBUTES_DEBUG: u64 = 1;

/// Attribute bit 28: no exception on a missing secure page.
pub const TDX_TD_ATTRIBUTES_SEPT_VE_DISABLE: u64 = 0x1000_0000;

/// Attribute bit 63: performance counters.
pub const TDX_TD_ATTRIBUTES_PERFMON: u64 = 0x8000_0000_0000_0000;

pub const KVM_CAP_MAX_VCPUS_RAW: u32 = 66;

pub const KVM_CAP_MAX_VCPU_ID_RAW: u32 = 128;

pub const KVM_CAP_EXCEPTION_PAYLOAD_RAW: u32 = 164;

pub const KVM_CAP_X86_USER_SPACE_MSR_RAW: u32 = 188;

pub const KVM_CAP_X86_TRIPLE_FAULT_EVENT_RAW: u32 = 218;

pub const KVM_CAP_X86_NOTIFY_VMEXIT_RAW: u32 = 219;

/// What the user asks of a trust domain.
#[derive(Clone, Copy, Debug)]
pub struct TdxAttributes {
    pub sept_ve_disable: bool,
    pub debug: bool,
    pub perfmon: bool,
    /// Extended feature mask; derived from CPUID where absent.
    pub xfam: Option<u64>,
    pub mrconfigid: [u8; 48],
    pub mrowner: [u8; 48],
    pub mrownerconfig: [u8; 48],
}

impl Default for TdxAttributes {
    fn default() -> (r: TdxAttributes)
        ensures
            r.sept_ve_disable,
            !r.debug,
            !r.perfmon,
            r.xfam is None,
            r.mrconfigid@ == Seq::new(48, |i: int| 0u8),
            r.mrowner@ == Seq::new(48, |i: int| 0u8),
            r.mrownerconfig@ == Seq::new(48, |i: int| 0u8),
    {
        let r = TdxAttributes {
            sept_ve_disable: true,
            debug: false,
            perfmon: false,
            xfam: None,
            mrconfigid: [0u8;48],
            mrowner: [0u8;48],
            mrownerconfig: [0u8;48],
        };
        assert(r.mrconfigid@ =~= Seq::new(48, |i: int| 0u8));
        assert(r.mrowner@ =~= Seq::new(48, |i: int| 0u8));
        assert(r.mrownerconfig@ =~= Seq::new(48, |i: int| 0u8));
        r
    }
}

/// Capabilities reported by the current KVM interface.
pub struct TdxCapabilities {
    pub supported_attrs: u64,
    pub supported_xfam: u64,
    pub kernel_tdvmcallinfo_1_r11: u64,
    pub user_tdvmcallinfo_1_r11: u64,
    pub kernel_tdvmcallinfo_1_r12: u64,
    pub user_tdvmcallinfo_1_r12: u64,
    pub cpuid_nent: u32,
    pub cpuid_configs: [CpuIdEntry; 256],
}

impl TdxCapabilities {
    /// The configurable-bit masks that the kernel filled in.
    pub open spec fn configs(self) -> Seq<CpuIdEntry> {
        self.cpuid_configs@.take(
            if self.cpuid_nent < 256 {
                self.cpuid_nent as int
            } else {
                256
            },
        )
    }
}

impl Default for TdxCapabilities {
    fn default() -> (r: TdxCapabilities)
        ensures
            r.supported_attrs == 0,
            r.supported_xfam == 0,
            r.kernel_tdvmcallinfo_1_r11 == 0,
            r.user_tdvmcallinfo_1_r11 == 0,
            r.kernel_tdvmcallinfo_1_r12 == 0,
            r.user_tdvmcallinfo_1_r12 == 0,
            r.cpuid_nent == 0,
            r.cpuid_configs@ == Seq::new(256, |i: int| CpuIdEntry::zeroed()),
    {
        TdxCapabilities {
            supported_attrs: 0,
            supported_xfam: 0,
            kernel_tdvmcallinfo_1_r11: 0,
            user_tdvmcallinfo_1_r11: 0,
            kernel_tdvmcallinfo_1_r12: 0,
            user_tdvmcallinfo_1_r12: 0,
            cpuid_nent: 0,
            cpuid_configs: CpuIdEntry::zeroed_table(),
        }
    }
}

/// Why a trust domain cannot be initialised as asked.
#[derive(Clone, Copy, Debug, PartialEq, Eq, Structural)]
pub enum TdxInitError {
    /// The host cannot grant exactly the attributes that were asked for.
    UnsupportedAttributes { requested: u64, available: u64 },
    /// The host cannot grant exactly the extended features that were asked for.
    UnsupportedXfam { requested: u64 },
}

/// The words of a 48-byte measurement seed.
pub open spec fn seed_words(seed: Seq<u8>) -> Seq<u64> {
    Seq::new(6, |i: int| crate::bytes::le64(seed, 8 * i))
}

/// A measurement seed as six words that lie in memory as the seed's bytes.
pub fn tdx_mr_seed_to_u64x6(seed: &[u8; 48]) -> (out: [u64; 6])
    ensures
        out@ == seed_words(seed@),
{
    let mut out: [u64; 6] = [0u64;6];
    let mut i: usize = 0;
    while i < 6
        invariant
            i <= 6,
            seed@.len() == 48,
            forall|k: int| 0 <= k < i ==> out@[k] == crate::bytes::le64(seed@, 8 * k),
        decreases 6 - i,
    {
        out[i] = read_u64_le(seed, 8 * i);
        i = i + 1;
    }
    assert(out@ =~= seed_words(seed@));
    out
}

/// The attributes that the user's flags ask for.
pub open spec fn requested_attributes(attrs: TdxAttributes) -> u64 {
    (if attrs.sept_ve_disable {
        TDX_TD_ATTRIBUTES_SEPT_VE_DISABLE
    } else {
        0u64
    }) | (if attrs.debug {
        TDX_TD_ATTRIBUTES_DEBUG
    } else {
        0u64
    }) | (if attrs.perfmon {
        TDX_TD_ATTRIBUTES_PERFMON
    } else {
        0u64
    })
}

proof fn lemma_or_zero_u64()
    by (bit_vector)
    ensures
        forall|a: u64| #[trigger] (a | 0u64) == a,
        forall|a: u64| #[trigger] (0u64 | a) == a,
{
}

/// The attributes that the user's flags ask for.
pub fn tdx_requested_attributes(attrs: &TdxAttributes) -> (r: u64)
    ensures
        r == requested_attributes(*attrs),
{
    proof {
        lemma_or_zero_u64();
    }
    let mut requested: u64 = 0;
    if attrs.sept_ve_disable {
        requested = requested | TDX_TD_ATTRIBUTES_SEPT_VE_DISABLE;
    }
    if attrs.debug {
        requested = requested | TDX_TD_ATTRIBUTES_DEBUG;
    }
    if attrs.perfmon {
        requested = requested | TDX_TD_ATTRIBUTES_PERFMON;
    }
    requested
}

/// Each flag asks for its own attribute bit and no flag asks for another one.
pub proof fn attribute_bits(attrs: TdxAttributes)
    ensures
        (requested_attributes(attrs) & 0x1000_0000 != 0) == attrs.sept_ve_disable,
        (requested_attributes(attrs) & 1 != 0) == attrs.debug,
        (requested_attributes(attrs) & 0x8000_0000_0000_0000 != 0) == attrs.perfmon,
        requested_attributes(attrs) & !0x8000_0000_1000_0001u64 == 0,
{
    let a = attrs.sept_ve_disable;
    let b = attrs.debug;
    let c = attrs.perfmon;
    let r = requested_attributes(attrs);
    assert(r == (if a {
        0x1000_0000u64
    } else {
        0u64
    }) | (if b {
        1u64
    } else {
        0u64
    }) | (if c {
        0x8000_0000_0000_0000u64
    } else {
        0u64
    }) ==> ((r & 0x1000_0000 != 0) == a && (r & 1 != 0) == b && (r & 0x8000_0000_0000_0000 != 0)
        == c && r & !0x8000_0000_1000_0001u64 == 0)) by (bit_vector);
}

/// The mask in `eax` and `edx`, or in `ecx` and `edx`, of the last leaf 0xd
/// entry with a given sub-leaf; zero if there is none.
pub open spec fn xstate_mask(cpuid: Seq<CpuIdEntry>, sub_leaf: u32) -> u64
    decreases cpuid.len(),
{
    if cpuid.len() == 0 {
        0
    } else {
        let e = cpuid.last();
        if e.function == 0xd && e.index == sub_leaf {
            (if sub_leaf == 0 {
                e.eax as u64
            } else {
                e.ecx as u64
            }) | ((e.edx as u64) << 32)
        } else {
            xstate_mask(cpuid.drop_last(), sub_leaf)
        }
    }
}

/// The extended features that CPUID offers and the host supports.
pub open spec fn derived_xfam(cpuid: Seq<CpuIdEntry>, supported_xfam: u64) -> u64 {
    (xstate_mask(cpuid, 0) | xstate_mask(cpuid, 1)) & supported_xfam
}

/// The extended features that CPUID offers and the host supports.
pub fn tdx_derive_xfam(cpuid: &Vec<CpuIdEntry>, supported_xfam: u64) -> (r: u64)
    ensures
        r == derived_xfam(cpuid@, supported_xfam),
{
    let mut xcr0: u64 = 0;
    let mut xss: u64 = 0;
    let mut i: usize = 0;
    while i < cpuid.len()
        invariant
            i <= cpuid@.len(),
            xcr0 == xstate_mask(cpuid@.take(i as int), 0),
            xss == xstate_mask(cpuid@.take(i as int), 1),
        decreases cpuid@.len() - i,
    {
        let entry: CpuIdEntry = cpuid[i];
        proof {
            assert(cpuid@.take(i + 1).drop_last() =~= cpuid@.take(i as int));
        }
        if entry.function == 0xd {
            match entry.index {
                0 => {
                    xcr0 = entry.eax as u64 | ((entry.edx as u64) << 32);
                },
                1 => {
                    xss = entry.ecx as u64 | ((entry.edx as u64) << 32);
                },
                _ => {},
            }
        }
        i = i + 1;
    }
    assert(cpuid@.take(i as int) =~= cpuid@);
    (xcr0 | xss) & supported_xfam
}

/// Initialisation request of the older interface.
pub struct TdxInitVmLegacy {
    pub attributes: u64,
    pub mrconfigid: [u64; 6],
    pub mrowner: [u64; 6],
    pub mrownerconfig: [u64; 6],
    pub cpuid_nent: u32,
    pub cpuid_entries: Vec<CpuIdEntry>,
}

/// Initialisation request of the current interface.
pub struct TdxInitVm {
    pub attributes: u64,
    pub xfam: u64,
    pub mrconfigid: [u64; 6],
    pub mrowner: [u64; 6],
    pub mrownerconfig: [u64; 6],
    pub cpuid_nent: u32,
    pub cpuid_entries: Vec<CpuIdEntry>,
}

/// A list cut or padded with zero entries to the 256 slots of a request.
pub open spec fn padded(entries: Seq<CpuIdEntry>) -> Seq<CpuIdEntry> {
    Seq::new(
        256,
        |i: int|
            if i < entries.len() {
                entries[i]
            } else {
                CpuIdEntry::zeroed()
            },
    )
}

fn pad(entries: &Vec<CpuIdEntry>) -> (r: Vec<CpuIdEntry>)
    ensures
        r@ == padded(entries@),
{
    let mut r: Vec<CpuIdEntry> = Vec::new();
    let mut i: usize = 0;
    while i < 256
        invariant
            i <= 256,
            r@.len() == i,
            forall|k: int| 0 <= k < i ==> r@[k] == padded(entries@)[k],
        decreases 256 - i,
    {
        if i < entries.len() {
            r.push(entries[i]);
        } else {
            r.push(CpuIdEntry::default());
        }
        i = i + 1;
    }
    assert(r@ =~= padded(entries@));
    r
}

/// What the older interface makes of requested attributes.
pub open spec fn legacy_available(caps: TdxCapabilitiesLegacy, requested: u64) -> u64 {
    (requested & caps.attrs_fixed0) | caps.attrs_fixed1
}

/// Whether the older interface can grant an extended feature mask.
pub open spec fn legacy_xfam_ok(caps: TdxCapabilitiesLegacy, xfam: u64) -> bool {
    xfam & !caps.xfam_fixed0 == 0 && xfam & caps.xfam_fixed1 == caps.xfam_fixed1
}

/// The initialisation request of the older interface, or why there is none.
pub open spec fn legacy_init_vm_answered(
    caps: TdxCapabilitiesLegacy,
    cpuid: Seq<CpuIdEntry>,
    hosts: Seq<HostCpuid>,
    attrs: TdxAttributes,
    r: Result<TdxInitVmLegacy, TdxInitError>,
) -> bool {
    let requested = requested_attributes(attrs);
    let available = legacy_available(caps, requested);
    let entries = crate::kvm::tdx_cpuid::filtered_entries(caps, cpuid, hosts);
    if available != requested {
        r == Err::<TdxInitVmLegacy, TdxInitError>(
            TdxInitError::UnsupportedAttributes { requested, available },
        )
    } else if attrs.xfam is Some && !legacy_xfam_ok(caps, attrs.xfam->0) {
        r == Err::<TdxInitVmLegacy, TdxInitError>(
            TdxInitError::UnsupportedXfam { requested: attrs.xfam->0 },
        )
    } else {
        &&& r is Ok
        &&& r->Ok_0.attributes == requested
        &&& r->Ok_0.mrconfigid@ == seed_words(attrs.mrconfigid@)
        &&& r->Ok_0.mrowner@ == seed_words(attrs.mrowner@)
        &&& r->Ok_0.mrownerconfig@ == seed_words(attrs.mrownerconfig@)
        &&& r->Ok_0.cpuid_nent == entries.len()
        &&& r->Ok_0.cpuid_entries@ == padded(entries)
    }
}

/// Prepares the initialisation request of the older interface.
///
/// Attributes and an explicit extended feature mask are held against the
/// capabilities, and a request that the host would alter is refused.
pub fn tdx_legacy_init_vm(
    caps: &TdxCapabilitiesLegacy,
    cpuid: &Vec<CpuIdEntry>,
    hosts: &Vec<HostCpuid>,
    attrs: &TdxAttributes,
) -> (r: Result<TdxInitVmLegacy, TdxInitError>)
    requires
        cpuid@.len() == hosts@.len(),
        cpuid@.len() <= u32::MAX,
    ensures
        legacy_init_vm_answered(*caps, cpuid@, hosts@, *attrs, r),
{
    let entries: Vec<CpuIdEntry> = tdx_legacy_cpuid_entries(caps, cpuid, hosts);
    proof {
        crate::kvm::tdx_cpuid::filtered_entries_allowed(*caps, cpuid@, hosts@);
    }
    let requested: u64 = tdx_requested_attributes(attrs);
    let available: u64 = (requested & caps.attrs_fixed0) | caps.attrs_fixed1;
    if available != requested {
        return Err(TdxInitError::UnsupportedAttributes { requested, available });
    }
    if let Some(v) = attrs.xfam {
        if (v & !caps.xfam_fixed0) != 0 || (v & caps.xfam_fixed1) != caps.xfam_fixed1 {
            return Err(TdxInitError::UnsupportedXfam { requested: v });
        }
    }
    Ok(
        TdxInitVmLegacy {
            attributes: available,
            mrconfigid: tdx_mr_seed_to_u64x6(&attrs.mrconfigid),
            mrowner: tdx_mr_seed_to_u64x6(&attrs.mrowner),
            mrownerconfig: tdx_mr_seed_to_u64x6(&attrs.mrownerconfig),
            cpuid_nent: entries.len() as u32,
            cpuid_entries: pad(&entries),
        },
    )
}

/// Position of the first mask for a leaf and sub-leaf, or the length.
pub open spec fn first_mask(masks: Seq<CpuIdEntry>, function: u32, index: u32) -> int
    decreases masks.len(),
{
    if masks.len() == 0 || (masks[0].function == function && masks[0].index == index) {
        0
    } else {
        1 + first_mask(masks.drop_first(), function, index)
    }
}

/// An entry cut down to the bits of a mask.
pub open spec fn masked(e: CpuIdEntry, mask: CpuIdEntry) -> CpuIdEntry {
    CpuIdEntry {
        eax: e.eax & mask.eax,
        ebx: e.ebx & mask.ebx,
        ecx: e.ecx & mask.ecx,
        edx: e.edx & mask.edx,
        ..e
    }
}

/// The entries for which the capabilities have a mask, each cut down to the
/// first such mask.
pub open spec fn masked_entries(cpuid: Seq<CpuIdEntry>, masks: Seq<CpuIdEntry>) -> Seq<CpuIdEntry>
    decreases cpuid.len(),
{
    if cpuid.len() == 0 {
        Seq::empty()
    } else {
        let e = cpuid.last();
        let at = first_mask(masks, e.function, e.index);
        let rest = masked_entries(cpuid.drop_last(), masks);
        if at < masks.len() {
            rest.push(masked(e, masks[at]))
        } else {
            rest
        }
    }
}

proof fn lemma_first_mask(masks: Seq<CpuIdEntry>, function: u32, index: u32, k: int)
    requires
        0 <= k <= masks.len(),
        forall|i: int|
            0 <= i < k ==> !((#[trigger] masks[i]).function == function && masks[i].index == index),
        k < masks.len() ==> masks[k].function == function && masks[k].index == index,
    ensures
        first_mask(masks, function, index) == k,
    decreases masks.len(),
{
    if k > 0 {
        assert(!(masks[0].function == function && masks[0].index == index));
        assert forall|i: int| 0 <= i < k - 1 implies !((
        #[trigger] masks.drop_first()[i]).function == function && masks.drop_first()[i].index
            == index) by {
            assert(masks[i + 1] == masks.drop_first()[i]);
        }
        lemma_first_mask(masks.drop_first(), function, index, k - 1);
    }
}

proof fn lemma_masked_len(cpuid: Seq<CpuIdEntry>, masks: Seq<CpuIdEntry>)
    ensures
        masked_entries(cpuid, masks).len() <= cpuid.len(),
    decreases cpuid.len(),
{
    if cpuid.len() > 0 {
        lemma_masked_len(cpuid.drop_last(), masks);
    }
}

fn mask_entries(caps: &TdxCapabilities, cpuid: &Vec<CpuIdEntry>) -> (out: Vec<CpuIdEntry>)
    ensures
        out@ == masked_entries(cpuid@, caps.configs()),
{
    let nent: usize = if caps.cpuid_nent < 256 {
        caps.cpuid_nent as usize
    } else {
        256
    };
    let mut out: Vec<CpuIdEntry> = Vec::new();
    let mut i: usize = 0;
    while i < cpuid.len()
        invariant
            i <= cpuid@.len(),
            nent == caps.configs().len(),
            nent <= 256,
            caps.cpuid_configs@.len() == 256,
            caps.configs() == caps.cpuid_configs@.take(nent as int),
            out@ == masked_entries(cpuid@.take(i as int), caps.configs()),
        decreases cpuid@.len() - i,
    {
        let entry: CpuIdEntry = cpuid[i];
        let mut k: usize = 0;
        while k < nent && !(caps.cpuid_configs[k].function == entry.function
            && caps.cpuid_configs[k].index == entry.index)
            invariant
                k <= nent <= 256,
                nent == caps.configs().len(),
                caps.cpuid_configs@.len() == 256,
                caps.configs() == caps.cpuid_configs@.take(nent as int),
                forall|j: int|
                    0 <= j < k ==> !((#[trigger] caps.configs()[j]).function == entry.function
                        && caps.configs()[j].index == entry.index),
            decreases nent - k,
        {
            assert(caps.configs()[k as int] == caps.cpuid_configs@[k as int]);
            k = k + 1;
        }
        proof {
            lemma_first_mask(caps.configs(), entry.function, entry.index, k as int);
            assert(cpuid@.take(i + 1).drop_last() =~= cpuid@.take(i as int));
        }
        if k < nent {
            let mask: CpuIdEntry = caps.cpuid_configs[k];
            out.push(
                CpuIdEntry {
                    function: entry.function,
                    index: entry.index,
                    flags: entry.flags,
                    eax: entry.eax & mask.eax,
                    ebx: entry.ebx & mask.ebx,
                    ecx: entry.ecx & mask.ecx,
                    edx: entry.edx & mask.edx,
                },
            );
        }
        i = i + 1;
    }
    assert(cpuid@.take(i as int) =~= cpuid@);
    out
}

/// The initialisation request of the current interface, or why there is none.
pub open spec fn init_vm_answered(
    caps: TdxCapabilities,
    cpuid: Seq<CpuIdEntry>,
    attrs: TdxAttributes,
    r: Result<TdxInitVm, TdxInitError>,
) -> bool {
    let requested = requested_attributes(attrs);
    let available = requested & caps.supported_attrs;
    let entries = masked_entries(cpuid, caps.configs());
    if available != requested {
        r == Err::<TdxInitVm, TdxInitError>(
            TdxInitError::UnsupportedAttributes { requested, available },
        )
    } else if attrs.xfam is Some && attrs.xfam->0 & caps.supported_xfam != attrs.xfam->0 {
        r == Err::<TdxInitVm, TdxInitError>(
            TdxInitError::UnsupportedXfam { requested: attrs.xfam->0 },
        )
    } else {
        &&& r is Ok
        &&& r->Ok_0.attributes == requested
        &&& r->Ok_0.xfam == (match attrs.xfam {
            Some(v) => v,
            None => derived_xfam(cpuid, caps.supported_xfam),
        })
        &&& r->Ok_0.mrconfigid@ == seed_words(attrs.mrconfigid@)
        &&& r->Ok_0.mrowner@ == seed_words(attrs.mrowner@)
        &&& r->Ok_0.mrownerconfig@ == seed_words(attrs.mrownerconfig@)
        &&& r->Ok_0.cpuid_nent == entries.len()
        &&& r->Ok_0.cpuid_entries@ == padded(entries)
    }
}

/// Prepares the initialisation request of the current interface.
///
/// Attributes and an explicit extended feature mask are held against the
/// capabilities, and a request that asks for more than they allow is refused.
/// Without an explicit mask the features that CPUID offers and the host
/// supports are used.
pub fn tdx_init_vm(caps: &TdxCapabilities, cpuid: &Vec<CpuIdEntry>, attrs: &TdxAttributes) -> (r:
    Result<TdxInitVm, TdxInitError>)
    requires
        cpuid@.len() <= u32::MAX,
    ensures
        init_vm_answered(*caps, cpuid@, *attrs, r),
{
    let requested: u64 = tdx_requested_attributes(attrs);
    let available: u64 = requested & caps.supported_attrs;
    if available != requested {
        return Err(TdxInitError::UnsupportedAttributes { requested, available });
    }
    let xfam: u64 = match attrs.xfam {
        Some(v) => {
            let granted: u64 = v & caps.supported_xfam;
            if granted != v {
                return Err(TdxInitError::UnsupportedXfam { requested: v });
            }
            granted
        },
        None => tdx_derive_xfam(cpuid, caps.supported_xfam),
    };
    let entries: Vec<CpuIdEntry> = mask_entries(caps, cpuid);
    proof {
        lemma_masked_len(cpuid@, caps.configs());
    }
    Ok(
        TdxInitVm {
            attributes: available,
            xfam,
            mrconfigid: tdx_mr_seed_to_u64x6(&attrs.mrconfigid),
            mrowner: tdx_mr_seed_to_u64x6(&attrs.mrowner),
            mrownerconfig: tdx_mr_seed_to_u64x6(&attrs.mrownerconfig),
            cpuid_nent: entries.len() as u32,
            cpuid_entries: pad(&entries),
        },
    )
}

/// The next thing to do when initialising a trust domain. Each step has to
/// succeed before the next one is taken.
#[derive(Clone, Copy, Debug, PartialEq, Eq, Structural)]
pub enum TdxInitAction {
    /// Enable a capability on the VM.
    EnableCap(EnableCap),
    /// Let the guest run at the host's time stamp counter frequency.
    SetHostTscFrequency,
    /// Read the capabilities, prepare the request and issue it.
    InitVm,
    /// All done.
    Finished,
}

/// The steps, in order: the older interface needs capabilities enabled first.
pub open spec fn init_action(legacy: bool, max_vcpus: u32, step: int) -> TdxInitAction {
    let step = if legacy {
        step
    } else {
        step + 6
    };
    if step == 0 {
        TdxInitAction::EnableCap(EnableCap { cap: KVM_CAP_EXCEPTION_PAYLOAD_RAW, arg0: 1 })
    } else if step == 1 {
        TdxInitAction::EnableCap(EnableCap { cap: KVM_CAP_X86_TRIPLE_FAULT_EVENT_RAW, arg0: 1 })
    } else if step == 2 {
        TdxInitAction::EnableCap(EnableCap { cap: KVM_CAP_X86_NOTIFY_VMEXIT_RAW, arg0: 3 })
    } else if step == 3 {
        TdxInitAction::EnableCap(EnableCap { cap: KVM_CAP_X86_USER_SPACE_MSR_RAW, arg0: 4 })
    } else if step == 4 {
        TdxInitAction::EnableCap(
            EnableCap { cap: KVM_CAP_MAX_VCPU_ID_RAW, arg0: max_vcpus as u64 },
        )
    } else if step == 5 {
        TdxInitAction::EnableCap(EnableCap { cap: KVM_CAP_MAX_VCPUS_RAW, arg0: max_vcpus as u64 })
    } else if step == 6 {
        TdxInitAction::SetHostTscFrequency
    } else if step == 7 {
        TdxInitAction::InitVm
    } else {
        TdxInitAction::Finished
    }
}

/// What to do in step `step` of initialising a trust domain.
pub fn tdx_init_action(legacy: bool, max_vcpus: u32, step: u8) -> (r: TdxInitAction)
    ensures
        r == init_action(legacy, max_vcpus, step as int),
{
    if legacy && step < 6 {
        let (cap, arg0): (u32, u64) = match step {
            0 => (KVM_CAP_EXCEPTION_PAYLOAD_RAW, 1),
            1 => (KVM_CAP_X86_TRIPLE_FAULT_EVENT_RAW, 1),
            2 => (KVM_CAP_X86_NOTIFY_VMEXIT_RAW, 3),
            3 => (KVM_CAP_X86_USER_SPACE_MSR_RAW, 4),
            4 => (KVM_CAP_MAX_VCPU_ID_RAW, max_vcpus as u64),
            _ => (KVM_CAP_MAX_VCPUS_RAW, max_vcpus as u64),
        };
        return TdxInitAction::EnableCap(EnableCap { cap, arg0 });
    }
    let rest: u8 = if legacy {
        step - 6
    } else {
        step
    };
    match rest {
        0 => TdxInitAction::SetHostTscFrequency,
        1 => TdxInitAction::InitVm,
        _ => TdxInitAction::Finished,
    }
}

/// One request that adds guest memory to a trust domain.
#[derive(Clone, Copy, Debug, PartialEq, Eq, Structural)]
pub enum TdxMemoryAction {
    /// Copy pages in (older interface). Interrupted or busy calls are repeated.
    CopyIn { base_gfn: u64, nr_pages: u64, source: u64 },
    /// Extend the measurement by pages that are in place (older interface).
    Extend { base_gfn: u64, nr_pages: u64 },
    /// Copy pages in, and extend the measurement if asked (current interface).
    InitRegion { host_address: u64, guest_address: u64, pages: u64, measure: bool },
}

/// The requests that add a region to a trust domain before any vCPU exists.
pub open spec fn vm_region_requests(
    legacy: bool,
    host_address: u64,
    guest_address: u64,
    size: u64,
    measure: bool,
) -> Seq<TdxMemoryAction> {
    if !legacy {
        seq![
            TdxMemoryAction::InitRegion {
                host_address,
                guest_address,
                pages: size / 4096,
                measure,
            },
        ]
    } else if measure {
        seq![TdxMemoryAction::Extend { base_gfn: guest_address >> 12, nr_pages: size / 4096 }]
    } else {
        Seq::empty()
    }
}

/// The requests that add a region to a trust domain through a vCPU.
pub open spec fn vcpu_region_requests(
    legacy: bool,
    host_address: u64,
    guest_address: u64,
    size: u64,
    measure: bool,
) -> Seq<TdxMemoryAction> {
    if !legacy {
        seq![
            TdxMemoryAction::InitRegion {
                host_address,
                guest_address,
                pages: size / 4096,
                measure,
            },
        ]
    } else {
        seq![
            TdxMemoryAction::CopyIn {
                base_gfn: guest_address >> 12,
                nr_pages: size / 4096,
                source: host_address,
            },
        ] + (if measure {
            seq![TdxMemoryAction::Extend { base_gfn: guest_address >> 12, nr_pages: size / 4096 }]
        } else {
            Seq::empty()
        })
    }
}

/// The requests that add a region to a trust domain before any vCPU exists.
/// The older interface only measures here.
pub fn vm_init_memory_region(
    legacy: bool,
    host_address: u64,
    guest_address: u64,
    size: u64,
    measure: bool,
) -> (r: Vec<TdxMemoryAction>)
    ensures
        r@ == vm_region_requests(legacy, host_address, guest_address, size, measure),
{
    let mut r: Vec<TdxMemoryAction> = Vec::new();
    if !legacy {
        r.push(
            TdxMemoryAction::InitRegion { host_address, guest_address, pages: size / 4096, measure },
        );
    } else if measure {
        r.push(TdxMemoryAction::Extend { base_gfn: guest_address >> 12, nr_pages: size / 4096 });
    }
    r
}

/// The requests that add a region to a trust domain through a vCPU. The older
/// interface copies first and then measures.
pub fn vcpu_init_memory_region(
    legacy: bool,
    host_address: u64,
    guest_address: u64,
    size: u64,
    measure: bool,
) -> (r: Vec<TdxMemoryAction>)
    ensures
        r@ == vcpu_region_requests(legacy, host_address, guest_address, size, measure),
{
    let mut r: Vec<TdxMemoryAction> = Vec::new();
    if !legacy {
        r.push(
            TdxMemoryAction::InitRegion { host_address, guest_address, pages: size / 4096, measure },
        );
    } else {
        r.push(
            TdxMemoryAction::CopyIn {
                base_gfn: guest_address >> 12,
                nr_pages: size / 4096,
                source: host_address,
            },
        );
        if measure {
            r.push(TdxMemoryAction::Extend { base_gfn: guest_address >> 12, nr_pages: size / 4096 });
        }
    }
    r
}

/// Whether a register has exactly the bits that two others both have.
pub open spec fn has_common_bits(x: u32, a: u32, b: u32) -> bool {
    forall|k: u32|
        k < 32 ==> (#[trigger] (x >> k) & 1 == 1 <==> (a >> k) & 1 == 1 && (b >> k) & 1 == 1)
}

proof fn lemma_common_bits(a: u32, b: u32)
    ensures
        has_common_bits(a & b, a, b),
{
    assert forall|k: u32| k < 32 implies (#[trigger] ((a & b) >> k) & 1 == 1 <==> (a >> k) & 1 == 1
        && (b >> k) & 1 == 1) by {
        assert(((a & b) >> k) & 1 == ((a >> k) & 1) & ((b >> k) & 1) && (((a >> k) & 1) & ((b >> k)
            & 1) == 1) == ((a >> k) & 1 == 1 && (b >> k) & 1 == 1)) by (bit_vector);
    }
}

/// Whether mask `m` is the first one for a leaf and sub-leaf.
pub open spec fn masks_first(masks: Seq<CpuIdEntry>, m: int, function: u32, index: u32) -> bool {
    &&& 0 <= m < masks.len()
    &&& masks[m].function == function && masks[m].index == index
    &&& forall|i: int|
        0 <= i < m ==> (#[trigger] masks[i]).function != function || masks[i].index != index
}

/// Whether an entry is another one cut down to what a mask allows.
pub open spec fn cut_down(out: CpuIdEntry, e: CpuIdEntry, mask: CpuIdEntry) -> bool {
    &&& out.function == e.function && out.index == e.index && out.flags == e.flags
    &&& has_common_bits(out.eax, e.eax, mask.eax)
    &&& has_common_bits(out.ebx, e.ebx, mask.ebx)
    &&& has_common_bits(out.ecx, e.ecx, mask.ecx)
    &&& has_common_bits(out.edx, e.edx, mask.edx)
}

proof fn lemma_first_mask_is_first(masks: Seq<CpuIdEntry>, function: u32, index: u32)
    ensures
        0 <= first_mask(masks, function, index) <= masks.len(),
        first_mask(masks, function, index) < masks.len() ==> masks_first(
            masks,
            first_mask(masks, function, index),
            function,
            index,
        ),
        first_mask(masks, function, index) == masks.len() ==> forall|m: int|
            !masks_first(masks, m, function, index),
    decreases masks.len(),
{
    if masks.len() > 0 && !(masks[0].function == function && masks[0].index == index) {
        let rest = masks.drop_first();
        lemma_first_mask_is_first(rest, function, index);
        let r = first_mask(rest, function, index);
        assert forall|i: int| 0 <= i < 1 + r && 1 + r < masks.len() implies (
        #[trigger] masks[i]).function != function || masks[i].index != index by {
            if i > 0 {
                assert(rest[i - 1] == masks[i]);
            }
        }
        if r == rest.len() {
            assert forall|m: int| !masks_first(masks, m, function, index) by {
                if masks_first(masks, m, function, index) {
                    assert forall|i: int| 0 <= i < m - 1 implies (
                    #[trigger] rest[i]).function != function || rest[i].index != index by {
                        assert(masks[i + 1] == rest[i]);
                    }
                    assert(masks_first(rest, m - 1, function, index));
                }
            }
        }
    }
}

/// What a trust domain is offered of a processor's features. Each entry of the
/// request stands for an entry of the list that the monitor offers, in the same
/// order, and every register of it has exactly the bits that are set both there
/// and in the first mask for its leaf and sub-leaf. No entry that has a mask is
/// left out. Returns where each entry comes from.
pub proof fn features_are_offered_and_configurable(
    cpuid: Seq<CpuIdEntry>,
    masks: Seq<CpuIdEntry>,
) -> (at: Seq<int>)
    ensures
        at.len() == masked_entries(cpuid, masks).len(),
        forall|i: int, j: int| 0 <= i < j < at.len() ==> #[trigger] at[i] < #[trigger] at[j],
        forall|i: int|
            0 <= i < at.len() ==> 0 <= #[trigger] at[i] < cpuid.len() && exists|m: int|
                #[trigger] masks_first(masks, m, cpuid[at[i]].function, cpuid[at[i]].index)
                    && cut_down(masked_entries(cpuid, masks)[i], cpuid[at[i]], masks[m]),
        forall|j: int, m: int|
            0 <= j < cpuid.len() && #[trigger] masks_first(
                masks,
                m,
                cpuid[j].function,
                cpuid[j].index,
            ) ==> at.contains(j),
    decreases cpuid.len(),
{
    if cpuid.len() == 0 {
        Seq::empty()
    } else {
        let front = cpuid.drop_last();
        let e = cpuid.last();
        let before = features_are_offered_and_configurable(front, masks);
        lemma_first_mask_is_first(masks, e.function, e.index);
        let m = first_mask(masks, e.function, e.index);
        let out = masked_entries(cpuid, masks);
        let at = if m < masks.len() {
            before.push(cpuid.len() - 1)
        } else {
            before
        };
        assert forall|i: int| 0 <= i < at.len() implies 0 <= #[trigger] at[i] < cpuid.len()
            && exists|m: int|
            #[trigger] masks_first(masks, m, cpuid[at[i]].function, cpuid[at[i]].index) && cut_down(
                out[i],
                cpuid[at[i]],
                masks[m],
            ) by {
            if i < before.len() {
                assert(0 <= before[i] < front.len());
                assert(front[before[i]] == cpuid[at[i]]);
                assert(out[i] == masked_entries(front, masks)[i]);
            } else {
                lemma_common_bits(e.eax, masks[m].eax);
                lemma_common_bits(e.ebx, masks[m].ebx);
                lemma_common_bits(e.ecx, masks[m].ecx);
                lemma_common_bits(e.edx, masks[m].edx);
                assert(cut_down(out[i], e, masks[m]));
            }
        }
        assert forall|j: int, m: int|
            0 <= j < cpuid.len() && #[trigger] masks_first(
                masks,
                m,
                cpuid[j].function,
                cpuid[j].index,
            ) implies at.contains(j) by {
            if j < front.len() {
                assert(front[j] == cpuid[j]);
                assert(before.contains(j));
                let k = choose|k: int| 0 <= k < before.len() && before[k] == j;
                assert(at[k] == j);
            } else {
                assert(at[at.len() - 1] == j);
            }
        }
        at
    }
}

/// The derived extended features are those that the last leaf 0xd entries offer,
/// the user ones in `eax` of sub-leaf 0 and the supervisor ones in `ecx` of
/// sub-leaf 1, the upper half in `edx` of either, as far as the host supports
/// them.
pub proof fn extended_features_are_offered_and_supported(
    cpuid: Seq<CpuIdEntry>,
    supported: u64,
    user: int,
    supervisor: int,
    k: u64,
    h: u64,
)
    requires
        0 <= user < cpuid.len(),
        cpuid[user].function == 0xd && cpuid[user].index == 0,
        forall|i: int|
            user < i < cpuid.len() ==> !((#[trigger] cpuid[i]).function == 0xd && cpuid[i].index
                == 0),
        0 <= supervisor < cpuid.len(),
        cpuid[supervisor].function == 0xd && cpuid[supervisor].index == 1,
        forall|i: int|
            supervisor < i < cpuid.len() ==> !((#[trigger] cpuid[i]).function == 0xd
                && cpuid[i].index == 1),
        k < 32,
        h == k + 32,
    ensures
        (derived_xfam(cpuid, supported) >> k) & 1 == 1 <==> (supported >> k) & 1 == 1 && ((
        cpuid[user].eax >> k) & 1 == 1 || (cpuid[supervisor].ecx >> k) & 1 == 1),
        (derived_xfam(cpuid, supported) >> h) & 1 == 1 <==> (supported >> h) & 1
            == 1 && ((cpuid[user].edx >> k) & 1 == 1 || (cpuid[supervisor].edx >> k) & 1 == 1),
{
    lemma_xstate_mask(cpuid, user, 0);
    lemma_xstate_mask(cpuid, supervisor, 1);
    let (a, b) = (cpuid[user].eax, cpuid[user].edx);
    let (c, d) = (cpuid[supervisor].ecx, cpuid[supervisor].edx);
    let x = ((a as u64 | ((b as u64) << 32)) | (c as u64 | ((d as u64) << 32))) & supported;
    assert(((x >> k) & 1 == 1) == ((supported >> k) & 1 == 1 && ((a >> k) & 1 == 1 || (c >> k) & 1
        == 1)) && ((x >> h) & 1 == 1) == ((supported >> h) & 1 == 1 && ((b >> k) & 1 == 1 || (d
        >> k) & 1 == 1))) by (bit_vector)
        requires
            k < 32,
            h == k + 32,
            x == ((a as u64 | ((b as u64) << 32)) | (c as u64 | ((d as u64) << 32))) & supported,
    ;
}

proof fn lemma_xstate_mask(cpuid: Seq<CpuIdEntry>, at: int, sub_leaf: u32)
    requires
        0 <= at < cpuid.len(),
        cpuid[at].function == 0xd && cpuid[at].index == sub_leaf,
        forall|i: int|
            at < i < cpuid.len() ==> !((#[trigger] cpuid[i]).function == 0xd && cpuid[i].index
                == sub_leaf),
    ensures
        xstate_mask(cpuid, sub_leaf) == (if sub_leaf == 0 {
            cpuid[at].eax as u64
        } else {
            cpuid[at].ecx as u64
        }) | ((cpuid[at].edx as u64) << 32),
    decreases cpuid.len(),
{
    if at < cpuid.len() - 1 {
        assert(!(cpuid[cpuid.len() - 1].function == 0xd && cpuid[cpuid.len() - 1].index == sub_leaf));
        lemma_xstate_mask(cpuid.drop_last(), at, sub_leaf);
    }
}

/// Whether six words lie in memory as a seed's 48 bytes.
pub open spec fn lies_as(words: Seq<u64>, seed: Seq<u8>) -> bool {
    &&& words.len() == 6
    &&& forall|i: int|
        0 <= i < 6 ==> crate::bytes::u64_le(#[trigger] words[i]) == seed.subrange(8 * i, 8 * i + 8)
}

proof fn lemma_seed_lies(seed: Seq<u8>)
    requires
        seed.len() == 48,
    ensures
        lies_as(seed_words(seed), seed),
{
    assert forall|i: int| 0 <= i < 6 implies crate::bytes::u64_le(#[trigger] seed_words(seed)[i])
        == seed.subrange(8 * i, 8 * i + 8) by {
        crate::bytes::read_then_written(seed, 8 * i);
    }
}

/// What a trust domain gets is what was asked for, or it is refused. Its
/// attributes have bit 28, 0 and 63 exactly as the flags say and no other bit,
/// each seed goes to its own place byte by byte, an explicit extended feature
/// mask is taken as it is, and behind the counted entries there are only
/// zeros. It is refused exactly if a bit that was asked for is not supported.
pub proof fn domain_gets_what_was_asked(
    caps: TdxCapabilities,
    cpuid: Seq<CpuIdEntry>,
    attrs: TdxAttributes,
    r: Result<TdxInitVm, TdxInitError>,
)
    requires
        init_vm_answered(caps, cpuid, attrs, r),
        cpuid.len() <= u32::MAX,
    ensures
        r matches Ok(q) ==> {
            &&& (q.attributes & 0x1000_0000 != 0) == attrs.sept_ve_disable
            &&& (q.attributes & 1 != 0) == attrs.debug
            &&& (q.attributes & 0x8000_0000_0000_0000 != 0) == attrs.perfmon
            &&& q.attributes & !0x8000_0000_1000_0001u64 == 0
            &&& q.attributes & !caps.supported_attrs == 0
            &&& attrs.xfam matches Some(v) ==> q.xfam == v && v & !caps.supported_xfam == 0
            &&& lies_as(q.mrconfigid@, attrs.mrconfigid@)
            &&& lies_as(q.mrowner@, attrs.mrowner@)
            &&& lies_as(q.mrownerconfig@, attrs.mrownerconfig@)
            &&& q.cpuid_entries@.len() == 256
            &&& forall|i: int|
                q.cpuid_nent <= i < 256 ==> #[trigger] q.cpuid_entries@[i] == CpuIdEntry::zeroed()
            &&& forall|i: int|
                0 <= i < q.cpuid_nent && i < 256 ==> #[trigger] q.cpuid_entries@[i]
                    == masked_entries(cpuid, caps.configs())[i]
        },
        r is Err <==> requested_attributes(attrs) & !caps.supported_attrs != 0 || (
        attrs.xfam matches Some(v) && v & !caps.supported_xfam != 0),
{
    attribute_bits(attrs);
    lemma_masked_len(cpuid, caps.configs());
    lemma_seed_lies(attrs.mrconfigid@);
    lemma_seed_lies(attrs.mrowner@);
    lemma_seed_lies(attrs.mrownerconfig@);
    lemma_subset(requested_attributes(attrs), caps.supported_attrs, 0);
    if attrs.xfam is Some {
        lemma_subset(attrs.xfam->0, caps.supported_xfam, 0);
    }
}

proof fn lemma_subset(x: u64, allowed: u64, forced: u64)
    by (bit_vector)
    ensures
        (x & allowed == x) == (x & !allowed == 0),
        (x & forced == forced) == (forced & !x == 0),
        ((x & allowed) | forced == x) == (x & !(allowed | forced) == 0 && forced & !x == 0),
{
}

/// The same of the older interface. It is refused exactly if a bit that was
/// asked for can only be zero, or one that can only be one was not asked for.
pub proof fn domain_gets_what_was_asked_of_the_older_interface(
    caps: TdxCapabilitiesLegacy,
    cpuid: Seq<CpuIdEntry>,
    hosts: Seq<HostCpuid>,
    attrs: TdxAttributes,
    r: Result<TdxInitVmLegacy, TdxInitError>,
)
    requires
        legacy_init_vm_answered(caps, cpuid, hosts, attrs, r),
        cpuid.len() == hosts.len(),
        cpuid.len() <= u32::MAX,
    ensures
        r matches Ok(q) ==> {
            &&& (q.attributes & 0x1000_0000 != 0) == attrs.sept_ve_disable
            &&& (q.attributes & 1 != 0) == attrs.debug
            &&& (q.attributes & 0x8000_0000_0000_0000 != 0) == attrs.perfmon
            &&& q.attributes & !0x8000_0000_1000_0001u64 == 0
            &&& lies_as(q.mrconfigid@, attrs.mrconfigid@)
            &&& lies_as(q.mrowner@, attrs.mrowner@)
            &&& lies_as(q.mrownerconfig@, attrs.mrownerconfig@)
            &&& q.cpuid_entries@.len() == 256
            &&& forall|i: int|
                q.cpuid_nent <= i < 256 ==> #[trigger] q.cpuid_entries@[i] == CpuIdEntry::zeroed()
            &&& forall|i: int|
                0 <= i < q.cpuid_nent && i < 256 ==> #[trigger] q.cpuid_entries@[i]
                    == crate::kvm::tdx_cpuid::filtered_entries(caps, cpuid, hosts)[i]
        },
        r is Err <==> {
            let asked = requested_attributes(attrs);
            ||| asked & !(caps.attrs_fixed0 | caps.attrs_fixed1) != 0
            ||| caps.attrs_fixed1 & !asked != 0
            ||| attrs.xfam matches Some(v) && (v & !caps.xfam_fixed0 != 0 || caps.xfam_fixed1 & !v
                != 0)
        },
{
    attribute_bits(attrs);
    crate::kvm::tdx_cpuid::filtered_entries_allowed(caps, cpuid, hosts);
    lemma_seed_lies(attrs.mrconfigid@);
    lemma_seed_lies(attrs.mrowner@);
    lemma_seed_lies(attrs.mrownerconfig@);
    lemma_subset(requested_attributes(attrs), caps.attrs_fixed0, caps.attrs_fixed1);
    if attrs.xfam is Some {
        lemma_subset(attrs.xfam->0, caps.xfam_fixed0, caps.xfam_fixed1);
    }
}

/// Attributes are granted exactly if the host need not alter them: on the
/// current interface they are all supported; on the older one they stay within
/// what is variable or forced, and ask for everything that is forced.
pub proof fn attributes_granted_unaltered(
    caps: TdxCapabilities,
    legacy_caps: TdxCapabilitiesLegacy,
    requested: u64,
)
    ensures
        requested & caps.supported_attrs == requested <==> requested & !caps.supported_attrs == 0,
        legacy_available(legacy_caps, requested) == requested <==> (requested & !(
        legacy_caps.attrs_fixed0 | legacy_caps.attrs_fixed1) == 0 && legacy_caps.attrs_fixed1
            & !requested == 0),
{
    lemma_subset(requested, caps.supported_attrs, 0);
    lemma_subset(requested, legacy_caps.attrs_fixed0, legacy_caps.attrs_fixed1);
}

/// Whether a page is put into guest memory by a list of requests, and from where.
pub open spec fn filled_from(requests: Seq<TdxMemoryAction>, page: int, source: int) -> bool {
    exists|i: int| 0 <= i < requests.len() && fills(#[trigger] requests[i], page, source)
}

/// Whether a request puts a page into guest memory, and from where. A page is
/// known by its guest address.
pub open spec fn fills(request: TdxMemoryAction, page: int, source: int) -> bool {
    match request {
        TdxMemoryAction::CopyIn { base_gfn, nr_pages, source: from } => {
            &&& 4096 * base_gfn <= page < 4096 * base_gfn + 4096 * nr_pages
            &&& source - from == page - 4096 * base_gfn
        },
        TdxMemoryAction::InitRegion { host_address, guest_address, pages, .. } => {
            &&& guest_address <= page < guest_address + 4096 * pages
            &&& source - host_address == page - guest_address
        },
        TdxMemoryAction::Extend { .. } => false,
    }
}

/// Whether a page is measured by a list of requests.
pub open spec fn is_measured(requests: Seq<TdxMemoryAction>, page: int) -> bool {
    exists|i: int| 0 <= i < requests.len() && measures(#[trigger] requests[i], page)
}

/// Whether a request measures a page.
pub open spec fn measures(request: TdxMemoryAction, page: int) -> bool {
    match request {
        TdxMemoryAction::CopyIn { .. } => false,
        TdxMemoryAction::InitRegion { guest_address, pages, measure, .. } => measure
            && guest_address <= page < guest_address + 4096 * pages,
        TdxMemoryAction::Extend { base_gfn, nr_pages } => 4096 * base_gfn <= page < 4096 * base_gfn
            + 4096 * nr_pages,
    }
}

/// Exactly the pages of a region are put into the trust domain, each from its own
/// place, and they are measured exactly if that is asked for; with the older
/// interface after they are there. What is done before there is a vCPU copies
/// nothing with the older interface.
pub proof fn region_is_filled_and_measured(
    legacy: bool,
    host_address: u64,
    guest_address: u64,
    size: u64,
    measure: bool,
    page: int,
    source: int,
)
    requires
        guest_address % 4096 == 0,
        size % 4096 == 0,
    ensures
        ({
            let vm = vm_region_requests(legacy, host_address, guest_address, size, measure);
            let vcpu = vcpu_region_requests(legacy, host_address, guest_address, size, measure);
            let inside = guest_address <= page < guest_address + size;
            let right = source - host_address == page - guest_address;
            &&& filled_from(vcpu, page, source) <==> inside && right
            &&& filled_from(vm, page, source) <==> !legacy && inside && right
            &&& is_measured(vcpu, page) <==> measure && inside
            &&& is_measured(vm, page) <==> measure && inside
            &&& legacy && measure ==> vcpu.len() == 2 && vcpu[0] is CopyIn && vcpu[1] is Extend
        }),
{
    vstd::bits::lemma_u64_shr_is_div(guest_address, 12);
    vstd::arithmetic::power2::lemma2_to64();
    assert(guest_address >> 12 == guest_address / 4096);
    assert(4096 * (guest_address / 4096) == guest_address);
    assert(4096 * (size / 4096) == size);
    let vm = vm_region_requests(legacy, host_address, guest_address, size, measure);
    let vcpu = vcpu_region_requests(legacy, host_address, guest_address, size, measure);
    let inside = guest_address <= page < guest_address + size;
    let right = source - host_address == page - guest_address;
    assert(fills(vcpu[0], page, source) <==> inside && right);
    if !legacy {
        assert(fills(vm[0], page, source) <==> inside && right);
        assert(measures(vm[0], page) <==> measure && inside);
        assert(measures(vcpu[0], page) <==> measure && inside);
    } else if measure {
        assert(measures(vm[0], page) <==> inside);
        assert(measures(vcpu[1], page) <==> inside);
    }
}

/// A trust domain is initialised once, at the host's clock rate, which is set
/// right before. With the older interface all that has to be enabled is enabled
/// before that: six capabilities, of which two say how many vCPUs there can be.
pub proof fn domain_is_initialised_once(legacy: bool, max_vcpus: u32, step: int)
    requires
        0 <= step,
    ensures
        ({
            let init = if legacy {
                7int
            } else {
                1
            };
            &&& init_action(legacy, max_vcpus, step) is InitVm <==> step == init
            &&& init_action(legacy, max_vcpus, step) is SetHostTscFrequency <==> step == init - 1
            &&& init_action(legacy, max_vcpus, step) is EnableCap <==> step < init - 1
            &&& init_action(legacy, max_vcpus, step) is Finished <==> step > init
        }),
        legacy && step < 6 ==> {
            let c = init_action(legacy, max_vcpus, step)->EnableCap_0;
            &&& step == 0 ==> c.cap == 164 && c.arg0 == 1
            &&& step == 1 ==> c.cap == 218 && c.arg0 == 1
            &&& step == 2 ==> c.cap == 219 && c.arg0 == 3
            &&& step == 3 ==> c.cap == 188 && c.arg0 == 4
            &&& step == 4 ==> c.cap == 128 && c.arg0 == max_vcpus
            &&& step == 5 ==> c.cap == 66 && c.arg0 == max_vcpus
        },
{
}

} // verus!
