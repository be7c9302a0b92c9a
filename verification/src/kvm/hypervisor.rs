//! Choices made when a VM is created.
use crate::kvm::conversion::KvmGuestMemSlot;
use crate::kvm::vm::{EnableCap, KvmDirtyLogSlot, KvmVm, MsrEntry};
use std::collections::HashMap;
use vstd::prelude::*;

verus! {

broadcast use vstd::std_specs::hash::group_hash_axioms;

/// `KVM_X86_DEFAULT_VM`.
pub const KVM_X86_DEFAULT_VM: u64 = 0;

/// `KVM_X86_SNP_VM`.
pub const KVM_X86_SNP_VM: u64 = 4;

/// `KVM_X86_TDX_VM`.
pub const KVM_X86_TDX_VM: u64 = 5;

/// The TDX VM type of older kernels.
pub const KVM_X86_TDX_VM_LEGACY: u64 = 2;

/// `KVM_CAP_EXIT_HYPERCALL`.
pub const KVM_CAP_EXIT_HYPERCALL: u32 = 201;

/// `KVM_HC_MAP_GPA_RANGE`.
pub const KVM_HC_MAP_GPA_RANGE: u64 = 12;

/// `KVM_API_VERSION`.
pub const KVM_API_VERSION: i32 = 12;

/// `EINTR`.
pub const EINTR: i32 = 4;

/// `EAGAIN`.
pub const EAGAIN: i32 = 11;

/// What kind of VM is asked for.
#[derive(Clone, Copy, Debug, PartialEq, Eq, Structural)]
pub struct HypervisorVmConfig {
    pub tdx_enabled: bool,
    pub sev_snp_enabled: bool,
}

/// What the kernel offers for a new VM.
#[derive(Clone, Copy, Debug, PartialEq, Eq, Structural)]
pub struct VmCapabilities {
    /// `KVM_CAP_GUEST_MEMFD_FLAGS` of the system.
    pub guest_memfd_flags: i32,
    /// Whether the new VM supports guest memory files.
    pub guest_memfd: bool,
    /// `KVM_CAP_EXIT_HYPERCALL` of the system.
    pub exit_hypercall: i32,
}

/// A new VM and what is left to do for it.
pub struct NewVm {
    pub vm: KvmVm,
    /// A capability to enable first.
    pub enable_cap: Option<EnableCap>,
    /// Whether the SEV device has to be opened and initialised.
    pub open_sev: bool,
}

impl NewVm {
    /// Whether a VM is set up for its configuration, type and what the kernel
    /// offers.
    pub open spec fn is_set_up(
        &self,
        config: HypervisorVmConfig,
        vm_type: u64,
        caps: VmCapabilities,
        msr_indices: Seq<u32>,
    ) -> bool {
        let confidential = config.tdx_enabled || config.sev_snp_enabled;
        &&& self.vm.memfds() == (if confidential && caps.guest_memfd {
            Some(Map::<u32, u32>::empty())
        } else {
            None
        })
        &&& self.vm.slots() == (if confidential && caps.guest_memfd {
            Some(Map::<u32, KvmGuestMemSlot>::empty())
        } else {
            None
        })
        &&& self.vm.dirty_log_slots@ == Map::<u32, KvmDirtyLogSlot>::empty()
        &&& self.vm.guest_memfd_legacy_hugepage == (config.tdx_enabled && caps.guest_memfd_flags
            == 0)
        &&& self.vm.tdx_legacy_vm_type == (config.tdx_enabled && vm_type == KVM_X86_TDX_VM_LEGACY)
        &&& self.vm.msrs@ == msr_indices.map_values(|i: u32| MsrEntry { index: i, data: 0 })
        &&& self.enable_cap == (if confidential && caps.exit_hypercall > 0 {
            Some(EnableCap { cap: KVM_CAP_EXIT_HYPERCALL, arg0: 0x1000 })
        } else {
            None
        })
        &&& self.open_sev == (vm_type == KVM_X86_SNP_VM)
    }
}

/// Entry point to the hypervisor.
pub struct KvmHypervisor {}

/// The TDX VM type to use, given the bit mask of the types that the kernel
/// knows: the older one only if it is offered and the current one is not.
pub open spec fn tdx_type(supported: u64) -> u64 {
    if supported & (1u64 << KVM_X86_TDX_VM) == 0 && supported & (1u64 << KVM_X86_TDX_VM_LEGACY)
        != 0 {
        KVM_X86_TDX_VM_LEGACY
    } else {
        KVM_X86_TDX_VM
    }
}

/// The VM type for a configuration. TDX wins over SEV-SNP.
pub open spec fn vm_type_of(config: HypervisorVmConfig, supported: u64) -> u64 {
    if config.tdx_enabled {
        tdx_type(supported)
    } else if config.sev_snp_enabled {
        KVM_X86_SNP_VM
    } else {
        KVM_X86_DEFAULT_VM
    }
}

impl KvmHypervisor {
    /// Whether the kernel interface has the version this monitor speaks.
    pub fn compatible_api(api_version: i32) -> (r: bool)
        ensures
            r <==> api_version == KVM_API_VERSION,
    {
        api_version == KVM_API_VERSION
    }

    /// The registers to save: those that the kernel lists, and the memory type
    /// registers, which it leaves out but firmware may set early.
    pub fn get_msr_list(indices: &Vec<u32>, mtrr_indices: &Vec<u32>) -> (r: Vec<u32>)
        ensures
            r@ == indices@ + mtrr_indices@,
    {
        let mut r: Vec<u32> = Vec::new();
        let mut i: usize = 0;
        while i < indices.len()
            invariant
                i <= indices@.len(),
                r@ == indices@.take(i as int),
            decreases indices@.len() - i,
        {
            r.push(indices[i]);
            i = i + 1;
            assert(r@ =~= indices@.take(i as int));
        }
        assert(indices@.take(i as int) =~= indices@);
        let mut k: usize = 0;
        assert(r@ =~= indices@ + mtrr_indices@.take(0));
        while k < mtrr_indices.len()
            invariant
                k <= mtrr_indices@.len(),
                r@ == indices@ + mtrr_indices@.take(k as int),
            decreases mtrr_indices@.len() - k,
        {
            r.push(mtrr_indices[k]);
            k = k + 1;
            assert(r@ =~= indices@ + mtrr_indices@.take(k as int));
        }
        assert(mtrr_indices@.take(k as int) =~= mtrr_indices@);
        r
    }

    /// The TDX VM type to use.
    pub fn tdx_vm_type(supported: u64) -> (r: u64)
        ensures
            r == tdx_type(supported),
    {
        let current: u64 = KVM_X86_TDX_VM;
        if supported & (1u64 << current) != 0 {
            current
        } else if supported & (1u64 << KVM_X86_TDX_VM_LEGACY) != 0 {
            KVM_X86_TDX_VM_LEGACY
        } else {
            current
        }
    }

    /// The VM type for a configuration.
    pub fn vm_type(config: &HypervisorVmConfig, supported: u64) -> (r: u64)
        ensures
            r == vm_type_of(*config, supported),
    {
        let mut vm_type: u64 = KVM_X86_DEFAULT_VM;
        if config.sev_snp_enabled {
            vm_type = KVM_X86_SNP_VM;
        }
        if config.tdx_enabled {
            vm_type = Self::tdx_vm_type(supported);
        }
        vm_type
    }

    /// Whether creating a VM, or a TDX command, is tried again: the call was
    /// interrupted.
    pub fn retry_interrupted(errno: i32) -> (r: bool)
        ensures
            r <==> errno == EINTR,
    {
        errno == EINTR
    }

    /// Whether copying pages into a trust domain is tried again: the call was
    /// interrupted, or the kernel was busy.
    pub fn retry_copy_in(errno: i32) -> (r: bool)
        ensures
            r <==> errno == EINTR || errno == EAGAIN,
    {
        errno == EINTR || errno == EAGAIN
    }

    /// Sets up the bookkeeping of a VM that the kernel created with the given
    /// type.
    ///
    /// A confidential VM tracks guest memory files where the kernel has them,
    /// and has the map-GPA hypercall delivered where the kernel can.
    pub fn create_vm(
        config: &HypervisorVmConfig,
        vm_type: u64,
        caps: &VmCapabilities,
        msr_indices: &Vec<u32>,
    ) -> (r: NewVm)
        ensures
            r.is_set_up(*config, vm_type, *caps, msr_indices@),
            r.vm.wf(),
    {
        let mut msrs: Vec<MsrEntry> = Vec::new();
        let mut pos: usize = 0;
        while pos < msr_indices.len()
            invariant
                pos <= msr_indices@.len(),
                msrs@.len() == pos,
                forall|k: int|
                    0 <= k < pos ==> #[trigger] msrs@[k] == (MsrEntry {
                        index: msr_indices@[k],
                        data: 0,
                    }),
            decreases msr_indices@.len() - pos,
        {
            msrs.push(MsrEntry { index: msr_indices[pos], data: 0 });
            pos = pos + 1;
        }
        assert(msrs@ =~= msr_indices@.map_values(|i: u32| MsrEntry { index: i, data: 0 }));
        let confidential: bool = config.tdx_enabled || config.sev_snp_enabled;
        let track: bool = confidential && caps.guest_memfd;
        let guest_memfds: Option<HashMap<u32, u32>> = if track {
            Some(HashMap::new())
        } else {
            None
        };
        let guest_mem_slots: Option<HashMap<u32, KvmGuestMemSlot>> = if track {
            Some(HashMap::new())
        } else {
            None
        };
        proof {
            lemma_bits();
        }
        let enable_cap: Option<EnableCap> = if confidential && caps.exit_hypercall > 0 {
            Some(EnableCap { cap: KVM_CAP_EXIT_HYPERCALL, arg0: 1u64 << KVM_HC_MAP_GPA_RANGE })
        } else {
            None
        };
        NewVm {
            vm: KvmVm {
                guest_memfds,
                guest_mem_slots,
                guest_memfd_legacy_hugepage: config.tdx_enabled && caps.guest_memfd_flags == 0,
                dirty_log_slots: HashMap::new(),
                tdx_legacy_vm_type: config.tdx_enabled && vm_type == KVM_X86_TDX_VM_LEGACY,
                msrs,
            },
            enable_cap,
            open_sev: vm_type == KVM_X86_SNP_VM,
        }
    }
}

proof fn lemma_bits()
    by (bit_vector)
    ensures
        1u64 << 2 == 4u64,
        1u64 << 5 == 32u64,
        1u64 << 12 == 0x1000u64,
{
}

/// A VM that is made with the type for its configuration has guest memory files
/// exactly if it is confidential and the kernel has them, tracks its slots exactly
/// then, and starts without any. Call 12 is delivered to the monitor exactly if it
/// is confidential and the kernel can; the SEV device is opened exactly for
/// SEV-SNP; and all listed registers are saved, in order.
pub proof fn new_vm_fits_its_configuration(
    r: NewVm,
    config: HypervisorVmConfig,
    supported: u64,
    caps: VmCapabilities,
    msr_indices: Seq<u32>,
    i: int,
)
    requires
        r.is_set_up(config, vm_type_of(config, supported), caps, msr_indices),
        0 <= i < msr_indices.len(),
    ensures
        ({
            let confidential = config.tdx_enabled || config.sev_snp_enabled;
            &&& r.vm.memfds() is Some <==> confidential && caps.guest_memfd
            &&& r.vm.slots() is Some <==> r.vm.memfds() is Some
            &&& r.vm.memfds() is Some ==> r.vm.memfds()->0.dom().len() == 0
                && r.vm.slots()->0.dom().len() == 0
            &&& r.enable_cap is Some <==> confidential && caps.exit_hypercall > 0
            &&& r.enable_cap matches Some(c) ==> c.cap == 201 && c.arg0
                == vstd::arithmetic::power2::pow2(12)
            &&& r.open_sev <==> config.sev_snp_enabled && !config.tdx_enabled
            &&& r.vm.tdx_legacy_vm_type <==> config.tdx_enabled && supported & 32 == 0 && supported
                & 4 != 0
            &&& r.vm.guest_memfd_legacy_hugepage <==> config.tdx_enabled && caps.guest_memfd_flags
                == 0
            &&& r.vm.msrs@.len() == msr_indices.len()
            &&& r.vm.msrs@[i].index == msr_indices[i] && r.vm.msrs@[i].data == 0
        }),
{
    lemma_bits();
    vstd::arithmetic::power2::lemma2_to64();
}

/// The kernel is asked for a type that it offers, if it offers one of the kind:
/// of the two for a trust domain, number 5 before number 2.
pub proof fn vm_type_is_on_offer(config: HypervisorVmConfig, supported: u64)
    ensures
        config.tdx_enabled && supported & 32 != 0 ==> vm_type_of(config, supported) == 5,
        config.tdx_enabled && supported & 32 == 0 && supported & 4 != 0 ==> vm_type_of(
            config,
            supported,
        ) == 2,
        config.tdx_enabled && supported & 32 == 0 && supported & 4 == 0 ==> vm_type_of(
            config,
            supported,
        ) == 5,
        !config.tdx_enabled && config.sev_snp_enabled ==> vm_type_of(config, supported) == 4,
        !config.tdx_enabled && !config.sev_snp_enabled ==> vm_type_of(config, supported) == 0,
{
    lemma_bits();
}

/// A VM uses the older TDX interface exactly if it is a TDX VM and the kernel
/// knows the older VM type and not the current one. A VM that is no TDX VM
/// never does.
pub proof fn legacy_tdx_only_where_needed(config: HypervisorVmConfig, supported: u64)
    ensures
        (config.tdx_enabled && vm_type_of(config, supported) == KVM_X86_TDX_VM_LEGACY) <==> (
        config.tdx_enabled && supported & (1u64 << KVM_X86_TDX_VM) == 0 && supported & (1u64
            << KVM_X86_TDX_VM_LEGACY) != 0),
{
}

} // verus!
