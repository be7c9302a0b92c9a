//! Memory slots of a VM and the choices made when a VM is created.
use crate::kvm::conversion::{
    plan_allocation, plan_conversion, plan_share, ConversionPlan, KvmGuestMemSlot, EINVAL,
    KVM_MEMORY_ATTRIBUTE_PRIVATE,
};
use std::collections::HashMap;
use vstd::prelude::*;

verus! {

broadcast use vstd::std_specs::hash::group_hash_axioms;

/// `KVM_MEM_LOG_DIRTY_PAGES`.
pub const KVM_MEM_LOG_DIRTY_PAGES: u32 = 1;

/// `KVM_MEM_READONLY`.
pub const KVM_MEM_READONLY: u32 = 2;

/// `KVM_MEM_GUEST_MEMFD`.
pub const KVM_MEM_GUEST_MEMFD: u32 = 4;

pub const USER_MEMORY_REGION_READ: u32 = 1;

pub const USER_MEMORY_REGION_WRITE: u32 = 2;

pub const USER_MEMORY_REGION_LOG_DIRTY: u32 = 8;

pub const USER_MEMORY_REGION_GUEST_MEMFD: u32 = 32;

/// A memory region in the terms of `KVM_SET_USER_MEMORY_REGION2`.
#[derive(Clone, Copy, Debug, PartialEq, Eq, Structural)]
pub struct KvmMemoryRegion {
    pub slot: u32,
    pub flags: u32,
    pub guest_phys_addr: u64,
    pub memory_size: u64,
    pub userspace_addr: u64,
    pub guest_memfd_offset: u64,
    pub guest_memfd: u32,
}

/// A memory region in hypervisor-neutral terms.
#[derive(Clone, Copy, Debug, PartialEq, Eq)]
pub struct UserMemoryRegion {
    pub slot: u32,
    pub guest_phys_addr: u64,
    pub memory_size: u64,
    pub userspace_addr: u64,
    pub flags: u32,
    pub guest_memfd: Option<u32>,
    pub guest_memfd_offset: Option<u64>,
}

/// Neutral flags for KVM flags.
pub open spec fn user_flags(flags: u32) -> u32 {
    USER_MEMORY_REGION_READ | (if flags & KVM_MEM_READONLY == 0 {
        USER_MEMORY_REGION_WRITE
    } else {
        0u32
    }) | (if flags & KVM_MEM_LOG_DIRTY_PAGES != 0 {
        USER_MEMORY_REGION_LOG_DIRTY
    } else {
        0u32
    }) | (if flags & KVM_MEM_GUEST_MEMFD != 0 {
        USER_MEMORY_REGION_GUEST_MEMFD
    } else {
        0u32
    })
}

/// KVM flags for neutral flags.
pub open spec fn kvm_flags(flags: u32) -> u32 {
    (if flags & USER_MEMORY_REGION_WRITE == 0 {
        KVM_MEM_READONLY
    } else {
        0u32
    }) | (if flags & USER_MEMORY_REGION_LOG_DIRTY != 0 {
        KVM_MEM_LOG_DIRTY_PAGES
    } else {
        0u32
    }) | (if flags & USER_MEMORY_REGION_GUEST_MEMFD != 0 {
        KVM_MEM_GUEST_MEMFD
    } else {
        0u32
    })
}

impl UserMemoryRegion {
    /// The neutral form of a KVM region.
    pub open spec fn of_kvm(region: KvmMemoryRegion) -> UserMemoryRegion {
        UserMemoryRegion {
            slot: region.slot,
            guest_phys_addr: region.guest_phys_addr,
            memory_size: region.memory_size,
            userspace_addr: region.userspace_addr,
            flags: user_flags(region.flags),
            guest_memfd: Some(region.guest_memfd),
            guest_memfd_offset: Some(region.guest_memfd_offset),
        }
    }

    /// The KVM form of a neutral region.
    pub open spec fn to_kvm(self) -> KvmMemoryRegion {
        KvmMemoryRegion {
            slot: self.slot,
            flags: kvm_flags(self.flags),
            guest_phys_addr: self.guest_phys_addr,
            memory_size: self.memory_size,
            userspace_addr: self.userspace_addr,
            guest_memfd_offset: match self.guest_memfd_offset {
                Some(v) => v,
                None => 0,
            },
            guest_memfd: match self.guest_memfd {
                Some(v) => v,
                None => 0,
            },
        }
    }

    /// Converts from the KVM form.
    pub fn from_kvm(region: KvmMemoryRegion) -> (r: UserMemoryRegion)
        ensures
            r == UserMemoryRegion::of_kvm(region),
    {
        proof {
            lemma_flag_sums(0, 0);
        }
        let mut flags: u32 = USER_MEMORY_REGION_READ;
        if region.flags & KVM_MEM_READONLY == 0 {
            flags = flags | USER_MEMORY_REGION_WRITE;
        }
        if region.flags & KVM_MEM_LOG_DIRTY_PAGES != 0 {
            flags = flags | USER_MEMORY_REGION_LOG_DIRTY;
        }
        if region.flags & KVM_MEM_GUEST_MEMFD != 0 {
            flags = flags | USER_MEMORY_REGION_GUEST_MEMFD;
        }
        UserMemoryRegion {
            slot: region.slot,
            guest_phys_addr: region.guest_phys_addr,
            memory_size: region.memory_size,
            userspace_addr: region.userspace_addr,
            flags,
            guest_memfd: Some(region.guest_memfd),
            guest_memfd_offset: Some(region.guest_memfd_offset),
        }
    }

    /// Converts to the KVM form. Mapped memory is always readable.
    pub fn into_kvm(self) -> (r: KvmMemoryRegion)
        requires
            self.flags & USER_MEMORY_REGION_READ != 0,
        ensures
            r == self.to_kvm(),
    {
        proof {
            lemma_flag_sums(0, 0);
        }
        let mut flags: u32 = 0;
        if self.flags & USER_MEMORY_REGION_WRITE == 0 {
            flags = flags | KVM_MEM_READONLY;
        }
        if self.flags & USER_MEMORY_REGION_LOG_DIRTY != 0 {
            flags = flags | KVM_MEM_LOG_DIRTY_PAGES;
        }
        if self.flags & USER_MEMORY_REGION_GUEST_MEMFD != 0 {
            flags = flags | KVM_MEM_GUEST_MEMFD;
        }
        KvmMemoryRegion {
            slot: self.slot,
            flags,
            guest_phys_addr: self.guest_phys_addr,
            memory_size: self.memory_size,
            userspace_addr: self.userspace_addr,
            guest_memfd_offset: match self.guest_memfd_offset {
                Some(v) => v,
                None => 0,
            },
            guest_memfd: match self.guest_memfd {
                Some(v) => v,
                None => 0,
            },
        }
    }
}

/// A KVM region survives the way through the neutral form, and the neutral
/// form always grants reading, as the way back demands.
pub proof fn region_round_trip(region: KvmMemoryRegion)
    requires
        region.flags & !(KVM_MEM_READONLY | KVM_MEM_LOG_DIRTY_PAGES | KVM_MEM_GUEST_MEMFD) == 0,
    ensures
        UserMemoryRegion::of_kvm(region).flags & USER_MEMORY_REGION_READ != 0,
        UserMemoryRegion::of_kvm(region).to_kvm() == region,
{
    let f = region.flags;
    assert(f & !(KVM_MEM_READONLY | KVM_MEM_LOG_DIRTY_PAGES | KVM_MEM_GUEST_MEMFD) == 0
        ==> kvm_flags(user_flags(f)) == f && user_flags(f) & USER_MEMORY_REGION_READ != 0)
        by (bit_vector);
}

/// A slot whose dirty pages can be logged.
#[derive(Clone, Copy, Debug, PartialEq, Eq, Structural)]
pub struct KvmDirtyLogSlot {
    pub slot: u32,
    pub guest_phys_addr: u64,
    pub memory_size: u64,
    pub userspace_addr: u64,
    pub guest_memfd_offset: u64,
    pub guest_memfd: u32,
}

/// A capability to enable on a VM, with its first argument.
#[derive(Clone, Copy, Debug, PartialEq, Eq, Structural)]
pub struct EnableCap {
    pub cap: u32,
    pub arg0: u64,
}

/// A model-specific register and its value.
#[derive(Clone, Copy, Debug, PartialEq, Eq, Structural)]
pub struct MsrEntry {
    pub index: u32,
    pub data: u64,
}

/// Attributes to set on a guest range.
#[derive(Clone, Copy, Debug, PartialEq, Eq, Structural)]
pub struct MemoryAttributes {
    pub address: u64,
    pub size: u64,
    pub attributes: u64,
}

/// A region request in the form that the kernel understands.
#[derive(Clone, Copy, Debug, PartialEq, Eq, Structural)]
pub enum RegionCall {
    /// `KVM_SET_USER_MEMORY_REGION2`.
    Region2(KvmMemoryRegion),
    /// `KVM_SET_USER_MEMORY_REGION`, which has no guest memory file.
    Region { slot: u32, flags: u32, guest_phys_addr: u64, memory_size: u64, userspace_addr: u64 },
}

/// Why a memory region is refused.
#[derive(Clone, Copy, Debug, PartialEq, Eq, Structural)]
pub enum RegionError {
    /// Dirty-page logging was asked for on a read-only region.
    DirtyLogReadOnly,
}

/// Size of a huge page of a guest memory file.
pub const KVM_GUEST_MEMFD_HUGEPAGE_SIZE: u64 = 0x20_0000;

/// Flag that older kernels take for huge pages in a guest memory file.
pub const KVM_GUEST_MEMFD_ALLOW_HUGEPAGE_RAW: u64 = 1;

/// Flags for a new guest memory file of `size` bytes.
pub fn guest_memfd_create_flags(size: u64, legacy_hugepage: bool) -> (flags: u64)
    ensures
        flags == (if legacy_hugepage && size % KVM_GUEST_MEMFD_HUGEPAGE_SIZE == 0 {
            KVM_GUEST_MEMFD_ALLOW_HUGEPAGE_RAW
        } else {
            0
        }),
{
    if legacy_hugepage && size % KVM_GUEST_MEMFD_HUGEPAGE_SIZE == 0 {
        KVM_GUEST_MEMFD_ALLOW_HUGEPAGE_RAW
    } else {
        0
    }
}

/// Whether creating a guest memory file is tried again without flags: the
/// kernel did not know the flag that was passed.
pub fn guest_memfd_retry_plain(flags: u64, errno: i32) -> (r: bool)
    ensures
        r <==> flags != 0 && errno == EINVAL,
{
    flags != 0 && errno == EINVAL
}

/// Memory bookkeeping of a VM.
pub struct KvmVm {
    /// Guest memory file of each slot, if the VM uses guest memory files.
    pub guest_memfds: Option<HashMap<u32, u32>>,
    /// Slots backed by guest memory files, if they are tracked.
    pub guest_mem_slots: Option<HashMap<u32, KvmGuestMemSlot>>,
    /// Whether guest memory files take the older huge page flag.
    pub guest_memfd_legacy_hugepage: bool,
    /// Slots whose dirty pages can be logged.
    pub dirty_log_slots: HashMap<u32, KvmDirtyLogSlot>,
    /// Whether the VM was created with the older TDX type.
    pub tdx_legacy_vm_type: bool,
    /// Registers to save and restore for each vCPU.
    pub msrs: Vec<MsrEntry>,
}

/// Whether `l` lists every value of `m` once, in some order.
pub open spec fn lists<V>(m: Map<u32, V>, l: Seq<V>) -> bool {
    exists|keys: Seq<u32>| #[trigger] lists_by(m, l, keys)
}

/// Whether `l` holds the values of `m` for `keys`, which are all its keys.
pub open spec fn lists_by<V>(m: Map<u32, V>, l: Seq<V>, keys: Seq<u32>) -> bool {
    &&& keys.no_duplicates()
    &&& forall|k: u32| keys.contains(k) <==> #[trigger] m.contains_key(k)
    &&& l.len() == keys.len()
    &&& forall|i: int| 0 <= i < l.len() ==> #[trigger] l[i] == m[keys[i]]
}

/// Lists the values of a slot map, in the order in which the map is walked.
fn slot_values<V: Copy>(m: &HashMap<u32, V>) -> (l: Vec<V>)
    ensures
        lists(m@, l@),
{
    let mut l: Vec<V> = Vec::new();
    let ghost keys = vstd::std_specs::iter::IteratorSpec::remaining(&m.keys()).unref();
    for k in it: m.keys()
        invariant
            l@.len() == it.index(),
            keys == it.seq().unref(),
            keys.to_set() == m@.dom(),
            forall|i: int| 0 <= i < l@.len() ==> #[trigger] l@[i] == m@[keys[i]],
    {
        assert(keys[it.index() as int] == *k);
        assert(keys.to_set().contains(*k));
        match m.get(k) {
            Some(v) => {
                l.push(*v);
            },
            None => {
                assert(false);
            },
        }
    }
    proof {
        assert(lists_by(m@, l@, keys));
    }
    l
}

/// Flags of a region that is created or removed.
pub open spec fn request_flags(readonly: bool, log_dirty_pages: bool) -> u32 {
    if readonly && log_dirty_pages {
        3
    } else if readonly {
        KVM_MEM_READONLY
    } else if log_dirty_pages {
        KVM_MEM_LOG_DIRTY_PAGES
    } else {
        0
    }
}

/// The region that removes a slot: one without memory.
pub open spec fn removal_of(
    slot: u32,
    guest_phys_addr: u64,
    userspace_addr: u64,
    readonly: bool,
    log_dirty_pages: bool,
) -> KvmMemoryRegion {
    KvmMemoryRegion {
        slot,
        flags: request_flags(readonly, log_dirty_pages),
        guest_phys_addr,
        memory_size: 0,
        userspace_addr,
        guest_memfd_offset: 0,
        guest_memfd: 0,
    }
}

fn make_request_flags(readonly: bool, log_dirty_pages: bool) -> (flags: u32)
    ensures
        flags == request_flags(readonly, log_dirty_pages),
{
    let mut flags: u32 = 0;
    if readonly {
        flags = flags | KVM_MEM_READONLY;
    }
    if log_dirty_pages {
        flags = flags | KVM_MEM_LOG_DIRTY_PAGES;
    }
    proof {
        lemma_flag_sums(0, 0);
    }
    flags
}

impl KvmVm {
    /// Every tracked slot fits its guest memory file.
    pub open spec fn wf(&self) -> bool {
        self.guest_mem_slots matches Some(m) ==> forall|k: u32|
            #[trigger] m@.contains_key(k) ==> crate::kvm::conversion::slot_ok(m@[k])
    }

    /// The guest memory files, as a map.
    pub open spec fn memfds(&self) -> Option<Map<u32, u32>> {
        crate::kvm::conversion::memfd_view(self.guest_memfds)
    }

    /// The tracked slots, as a map.
    pub open spec fn slots(&self) -> Option<Map<u32, KvmGuestMemSlot>> {
        match self.guest_mem_slots {
            None => None,
            Some(m) => Some(m@),
        }
    }

    /// Whether `l` is a list of the tracked slots, in some order.
    pub open spec fn lists_slots(&self, l: Option<Seq<KvmGuestMemSlot>>) -> bool {
        match (self.slots(), l) {
            (None, None) => true,
            (Some(m), Some(l)) => lists(m, l),
            _ => false,
        }
    }

    /// The flags with which a region is registered.
    pub open spec fn region_flags(&self, flags: u32) -> u32 {
        flags | (if self.guest_memfds is Some {
            KVM_MEM_GUEST_MEMFD
        } else {
            0u32
        })
    }

    /// Everything but the memory maps is the same.
    pub open spec fn same_settings(&self, other: &KvmVm) -> bool {
        &&& self.guest_memfd_legacy_hugepage == other.guest_memfd_legacy_hugepage
        &&& self.tdx_legacy_vm_type == other.tdx_legacy_vm_type
        &&& self.msrs == other.msrs
    }

    /// Adds the guest memory file flag where the VM uses such files.
    pub fn get_kvm_userspace_memory_region_flag(&self, flag: u32) -> (r: u32)
        ensures
            r == self.region_flags(flag),
    {
        flag | if self.guest_memfds.is_some() {
            KVM_MEM_GUEST_MEMFD
        } else {
            0
        }
    }

    /// The form in which the kernel is asked to register a region.
    pub open spec fn call_for(&self, region: KvmMemoryRegion) -> RegionCall {
        if self.guest_memfds is Some {
            RegionCall::Region2(region)
        } else {
            RegionCall::Region {
                slot: region.slot,
                flags: region.flags,
                guest_phys_addr: region.guest_phys_addr,
                memory_size: region.memory_size,
                userspace_addr: region.userspace_addr,
            }
        }
    }

    /// The request that registers a region: with its guest memory file where
    /// the VM uses such files, in the older form otherwise.
    pub fn set_user_memory_region(&self, region: KvmMemoryRegion) -> (call: RegionCall)
        ensures
            call == self.call_for(region),
    {
        if self.guest_memfds.is_some() {
            RegionCall::Region2(region)
        } else {
            RegionCall::Region {
                slot: region.slot,
                flags: region.flags,
                guest_phys_addr: region.guest_phys_addr,
                memory_size: region.memory_size,
                userspace_addr: region.userspace_addr,
            }
        }
    }

    /// The region to register for a new slot.
    pub open spec fn new_region(
        &self,
        slot: u32,
        guest_phys_addr: u64,
        memory_size: u64,
        userspace_addr: u64,
        flags: u32,
        guest_memfd: u32,
    ) -> KvmMemoryRegion {
        KvmMemoryRegion {
            slot,
            flags: self.region_flags(flags),
            guest_phys_addr,
            memory_size,
            userspace_addr,
            guest_memfd_offset: 0,
            guest_memfd: if self.guest_memfds is Some {
                guest_memfd
            } else {
                0
            },
        }
    }

    /// The VM after a region was noted, up to registering it: its guest memory
    /// file, and what is to be logged.
    pub open spec fn notes_region(
        &self,
        after: &KvmVm,
        slot: u32,
        guest_phys_addr: u64,
        memory_size: u64,
        userspace_addr: u64,
        logged: bool,
        guest_memfd: u32,
    ) -> bool {
        &&& after.same_settings(self)
        &&& after.guest_mem_slots == self.guest_mem_slots
        &&& after.memfds() == (match self.memfds() {
            None => None::<Map<u32, u32>>,
            Some(m) => Some(m.insert(slot, guest_memfd)),
        })
        &&& after.dirty_log_slots@ == (if logged {
            self.dirty_log_slots@.insert(
                slot,
                KvmDirtyLogSlot {
                    slot,
                    guest_phys_addr,
                    memory_size,
                    userspace_addr,
                    guest_memfd_offset: 0,
                    guest_memfd: if self.guest_memfds is Some {
                        guest_memfd
                    } else {
                        0
                    },
                },
            )
        } else {
            self.dirty_log_slots@
        })
    }

    /// The VM and the answer after a region was asked for: what is noted, and
    /// what to register. Logging what cannot be written is refused.
    pub open spec fn creates_region(
        &self,
        after: &KvmVm,
        slot: u32,
        guest_phys_addr: u64,
        memory_size: u64,
        userspace_addr: u64,
        readonly: bool,
        log_dirty_pages: bool,
        guest_memfd: u32,
        r: Result<KvmMemoryRegion, RegionError>,
    ) -> bool {
        &&& self.notes_region(
            after,
            slot,
            guest_phys_addr,
            memory_size,
            userspace_addr,
            log_dirty_pages && !readonly,
            guest_memfd,
        )
        &&& r == (if readonly && log_dirty_pages {
            Err::<KvmMemoryRegion, RegionError>(RegionError::DirtyLogReadOnly)
        } else {
            Ok(
                self.new_region(
                    slot,
                    guest_phys_addr,
                    memory_size,
                    userspace_addr,
                    if readonly {
                        KVM_MEM_READONLY
                    } else {
                        0
                    },
                    guest_memfd,
                ),
            )
        })
    }

    /// The VM and the answer after a region was registered: the noted slot, and
    /// the attributes to set.
    pub open spec fn takes_region(
        &self,
        after: &KvmVm,
        region: KvmMemoryRegion,
        r: Option<MemoryAttributes>,
    ) -> bool {
        &&& self.notes_slot(after, region)
        &&& r == (if self.guest_memfds is Some {
            Some(
                MemoryAttributes {
                    address: region.guest_phys_addr,
                    size: region.memory_size,
                    attributes: KVM_MEMORY_ATTRIBUTE_PRIVATE,
                },
            )
        } else {
            None
        })
    }

    /// The VM after the slot of a registered region was noted.
    pub open spec fn notes_slot(&self, after: &KvmVm, region: KvmMemoryRegion) -> bool {
        &&& after.same_settings(self)
        &&& after.guest_memfds == self.guest_memfds
        &&& after.dirty_log_slots == self.dirty_log_slots
        &&& after.slots() == (match self.slots() {
            Some(m) if self.guest_memfds is Some => Some(
                m.insert(
                    region.slot,
                    KvmGuestMemSlot {
                        slot: region.slot,
                        guest_phys_addr: region.guest_phys_addr,
                        memory_size: region.memory_size,
                        userspace_addr: region.userspace_addr,
                        flags: region.flags,
                        guest_memfd_offset: region.guest_memfd_offset,
                        guest_memfd: region.guest_memfd,
                    },
                ),
            ),
            other => other,
        })
    }

    /// The VM after it stopped logging a slot.
    pub open spec fn drops_log(&self, after: &KvmVm, slot: u32) -> bool {
        &&& after.same_settings(self)
        &&& after.guest_memfds == self.guest_memfds
        &&& after.guest_mem_slots == self.guest_mem_slots
        &&& after.dirty_log_slots@ == self.dirty_log_slots@.remove(slot)
    }

    /// The VM after it forgot a slot and its guest memory file.
    pub open spec fn drops_slot(&self, after: &KvmVm, slot: u32) -> bool {
        &&& after.same_settings(self)
        &&& after.dirty_log_slots == self.dirty_log_slots
        &&& after.memfds() == (match self.memfds() {
            None => None::<Map<u32, u32>>,
            Some(m) => Some(m.remove(slot)),
        })
        &&& after.slots() == (match self.slots() {
            None => None::<Map<u32, KvmGuestMemSlot>>,
            Some(m) => Some(m.remove(slot)),
        })
    }

    /// First half of creating a region, up to registering it. `guest_memfd` is
    /// the guest memory file made for it, and is ignored where the VM uses
    /// none.
    ///
    /// The file is recorded even if the region is then refused. A region whose
    /// dirty pages are to be logged is recorded for `start_dirty_log` and
    /// registered without logging.
    pub fn create_user_memory_region(
        &mut self,
        slot: u32,
        guest_phys_addr: u64,
        memory_size: u64,
        userspace_addr: u64,
        readonly: bool,
        log_dirty_pages: bool,
        guest_memfd: u32,
    ) -> (r: Result<KvmMemoryRegion, RegionError>)
        ensures
            old(self).creates_region(
                final(self),
                slot,
                guest_phys_addr,
                memory_size,
                userspace_addr,
                readonly,
                log_dirty_pages,
                guest_memfd,
                r,
            ),
    {
        let flags: u32 = make_request_flags(readonly, log_dirty_pages);
        let fd: u32 = match &mut self.guest_memfds {
            Some(memfds) => {
                memfds.insert(slot, guest_memfd);
                guest_memfd
            },
            None => 0,
        };
        let mut region = KvmMemoryRegion {
            slot,
            flags: self.get_kvm_userspace_memory_region_flag(flags),
            guest_phys_addr,
            memory_size,
            userspace_addr,
            guest_memfd_offset: 0,
            guest_memfd: fd,
        };
        proof {
            let has = self.guest_memfds is Some;
            let f = region.flags;
            assert(flags == 0 || flags == 1 || flags == 2 || flags == 3);
            assert((flags == 0 || flags == 1 || flags == 2 || flags == 3) && (f == flags | (if has {
                4u32
            } else {
                0u32
            })) ==> ((f & 1 != 0) == (flags == 1 || flags == 3)) && ((f & 2 != 0) == (flags == 2
                || flags == 3))) by (bit_vector);
        }
        if (region.flags & KVM_MEM_LOG_DIRTY_PAGES) != 0 {
            if (region.flags & KVM_MEM_READONLY) != 0 {
                return Err(RegionError::DirtyLogReadOnly);
            }
            self.dirty_log_slots.insert(
                slot,
                KvmDirtyLogSlot {
                    slot,
                    guest_phys_addr,
                    memory_size,
                    userspace_addr,
                    guest_memfd_offset: 0,
                    guest_memfd: fd,
                },
            );
            region.flags = self.get_kvm_userspace_memory_region_flag(0);
        }
        Ok(region)
    }

    /// Second half of creating a region, once it is registered: tracks the
    /// slot and says which attributes to set, if any. A region with a guest
    /// memory file starts private.
    pub fn region_created(&mut self, region: &KvmMemoryRegion) -> (r: Option<MemoryAttributes>)
        ensures
            old(self).takes_region(final(self), *region, r),
            old(self).wf() && region.guest_memfd_offset + region.memory_size <= u64::MAX ==> final(self).wf(),
    {
        if self.guest_memfds.is_some() {
            if let Some(slots) = &mut self.guest_mem_slots {
                slots.insert(
                    region.slot,
                    KvmGuestMemSlot {
                        slot: region.slot,
                        guest_phys_addr: region.guest_phys_addr,
                        memory_size: region.memory_size,
                        userspace_addr: region.userspace_addr,
                        flags: region.flags,
                        guest_memfd_offset: region.guest_memfd_offset,
                        guest_memfd: region.guest_memfd,
                    },
                );
            }
            Some(
                MemoryAttributes {
                    address: region.guest_phys_addr,
                    size: region.memory_size,
                    attributes: KVM_MEMORY_ATTRIBUTE_PRIVATE,
                },
            )
        } else {
            None
        }
    }

    /// First half of removing a region: stops tracking its dirty pages and
    /// gives the region to register. A size of zero means removal.
    pub fn remove_user_memory_region(
        &mut self,
        slot: u32,
        guest_phys_addr: u64,
        userspace_addr: u64,
        readonly: bool,
        log_dirty_pages: bool,
    ) -> (region: KvmMemoryRegion)
        ensures
            old(self).drops_log(final(self), slot),
            region == removal_of(slot, guest_phys_addr, userspace_addr, readonly, log_dirty_pages),
    {
        self.dirty_log_slots.remove(&slot);
        KvmMemoryRegion {
            slot,
            flags: make_request_flags(readonly, log_dirty_pages),
            guest_phys_addr,
            memory_size: 0,
            userspace_addr,
            guest_memfd_offset: 0,
            guest_memfd: 0,
        }
    }

    /// Second half of removing a region, once the kernel dropped it: forgets
    /// its guest memory file and its slot.
    pub fn region_removed(&mut self, slot: u32)
        ensures
            old(self).drops_slot(final(self), slot),
            old(self).wf() ==> final(self).wf(),
    {
        if let Some(memfds) = &mut self.guest_memfds {
            memfds.remove(&slot);
        }
        if let Some(slots) = &mut self.guest_mem_slots {
            slots.remove(&slot);
        }
    }

    /// The region that turns dirty-page logging of a slot on or off.
    pub open spec fn logging_region(&self, s: KvmDirtyLogSlot, enable: bool) -> KvmMemoryRegion {
        KvmMemoryRegion {
            slot: s.slot,
            flags: self.region_flags(
                if enable {
                    KVM_MEM_LOG_DIRTY_PAGES
                } else {
                    0
                },
            ),
            guest_phys_addr: s.guest_phys_addr,
            memory_size: s.memory_size,
            userspace_addr: s.userspace_addr,
            guest_memfd_offset: s.guest_memfd_offset,
            guest_memfd: s.guest_memfd,
        }
    }

    /// The regions to register again for a list of slots, to turn dirty-page
    /// logging on or off.
    pub fn dirty_log_regions_of(&self, slots: &Vec<KvmDirtyLogSlot>, enable: bool) -> (out: Vec<
        KvmMemoryRegion,
    >)
        ensures
            out@ == slots@.map_values(|s: KvmDirtyLogSlot| self.logging_region(s, enable)),
    {
        let flags: u32 = if enable {
            KVM_MEM_LOG_DIRTY_PAGES
        } else {
            0
        };
        let mut out: Vec<KvmMemoryRegion> = Vec::new();
        let mut i: usize = 0;
        while i < slots.len()
            invariant
                i <= slots@.len(),
                flags == (if enable {
                    KVM_MEM_LOG_DIRTY_PAGES
                } else {
                    0
                }),
                out@.len() == i,
                forall|k: int|
                    0 <= k < i ==> #[trigger] out@[k] == self.logging_region(slots@[k], enable),
            decreases slots@.len() - i,
        {
            let s: KvmDirtyLogSlot = slots[i];
            out.push(
                KvmMemoryRegion {
                    slot: s.slot,
                    flags: self.get_kvm_userspace_memory_region_flag(flags),
                    guest_phys_addr: s.guest_phys_addr,
                    memory_size: s.memory_size,
                    userspace_addr: s.userspace_addr,
                    guest_memfd_offset: s.guest_memfd_offset,
                    guest_memfd: s.guest_memfd,
                },
            );
            i = i + 1;
        }
        assert(out@ =~= slots@.map_values(|s: KvmDirtyLogSlot| self.logging_region(s, enable)));
        out
    }

    /// The regions that turn dirty-page logging on for every recorded slot, in
    /// the order in which the slot map is walked.
    pub fn start_dirty_log(&self) -> (out: Vec<KvmMemoryRegion>)
        ensures
            exists|l: Seq<KvmDirtyLogSlot>|
                #[trigger] lists(self.dirty_log_slots@, l) && out@ == l.map_values(
                    |s: KvmDirtyLogSlot| self.logging_region(s, true),
                ),
    {
        let slots: Vec<KvmDirtyLogSlot> = slot_values(&self.dirty_log_slots);
        self.dirty_log_regions_of(&slots, true)
    }

    /// The regions that turn dirty-page logging off again.
    pub fn stop_dirty_log(&self) -> (out: Vec<KvmMemoryRegion>)
        ensures
            exists|l: Seq<KvmDirtyLogSlot>|
                #[trigger] lists(self.dirty_log_slots@, l) && out@ == l.map_values(
                    |s: KvmDirtyLogSlot| self.logging_region(s, false),
                ),
    {
        let slots: Vec<KvmDirtyLogSlot> = slot_values(&self.dirty_log_slots);
        self.dirty_log_regions_of(&slots, false)
    }

    /// The tracked slots, in the order in which the slot map is walked.
    pub fn slot_list(&self) -> (l: Option<Vec<KvmGuestMemSlot>>)
        ensures
            self.lists_slots(crate::kvm::conversion::slots_view(l)),
            self.wf() ==> (l matches Some(s) ==> forall|i: int|
                0 <= i < s@.len() ==> crate::kvm::conversion::slot_ok(#[trigger] s@[i])),
    {
        match &self.guest_mem_slots {
            None => None,
            Some(m) => {
                let l: Vec<KvmGuestMemSlot> = slot_values(m);
                proof {
                    let keys = choose|keys: Seq<u32>| #[trigger] lists_by(m@, l@, keys);
                    if self.wf() {
                        assert forall|i: int| 0 <= i < l@.len() implies crate::kvm::conversion::slot_ok(
                            #[trigger] l@[i],
                        ) by {
                            assert(keys.contains(keys[i]));
                            assert(m@.contains_key(keys[i]));
                        }
                    }
                }
                Some(l)
            },
        }
    }

    /// Plans a conversion of guest memory between private and shared. What the
    /// plan is for a given list of the slots is said by `plan_conversion`.
    pub fn convert_guest_memory_region(&self, address: u64, size: u64, private: bool) -> (plan:
        ConversionPlan)
        requires
            self.wf(),
        ensures
            exists|l: Option<Seq<KvmGuestMemSlot>>|
                #[trigger] self.lists_slots(l) && plan@ == crate::kvm::conversion::convert_plan(
                    address,
                    size,
                    private,
                    l,
                    self.memfds(),
                ),
    {
        let slots: Option<Vec<KvmGuestMemSlot>> = self.slot_list();
        plan_conversion(address, size, private, &slots, &self.guest_memfds)
    }

    /// Plans sharing a range outside of a running vCPU.
    pub fn share_memory_region(&self, address: u64, size: u64) -> (plan: ConversionPlan)
        requires
            self.wf(),
        ensures
            exists|l: Option<Seq<KvmGuestMemSlot>>|
                #[trigger] self.lists_slots(l) && plan@ == crate::kvm::conversion::share_plan(
                    address,
                    size,
                    l,
                    self.memfds(),
                ),
    {
        let slots: Option<Vec<KvmGuestMemSlot>> = self.slot_list();
        plan_share(address, size, &slots, &self.guest_memfds)
    }

    /// Plans allocating the guest memory files behind a range.
    pub fn allocate_guest_memfd(&self, address: u64, size: u64) -> (plan: ConversionPlan)
        requires
            self.wf(),
        ensures
            exists|l: Option<Seq<KvmGuestMemSlot>>|
                #[trigger] self.lists_slots(l) && plan@ == crate::kvm::conversion::allocate_plan(
                    address,
                    size,
                    l,
                    self.memfds(),
                ),
    {
        let slots: Option<Vec<KvmGuestMemSlot>> = self.slot_list();
        plan_allocation(address, size, &slots, &self.guest_memfds)
    }
}

/// Removing a region undoes its creation: if the slot was not in use, the VM is
/// left with the guest memory files, slots and logged regions that it had.
pub proof fn removal_undoes_creation(
    before: KvmVm,
    noted: KvmVm,
    created: KvmVm,
    unlogged: KvmVm,
    after: KvmVm,
    region: KvmMemoryRegion,
    logged: bool,
)
    requires
        before.memfds() matches Some(m) ==> !m.contains_key(region.slot),
        before.slots() matches Some(m) ==> !m.contains_key(region.slot),
        !before.dirty_log_slots@.contains_key(region.slot),
        before.notes_region(
            &noted,
            region.slot,
            region.guest_phys_addr,
            region.memory_size,
            region.userspace_addr,
            logged,
            region.guest_memfd,
        ),
        noted.notes_slot(&created, region),
        created.drops_log(&unlogged, region.slot),
        unlogged.drops_slot(&after, region.slot),
    ensures
        after.same_settings(&before),
        after.memfds() == before.memfds(),
        after.slots() == before.slots(),
        after.dirty_log_slots@ == before.dirty_log_slots@,
{
    if let Some(m) = before.memfds() {
        assert(m.insert(region.slot, region.guest_memfd).remove(region.slot) =~= m);
    }
    if let Some(m) = before.slots() {
        assert(m.remove(region.slot) =~= m);
        assert(created.slots()->0.remove(region.slot) =~= m);
    }
    assert(after.dirty_log_slots@ =~= before.dirty_log_slots@);
}

proof fn lemma_flag_sums(kvm: u32, user: u32)
    by (bit_vector)
    ensures
        forall|a: u32| #[trigger] (a | 0u32) == a,
        forall|a: u32| #[trigger] (0u32 | a) == a,
        0u32 | 4 == 4 && 1u32 | 4 == 5 && 2u32 | 4 == 6 && 2u32 | 1 == 3,
        user_flags(kvm) == 1 + (if kvm & 2 == 0 {
            2int
        } else {
            0
        }) + (if kvm & 1 != 0 {
            8int
        } else {
            0
        }) + (if kvm & 4 != 0 {
            32int
        } else {
            0
        }),
        kvm_flags(user) == (if user & 2 == 0 {
            2int
        } else {
            0
        }) + (if user & 8 != 0 {
            1int
        } else {
            0
        }) + (if user & 32 != 0 {
            4int
        } else {
            0
        }),
{
}

/// A region reads the same in both forms: the same memory at the same place, in
/// the same slot and file; writable unless it is read-only, logged if it is
/// logged, with a guest memory file if it has one.
pub proof fn forms_of_a_region_agree(kvm: KvmMemoryRegion, user: UserMemoryRegion)
    ensures
        ({
            let u = UserMemoryRegion::of_kvm(kvm);
            &&& u.slot == kvm.slot && u.guest_phys_addr == kvm.guest_phys_addr
            &&& u.memory_size == kvm.memory_size && u.userspace_addr == kvm.userspace_addr
            &&& u.guest_memfd == Some(kvm.guest_memfd)
            &&& u.guest_memfd_offset == Some(kvm.guest_memfd_offset)
            &&& u.flags == 1 + (if kvm.flags & 2 == 0 {
                2int
            } else {
                0
            }) + (if kvm.flags & 1 != 0 {
                8int
            } else {
                0
            }) + (if kvm.flags & 4 != 0 {
                32int
            } else {
                0
            })
        }),
        ({
            let k = user.to_kvm();
            &&& k.slot == user.slot && k.guest_phys_addr == user.guest_phys_addr
            &&& k.memory_size == user.memory_size && k.userspace_addr == user.userspace_addr
            &&& user.guest_memfd is Some ==> user.guest_memfd == Some(k.guest_memfd)
            &&& user.guest_memfd_offset is Some ==> user.guest_memfd_offset == Some(
                k.guest_memfd_offset,
            )
            &&& k.flags == (if user.flags & 2 == 0 {
                2int
            } else {
                0
            }) + (if user.flags & 8 != 0 {
                1int
            } else {
                0
            }) + (if user.flags & 32 != 0 {
                4int
            } else {
                0
            })
        }),
{
    lemma_flag_sums(kvm.flags, user.flags);
}

/// What is registered, noted and made private for a new region is the memory
/// that was asked for. It is registered without logging; turning logging on
/// registers the very same region with bit 0 set as well, and turning it off
/// registers it as it was.
pub proof fn region_is_made_as_asked(
    before: KvmVm,
    noted: KvmVm,
    created: KvmVm,
    slot: u32,
    guest_phys_addr: u64,
    memory_size: u64,
    userspace_addr: u64,
    readonly: bool,
    log_dirty_pages: bool,
    guest_memfd: u32,
    r: Result<KvmMemoryRegion, RegionError>,
    attributes: Option<MemoryAttributes>,
)
    requires
        before.creates_region(
            &noted,
            slot,
            guest_phys_addr,
            memory_size,
            userspace_addr,
            readonly,
            log_dirty_pages,
            guest_memfd,
            r,
        ),
        r is Ok ==> noted.takes_region(&created, r->Ok_0, attributes),
    ensures
        r is Err <==> readonly && log_dirty_pages,
        before.guest_memfds is Some ==> noted.memfds()->0.contains_key(slot)
            && noted.memfds()->0[slot] == guest_memfd,
        r matches Ok(region) ==> {
            let private = before.guest_memfds is Some;
            &&& region.slot == slot && region.guest_phys_addr == guest_phys_addr
            &&& region.memory_size == memory_size && region.userspace_addr == userspace_addr
            &&& region.flags == (if readonly {
                2int
            } else {
                0
            }) + (if private {
                4int
            } else {
                0
            })
            &&& private ==> region.guest_memfd == guest_memfd && region.guest_memfd_offset == 0
            &&& private ==> attributes == Some(
                MemoryAttributes { address: guest_phys_addr, size: memory_size, attributes: 8 },
            )
            &&& !private ==> attributes is None
            &&& private && created.slots() is Some ==> {
                &&& created.slots()->0.contains_key(slot)
                &&& crate::kvm::cpuid_update::same_memory(created.slots()->0[slot], region)
            }
            &&& log_dirty_pages ==> {
                &&& noted.dirty_log_slots@.contains_key(slot)
                &&& noted.logging_region(noted.dirty_log_slots@[slot], false) == region
                &&& noted.logging_region(noted.dirty_log_slots@[slot], true) == (KvmMemoryRegion {
                    flags: (region.flags + 1) as u32,
                    ..region
                })
            }
            &&& !log_dirty_pages ==> noted.dirty_log_slots@ == before.dirty_log_slots@
        },
{
    lemma_flag_sums(0, 0);
}

/// A removal names its slot and has no memory. Bit 1 of its flags says that the
/// region was read-only, bit 0 that it was logged.
pub proof fn removal_leaves_no_memory(
    slot: u32,
    guest_phys_addr: u64,
    userspace_addr: u64,
    readonly: bool,
    log_dirty_pages: bool,
)
    ensures
        ({
            let r = removal_of(slot, guest_phys_addr, userspace_addr, readonly, log_dirty_pages);
            &&& r.slot == slot
            &&& r.memory_size == 0
            &&& r.guest_phys_addr == guest_phys_addr && r.userspace_addr == userspace_addr
            &&& r.flags == (if readonly {
                2int
            } else {
                0
            }) + (if log_dirty_pages {
                1int
            } else {
                0
            })
        }),
{
}

/// The kernel is told the same of a region in either form: where it is in guest
/// and host memory, how large it is, its slot and its flags. Only a VM with guest
/// memory files names one.
pub proof fn both_calls_name_the_region(vm: KvmVm, region: KvmMemoryRegion)
    ensures
        match vm.call_for(region) {
            RegionCall::Region2(r) => vm.guest_memfds is Some && r == region,
            RegionCall::Region { slot, flags, guest_phys_addr, memory_size, userspace_addr } => {
                &&& vm.guest_memfds is None
                &&& slot == region.slot && flags == region.flags
                &&& guest_phys_addr == region.guest_phys_addr
                &&& memory_size == region.memory_size
                &&& userspace_addr == region.userspace_addr
            },
        },
{
}

} // verus!
