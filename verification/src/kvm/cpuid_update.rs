//! Replacing the CPUID of a vCPU while memory slots exist.
//!
//! The older TDX interface refuses a new CPUID while guest memory files are
//! bound to slots. All slots are therefore made shared and dropped, the CPUID
//! is set, and the slots are put back with fresh files and made private again.
use crate::kvm::conversion::{KvmGuestMemSlot, KVM_MEMORY_ATTRIBUTE_PRIVATE};
use crate::kvm::vm::{KvmMemoryRegion, KvmVm, MemoryAttributes};
use vstd::prelude::*;

verus! {

broadcast use vstd::std_specs::hash::group_hash_axioms;

pub const MCG_CAP_BANKS_MASK: u64 = 0xff;

pub const DEFAULT_MCG_CAP: u64 = 0x100_010a;

/// The machine check capability to set up: the default, less the features that
/// the kernel does not have. The bank count always stays.
pub fn machine_check_cap(supported_mcg_cap: u64) -> (r: u64)
    ensures
        r == DEFAULT_MCG_CAP & (supported_mcg_cap | MCG_CAP_BANKS_MASK),
        r & 0xff == 0xa,
{
    assert((0x100_010au64 & (supported_mcg_cap | 0xff)) & 0xff == 0xa) by (bit_vector);
    DEFAULT_MCG_CAP & (supported_mcg_cap | MCG_CAP_BANKS_MASK)
}

/// Where an update stands.
#[derive(Clone, Copy, Debug, PartialEq, Eq, Structural)]
pub enum CpuidStage {
    /// Make slot `index` shared.
    Share,
    /// Drop slot `index`.
    Remove,
    /// Set the CPUID.
    Apply,
    /// Create the guest memory file of slot `index`.
    CreateMemfd,
    /// Put slot `index` back.
    Restore,
    /// Make slot `index` private.
    Protect,
    /// Nothing is left to do.
    Finished,
}

/// What to do next in an update.
#[derive(Clone, Copy, Debug, PartialEq, Eq)]
pub enum CpuidAction {
    SetAttributes(MemoryAttributes),
    SetRegion(KvmMemoryRegion),
    SetCpuid,
    CreateMemfd { size: u64 },
    /// Return this: nothing, or the error number of what failed.
    Finish(Result<(), i32>),
}

/// A CPUID update in progress.
pub struct CpuidUpdate {
    pub slots: Vec<KvmGuestMemSlot>,
    pub stage: CpuidStage,
    pub index: usize,
    /// Error of setting the CPUID, which wins over a later one.
    pub apply_error: Option<i32>,
    /// Error that ended the update otherwise.
    pub error: Option<i32>,
    /// Whether slots get guest memory files.
    pub memfds: bool,
}

/// The region that drops a slot.
pub open spec fn removal(s: KvmGuestMemSlot) -> KvmMemoryRegion {
    KvmMemoryRegion {
        slot: s.slot,
        flags: 0,
        guest_phys_addr: 0,
        memory_size: 0,
        userspace_addr: 0,
        guest_memfd_offset: 0,
        guest_memfd: 0,
    }
}

/// The region that puts a slot back.
pub open spec fn restoration(s: KvmGuestMemSlot) -> KvmMemoryRegion {
    KvmMemoryRegion {
        slot: s.slot,
        flags: s.flags,
        guest_phys_addr: s.guest_phys_addr,
        memory_size: s.memory_size,
        userspace_addr: s.userspace_addr,
        guest_memfd_offset: s.guest_memfd_offset,
        guest_memfd: s.guest_memfd,
    }
}

/// A map without the keys of the slots in a list.
pub open spec fn without_slots(m: Map<u32, u32>, slots: Seq<KvmGuestMemSlot>) -> Map<u32, u32>
    decreases slots.len(),
{
    if slots.len() == 0 {
        m
    } else {
        without_slots(m, slots.drop_last()).remove(slots.last().slot)
    }
}

impl CpuidUpdate {
    /// The position is inside the slot list while a slot is being worked on.
    pub open spec fn wf(&self) -> bool {
        match self.stage {
            CpuidStage::Apply => self.error is None && self.apply_error is None,
            CpuidStage::Finished => true,
            CpuidStage::Share | CpuidStage::Remove => self.index < self.slots@.len() && self.error
                is None && self.apply_error is None,
            CpuidStage::CreateMemfd => self.index < self.slots@.len() && self.memfds && self.error
                is None,
            CpuidStage::Restore | CpuidStage::Protect => self.index < self.slots@.len()
                && self.error is None,
        }
    }

    /// What is to be done.
    pub open spec fn due(&self) -> CpuidAction {
        let s = self.slots@[self.index as int];
        match self.stage {
            CpuidStage::Share => CpuidAction::SetAttributes(
                MemoryAttributes { address: s.guest_phys_addr, size: s.memory_size, attributes: 0 },
            ),
            CpuidStage::Remove => CpuidAction::SetRegion(removal(s)),
            CpuidStage::Apply => CpuidAction::SetCpuid,
            CpuidStage::CreateMemfd => CpuidAction::CreateMemfd { size: s.memory_size },
            CpuidStage::Restore => CpuidAction::SetRegion(restoration(s)),
            CpuidStage::Protect => CpuidAction::SetAttributes(
                MemoryAttributes {
                    address: s.guest_phys_addr,
                    size: s.memory_size,
                    attributes: KVM_MEMORY_ATTRIBUTE_PRIVATE,
                },
            ),
            CpuidStage::Finished => CpuidAction::Finish(self.verdict()),
        }
    }

    /// How a finished update ended. An error of setting the CPUID wins.
    pub open spec fn verdict(&self) -> Result<(), i32> {
        match (self.apply_error, self.error) {
            (Some(e), _) => Err(e),
            (None, Some(e)) => Err(e),
            (None, None) => Ok(()),
        }
    }

    /// The stage that starts putting a slot back.
    pub open spec fn restore_stage(&self) -> CpuidStage {
        if self.memfds {
            CpuidStage::CreateMemfd
        } else {
            CpuidStage::Restore
        }
    }

    /// The stage and position after the due action came out as `outcome`.
    pub open spec fn next_place(&self, outcome: Result<u32, i32>) -> (CpuidStage, int) {
        let n = self.slots@.len();
        let i = self.index as int;
        match (self.stage, outcome) {
            (CpuidStage::Apply, _) => if n == 0 {
                (CpuidStage::Finished, i)
            } else {
                (self.restore_stage(), 0)
            },
            (_, Err(_)) => (CpuidStage::Finished, i),
            (CpuidStage::Share, _) => (CpuidStage::Remove, i),
            (CpuidStage::Remove, _) => if i + 1 < n {
                (CpuidStage::Share, i + 1)
            } else {
                (CpuidStage::Apply, i)
            },
            (CpuidStage::CreateMemfd, _) => (CpuidStage::Restore, i),
            (CpuidStage::Restore, _) => (CpuidStage::Protect, i),
            (CpuidStage::Protect, _) => if i + 1 < n {
                (self.restore_stage(), i + 1)
            } else {
                (CpuidStage::Finished, i)
            },
            (CpuidStage::Finished, _) => (CpuidStage::Finished, i),
        }
    }

    /// The update after the due action came out as `outcome`. A new guest memory
    /// file goes with its slot.
    pub open spec fn moves_on(&self, after: &CpuidUpdate, outcome: Result<u32, i32>) -> bool {
        &&& (after.stage, after.index as int) == self.next_place(outcome)
        &&& after.memfds == self.memfds
        &&& after.apply_error == (match (self.stage, outcome) {
            (CpuidStage::Apply, Err(e)) => Some(e),
            _ => self.apply_error,
        })
        &&& after.error == (match (self.stage, outcome) {
            (CpuidStage::Apply, _) => self.error,
            (CpuidStage::Finished, _) => self.error,
            (_, Err(e)) => Some(e),
            (_, Ok(_)) => self.error,
        })
        &&& after.slots@ == (match (self.stage, outcome) {
            (CpuidStage::CreateMemfd, Ok(file)) => self.slots@.update(
                self.index as int,
                KvmGuestMemSlot { guest_memfd: file, ..self.slots@[self.index as int] },
            ),
            _ => self.slots@,
        })
    }

    /// Starts an update for the given list of the VM's slots.
    pub fn new(slots: Vec<KvmGuestMemSlot>, memfds: bool) -> (r: Self)
        ensures
            r.wf(),
            r.slots == slots,
            r.memfds == memfds,
            r.index == 0,
            r.apply_error is None,
            r.error is None,
            r.stage == (if slots@.len() == 0 {
                CpuidStage::Apply
            } else {
                CpuidStage::Share
            }),
    {
        let stage: CpuidStage = if slots.len() == 0 {
            CpuidStage::Apply
        } else {
            CpuidStage::Share
        };
        CpuidUpdate { slots, stage, index: 0, apply_error: None, error: None, memfds }
    }

    /// What to do next.
    pub fn action(&self) -> (r: CpuidAction)
        requires
            self.wf(),
        ensures
            r == self.due(),
    {
        match self.stage {
            CpuidStage::Apply => CpuidAction::SetCpuid,
            CpuidStage::Finished => match (self.apply_error, self.error) {
                (Some(e), _) => CpuidAction::Finish(Err(e)),
                (None, Some(e)) => CpuidAction::Finish(Err(e)),
                (None, None) => CpuidAction::Finish(Ok(())),
            },
            CpuidStage::Share => {
                let s: &KvmGuestMemSlot = &self.slots[self.index];
                CpuidAction::SetAttributes(
                    MemoryAttributes {
                        address: s.guest_phys_addr,
                        size: s.memory_size,
                        attributes: 0,
                    },
                )
            },
            CpuidStage::Remove => {
                let s: &KvmGuestMemSlot = &self.slots[self.index];
                CpuidAction::SetRegion(
                    KvmMemoryRegion {
                        slot: s.slot,
                        flags: 0,
                        guest_phys_addr: 0,
                        memory_size: 0,
                        userspace_addr: 0,
                        guest_memfd_offset: 0,
                        guest_memfd: 0,
                    },
                )
            },
            CpuidStage::CreateMemfd => {
                let s: &KvmGuestMemSlot = &self.slots[self.index];
                CpuidAction::CreateMemfd { size: s.memory_size }
            },
            CpuidStage::Restore => {
                let s: &KvmGuestMemSlot = &self.slots[self.index];
                CpuidAction::SetRegion(
                    KvmMemoryRegion {
                        slot: s.slot,
                        flags: s.flags,
                        guest_phys_addr: s.guest_phys_addr,
                        memory_size: s.memory_size,
                        userspace_addr: s.userspace_addr,
                        guest_memfd_offset: s.guest_memfd_offset,
                        guest_memfd: s.guest_memfd,
                    },
                )
            },
            CpuidStage::Protect => {
                let s: &KvmGuestMemSlot = &self.slots[self.index];
                CpuidAction::SetAttributes(
                    MemoryAttributes {
                        address: s.guest_phys_addr,
                        size: s.memory_size,
                        attributes: KVM_MEMORY_ATTRIBUTE_PRIVATE,
                    },
                )
            },
        }
    }

    /// Takes in how the due action came out. For a new guest memory file the
    /// outcome is the file, otherwise its value does not matter.
    ///
    /// The files of all slots are forgotten once the last slot was dropped; a
    /// new file is recorded for its slot.
    pub fn advance(&mut self, vm: &mut KvmVm, outcome: Result<u32, i32>)
        requires
            old(self).wf(),
            old(self).memfds == (old(vm).guest_memfds is Some),
        ensures
            final(self).wf(),
            final(self).memfds == (final(vm).guest_memfds is Some),
            final(vm).same_settings(old(vm)),
            final(vm).dirty_log_slots == old(vm).dirty_log_slots,
            old(self).moves_on(final(self), outcome),
            ({
                let i = old(self).index as int;
                let made = (old(self).stage, outcome) matches (CpuidStage::CreateMemfd, Ok(_));
                let renewed = KvmGuestMemSlot {
                    guest_memfd: outcome->Ok_0,
                    ..old(self).slots@[i]
                };
                let dropped = old(self).stage == CpuidStage::Remove && outcome is Ok
                    && final(self).stage == CpuidStage::Apply;
                &&& final(vm).memfds() == (match old(vm).memfds() {
                    None => None::<Map<u32, u32>>,
                    Some(m) => Some(
                        if made {
                            m.insert(renewed.slot, outcome->Ok_0)
                        } else if dropped {
                            without_slots(m, old(self).slots@)
                        } else {
                            m
                        },
                    ),
                })
                &&& final(vm).slots() == (match old(vm).slots() {
                    None => None::<Map<u32, KvmGuestMemSlot>>,
                    Some(m) => Some(
                        if made {
                            m.insert(renewed.slot, renewed)
                        } else {
                            m
                        },
                    ),
                })
            }),
    {
        let n: usize = self.slots.len();
        let restore: CpuidStage = if self.memfds {
            CpuidStage::CreateMemfd
        } else {
            CpuidStage::Restore
        };
        match self.stage {
            CpuidStage::Apply => {
                if let Err(e) = outcome {
                    self.apply_error = Some(e);
                }
                if n == 0 {
                    self.stage = CpuidStage::Finished;
                } else {
                    self.stage = restore;
                    self.index = 0;
                }
            },
            CpuidStage::Finished => {},
            stage => {
                let value: u32 = match outcome {
                    Ok(v) => v,
                    Err(e) => {
                        self.error = Some(e);
                        self.stage = CpuidStage::Finished;
                        return;
                    },
                };
                match stage {
                    CpuidStage::Share => {
                        self.stage = CpuidStage::Remove;
                    },
                    CpuidStage::Remove => {
                        if self.index + 1 < n {
                            self.index = self.index + 1;
                            self.stage = CpuidStage::Share;
                        } else {
                            self.forget_memfds(vm);
                            self.stage = CpuidStage::Apply;
                        }
                    },
                    CpuidStage::CreateMemfd => {
                        let mut s: KvmGuestMemSlot = self.slots[self.index];
                        s.guest_memfd = value;
                        self.slots[self.index] = s;
                        if let Some(memfds) = &mut vm.guest_memfds {
                            memfds.insert(s.slot, value);
                        }
                        if let Some(slots) = &mut vm.guest_mem_slots {
                            slots.insert(s.slot, s);
                        }
                        self.stage = CpuidStage::Restore;
                    },
                    CpuidStage::Restore => {
                        self.stage = CpuidStage::Protect;
                    },
                    _ => {
                        if self.index + 1 < n {
                            self.index = self.index + 1;
                            self.stage = restore;
                        } else {
                            self.stage = CpuidStage::Finished;
                        }
                    },
                }
            },
        }
    }

    fn forget_memfds(&self, vm: &mut KvmVm)
        ensures
            final(vm).same_settings(old(vm)),
            final(vm).dirty_log_slots == old(vm).dirty_log_slots,
            final(vm).guest_mem_slots == old(vm).guest_mem_slots,
            final(vm).memfds() == (match old(vm).memfds() {
                None => None::<Map<u32, u32>>,
                Some(m) => Some(without_slots(m, self.slots@)),
            }),
    {
        if let Some(memfds) = &mut vm.guest_memfds {
            let ghost before = memfds@;
            let mut i: usize = 0;
            while i < self.slots.len()
                invariant
                    i <= self.slots@.len(),
                    memfds@ == without_slots(before, self.slots@.take(i as int)),
                decreases self.slots@.len() - i,
            {
                proof {
                    assert(self.slots@.take(i + 1).drop_last() =~= self.slots@.take(i as int));
                }
                memfds.remove(&self.slots[i].slot);
                i = i + 1;
            }
            assert(self.slots@.take(i as int) =~= self.slots@);
        }
    }
}

/// An update only ever ends well after the CPUID was set and the last slot was
/// made private again, or after the CPUID was set where there are no slots. A
/// CPUID that was refused does not keep the slots from being put back.
pub proof fn update_ends_well_only_restored(u: CpuidUpdate, outcome: Result<u32, i32>)
    requires
        u.wf(),
        u.stage != CpuidStage::Finished,
        u.next_place(outcome).0 == CpuidStage::Finished,
        outcome is Ok,
    ensures
        u.stage == CpuidStage::Protect && u.index == u.slots@.len() - 1 || u.stage
            == CpuidStage::Apply && u.slots@.len() == 0,
{
}

/// Setting the CPUID is followed by putting the slots back, whether it
/// succeeded or not.
pub proof fn refused_cpuid_still_restores(u: CpuidUpdate, outcome: Result<u32, i32>)
    requires
        u.stage == CpuidStage::Apply,
        u.slots@.len() > 0,
    ensures
        u.next_place(outcome) == (u.restore_stage(), 0int),
{
}

/// What the kernel knows of a VM's memory: the region of each slot, and the
/// attributes of each address.
pub struct KernelMemory {
    pub regions: Map<u32, KvmMemoryRegion>,
    pub attributes: spec_fn(int) -> u64,
}

impl KernelMemory {
    /// The memory after an action was carried out. A region without memory
    /// drops its slot.
    pub open spec fn after(self, action: CpuidAction) -> KernelMemory {
        match action {
            CpuidAction::SetAttributes(a) => KernelMemory {
                attributes: |x: int|
                    if a.address <= x < a.address + a.size {
                        a.attributes
                    } else {
                        (self.attributes)(x)
                    },
                ..self
            },
            CpuidAction::SetRegion(r) => KernelMemory {
                regions: if r.memory_size == 0 {
                    self.regions.remove(r.slot)
                } else {
                    self.regions.insert(r.slot, r)
                },
                ..self
            },
            _ => self,
        }
    }

    /// The memory after the first `n` states of an update had their action
    /// carried out.
    pub open spec fn run(self, trace: Seq<CpuidUpdate>, n: nat) -> KernelMemory
        decreases n,
    {
        if n == 0 {
            self
        } else {
            self.run(trace, (n - 1) as nat).after(trace[n - 1].due())
        }
    }

    /// The slot is dropped, and its range is shared.
    pub open spec fn without(self, s: KvmGuestMemSlot) -> bool {
        &&& !self.regions.contains_key(s.slot)
        &&& self.all(s, 0)
    }

    /// The slot is there with its memory, and its range is private.
    pub open spec fn with(self, s: KvmGuestMemSlot) -> bool {
        &&& self.holds(s)
        &&& self.all(s, 8)
    }

    /// The slot is there with its memory.
    pub open spec fn holds(self, s: KvmGuestMemSlot) -> bool {
        self.regions.contains_key(s.slot) && same_memory(s, self.regions[s.slot])
    }

    /// All addresses of the slot have these attributes.
    pub open spec fn all(self, s: KvmGuestMemSlot, attributes: u64) -> bool {
        forall|x: int|
            s.guest_phys_addr <= x < s.guest_phys_addr + s.memory_size ==> #[trigger] (
            self.attributes)(x) == attributes
    }
}

/// The region is the slot's memory: all that is known of it, and its file.
pub open spec fn same_memory(s: KvmGuestMemSlot, r: KvmMemoryRegion) -> bool {
    &&& r.slot == s.slot
    &&& r.guest_phys_addr == s.guest_phys_addr
    &&& r.memory_size == s.memory_size
    &&& r.userspace_addr == s.userspace_addr
    &&& r.flags == s.flags
    &&& r.guest_memfd == s.guest_memfd
    &&& r.guest_memfd_offset == s.guest_memfd_offset
}

/// Two lists are of the same slots. Only their files may differ.
pub open spec fn same_slots(a: Seq<KvmGuestMemSlot>, b: Seq<KvmGuestMemSlot>) -> bool {
    &&& a.len() == b.len()
    &&& forall|i: int|
        0 <= i < a.len() ==> #[trigger] b[i] == (KvmGuestMemSlot {
            guest_memfd: b[i].guest_memfd,
            ..a[i]
        })
}

/// No two slots have the same number, and none is empty.
pub open spec fn slots_apart(slots: Seq<KvmGuestMemSlot>) -> bool {
    &&& forall|i: int, j: int|
        0 <= i < j < slots.len() ==> (#[trigger] slots[i]).slot != (#[trigger] slots[j]).slot
    &&& forall|i: int| 0 <= i < slots.len() ==> (#[trigger] slots[i]).memory_size > 0
}

/// Whether the states follow each other in an update of these slots, in which
/// nothing but setting the CPUID went wrong.
pub open spec fn is_run(
    slots: Seq<KvmGuestMemSlot>,
    trace: Seq<CpuidUpdate>,
    outcomes: Seq<Result<u32, i32>>,
) -> bool {
    &&& trace.len() == outcomes.len() + 1
    &&& trace[0].slots@ == slots
    &&& trace[0].wf()
    &&& trace[0].index == 0
    &&& trace[0].stage == (if slots.len() == 0 {
        CpuidStage::Apply
    } else {
        CpuidStage::Share
    })
    &&& forall|i: int|
        0 <= i < outcomes.len() ==> {
            &&& (#[trigger] trace[i]).moves_on(&trace[i + 1], outcomes[i])
            &&& trace[i].stage == CpuidStage::Apply || outcomes[i] is Ok
        }
}

/// How far the kernel's memory is when an update is in a state.
spec fn so_far(k: KernelMemory, u: CpuidUpdate) -> bool {
    let n = u.slots@.len();
    match u.stage {
        CpuidStage::Share => forall|j: int|
            0 <= j < u.index ==> k.without(#[trigger] u.slots@[j]),
        CpuidStage::Remove => {
            &&& forall|j: int| 0 <= j < u.index ==> k.without(#[trigger] u.slots@[j])
            &&& k.all(u.slots@[u.index as int], 0)
        },
        CpuidStage::Apply => forall|j: int| 0 <= j < n ==> k.without(#[trigger] u.slots@[j]),
        CpuidStage::CreateMemfd => forall|j: int|
            0 <= j < u.index ==> k.with(#[trigger] u.slots@[j]),
        CpuidStage::Restore => forall|j: int| 0 <= j < u.index ==> k.with(#[trigger] u.slots@[j]),
        CpuidStage::Protect => {
            &&& forall|j: int| 0 <= j < u.index ==> k.with(#[trigger] u.slots@[j])
            &&& k.holds(u.slots@[u.index as int])
        },
        CpuidStage::Finished => forall|j: int| 0 <= j < n ==> k.with(#[trigger] u.slots@[j]),
    }
}

proof fn lemma_step(k: KernelMemory, u: CpuidUpdate, next: CpuidUpdate, outcome: Result<u32, i32>)
    requires
        so_far(k, u),
        u.wf(),
        slots_apart(u.slots@),
        u.moves_on(&next, outcome),
        u.stage == CpuidStage::Apply || outcome is Ok,
    ensures
        so_far(k.after(u.due()), next),
        next.wf(),
        slots_apart(next.slots@),
        same_slots(u.slots@, next.slots@),
{
    let k2 = k.after(u.due());
    let n = u.slots@.len();
    if u.stage != CpuidStage::Apply && u.stage != CpuidStage::Finished {
        let s = u.slots@[u.index as int];
        assert(s.memory_size > 0);
        if u.stage == CpuidStage::Share {
            assert(k2.all(s, 0));
            assert forall|j: int| 0 <= j < u.index implies k2.without(#[trigger] next.slots@[j]) by {
                assert(k.without(u.slots@[j]));
            }
        }
        if u.stage == CpuidStage::Remove {
            assert forall|j: int| 0 <= j <= u.index implies k2.without(#[trigger] next.slots@[j]) by {
                if j < u.index {
                    assert(k.without(u.slots@[j]));
                }
            }
        }
        if u.stage == CpuidStage::CreateMemfd {
            assert forall|j: int| 0 <= j < u.index implies k2.with(#[trigger] next.slots@[j]) by {
                assert(next.slots@[j] == u.slots@[j]);
                assert(k.with(u.slots@[j]));
            }
        }
        if u.stage == CpuidStage::Restore {
            assert(k2.holds(s));
            assert forall|j: int| 0 <= j < u.index implies k2.with(#[trigger] next.slots@[j]) by {
                assert(k.with(u.slots@[j]));
                assert(u.slots@[j].slot != s.slot);
            }
        }
        if u.stage == CpuidStage::Protect {
            assert(k2.all(s, 8));
            assert forall|j: int| 0 <= j <= u.index implies k2.with(#[trigger] next.slots@[j]) by {
                if j < u.index {
                    assert(k.with(u.slots@[j]));
                }
            }
        }
    }
}

proof fn lemma_run(
    k: KernelMemory,
    slots: Seq<KvmGuestMemSlot>,
    trace: Seq<CpuidUpdate>,
    outcomes: Seq<Result<u32, i32>>,
    n: nat,
)
    requires
        is_run(slots, trace, outcomes),
        slots_apart(slots),
        n < trace.len(),
    ensures
        so_far(k.run(trace, n), trace[n as int]),
        trace[n as int].wf(),
        slots_apart(trace[n as int].slots@),
        same_slots(slots, trace[n as int].slots@),
    decreases n,
{
    if n > 0 {
        let m = (n - 1) as nat;
        lemma_run(k, slots, trace, outcomes, m);
        lemma_step(k.run(trace, m), trace[m as int], trace[n as int], outcomes[m as int]);
        assert forall|i: int| 0 <= i < slots.len() implies #[trigger] trace[n as int].slots@[i] == (
        KvmGuestMemSlot { guest_memfd: trace[n as int].slots@[i].guest_memfd, ..slots[i] }) by {
            let middle = trace[m as int].slots@[i];
        }
    }
}

/// The CPUID is set while no slot is left and all their memory is shared. When
/// the update is over, each slot is back with all that it had, bound to its
/// file, and all its memory is private. It does not matter what the kernel knew
/// before.
pub proof fn update_gives_slots_back(
    k: KernelMemory,
    slots: Seq<KvmGuestMemSlot>,
    trace: Seq<CpuidUpdate>,
    outcomes: Seq<Result<u32, i32>>,
    n: nat,
)
    requires
        is_run(slots, trace, outcomes),
        slots_apart(slots),
        n < trace.len(),
    ensures
        same_slots(slots, trace[n as int].slots@),
        trace[n as int].due() is SetCpuid ==> forall|j: int|
            0 <= j < slots.len() ==> k.run(trace, n).without(#[trigger] slots[j]),
        trace[n as int].due() is Finish ==> forall|j: int|
            0 <= j < slots.len() ==> k.run(trace, n).with(#[trigger] trace[n as int].slots@[j]),
{
    lemma_run(k, slots, trace, outcomes, n);
    let u = trace[n as int];
    assert forall|j: int| 0 <= j < slots.len() && u.due() is SetCpuid implies k.run(
        trace,
        n,
    ).without(#[trigger] slots[j]) by {
        assert(k.run(trace, n).without(u.slots@[j]));
    }
}

/// A slot that gets a file gets one of its size, which is then noted for it.
pub proof fn new_file_fits_its_slot(u: CpuidUpdate, next: CpuidUpdate, file: u32)
    requires
        u.wf(),
        u.due() is CreateMemfd,
        u.moves_on(&next, Ok(file)),
    ensures
        u.due()->CreateMemfd_size == u.slots@[u.index as int].memory_size,
        next.slots@[u.index as int].guest_memfd == file,
        next.due() is SetRegion,
        same_memory(next.slots@[u.index as int], next.due()->SetRegion_0),
{
}

} // verus!
