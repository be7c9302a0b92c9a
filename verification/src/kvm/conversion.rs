//! Converting guest memory between private and shared.
//!
//! A conversion is a plan: the host operations to carry out, in order, and the
//! result to return once they all succeeded. An operation that fails ends the
//! conversion there.
use crate::memory::bitmap::find_runs;
use std::collections::HashMap;
use vstd::prelude::*;

verus! {

broadcast use vstd::std_specs::hash::group_hash_axioms;

/// `KVM_MEMORY_ATTRIBUTE_PRIVATE`.
pub const KVM_MEMORY_ATTRIBUTE_PRIVATE: u64 = 8;

/// A memory slot that is backed by a guest memory file.
#[derive(Clone, Copy, Debug, PartialEq, Eq, Structural)]
pub struct KvmGuestMemSlot {
    pub slot: u32,
    pub guest_phys_addr: u64,
    pub memory_size: u64,
    pub userspace_addr: u64,
    pub flags: u32,
    pub guest_memfd_offset: u64,
    pub guest_memfd: u32,
}

/// What to do with a range of a guest memory file.
#[derive(Clone, Copy, Debug, PartialEq, Eq, Structural)]
pub enum MemfdOp {
    /// Release the range and keep the file size.
    PunchHole,
    /// Allocate the range.
    Allocate,
}

/// One host operation of a conversion.
#[derive(Clone, Copy, Debug, PartialEq, Eq, Structural)]
pub enum MemoryAction {
    /// Tell the listeners that a range changes state.
    Notify { address: u64, size: u64, private: bool },
    /// Set the KVM memory attributes of a range.
    SetAttributes { address: u64, size: u64, attributes: u64 },
    /// Operate on a range of the guest memory file `fd`.
    Memfd { op: MemfdOp, fd: u32, offset: u64, length: u64 },
    /// Give back the host memory behind a range.
    Discard { host_addr: u64, length: u64 },
}

/// Why a conversion is refused.
#[derive(Clone, Copy, Debug, PartialEq, Eq, Structural)]
pub enum ConvertError {
    /// The range runs past the end of the address space.
    RangeOverflow,
    /// A slot runs past the end of the address space.
    SlotOverflow,
    /// A host address runs past the end of the address space.
    UserspaceOverflow,
    /// A slot has no guest memory file.
    MissingMemfd { slot: u32 },
    /// No slot meets a range that is to become private.
    NotGuestMemfd { address: u64, size: u64 },
    /// A range that is to become private has a hole before a slot.
    Hole { address: u64, size: u64, hole_start: u64, hole_end: u64 },
    /// A range that is to become private reaches past the last slot.
    TrailingHole { address: u64, size: u64, covered_until: u64 },
}

/// The first address after a slot.
pub open spec fn slot_end(s: KvmGuestMemSlot) -> int {
    s.guest_phys_addr + s.memory_size
}

/// Whether an address lies in a slot.
pub open spec fn slot_has(s: KvmGuestMemSlot, x: int) -> bool {
    s.guest_phys_addr <= x < slot_end(s)
}

/// Where the part of a slot that lies in a range starts.
pub open spec fn hit_start(s: KvmGuestMemSlot, address: int) -> int {
    if address > s.guest_phys_addr {
        address
    } else {
        s.guest_phys_addr as int
    }
}

/// Where the part of a slot that lies in a range ends.
pub open spec fn hit_end(s: KvmGuestMemSlot, end: int) -> int {
    if end < slot_end(s) {
        end
    } else {
        slot_end(s)
    }
}

/// A slot whose file range fits a file offset.
pub open spec fn slot_ok(s: KvmGuestMemSlot) -> bool {
    s.guest_memfd_offset + s.memory_size <= u64::MAX
}

/// A plan continued by another one, which is dropped if the first is refused.
pub open spec fn followed_by(
    a: (Seq<MemoryAction>, Result<(), ConvertError>),
    b: (Seq<MemoryAction>, Result<(), ConvertError>),
) -> (Seq<MemoryAction>, Result<(), ConvertError>) {
    if a.1 is Err {
        a
    } else {
        (a.0 + b.0, b.1)
    }
}

/// A plan of given actions that is not refused.
pub open spec fn done(actions: Seq<MemoryAction>) -> (Seq<MemoryAction>, Result<(), ConvertError>) {
    (actions, Ok(()))
}

/// A plan that is refused at once.
pub open spec fn refused(e: ConvertError) -> (Seq<MemoryAction>, Result<(), ConvertError>) {
    (Seq::empty(), Err(e))
}

/// The guest memory file ranges behind `[address, end)`, slot by slot.
pub open spec fn memfd_plan(
    op: MemfdOp,
    address: int,
    end: int,
    slots: Seq<KvmGuestMemSlot>,
    memfds: Map<u32, u32>,
) -> (Seq<MemoryAction>, Result<(), ConvertError>)
    decreases slots.len(),
{
    if slots.len() == 0 {
        done(Seq::empty())
    } else {
        let s = slots[0];
        let rest = memfd_plan(op, address, end, slots.drop_first(), memfds);
        let hs = hit_start(s, address);
        let he = hit_end(s, end);
        if slot_end(s) > u64::MAX {
            refused(ConvertError::SlotOverflow)
        } else if hs >= he {
            rest
        } else if !memfds.contains_key(s.slot) {
            refused(ConvertError::MissingMemfd { slot: s.slot })
        } else {
            followed_by(
                done(
                    seq![
                        MemoryAction::Memfd {
                            op,
                            fd: memfds[s.slot],
                            offset: (s.guest_memfd_offset + (hs - s.guest_phys_addr)) as u64,
                            length: (he - hs) as u64,
                        },
                    ],
                ),
                rest,
            )
        }
    }
}

/// The host memory behind `[address, end)`, slot by slot.
pub open spec fn discard_plan(address: int, end: int, slots: Seq<KvmGuestMemSlot>) -> (
    Seq<MemoryAction>,
    Result<(), ConvertError>,
)
    decreases slots.len(),
{
    if slots.len() == 0 {
        done(Seq::empty())
    } else {
        let s = slots[0];
        let rest = discard_plan(address, end, slots.drop_first());
        let hs = hit_start(s, address);
        let he = hit_end(s, end);
        if slot_end(s) > u64::MAX {
            refused(ConvertError::SlotOverflow)
        } else if hs >= he {
            rest
        } else if s.userspace_addr + (hs - s.guest_phys_addr) > u64::MAX {
            refused(ConvertError::UserspaceOverflow)
        } else {
            followed_by(
                done(
                    seq![
                        MemoryAction::Discard {
                            host_addr: (s.userspace_addr + (hs - s.guest_phys_addr)) as u64,
                            length: (he - hs) as u64,
                        },
                    ],
                ),
                rest,
            )
        }
    }
}

/// Whether a slot meets `[address, end)`. A slot that runs past the end of the
/// address space never does.
pub open spec fn hits(s: KvmGuestMemSlot, address: int, end: int) -> bool {
    s.guest_phys_addr < end && slot_end(s) <= u64::MAX && slot_end(s) > address
}

/// A sorted list with one more slot, after those that start no later.
pub open spec fn insert_slot(s: Seq<KvmGuestMemSlot>, x: KvmGuestMemSlot) -> Seq<KvmGuestMemSlot>
    decreases s.len(),
{
    if s.len() == 0 || s.last().guest_phys_addr <= x.guest_phys_addr {
        s.push(x)
    } else {
        insert_slot(s.drop_last(), x).push(s.last())
    }
}

/// The slots that meet `[address, end)`, by start address.
pub open spec fn sorted_hits(slots: Seq<KvmGuestMemSlot>, address: int, end: int) -> Seq<
    KvmGuestMemSlot,
>
    decreases slots.len(),
{
    if slots.len() == 0 {
        Seq::empty()
    } else {
        let rest = sorted_hits(slots.drop_last(), address, end);
        if hits(slots.last(), address, end) {
            insert_slot(rest, slots.last())
        } else {
            rest
        }
    }
}

/// Punches holes where there are guest memory files.
pub open spec fn punch_plan(
    address: int,
    end: int,
    slots: Seq<KvmGuestMemSlot>,
    memfds: Option<Map<u32, u32>>,
) -> (Seq<MemoryAction>, Result<(), ConvertError>) {
    match memfds {
        None => done(Seq::empty()),
        Some(m) => memfd_plan(MemfdOp::PunchHole, address, end, slots, m),
    }
}

/// The per-slot part of a conversion of `[address, end)`, from the slot list
/// `hit` onwards. Addresses below `covered` have been dealt with.
pub open spec fn walk_plan(
    address: int,
    end: int,
    private: bool,
    slots: Seq<KvmGuestMemSlot>,
    memfds: Option<Map<u32, u32>>,
    hit: Seq<KvmGuestMemSlot>,
    covered: int,
) -> (Seq<MemoryAction>, Result<(), ConvertError>)
    decreases hit.len(),
{
    if hit.len() == 0 {
        if private && covered < end {
            refused(
                ConvertError::TrailingHole {
                    address: address as u64,
                    size: (end - address) as u64,
                    covered_until: covered as u64,
                },
            )
        } else {
            done(Seq::empty())
        }
    } else {
        let hs = hit_start(hit[0], address);
        let he = hit_end(hit[0], end);
        if hs >= he {
            walk_plan(address, end, private, slots, memfds, hit.drop_first(), covered)
        } else if private && hs > covered {
            refused(
                ConvertError::Hole {
                    address: address as u64,
                    size: (end - address) as u64,
                    hole_start: covered as u64,
                    hole_end: hs as u64,
                },
            )
        } else {
            followed_by(
                if private {
                    followed_by(
                        done(
                            seq![
                                MemoryAction::SetAttributes {
                                    address: hs as u64,
                                    size: (he - hs) as u64,
                                    attributes: KVM_MEMORY_ATTRIBUTE_PRIVATE,
                                },
                            ],
                        ),
                        discard_plan(hs, he, slots),
                    )
                } else {
                    punch_plan(hs, he, slots, memfds)
                },
                walk_plan(
                    address,
                    end,
                    private,
                    slots,
                    memfds,
                    hit.drop_first(),
                    if he > covered {
                        he
                    } else {
                        covered
                    },
                ),
            )
        }
    }
}

/// The actions on the whole range that come before the per-slot part.
pub open spec fn convert_prologue(address: u64, size: u64, private: bool) -> Seq<MemoryAction> {
    if private {
        seq![MemoryAction::Notify { address, size, private: true }]
    } else {
        seq![
            MemoryAction::SetAttributes { address, size, attributes: 0 },
            MemoryAction::Notify { address, size, private: false },
        ]
    }
}

/// The plan that converts `[address, address + size)`.
///
/// Listeners hear of a range before it becomes private and after it became
/// shared. Without slot tracking the attributes are set on the whole range.
/// With it, a range becomes private only where slots cover it without a hole,
/// slot by slot, and its host memory is given back; a range becomes shared as
/// a whole, and holes are punched in the guest memory files behind it.
pub open spec fn convert_plan(
    address: u64,
    size: u64,
    private: bool,
    slots: Option<Seq<KvmGuestMemSlot>>,
    memfds: Option<Map<u32, u32>>,
) -> (Seq<MemoryAction>, Result<(), ConvertError>) {
    let end = address + size;
    if end > u64::MAX {
        refused(ConvertError::RangeOverflow)
    } else {
        followed_by(
            done(convert_prologue(address, size, private)),
            match slots {
                None => if private {
                    done(
                        seq![
                            MemoryAction::SetAttributes {
                                address,
                                size,
                                attributes: KVM_MEMORY_ATTRIBUTE_PRIVATE,
                            },
                        ],
                    )
                } else {
                    done(Seq::empty())
                },
                Some(slots) => {
                    let hit = sorted_hits(slots, address as int, end);
                    if hit.len() == 0 {
                        if private {
                            refused(ConvertError::NotGuestMemfd { address, size })
                        } else {
                            done(Seq::empty())
                        }
                    } else {
                        walk_plan(address as int, end, private, slots, memfds, hit, address as int)
                    }
                },
            },
        )
    }
}

/// The plan that shares a range outside of a running vCPU: the attributes are
/// cleared first, then holes are punched in the guest memory files.
pub open spec fn share_plan(
    address: u64,
    size: u64,
    slots: Option<Seq<KvmGuestMemSlot>>,
    memfds: Option<Map<u32, u32>>,
) -> (Seq<MemoryAction>, Result<(), ConvertError>) {
    followed_by(
        done(seq![MemoryAction::SetAttributes { address, size, attributes: 0 }]),
        match (slots, memfds) {
            (Some(slots), Some(memfds)) => if address + size > u64::MAX {
                refused(ConvertError::RangeOverflow)
            } else {
                memfd_plan(MemfdOp::PunchHole, address as int, address + size, slots, memfds)
            },
            _ => done(Seq::empty()),
        },
    )
}

/// The plan that allocates the guest memory files behind a range.
pub open spec fn allocate_plan(
    address: u64,
    size: u64,
    slots: Option<Seq<KvmGuestMemSlot>>,
    memfds: Option<Map<u32, u32>>,
) -> (Seq<MemoryAction>, Result<(), ConvertError>) {
    match (slots, memfds) {
        (Some(slots), Some(memfds)) => if address + size > u64::MAX {
            refused(ConvertError::RangeOverflow)
        } else {
            memfd_plan(MemfdOp::Allocate, address as int, address + size, slots, memfds)
        },
        _ => done(Seq::empty()),
    }
}

/// The view of an optional map of guest memory files.
pub open spec fn memfd_view(memfds: Option<HashMap<u32, u32>>) -> Option<Map<u32, u32>> {
    match memfds {
        None => None,
        Some(m) => Some(m@),
    }
}

/// The view of an optional slot list.
pub open spec fn slots_view(slots: Option<Vec<KvmGuestMemSlot>>) -> Option<Seq<KvmGuestMemSlot>> {
    match slots {
        None => None,
        Some(s) => Some(s@),
    }
}

fn memfd_ranges(
    op: MemfdOp,
    address: u64,
    end: u64,
    slots: &Vec<KvmGuestMemSlot>,
    memfds: &HashMap<u32, u32>,
    actions: &mut Vec<MemoryAction>,
) -> (r: Result<(), ConvertError>)
    requires
        forall|i: int| 0 <= i < slots@.len() ==> slot_ok(#[trigger] slots@[i]),
    ensures
        ({
            let plan = memfd_plan(op, address as int, end as int, slots@, memfds@);
            final(actions)@ == old(actions)@ + plan.0 && r == plan.1
        }),
{
    let ghost plan = memfd_plan(op, address as int, end as int, slots@, memfds@);
    let mut i: usize = 0;
    assert(slots@.skip(0) =~= slots@);
    assert(actions@ + plan.0 =~= old(actions)@ + plan.0);
    while i < slots.len()
        invariant
            i <= slots@.len(),
            forall|i: int| 0 <= i < slots@.len() ==> slot_ok(#[trigger] slots@[i]),
            plan == memfd_plan(op, address as int, end as int, slots@, memfds@),
            ({
                let rest = memfd_plan(
                    op,
                    address as int,
                    end as int,
                    slots@.skip(i as int),
                    memfds@,
                );
                actions@ + rest.0 == old(actions)@ + plan.0 && rest.1 == plan.1
            }),
        decreases slots@.len() - i,
    {
        let slot: KvmGuestMemSlot = slots[i];
        proof {
            assert(slots@.skip(i as int)[0] == slot);
            assert(slots@.skip(i as int).drop_first() =~= slots@.skip(i + 1));
        }
        let this_end: u64 = match slot.guest_phys_addr.checked_add(slot.memory_size) {
            Some(e) => e,
            None => {
                assert(actions@ =~= old(actions)@ + plan.0);
                return Err(ConvertError::SlotOverflow);
            },
        };
        let start: u64 = if address > slot.guest_phys_addr {
            address
        } else {
            slot.guest_phys_addr
        };
        let stop: u64 = if end < this_end {
            end
        } else {
            this_end
        };
        if start < stop {
            let fd: u32 = match memfds.get(&slot.slot) {
                Some(fd) => *fd,
                None => {
                    assert(actions@ =~= old(actions)@ + plan.0);
                    return Err(ConvertError::MissingMemfd { slot: slot.slot });
                },
            };
            let action = MemoryAction::Memfd {
                op,
                fd,
                offset: slot.guest_memfd_offset + (start - slot.guest_phys_addr),
                length: stop - start,
            };
            let ghost before = actions@;
            actions.push(action);
            proof {
                let rest = memfd_plan(
                    op,
                    address as int,
                    end as int,
                    slots@.skip(i + 1),
                    memfds@,
                );
                assert(actions@ + rest.0 =~= before + (seq![action] + rest.0));
            }
        }
        i = i + 1;
    }
    proof {
        assert(slots@.skip(i as int).len() == 0);
        assert(actions@ =~= old(actions)@ + plan.0);
    }
    Ok(())
}

/// Adds the host memory behind `[address, end)` to a plan.
fn discard_userspace_memory(
    address: u64,
    end: u64,
    slots: &Vec<KvmGuestMemSlot>,
    actions: &mut Vec<MemoryAction>,
) -> (r: Result<(), ConvertError>)
    ensures
        ({
            let plan = discard_plan(address as int, end as int, slots@);
            final(actions)@ == old(actions)@ + plan.0 && r == plan.1
        }),
{
    let ghost plan = discard_plan(address as int, end as int, slots@);
    let mut i: usize = 0;
    assert(slots@.skip(0) =~= slots@);
    while i < slots.len()
        invariant
            i <= slots@.len(),
            plan == discard_plan(address as int, end as int, slots@),
            ({
                let rest = discard_plan(address as int, end as int, slots@.skip(i as int));
                actions@ + rest.0 == old(actions)@ + plan.0 && rest.1 == plan.1
            }),
        decreases slots@.len() - i,
    {
        let slot: KvmGuestMemSlot = slots[i];
        proof {
            assert(slots@.skip(i as int)[0] == slot);
            assert(slots@.skip(i as int).drop_first() =~= slots@.skip(i + 1));
        }
        let this_end: u64 = match slot.guest_phys_addr.checked_add(slot.memory_size) {
            Some(e) => e,
            None => {
                assert(actions@ =~= old(actions)@ + plan.0);
                return Err(ConvertError::SlotOverflow);
            },
        };
        let start: u64 = if address > slot.guest_phys_addr {
            address
        } else {
            slot.guest_phys_addr
        };
        let stop: u64 = if end < this_end {
            end
        } else {
            this_end
        };
        if start < stop {
            let host_addr: u64 = match slot.userspace_addr.checked_add(
                start - slot.guest_phys_addr,
            ) {
                Some(h) => h,
                None => {
                    assert(actions@ =~= old(actions)@ + plan.0);
                    return Err(ConvertError::UserspaceOverflow);
                },
            };
            let action = MemoryAction::Discard { host_addr, length: stop - start };
            let ghost before = actions@;
            actions.push(action);
            proof {
                let rest = discard_plan(address as int, end as int, slots@.skip(i + 1));
                assert(actions@ + rest.0 =~= before + (seq![action] + rest.0));
            }
        }
        i = i + 1;
    }
    proof {
        assert(slots@.skip(i as int).len() == 0);
        assert(actions@ =~= old(actions)@ + plan.0);
    }
    Ok(())
}

proof fn lemma_insert_slot(s: Seq<KvmGuestMemSlot>, x: KvmGuestMemSlot, pos: int)
    requires
        0 <= pos <= s.len(),
        pos > 0 ==> s[pos - 1].guest_phys_addr <= x.guest_phys_addr,
        forall|i: int| pos <= i < s.len() ==> s[i].guest_phys_addr > x.guest_phys_addr,
    ensures
        insert_slot(s, x) == s.insert(pos, x),
    decreases s.len(),
{
    if pos == s.len() {
        assert(s.insert(pos, x) =~= s.push(x));
    } else {
        lemma_insert_slot(s.drop_last(), x, pos);
        assert(s.drop_last().insert(pos, x).push(s.last()) =~= s.insert(pos, x));
    }
}

fn hit_slots(slots: &Vec<KvmGuestMemSlot>, address: u64, end: u64) -> (hit: Vec<KvmGuestMemSlot>)
    ensures
        hit@ == sorted_hits(slots@, address as int, end as int),
{
    let mut hit: Vec<KvmGuestMemSlot> = Vec::new();
    let mut i: usize = 0;
    assert(slots@.take(0) =~= Seq::empty());
    while i < slots.len()
        invariant
            i <= slots@.len(),
            hit@ == sorted_hits(slots@.take(i as int), address as int, end as int),
        decreases slots@.len() - i,
    {
        let slot: KvmGuestMemSlot = slots[i];
        proof {
            assert(slots@.take(i + 1).drop_last() =~= slots@.take(i as int));
            assert(slots@.take(i + 1).last() == slot);
        }
        let meets: bool = slot.guest_phys_addr < end && match slot.guest_phys_addr.checked_add(
            slot.memory_size,
        ) {
            Some(e) => e > address,
            None => false,
        };
        if meets {
            let mut pos: usize = hit.len();
            while pos > 0 && hit[pos - 1].guest_phys_addr > slot.guest_phys_addr
                invariant
                    pos <= hit@.len(),
                    forall|k: int|
                        pos <= k < hit@.len() ==> hit@[k].guest_phys_addr > slot.guest_phys_addr,
                decreases pos,
            {
                pos = pos - 1;
            }
            proof {
                lemma_insert_slot(hit@, slot, pos as int);
            }
            hit.insert(pos, slot);
        }
        i = i + 1;
    }
    assert(slots@.take(slots@.len() as int) =~= slots@);
    hit
}

pub(crate) proof fn lemma_sorted_hits(slots: Seq<KvmGuestMemSlot>, address: int, end: int)
    ensures
        forall|i: int, j: int|
            0 <= i <= j < sorted_hits(slots, address, end).len() ==> (#[trigger] sorted_hits(
                slots,
                address,
                end,
            )[i]).guest_phys_addr <= (#[trigger] sorted_hits(
                slots,
                address,
                end,
            )[j]).guest_phys_addr,
        forall|x: KvmGuestMemSlot|
            #[trigger] sorted_hits(slots, address, end).contains(x) <==> slots.contains(x) && hits(
                x,
                address,
                end,
            ),
    decreases slots.len(),
{
    if slots.len() > 0 {
        let rest = sorted_hits(slots.drop_last(), address, end);
        let last = slots.last();
        lemma_sorted_hits(slots.drop_last(), address, end);
        if hits(last, address, end) {
            lemma_insert_sorted(rest, last);
        }
        assert forall|x: KvmGuestMemSlot|
            slots.contains(x) <==> slots.drop_last().contains(x) || x == last by {
            if slots.contains(x) && x != last {
                let i = choose|i: int| 0 <= i < slots.len() && slots[i] == x;
                assert(slots.drop_last()[i] == x);
            }
            if slots.drop_last().contains(x) {
                let i = choose|i: int|
                    0 <= i < slots.drop_last().len() && slots.drop_last()[i] == x;
                assert(slots[i] == x);
            }
            assert(slots[slots.len() - 1] == last);
        }
    }
}

proof fn lemma_insert_sorted(s: Seq<KvmGuestMemSlot>, x: KvmGuestMemSlot)
    requires
        forall|i: int, j: int|
            0 <= i <= j < s.len() ==> (#[trigger] s[i]).guest_phys_addr <= (
            #[trigger] s[j]).guest_phys_addr,
    ensures
        forall|i: int, j: int|
            0 <= i <= j < insert_slot(s, x).len() ==> (#[trigger] insert_slot(
                s,
                x,
            )[i]).guest_phys_addr <= (#[trigger] insert_slot(s, x)[j]).guest_phys_addr,
        forall|y: KvmGuestMemSlot|
            #[trigger] insert_slot(s, x).contains(y) <==> s.contains(y) || y == x,
    decreases s.len(),
{
    let r = insert_slot(s, x);
    if s.len() == 0 || s.last().guest_phys_addr <= x.guest_phys_addr {
        assert forall|y: KvmGuestMemSlot| #[trigger] r.contains(y) <==> s.contains(y) || y == x by {
            if r.contains(y) && y != x {
                let i = choose|i: int| 0 <= i < r.len() && r[i] == y;
                assert(s[i] == y);
            }
            if s.contains(y) {
                let i = choose|i: int| 0 <= i < s.len() && s[i] == y;
                assert(r[i] == y);
            }
            assert(r[r.len() - 1] == x);
        }
    } else {
        let d = s.drop_last();
        lemma_insert_sorted(d, x);
        let q = insert_slot(d, x);
        assert forall|i: int, j: int| 0 <= i <= j < r.len() implies (
        #[trigger] r[i]).guest_phys_addr <= (#[trigger] r[j]).guest_phys_addr by {
            if j == r.len() - 1 && i < j {
                assert(q.contains(q[i]));
                if q[i] != x {
                    let k = choose|k: int| 0 <= k < d.len() && d[k] == q[i];
                    assert(s[k] == q[i]);
                    assert(s[k].guest_phys_addr <= s[s.len() - 1].guest_phys_addr);
                }
            }
        }
        assert forall|y: KvmGuestMemSlot| #[trigger] r.contains(y) <==> s.contains(y) || y == x by {
            if r.contains(y) {
                let i = choose|i: int| 0 <= i < r.len() && r[i] == y;
                if i < q.len() {
                    assert(q[i] == y);
                    assert(q.contains(y));
                    if d.contains(y) {
                        let k = choose|k: int| 0 <= k < d.len() && d[k] == y;
                        assert(s[k] == y);
                    }
                } else {
                    assert(s[s.len() - 1] == y);
                }
            }
            if s.contains(y) || y == x {
                if y != x {
                    let i = choose|i: int| 0 <= i < s.len() && s[i] == y;
                    if i < d.len() {
                        assert(d[i] == y);
                        assert(d.contains(y));
                    } else {
                        assert(r[r.len() - 1] == y);
                    }
                }
                if y == x || d.contains(y) {
                    assert(q.contains(y));
                    let k = choose|k: int| 0 <= k < q.len() && q[k] == y;
                    assert(r[k] == y);
                }
            }
        }
    }
}

/// A conversion to carry out: the host operations, in order, and the result to
/// return once they all succeeded.
pub struct ConversionPlan {
    pub actions: Vec<MemoryAction>,
    pub outcome: Result<(), ConvertError>,
}

impl ConversionPlan {
    /// The plan as a pair.
    pub open spec fn view(&self) -> (Seq<MemoryAction>, Result<(), ConvertError>) {
        (self.actions@, self.outcome)
    }
}

fn punch_hole_guest_memfd(
    address: u64,
    end: u64,
    slots: &Vec<KvmGuestMemSlot>,
    memfds: &Option<HashMap<u32, u32>>,
    actions: &mut Vec<MemoryAction>,
) -> (r: Result<(), ConvertError>)
    requires
        forall|i: int| 0 <= i < slots@.len() ==> slot_ok(#[trigger] slots@[i]),
    ensures
        ({
            let plan = punch_plan(address as int, end as int, slots@, memfd_view(*memfds));
            final(actions)@ == old(actions)@ + plan.0 && r == plan.1
        }),
{
    match memfds {
        None => {
            assert(actions@ =~= old(actions)@ + Seq::<MemoryAction>::empty());
            Ok(())
        },
        Some(m) => memfd_ranges(MemfdOp::PunchHole, address, end, slots, m, actions),
    }
}

#[verifier::rlimit(40)]
fn convert_slots(
    address: u64,
    end: u64,
    private: bool,
    slots: &Vec<KvmGuestMemSlot>,
    memfds: &Option<HashMap<u32, u32>>,
    hit: &Vec<KvmGuestMemSlot>,
    actions: &mut Vec<MemoryAction>,
) -> (r: Result<(), ConvertError>)
    requires
        address <= end,
        forall|i: int| 0 <= i < slots@.len() ==> slot_ok(#[trigger] slots@[i]),
        forall|i: int| 0 <= i < hit@.len() ==> slot_end(#[trigger] hit@[i]) <= u64::MAX,
    ensures
        ({
            let plan = walk_plan(
                address as int,
                end as int,
                private,
                slots@,
                memfd_view(*memfds),
                hit@,
                address as int,
            );
            final(actions)@ == old(actions)@ + plan.0 && r == plan.1
        }),
{
    let ghost view = memfd_view(*memfds);
    let ghost plan = walk_plan(
        address as int,
        end as int,
        private,
        slots@,
        view,
        hit@,
        address as int,
    );
    let mut covered_until: u64 = address;
    let mut i: usize = 0;
    assert(hit@.skip(0) =~= hit@);
    while i < hit.len()
        invariant
            i <= hit@.len(),
            address <= end,
            address <= covered_until <= end,
            forall|i: int| 0 <= i < slots@.len() ==> slot_ok(#[trigger] slots@[i]),
            forall|i: int| 0 <= i < hit@.len() ==> slot_end(#[trigger] hit@[i]) <= u64::MAX,
            view == memfd_view(*memfds),
            plan == walk_plan(
                address as int,
                end as int,
                private,
                slots@,
                view,
                hit@,
                address as int,
            ),
            ({
                let rest = walk_plan(
                    address as int,
                    end as int,
                    private,
                    slots@,
                    view,
                    hit@.skip(i as int),
                    covered_until as int,
                );
                actions@ + rest.0 == old(actions)@ + plan.0 && rest.1 == plan.1
            }),
        decreases hit@.len() - i,
    {
        let slot: KvmGuestMemSlot = hit[i];
        let this_end: u64 = slot.guest_phys_addr + slot.memory_size;
        let range_start: u64 = if address > slot.guest_phys_addr {
            address
        } else {
            slot.guest_phys_addr
        };
        let range_end: u64 = if end < this_end {
            end
        } else {
            this_end
        };
        proof {
            assert(hit@.skip(i as int)[0] == slot);
            assert(hit@.skip(i as int).drop_first() =~= hit@.skip(i + 1));
        }
        if range_start >= range_end {
            i = i + 1;
            continue;
        }
        if private && range_start > covered_until {
            assert(actions@ =~= old(actions)@ + plan.0);
            return Err(
                ConvertError::Hole {
                    address,
                    size: end - address,
                    hole_start: covered_until,
                    hole_end: range_start,
                },
            );
        }
        let ghost before = actions@;
        let ghost next_covered = if range_end > covered_until {
            range_end as int
        } else {
            covered_until as int
        };
        let ghost rest = walk_plan(
            address as int,
            end as int,
            private,
            slots@,
            view,
            hit@.skip(i + 1),
            next_covered,
        );
        if private {
            let attr = MemoryAction::SetAttributes {
                address: range_start,
                size: range_end - range_start,
                attributes: KVM_MEMORY_ATTRIBUTE_PRIVATE,
            };
            actions.push(attr);
            let ghost dp = discard_plan(range_start as int, range_end as int, slots@);
            let step: Result<(), ConvertError> = discard_userspace_memory(
                range_start,
                range_end,
                slots,
                actions,
            );
            proof {
                assert(actions@ =~= before + (seq![attr] + dp.0));
            }
            match step {
                Ok(_) => {},
                Err(e) => {
                    assert(actions@ =~= old(actions)@ + plan.0);
                    return Err(e);
                },
            }
            assert(actions@ + rest.0 =~= before + ((seq![attr] + dp.0) + rest.0));
        } else {
            let ghost pp = punch_plan(range_start as int, range_end as int, slots@, view);
            let step: Result<(), ConvertError> = punch_hole_guest_memfd(
                range_start,
                range_end,
                slots,
                memfds,
                actions,
            );
            match step {
                Ok(_) => {},
                Err(e) => {
                    assert(actions@ =~= old(actions)@ + plan.0);
                    return Err(e);
                },
            }
            assert(actions@ + rest.0 =~= before + (pp.0 + rest.0));
        }
        if range_end > covered_until {
            covered_until = range_end;
        }
        i = i + 1;
    }
    assert(hit@.skip(i as int).len() == 0);
    assert(actions@ =~= old(actions)@ + plan.0);
    if private && covered_until < end {
        return Err(
            ConvertError::TrailingHole { address, size: end - address, covered_until },
        );
    }
    Ok(())
}

/// Plans the conversion of `[address, address + size)` from a list of the
/// tracked slots, in any order. `None` stands for a VM that tracks no slots.
pub fn plan_conversion(
    address: u64,
    size: u64,
    private: bool,
    slots: &Option<Vec<KvmGuestMemSlot>>,
    memfds: &Option<HashMap<u32, u32>>,
) -> (plan: ConversionPlan)
    requires
        slots matches Some(s) ==> forall|i: int| 0 <= i < s@.len() ==> slot_ok(#[trigger] s@[i]),
    ensures
        plan@ == convert_plan(address, size, private, slots_view(*slots), memfd_view(*memfds)),
{
    let mut actions: Vec<MemoryAction> = Vec::new();
    let end: u64 = match address.checked_add(size) {
        Some(e) => e,
        None => {
            return ConversionPlan { actions, outcome: Err(ConvertError::RangeOverflow) };
        },
    };
    if private {
        actions.push(MemoryAction::Notify { address, size, private: true });
    } else {
        actions.push(MemoryAction::SetAttributes { address, size, attributes: 0 });
        actions.push(MemoryAction::Notify { address, size, private: false });
    }
    let ghost prologue = convert_prologue(address, size, private);
    assert(actions@ =~= prologue);
    match slots {
        None => {
            if private {
                actions.push(
                    MemoryAction::SetAttributes {
                        address,
                        size,
                        attributes: KVM_MEMORY_ATTRIBUTE_PRIVATE,
                    },
                );
                assert(actions@ =~= prologue + seq![
                    MemoryAction::SetAttributes {
                        address,
                        size,
                        attributes: KVM_MEMORY_ATTRIBUTE_PRIVATE,
                    },
                ]);
            } else {
                assert(actions@ =~= prologue + Seq::<MemoryAction>::empty());
            }
            ConversionPlan { actions, outcome: Ok(()) }
        },
        Some(slots) => {
            let hit: Vec<KvmGuestMemSlot> = hit_slots(slots, address, end);
            if hit.len() == 0 {
                assert(actions@ =~= prologue + Seq::<MemoryAction>::empty());
                if private {
                    return ConversionPlan {
                        actions,
                        outcome: Err(ConvertError::NotGuestMemfd { address, size }),
                    };
                }
                return ConversionPlan { actions, outcome: Ok(()) };
            }
            proof {
                lemma_sorted_hits(slots@, address as int, end as int);
                assert forall|i: int| 0 <= i < hit@.len() implies slot_end(#[trigger] hit@[i])
                    <= u64::MAX by {
                    assert(hit@.contains(hit@[i]));
                }
            }
            let outcome: Result<(), ConvertError> = convert_slots(
                address,
                end,
                private,
                slots,
                memfds,
                &hit,
                &mut actions,
            );
            ConversionPlan { actions, outcome }
        },
    }
}

/// Plans sharing a range outside of a running vCPU.
pub fn plan_share(
    address: u64,
    size: u64,
    slots: &Option<Vec<KvmGuestMemSlot>>,
    memfds: &Option<HashMap<u32, u32>>,
) -> (plan: ConversionPlan)
    requires
        slots matches Some(s) ==> forall|i: int| 0 <= i < s@.len() ==> slot_ok(#[trigger] s@[i]),
    ensures
        plan@ == share_plan(address, size, slots_view(*slots), memfd_view(*memfds)),
{
    let mut actions: Vec<MemoryAction> = Vec::new();
    actions.push(MemoryAction::SetAttributes { address, size, attributes: 0 });
    let ghost head = seq![MemoryAction::SetAttributes { address, size, attributes: 0 }];
    assert(actions@ =~= head);
    assert(head + Seq::<MemoryAction>::empty() =~= head);
    let outcome: Result<(), ConvertError> = match (slots, memfds) {
        (Some(slots), Some(memfds)) => match address.checked_add(size) {
            Some(end) => memfd_ranges(MemfdOp::PunchHole, address, end, slots, memfds, &mut actions),
            None => Err(ConvertError::RangeOverflow),
        },
        _ => Ok(()),
    };
    ConversionPlan { actions, outcome }
}

/// Plans allocating the guest memory files behind a range.
pub fn plan_allocation(
    address: u64,
    size: u64,
    slots: &Option<Vec<KvmGuestMemSlot>>,
    memfds: &Option<HashMap<u32, u32>>,
) -> (plan: ConversionPlan)
    requires
        slots matches Some(s) ==> forall|i: int| 0 <= i < s@.len() ==> slot_ok(#[trigger] s@[i]),
    ensures
        plan@ == allocate_plan(address, size, slots_view(*slots), memfd_view(*memfds)),
{
    let mut actions: Vec<MemoryAction> = Vec::new();
    let outcome: Result<(), ConvertError> = match (slots, memfds) {
        (Some(slots), Some(memfds)) => match address.checked_add(size) {
            Some(end) => memfd_ranges(MemfdOp::Allocate, address, end, slots, memfds, &mut actions),
            None => Err(ConvertError::RangeOverflow),
        },
        _ => Ok(()),
    };
    proof {
        let plan = allocate_plan(address, size, slots_view(*slots), memfd_view(*memfds));
        assert(actions@ =~= plan.0);
    }
    ConversionPlan { actions, outcome }
}

/// `EINVAL`.
pub const EINVAL: i32 = 22;

/// `ENOSYS`.
pub const ENOSYS: i32 = 38;

/// `EOPNOTSUPP`.
pub const EOPNOTSUPP: i32 = 95;

/// Whether discarding host memory falls back from removing the backing blocks
/// to only dropping the pages: the backing does not support removal.
pub fn discard_needs_fallback(errno: i32) -> (r: bool)
    ensures
        r <==> errno == EINVAL || errno == ENOSYS || errno == EOPNOTSUPP,
{
    errno == EINVAL || errno == ENOSYS || errno == EOPNOTSUPP
}

/// Whether an address lies in one of the slots.
pub open spec fn backed(slots: Seq<KvmGuestMemSlot>, x: int) -> bool {
    exists|i: int| 0 <= i < slots.len() && slot_has(#[trigger] slots[i], x)
}

/// Whether every address of `[lo, hi)` lies in one of the slots.
pub open spec fn covered_by(slots: Seq<KvmGuestMemSlot>, lo: int, hi: int) -> bool {
    forall|x: int| lo <= x < hi ==> #[trigger] backed(slots, x)
}

/// Slots whose guest and host addresses all fit the address space.
pub open spec fn addressable(slots: Seq<KvmGuestMemSlot>) -> bool {
    forall|i: int|
        0 <= i < slots.len() ==> slot_end(#[trigger] slots[i]) <= u64::MAX
            && slots[i].userspace_addr + slots[i].memory_size <= u64::MAX
}

proof fn lemma_discard_ok(address: int, end: int, slots: Seq<KvmGuestMemSlot>)
    requires
        addressable(slots),
    ensures
        discard_plan(address, end, slots).1 is Ok,
    decreases slots.len(),
{
    if slots.len() > 0 {
        assert forall|i: int| 0 <= i < slots.drop_first().len() implies slot_end(
            #[trigger] slots.drop_first()[i],
        ) <= u64::MAX && slots.drop_first()[i].userspace_addr + slots.drop_first()[i].memory_size
            <= u64::MAX by {
            assert(slots[i + 1] == slots.drop_first()[i]);
        }
        lemma_discard_ok(address, end, slots.drop_first());
        assert(slot_end(slots[0]) <= u64::MAX);
    }
}

proof fn lemma_walk_private(
    address: int,
    end: int,
    slots: Seq<KvmGuestMemSlot>,
    memfds: Option<Map<u32, u32>>,
    hit: Seq<KvmGuestMemSlot>,
    covered: int,
)
    requires
        address <= covered <= end,
        addressable(slots),
        forall|i: int, j: int|
            0 <= i <= j < hit.len() ==> (#[trigger] hit[i]).guest_phys_addr <= (
            #[trigger] hit[j]).guest_phys_addr,
    ensures
        walk_plan(address, end, true, slots, memfds, hit, covered).1 is Ok <==> covered_by(
            hit,
            covered,
            end,
        ),
    decreases hit.len(),
{
    if hit.len() == 0 {
        if covered < end {
            assert(!backed(hit, covered));
        }
    } else {
        let rest = hit.drop_first();
        let hs = hit_start(hit[0], address);
        let he = hit_end(hit[0], end);
        let next = if hs >= he {
            covered
        } else if he > covered {
            he
        } else {
            covered
        };
        assert forall|i: int, j: int| 0 <= i <= j < rest.len() implies (
        #[trigger] rest[i]).guest_phys_addr <= (#[trigger] rest[j]).guest_phys_addr by {
            assert(hit[i + 1].guest_phys_addr <= hit[j + 1].guest_phys_addr);
        }
        if hs < he && hs > covered {
            assert(!covered_by(hit, covered, end)) by {
                assert forall|i: int| 0 <= i < hit.len() implies !slot_has(
                    #[trigger] hit[i],
                    covered,
                ) by {
                    assert(hit[0].guest_phys_addr <= hit[i].guest_phys_addr);
                }
                assert(!backed(hit, covered));
            }
        } else {
            lemma_walk_private(address, end, slots, memfds, rest, next);
            lemma_discard_ok(hs, he, slots);
            if covered_by(hit, covered, end) {
                assert forall|x: int| next <= x < end implies #[trigger] backed(rest, x) by {
                    assert(backed(hit, x));
                    let i = choose|i: int| 0 <= i < hit.len() && slot_has(#[trigger] hit[i], x);
                    assert(i != 0);
                    assert(rest[i - 1] == hit[i]);
                    assert(slot_has(rest[i - 1], x));
                }
                assert(covered_by(rest, next, end));
            }
            if covered_by(rest, next, end) {
                assert forall|x: int| covered <= x < end implies #[trigger] backed(hit, x) by {
                    if x >= next {
                        assert(backed(rest, x));
                        let i = choose|i: int|
                            0 <= i < rest.len() && slot_has(#[trigger] rest[i], x);
                        assert(hit[i + 1] == rest[i]);
                        assert(slot_has(hit[i + 1], x));
                    } else {
                        assert(slot_has(hit[0], x));
                    }
                }
                assert(covered_by(hit, covered, end));
            }
        }
    }
}

/// A range becomes private exactly if tracked slots cover all of it: a range
/// that is not wholly backed by guest memory files is refused, and one that is
/// backed is not.
pub proof fn private_conversion_iff_covered(
    address: u64,
    size: u64,
    slots: Seq<KvmGuestMemSlot>,
    memfds: Option<Map<u32, u32>>,
)
    requires
        address + size <= u64::MAX,
        size > 0,
        addressable(slots),
    ensures
        convert_plan(address, size, true, Some(slots), memfds).1 is Ok <==> covered_by(
            slots,
            address as int,
            address + size,
        ),
{
    let end = address + size;
    let a = address as int;
    let hit = sorted_hits(slots, a, end);
    lemma_sorted_hits(slots, a, end);
    assert(covered_by(slots, a, end) <==> covered_by(hit, a, end)) by {
        if covered_by(slots, a, end) {
            assert forall|x: int| a <= x < end implies #[trigger] backed(hit, x) by {
                assert(backed(slots, x));
                let i = choose|i: int| 0 <= i < slots.len() && slot_has(#[trigger] slots[i], x);
                assert(slots.contains(slots[i]));
                assert(hit.contains(slots[i]));
                let k = choose|k: int| 0 <= k < hit.len() && hit[k] == slots[i];
                assert(slot_has(hit[k], x));
            }
        }
        if covered_by(hit, a, end) {
            assert forall|x: int| a <= x < end implies #[trigger] backed(slots, x) by {
                assert(backed(hit, x));
                let k = choose|k: int| 0 <= k < hit.len() && slot_has(#[trigger] hit[k], x);
                assert(hit.contains(hit[k]));
                let i = choose|i: int| 0 <= i < slots.len() && slots[i] == hit[k];
                assert(slot_has(slots[i], x));
            }
        }
    }
    if hit.len() == 0 {
        assert(!backed(hit, a));
    } else {
        lemma_walk_private(a, end, slots, memfds, hit, a);
    }
}

/// Attributes are only ever set inside the range that is converted.
pub open spec fn attributes_within(
    actions: Seq<MemoryAction>,
    lo: int,
    hi: int,
    attributes: u64,
) -> bool {
    forall|i: int|
        0 <= i < actions.len() ==> (#[trigger] actions[i] matches MemoryAction::SetAttributes {
            address,
            size,
            attributes: a,
        } ==> lo <= address && address + size <= hi && a == attributes)
}

proof fn lemma_discard_attributes(
    address: int,
    end: int,
    slots: Seq<KvmGuestMemSlot>,
    lo: int,
    hi: int,
    attributes: u64,
)
    ensures
        attributes_within(discard_plan(address, end, slots).0, lo, hi, attributes),
    decreases slots.len(),
{
    if slots.len() > 0 {
        lemma_discard_attributes(address, end, slots.drop_first(), lo, hi, attributes);
    }
}

proof fn lemma_memfd_attributes(
    op: MemfdOp,
    address: int,
    end: int,
    slots: Seq<KvmGuestMemSlot>,
    memfds: Map<u32, u32>,
    lo: int,
    hi: int,
    attributes: u64,
)
    ensures
        attributes_within(memfd_plan(op, address, end, slots, memfds).0, lo, hi, attributes),
    decreases slots.len(),
{
    if slots.len() > 0 {
        lemma_memfd_attributes(op, address, end, slots.drop_first(), memfds, lo, hi, attributes);
    }
}

proof fn lemma_walk_attributes(
    address: int,
    end: int,
    private: bool,
    slots: Seq<KvmGuestMemSlot>,
    memfds: Option<Map<u32, u32>>,
    hit: Seq<KvmGuestMemSlot>,
    covered: int,
    attributes: u64,
)
    requires
        0 <= address <= end <= u64::MAX,
        private ==> attributes == KVM_MEMORY_ATTRIBUTE_PRIVATE,
    ensures
        attributes_within(
            walk_plan(address, end, private, slots, memfds, hit, covered).0,
            address,
            end,
            attributes,
        ),
    decreases hit.len(),
{
    if hit.len() > 0 {
        let hs = hit_start(hit[0], address);
        let he = hit_end(hit[0], end);
        let rest = hit.drop_first();
        let next = if he > covered {
            he
        } else {
            covered
        };
        lemma_walk_attributes(address, end, private, slots, memfds, rest, covered, attributes);
        lemma_walk_attributes(address, end, private, slots, memfds, rest, next, attributes);
        lemma_discard_attributes(hs, he, slots, address, end, attributes);
        if memfds is Some {
            lemma_memfd_attributes(
                MemfdOp::PunchHole,
                hs,
                he,
                slots,
                memfds->0,
                address,
                end,
                attributes,
            );
        }
    }
}

/// A conversion never touches the attributes of an address outside its range,
/// and only sets the attributes it was asked for.
pub proof fn conversion_stays_in_range(
    address: u64,
    size: u64,
    private: bool,
    slots: Option<Seq<KvmGuestMemSlot>>,
    memfds: Option<Map<u32, u32>>,
)
    ensures
        attributes_within(
            convert_plan(address, size, private, slots, memfds).0,
            address as int,
            address + size,
            if private {
                KVM_MEMORY_ATTRIBUTE_PRIVATE
            } else {
                0
            },
        ),
{
    let end = address + size;
    let attributes = if private {
        KVM_MEMORY_ATTRIBUTE_PRIVATE
    } else {
        0
    };
    if end <= u64::MAX && slots is Some {
        let hit = sorted_hits(slots->0, address as int, end);
        lemma_walk_attributes(
            address as int,
            end,
            private,
            slots->0,
            memfds,
            hit,
            address as int,
            attributes,
        );
    }
}

/// Listeners hear of a range before anything else happens when it becomes
/// private, and right after its attributes were cleared when it becomes
/// shared, so that no mapping outlives the private state and none precedes
/// the shared one.
pub proof fn listeners_hear_in_time(
    address: u64,
    size: u64,
    slots: Option<Seq<KvmGuestMemSlot>>,
    memfds: Option<Map<u32, u32>>,
)
    requires
        address + size <= u64::MAX,
    ensures
        ({
            let to_private = convert_plan(address, size, true, slots, memfds).0;
            to_private.len() >= 1 && to_private[0] == (MemoryAction::Notify {
                address,
                size,
                private: true,
            })
        }),
        ({
            let to_shared = convert_plan(address, size, false, slots, memfds).0;
            &&& to_shared.len() >= 2
            &&& to_shared[0] == (MemoryAction::SetAttributes { address, size, attributes: 0 })
            &&& to_shared[1] == (MemoryAction::Notify { address, size, private: false })
        }),
{
}

/// Pages of one 2 MiB range that the guest asked to share, one bit per 4 KiB
/// page.
pub struct PendingRange {
    pub start: u64,
    pub bitmap: [u64; 8],
}

/// The address ranges of one pending bitmap, as start and length.
pub open spec fn pending_runs(p: PendingRange) -> Seq<(u64, u64)> {
    let runs = crate::memory::bitmap::runs(
        crate::memory::bitmap::bits_of(p.bitmap@, 512),
        0,
        512,
    );
    Seq::new(
        runs.len(),
        |i: int|
            ((p.start + runs[i].0 * 4096) as u64, ((runs[i].1 - runs[i].0) * 4096) as u64),
    )
}

/// A sorted list with one more range, after those that start no later.
pub open spec fn insert_range(s: Seq<(u64, u64)>, x: (u64, u64)) -> Seq<(u64, u64)>
    decreases s.len(),
{
    if s.len() == 0 || s.last().0 <= x.0 {
        s.push(x)
    } else {
        insert_range(s.drop_last(), x).push(s.last())
    }
}

/// A list sorted by start address; ranges with equal starts keep their order.
pub open spec fn sort_ranges(s: Seq<(u64, u64)>) -> Seq<(u64, u64)>
    decreases s.len(),
{
    if s.len() == 0 {
        s
    } else {
        insert_range(sort_ranges(s.drop_last()), s.last())
    }
}

/// The ranges of all pending bitmaps, bitmap by bitmap.
pub open spec fn all_pending_runs(pending: Seq<PendingRange>) -> Seq<(u64, u64)>
    decreases pending.len(),
{
    if pending.len() == 0 {
        Seq::empty()
    } else {
        all_pending_runs(pending.drop_last()) + pending_runs(pending.last())
    }
}

proof fn lemma_insert_range(s: Seq<(u64, u64)>, x: (u64, u64), pos: int)
    requires
        0 <= pos <= s.len(),
        pos > 0 ==> s[pos - 1].0 <= x.0,
        forall|i: int| pos <= i < s.len() ==> s[i].0 > x.0,
    ensures
        insert_range(s, x) == s.insert(pos, x),
    decreases s.len(),
{
    if pos == s.len() {
        assert(s.insert(pos, x) =~= s.push(x));
    } else {
        lemma_insert_range(s.drop_last(), x, pos);
        assert(s.drop_last().insert(pos, x).push(s.last()) =~= s.insert(pos, x));
    }
}

/// Lists the pending shared ranges as maximal runs of pages, by start address.
pub fn pending_shared_ranges(pending: &Vec<PendingRange>) -> (out: Vec<(u64, u64)>)
    requires
        forall|i: int|
            0 <= i < pending@.len() ==> (#[trigger] pending@[i]).start + 512 * 4096 <= u64::MAX,
    ensures
        out@ == sort_ranges(all_pending_runs(pending@)),
{
    let mut out: Vec<(u64, u64)> = Vec::new();
    let ghost mut seen: Seq<(u64, u64)> = Seq::empty();
    let mut i: usize = 0;
    assert(pending@.take(0) =~= Seq::<PendingRange>::empty());
    while i < pending.len()
        invariant
            i <= pending@.len(),
            forall|i: int|
                0 <= i < pending@.len() ==> (#[trigger] pending@[i]).start + 512 * 4096 <= u64::MAX,
            seen == all_pending_runs(pending@.take(i as int)),
            out@ == sort_ranges(seen),
        decreases pending@.len() - i,
    {
        let p: &PendingRange = &pending[i];
        let found: Vec<(usize, usize)> = find_runs(&p.bitmap, 0, 512);
        let ghost base = seen;
        let mut k: usize = 0;
        assert(base + pending_runs(*p).take(0) =~= base);
        while k < found.len()
            invariant
                k <= found@.len(),
                p.start + 512 * 4096 <= u64::MAX,
                found@.len() == pending_runs(*p).len(),
                forall|j: int|
                    0 <= j < found@.len() ==> {
                        let r = crate::memory::bitmap::runs(
                            crate::memory::bitmap::bits_of(p.bitmap@, 512),
                            0,
                            512,
                        )[j];
                        (#[trigger] found@[j]).0 == r.0 && found@[j].1 == r.1 && 0 <= r.0 < r.1
                            <= 512
                    },
                seen == base + pending_runs(*p).take(k as int),
                out@ == sort_ranges(seen),
            decreases found@.len() - k,
        {
            let (first_page, end_page): (usize, usize) = found[k];
            let range: (u64, u64) = (
                p.start + first_page as u64 * 4096,
                (end_page - first_page) as u64 * 4096,
            );
            let mut pos: usize = out.len();
            while pos > 0 && out[pos - 1].0 > range.0
                invariant
                    pos <= out@.len(),
                    forall|j: int| pos <= j < out@.len() ==> out@[j].0 > range.0,
                decreases pos,
            {
                pos = pos - 1;
            }
            proof {
                lemma_insert_range(out@, range, pos as int);
                assert(range == pending_runs(*p)[k as int]);
                let grown = seen.push(range);
                assert(grown.drop_last() =~= seen);
                assert(base + pending_runs(*p).take(k + 1) =~= grown);
                seen = grown;
            }
            out.insert(pos, range);
            k = k + 1;
        }
        proof {
            assert(pending_runs(*p).take(k as int) =~= pending_runs(*p));
            assert(pending@.take(i + 1).drop_last() =~= pending@.take(i as int));
        }
        i = i + 1;
    }
    assert(pending@.take(pending@.len() as int) =~= pending@);
    out
}

} // verus!
