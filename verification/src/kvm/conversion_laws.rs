//! What a conversion does to every single address.
use crate::kvm::conversion::{
    ConvertError, KvmGuestMemSlot, MemfdOp, MemoryAction, PendingRange,
};
use vstd::prelude::*;

verus! {

/// Whether an action gives an address certain attributes.
pub open spec fn sets(a: MemoryAction, x: int, attributes: u64) -> bool {
    a matches MemoryAction::SetAttributes { address, size, attributes: v } && address <= x < address
        + size && v == attributes
}

/// Whether an action gives back a host address.
pub open spec fn gives_back(a: MemoryAction, host: int) -> bool {
    a matches MemoryAction::Discard { host_addr, length } && host_addr <= host < host_addr + length
}

/// Whether an action does something at a place in a guest memory file.
pub open spec fn reaches(a: MemoryAction, op: MemfdOp, fd: u32, at: int) -> bool {
    a matches MemoryAction::Memfd { op: o, fd: f, offset, length } && o == op && f == fd && offset
        <= at < offset + length
}

/// Where an address of a slot lies in host memory.
pub open spec fn host_of(s: KvmGuestMemSlot, x: int) -> int {
    s.userspace_addr + (x - s.guest_phys_addr)
}

/// Where an address of a slot lies in its guest memory file.
pub open spec fn place_of(s: KvmGuestMemSlot, x: int) -> int {
    s.guest_memfd_offset + (x - s.guest_phys_addr)
}

/// Whether a part of a slot lies in `[lo, hi)`.
pub open spec fn part_of(s: KvmGuestMemSlot, start: int, len: int, lo: int, hi: int) -> bool {
    &&& len > 0
    &&& lo <= start && start + len <= hi
    &&& s.guest_phys_addr <= start && start + len <= s.guest_phys_addr + s.memory_size
}

/// Whether an action gives back the host memory of a part of a slot in
/// `[lo, hi)`.
pub open spec fn gives_back_part(a: MemoryAction, s: KvmGuestMemSlot, lo: int, hi: int) -> bool {
    a matches MemoryAction::Discard { host_addr, length } && part_of(
        s,
        s.guest_phys_addr + (host_addr - s.userspace_addr),
        length as int,
        lo,
        hi,
    )
}

/// Whether an action does something to the file of a part of a slot in
/// `[lo, hi)`.
pub open spec fn reaches_part(
    a: MemoryAction,
    op: MemfdOp,
    s: KvmGuestMemSlot,
    memfds: Map<u32, u32>,
    lo: int,
    hi: int,
) -> bool {
    a matches MemoryAction::Memfd { op: o, fd, offset, length } && o == op && memfds.contains_key(
        s.slot,
    ) && fd == memfds[s.slot] && part_of(
        s,
        s.guest_phys_addr + (offset - s.guest_memfd_offset),
        length as int,
        lo,
        hi,
    )
}

/// Whether some action gives an address certain attributes.
pub open spec fn some_sets(actions: Seq<MemoryAction>, x: int, attributes: u64) -> bool {
    exists|i: int| 0 <= i < actions.len() && sets(#[trigger] actions[i], x, attributes)
}

/// Whether some action gives back a host address.
pub open spec fn some_gives_back(actions: Seq<MemoryAction>, host: int) -> bool {
    exists|i: int| 0 <= i < actions.len() && gives_back(#[trigger] actions[i], host)
}

/// Whether some action does something at a place in a guest memory file.
pub open spec fn some_reaches(actions: Seq<MemoryAction>, op: MemfdOp, fd: u32, at: int) -> bool {
    exists|i: int| 0 <= i < actions.len() && reaches(#[trigger] actions[i], op, fd, at)
}

/// Whether an action does something to the file of a part of some slot.
pub open spec fn reaches_some_part(
    a: MemoryAction,
    op: MemfdOp,
    slots: Seq<KvmGuestMemSlot>,
    memfds: Map<u32, u32>,
    lo: int,
    hi: int,
) -> bool {
    exists|k: int|
        0 <= k < slots.len() && reaches_part(a, op, #[trigger] slots[k], memfds, lo, hi)
}

/// Whether an action gives back the host memory of a part of some slot.
pub open spec fn gives_back_some_part(
    a: MemoryAction,
    slots: Seq<KvmGuestMemSlot>,
    lo: int,
    hi: int,
) -> bool {
    exists|k: int| 0 <= k < slots.len() && gives_back_part(a, #[trigger] slots[k], lo, hi)
}

/// Whether every file range that is dealt with belongs to a slot's part in
/// `[lo, hi)`, and nothing else is done.
pub open spec fn only_reaches(
    actions: Seq<MemoryAction>,
    op: MemfdOp,
    slots: Seq<KvmGuestMemSlot>,
    memfds: Map<u32, u32>,
    lo: int,
    hi: int,
) -> bool {
    forall|i: int|
        0 <= i < actions.len() ==> reaches_some_part(
            #[trigger] actions[i],
            op,
            slots,
            memfds,
            lo,
            hi,
        )
}

/// Whether all host memory that is given back belongs to slots in `[lo, hi)`,
/// and nothing else is done.
pub open spec fn only_gives_back(
    actions: Seq<MemoryAction>,
    slots: Seq<KvmGuestMemSlot>,
    lo: int,
    hi: int,
) -> bool {
    forall|i: int|
        0 <= i < actions.len() ==> gives_back_some_part(#[trigger] actions[i], slots, lo, hi)
}

/// Whether an address of a slot is reached in the slot's guest memory file.
pub open spec fn file_reached(
    actions: Seq<MemoryAction>,
    op: MemfdOp,
    s: KvmGuestMemSlot,
    memfds: Map<u32, u32>,
    x: int,
) -> bool {
    memfds.contains_key(s.slot) && some_reaches(actions, op, memfds[s.slot], place_of(s, x))
}

/// Slots whose file ranges fit a file offset.
pub open spec fn slots_ok(slots: Seq<KvmGuestMemSlot>) -> bool {
    forall|i: int|
        0 <= i < slots.len() ==> crate::kvm::conversion::slot_ok(#[trigger] slots[i])
}

proof fn lemma_joined(a: Seq<MemoryAction>, b: Seq<MemoryAction>)
    ensures
        forall|x: int, v: u64|
            #[trigger] some_sets(a + b, x, v) <==> some_sets(a, x, v) || some_sets(b, x, v),
        forall|h: int|
            #[trigger] some_gives_back(a + b, h) <==> some_gives_back(a, h) || some_gives_back(
                b,
                h,
            ),
        forall|op: MemfdOp, fd: u32, at: int|
            #[trigger] some_reaches(a + b, op, fd, at) <==> some_reaches(a, op, fd, at)
                || some_reaches(b, op, fd, at),
{
    let s = a + b;
    assert forall|i: int| 0 <= i < a.len() implies #[trigger] a[i] == s[i] by {}
    assert forall|i: int| 0 <= i < b.len() implies #[trigger] b[i] == s[a.len() + i] by {}
    assert forall|i: int| a.len() <= i < s.len() implies #[trigger] s[i] == b[i - a.len()] by {}
}

proof fn lemma_memfd_reaches_all(
    op: MemfdOp,
    lo: int,
    hi: int,
    slots: Seq<KvmGuestMemSlot>,
    memfds: Map<u32, u32>,
)
    requires
        slots_ok(slots),
        crate::kvm::conversion::memfd_plan(op, lo, hi, slots, memfds).1 is Ok,
        0 <= lo,
        hi <= u64::MAX,
    ensures
        forall|k: int, x: int|
            0 <= k < slots.len() && lo <= x < hi && crate::kvm::conversion::slot_has(slots[k], x)
                ==> #[trigger] file_reached(
                crate::kvm::conversion::memfd_plan(op, lo, hi, slots, memfds).0,
                op,
                slots[k],
                memfds,
                x,
            ),
    decreases slots.len(),
{
    if slots.len() > 0 {
        let rest = slots.drop_first();
        let plan = crate::kvm::conversion::memfd_plan(op, lo, hi, slots, memfds);
        let tail = crate::kvm::conversion::memfd_plan(op, lo, hi, rest, memfds);
        lemma_rest_ok(slots);
        lemma_memfd_reaches_all(op, lo, hi, rest, memfds);
        let s = slots[0];
        let hs = crate::kvm::conversion::hit_start(s, lo);
        let he = crate::kvm::conversion::hit_end(s, hi);
        assert(crate::kvm::conversion::slot_ok(s));
        let head = if hs >= he {
            Seq::<MemoryAction>::empty()
        } else {
            seq![
                MemoryAction::Memfd {
                    op,
                    fd: memfds[s.slot],
                    offset: (s.guest_memfd_offset + (hs - s.guest_phys_addr)) as u64,
                    length: (he - hs) as u64,
                },
            ]
        };
        assert(plan.0 =~= head + tail.0);
        lemma_joined(head, tail.0);
        assert forall|k: int, x: int|
            0 <= k < slots.len() && lo <= x < hi && crate::kvm::conversion::slot_has(
                slots[k],
                x,
            ) implies #[trigger] file_reached(plan.0, op, slots[k], memfds, x) by {
            if k == 0 {
                assert(hs < he);
                assert(reaches(head[0], op, memfds[s.slot], place_of(s, x)));
                assert(some_reaches(head, op, memfds[s.slot], place_of(s, x)));
            } else {
                assert(rest[k - 1] == slots[k]);
                assert(file_reached(tail.0, op, rest[k - 1], memfds, x));
            }
        }
    }
}

proof fn lemma_rest_ok(slots: Seq<KvmGuestMemSlot>)
    requires
        slots_ok(slots),
        slots.len() > 0,
    ensures
        slots_ok(slots.drop_first()),
{
    assert forall|i: int| 0 <= i < slots.drop_first().len() implies crate::kvm::conversion::slot_ok(
        #[trigger] slots.drop_first()[i],
    ) by {
        assert(slots[i + 1] == slots.drop_first()[i]);
    }
}

proof fn lemma_memfd_only(
    op: MemfdOp,
    lo: int,
    hi: int,
    slots: Seq<KvmGuestMemSlot>,
    memfds: Map<u32, u32>,
)
    requires
        slots_ok(slots),
        0 <= lo,
        hi <= u64::MAX,
    ensures
        only_reaches(
            crate::kvm::conversion::memfd_plan(op, lo, hi, slots, memfds).0,
            op,
            slots,
            memfds,
            lo,
            hi,
        ),
    decreases slots.len(),
{
    if slots.len() > 0 {
        let rest = slots.drop_first();
        let plan = crate::kvm::conversion::memfd_plan(op, lo, hi, slots, memfds).0;
        let tail = crate::kvm::conversion::memfd_plan(op, lo, hi, rest, memfds).0;
        lemma_rest_ok(slots);
        lemma_memfd_only(op, lo, hi, rest, memfds);
        let s = slots[0];
        assert(crate::kvm::conversion::slot_ok(s));
        assert forall|i: int| 0 <= i < plan.len() implies reaches_some_part(
            #[trigger] plan[i],
            op,
            slots,
            memfds,
            lo,
            hi,
        ) by {
            let shift = plan.len() - tail.len();
            if shift == 1 && i == 0 {
                assert(reaches_part(plan[0], op, slots[0], memfds, lo, hi));
            } else {
                assert(plan[i] == tail[i - shift]);
                assert(reaches_some_part(tail[i - shift], op, rest, memfds, lo, hi));
                let k = choose|k: int|
                    0 <= k < rest.len() && reaches_part(
                        tail[i - shift],
                        op,
                        #[trigger] rest[k],
                        memfds,
                        lo,
                        hi,
                    );
                assert(rest[k] == slots[k + 1]);
                assert(reaches_part(plan[i], op, slots[k + 1], memfds, lo, hi));
            }
        }
    }
}

proof fn lemma_discard_gives_back_all(lo: int, hi: int, slots: Seq<KvmGuestMemSlot>)
    requires
        crate::kvm::conversion::discard_plan(lo, hi, slots).1 is Ok,
        0 <= lo,
        hi <= u64::MAX,
    ensures
        forall|k: int, x: int|
            #![trigger host_of(slots[k], x)]
            0 <= k < slots.len() && lo <= x < hi && crate::kvm::conversion::slot_has(slots[k], x)
                ==> some_gives_back(
                crate::kvm::conversion::discard_plan(lo, hi, slots).0,
                host_of(slots[k], x),
            ),
        only_gives_back(crate::kvm::conversion::discard_plan(lo, hi, slots).0, slots, lo, hi),
    decreases slots.len(),
{
    if slots.len() > 0 {
        let rest = slots.drop_first();
        let plan = crate::kvm::conversion::discard_plan(lo, hi, slots);
        let tail = crate::kvm::conversion::discard_plan(lo, hi, rest);
        lemma_discard_gives_back_all(lo, hi, rest);
        let s = slots[0];
        let hs = crate::kvm::conversion::hit_start(s, lo);
        let he = crate::kvm::conversion::hit_end(s, hi);
        let head = if hs >= he {
            Seq::<MemoryAction>::empty()
        } else {
            seq![
                MemoryAction::Discard {
                    host_addr: (s.userspace_addr + (hs - s.guest_phys_addr)) as u64,
                    length: (he - hs) as u64,
                },
            ]
        };
        assert(plan.0 =~= head + tail.0);
        lemma_joined(head, tail.0);
        assert forall|k: int, x: int|
            #![trigger host_of(slots[k], x)]
            0 <= k < slots.len() && lo <= x < hi && crate::kvm::conversion::slot_has(
                slots[k],
                x,
            ) implies some_gives_back(plan.0, host_of(slots[k], x)) by {
            if k == 0 {
                assert(hs < he);
                assert(gives_back(head[0], host_of(s, x)));
                assert(some_gives_back(head, host_of(s, x)));
            } else {
                assert(rest[k - 1] == slots[k]);
                assert(host_of(rest[k - 1], x) == host_of(slots[k], x));
            }
        }
        assert forall|i: int| 0 <= i < plan.0.len() implies gives_back_some_part(
            #[trigger] plan.0[i],
            slots,
            lo,
            hi,
        ) by {
            if i < head.len() {
                assert(gives_back_part(plan.0[0], slots[0], lo, hi));
            } else {
                assert(plan.0[i] == tail.0[i - head.len()]);
                assert(gives_back_some_part(tail.0[i - head.len()], rest, lo, hi));
                let k = choose|k: int|
                    0 <= k < rest.len() && gives_back_part(
                        tail.0[i - head.len()],
                        #[trigger] rest[k],
                        lo,
                        hi,
                    );
                assert(rest[k] == slots[k + 1]);
                assert(gives_back_part(plan.0[i], slots[k + 1], lo, hi));
            }
        }
    }
}

/// Whether some action before position `i` makes a range private.
pub open spec fn private_before(actions: Seq<MemoryAction>, i: int, start: int, len: int) -> bool {
    exists|j: int|
        0 <= j < i && (#[trigger] actions[j] matches MemoryAction::SetAttributes {
            address,
            size,
            attributes,
        } && attributes == 8 && address <= start && start + len <= address + size)
}

/// Whether an action gives back host memory that was made private before, of a
/// slot's part in `[lo, hi)`.
pub open spec fn gives_back_private(
    actions: Seq<MemoryAction>,
    i: int,
    s: KvmGuestMemSlot,
    lo: int,
    hi: int,
) -> bool {
    &&& gives_back_part(actions[i], s, lo, hi)
    &&& private_before(
        actions,
        i,
        s.guest_phys_addr + (actions[i]->host_addr - s.userspace_addr),
        actions[i]->Discard_length as int,
    )
}

/// Whether every action makes part of `[lo, hi)` private or gives back host
/// memory there that was made private before.
pub open spec fn only_private(
    actions: Seq<MemoryAction>,
    slots: Seq<KvmGuestMemSlot>,
    lo: int,
    hi: int,
) -> bool {
    forall|i: int|
        0 <= i < actions.len() ==> {
            ||| (#[trigger] actions[i] matches MemoryAction::SetAttributes {
                address,
                size,
                attributes,
            } && attributes == 8 && lo <= address && address + size <= hi)
            ||| exists|k: int|
                0 <= k < slots.len() && gives_back_private(
                    actions,
                    i,
                    #[trigger] slots[k],
                    lo,
                    hi,
                )
        }
}

proof fn lemma_private_joined(
    a: Seq<MemoryAction>,
    b: Seq<MemoryAction>,
    slots: Seq<KvmGuestMemSlot>,
    lo: int,
    hi: int,
)
    requires
        only_private(a, slots, lo, hi),
        only_private(b, slots, lo, hi),
    ensures
        only_private(a + b, slots, lo, hi),
{
    let s = a + b;
    assert forall|i: int| 0 <= i < s.len() implies {
        ||| (#[trigger] s[i] matches MemoryAction::SetAttributes { address, size, attributes }
            && attributes == 8 && lo <= address && address + size <= hi)
        ||| exists|k: int|
            0 <= k < slots.len() && gives_back_private(s, i, #[trigger] slots[k], lo, hi)
    } by {
        let shift = if i < a.len() {
            0
        } else {
            a.len() as int
        };
        let part = if i < a.len() {
            a
        } else {
            b
        };
        let at = i - shift;
        assert(s[i] == part[at]);
        if !(part[at] is SetAttributes) {
            let k = choose|k: int|
                0 <= k < slots.len() && gives_back_private(part, at, #[trigger] slots[k], lo, hi);
            let start = slots[k].guest_phys_addr + (part[at]->host_addr - slots[k].userspace_addr);
            let len = part[at]->Discard_length as int;
            let j = choose|j: int|
                0 <= j < at && (#[trigger] part[j] matches MemoryAction::SetAttributes {
                    address,
                    size,
                    attributes,
                } && attributes == 8 && address <= start && start + len <= address + size);
            assert(s[j + shift] == part[j]);
            assert(private_before(s, i, start, len));
            assert(gives_back_private(s, i, slots[k], lo, hi));
        }
    }
}

proof fn lemma_slot_private(hs: int, he: int, slots: Seq<KvmGuestMemSlot>, lo: int, hi: int)
    requires
        0 <= lo <= hs < he <= hi <= u64::MAX,
        crate::kvm::conversion::discard_plan(hs, he, slots).1 is Ok,
    ensures
        only_private(
            seq![
                MemoryAction::SetAttributes {
                    address: hs as u64,
                    size: (he - hs) as u64,
                    attributes: 8,
                },
            ] + crate::kvm::conversion::discard_plan(hs, he, slots).0,
            slots,
            lo,
            hi,
        ),
{
    let d = crate::kvm::conversion::discard_plan(hs, he, slots).0;
    let s = seq![
        MemoryAction::SetAttributes { address: hs as u64, size: (he - hs) as u64, attributes: 8 },
    ] + d;
    lemma_discard_gives_back_all(hs, he, slots);
    assert forall|i: int| 0 <= i < s.len() implies {
        ||| (#[trigger] s[i] matches MemoryAction::SetAttributes { address, size, attributes }
            && attributes == 8 && lo <= address && address + size <= hi)
        ||| exists|k: int|
            0 <= k < slots.len() && gives_back_private(s, i, #[trigger] slots[k], lo, hi)
    } by {
        if i > 0 {
            assert(s[i] == d[i - 1]);
            assert(gives_back_some_part(d[i - 1], slots, hs, he));
            let k = choose|k: int|
                0 <= k < slots.len() && gives_back_part(d[i - 1], #[trigger] slots[k], hs, he);
            assert(s[0] is SetAttributes);
            assert(gives_back_private(s, i, slots[k], lo, hi));
        }
    }
}

proof fn lemma_walk_private_all(
    lo: int,
    hi: int,
    slots: Seq<KvmGuestMemSlot>,
    memfds: Option<Map<u32, u32>>,
    hit: Seq<KvmGuestMemSlot>,
    covered: int,
)
    requires
        0 <= lo <= covered <= hi <= u64::MAX,
        crate::kvm::conversion::walk_plan(lo, hi, true, slots, memfds, hit, covered).1 is Ok,
    ensures
        ({
            let plan = crate::kvm::conversion::walk_plan(lo, hi, true, slots, memfds, hit, covered).0;
            &&& forall|x: int| covered <= x < hi ==> #[trigger] some_sets(plan, x, 8)
            &&& forall|k: int, x: int|
                0 <= k < slots.len() && covered <= x < hi && crate::kvm::conversion::slot_has(
                    slots[k],
                    x,
                ) ==> some_gives_back(plan, #[trigger] host_of(slots[k], x))
            &&& only_private(plan, slots, lo, hi)
        }),
    decreases hit.len(),
{
    if hit.len() > 0 {
        let plan = crate::kvm::conversion::walk_plan(lo, hi, true, slots, memfds, hit, covered).0;
        let hs = crate::kvm::conversion::hit_start(hit[0], lo);
        let he = crate::kvm::conversion::hit_end(hit[0], hi);
        let rest = hit.drop_first();
        if hs >= he {
            lemma_walk_private_all(lo, hi, slots, memfds, rest, covered);
        } else {
            let next = if he > covered {
                he
            } else {
                covered
            };
            let set = seq![
                MemoryAction::SetAttributes {
                    address: hs as u64,
                    size: (he - hs) as u64,
                    attributes: 8,
                },
            ];
            let d = crate::kvm::conversion::discard_plan(hs, he, slots).0;
            let tail = crate::kvm::conversion::walk_plan(
                lo,
                hi,
                true,
                slots,
                memfds,
                rest,
                next,
            ).0;
            lemma_walk_private_all(lo, hi, slots, memfds, rest, next);
            lemma_discard_gives_back_all(hs, he, slots);
            lemma_slot_private(hs, he, slots, lo, hi);
            lemma_private_joined(set + d, tail, slots, lo, hi);
            lemma_joined(set, d);
            lemma_joined(set + d, tail);
            assert(plan =~= (set + d) + tail);
            assert forall|x: int| covered <= x < hi implies #[trigger] some_sets(plan, x, 8) by {
                if x < next {
                    assert(sets(set[0], x, 8));
                    assert(some_sets(set, x, 8));
                }
                assert(some_sets(set + d, x, 8) || some_sets(tail, x, 8));
            }
            assert forall|k: int, x: int|
                0 <= k < slots.len() && covered <= x < hi && crate::kvm::conversion::slot_has(
                    slots[k],
                    x,
                ) implies some_gives_back(plan, #[trigger] host_of(slots[k], x)) by {
                if x < next {
                    assert(some_gives_back(d, host_of(slots[k], x)));
                } else {
                    assert(some_gives_back(tail, host_of(slots[k], x)));
                }
                assert(some_gives_back(set + d, host_of(slots[k], x)) || some_gives_back(
                    tail,
                    host_of(slots[k], x),
                ));
            }
        }
    }
}

/// Once a range was made private, every address of it has the private attribute
/// and no other, wherever tracked slots back it their host memory was given
/// back, and no host memory was given back before it was made private, nor any
/// that lies outside of the range. Besides that listeners are told, first of
/// all and once, and nothing else is done.
pub proof fn private_means_private_everywhere(
    address: u64,
    size: u64,
    slots: Option<Seq<KvmGuestMemSlot>>,
    memfds: Option<Map<u32, u32>>,
)
    requires
        crate::kvm::conversion::convert_plan(address, size, true, slots, memfds).1 is Ok,
    ensures
        ({
            let plan = crate::kvm::conversion::convert_plan(address, size, true, slots, memfds).0;
            let end = address + size;
            &&& forall|x: int| address <= x < end ==> #[trigger] some_sets(plan, x, 8)
            &&& slots matches Some(s) ==> forall|k: int, x: int|
                0 <= k < s.len() && address <= x < end && s[k].guest_phys_addr <= x
                    < s[k].guest_phys_addr + s[k].memory_size ==> some_gives_back(
                    plan,
                    #[trigger] host_of(s[k], x),
                )
            &&& plan.len() > 0
            &&& plan[0] == (MemoryAction::Notify { address, size, private: true })
            &&& only_private(
                plan.drop_first(),
                match slots {
                    Some(s) => s,
                    None => Seq::empty(),
                },
                address as int,
                end,
            )
        }),
{
    let plan = crate::kvm::conversion::convert_plan(address, size, true, slots, memfds).0;
    let end = address + size;
    let a = address as int;
    let head = seq![MemoryAction::Notify { address, size, private: true }];
    let tail = plan.drop_first();
    match slots {
        None => {
            assert(tail =~= seq![MemoryAction::SetAttributes { address, size, attributes: 8 }]);
            assert forall|x: int| address <= x < end implies #[trigger] some_sets(plan, x, 8) by {
                assert(sets(plan[1], x, 8));
            }
        },
        Some(s) => {
            let hit = crate::kvm::conversion::sorted_hits(s, a, end);
            let walk = crate::kvm::conversion::walk_plan(a, end, true, s, memfds, hit, a);
            assert(tail =~= walk.0);
            lemma_walk_private_all(a, end, s, memfds, hit, a);
            lemma_joined(head, tail);
            assert(plan =~= head + tail);
            assert forall|x: int| address <= x < end implies #[trigger] some_sets(plan, x, 8) by {
                assert(some_sets(tail, x, 8));
            }
            assert forall|k: int, x: int|
                0 <= k < s.len() && address <= x < end && s[k].guest_phys_addr <= x
                    < s[k].guest_phys_addr + s[k].memory_size implies some_gives_back(
                plan,
                #[trigger] host_of(s[k], x),
            ) by {
                assert(crate::kvm::conversion::slot_has(s[k], x));
                assert(some_gives_back(tail, host_of(s[k], x)));
            }
        },
    }
}

proof fn lemma_only_reaches_wider(
    actions: Seq<MemoryAction>,
    op: MemfdOp,
    slots: Seq<KvmGuestMemSlot>,
    memfds: Map<u32, u32>,
    lo: int,
    hi: int,
    wide_lo: int,
    wide_hi: int,
)
    requires
        only_reaches(actions, op, slots, memfds, lo, hi),
        wide_lo <= lo,
        hi <= wide_hi,
    ensures
        only_reaches(actions, op, slots, memfds, wide_lo, wide_hi),
{
    assert forall|i: int| 0 <= i < actions.len() implies reaches_some_part(
        #[trigger] actions[i],
        op,
        slots,
        memfds,
        wide_lo,
        wide_hi,
    ) by {
        assert(reaches_some_part(actions[i], op, slots, memfds, lo, hi));
        let k = choose|k: int|
            0 <= k < slots.len() && reaches_part(
                actions[i],
                op,
                #[trigger] slots[k],
                memfds,
                lo,
                hi,
            );
        assert(reaches_part(actions[i], op, slots[k], memfds, wide_lo, wide_hi));
    }
}

proof fn lemma_walk_shared_all(
    lo: int,
    hi: int,
    slots: Seq<KvmGuestMemSlot>,
    memfds: Map<u32, u32>,
    hit: Seq<KvmGuestMemSlot>,
    covered: int,
)
    requires
        0 <= lo <= hi <= u64::MAX,
        slots_ok(slots),
        crate::kvm::conversion::walk_plan(lo, hi, false, slots, Some(memfds), hit, covered).1 is Ok,
    ensures
        ({
            let plan = crate::kvm::conversion::walk_plan(
                lo,
                hi,
                false,
                slots,
                Some(memfds),
                hit,
                covered,
            ).0;
            &&& forall|k: int, x: int|
                0 <= k < slots.len() && lo <= x < hi && crate::kvm::conversion::slot_has(
                    slots[k],
                    x,
                ) && crate::kvm::conversion::backed(hit, x) ==> #[trigger] file_reached(
                    plan,
                    MemfdOp::PunchHole,
                    slots[k],
                    memfds,
                    x,
                )
            &&& only_reaches(plan, MemfdOp::PunchHole, slots, memfds, lo, hi)
        }),
    decreases hit.len(),
{
    if hit.len() > 0 {
        let op = MemfdOp::PunchHole;
        let view = Some(memfds);
        let plan = crate::kvm::conversion::walk_plan(lo, hi, false, slots, view, hit, covered).0;
        let hs = crate::kvm::conversion::hit_start(hit[0], lo);
        let he = crate::kvm::conversion::hit_end(hit[0], hi);
        let rest = hit.drop_first();
        let next = if hs >= he {
            covered
        } else if he > covered {
            he
        } else {
            covered
        };
        let tail = crate::kvm::conversion::walk_plan(lo, hi, false, slots, view, rest, next).0;
        let head = if hs >= he {
            Seq::<MemoryAction>::empty()
        } else {
            crate::kvm::conversion::memfd_plan(op, hs, he, slots, memfds).0
        };
        lemma_walk_shared_all(lo, hi, slots, memfds, rest, next);
        if hs < he {
            lemma_memfd_reaches_all(op, hs, he, slots, memfds);
            lemma_memfd_only(op, hs, he, slots, memfds);
            lemma_only_reaches_wider(head, op, slots, memfds, hs, he, lo, hi);
        }
        lemma_joined(head, tail);
        assert(plan =~= head + tail);
        assert forall|k: int, x: int|
            0 <= k < slots.len() && lo <= x < hi && crate::kvm::conversion::slot_has(slots[k], x)
                && crate::kvm::conversion::backed(hit, x) implies #[trigger] file_reached(
            plan,
            op,
            slots[k],
            memfds,
            x,
        ) by {
            let h = choose|h: int|
                0 <= h < hit.len() && crate::kvm::conversion::slot_has(#[trigger] hit[h], x);
            if h == 0 {
                assert(hs <= x < he);
                assert(file_reached(head, op, slots[k], memfds, x));
            } else {
                assert(rest[h - 1] == hit[h]);
                assert(crate::kvm::conversion::backed(rest, x));
                assert(file_reached(tail, op, slots[k], memfds, x));
            }
        }
    }
}

proof fn lemma_walk_unfiled(
    lo: int,
    hi: int,
    slots: Seq<KvmGuestMemSlot>,
    hit: Seq<KvmGuestMemSlot>,
    covered: int,
)
    ensures
        crate::kvm::conversion::walk_plan(lo, hi, false, slots, None, hit, covered).0.len() == 0,
        crate::kvm::conversion::walk_plan(lo, hi, false, slots, None, hit, covered).1 is Ok,
    decreases hit.len(),
{
    if hit.len() > 0 {
        let he = crate::kvm::conversion::hit_end(hit[0], hi);
        let next = if he > covered {
            he
        } else {
            covered
        };
        lemma_walk_unfiled(lo, hi, slots, hit.drop_first(), covered);
        lemma_walk_unfiled(lo, hi, slots, hit.drop_first(), next);
    }
}

/// Once a range was made shared, its attributes were cleared as a whole, then
/// listeners were told, and then a hole was punched for every address of every
/// tracked slot there, at its place in the slot's own guest memory file. Nothing
/// outside of the range is punched and no host memory is given back.
pub proof fn shared_means_shared_everywhere(
    address: u64,
    size: u64,
    slots: Option<Seq<KvmGuestMemSlot>>,
    memfds: Option<Map<u32, u32>>,
)
    requires
        slots matches Some(s) ==> slots_ok(s),
        crate::kvm::conversion::convert_plan(address, size, false, slots, memfds).1 is Ok,
    ensures
        ({
            let plan = crate::kvm::conversion::convert_plan(address, size, false, slots, memfds).0;
            let end = address + size;
            &&& plan.len() >= 2
            &&& plan[0] == (MemoryAction::SetAttributes { address, size, attributes: 0 })
            &&& plan[1] == (MemoryAction::Notify { address, size, private: false })
            &&& match (slots, memfds) {
                (Some(s), Some(m)) => {
                    &&& forall|k: int, x: int|
                        0 <= k < s.len() && address <= x < end && s[k].guest_phys_addr <= x
                            < s[k].guest_phys_addr + s[k].memory_size <= u64::MAX
                            ==> #[trigger] file_reached(plan, MemfdOp::PunchHole, s[k], m, x)
                    &&& only_reaches(
                        plan.skip(2),
                        MemfdOp::PunchHole,
                        s,
                        m,
                        address as int,
                        end,
                    )
                },
                _ => plan.len() == 2,
            }
        }),
{
    let plan = crate::kvm::conversion::convert_plan(address, size, false, slots, memfds).0;
    let end = address + size;
    let a = address as int;
    let tail = plan.skip(2);
    match slots {
        None => {},
        Some(s) => {
            let hit = crate::kvm::conversion::sorted_hits(s, a, end);
            let walk = crate::kvm::conversion::walk_plan(a, end, false, s, memfds, hit, a);
            crate::kvm::conversion::lemma_sorted_hits(s, a, end);
            match memfds {
                None => {
                    lemma_walk_unfiled(a, end, s, hit, a);
                },
                Some(m) => {
                    if hit.len() == 0 {
                        assert(tail =~= Seq::empty());
                    } else {
                        assert(tail =~= walk.0);
                        lemma_walk_shared_all(a, end, s, m, hit, a);
                    }
                    lemma_joined(plan.take(2), tail);
                    assert(plan =~= plan.take(2) + tail);
                    assert forall|k: int, x: int|
                        0 <= k < s.len() && address <= x < end && s[k].guest_phys_addr <= x
                            < s[k].guest_phys_addr + s[k].memory_size
                            <= u64::MAX implies #[trigger] file_reached(
                        plan,
                        MemfdOp::PunchHole,
                        s[k],
                        m,
                        x,
                    ) by {
                        assert(s.contains(s[k]));
                        assert(hit.contains(s[k]));
                        let h = choose|h: int| 0 <= h < hit.len() && hit[h] == s[k];
                        assert(crate::kvm::conversion::slot_has(hit[h], x));
                        assert(crate::kvm::conversion::backed(hit, x));
                        assert(file_reached(tail, MemfdOp::PunchHole, s[k], m, x));
                    }
                },
            }
        },
    }
}

/// Sharing from outside of a vCPU clears the attributes of the whole range and
/// then punches a hole for every address of every tracked slot there; allocating
/// allocates the same places. Neither reaches anything else.
pub proof fn sharing_and_allocating_reach_the_whole_range(
    address: u64,
    size: u64,
    slots: Seq<KvmGuestMemSlot>,
    memfds: Map<u32, u32>,
)
    requires
        slots_ok(slots),
        address + size <= u64::MAX,
    ensures
        ({
            let plan = crate::kvm::conversion::share_plan(
                address,
                size,
                Some(slots),
                Some(memfds),
            );
            &&& plan.0.len() > 0
            &&& plan.0[0] == (MemoryAction::SetAttributes { address, size, attributes: 0 })
            &&& only_reaches(
                plan.0.drop_first(),
                MemfdOp::PunchHole,
                slots,
                memfds,
                address as int,
                address + size,
            )
            &&& plan.1 is Ok ==> forall|k: int, x: int|
                0 <= k < slots.len() && address <= x < address + size && slots[k].guest_phys_addr
                    <= x < slots[k].guest_phys_addr + slots[k].memory_size
                    ==> #[trigger] file_reached(plan.0, MemfdOp::PunchHole, slots[k], memfds, x)
        }),
        ({
            let plan = crate::kvm::conversion::allocate_plan(
                address,
                size,
                Some(slots),
                Some(memfds),
            );
            &&& only_reaches(
                plan.0,
                MemfdOp::Allocate,
                slots,
                memfds,
                address as int,
                address + size,
            )
            &&& plan.1 is Ok ==> forall|k: int, x: int|
                0 <= k < slots.len() && address <= x < address + size && slots[k].guest_phys_addr
                    <= x < slots[k].guest_phys_addr + slots[k].memory_size
                    ==> #[trigger] file_reached(plan.0, MemfdOp::Allocate, slots[k], memfds, x)
        }),
{
    let a = address as int;
    let end = address + size;
    let share = crate::kvm::conversion::share_plan(address, size, Some(slots), Some(memfds));
    let punch = crate::kvm::conversion::memfd_plan(MemfdOp::PunchHole, a, end, slots, memfds);
    let take = crate::kvm::conversion::memfd_plan(MemfdOp::Allocate, a, end, slots, memfds);
    lemma_memfd_only(MemfdOp::PunchHole, a, end, slots, memfds);
    lemma_memfd_only(MemfdOp::Allocate, a, end, slots, memfds);
    assert(share.0.drop_first() =~= punch.0);
    assert(share.0 =~= share.0.take(1) + punch.0);
    lemma_joined(share.0.take(1), punch.0);
    if punch.1 is Ok {
        lemma_memfd_reaches_all(MemfdOp::PunchHole, a, end, slots, memfds);
        assert forall|k: int, x: int|
            0 <= k < slots.len() && address <= x < address + size && slots[k].guest_phys_addr <= x
                < slots[k].guest_phys_addr + slots[k].memory_size implies #[trigger] file_reached(
            share.0,
            MemfdOp::PunchHole,
            slots[k],
            memfds,
            x,
        ) by {
            assert(crate::kvm::conversion::slot_has(slots[k], x));
            assert(file_reached(punch.0, MemfdOp::PunchHole, slots[k], memfds, x));
        }
    }
    if take.1 is Ok {
        lemma_memfd_reaches_all(MemfdOp::Allocate, a, end, slots, memfds);
        assert forall|k: int, x: int|
            0 <= k < slots.len() && address <= x < address + size && slots[k].guest_phys_addr <= x
                < slots[k].guest_phys_addr + slots[k].memory_size implies #[trigger] file_reached(
            take.0,
            MemfdOp::Allocate,
            slots[k],
            memfds,
            x,
        ) by {
            assert(crate::kvm::conversion::slot_has(slots[k], x));
        }
    }
}

proof fn lemma_memfd_ok(
    op: MemfdOp,
    lo: int,
    hi: int,
    slots: Seq<KvmGuestMemSlot>,
    memfds: Map<u32, u32>,
)
    requires
        forall|k: int|
            0 <= k < slots.len() ==> crate::kvm::conversion::slot_end(#[trigger] slots[k])
                <= u64::MAX && memfds.contains_key(slots[k].slot),
    ensures
        crate::kvm::conversion::memfd_plan(op, lo, hi, slots, memfds).1 is Ok,
    decreases slots.len(),
{
    if slots.len() > 0 {
        let rest = slots.drop_first();
        assert forall|k: int| 0 <= k < rest.len() implies crate::kvm::conversion::slot_end(
            #[trigger] rest[k],
        ) <= u64::MAX && memfds.contains_key(rest[k].slot) by {
            assert(slots[k + 1] == rest[k]);
        }
        lemma_memfd_ok(op, lo, hi, rest, memfds);
        assert(crate::kvm::conversion::slot_end(slots[0]) <= u64::MAX);
    }
}

proof fn lemma_walk_shared_ok(
    lo: int,
    hi: int,
    slots: Seq<KvmGuestMemSlot>,
    memfds: Map<u32, u32>,
    hit: Seq<KvmGuestMemSlot>,
    covered: int,
)
    requires
        forall|k: int|
            0 <= k < slots.len() ==> crate::kvm::conversion::slot_end(#[trigger] slots[k])
                <= u64::MAX && memfds.contains_key(slots[k].slot),
    ensures
        crate::kvm::conversion::walk_plan(lo, hi, false, slots, Some(memfds), hit, covered).1 is Ok,
    decreases hit.len(),
{
    if hit.len() > 0 {
        let hs = crate::kvm::conversion::hit_start(hit[0], lo);
        let he = crate::kvm::conversion::hit_end(hit[0], hi);
        let next = if he > covered {
            he
        } else {
            covered
        };
        lemma_memfd_ok(MemfdOp::PunchHole, hs, he, slots, memfds);
        lemma_walk_shared_ok(lo, hi, slots, memfds, hit.drop_first(), covered);
        lemma_walk_shared_ok(lo, hi, slots, memfds, hit.drop_first(), next);
    }
}

/// As long as the range and the slots lie in the address space and every slot
/// has its guest memory file, a range can be made shared, whether slots back it
/// or not. A range that runs past the end of the address space is refused, and
/// nothing is done to it.
pub proof fn sharing_is_not_refused(
    address: u64,
    size: u64,
    private: bool,
    slots: Seq<KvmGuestMemSlot>,
    memfds: Map<u32, u32>,
)
    requires
        forall|k: int|
            0 <= k < slots.len() ==> crate::kvm::conversion::slot_end(#[trigger] slots[k])
                <= u64::MAX && memfds.contains_key(slots[k].slot),
    ensures
        address + size <= u64::MAX ==> crate::kvm::conversion::convert_plan(
            address,
            size,
            false,
            Some(slots),
            Some(memfds),
        ).1 is Ok,
        address + size > u64::MAX ==> crate::kvm::conversion::convert_plan(
            address,
            size,
            private,
            Some(slots),
            Some(memfds),
        ) == (Seq::<MemoryAction>::empty(), Err::<(), ConvertError>(ConvertError::RangeOverflow)),
{
    let hit = crate::kvm::conversion::sorted_hits(slots, address as int, address + size);
    lemma_walk_shared_ok(
        address as int,
        address + size,
        slots,
        memfds,
        hit,
        address as int,
    );
}

/// Whether a range consists of pages `first` to `last`, the latter not included,
/// of a pending bitmap, all of them set.
pub open spec fn is_pending_run(p: PendingRange, r: (u64, u64), first: int, last: int) -> bool {
    &&& 0 <= first < last <= 512
    &&& r.0 == p.start + 4096 * first
    &&& r.1 == 4096 * (last - first)
    &&& forall|k: int|
        first <= k < last ==> #[trigger] crate::memory::bitmap::bit_of(p.bitmap@, k)
}

/// Whether a range comes from one of the pending bitmaps.
pub open spec fn is_pending(pending: Seq<PendingRange>, r: (u64, u64)) -> bool {
    exists|i: int, first: int, last: int|
        0 <= i < pending.len() && #[trigger] is_pending_run(pending[i], r, first, last)
}

/// Whether one of the ranges holds a page.
pub open spec fn holds_page(ranges: Seq<(u64, u64)>, page: int) -> bool {
    exists|j: int|
        0 <= j < ranges.len() && (#[trigger] ranges[j]).0 <= page && page + 4096 <= ranges[j].0
            + ranges[j].1
}

/// Ranges by address.
pub open spec fn ascending(ranges: Seq<(u64, u64)>) -> bool {
    forall|i: int, j: int|
        0 <= i < j < ranges.len() ==> (#[trigger] ranges[i]).0 <= (#[trigger] ranges[j]).0
}

proof fn lemma_insert_ascending(s: Seq<(u64, u64)>, x: (u64, u64))
    requires
        ascending(s),
    ensures
        ascending(crate::kvm::conversion::insert_range(s, x)),
        forall|y: (u64, u64)|
            #[trigger] crate::kvm::conversion::insert_range(s, x).contains(y) <==> s.contains(y)
                || y == x,
    decreases s.len(),
{
    let r = crate::kvm::conversion::insert_range(s, x);
    if s.len() == 0 || s.last().0 <= x.0 {
        assert forall|y: (u64, u64)| #[trigger] r.contains(y) <==> s.contains(y) || y == x by {
            if s.contains(y) {
                let i = choose|i: int| 0 <= i < s.len() && s[i] == y;
                assert(r[i] == y);
            }
            assert(r[r.len() - 1] == x);
            if r.contains(y) && y != x {
                let i = choose|i: int| 0 <= i < r.len() && r[i] == y;
                assert(s[i] == y);
            }
        }
    } else {
        let d = s.drop_last();
        let q = crate::kvm::conversion::insert_range(d, x);
        lemma_insert_ascending(d, x);
        assert forall|i: int, j: int| 0 <= i < j < r.len() implies (#[trigger] r[i]).0 <= (
        #[trigger] r[j]).0 by {
            if j == r.len() - 1 {
                assert(q.contains(q[i]));
                if q[i] != x {
                    let k = choose|k: int| 0 <= k < d.len() && d[k] == q[i];
                    assert(s[k].0 <= s[s.len() - 1].0);
                }
            } else {
                assert(q[i].0 <= q[j].0);
            }
        }
        assert forall|y: (u64, u64)| #[trigger] r.contains(y) <==> s.contains(y) || y == x by {
            if r.contains(y) {
                let i = choose|i: int| 0 <= i < r.len() && r[i] == y;
                if i < q.len() {
                    assert(q[i] == y);
                    assert(q.contains(y));
                    if d.contains(y) {
                        let k = choose|k: int| 0 <= k < d.len() && d[k] == y;
                        assert(s[k] == y);
                    }
                } else {
                    assert(s[s.len() - 1] == y);
                }
            }
            if s.contains(y) || y == x {
                if s.contains(y) {
                    let i = choose|i: int| 0 <= i < s.len() && s[i] == y;
                    if i < d.len() {
                        assert(d[i] == y);
                        assert(d.contains(y));
                    } else {
                        assert(r[r.len() - 1] == y);
                    }
                }
                if y == x || d.contains(y) {
                    assert(q.contains(y));
                    let k = choose|k: int| 0 <= k < q.len() && q[k] == y;
                    assert(r[k] == y);
                }
            }
        }
    }
}

proof fn lemma_sort_ascending(s: Seq<(u64, u64)>)
    ensures
        ascending(crate::kvm::conversion::sort_ranges(s)),
        forall|y: (u64, u64)|
            #[trigger] crate::kvm::conversion::sort_ranges(s).contains(y) <==> s.contains(y),
    decreases s.len(),
{
    if s.len() > 0 {
        let d = s.drop_last();
        lemma_sort_ascending(d);
        lemma_insert_ascending(crate::kvm::conversion::sort_ranges(d), s.last());
        assert forall|y: (u64, u64)| s.contains(y) <==> d.contains(y) || y == s.last() by {
            if s.contains(y) && y != s.last() {
                let i = choose|i: int| 0 <= i < s.len() && s[i] == y;
                assert(d[i] == y);
            }
            if d.contains(y) {
                let i = choose|i: int| 0 <= i < d.len() && d[i] == y;
                assert(s[i] == y);
            }
            assert(s[s.len() - 1] == s.last());
        }
        assert forall|y: (u64, u64)|
            #[trigger] crate::kvm::conversion::sort_ranges(s).contains(y) <==> s.contains(y) by {}
    }
}

proof fn lemma_runs_of_one(p: PendingRange)
    requires
        p.start + 512 * 4096 <= u64::MAX,
    ensures
        forall|j: int|
            0 <= j < crate::kvm::conversion::pending_runs(p).len() ==> is_pending(
                seq![p],
                #[trigger] crate::kvm::conversion::pending_runs(p)[j],
            ),
        forall|k: int|
            0 <= k < 512 && #[trigger] crate::memory::bitmap::bit_of(p.bitmap@, k) ==> holds_page(
                crate::kvm::conversion::pending_runs(p),
                p.start + 4096 * k,
            ),
{
    let bits = crate::memory::bitmap::bits_of(p.bitmap@, 512);
    let runs = crate::memory::bitmap::runs(bits, 0, 512);
    let out = crate::kvm::conversion::pending_runs(p);
    crate::memory::bitmap::runs_are_maximal(bits, 0, 512);
    assert forall|j: int| 0 <= j < out.len() implies is_pending(seq![p], #[trigger] out[j]) by {
        assert(crate::memory::bitmap::is_maximal_run(bits, 0, 512, runs[j]));
        assert forall|k: int| runs[j].0 <= k < runs[j].1 implies #[trigger] crate::memory::bitmap::bit_of(
            p.bitmap@,
            k,
        ) by {
            assert(bits[k]);
        }
        assert(is_pending_run(seq![p][0], out[j], runs[j].0, runs[j].1));
    }
    assert forall|k: int|
        0 <= k < 512 && #[trigger] crate::memory::bitmap::bit_of(
            p.bitmap@,
            k,
        ) implies holds_page(out, p.start + 4096 * k) by {
        assert(bits[k]);
        let j = choose|j: int| 0 <= j < runs.len() && (#[trigger] runs[j]).0 <= k < runs[j].1;
        assert(crate::memory::bitmap::is_maximal_run(bits, 0, 512, runs[j]));
        assert(out[j].0 == p.start + 4096 * runs[j].0);
    }
}

proof fn lemma_all_runs(pending: Seq<PendingRange>)
    requires
        forall|i: int|
            0 <= i < pending.len() ==> (#[trigger] pending[i]).start + 512 * 4096 <= u64::MAX,
    ensures
        forall|j: int|
            0 <= j < crate::kvm::conversion::all_pending_runs(pending).len() ==> is_pending(
                pending,
                #[trigger] crate::kvm::conversion::all_pending_runs(pending)[j],
            ),
        forall|i: int, k: int|
            0 <= i < pending.len() && 0 <= k < 512 && #[trigger] crate::memory::bitmap::bit_of(
                pending[i].bitmap@,
                k,
            ) ==> holds_page(
                crate::kvm::conversion::all_pending_runs(pending),
                pending[i].start + 4096 * k,
            ),
    decreases pending.len(),
{
    if pending.len() > 0 {
        let front = pending.drop_last();
        let p = pending.last();
        let a = crate::kvm::conversion::all_pending_runs(front);
        let b = crate::kvm::conversion::pending_runs(p);
        let all = crate::kvm::conversion::all_pending_runs(pending);
        assert(pending[pending.len() - 1] == p);
        assert forall|i: int| 0 <= i < front.len() implies (#[trigger] front[i]).start + 512 * 4096
            <= u64::MAX by {
            assert(pending[i] == front[i]);
        }
        lemma_all_runs(front);
        lemma_runs_of_one(p);
        assert(all == a + b);
        assert forall|j: int| 0 <= j < all.len() implies is_pending(pending, #[trigger] all[j]) by {
            if j < a.len() {
                assert(all[j] == a[j]);
                let (i, first, last) = choose|i: int, first: int, last: int|
                    0 <= i < front.len() && #[trigger] is_pending_run(front[i], a[j], first, last);
                assert(is_pending_run(pending[i], all[j], first, last));
            } else {
                assert(all[j] == b[j - a.len()]);
                let (i, first, last) = choose|i: int, first: int, last: int|
                    0 <= i < seq![p].len() && #[trigger] is_pending_run(
                        seq![p][i],
                        b[j - a.len()],
                        first,
                        last,
                    );
                assert(is_pending_run(pending[pending.len() - 1], all[j], first, last));
            }
        }
        assert forall|i: int, k: int|
            0 <= i < pending.len() && 0 <= k < 512 && #[trigger] crate::memory::bitmap::bit_of(
                pending[i].bitmap@,
                k,
            ) implies holds_page(all, pending[i].start + 4096 * k) by {
            let page = pending[i].start + 4096 * k;
            if i < front.len() {
                assert(front[i] == pending[i]);
                assert(holds_page(a, page));
                let j = choose|j: int|
                    0 <= j < a.len() && (#[trigger] a[j]).0 <= page && page + 4096 <= a[j].0
                        + a[j].1;
                assert(all[j] == a[j]);
            } else {
                assert(holds_page(b, page));
                let j = choose|j: int|
                    0 <= j < b.len() && (#[trigger] b[j]).0 <= page && page + 4096 <= b[j].0
                        + b[j].1;
                assert(all[a.len() + j] == b[j]);
            }
        }
    }
}

/// The pending ranges are exactly the pages that are pending: every page whose
/// bit is set lies in one of the ranges, every range consists of such pages, and
/// they come by address.
pub proof fn pending_ranges_are_the_pending_pages(pending: Seq<PendingRange>)
    requires
        forall|i: int|
            0 <= i < pending.len() ==> (#[trigger] pending[i]).start + 512 * 4096 <= u64::MAX,
    ensures
        ({
            let ranges = crate::kvm::conversion::sort_ranges(
                crate::kvm::conversion::all_pending_runs(pending),
            );
            &&& ascending(ranges)
            &&& forall|j: int|
                0 <= j < ranges.len() ==> is_pending(pending, #[trigger] ranges[j])
            &&& forall|i: int, k: int|
                0 <= i < pending.len() && 0 <= k < 512 && #[trigger] crate::memory::bitmap::bit_of(
                    pending[i].bitmap@,
                    k,
                ) ==> holds_page(ranges, pending[i].start + 4096 * k)
        }),
{
    let all = crate::kvm::conversion::all_pending_runs(pending);
    let ranges = crate::kvm::conversion::sort_ranges(all);
    lemma_all_runs(pending);
    lemma_sort_ascending(all);
    assert forall|j: int| 0 <= j < ranges.len() implies is_pending(
        pending,
        #[trigger] ranges[j],
    ) by {
        assert(ranges.contains(ranges[j]));
        let i = choose|i: int| 0 <= i < all.len() && all[i] == ranges[j];
        assert(is_pending(pending, all[i]));
    }
    assert forall|i: int, k: int|
        0 <= i < pending.len() && 0 <= k < 512 && #[trigger] crate::memory::bitmap::bit_of(
            pending[i].bitmap@,
            k,
        ) implies holds_page(ranges, pending[i].start + 4096 * k) by {
        let page = pending[i].start + 4096 * k;
        assert(holds_page(all, page));
        let j = choose|j: int|
            0 <= j < all.len() && (#[trigger] all[j]).0 <= page && page + 4096 <= all[j].0
                + all[j].1;
        assert(all.contains(all[j]));
        assert(ranges.contains(all[j]));
        let h = choose|h: int| 0 <= h < ranges.len() && ranges[h] == all[j];
        assert(ranges[h].0 <= page);
    }
}

} // verus!
