//! The order in which the state of a virtual CPU is saved and restored.
use vstd::prelude::*;

verus! {

/// A piece of state to save.
#[derive(Clone, Copy, Debug, PartialEq, Eq, Structural)]
pub enum SaveStep {
    Cpuid,
    /// May change the state of the CPU and its interrupt controller.
    MpState,
    Regs,
    Sregs,
    Xsave,
    Xsave2,
    Xcrs,
    Lapic,
    Fpu,
    NestedState,
    Msrs,
    VcpuEvents,
    TscKhz,
}

/// A piece of state to restore.
#[derive(Clone, Copy, Debug, PartialEq, Eq, Structural)]
pub enum RestoreStep {
    Cpuid,
    MpState,
    Regs,
    Sregs,
    Xsave,
    Xsave2,
    Xcrs,
    Lapic,
    Fpu,
    NestedState,
    TscKhz,
    HypervSynic,
    Msrs,
    VcpuEvents,
}

/// What to save, in order. The larger form of the extended state is used where
/// its size is known.
pub open spec fn save_order(xsave_size: i32) -> Seq<SaveStep> {
    seq![
        SaveStep::Cpuid,
        SaveStep::MpState,
        SaveStep::Regs,
        SaveStep::Sregs,
        if xsave_size > 0 {
            SaveStep::Xsave2
        } else {
            SaveStep::Xsave
        },
        SaveStep::Xcrs,
        SaveStep::Lapic,
        SaveStep::Fpu,
        SaveStep::NestedState,
        SaveStep::Msrs,
        SaveStep::VcpuEvents,
        SaveStep::TscKhz,
    ]
}

/// What to save, in order.
pub fn save_steps(xsave_size: i32) -> (r: Vec<SaveStep>)
    ensures
        r@ == save_order(xsave_size),
{
    vec![
        SaveStep::Cpuid,
        SaveStep::MpState,
        SaveStep::Regs,
        SaveStep::Sregs,
        if xsave_size > 0 {
            SaveStep::Xsave2
        } else {
            SaveStep::Xsave
        },
        SaveStep::Xcrs,
        SaveStep::Lapic,
        SaveStep::Fpu,
        SaveStep::NestedState,
        SaveStep::Msrs,
        SaveStep::VcpuEvents,
        SaveStep::TscKhz,
    ]
}

/// One step, or none.
pub open spec fn only_if(b: bool, step: RestoreStep) -> Seq<RestoreStep> {
    if b {
        seq![step]
    } else {
        Seq::empty()
    }
}

/// What to restore, in order. Nested state, the clock rate and the synthetic
/// interrupt controller are restored only where they were saved.
pub open spec fn restore_order(
    xsave_size: i32,
    nested: bool,
    tsc: bool,
    hyperv_synic: bool,
) -> Seq<RestoreStep> {
    seq![
        RestoreStep::Cpuid,
        RestoreStep::MpState,
        RestoreStep::Regs,
        RestoreStep::Sregs,
        if xsave_size > 0 {
            RestoreStep::Xsave2
        } else {
            RestoreStep::Xsave
        },
        RestoreStep::Xcrs,
        RestoreStep::Lapic,
        RestoreStep::Fpu,
    ] + only_if(nested, RestoreStep::NestedState) + only_if(tsc, RestoreStep::TscKhz) + only_if(
        hyperv_synic,
        RestoreStep::HypervSynic,
    ) + seq![RestoreStep::Msrs, RestoreStep::VcpuEvents]
}

/// What to restore, in order.
pub fn restore_steps(xsave_size: i32, nested: bool, tsc: bool, hyperv_synic: bool) -> (r: Vec<
    RestoreStep,
>)
    ensures
        r@ == restore_order(xsave_size, nested, tsc, hyperv_synic),
{
    let mut r: Vec<RestoreStep> = vec![
        RestoreStep::Cpuid,
        RestoreStep::MpState,
        RestoreStep::Regs,
        RestoreStep::Sregs,
        if xsave_size > 0 {
            RestoreStep::Xsave2
        } else {
            RestoreStep::Xsave
        },
        RestoreStep::Xcrs,
        RestoreStep::Lapic,
        RestoreStep::Fpu,
    ];
    if nested {
        r.push(RestoreStep::NestedState);
    }
    if tsc {
        r.push(RestoreStep::TscKhz);
    }
    if hyperv_synic {
        r.push(RestoreStep::HypervSynic);
    }
    r.push(RestoreStep::Msrs);
    r.push(RestoreStep::VcpuEvents);
    assert(r@ =~= restore_order(xsave_size, nested, tsc, hyperv_synic));
    r
}

/// Whether one step comes before another, wherever they stand.
pub open spec fn before<T>(s: Seq<T>, a: T, b: T) -> bool {
    forall|i: int, j: int|
        0 <= i < s.len() && 0 <= j < s.len() && #[trigger] s[i] == a && #[trigger] s[j] == b ==> i
            < j
}

/// The multiprocessing state is saved before everything that it may change, and
/// pending events are saved after everything that may change them.
pub proof fn saving_is_ordered(xsave_size: i32, i: int)
    requires
        0 <= i < save_order(xsave_size).len(),
    ensures
        i > 1 ==> before(save_order(xsave_size), SaveStep::MpState, save_order(xsave_size)[i]),
        i < 10 ==> before(save_order(xsave_size), save_order(xsave_size)[i], SaveStep::VcpuEvents),
{
}

/// Registers are restored before pending events, which they would clear; the
/// interrupt controller after the special registers, which hold its address,
/// and before the model-specific registers, which depend on it.
#[verifier::rlimit(30)]
pub proof fn restoring_is_ordered(xsave_size: i32, nested: bool, tsc: bool, hyperv_synic: bool)
    ensures
        ({
            let s = restore_order(xsave_size, nested, tsc, hyperv_synic);
            &&& before(s, RestoreStep::Regs, RestoreStep::VcpuEvents)
            &&& before(s, RestoreStep::Sregs, RestoreStep::Lapic)
            &&& before(s, RestoreStep::Lapic, RestoreStep::Msrs)
            &&& before(s, RestoreStep::Sregs, RestoreStep::VcpuEvents)
        }),
{
}

/// All that is saved of a CPU is restored, each piece once, and in the form in
/// which it was saved: the extended state in the larger form exactly where its
/// size is known, and what only some CPUs have where it was saved.
#[verifier::rlimit(30)]
pub proof fn what_is_saved_is_restored(
    xsave_size: i32,
    nested: bool,
    tsc: bool,
    hyperv_synic: bool,
)
    ensures
        ({
            let s = save_order(xsave_size);
            let r = restore_order(xsave_size, nested, tsc, hyperv_synic);
            &&& r.len() == 10 + (if nested {
                1int
            } else {
                0
            }) + (if tsc {
                1int
            } else {
                0
            }) + (if hyperv_synic {
                1int
            } else {
                0
            })
            &&& s.len() == 12
            &&& s.no_duplicates()
            &&& r.no_duplicates()
            &&& s.contains(SaveStep::Cpuid) && r.contains(RestoreStep::Cpuid)
            &&& s.contains(SaveStep::MpState) && r.contains(RestoreStep::MpState)
            &&& s.contains(SaveStep::Regs) && r.contains(RestoreStep::Regs)
            &&& s.contains(SaveStep::Sregs) && r.contains(RestoreStep::Sregs)
            &&& s.contains(SaveStep::Xcrs) && r.contains(RestoreStep::Xcrs)
            &&& s.contains(SaveStep::Lapic) && r.contains(RestoreStep::Lapic)
            &&& s.contains(SaveStep::Fpu) && r.contains(RestoreStep::Fpu)
            &&& s.contains(SaveStep::Msrs) && r.contains(RestoreStep::Msrs)
            &&& s.contains(SaveStep::VcpuEvents) && r.contains(RestoreStep::VcpuEvents)
            &&& s.contains(SaveStep::NestedState) && s.contains(SaveStep::TscKhz)
            &&& s.contains(SaveStep::Xsave2) <==> xsave_size > 0
            &&& r.contains(RestoreStep::Xsave2) <==> xsave_size > 0
            &&& s.contains(SaveStep::Xsave) <==> xsave_size <= 0
            &&& r.contains(RestoreStep::Xsave) <==> xsave_size <= 0
            &&& r.contains(RestoreStep::NestedState) <==> nested
            &&& r.contains(RestoreStep::TscKhz) <==> tsc
            &&& r.contains(RestoreStep::HypervSynic) <==> hyperv_synic
        }),
{
    let s = save_order(xsave_size);
    let r = restore_order(xsave_size, nested, tsc, hyperv_synic);
    let n = r.len() as int;
    assert(s[0] == SaveStep::Cpuid && s[1] == SaveStep::MpState && s[2] == SaveStep::Regs && s[3]
        == SaveStep::Sregs && s[5] == SaveStep::Xcrs && s[6] == SaveStep::Lapic && s[7]
        == SaveStep::Fpu && s[8] == SaveStep::NestedState && s[9] == SaveStep::Msrs && s[10]
        == SaveStep::VcpuEvents && s[11] == SaveStep::TscKhz);
    assert(s[4] == SaveStep::Xsave || s[4] == SaveStep::Xsave2);
    assert(r[0] == RestoreStep::Cpuid && r[1] == RestoreStep::MpState && r[2] == RestoreStep::Regs
        && r[3] == RestoreStep::Sregs && r[5] == RestoreStep::Xcrs && r[6] == RestoreStep::Lapic
        && r[7] == RestoreStep::Fpu && r[n - 2] == RestoreStep::Msrs && r[n - 1]
        == RestoreStep::VcpuEvents);
    assert(r[4] == RestoreStep::Xsave || r[4] == RestoreStep::Xsave2);
    if nested {
        assert(r[8] == RestoreStep::NestedState);
    }
    if tsc {
        assert(r[if nested {
            9int
        } else {
            8
        }] == RestoreStep::TscKhz);
    }
    if hyperv_synic {
        assert(r[n - 3] == RestoreStep::HypervSynic);
    }
}

} // verus!
