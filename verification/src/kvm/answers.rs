//! What the kernel's answers mean, and what a few requests are made of.
use crate::kvm::conversion::EINVAL;
use crate::kvm::hypervisor::KvmHypervisor;
use crate::kvm::vcpu::KvmVcpu;
use crate::kvm::vm::{EnableCap, KvmVm, MsrEntry};
use vstd::prelude::*;

verus! {

/// `EIO`.
pub const EIO: i32 = 5;

/// `KVM_CAP_SPLIT_IRQCHIP`.
pub const KVM_CAP_SPLIT_IRQCHIP: u32 = 121;

/// `KVM_CAP_HYPERV_SYNIC`.
pub const KVM_CAP_HYPERV_SYNIC: u32 = 123;

/// `KVM_CAP_X2APIC_API`.
pub const KVM_CAP_X2APIC_API: u32 = 129;

/// Number of pins of the emulated I/O interrupt controller.
pub const NUM_IOAPIC_PINS: u64 = 24;

/// `KVM_X2APIC_API_USE_32BIT_IDS | KVM_X2APIC_API_DISABLE_BROADCAST_QUIRK`.
pub const X2APIC_API_FLAGS: u64 = 3;

/// A guest virtual address that is not mapped.
#[derive(Clone, Copy, Debug, PartialEq, Eq, Structural)]
pub struct InvalidGva {
    pub gva: u64,
}

/// Outcome of a request that a kernel may not support: one kind of failure is
/// as good as success.
pub open spec fn forgiving(answer: Result<(), i32>, forgiven: i32) -> Result<(), i32> {
    match answer {
        Ok(_) => Ok(()),
        Err(errno) => if errno == forgiven {
            Ok(())
        } else {
            Err(errno)
        },
    }
}

fn forgive(answer: Result<(), i32>, forgiven: i32) -> (r: Result<(), i32>)
    ensures
        r == forgiving(answer, forgiven),
{
    match answer {
        Ok(_) => Ok(()),
        Err(errno) => if errno == forgiven {
            Ok(())
        } else {
            Err(errno)
        },
    }
}

impl KvmVcpu {
    /// Frequency of the time stamp counter, if the host can tell.
    pub fn tsc_khz(answer: Result<u32, i32>) -> (r: Result<Option<u32>, i32>)
        ensures
            r == (match answer {
                Ok(khz) => Ok::<Option<u32>, i32>(Some(khz)),
                Err(errno) => if errno == EIO {
                    Ok(None)
                } else {
                    Err(errno)
                },
            }),
    {
        match answer {
            Ok(khz) => Ok(Some(khz)),
            Err(errno) => if errno == EIO {
                Ok(None)
            } else {
                Err(errno)
            },
        }
    }

    /// Outcome of setting the frequency of the time stamp counter. A host that
    /// cannot do so is left alone.
    pub fn set_tsc_khz(answer: Result<(), i32>) -> (r: Result<(), i32>)
        ensures
            r == forgiving(answer, EIO),
    {
        forgive(answer, EIO)
    }

    /// Outcome of a non-maskable interrupt.
    pub fn nmi(answer: Result<(), i32>) -> (r: Result<(), i32>)
        ensures
            r == forgiving(answer, EIO),
    {
        forgive(answer, EIO)
    }

    /// Outcome of telling the guest that its clock was paused. A guest whose
    /// clock is not set up yet needs no telling.
    pub fn notify_guest_clock_paused(answer: Result<(), i32>) -> (r: Result<(), i32>)
        ensures
            r == forgiving(answer, EINVAL),
    {
        forgive(answer, EINVAL)
    }

    /// Where a guest virtual address leads, with flags that are always zero.
    pub fn translate_gva(gva: u64, valid: u8, physical_address: u64) -> (r: Result<
        (u64, u32),
        InvalidGva,
    >)
        ensures
            r == (if valid == 0 {
                Err::<(u64, u32), InvalidGva>(InvalidGva { gva })
            } else {
                Ok((physical_address, 0))
            }),
    {
        if valid == 0 {
            Err(InvalidGva { gva })
        } else {
            Ok((physical_address, 0))
        }
    }

    /// Takes in the registers that the kernel read: the first `count` of
    /// `answers`. The others keep their value.
    pub fn get_msrs(msrs: &mut Vec<MsrEntry>, answers: &Vec<MsrEntry>, count: usize)
        requires
            count <= answers@.len(),
            count <= old(msrs)@.len(),
        ensures
            final(msrs)@ == answers@.take(count as int) + old(msrs)@.skip(count as int),
    {
        let mut i: usize = 0;
        while i < count
            invariant
                i <= count,
                count <= answers@.len(),
                count <= old(msrs)@.len(),
                msrs@ =~= answers@.take(i as int) + old(msrs)@.skip(i as int),
            decreases count - i,
        {
            msrs.set(i, answers[i]);
            i = i + 1;
        }
    }

    /// Request for the synthetic interrupt controller.
    pub fn enable_hyperv_synic() -> (r: EnableCap)
        ensures
            r == (EnableCap { cap: KVM_CAP_HYPERV_SYNIC, arg0: 0 }),
    {
        EnableCap { cap: KVM_CAP_HYPERV_SYNIC, arg0: 0 }
    }
}

impl KvmVm {
    /// Request for interrupt controllers of which only the local ones are in
    /// the kernel.
    pub fn enable_split_irq() -> (r: EnableCap)
        ensures
            r == (EnableCap { cap: KVM_CAP_SPLIT_IRQCHIP, arg0: NUM_IOAPIC_PINS }),
    {
        EnableCap { cap: KVM_CAP_SPLIT_IRQCHIP, arg0: NUM_IOAPIC_PINS }
    }

    /// Request for interrupt targets beyond the first 255 processors.
    pub fn enable_x2apic_api() -> (r: EnableCap)
        ensures
            r == (EnableCap { cap: KVM_CAP_X2APIC_API, arg0: X2APIC_API_FLAGS }),
    {
        EnableCap { cap: KVM_CAP_X2APIC_API, arg0: X2APIC_API_FLAGS }
    }
}

impl KvmHypervisor {
    /// Number of hardware breakpoints of a vCPU.
    pub fn get_guest_debug_hw_bps() -> (r: usize)
        ensures
            r == 4,
    {
        4
    }
}

/// An answer is good if it was good or failed in the one way that is forgiven,
/// and any other failure is passed on.
pub proof fn one_failure_is_forgiven(answer: Result<(), i32>, forgiven: i32)
    ensures
        forgiving(answer, forgiven) is Ok <==> answer is Ok || answer == Err::<(), i32>(forgiven),
        forgiving(answer, forgiven) is Err ==> forgiving(answer, forgiven) == answer,
{
}

} // verus!
