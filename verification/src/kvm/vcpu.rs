//! What a vCPU exit leads to.
use crate::bytes::read_u32_be;
use crate::kvm::conversion::{pending_shared_ranges, ConvertError, PendingRange};
use crate::kvm::hypervisor::{EAGAIN, EINTR, KVM_HC_MAP_GPA_RANGE};
use crate::kvm::vm::MsrEntry;
use vstd::prelude::*;

verus! {

pub const KVM_EXIT_TDX: u32 = 50;

pub const KVM_EXIT_TDX_LEGACY: u32 = 40;

pub const TDG_VP_VMCALL_MAP_GPA: u64 = 0x10001;

pub const TDG_VP_VMCALL_GET_QUOTE: u64 = 0x10002;

pub const TDG_VP_VMCALL_SETUP_EVENT_NOTIFY_INTERRUPT: u64 = 0x10004;

pub const TDG_VP_VMCALL_SUCCESS: u64 = 0;

pub const TDG_VP_VMCALL_RETRY: u64 = 1;

pub const TDG_VP_VMCALL_INVALID_OPERAND: u64 = 0x8000_0000_0000_0000;

pub const TDG_VP_VMCALL_ALIGN_ERROR: u64 = 0x8000_0000_0000_0002;

/// Most bytes that one map-GPA call converts.
pub const TDX_MAP_GPA_MAX_LEN: u64 = 0x400_0000;

/// `KVM_MEMORY_EXIT_FLAG_PRIVATE`.
pub const KVM_MEMORY_EXIT_FLAG_PRIVATE: u64 = 8;

/// `KVM_SYSTEM_EVENT_SHUTDOWN`.
pub const KVM_SYSTEM_EVENT_SHUTDOWN: u32 = 1;

/// `KVM_SYSTEM_EVENT_RESET`.
pub const KVM_SYSTEM_EVENT_RESET: u32 = 2;

/// Ports through which firmware hands over a DMA descriptor address.
pub const FW_CFG_DMA_HI_PORT: u16 = 0x514;

pub const FW_CFG_DMA_LO_PORT: u16 = 0x518;

/// What a trust domain asks for.
#[derive(Clone, Copy, Debug, PartialEq, Eq, Structural)]
pub enum TdxExitDetails {
    MapGpa,
    GetQuote { gpa: u64, size: u64 },
    SetupEventNotifyInterrupt { vector: u64 },
}

/// How a trust domain's call is answered.
#[derive(Clone, Copy, Debug, PartialEq, Eq, Structural)]
pub enum TdxExitStatus {
    Success,
    InvalidOperand,
    AlignError,
    /// Call again, with this address.
    Retry(u64),
}

/// The call is none that is served.
#[derive(Clone, Copy, Debug, PartialEq, Eq, Structural)]
pub struct UnknownTdxVmCall;

/// A trust domain exit.
#[derive(Clone, Copy, Debug, PartialEq, Eq, Structural)]
pub struct KvmTdxExit {
    pub type_: u32,
    pub pad: u32,
    pub vmcall: KvmTdxExitVmcall,
}

/// Registers of a trust domain call.
#[derive(Clone, Copy, Debug, PartialEq, Eq, Structural)]
pub struct KvmTdxExitVmcall {
    pub reg_mask: u64,
    pub type_: u64,
    pub subfunction: u64,
    pub in_r12: u64,
    pub in_r13: u64,
    pub in_r14: u64,
    pub in_r15: u64,
    pub in_rbx: u64,
    pub in_rdi: u64,
    pub in_rsi: u64,
    pub in_r8: u64,
    pub in_r9: u64,
    pub in_rdx: u64,
    pub status_code: u64,
    pub out_r11: u64,
    pub out_r12: u64,
    pub out_r13: u64,
    pub out_r14: u64,
    pub out_r15: u64,
    pub out_rbx: u64,
    pub out_rdi: u64,
    pub out_rsi: u64,
    pub out_r8: u64,
    pub out_r9: u64,
    pub out_rdx: u64,
}

/// A guest range to convert.
#[derive(Clone, Copy, Debug, PartialEq, Eq, Structural)]
pub struct Conversion {
    pub address: u64,
    pub size: u64,
    pub private: bool,
}

/// Conversions to carry out for a map-GPA call, and the answer once they
/// succeeded.
pub struct MapGpaPlan {
    pub conversions: Vec<Conversion>,
    pub outcome: Result<TdxExitStatus, ConvertError>,
}

/// Why the kernel returned from running a vCPU.
pub enum VcpuExit {
    IoIn { port: u16 },
    IoOut { port: u16, data: Vec<u8> },
    IoapicEoi(u8),
    Shutdown,
    Hlt,
    /// The guest asked its firmware interface to stop, on aarch64.
    SystemEvent { event_type: u32 },
    MmioRead { addr: u64 },
    MmioWrite { addr: u64 },
    Hyperv,
    Unsupported(u32),
    Debug,
    Hypercall { nr: u64, address: u64, num_pages: u64, attributes: u64 },
    MemoryFault { flags: u64, gpa: u64, size: u64 },
    /// Any other reason.
    Other,
    /// The call failed.
    Error(i32),
}

/// What the vCPU loop is told.
#[derive(Clone, Copy, Debug, PartialEq, Eq, Structural)]
pub enum VmExit {
    Ignore,
    IoapicEoi(u8),
    Reset,
    Shutdown,
    Hyperv,
    Tdx,
    Debug,
}

/// Why running a vCPU failed.
#[derive(Clone, Copy, Debug, PartialEq, Eq, Structural)]
pub enum RunError {
    UnknownMemoryFaultFlags(u64),
    UnexpectedSystemEvent(u32),
    UnexpectedExit,
    Vcpu(i32),
}

/// How an exit ends.
#[derive(Clone, Copy, Debug, PartialEq, Eq, Structural)]
pub enum RunStep {
    /// Hand the access to the device bus; if that succeeds, go on running.
    Dispatch,
    Return(VmExit),
    Fail(RunError),
}

/// What an exit leads to: conversions first, in order, each of which has to
/// succeed; then the hypercall result, if any; then the end of the exit.
pub struct RunDecision {
    pub conversions: Vec<Conversion>,
    pub hypercall_ret: Option<u64>,
    pub step: RunStep,
}

/// Whether an access of a trust domain to a port is worth a log line, given
/// how many came before it.
pub open spec fn should_log_io(index: usize, port: u16) -> bool {
    ||| index < 512
    ||| 0xcf8 <= port <= 0xcff
    ||| (index < 8192 || index % 4096 == 0) && {
        ||| port == 0x20
        ||| port == 0x21
        ||| 0x40 <= port <= 0x43
        ||| port == 0x60
        ||| port == 0x61
        ||| port == 0x64
        ||| port == 0x70
        ||| port == 0x71
        ||| port == 0x80
        ||| port == 0x92
        ||| port == 0xa0
        ||| port == 0xa1
        ||| port == 0xb2
        ||| port == 0xb3
        ||| 0x510 <= port <= 0x51b
        ||| 0x600 <= port <= 0x60b
    }
}

/// Whether an access of a trust domain to a port is worth a log line.
pub fn tdx_should_log_io(index: usize, port: u16) -> (r: bool)
    ensures
        r == should_log_io(index, port),
{
    if index < 512 {
        return true;
    }
    if port >= 0xcf8 && port <= 0xcff {
        return true;
    }
    matches!(
        port,
        0x20 | 0x21
            | 0x40..=0x43
            | 0x60
            | 0x61
            | 0x64
            | 0x70
            | 0x71
            | 0x80
            | 0x92
            | 0xa0
            | 0xa1
            | 0xb2
            | 0xb3
            | 0x510..=0x51b
            | 0x600..=0x60b
    ) && (index < 8192 || index % 4096 == 0)
}

/// Whether a memory-mapped access of a trust domain is worth a log line.
pub fn tdx_should_log_mmio(index: usize) -> (r: bool)
    ensures
        r == (index < 512),
{
    index < 512
}

/// Whether a write to a port resets the machine through the keyboard
/// controller.
pub fn is_i8042_reset(port: u16, data: &[u8]) -> (r: bool)
    ensures
        r == (port == 0x64 && data@.len() > 0 && data@[0] == 0xfe),
{
    port == 0x64 && data.len() > 0 && data[0] == 0xfe
}

/// The part of a vCPU that decides on exits.
pub struct KvmVcpu {
    /// Whether the VM uses the older TDX interface.
    pub tdx_legacy_cpuid: bool,
    /// Whether device accesses can be handed on.
    pub has_vm_ops: bool,
    /// Upper half of a DMA descriptor address that is being handed over.
    pub tdx_fw_cfg_dma_hi: u32,
    /// Pages that the guest asked to share and that are not converted yet.
    pub pending: Vec<PendingRange>,
}

/// Ranges turned into conversions to shared.
pub open spec fn to_shared(ranges: Seq<(u64, u64)>) -> Seq<Conversion> {
    ranges.map_values(|r: (u64, u64)| Conversion { address: r.0, size: r.1, private: false })
}

/// Whether one of the ranges holds an address.
pub open spec fn some_range_has(ranges: Seq<(u64, u64)>, gpa: u64) -> bool {
    exists|i: int|
        0 <= i < ranges.len() && (#[trigger] ranges[i]).0 <= gpa && gpa - ranges[i].0 < ranges[i].1
}

/// The call that a trust domain makes, if it is served.
pub open spec fn exit_details(v: KvmTdxExitVmcall, legacy: bool) -> Result<
    TdxExitDetails,
    UnknownTdxVmCall,
> {
    if v.type_ != 0 {
        Err(UnknownTdxVmCall)
    } else if v.subfunction == TDG_VP_VMCALL_MAP_GPA && legacy {
        Ok(TdxExitDetails::MapGpa)
    } else if v.subfunction == TDG_VP_VMCALL_GET_QUOTE {
        Ok(TdxExitDetails::GetQuote { gpa: v.in_r12, size: v.in_r13 })
    } else if v.subfunction == TDG_VP_VMCALL_SETUP_EVENT_NOTIFY_INTERRUPT {
        Ok(TdxExitDetails::SetupEventNotifyInterrupt { vector: v.in_r12 })
    } else {
        Err(UnknownTdxVmCall)
    }
}

/// A call with its answer written to it.
pub open spec fn answered_with(exit: KvmTdxExit, status: TdxExitStatus) -> KvmTdxExit {
    KvmTdxExit {
        vmcall: KvmTdxExitVmcall {
            status_code: match status {
                TdxExitStatus::Success => TDG_VP_VMCALL_SUCCESS,
                TdxExitStatus::InvalidOperand => TDG_VP_VMCALL_INVALID_OPERAND,
                TdxExitStatus::AlignError => TDG_VP_VMCALL_ALIGN_ERROR,
                TdxExitStatus::Retry(_) => TDG_VP_VMCALL_RETRY,
            },
            out_r11: match status {
                TdxExitStatus::Retry(next_address) => next_address,
                _ => exit.vmcall.out_r11,
            },
            ..exit.vmcall
        },
        ..exit
    }
}

/// First address that the host cannot address, or zero if that does not fit.
pub open spec fn phys_limit(host_addr_bits: u32) -> u64 {
    if host_addr_bits & 0xff < 64 {
        1u64 << (host_addr_bits & 0xff)
    } else {
        0
    }
}

/// Whether a range reaches what the host cannot address.
pub open spec fn beyond_host(address: u64, size: u64, limit: u64) -> bool {
    limit != 0 && (address >= limit || address + size >= limit)
}

/// How many bytes one call converts.
pub open spec fn chunk(size: u64) -> u64 {
    if size < TDX_MAP_GPA_MAX_LEN {
        size
    } else {
        TDX_MAP_GPA_MAX_LEN
    }
}

/// What a hypercall returns to the guest.
pub open spec fn exit_answer(exit: VcpuExit) -> Option<u64> {
    match exit {
        VcpuExit::Hypercall { nr, .. } => if nr == KVM_HC_MAP_GPA_RANGE {
            Some(0u64)
        } else {
            Some(u64::MAX)
        },
        _ => None,
    }
}

impl KvmVcpu {
    /// Every pending range lies inside the address space.
    pub open spec fn wf(&self) -> bool {
        forall|i: int|
            0 <= i < self.pending@.len() ==> (#[trigger] self.pending@[i]).start + 512 * 4096
                <= u64::MAX
    }

    /// The pending ranges, by address.
    pub open spec fn flush(&self) -> Seq<(u64, u64)> {
        crate::kvm::conversion::sort_ranges(
            crate::kvm::conversion::all_pending_runs(self.pending@),
        )
    }

    /// Same vCPU but for the pending ranges and the descriptor address.
    pub open spec fn same_vcpu(&self, other: &KvmVcpu) -> bool {
        self.tdx_legacy_cpuid == other.tdx_legacy_cpuid && self.has_vm_ops == other.has_vm_ops
    }

    /// Takes all pending shared ranges, by address; none is left.
    pub fn take_all_tdx_pending_shared_ranges(&mut self) -> (out: Vec<(u64, u64)>)
        requires
            old(self).wf(),
        ensures
            out@ == old(self).flush(),
            final(self).pending@.len() == 0,
            final(self).same_vcpu(old(self)),
            final(self).tdx_fw_cfg_dma_hi == old(self).tdx_fw_cfg_dma_hi,
    {
        let out: Vec<(u64, u64)> = pending_shared_ranges(&self.pending);
        self.pending = Vec::new();
        out
    }

    /// Reads what a trust domain asks for. The call is answered with an invalid
    /// operand unless a later answer replaces that.
    pub fn get_tdx_exit_details(&self, exit: &mut KvmTdxExit) -> (r: Result<
        TdxExitDetails,
        UnknownTdxVmCall,
    >)
        ensures
            r == exit_details(old(exit).vmcall, self.tdx_legacy_cpuid),
            *final(exit) == (KvmTdxExit {
                vmcall: KvmTdxExitVmcall {
                    status_code: TDG_VP_VMCALL_INVALID_OPERAND,
                    ..old(exit).vmcall
                },
                ..*old(exit)
            }),
    {
        exit.vmcall.status_code = TDG_VP_VMCALL_INVALID_OPERAND;
        if exit.vmcall.type_ != 0 {
            return Err(UnknownTdxVmCall);
        }
        let subfunction: u64 = exit.vmcall.subfunction;
        if subfunction == TDG_VP_VMCALL_MAP_GPA {
            if !self.tdx_legacy_cpuid {
                return Err(UnknownTdxVmCall);
            }
            Ok(TdxExitDetails::MapGpa)
        } else if subfunction == TDG_VP_VMCALL_GET_QUOTE {
            Ok(TdxExitDetails::GetQuote { gpa: exit.vmcall.in_r12, size: exit.vmcall.in_r13 })
        } else if subfunction == TDG_VP_VMCALL_SETUP_EVENT_NOTIFY_INTERRUPT {
            Ok(TdxExitDetails::SetupEventNotifyInterrupt { vector: exit.vmcall.in_r12 })
        } else {
            Err(UnknownTdxVmCall)
        }
    }

    /// The answer to a map-GPA call, and the vCPU after it.
    pub open spec fn map_gpa_answered(
        &self,
        after: &KvmVcpu,
        exit: KvmTdxExit,
        shared_gpa_mask: u64,
        host_addr_bits: u32,
        r: Result<MapGpaPlan, UnknownTdxVmCall>,
    ) -> bool {
        let v = exit.vmcall;
        let private = v.in_r12 & shared_gpa_mask == 0;
        let address = v.in_r12 & !shared_gpa_mask;
        let size = v.in_r13;
        let done = chunk(size);
        if v.type_ != 0 || v.subfunction != TDG_VP_VMCALL_MAP_GPA {
            r is Err && after.pending@ == self.pending@
        } else if size == 0 || address & 0xfff != 0 || size & 0xfff != 0 || beyond_host(
            address,
            size,
            phys_limit(host_addr_bits),
        ) {
            &&& r is Ok
            &&& r->Ok_0.conversions@.len() == 0
            &&& r->Ok_0.outcome == (if size == 0 {
                Ok::<TdxExitStatus, ConvertError>(TdxExitStatus::Success)
            } else if address & 0xfff != 0 || size & 0xfff != 0 {
                Ok(TdxExitStatus::AlignError)
            } else {
                Ok(TdxExitStatus::InvalidOperand)
            })
            &&& after.pending@ == self.pending@
        } else {
            let flushed = if self.tdx_legacy_cpuid && !private {
                to_shared(self.flush())
            } else {
                Seq::empty()
            };
            &&& r is Ok
            &&& after.pending@ == (if self.tdx_legacy_cpuid && !private {
                Seq::empty()
            } else {
                self.pending@
            })
            &&& if address + done > u64::MAX {
                &&& r->Ok_0.conversions@ == flushed
                &&& r->Ok_0.outcome == Err::<TdxExitStatus, ConvertError>(
                    ConvertError::RangeOverflow,
                )
            } else {
                &&& r->Ok_0.conversions@ == flushed.push(
                    Conversion { address, size: done, private },
                )
                &&& r->Ok_0.outcome == (if done < size {
                    Ok::<TdxExitStatus, ConvertError>(
                        TdxExitStatus::Retry(
                            if private {
                                (address + done) as u64
                            } else {
                                ((address + done) as u64) | shared_gpa_mask
                            },
                        ),
                    )
                } else {
                    Ok(TdxExitStatus::Success)
                })
            }
        }
    }

    /// Answers a map-GPA call. `shared_gpa_mask` is the address bit that marks
    /// a shared address, `host_addr_bits` is `eax` of CPUID leaf 0x8000_0008.
    ///
    /// An empty range is met at once. A range that is not page aligned, or that
    /// the host cannot address, is refused. Otherwise at most 64 MiB are
    /// converted, and the guest is asked to go on behind them if more is left.
    pub fn handle_tdx_map_gpa(
        &mut self,
        exit: &KvmTdxExit,
        shared_gpa_mask: u64,
        host_addr_bits: u32,
    ) -> (r: Result<MapGpaPlan, UnknownTdxVmCall>)
        requires
            old(self).wf(),
        ensures
            final(self).wf(),
            final(self).same_vcpu(old(self)),
            final(self).tdx_fw_cfg_dma_hi == old(self).tdx_fw_cfg_dma_hi,
            old(self).map_gpa_answered(final(self), *exit, shared_gpa_mask, host_addr_bits, r),
    {
        let vmcall: &KvmTdxExitVmcall = &exit.vmcall;
        if vmcall.type_ != 0 || vmcall.subfunction != TDG_VP_VMCALL_MAP_GPA {
            return Err(UnknownTdxVmCall);
        }
        let raw_address: u64 = vmcall.in_r12;
        let size: u64 = vmcall.in_r13;
        let private: bool = raw_address & shared_gpa_mask == 0;
        let address: u64 = raw_address & !shared_gpa_mask;
        let mut conversions: Vec<Conversion> = Vec::new();
        if size == 0 {
            return Ok(MapGpaPlan { conversions, outcome: Ok(TdxExitStatus::Success) });
        }
        if address & 0xfff != 0 || size & 0xfff != 0 {
            return Ok(MapGpaPlan { conversions, outcome: Ok(TdxExitStatus::AlignError) });
        }
        let host_phys_bits: u32 = host_addr_bits & 0xff;
        let limit: u64 = if host_phys_bits < 64 {
            1u64 << host_phys_bits
        } else {
            0
        };
        let outside: bool = limit != 0 && (address >= limit || match address.checked_add(size) {
            None => true,
            Some(end) => end >= limit,
        });
        if outside {
            return Ok(MapGpaPlan { conversions, outcome: Ok(TdxExitStatus::InvalidOperand) });
        }
        if self.tdx_legacy_cpuid && !private {
            let ranges: Vec<(u64, u64)> = self.take_all_tdx_pending_shared_ranges();
            push_shared(&ranges, &mut conversions);
            assert(conversions@ =~= to_shared(old(self).flush()));
        }
        let ghost flushed = if old(self).tdx_legacy_cpuid && !private {
            to_shared(old(self).flush())
        } else {
            Seq::empty()
        };
        assert(conversions@ =~= flushed);
        assert(self.pending@ =~= if old(self).tdx_legacy_cpuid && !private {
            Seq::empty()
        } else {
            old(self).pending@
        });
        let convert_size: u64 = if size < TDX_MAP_GPA_MAX_LEN {
            size
        } else {
            TDX_MAP_GPA_MAX_LEN
        };
        let next: u64 = match address.checked_add(convert_size) {
            Some(n) => n,
            None => {
                return Ok(MapGpaPlan { conversions, outcome: Err(ConvertError::RangeOverflow) });
            },
        };
        conversions.push(Conversion { address, size: convert_size, private });
        assert(conversions@ =~= flushed.push(
            Conversion { address, size: convert_size, private },
        ));
        let status: TdxExitStatus = if convert_size < size {
            let mut next_address: u64 = next;
            if !private {
                next_address = next_address | shared_gpa_mask;
            }
            TdxExitStatus::Retry(next_address)
        } else {
            TdxExitStatus::Success
        };
        Ok(MapGpaPlan { conversions, outcome: Ok(status) })
    }

    /// Writes the answer to a trust domain's call.
    pub fn set_tdx_status(&self, exit: &mut KvmTdxExit, status: TdxExitStatus)
        ensures
            *final(exit) == answered_with(*old(exit), status),
    {
        exit.vmcall.status_code = match status {
            TdxExitStatus::Success => TDG_VP_VMCALL_SUCCESS,
            TdxExitStatus::InvalidOperand => TDG_VP_VMCALL_INVALID_OPERAND,
            TdxExitStatus::AlignError => TDG_VP_VMCALL_ALIGN_ERROR,
            TdxExitStatus::Retry(next_address) => {
                exit.vmcall.out_r11 = next_address;
                TDG_VP_VMCALL_RETRY
            },
        };
    }

    /// How an exit ends.
    pub open spec fn exit_step(&self, exit: VcpuExit) -> RunStep {
        let access = if self.has_vm_ops {
            RunStep::Dispatch
        } else {
            RunStep::Return(VmExit::Ignore)
        };
        match exit {
            VcpuExit::IoIn { .. } => access,
            VcpuExit::IoOut { .. } => access,
            VcpuExit::MmioRead { .. } => access,
            VcpuExit::MmioWrite { .. } => access,
            VcpuExit::IoapicEoi(vector) => RunStep::Return(VmExit::IoapicEoi(vector)),
            VcpuExit::Shutdown => RunStep::Return(VmExit::Reset),
            VcpuExit::Hlt => RunStep::Return(VmExit::Reset),
            VcpuExit::SystemEvent { event_type } => if event_type == KVM_SYSTEM_EVENT_RESET {
                RunStep::Return(VmExit::Reset)
            } else if event_type == KVM_SYSTEM_EVENT_SHUTDOWN {
                RunStep::Return(VmExit::Shutdown)
            } else {
                RunStep::Fail(RunError::UnexpectedSystemEvent(event_type))
            },
            VcpuExit::Hyperv => RunStep::Return(VmExit::Hyperv),
            VcpuExit::Unsupported(reason) => if reason == KVM_EXIT_TDX || reason
                == KVM_EXIT_TDX_LEGACY {
                RunStep::Return(VmExit::Tdx)
            } else {
                RunStep::Fail(RunError::UnexpectedExit)
            },
            VcpuExit::Debug => RunStep::Return(VmExit::Debug),
            VcpuExit::Hypercall { .. } => RunStep::Return(VmExit::Ignore),
            VcpuExit::MemoryFault { flags, .. } => if flags & !KVM_MEMORY_EXIT_FLAG_PRIVATE != 0 {
                RunStep::Fail(RunError::UnknownMemoryFaultFlags(flags))
            } else {
                RunStep::Return(VmExit::Ignore)
            },
            VcpuExit::Other => RunStep::Fail(RunError::UnexpectedExit),
            VcpuExit::Error(errno) => if errno == EINTR || errno == EAGAIN {
                RunStep::Return(VmExit::Ignore)
            } else {
                RunStep::Fail(RunError::Vcpu(errno))
            },
        }
    }

    /// Whether an exit makes the pending shared ranges due: a trust domain of
    /// the older interface touched a page as shared.
    pub open spec fn exit_flushes(&self, exit: VcpuExit) -> bool {
        exit matches VcpuExit::MemoryFault { flags, .. } && flags == 0 && self.tdx_legacy_cpuid
    }

    /// The conversions that an exit asks for, in order.
    pub open spec fn exit_conversions(&self, exit: VcpuExit) -> Seq<Conversion> {
        match exit {
            VcpuExit::IoOut { port, data } => if self.tdx_legacy_cpuid && data@.len() == 4 && port
                == FW_CFG_DMA_LO_PORT {
                seq![
                    Conversion {
                        address: (((self.tdx_fw_cfg_dma_hi as u64) << 32) | crate::bytes::be32(
                            data@,
                            0,
                        ) as u64) & !0xfffu64,
                        size: 0x1000,
                        private: false,
                    },
                ]
            } else {
                Seq::empty()
            },
            VcpuExit::Hypercall { nr, address, num_pages, attributes } => if nr
                == KVM_HC_MAP_GPA_RANGE {
                seq![
                    Conversion {
                        address,
                        size: (num_pages * 4096) as u64,
                        private: attributes & 0x10 > 0,
                    },
                ]
            } else {
                Seq::empty()
            },
            VcpuExit::MemoryFault { flags, gpa, size } => if flags & !KVM_MEMORY_EXIT_FLAG_PRIVATE
                != 0 {
                Seq::empty()
            } else if self.exit_flushes(exit) {
                if some_range_has(self.flush(), gpa) {
                    to_shared(self.flush())
                } else {
                    to_shared(self.flush()).push(Conversion { address: gpa, size, private: false })
                }
            } else {
                seq![
                    Conversion {
                        address: gpa,
                        size,
                        private: flags & KVM_MEMORY_EXIT_FLAG_PRIVATE != 0,
                    },
                ]
            },
            _ => Seq::empty(),
        }
    }

    /// The upper half of the descriptor address after an exit.
    pub open spec fn exit_dma_hi(&self, exit: VcpuExit) -> u32 {
        match exit {
            VcpuExit::IoOut { port, data } => if self.tdx_legacy_cpuid && data@.len() == 4 && port
                == FW_CFG_DMA_HI_PORT {
                crate::bytes::be32(data@, 0)
            } else {
                self.tdx_fw_cfg_dma_hi
            },
            _ => self.tdx_fw_cfg_dma_hi,
        }
    }

    /// Decides what an exit leads to.
    pub fn run(&mut self, exit: &VcpuExit) -> (r: RunDecision)
        requires
            old(self).wf(),
            exit matches VcpuExit::Hypercall { nr, num_pages, .. } ==> nr == KVM_HC_MAP_GPA_RANGE
                ==> num_pages * 4096 <= u64::MAX,
        ensures
            final(self).wf(),
            final(self).same_vcpu(old(self)),
            r.step == old(self).exit_step(*exit),
            r.conversions@ == old(self).exit_conversions(*exit),
            r.hypercall_ret == exit_answer(*exit),
            final(self).tdx_fw_cfg_dma_hi == old(self).exit_dma_hi(*exit),
            final(self).pending@ == (if old(self).exit_flushes(*exit) {
                Seq::empty()
            } else {
                old(self).pending@
            }),
            *exit matches VcpuExit::MemoryFault { flags, gpa, size } ==> {
                &&& flags == 8 ==> r.conversions@ == seq![
                    Conversion { address: gpa, size, private: true },
                ]
                &&& flags == 0 && !old(self).tdx_legacy_cpuid ==> r.conversions@ == seq![
                    Conversion { address: gpa, size, private: false },
                ]
                &&& flags == 0 || flags == 8 <==> r.step == RunStep::Return(VmExit::Ignore)
            },
    {
        proof {
            if let VcpuExit::MemoryFault { flags, gpa, size } = exit {
                fault_converts_what_was_touched(*self, *flags, *gpa, *size);
            }
        }
        let mut conversions: Vec<Conversion> = Vec::new();
        let mut hypercall_ret: Option<u64> = None;
        let access: RunStep = if self.has_vm_ops {
            RunStep::Dispatch
        } else {
            RunStep::Return(VmExit::Ignore)
        };
        let step: RunStep = match exit {
            VcpuExit::IoIn { .. } => access,
            VcpuExit::IoOut { port, data } => {
                if self.tdx_legacy_cpuid && data.len() == 4 && (*port == FW_CFG_DMA_HI_PORT || *port
                    == FW_CFG_DMA_LO_PORT) {
                    let val: u32 = read_u32_be(data.as_slice(), 0);
                    if *port == FW_CFG_DMA_HI_PORT {
                        self.tdx_fw_cfg_dma_hi = val;
                    } else {
                        let dma_address: u64 = ((self.tdx_fw_cfg_dma_hi as u64) << 32) | val as u64;
                        conversions.push(
                            Conversion {
                                address: dma_address & !0xfffu64,
                                size: 0x1000,
                                private: false,
                            },
                        );
                    }
                }
                access
            },
            VcpuExit::IoapicEoi(vector) => RunStep::Return(VmExit::IoapicEoi(*vector)),
            VcpuExit::Shutdown | VcpuExit::Hlt => RunStep::Return(VmExit::Reset),
            VcpuExit::SystemEvent { event_type } => {
                if *event_type == KVM_SYSTEM_EVENT_RESET {
                    RunStep::Return(VmExit::Reset)
                } else if *event_type == KVM_SYSTEM_EVENT_SHUTDOWN {
                    RunStep::Return(VmExit::Shutdown)
                } else {
                    RunStep::Fail(RunError::UnexpectedSystemEvent(*event_type))
                }
            },
            VcpuExit::MmioRead { .. } => access,
            VcpuExit::MmioWrite { .. } => access,
            VcpuExit::Hyperv => RunStep::Return(VmExit::Hyperv),
            VcpuExit::Unsupported(reason) => {
                if *reason == KVM_EXIT_TDX || *reason == KVM_EXIT_TDX_LEGACY {
                    RunStep::Return(VmExit::Tdx)
                } else {
                    RunStep::Fail(RunError::UnexpectedExit)
                }
            },
            VcpuExit::Debug => RunStep::Return(VmExit::Debug),
            VcpuExit::Hypercall { nr, address, num_pages, attributes } => {
                if *nr == KVM_HC_MAP_GPA_RANGE {
                    let size: u64 = *num_pages * 4096;
                    let private: bool = *attributes & 0x10 > 0;
                    conversions.push(Conversion { address: *address, size, private });
                    hypercall_ret = Some(0);
                } else {
                    hypercall_ret = Some(u64::MAX);
                }
                RunStep::Return(VmExit::Ignore)
            },
            VcpuExit::MemoryFault { flags, gpa, size } => {
                proof {
                    let f = *flags;
                    assert(f & !8u64 == 0 ==> ((f & 8 == 0) == (f == 0))) by (bit_vector);
                    assert(f == 0 ==> f & !8u64 == 0) by (bit_vector);
                }
                if *flags & !KVM_MEMORY_EXIT_FLAG_PRIVATE != 0 {
                    RunStep::Fail(RunError::UnknownMemoryFaultFlags(*flags))
                } else {
                    let private: bool = *flags & KVM_MEMORY_EXIT_FLAG_PRIVATE != 0;
                    if self.tdx_legacy_cpuid && !private {
                        let ranges: Vec<(u64, u64)> = self.take_all_tdx_pending_shared_ranges();
                        push_shared(&ranges, &mut conversions);
                        assert(conversions@ =~= to_shared(old(self).flush()));
                        if !holds_address(&ranges, *gpa) {
                            conversions.push(
                                Conversion { address: *gpa, size: *size, private: false },
                            );
                        }
                    } else {
                        conversions.push(Conversion { address: *gpa, size: *size, private });
                    }
                    RunStep::Return(VmExit::Ignore)
                }
            },
            VcpuExit::Other => RunStep::Fail(RunError::UnexpectedExit),
            VcpuExit::Error(errno) => {
                if *errno == EINTR || *errno == EAGAIN {
                    RunStep::Return(VmExit::Ignore)
                } else {
                    RunStep::Fail(RunError::Vcpu(*errno))
                }
            },
        };
        assert(conversions@ =~= old(self).exit_conversions(*exit));
        RunDecision { conversions, hypercall_ret, step }
    }
}

fn push_shared(ranges: &Vec<(u64, u64)>, conversions: &mut Vec<Conversion>)
    ensures
        final(conversions)@ == old(conversions)@ + to_shared(ranges@),
{
    let mut i: usize = 0;
    assert(conversions@ =~= old(conversions)@ + to_shared(ranges@).take(0));
    while i < ranges.len()
        invariant
            i <= ranges@.len(),
            conversions@ == old(conversions)@ + to_shared(ranges@).take(i as int),
        decreases ranges@.len() - i,
    {
        let (address, size): (u64, u64) = ranges[i];
        conversions.push(Conversion { address, size, private: false });
        i = i + 1;
        assert(conversions@ =~= old(conversions)@ + to_shared(ranges@).take(i as int));
    }
    assert(to_shared(ranges@).take(i as int) =~= to_shared(ranges@));
}

fn holds_address(ranges: &Vec<(u64, u64)>, gpa: u64) -> (r: bool)
    ensures
        r == some_range_has(ranges@, gpa),
{
    let mut i: usize = 0;
    while i < ranges.len()
        invariant
            i <= ranges@.len(),
            forall|k: int|
                0 <= k < i ==> !((#[trigger] ranges@[k]).0 <= gpa && gpa - ranges@[k].0
                    < ranges@[k].1),
        decreases ranges@.len() - i,
    {
        let (start, size): (u64, u64) = ranges[i];
        if start <= gpa && gpa - start < size {
            assert(ranges@[i as int].0 <= gpa && gpa - ranges@[i as int].0 < ranges@[i as int].1);
            return true;
        }
        i = i + 1;
    }
    false
}

/// A page that the guest touched as private becomes private, and one that it
/// touched as shared becomes shared; bit 3 of the flags tells which. What is
/// pending of a trust domain of the older interface is shared along with a page
/// that was touched as shared. Other flags are refused and convert nothing.
pub proof fn fault_converts_what_was_touched(v: KvmVcpu, flags: u64, gpa: u64, size: u64)
    ensures
        ({
            let exit = VcpuExit::MemoryFault { flags, gpa, size };
            let c = v.exit_conversions(exit);
            &&& flags == 8 ==> c == seq![Conversion { address: gpa, size, private: true }]
            &&& flags == 0 ==> {
                &&& forall|i: int| 0 <= i < c.len() ==> !(#[trigger] c[i]).private
                &&& size > 0 ==> exists|i: int|
                    0 <= i < c.len() && (#[trigger] c[i]).address <= gpa < c[i].address + c[i].size
                &&& !v.tdx_legacy_cpuid ==> c == seq![
                    Conversion { address: gpa, size, private: false },
                ]
                &&& v.tdx_legacy_cpuid ==> forall|i: int|
                    0 <= i < v.flush().len() ==> c.contains(
                        Conversion {
                            address: (#[trigger] v.flush()[i]).0,
                            size: v.flush()[i].1,
                            private: false,
                        },
                    )
            }
            &&& flags == 0 || flags == 8 <==> v.exit_step(exit) == RunStep::Return(VmExit::Ignore)
            &&& flags != 0 && flags != 8 <==> v.exit_step(exit) is Fail
            &&& flags != 0 && flags != 8 ==> c.len() == 0
        }),
{
    assert((flags & !8u64 == 0) == (flags == 0 || flags == 8) && (flags == 8 ==> flags & 8 != 0) && (
    flags == 0 ==> flags & 8 == 0)) by (bit_vector);
    let exit = VcpuExit::MemoryFault { flags, gpa, size };
    let c = v.exit_conversions(exit);
    if flags == 0 && v.tdx_legacy_cpuid {
        let ranges = v.flush();
        if some_range_has(ranges, gpa) {
            let i = choose|i: int|
                0 <= i < ranges.len() && (#[trigger] ranges[i]).0 <= gpa && gpa - ranges[i].0
                    < ranges[i].1;
            assert(c[i].address <= gpa < c[i].address + c[i].size);
        } else {
            assert(c[c.len() - 1].address == gpa);
        }
        assert forall|i: int| 0 <= i < ranges.len() implies c.contains(
            Conversion { address: (#[trigger] ranges[i]).0, size: ranges[i].1, private: false },
        ) by {
            assert(c[i] == (Conversion {
                address: ranges[i].0,
                size: ranges[i].1,
                private: false,
            }));
        }
    } else if flags == 0 {
        assert(c[0].address == gpa);
    }
}

/// Call 12 converts its pages of 4 KiB, to private exactly if bit 4 of its third
/// argument is set, and returns zero. Any other call converts nothing and
/// returns all ones.
pub proof fn hypercall_converts_its_pages(
    v: KvmVcpu,
    nr: u64,
    address: u64,
    num_pages: u64,
    attributes: u64,
)
    requires
        nr == 12 ==> num_pages * 4096 <= u64::MAX,
    ensures
        ({
            let exit = VcpuExit::Hypercall { nr, address, num_pages, attributes };
            let c = v.exit_conversions(exit);
            &&& v.exit_step(exit) == RunStep::Return(VmExit::Ignore)
            &&& nr == 12 ==> {
                &&& exit_answer(exit) == Some(0u64)
                &&& c.len() == 1
                &&& c[0].address == address
                &&& c[0].size == 4096 * num_pages
                &&& c[0].private <==> attributes / 16 % 2 == 1
            }
            &&& nr != 12 ==> exit_answer(exit) == Some(0xffff_ffff_ffff_ffffu64) && c.len() == 0
        }),
{
    assert((attributes & 0x10 > 0) == (attributes / 16 % 2 == 1)) by (bit_vector);
}

/// Firmware hands over the address of a description in two halves. The page
/// that holds the description is shared, as a whole, once both are known, and
/// before that nothing is.
pub proof fn description_page_is_shared(
    before: KvmVcpu,
    between: KvmVcpu,
    high: VcpuExit,
    low: VcpuExit,
)
    requires
        before.tdx_legacy_cpuid,
        between.same_vcpu(&before),
        high matches VcpuExit::IoOut { port, data } && port == 0x514 && data@.len() == 4,
        low matches VcpuExit::IoOut { port, data } && port == 0x518 && data@.len() == 4,
        between.tdx_fw_cfg_dma_hi == before.exit_dma_hi(high),
    ensures
        before.exit_conversions(high).len() == 0,
        ({
            let c = between.exit_conversions(low);
            let address = crate::bytes::be32(high->IoOut_data@, 0) * 0x1_0000_0000
                + crate::bytes::be32(low->IoOut_data@, 0);
            &&& c.len() == 1
            &&& !c[0].private
            &&& c[0].address % 0x1000 == 0
            &&& c[0].size == 0x1000
            &&& c[0].address <= address < c[0].address + c[0].size
        }),
        between.exit_dma_hi(low) == between.tdx_fw_cfg_dma_hi,
{
    let h = crate::bytes::be32(high->IoOut_data@, 0);
    let l = crate::bytes::be32(low->IoOut_data@, 0);
    let a = ((h as u64) << 32) | l as u64;
    assert(a == h * 0x1_0000_0000 + l && (a & !0xfffu64) % 0x1000 == 0 && a & !0xfffu64 <= a < (a
        & !0xfffu64) + 0x1000) by (bit_vector)
        requires
            a == ((h as u64) << 32) | l as u64,
    ;
}

/// Accesses to devices are handed on, and neither they nor any other exit but a
/// fault, a hypercall or the handing over of a description converts memory.
pub proof fn other_exits_convert_nothing(v: KvmVcpu, exit: VcpuExit)
    requires
        !(exit is MemoryFault),
        !(exit is Hypercall),
        exit matches VcpuExit::IoOut { port, data } ==> !v.tdx_legacy_cpuid || port != 0x518
            || data@.len() != 4,
    ensures
        v.exit_conversions(exit).len() == 0,
        exit_answer(exit) is None,
        v.has_vm_ops && (exit is IoIn || exit is IoOut || exit is MmioRead || exit is MmioWrite)
            <==> v.exit_step(exit) is Dispatch,
        exit is Shutdown || exit is Hlt ==> v.exit_step(exit) == RunStep::Return(VmExit::Reset),
        exit matches VcpuExit::Unsupported(reason) ==> (reason == 40 || reason == 50 <==> v.exit_step(
            exit,
        ) == RunStep::Return(VmExit::Tdx)),
        exit matches VcpuExit::Error(errno) ==> (errno == 4 || errno == 11 <==> v.exit_step(exit)
            == RunStep::Return(VmExit::Ignore)),
        exit is Other ==> v.exit_step(exit) is Fail,
{
}

/// A map-GPA call is refused for its alignment exactly if address or size is
/// not a multiple of the page size. Otherwise what it converts starts at the
/// address that was asked for, without the mark, and goes to private exactly if
/// the mark was not there. It is answered with success if that is the whole
/// range, and else the guest is asked to go on right behind it, with the mark
/// as it was.
pub proof fn map_gpa_converts_as_asked(
    before: KvmVcpu,
    after: KvmVcpu,
    exit: KvmTdxExit,
    mask: u64,
    bits: u32,
    plan: MapGpaPlan,
)
    requires
        before.map_gpa_answered(&after, exit, mask, bits, Ok(plan)),
        plan.outcome is Ok,
        exit.vmcall.in_r13 > 0,
    ensures
        ({
            let asked = exit.vmcall.in_r12;
            let size = exit.vmcall.in_r13;
            let plain = asked & !mask;
            let status = plan.outcome->Ok_0;
            let last = plan.conversions@.last();
            &&& exit.vmcall.type_ == 0 && exit.vmcall.subfunction == 0x10001
            &&& status is AlignError <==> plain % 4096 != 0 || size % 4096 != 0
            &&& status is Success || status is Retry ==> {
                &&& plan.conversions@.len() > 0
                &&& last.address == plain
                &&& last.private <==> asked & mask == 0
                &&& 0 < last.size <= 0x400_0000
                &&& last.size <= size
                &&& forall|i: int|
                    0 <= i < plan.conversions@.len() - 1 ==> !(#[trigger] plan.conversions@[i]).private
            }
            &&& status is Success ==> last.size == size
            &&& status matches TdxExitStatus::Retry(next) ==> {
                &&& last.size < size
                &&& last.private ==> next == plain + last.size
                &&& !last.private ==> next & mask == mask && next & !mask == ((plain
                    + last.size) as u64) & !mask
            }
            &&& status is InvalidOperand || status is AlignError ==> plan.conversions@.len() == 0
        }),
{
    let size = exit.vmcall.in_r13;
    let plain = exit.vmcall.in_r12 & !mask;
    let next = (plain + chunk(size)) as u64;
    assert((plain & 0xfff != 0) == (plain % 4096 != 0) && (size & 0xfff != 0) == (size % 4096 != 0) && (
    next | mask) & mask == mask && (next | mask) & !mask == next & !mask) by (bit_vector);
}

/// What a guest has converted, call by call, that makes map-GPA calls until it
/// is not asked to go on.
pub open spec fn map_gpa_calls(address: int, size: u64) -> Seq<(int, int)>
    decreases size,
{
    let done = chunk(size);
    if done < size {
        seq![(address, done as int)] + map_gpa_calls(address + done, (size - done) as u64)
    } else {
        seq![(address, done as int)]
    }
}

/// Going on as long as a retry is asked for converts exactly the range: the
/// first call begins at its start, each next one right behind the one before,
/// the last ends at its end, and no call converts more than 64 MiB.
pub proof fn map_gpa_calls_cover_the_range(address: int, size: u64)
    requires
        size > 0,
    ensures
        ({
            let calls = map_gpa_calls(address, size);
            &&& calls.len() > 0
            &&& calls[0].0 == address
            &&& calls.last().0 + calls.last().1 == address + size
            &&& forall|i: int|
                0 <= i < calls.len() ==> 0 < (#[trigger] calls[i]).1 <= TDX_MAP_GPA_MAX_LEN
            &&& forall|i: int, j: int|
                0 <= i && j == i + 1 && j < calls.len() ==> (#[trigger] calls[j]).0 == (
                #[trigger] calls[i]).0 + calls[i].1
        }),
    decreases size,
{
    let done = chunk(size);
    if done < size {
        map_gpa_calls_cover_the_range(address + done, (size - done) as u64);
        let rest = map_gpa_calls(address + done, (size - done) as u64);
        let calls = map_gpa_calls(address, size);
        assert forall|i: int| 1 <= i < calls.len() implies #[trigger] calls[i] == rest[i - 1] by {}
        assert(calls.last() == rest.last());
        assert forall|i: int, j: int| 0 <= i && j == i + 1 && j < calls.len() implies (
        #[trigger] calls[j]).0 == (#[trigger] calls[i]).0 + calls[i].1 by {
            if i > 0 {
                assert(calls[i] == rest[i - 1] && calls[j] == rest[j - 1]);
            }
        }
    }
}

/// A retry for a shared range is marked shared and stands for the plain address
/// right behind what was converted, as long as that does not carry into the
/// shared bit.
pub proof fn retry_keeps_sharing(next: u64, shared_gpa_mask: u64)
    requires
        next & shared_gpa_mask == 0,
        shared_gpa_mask != 0,
    ensures
        (next | shared_gpa_mask) & shared_gpa_mask != 0,
        (next | shared_gpa_mask) & !shared_gpa_mask == next,
{
    assert(next & shared_gpa_mask == 0 && shared_gpa_mask != 0 ==> (next | shared_gpa_mask)
        & shared_gpa_mask != 0 && (next | shared_gpa_mask) & !shared_gpa_mask == next)
        by (bit_vector);
}

/// Where to go on after the kernel handled `count` of `len` registers: behind
/// the one it stopped at, or nowhere if it handled all.
pub fn next_msr_start(start: usize, count: usize, len: usize) -> (r: Option<usize>)
    requires
        count <= len,
        start + len <= usize::MAX,
    ensures
        r == (if count == len {
            None
        } else {
            Some((start + count + 1) as usize)
        }),
{
    if count == len {
        None
    } else {
        Some(start + count + 1)
    }
}

/// Registers read so far, skipping those that the kernel refuses.
pub struct MsrWalk {
    /// Where the next read starts.
    pub start: usize,
    /// What was read.
    pub kept: Vec<MsrEntry>,
    /// How many registers were skipped.
    pub skipped: usize,
}

impl MsrWalk {
    /// Every register before `start` was either kept or skipped.
    pub open spec fn wf(&self) -> bool {
        self.kept@.len() + self.skipped == self.start
    }

    /// The walk after the first `count` of the registers from `start` on were
    /// read. If there are more, the one after those is skipped.
    pub open spec fn walks(
        &self,
        after: &MsrWalk,
        chunk: Seq<MsrEntry>,
        count: int,
        over: bool,
    ) -> bool {
        &&& after.kept@ == self.kept@ + chunk.take(count)
        &&& over == (count == chunk.len())
        &&& after.start == (if over {
            self.start + count
        } else {
            self.start + count + 1
        })
        &&& after.skipped == (if over {
            self.skipped as int
        } else {
            self.skipped + 1
        })
    }

    /// A walk that has read nothing.
    pub fn new() -> (r: Self)
        ensures
            r.wf(),
            r.start == 0,
            r.kept@.len() == 0,
    {
        MsrWalk { start: 0, kept: Vec::new(), skipped: 0 }
    }

    /// Takes in what the kernel returned for the registers from `start` on:
    /// the first `count` of them were read. Says whether the walk is over;
    /// if not, the register after those is skipped.
    pub fn advance(&mut self, chunk: &Vec<MsrEntry>, count: usize) -> (over: bool)
        requires
            old(self).wf(),
            count <= chunk@.len(),
            old(self).start + chunk@.len() <= usize::MAX,
        ensures
            final(self).wf(),
            old(self).walks(final(self), chunk@, count as int, over),
    {
        let mut i: usize = 0;
        while i < count
            invariant
                i <= count <= chunk@.len(),
                self.start == old(self).start,
                self.skipped == old(self).skipped,
                self.kept@ =~= old(self).kept@ + chunk@.take(i as int),
            decreases count - i,
        {
            self.kept.push(chunk[i]);
            i = i + 1;
        }
        match next_msr_start(self.start, count, chunk.len()) {
            None => {
                self.start = self.start + count;
                true
            },
            Some(next) => {
                self.start = next;
                self.skipped = self.skipped + 1;
                false
            },
        }
    }
}

/// Registers of the synthetic interrupt controller.
pub open spec fn hyperv_synic_msrs() -> Seq<u32> {
    Seq::new(
        31,
        |i: int|
            (if i < 2 {
                0x4000_0020 + i
            } else if i < 7 {
                0x4000_0080 + (i - 2)
            } else if i < 23 {
                0x4000_0090 + (i - 7)
            } else {
                0x4000_00b0 + (i - 23)
            }) as u32,
    )
}

/// The registers to save: those of the VM, and those of the synthetic
/// interrupt controller where the guest uses it.
pub fn msrs_to_save(msrs: &Vec<MsrEntry>, hyperv_synic: bool) -> (r: Vec<MsrEntry>)
    ensures
        r@ == msrs@ + (if hyperv_synic {
            hyperv_synic_msrs().map_values(|i: u32| MsrEntry { index: i, data: 0 })
        } else {
            Seq::empty()
        }),
{
    let mut r: Vec<MsrEntry> = Vec::new();
    let mut i: usize = 0;
    while i < msrs.len()
        invariant
            i <= msrs@.len(),
            r@ =~= msrs@.take(i as int),
        decreases msrs@.len() - i,
    {
        r.push(msrs[i]);
        i = i + 1;
    }
    assert(r@ =~= msrs@);
    if hyperv_synic {
        let ghost extra = hyperv_synic_msrs().map_values(|i: u32| MsrEntry { index: i, data: 0 });
        let mut k: u32 = 0;
        while k < 31
            invariant
                k <= 31,
                extra == hyperv_synic_msrs().map_values(|i: u32| MsrEntry { index: i, data: 0 }),
                r@ =~= msrs@ + extra.take(k as int),
            decreases 31 - k,
        {
            let index: u32 = if k < 2 {
                0x4000_0020 + k
            } else if k < 7 {
                0x4000_0080 + (k - 2)
            } else if k < 23 {
                0x4000_0090 + (k - 7)
            } else {
                0x4000_00b0 + (k - 23)
            };
            r.push(MsrEntry { index, data: 0 });
            k = k + 1;
        }
        assert(extra.take(31) =~= extra);
    } else {
        assert(r@ =~= msrs@ + Seq::<MsrEntry>::empty());
    }
    r
}

/// The registers that a vCPU boots with: system call entry points and the time
/// stamp counter at zero, fast string operations on, and memory cached
/// write-back by default.
pub fn boot_msr_entries() -> (r: Vec<MsrEntry>)
    ensures
        r@ == seq![
            MsrEntry { index: 0x174, data: 0 },
            MsrEntry { index: 0x175, data: 0 },
            MsrEntry { index: 0x176, data: 0 },
            MsrEntry { index: 0xc000_0081, data: 0 },
            MsrEntry { index: 0xc000_0083, data: 0 },
            MsrEntry { index: 0xc000_0082, data: 0 },
            MsrEntry { index: 0xc000_0102, data: 0 },
            MsrEntry { index: 0xc000_0084, data: 0 },
            MsrEntry { index: 0x10, data: 0 },
            MsrEntry { index: 0x1a0, data: 1 },
            MsrEntry { index: 0x2ff, data: 0x806 },
        ],
{
    vec![
        MsrEntry { index: 0x174, data: 0 },
        MsrEntry { index: 0x175, data: 0 },
        MsrEntry { index: 0x176, data: 0 },
        MsrEntry { index: 0xc000_0081, data: 0 },
        MsrEntry { index: 0xc000_0083, data: 0 },
        MsrEntry { index: 0xc000_0082, data: 0 },
        MsrEntry { index: 0xc000_0102, data: 0 },
        MsrEntry { index: 0xc000_0084, data: 0 },
        MsrEntry { index: 0x10, data: 0 },
        MsrEntry { index: 0x1a0, data: 1 },
        MsrEntry { index: 0x2ff, data: 0x806 },
    ]
}

/// Debug control and debug registers of a vCPU.
#[derive(Clone, Copy, Debug)]
pub struct GuestDebug {
    pub control: u32,
    pub debugreg: [u64; 8],
}

/// Debug control register with the first `n` breakpoints on.
pub open spec fn debug_control(n: int) -> u64 {
    if n == 0 {
        0x600
    } else if n == 1 {
        0x602
    } else if n == 2 {
        0x60a
    } else if n == 3 {
        0x62a
    } else {
        0x6aa
    }
}

proof fn lemma_debug_bits()
    by (bit_vector)
    ensures
        0x600u64 | (2u64 << 0u64) == 0x602u64,
        0x602u64 | (2u64 << 2u64) == 0x60au64,
        0x60au64 | (2u64 << 4u64) == 0x62au64,
        0x62au64 | (2u64 << 6u64) == 0x6aau64,
        1u32 | 0x2_0000u32 == 0x2_0001u32,
        0x2_0001u32 | 2u32 == 0x2_0003u32,
{
}

/// Debug registers for hardware breakpoints at the given addresses, and
/// optionally single stepping. There are four breakpoints.
pub fn set_guest_debug(addrs: &Vec<u64>, singlestep: bool) -> (r: GuestDebug)
    requires
        addrs@.len() <= 4,
    ensures
        r.control == (if singlestep {
            0x2_0003u32
        } else {
            0x2_0001u32
        }),
        forall|i: int| 0 <= i < addrs@.len() ==> r.debugreg@[i] == addrs@[i],
        forall|i: int| addrs@.len() <= i < 7 ==> r.debugreg@[i] == 0,
        r.debugreg@[7] == debug_control(addrs@.len() as int),
{
    proof {
        lemma_debug_bits();
    }
    let mut control: u32 = 1 | 0x2_0000;
    if singlestep {
        control = control | 2;
    }
    let mut debugreg: [u64; 8] = [0u64;8];
    debugreg[7] = 0x600;
    let mut i: usize = 0;
    while i < addrs.len()
        invariant
            i <= addrs@.len() <= 4,
            forall|k: int| 0 <= k < i ==> debugreg@[k] == addrs@[k],
            forall|k: int| i <= k < 7 ==> debugreg@[k] == 0,
            debugreg@[7] == debug_control(i as int),
        decreases addrs@.len() - i,
    {
        proof {
            lemma_debug_bits();
        }
        debugreg[i] = addrs[i];
        debugreg[7] = debugreg[7] | (2u64 << ((i * 2) as u64));
        i = i + 1;
    }
    GuestDebug { control, debugreg }
}

/// Debug control, breakpoint control and breakpoint addresses of an arm64
/// vCPU.
#[derive(Clone, Copy, Debug)]
pub struct Arm64GuestDebug {
    pub control: u32,
    pub dbg_bcr: [u64; 16],
    pub dbg_bvr: [u64; 16],
}

/// Breakpoint control on arm64: enabled, for the kernel and its programs, on
/// whole instructions.
pub const ARM64_BREAKPOINT_CONTROL: u64 = 0x1e7;

/// Breakpoint registers of an arm64 vCPU for the given addresses, of which the
/// low 53 bits count, and optionally single stepping. There are at most sixteen.
pub fn arm64_set_guest_debug(addrs: &Vec<u64>, singlestep: bool) -> (r: Arm64GuestDebug)
    requires
        addrs@.len() <= 16,
    ensures
        r.control == (if singlestep {
            0x2_0003u32
        } else {
            0x2_0001u32
        }),
        forall|i: int|
            0 <= i < 16 ==> #[trigger] r.dbg_bcr@[i] == (if i < addrs@.len() {
                ARM64_BREAKPOINT_CONTROL
            } else {
                0
            }),
        forall|i: int|
            0 <= i < 16 ==> #[trigger] r.dbg_bvr@[i] == (if i < addrs@.len() {
                addrs@[i] % 0x20_0000_0000_0000
            } else {
                0
            }),
{
    proof {
        lemma_debug_bits();
    }
    let mut control: u32 = 1 | 0x2_0000;
    if singlestep {
        control = control | 2;
    }
    let mut dbg_bcr: [u64; 16] = [0u64;16];
    let mut dbg_bvr: [u64; 16] = [0u64;16];
    let mut i: usize = 0;
    while i < addrs.len()
        invariant
            i <= addrs@.len() <= 16,
            forall|k: int|
                0 <= k < 16 ==> #[trigger] dbg_bcr@[k] == (if k < i {
                    ARM64_BREAKPOINT_CONTROL
                } else {
                    0
                }),
            forall|k: int|
                0 <= k < 16 ==> #[trigger] dbg_bvr@[k] == (if k < i {
                    addrs@[k] % 0x20_0000_0000_0000
                } else {
                    0
                }),
        decreases addrs@.len() - i,
    {
        let addr: u64 = addrs[i];
        assert((!0u64 >> 11u64) & addr == addr % 0x20_0000_0000_0000) by (bit_vector);
        assert(1u64 | 6u64 | 0x1e0u64 == 0x1e7u64) by (bit_vector);
        dbg_bcr[i] = 0b1u64 | 0b110u64 | 0b1_1110_0000u64;
        dbg_bvr[i] = (!0u64 >> 11u64) & addr;
        i = i + 1;
    }
    Arm64GuestDebug { control, dbg_bcr, dbg_bvr }
}

/// How many words the extended state buffer has beyond its fixed 4 KiB, given
/// its size in bytes.
pub fn xsave2_extra_words(xsave_size: i32) -> (r: usize)
    requires
        xsave_size >= 4096,
    ensures
        r == (xsave_size - 4096 + 3) / 4,
{
    let rest: usize = (xsave_size as usize) - 4096;
    rest / 4 + (if rest % 4 != 0 {
        1
    } else {
        0
    })
}

/// The calls of a trust domain are told apart by their number: 0x10001 maps
/// pages, and is only left to the monitor by the older interface; 0x10002 asks for
/// a quote at the address in `r12`, of the size in `r13`; 0x10004 names the vector
/// in `r12`. No other call is served, nor is one of another type.
pub proof fn calls_are_told_apart(v: KvmTdxExitVmcall, legacy: bool)
    ensures
        ({
            let d = exit_details(v, legacy);
            &&& v.type_ == 0 && v.subfunction == 0x10001 && legacy <==> d == Ok::<
                TdxExitDetails,
                UnknownTdxVmCall,
            >(TdxExitDetails::MapGpa)
            &&& v.type_ == 0 && v.subfunction == 0x10002 ==> d == Ok::<
                TdxExitDetails,
                UnknownTdxVmCall,
            >(TdxExitDetails::GetQuote { gpa: v.in_r12, size: v.in_r13 })
            &&& v.type_ == 0 && v.subfunction == 0x10004 ==> d == Ok::<
                TdxExitDetails,
                UnknownTdxVmCall,
            >(TdxExitDetails::SetupEventNotifyInterrupt { vector: v.in_r12 })
            &&& v.type_ != 0 || (v.subfunction != 0x10001 && v.subfunction != 0x10002
                && v.subfunction != 0x10004) ==> d is Err
        }),
{
}

/// The guest reads how its call went: zero for success, one to call again from
/// the address in `r11`, and errors with the top bit set. Nothing else of the call
/// changes.
pub proof fn answer_reaches_the_guest(exit: KvmTdxExit, status: TdxExitStatus)
    ensures
        ({
            let r = answered_with(exit, status);
            let code = r.vmcall.status_code;
            &&& status is Success <==> code == 0
            &&& status is Retry <==> code == 1
            &&& status is InvalidOperand <==> code == 0x8000_0000_0000_0000
            &&& status is AlignError <==> code == 0x8000_0000_0000_0002
            &&& status matches TdxExitStatus::Retry(next) ==> r.vmcall.out_r11 == next
            &&& !(status is Retry) ==> r.vmcall.out_r11 == exit.vmcall.out_r11
            &&& r == (KvmTdxExit {
                vmcall: KvmTdxExitVmcall {
                    status_code: code,
                    out_r11: r.vmcall.out_r11,
                    ..exit.vmcall
                },
                ..exit
            })
        }),
{
}

/// A map-GPA call that is aligned is refused exactly if its range reaches past
/// what the host can address: two to the power of the low byte of what CPUID says
/// of address bits.
pub proof fn ranges_beyond_the_host_are_refused(
    before: KvmVcpu,
    after: KvmVcpu,
    exit: KvmTdxExit,
    mask: u64,
    bits: u32,
    plan: MapGpaPlan,
)
    requires
        before.map_gpa_answered(&after, exit, mask, bits, Ok(plan)),
        exit.vmcall.in_r13 > 0,
        (exit.vmcall.in_r12 & !mask) & 0xfff == 0,
        exit.vmcall.in_r13 & 0xfff == 0,
    ensures
        ({
            let plain = exit.vmcall.in_r12 & !mask;
            let n = (bits % 256) as nat;
            plan.outcome == Ok::<TdxExitStatus, ConvertError>(TdxExitStatus::InvalidOperand) <==> {
                &&& n < 64
                &&& plain + exit.vmcall.in_r13 >= vstd::arithmetic::power2::pow2(n)
            }
        }),
{
    lemma_phys_limit(bits);
}

proof fn lemma_phys_limit(bits: u32)
    ensures
        bits % 256 < 64 ==> phys_limit(bits) == vstd::arithmetic::power2::pow2((bits % 256) as nat)
            && phys_limit(bits) > 0,
        bits % 256 >= 64 ==> phys_limit(bits) == 0,
{
    let n = bits % 256;
    vstd::arithmetic::power2::lemma2_to64();
    vstd::bits::lemma_u32_low_bits_mask_is_mod(bits, 8);
    assert(vstd::bits::low_bits_mask(8) == 0xff);
    assert(bits & 0xff == n);
    if n < 64 {
        vstd::arithmetic::power2::lemma_pow2_pos(n as nat);
        vstd::bits::lemma_u64_pow2_no_overflow(n as nat);
        vstd::bits::lemma_u64_shl_is_mul(1, n as u64);
        assert(1u64 << n == 1u64 << (n as u64));
    }
}

/// What stops a machine is told apart: event 1 shuts it down, event 2 resets it,
/// as a halt and a triple fault do, and any other event is an error. Ends of
/// interrupts, debug stops and calls of the older hypervisor interface are handed
/// on as what they are.
pub proof fn stops_are_told_apart(v: KvmVcpu, event_type: u32, vector: u8)
    ensures
        v.exit_step(VcpuExit::SystemEvent { event_type }) == (if event_type == 1 {
            RunStep::Return(VmExit::Shutdown)
        } else if event_type == 2 {
            RunStep::Return(VmExit::Reset)
        } else {
            RunStep::Fail(RunError::UnexpectedSystemEvent(event_type))
        }),
        v.exit_step(VcpuExit::IoapicEoi(vector)) == RunStep::Return(VmExit::IoapicEoi(vector)),
        v.exit_step(VcpuExit::Debug) == RunStep::Return(VmExit::Debug),
        v.exit_step(VcpuExit::Hyperv) == RunStep::Return(VmExit::Hyperv),
{
}

/// A walk over a list of registers keeps those that the kernel read, in the order
/// of the list, and passes over the one at which it stopped and no other. It is
/// over when the whole list was seen.
pub proof fn walk_passes_over_one_at_a_time(
    all: Seq<MsrEntry>,
    before: MsrWalk,
    after: MsrWalk,
    count: int,
    over: bool,
)
    requires
        before.wf(),
        before.start <= all.len(),
        0 <= count <= all.len() - before.start,
        before.walks(&after, all.skip(before.start as int), count, over),
    ensures
        after.kept@ == before.kept@ + all.subrange(before.start as int, before.start + count),
        over <==> after.start == all.len() && after.skipped == before.skipped,
        !over ==> after.start == before.start + count + 1 && after.start <= all.len(),
        after.wf(),
{
    assert(all.skip(before.start as int).take(count) =~= all.subrange(
        before.start as int,
        before.start + count,
    ));
}

/// The registers of the synthetic interrupt controller are two from 0x4000_0020
/// on, five from 0x4000_0080 on, sixteen from 0x4000_0090 on and eight from
/// 0x4000_00b0 on, each once.
pub proof fn synic_registers_are_all_there(x: u32)
    ensures
        hyperv_synic_msrs().len() == 31,
        hyperv_synic_msrs().contains(x) <==> {
            ||| 0x4000_0020 <= x < 0x4000_0022
            ||| 0x4000_0080 <= x < 0x4000_0085
            ||| 0x4000_0090 <= x < 0x4000_00a0
            ||| 0x4000_00b0 <= x < 0x4000_00b8
        },
        hyperv_synic_msrs().no_duplicates(),
{
    let s = hyperv_synic_msrs();
    if 0x4000_0020 <= x < 0x4000_0022 {
        assert(s[x - 0x4000_0020] == x);
    }
    if 0x4000_0080 <= x < 0x4000_0085 {
        assert(s[x - 0x4000_0080 + 2] == x);
    }
    if 0x4000_0090 <= x < 0x4000_00a0 {
        assert(s[x - 0x4000_0090 + 7] == x);
    }
    if 0x4000_00b0 <= x < 0x4000_00b8 {
        assert(s[x - 0x4000_00b0 + 23] == x);
    }
}

/// Each breakpoint has its own global enable bit, two bits above that of the one
/// before it.
pub proof fn breakpoints_have_their_bit(n: int)
    requires
        0 <= n < 4,
    ensures
        debug_control(0) == 0x600,
        debug_control(n + 1) - debug_control(n) == 2 * vstd::arithmetic::power2::pow2(
            (2 * n) as nat,
        ),
{
    vstd::arithmetic::power2::lemma2_to64();
}

} // verus!
