//! Decisions behind the KVM backend.
use std::collections::HashMap;
use tdx_q35::kvm::answers::InvalidGva;
use tdx_q35::kvm::conversion::{
    discard_needs_fallback, plan_conversion, ConvertError, KvmGuestMemSlot, MemfdOp, MemoryAction,
    PendingRange,
};
use tdx_q35::kvm::cpuid_update::{machine_check_cap, CpuidAction, CpuidUpdate};
use tdx_q35::kvm::hypervisor::{HypervisorVmConfig, KvmHypervisor, VmCapabilities};
use tdx_q35::kvm::irq::{
    make_routing_entry, translate_msi_ext_dest_id, InterruptSourceConfig, IrqRoutingEntry,
};
use tdx_q35::kvm::one_reg::{
    arm64_processor_features, arm64_reg, arm64_setup_regs, arm64_sys_reg, riscv64_setup_regs,
    Arm64Regs, Riscv64Regs,
};
use tdx_q35::kvm::sev::{
    import_isolated_pages, make_segment, sev_snp_special_regs, ImportAction, LimitTooLarge,
    SevSelector, SevSpecialState,
};
use tdx_q35::kvm::tdx::{
    tdx_derive_xfam, tdx_init_action, tdx_init_vm, tdx_legacy_init_vm, tdx_mr_seed_to_u64x6,
    tdx_requested_attributes, vcpu_init_memory_region, vm_init_memory_region, TdxAttributes,
    TdxCapabilities, TdxInitAction, TdxInitError, TdxMemoryAction,
};
use tdx_q35::kvm::tdx_cpuid::{
    tdx_legacy_cap_cpuid_config, tdx_legacy_cpuid_entries, tdx_legacy_cpuid_leaf_allowed,
    tdx_legacy_supported_cpuid_reg, CpuIdEntry, HostCpuid, TdxCapabilitiesLegacy,
    TdxCpuidConfigLegacy, TdxCpuidReg,
};
use tdx_q35::kvm::vcpu::{
    arm64_set_guest_debug, boot_msr_entries, is_i8042_reset, msrs_to_save, set_guest_debug,
    tdx_should_log_io, tdx_should_log_mmio, xsave2_extra_words, Conversion, KvmTdxExit,
    KvmTdxExitVmcall, KvmVcpu, MsrWalk, RunError, RunStep, TdxExitDetails, TdxExitStatus,
    UnknownTdxVmCall, VcpuExit, VmExit,
};
use tdx_q35::kvm::vcpu_state::{restore_steps, save_steps, RestoreStep, SaveStep};
use tdx_q35::kvm::vm::{
    guest_memfd_create_flags, guest_memfd_retry_plain, KvmVm, MemoryAttributes, MsrEntry,
    RegionCall, RegionError, UserMemoryRegion,
};

fn slot(slot: u32, start: u64, size: u64, fd: u32) -> KvmGuestMemSlot {
    KvmGuestMemSlot {
        slot,
        guest_phys_addr: start,
        memory_size: size,
        userspace_addr: 0x7f00_0000_0000 + start,
        flags: 4,
        guest_memfd_offset: 0,
        guest_memfd: fd,
    }
}

fn two_slots() -> (Option<Vec<KvmGuestMemSlot>>, Option<HashMap<u32, u32>>) {
    let slots = vec![slot(1, 0x10_0000, 0x10_0000, 11), slot(0, 0, 0x10_0000, 10)];
    let memfds = HashMap::from([(0, 10), (1, 11)]);
    (Some(slots), Some(memfds))
}

#[test]
fn conversion_crosses_slots() {
    let (slots, memfds) = two_slots();
    let plan = plan_conversion(0xf_f000, 0x2000, true, &slots, &memfds);
    assert_eq!(plan.outcome, Ok(()));
    assert_eq!(
        plan.actions[0],
        MemoryAction::Notify { address: 0xf_f000, size: 0x2000, private: true }
    );
    let discards: Vec<MemoryAction> = plan
        .actions
        .iter()
        .copied()
        .filter(|a| matches!(a, MemoryAction::Discard { .. }))
        .collect();
    assert_eq!(
        discards,
        vec![
            MemoryAction::Discard { host_addr: 0x7f00_000f_f000, length: 0x1000 },
            MemoryAction::Discard { host_addr: 0x7f00_0010_0000, length: 0x1000 },
        ]
    );
    let shared = plan_conversion(0xf_f000, 0x2000, false, &slots, &memfds);
    assert_eq!(shared.outcome, Ok(()));
    assert!(shared.actions.contains(&MemoryAction::Memfd {
        op: MemfdOp::PunchHole,
        fd: 10,
        offset: 0xf_f000,
        length: 0x1000
    }));
    assert!(shared.actions.contains(&MemoryAction::Memfd {
        op: MemfdOp::PunchHole,
        fd: 11,
        offset: 0,
        length: 0x1000
    }));
}

#[test]
fn conversion_errors() {
    let (slots, memfds) = two_slots();
    assert_eq!(
        plan_conversion(u64::MAX, 2, true, &slots, &memfds).outcome,
        Err(ConvertError::RangeOverflow)
    );
    assert_eq!(
        plan_conversion(0x100_0000, 0x1000, true, &slots, &memfds).outcome,
        Err(ConvertError::NotGuestMemfd { address: 0x100_0000, size: 0x1000 })
    );
    // Sharing what no slot backs is met.
    assert_eq!(plan_conversion(0x100_0000, 0x1000, false, &slots, &memfds).outcome, Ok(()));
    assert_eq!(
        plan_conversion(0x1f_f000, 0x2000, true, &slots, &memfds).outcome,
        Err(ConvertError::TrailingHole {
            address: 0x1f_f000,
            size: 0x2000,
            covered_until: 0x20_0000
        })
    );
    let gap = Some(vec![slot(0, 0, 0x1000, 10), slot(1, 0x2000, 0x1000, 11)]);
    assert_eq!(
        plan_conversion(0, 0x3000, true, &gap, &memfds).outcome,
        Err(ConvertError::Hole {
            address: 0,
            size: 0x3000,
            hole_start: 0x1000,
            hole_end: 0x2000
        })
    );
    let mut beyond = slot(2, u64::MAX - 0xfff, 0x2000, 12);
    beyond.userspace_addr = 0;
    assert_eq!(
        plan_conversion(0, 0x1000, true, &Some(vec![slot(0, 0, 0x1000, 10), beyond]), &memfds)
            .outcome,
        Err(ConvertError::SlotOverflow)
    );
    let none = Some(HashMap::new());
    assert_eq!(
        plan_conversion(0, 0x1000, false, &slots, &none).outcome,
        Err(ConvertError::MissingMemfd { slot: 0 })
    );
    let mut high = slot(0, 0, 0x2000, 10);
    high.userspace_addr = u64::MAX;
    assert_eq!(
        plan_conversion(0x1000, 0x1000, true, &Some(vec![high]), &memfds).outcome,
        Err(ConvertError::UserspaceOverflow)
    );
}

#[test]
fn untracked_machine_only_sets_attributes() {
    let plan = plan_conversion(0x1000, 0x1000, true, &None, &None);
    assert_eq!(
        plan.actions,
        vec![
            MemoryAction::Notify { address: 0x1000, size: 0x1000, private: true },
            MemoryAction::SetAttributes { address: 0x1000, size: 0x1000, attributes: 8 },
        ]
    );
    assert!(discard_needs_fallback(22));
    assert!(discard_needs_fallback(38));
    assert!(discard_needs_fallback(95));
    assert!(!discard_needs_fallback(12));
}

fn vm(confidential: bool) -> KvmVm {
    let config = HypervisorVmConfig { tdx_enabled: confidential, sev_snp_enabled: false };
    let caps = VmCapabilities { guest_memfd_flags: 0, guest_memfd: true, exit_hypercall: 1 };
    KvmHypervisor::create_vm(&config, 5, &caps, &vec![0x10, 0x174]).vm
}

#[test]
fn machine_type_prefers_the_current_one() {
    assert_eq!(KvmHypervisor::tdx_vm_type(1 << 5 | 1 << 2), 5);
    assert_eq!(KvmHypervisor::tdx_vm_type(1 << 2), 2);
    assert_eq!(KvmHypervisor::tdx_vm_type(0), 5);
    let plain = HypervisorVmConfig { tdx_enabled: false, sev_snp_enabled: false };
    assert_eq!(KvmHypervisor::vm_type(&plain, u64::MAX), 0);
    let snp = HypervisorVmConfig { tdx_enabled: false, sev_snp_enabled: true };
    assert_eq!(KvmHypervisor::vm_type(&snp, u64::MAX), 4);
    assert!(KvmHypervisor::compatible_api(12));
    assert!(!KvmHypervisor::compatible_api(11));
    assert!(KvmHypervisor::retry_interrupted(4));
    assert!(!KvmHypervisor::retry_interrupted(11));
    assert!(KvmHypervisor::retry_copy_in(4));
    assert!(KvmHypervisor::retry_copy_in(11));
    assert!(!KvmHypervisor::retry_copy_in(22));
    assert_eq!(KvmHypervisor::get_msr_list(&vec![1, 2], &vec![3]), vec![1, 2, 3]);
}

#[test]
fn new_machine_tracks_memory_files() {
    let config = HypervisorVmConfig { tdx_enabled: true, sev_snp_enabled: false };
    let caps = VmCapabilities { guest_memfd_flags: 0, guest_memfd: true, exit_hypercall: 1 };
    let new = KvmHypervisor::create_vm(&config, 2, &caps, &vec![0x10]);
    assert!(new.vm.tdx_legacy_vm_type);
    assert!(new.vm.guest_memfd_legacy_hugepage);
    assert_eq!(new.vm.guest_memfds.as_ref().map(|m| m.len()), Some(0));
    assert_eq!(new.enable_cap.map(|c| (c.cap, c.arg0)), Some((201, 0x1000)));
    assert!(!new.open_sev);
    assert_eq!(new.vm.msrs, vec![MsrEntry { index: 0x10, data: 0 }]);
    assert!(vm(false).guest_memfds.is_none());
}

#[test]
fn regions_come_and_go() {
    let mut vm = vm(true);
    let region = vm
        .create_user_memory_region(3, 0x1000, 0x4000, 0x7000_0000, false, false, 42)
        .unwrap();
    assert_eq!(region.flags, 4);
    assert_eq!(region.guest_memfd, 42);
    assert!(matches!(vm.set_user_memory_region(region), RegionCall::Region2(_)));
    assert_eq!(
        vm.region_created(&region),
        Some(MemoryAttributes { address: 0x1000, size: 0x4000, attributes: 8 })
    );
    let plan = vm.convert_guest_memory_region(0x1000, 0x1000, false);
    assert_eq!(plan.outcome, Ok(()));
    assert_eq!(vm.share_memory_region(0x1000, 0x1000).outcome, Ok(()));
    let alloc = vm.allocate_guest_memfd(0x2000, 0x1000);
    assert_eq!(
        alloc.actions,
        vec![MemoryAction::Memfd {
            op: MemfdOp::Allocate,
            fd: 42,
            offset: 0x1000,
            length: 0x1000
        }]
    );
    let gone = vm.remove_user_memory_region(3, 0x1000, 0x7000_0000, false, false);
    assert_eq!(gone.memory_size, 0);
    vm.region_removed(3);
    assert_eq!(vm.slot_list().map(|l| l.len()), Some(0));
    assert_eq!(vm.guest_memfds.as_ref().map(|m| m.len()), Some(0));
}

#[test]
fn logging_is_started_later() {
    let mut vm = vm(false);
    assert_eq!(
        vm.create_user_memory_region(1, 0, 0x1000, 0, true, true, 0),
        Err(RegionError::DirtyLogReadOnly)
    );
    let region = vm.create_user_memory_region(1, 0, 0x1000, 0x5000, false, true, 0).unwrap();
    assert_eq!(region.flags, 0);
    assert!(matches!(vm.set_user_memory_region(region), RegionCall::Region { slot: 1, .. }));
    assert_eq!(vm.region_created(&region), None);
    let on = vm.start_dirty_log();
    assert_eq!(on.len(), 1);
    assert_eq!(on[0].flags, 1);
    let off = vm.stop_dirty_log();
    assert_eq!(off[0].flags, 0);
}

#[test]
fn regions_convert_both_ways() {
    let user = UserMemoryRegion {
        slot: 1,
        guest_phys_addr: 2,
        memory_size: 3,
        userspace_addr: 4,
        flags: 1 | 2 | 8,
        guest_memfd: None,
        guest_memfd_offset: None,
    };
    let kvm = user.into_kvm();
    assert_eq!(kvm.flags, 1);
    assert_eq!(UserMemoryRegion::from_kvm(kvm).flags, 1 | 2 | 8);
    assert_eq!(guest_memfd_create_flags(0x20_0000, true), 1);
    assert_eq!(guest_memfd_create_flags(0x20_1000, true), 0);
    assert_eq!(guest_memfd_create_flags(0x20_0000, false), 0);
    assert!(guest_memfd_retry_plain(1, 22));
    assert!(!guest_memfd_retry_plain(0, 22));
}

#[test]
fn cpuid_update_drops_and_restores_slots() {
    let mut vm = vm(true);
    let region = vm.create_user_memory_region(3, 0x1000, 0x4000, 0x7000, false, false, 42).unwrap();
    vm.region_created(&region);
    let mut update = CpuidUpdate::new(vm.slot_list().unwrap(), true);
    let mut seen = Vec::new();
    loop {
        let action = update.action();
        seen.push(action);
        let outcome = match action {
            CpuidAction::Finish(_) => break,
            CpuidAction::SetCpuid => Err(7),
            CpuidAction::CreateMemfd { .. } => Ok(99),
            _ => Ok(0),
        };
        update.advance(&mut vm, outcome);
    }
    assert_eq!(seen.len(), 7);
    assert!(matches!(seen[0], CpuidAction::SetAttributes(a) if a.attributes == 0));
    assert!(matches!(seen[1], CpuidAction::SetRegion(r) if r.memory_size == 0));
    assert_eq!(seen[2], CpuidAction::SetCpuid);
    assert_eq!(seen[3], CpuidAction::CreateMemfd { size: 0x4000 });
    assert!(matches!(seen[4], CpuidAction::SetRegion(r) if r.guest_memfd == 99));
    assert!(matches!(seen[5], CpuidAction::SetAttributes(a) if a.attributes == 8));
    assert_eq!(seen[6], CpuidAction::Finish(Err(7)));
    assert_eq!(vm.guest_memfds.as_ref().unwrap()[&3], 99);
    // Nothing to put back: only the CPUID is set.
    let mut plain = CpuidUpdate::new(Vec::new(), true);
    assert_eq!(plain.action(), CpuidAction::SetCpuid);
    plain.advance(&mut vm, Ok(0));
    assert_eq!(plain.action(), CpuidAction::Finish(Ok(())));
    // A slot that cannot be shared ends the update before the CPUID is set.
    let mut early = CpuidUpdate::new(vm.slot_list().unwrap(), true);
    early.advance(&mut vm, Err(12));
    assert_eq!(early.action(), CpuidAction::Finish(Err(12)));
    assert_eq!(machine_check_cap(0), 0xa);
    assert_eq!(machine_check_cap(u64::MAX), 0x100_010a);
}

fn vcpu(legacy: bool) -> KvmVcpu {
    KvmVcpu {
        tdx_legacy_cpuid: legacy,
        has_vm_ops: true,
        tdx_fw_cfg_dma_hi: 0,
        pending: Vec::new(),
    }
}

#[test]
fn exits_lead_somewhere() {
    let mut cpu = vcpu(true);
    assert_eq!(cpu.run(&VcpuExit::IoIn { port: 1 }).step, RunStep::Dispatch);
    assert_eq!(cpu.run(&VcpuExit::Shutdown).step, RunStep::Return(VmExit::Reset));
    assert_eq!(cpu.run(&VcpuExit::Hlt).step, RunStep::Return(VmExit::Reset));
    let event = |event_type| vcpu(true).run(&VcpuExit::SystemEvent { event_type }).step;
    assert_eq!(event(1), RunStep::Return(VmExit::Shutdown));
    assert_eq!(event(2), RunStep::Return(VmExit::Reset));
    assert_eq!(event(3), RunStep::Fail(RunError::UnexpectedSystemEvent(3)));
    assert_eq!(cpu.run(&VcpuExit::IoapicEoi(9)).step, RunStep::Return(VmExit::IoapicEoi(9)));
    assert_eq!(cpu.run(&VcpuExit::Unsupported(50)).step, RunStep::Return(VmExit::Tdx));
    assert_eq!(
        cpu.run(&VcpuExit::Unsupported(51)).step,
        RunStep::Fail(RunError::UnexpectedExit)
    );
    assert_eq!(cpu.run(&VcpuExit::Error(4)).step, RunStep::Return(VmExit::Ignore));
    assert_eq!(cpu.run(&VcpuExit::Error(5)).step, RunStep::Fail(RunError::Vcpu(5)));
    assert_eq!(
        cpu.run(&VcpuExit::MemoryFault { flags: 16, gpa: 0, size: 0 }).step,
        RunStep::Fail(RunError::UnknownMemoryFaultFlags(16))
    );
    let call = VcpuExit::Hypercall { nr: 12, address: 0x1000, num_pages: 2, attributes: 0x10 };
    let r = cpu.run(&call);
    assert_eq!(r.hypercall_ret, Some(0));
    assert_eq!(
        r.conversions,
        vec![Conversion { address: 0x1000, size: 0x2000, private: true }]
    );
    let other = VcpuExit::Hypercall { nr: 1, address: 0, num_pages: 0, attributes: 0 };
    assert_eq!(cpu.run(&other).hypercall_ret, Some(u64::MAX));
}

#[test]
fn copy_description_is_shared_first() {
    let mut cpu = vcpu(true);
    cpu.run(&VcpuExit::IoOut { port: 0x514, data: vec![0, 0, 0, 1] });
    let r = cpu.run(&VcpuExit::IoOut { port: 0x518, data: vec![0x12, 0x34, 0x56, 0x78] });
    assert_eq!(
        r.conversions,
        vec![Conversion { address: 0x1_1234_5000, size: 0x1000, private: false }]
    );
}

#[test]
fn pending_pages_are_shared_on_a_fault() {
    let mut cpu = vcpu(true);
    let mut bitmap = [0u64; 8];
    bitmap[0] = 0b110;
    cpu.pending.push(PendingRange { start: 0x20_0000, bitmap });
    let r = cpu.run(&VcpuExit::MemoryFault { flags: 0, gpa: 0x20_1000, size: 0x1000 });
    assert_eq!(
        r.conversions,
        vec![Conversion { address: 0x20_1000, size: 0x2000, private: false }]
    );
    assert!(cpu.take_all_tdx_pending_shared_ranges().is_empty());
}

fn map_gpa(address: u64, size: u64) -> KvmTdxExit {
    KvmTdxExit {
        type_: 0,
        pad: 0,
        vmcall: KvmTdxExitVmcall {
            reg_mask: 0,
            type_: 0,
            subfunction: 0x10001,
            in_r12: address,
            in_r13: size,
            in_r14: 0,
            in_r15: 0,
            in_rbx: 0,
            in_rdi: 0,
            in_rsi: 0,
            in_r8: 0,
            in_r9: 0,
            in_rdx: 0,
            status_code: 0,
            out_r11: 0,
            out_r12: 0,
            out_r13: 0,
            out_r14: 0,
            out_r15: 0,
            out_rbx: 0,
            out_rdi: 0,
            out_rsi: 0,
            out_r8: 0,
            out_r9: 0,
            out_rdx: 0,
        },
    }
}

#[test]
fn large_ranges_are_mapped_piece_by_piece() {
    let mask = 1u64 << 47;
    let mut cpu = vcpu(true);
    let mut exit = map_gpa(0x10_0000 | mask, 0x500_0000);
    assert_eq!(cpu.get_tdx_exit_details(&mut exit), Ok(TdxExitDetails::MapGpa));
    assert_eq!(exit.vmcall.status_code, 0x8000_0000_0000_0000);
    let plan = cpu.handle_tdx_map_gpa(&exit, mask, 48).unwrap();
    assert_eq!(
        plan.conversions,
        vec![Conversion { address: 0x10_0000, size: 0x400_0000, private: false }]
    );
    let status = plan.outcome.unwrap();
    assert_eq!(status, TdxExitStatus::Retry(0x410_0000 | mask));
    cpu.set_tdx_status(&mut exit, status);
    assert_eq!(exit.vmcall.status_code, 1);
    assert_eq!(exit.vmcall.out_r11, 0x410_0000 | mask);
    let status = |e: &KvmTdxExit| vcpu(true).handle_tdx_map_gpa(e, mask, 48).unwrap().outcome;
    assert_eq!(status(&map_gpa(0x1000, 0)), Ok(TdxExitStatus::Success));
    assert_eq!(status(&map_gpa(0x1001, 0x1000)), Ok(TdxExitStatus::AlignError));
    assert_eq!(status(&map_gpa(1 << 48, 0x1000)), Ok(TdxExitStatus::InvalidOperand));
    let mut unknown = map_gpa(0, 0);
    unknown.vmcall.subfunction = 1;
    assert_eq!(cpu.get_tdx_exit_details(&mut unknown), Err(UnknownTdxVmCall));
    let mut quote = map_gpa(0x1234, 0x10);
    quote.vmcall.subfunction = 0x10002;
    assert_eq!(
        cpu.get_tdx_exit_details(&mut quote),
        Ok(TdxExitDetails::GetQuote { gpa: 0x1234, size: 0x10 })
    );
}

#[test]
fn refused_registers_are_skipped() {
    let all: Vec<MsrEntry> = (0..5).map(|i| MsrEntry { index: i, data: u64::from(i) }).collect();
    let mut walk = MsrWalk::new();
    assert!(!walk.advance(&all, 2));
    assert_eq!(walk.start, 3);
    assert!(walk.advance(&all[3..].to_vec(), 2));
    let kept: Vec<u32> = walk.kept.iter().map(|e| e.index).collect();
    assert_eq!(kept, vec![0, 1, 3, 4]);
    assert_eq!(walk.skipped, 1);
    assert_eq!(msrs_to_save(&all, false).len(), 5);
    assert_eq!(msrs_to_save(&all, true).len(), 36);
    assert_eq!(boot_msr_entries().len(), 11);
    assert_eq!(xsave2_extra_words(4096), 0);
    assert_eq!(xsave2_extra_words(4101), 2);
    let debug = set_guest_debug(&vec![0x1000, 0x2000], true);
    assert_eq!(debug.control, 0x2_0003);
    assert_eq!(debug.debugreg[7], 0x60a);
    assert_eq!(debug.debugreg[..4], [0x1000, 0x2000, 0, 0]);
    let arm = arm64_set_guest_debug(&vec![u64::MAX], false);
    assert_eq!((arm.control, arm.dbg_bcr[0], arm.dbg_bcr[1]), (0x2_0001, 0x1e7, 0));
    assert_eq!(arm.dbg_bvr[0], 0x1f_ffff_ffff_ffff);
    assert!(tdx_should_log_io(511, 0x3f8));
    assert!(!tdx_should_log_io(512, 0x3f8));
    assert!(tdx_should_log_io(100_000, 0xcf8));
    assert!(tdx_should_log_io(8191, 0x510));
    assert!(!tdx_should_log_io(8193, 0x510));
    assert!(tdx_should_log_io(12288, 0x510));
    assert!(tdx_should_log_mmio(511));
    assert!(!tdx_should_log_mmio(512));
    assert!(is_i8042_reset(0x64, &[0xfe, 1]));
    assert!(!is_i8042_reset(0x64, &[]));
    assert!(!is_i8042_reset(0x64, &[1, 0xfe]));
    assert!(!is_i8042_reset(0x60, &[0xfe]));
}

#[test]
fn state_is_saved_and_restored_in_order() {
    let save = save_steps(0);
    assert_eq!(save[1], SaveStep::MpState);
    assert_eq!(save[4], SaveStep::Xsave);
    assert_eq!(save_steps(8192)[4], SaveStep::Xsave2);
    assert_eq!(save[10], SaveStep::VcpuEvents);
    let restore = restore_steps(0, true, true, true);
    let at = |s: RestoreStep| restore.iter().position(|x| *x == s).unwrap();
    assert!(at(RestoreStep::Regs) < at(RestoreStep::VcpuEvents));
    assert!(at(RestoreStep::Sregs) < at(RestoreStep::Lapic));
    assert!(at(RestoreStep::Lapic) < at(RestoreStep::Msrs));
    assert_eq!(restore.len(), 13);
    assert_eq!(restore_steps(0, false, false, false).len(), 10);
}

#[test]
fn messages_are_routed() {
    assert_eq!(translate_msi_ext_dest_id(0xfee0_1fe0, 0), (0xfee0_1000, 0x7f00));
    assert_eq!(translate_msi_ext_dest_id(0xfee0_1ff0, 0), (0xfee0_1ff0, 0));
    assert_eq!(translate_msi_ext_dest_id(0xfee0_1fe0, 1), (0xfee0_1fe0, 1));
    let msi = InterruptSourceConfig::MsiIrq {
        high_addr: 0,
        low_addr: 0xfee0_0000,
        data: 5,
        devid: 0x0102_0304,
    };
    assert_eq!(
        make_routing_entry(7, &msi, true),
        IrqRoutingEntry::Msi {
            gsi: 7,
            flags: 1,
            address_lo: 0xfee0_0000,
            address_hi: 0,
            data: 5,
            devid: 0x0204
        }
    );
    let no_devid = make_routing_entry(7, &msi, false);
    assert!(matches!(no_devid, IrqRoutingEntry::Msi { flags: 0, devid: 0, .. }));
    // Moving the upper bits of a target twice is moving them once.
    let (low, high) = translate_msi_ext_dest_id(0xfee0_1fe0, 0);
    assert_eq!(translate_msi_ext_dest_id(low, high), (low, high));
    let pin = InterruptSourceConfig::LegacyIrq { irqchip: 2, pin: 3 };
    assert_eq!(
        make_routing_entry(1, &pin, true),
        IrqRoutingEntry::Irqchip { gsi: 1, irqchip: 2, pin: 3 }
    );
}

fn selector(attrib: u16, limit: u32) -> SevSelector {
    SevSelector { selector: 8, attrib, limit, base: 0x1000 }
}

#[test]
fn saved_segments_are_taken_over() {
    let s = make_segment(selector(0x0a9b, 0xffff_ffff));
    assert_eq!((s.type_, s.s, s.dpl, s.present, s.l, s.g), (0xb, 1, 0, 1, 1, 1));
    assert_eq!(s.base, 0x1000);
    let one = selector(0x93, 0xffff);
    let mut state = SevSpecialState {
        cs: one,
        ds: one,
        es: one,
        fs: one,
        gs: one,
        ss: one,
        tr: one,
        ldtr: one,
        gdtr: one,
        idtr: one,
        cr0: 1,
        cr3: 2,
        cr4: 3,
        efer: 4,
    };
    let regs = sev_snp_special_regs(&state).unwrap();
    assert_eq!((regs.cr0, regs.cr3, regs.cr4, regs.efer), (1, 2, 3, 4));
    assert_eq!(regs.gdt.limit, 0xffff);
    state.idtr.limit = 0x1_0000;
    assert_eq!(sev_snp_special_regs(&state), Err(LimitTooLarge { limit: 0x1_0000 }));
}

#[test]
fn pages_are_made_private_then_measured() {
    let steps = import_isolated_pages(1, 4096, &vec![5], &vec![0x9000]);
    assert_eq!(
        steps,
        vec![
            ImportAction::SetPrivate { address: 0x5000, size: 4096 },
            ImportAction::LaunchUpdate { uaddr: 0x9000, size: 4096, pfn: 5, page_type: 1 },
        ]
    );
    assert!(import_isolated_pages(2, 4096, &vec![5], &vec![0x9000]).is_empty());
}

fn entry(function: u32, index: u32) -> CpuIdEntry {
    CpuIdEntry { function, index, flags: 0, eax: 0, ebx: 0, ecx: 0, edx: 0 }
}

fn legacy_caps() -> TdxCapabilitiesLegacy {
    let mut caps = TdxCapabilitiesLegacy::default();
    caps.attrs_fixed0 = u64::MAX;
    caps.xfam_fixed0 = 0xff;
    caps
}

#[test]
fn leaves_are_shaped() {
    assert!(tdx_legacy_cpuid_leaf_allowed(1));
    assert!(!tdx_legacy_cpuid_leaf_allowed(0x4000_0002));
    let mut caps = legacy_caps();
    let host = 0;
    let ecx = tdx_legacy_supported_cpuid_reg(&caps, 1, 0, TdxCpuidReg::Ecx, 0x28, host);
    // Monitor and virtualisation are off, the hypervisor bit is on.
    assert_eq!(ecx & 0x28, 0);
    assert_eq!(ecx & 0x8000_0000, 0x8000_0000);
    caps.nr_cpuid_configs = 1;
    caps.cpuid_configs[0] =
        TdxCpuidConfigLegacy { leaf: 1, sub_leaf: 0xffff_ffff, eax: 1, ebx: 2, ecx: 3, edx: 4 };
    assert_eq!(tdx_legacy_cap_cpuid_config(&caps, 1, 5, TdxCpuidReg::Edx), 4);
    assert_eq!(tdx_legacy_cap_cpuid_config(&caps, 2, 5, TdxCpuidReg::Edx), 0);
    let none = HostCpuid { eax: 0, ebx: 0, ecx: 0, edx: 0 };
    let shaped = tdx_legacy_cpuid_entries(
        &caps,
        &vec![entry(0x4000_0000, 0), entry(0x4000_0002, 0), entry(7, 2)],
        &vec![none, none, none],
    );
    assert_eq!(shaped.len(), 1);
    assert_eq!(shaped[0].eax, 0x4000_0001);
}

#[test]
fn attributes_are_granted_or_refused() {
    let mut attrs = TdxAttributes::default();
    attrs.debug = true;
    attrs.sept_ve_disable = true;
    assert_eq!(tdx_requested_attributes(&attrs), 0x1000_0001);
    let mut caps = TdxCapabilities::default();
    caps.supported_attrs = 0x1000_0000;
    caps.supported_xfam = 0xff;
    assert!(matches!(
        tdx_init_vm(&caps, &vec![], &attrs),
        Err(TdxInitError::UnsupportedAttributes { requested: 0x1000_0001, available: 0x1000_0000 })
    ));
    attrs.debug = false;
    attrs.xfam = Some(0x1ff);
    assert!(matches!(
        tdx_init_vm(&caps, &vec![], &attrs),
        Err(TdxInitError::UnsupportedXfam { requested: 0x1ff })
    ));
    attrs.xfam = None;
    let mut xsave = entry(0xd, 0);
    xsave.eax = 0x307;
    let vm = tdx_init_vm(&caps, &vec![xsave], &attrs).unwrap_or_else(|_| panic!("is granted"));
    assert_eq!((vm.attributes, vm.xfam), (0x1000_0000, 0x07));
    assert_eq!(tdx_derive_xfam(&vec![xsave], u64::MAX), 0x307);
}

#[test]
fn older_interface_checks_fixed_bits() {
    let mut caps = legacy_caps();
    caps.attrs_fixed1 = 1;
    let mut attrs = TdxAttributes::default();
    assert!(matches!(
        tdx_legacy_init_vm(&caps, &vec![], &vec![], &attrs),
        Err(TdxInitError::UnsupportedAttributes { requested: 0x1000_0000, available: 0x1000_0001 })
    ));
    attrs.debug = true;
    attrs.xfam = Some(0x100);
    assert!(matches!(
        tdx_legacy_init_vm(&caps, &vec![], &vec![], &attrs),
        Err(TdxInitError::UnsupportedXfam { requested: 0x100 })
    ));
    attrs.xfam = Some(0x3);
    assert!(tdx_legacy_init_vm(&caps, &vec![], &vec![], &attrs).is_ok());
}

#[test]
fn domain_is_set_up_step_by_step() {
    assert_eq!(tdx_init_action(false, 4, 0), TdxInitAction::SetHostTscFrequency);
    assert_eq!(tdx_init_action(false, 4, 1), TdxInitAction::InitVm);
    assert_eq!(tdx_init_action(false, 4, 2), TdxInitAction::Finished);
    assert!(matches!(
        tdx_init_action(true, 4, 5),
        TdxInitAction::EnableCap(c) if c.cap == 66 && c.arg0 == 4
    ));
    assert_eq!(tdx_init_action(true, 4, 6), TdxInitAction::SetHostTscFrequency);
    let mut seed = [0u8; 48];
    seed[0] = 1;
    seed[8] = 2;
    assert_eq!(tdx_mr_seed_to_u64x6(&seed), [1, 2, 0, 0, 0, 0]);
    assert_eq!(
        vcpu_init_memory_region(true, 0x9000, 0x2000, 0x1000, true),
        vec![
            TdxMemoryAction::CopyIn { base_gfn: 2, nr_pages: 1, source: 0x9000 },
            TdxMemoryAction::Extend { base_gfn: 2, nr_pages: 1 },
        ]
    );
    assert!(vm_init_memory_region(true, 0, 0, 0x1000, false).is_empty());
    assert_eq!(
        vm_init_memory_region(false, 1, 2, 0x2000, true),
        vec![TdxMemoryAction::InitRegion {
            host_address: 1,
            guest_address: 2,
            pages: 2,
            measure: true
        }]
    );
}

#[test]
fn test_get_and_set_regs() {
    let mut regs = [0u64; 33];
    for (i, r) in regs.iter_mut().enumerate().take(32) {
        *r = i as u64;
    }
    let core_regs = Riscv64Regs { regs };
    let list = core_regs.set_regs();
    assert_eq!(list[0].id, 0x8030_0000_0200_0000);
    assert_eq!(list[32].id, 0x8030_0000_0200_0020);
    let values: Vec<u64> =
        list.iter().map(|r| u64::from_le_bytes(r.bytes[..].try_into().unwrap())).collect();
    assert_eq!(Riscv64Regs::get_regs(&values).regs, core_regs.regs);
}

#[test]
fn arm_registers_read_back() {
    let mut regs = Arm64Regs {
        regs: [0; 31],
        sp: 31,
        pc: 32,
        pstate: 33,
        sp_el1: 34,
        elr_el1: 35,
        spsr: [36, 37, 38, 39, 40],
        vregs: [0; 32],
        fpsr: 73,
        fpcr: 74,
    };
    for i in 0..31 {
        regs.regs[i] = i as u64;
    }
    for i in 0..32 {
        regs.vregs[i] = 0x1_0000_0000_0000_0000 * (i as u128) + 7;
    }
    let list = regs.set_regs();
    assert_eq!(list.len(), 75);
    // x0, the stack pointer, v0, and the floating point status.
    assert_eq!(list[0].id, 0x6030_0000_0010_0000);
    assert_eq!(list[31].id, 0x6030_0000_0010_003e);
    assert_eq!(list[41].id, 0x6040_0000_0010_0054);
    assert_eq!(list[73].id, 0x6020_0000_0010_00d4);
    assert_eq!(arm64_reg(74), (0x6020_0000_0010_00d5, 4));
    let values: Vec<Vec<u8>> = list.into_iter().map(|r| r.bytes).collect();
    let back = Arm64Regs::get_regs(&values);
    assert_eq!(back.regs, regs.regs);
    assert_eq!(back.vregs, regs.vregs);
    assert_eq!((back.sp, back.pc, back.fpsr, back.fpcr), (31, 32, 73, 74));
    assert_eq!(back.spsr, regs.spsr);
}

#[test]
fn boot_registers() {
    let first = arm64_setup_regs(0, 0x8000, 0x4000);
    assert_eq!(first.len(), 3);
    assert_eq!(first[0].bytes, 0x3c5u64.to_le_bytes().to_vec());
    assert_eq!(first[1].id, 0x6030_0000_0010_0040);
    assert_eq!(arm64_setup_regs(1, 0x8000, 0x4000).len(), 1);
    let riscv = riscv64_setup_regs(3, 0x8000, 0x4000);
    assert_eq!(riscv[0].id, 0x8030_0000_0200_000a);
    assert_eq!(riscv[0].bytes, 3u64.to_le_bytes().to_vec());
    assert_eq!(arm64_processor_features(0, true, false, 1), 0b1101);
    assert_eq!(arm64_processor_features(2, false, true, 0), 0b10110);
    // MIDR_EL1 is s3_0_c0_c0_0.
    assert_eq!(arm64_sys_reg(0x0018_0000), 0x6030_0000_0013_c000);
}

#[test]
fn answers_are_understood() {
    assert_eq!(KvmVcpu::tsc_khz(Ok(2_000_000)), Ok(Some(2_000_000)));
    assert_eq!(KvmVcpu::tsc_khz(Err(5)), Ok(None));
    assert_eq!(KvmVcpu::tsc_khz(Err(22)), Err(22));
    assert_eq!(KvmVcpu::set_tsc_khz(Err(5)), Ok(()));
    assert_eq!(KvmVcpu::nmi(Err(22)), Err(22));
    assert_eq!(KvmVcpu::notify_guest_clock_paused(Err(22)), Ok(()));
    assert_eq!(KvmVcpu::notify_guest_clock_paused(Err(5)), Err(5));
    assert_eq!(KvmVcpu::translate_gva(7, 1, 0x1000), Ok((0x1000, 0)));
    assert_eq!(KvmVcpu::translate_gva(7, 0, 0x1000), Err(InvalidGva { gva: 7 }));
    let mut msrs = vec![MsrEntry { index: 1, data: 0 }, MsrEntry { index: 2, data: 0 }];
    let answers = vec![MsrEntry { index: 1, data: 9 }, MsrEntry { index: 2, data: 9 }];
    KvmVcpu::get_msrs(&mut msrs, &answers, 1);
    assert_eq!((msrs[0].data, msrs[1].data), (9, 0));
    let split = KvmVm::enable_split_irq();
    assert_eq!((split.cap, split.arg0), (kvm_bindings::KVM_CAP_SPLIT_IRQCHIP, 24));
    assert_eq!(KvmVm::enable_x2apic_api().cap, kvm_bindings::KVM_CAP_X2APIC_API);
    assert_eq!(KvmVcpu::enable_hyperv_synic().cap, kvm_bindings::KVM_CAP_HYPERV_SYNIC);
    assert_eq!(KvmHypervisor::get_guest_debug_hw_bps(), 4);
}

#[test]
fn numbers_agree_with_the_kernel_headers() {
    assert_eq!(u64::from(kvm_bindings::KVM_MEMORY_ATTRIBUTE_PRIVATE as u32), 8);
    assert_eq!(kvm_bindings::KVM_MEM_LOG_DIRTY_PAGES, 1);
    assert_eq!(kvm_bindings::KVM_MEM_READONLY, 2);
    assert_eq!(kvm_bindings::KVM_MEM_GUEST_MEMFD, 4);
    assert_eq!(kvm_bindings::KVM_API_VERSION, 12);
    assert_eq!(kvm_bindings::KVM_CAP_EXIT_HYPERCALL, 201);
    assert_eq!(kvm_bindings::KVM_MSI_VALID_DEVID, 1);
}
