//! Decisions behind the KVM backend.
pub mod answers;
pub mod conversion;
pub mod conversion_laws;
pub mod cpuid_update;
pub mod hypervisor;
pub mod irq;
pub mod one_reg;
pub mod sev;
pub mod tdx;
pub mod tdx_cpuid;
pub mod vcpu;
pub mod vcpu_state;
pub mod vm;
