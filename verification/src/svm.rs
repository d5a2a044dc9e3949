//! AMD secure virtual machine: control block layout, model-specific registers
//! and firmware tables.

pub mod control;
pub mod iommu;
pub mod laws;
pub mod msr;
pub mod npt;
pub mod vmcb;
