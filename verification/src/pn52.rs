//! Inventory of a PN52 machine from the text reports of its firmware and
//! operating system.

pub mod acpi;
pub mod inventory;
pub mod laws;
pub mod pci;
pub mod report;
pub mod security;
