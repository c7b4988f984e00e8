//! Static ACPI tables for a QEMU `q35` machine, with the AML encoders,
//! table framing and configuration checks that build them.

pub mod aml;
pub mod facs;
pub mod gas;
pub mod hex;
pub mod le;
pub mod sdt;
pub mod text;
pub mod qemu;
pub mod cli;
pub mod fixed_tables;
