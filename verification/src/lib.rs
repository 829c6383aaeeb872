//! Core of a kernel's virtual filesystem layer: textual paths, a mount
//! manager, and a resolver that walks path components across mounted
//! filesystems, together with the constructors for the descriptor-table
//! entries that the boot code installs.

pub mod fs;
pub mod gdt;
