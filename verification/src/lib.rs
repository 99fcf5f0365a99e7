//! The core of a minimal KVM virtual machine monitor: guest memory, the boot
//! environment, the serial console and the decisions taken on every exit of
//! the virtual CPU.

pub mod args;
pub mod boot;
pub mod bytes;
pub mod kernel;
pub mod layout;
pub mod memory;
pub mod paging;
pub mod registers;
pub mod serial;
pub mod vcpu;
pub mod vmm;
