# naos-linux

A minimal KVM virtual machine monitor for x86-64. It boots a vmlinux ELF kernel
and prints what the kernel writes to its serial console.

The library is verified with Verus. It holds the logic of the monitor:

- `memory`: guest memory, one block of RAM at address 0
- `kernel`: loading the segments of an ELF image
- `boot`: the command line, boot parameters, GDT, page tables and registers
- `paging`: how the CPU walks page tables, and what the boot tables map
- `layout`: what the guest finds in memory and registers when it starts
- `serial`: the 16550 UART
- `vcpu`: what to do about each exit of the vCPU
- `vmm`: the steps that bring a machine up, in the order that KVM demands
- `args`: the command line of the monitor

The program in `app/` talks to KVM, reads the kernel file and prints. It carries
out the requests of `vmm::Vmm` and hands back what came of them.

    naos-linux --kernel vmlinux --mem 256
