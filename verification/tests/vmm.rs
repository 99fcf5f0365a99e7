use naos_linux::boot::BootError;
use naos_linux::memory::{register, MemoryError};
use naos_linux::registers::{DescriptorTable, Segment, SpecialRegisters};
use naos_linux::vcpu::{Action, VcpuExit};
use naos_linux::vmm::{Reply, Request, Vmm, VmmError};

/// An ELF64 image with one segment, `code`, at `addr`, and its entry point
/// there.
fn kernel_image(addr: u64, code: &[u8]) -> Vec<u8> {
    let mut elf = vec![0_u8; 120];
    elf[..7].copy_from_slice(&[0x7F, b'E', b'L', b'F', 2, 1, 1]);
    elf[24..32].copy_from_slice(&addr.to_le_bytes());
    elf[32] = 64;
    elf[54] = 56;
    elf[56] = 1;
    elf[64] = 1;
    elf[72] = 120;
    elf[88..96].copy_from_slice(&addr.to_le_bytes());
    elf[96] = code.len() as u8;
    elf[104] = code.len() as u8;
    elf.extend_from_slice(code);
    elf
}

fn special_registers() -> SpecialRegisters {
    let segment = Segment {
        base: 0,
        limit: 0xFFFF,
        selector: 0xF000,
        type_: 3,
        present: 1,
        dpl: 0,
        db: 0,
        s: 1,
        l: 0,
        g: 0,
        avl: 0,
        unusable: 0,
        padding: 0,
    };
    let table = DescriptorTable {
        base: 0,
        limit: 0xFFFF,
    };
    SpecialRegisters {
        cs: segment,
        ds: segment,
        es: segment,
        fs: segment,
        gs: segment,
        ss: segment,
        tr: segment,
        ldt: segment,
        gdt: table,
        idt: table,
        cr0: 0x6000_0010,
        cr2: 0,
        cr3: 0,
        cr4: 0,
        cr8: 0,
        efer: 0,
        apic_base: 0xFEE0_0900,
        interrupt_bitmap: [0; 4],
    }
}

/// A reply that carries out any request.
fn reply_to(request: Request) -> Reply {
    match request {
        Request::ReadKernel => Reply::Kernel(kernel_image(0x9_0000, &[0xF4])),
        Request::ReadSpecialRegisters => Reply::Registers(special_registers()),
        _ => Reply::Done,
    }
}

/// A monitor that has come to a request.
fn brought_to(target: fn(&Request) -> bool) -> Vmm {
    let mut vmm = Vmm::new(1, "quiet".to_string());
    while !target(&vmm.request()) {
        vmm.advance(reply_to(vmm.request())).unwrap();
    }
    vmm
}

#[test]
fn the_steps_come_in_the_order_that_kvm_demands() {
    let mut vmm = Vmm::new(1, "quiet".to_string());
    let mut steps = Vec::new();
    while !matches!(vmm.request(), Request::Run) {
        steps.push(vmm.request());
        vmm.advance(reply_to(vmm.request())).unwrap();
    }
    assert!(matches!(
        &steps[..],
        [
            Request::OpenKvm,
            Request::CreateVm,
            Request::SetTssAddress(0xFFFB_D000),
            Request::CreateIrqChip,
            Request::RegisterMemory(_),
            Request::OpenKernel,
            Request::ReadKernel,
            Request::CreateVcpu(0),
            Request::QueryCpuid,
            Request::SetCpuid,
            Request::ReadSpecialRegisters,
            Request::WriteSpecialRegisters(_),
            Request::WriteRegisters(_),
        ]
    ));
    let Request::RegisterMemory(region) = steps[4] else {
        unreachable!()
    };
    assert_eq!((region.guest_phys_addr, region.memory_size), (0, 0x10_0000));
    assert_ne!(region.userspace_addr, 0);
}

#[test]
fn registers_start_the_kernel_in_long_mode() {
    let mut vmm = Vmm::new(2, "quiet".to_string());
    while !matches!(vmm.request(), Request::WriteSpecialRegisters(_)) {
        vmm.advance(reply_to(vmm.request())).unwrap();
    }
    let Request::WriteSpecialRegisters(sregs) = vmm.request() else {
        unreachable!()
    };
    assert_eq!(sregs.cr0, 0x8000_0033);
    assert_eq!(sregs.cr3, 0x1000);
    assert_eq!(sregs.cs.l, 1);
    assert_eq!(sregs.apic_base, 0xFEE0_0900);
    vmm.advance(Reply::Done).unwrap();
    let Request::WriteRegisters(regs) = vmm.request() else {
        unreachable!()
    };
    assert_eq!((regs.rip, regs.rsi, regs.rflags), (0x9_0000, 0x7000, 2));
}

#[test]
fn the_guest_runs_on_the_memory_that_was_registered() {
    let mut vmm = Vmm::new(2, "quiet".to_string());
    let mut registered = 0;
    while !matches!(vmm.request(), Request::Run) {
        if let Request::RegisterMemory(region) = vmm.request() {
            registered = region.userspace_addr;
        }
        vmm.advance(reply_to(vmm.request())).unwrap();
    }
    assert_ne!(registered, 0);
    let region = register(vmm.guest_memory().unwrap()).unwrap();
    assert_eq!(region.userspace_addr, registered);
    assert_eq!(region.memory_size, 0x20_0000);

    // A failure leaves the mapping in place too.
    let mut vmm = brought_to(|request| matches!(request, Request::ReadKernel));
    let before = register(vmm.guest_memory().unwrap()).unwrap();
    vmm.advance(Reply::Kernel(Vec::new())).unwrap_err();
    assert_eq!(register(vmm.guest_memory().unwrap()).unwrap(), before);
}

#[test]
fn the_tables_are_there_before_registers_are_read() {
    let vmm = brought_to(|request| matches!(request, Request::ReadSpecialRegisters));
    let mut entry = [0_u8; 8];
    let mem = vmm.guest_memory().unwrap();
    mem.read_slice(&mut entry, 0x1000).unwrap();
    assert_eq!(u64::from_le_bytes(entry), 0x2003);
    mem.read_slice(&mut entry, 0x508).unwrap();
    assert_eq!(u64::from_le_bytes(entry), 0x00AF_9A00_0000_FFFF);
    let vmm = brought_to(|request| matches!(request, Request::SetCpuid));
    vmm.guest_memory().unwrap().read_slice(&mut entry, 0x1000).unwrap();
    assert_eq!(u64::from_le_bytes(entry), 0);
}

#[test]
fn a_guest_that_runs_has_its_kernel_tables_and_command_line() {
    let mut vmm = Vmm::new(2, "console=ttyS0".to_string());
    assert!(vmm.guest_memory().is_none());
    while !matches!(vmm.request(), Request::Run) {
        let reply = match vmm.request() {
            Request::ReadKernel => Reply::Kernel(kernel_image(0x10_0000, b"kernel text")),
            request => reply_to(request),
        };
        vmm.advance(reply).unwrap();
    }
    let mut image = vec![0_u8; 0x20_0000];
    vmm.guest_memory().unwrap().read_slice(&mut image, 0).unwrap();
    let u64_at = |addr: usize| u64::from_le_bytes(image[addr..addr + 8].try_into().unwrap());
    let u32_at = |addr: usize| u32::from_le_bytes(image[addr..addr + 4].try_into().unwrap());
    // The kernel is intact, and nothing else was loaded.
    assert_eq!(&image[0x10_0000..0x10_000B], b"kernel text");
    assert!(image[0x10_000B..].iter().all(|&byte| byte == 0));
    // The tables map the first 2 MiB and the last to themselves.
    assert_eq!((u64_at(0x1000), u64_at(0x2000)), (0x2003, 0x3003));
    assert_eq!((u64_at(0x3000), u64_at(0x3FF8)), (0x83, 0x3FE0_0083));
    assert_eq!((u64_at(0x1008), u64_at(0x2008)), (0, 0));
    // The command line, and the RAM from 1 MiB up.
    let text = u32_at(0x7228) as usize;
    let size = u32_at(0x7238) as usize;
    assert_eq!(&image[text..text + size + 1], b"console=ttyS0\0");
    assert_eq!((u64_at(0x72E4), u64_at(0x72EC)), (0x10_0000, 0x10_0000));
}

#[test]
fn a_guest_prints_and_halts() {
    let mut vmm = brought_to(|request| matches!(request, Request::Run));
    let exit = VcpuExit::IoOut(0x3F8, b"Kernel panic".to_vec());
    assert!(matches!(vmm.run(exit), Ok(Action::Resume)));
    assert_eq!(vmm.take_output(), b"Kernel panic");
    assert_eq!(vmm.take_output(), b"");
    match vmm.run(VcpuExit::IoIn(0x3FD, 1)) {
        Ok(Action::ResumeWith(bytes)) => assert_eq!(bytes, [0x60]),
        other => panic!("{other:?}"),
    }
    let last = VcpuExit::IoOut(0x3F8, b"!".to_vec());
    assert!(matches!(vmm.run(last), Ok(Action::Resume)));
    assert!(matches!(vmm.request(), Request::Run));
    assert!(matches!(vmm.run(VcpuExit::Hlt), Ok(Action::Stop)));
    assert!(matches!(vmm.request(), Request::Quit));
    assert_eq!(vmm.take_output(), b"!");
}

#[test]
fn an_unexpected_exit_ends_the_run() {
    let mut vmm = brought_to(|request| matches!(request, Request::Run));
    let err = vmm.run(VcpuExit::Other("Intr".to_string())).unwrap_err();
    assert_eq!(err.message(), "Unexpected vCPU exit: Intr");
    assert!(matches!(vmm.request(), Request::Quit));
    assert!(vmm.advance(Reply::Done).is_err());
}

#[test]
fn each_failure_of_the_host_has_its_message() {
    let mut messages = Vec::new();
    for step in 0..14 {
        let mut vmm = Vmm::new(1, "quiet".to_string());
        for _ in 0..step {
            vmm.advance(reply_to(vmm.request())).unwrap();
        }
        messages.push(vmm.advance(Reply::Failed).unwrap_err().message());
        // The failure is final: whatever the host replies, nothing goes on.
        for reply in [
            Reply::Done,
            Reply::Kernel(kernel_image(0x9_0000, &[0xF4])),
            Reply::Registers(special_registers()),
            Reply::Failed,
        ] {
            assert!(matches!(vmm.request(), Request::Quit));
            let err = vmm.advance(reply).unwrap_err();
            assert_eq!(err.message(), "The machine was given up");
        }
    }
    assert_eq!(
        messages,
        [
            "Failed to open /dev/kvm",
            "Failed to create VM",
            "Failed to set TSS address",
            "Failed to create in-kernel IRQ chip",
            "KVM_SET_USER_MEMORY_REGION failed",
            "Failed to open kernel file",
            "Failed to load vmlinux ELF",
            "Failed to create vCPU",
            "Failed to query KVM-supported CPUID",
            "Failed to set guest CPUID",
            "Failed to get sregs",
            "Failed to set sregs",
            "Failed to set regs",
            "KVM_RUN failed",
        ]
    );
}

#[test]
fn impossible_memory_sizes_fail_when_memory_is_allocated() {
    for (mem_mib, message) in [
        (1 << 44, "Memory size overflow"),
        (0, "Failed to create guest memory via mmap"),
    ] {
        let mut vmm = Vmm::new(mem_mib, String::new());
        for _ in 0..3 {
            vmm.advance(Reply::Done).unwrap();
        }
        let err = vmm.advance(Reply::Done).unwrap_err();
        assert_eq!(err.message(), message);
        assert!(matches!(err, VmmError::Memory(_)));
        assert!(matches!(vmm.request(), Request::Quit));
    }
    let overflow = VmmError::Memory(MemoryError::SizeOverflow);
    assert_eq!(overflow.message(), "Memory size overflow");
}

#[test]
fn a_kernel_that_cannot_be_loaded_fails() {
    // One MiB of memory has no place for a segment at 1 MiB.
    for image in [
        b"not an ELF binary".to_vec(),
        kernel_image(0x10_0000, &[0xF4; 2]),
    ] {
        let mut vmm = brought_to(|request| matches!(request, Request::ReadKernel));
        let err = vmm.advance(Reply::Kernel(image)).unwrap_err();
        assert!(matches!(err, VmmError::Kernel(_)));
        assert_eq!(err.message(), "Failed to load vmlinux ELF");
        assert!(matches!(vmm.request(), Request::Quit));
    }
}

#[test]
fn a_command_line_that_does_not_fit_fails() {
    for (len, fits) in [(0xE_0000 - 1, true), (0xE_0000, false)] {
        let mut vmm = Vmm::new(1, "x".repeat(len));
        for _ in 0..6 {
            vmm.advance(Reply::Done).unwrap();
        }
        let res = vmm.advance(Reply::Kernel(kernel_image(0x9000, &[0xF4])));
        assert_eq!(res.is_ok(), fits);
        if let Err(err) = res {
            assert!(matches!(err, VmmError::Boot(BootError::CmdlineTerminator(_))));
            assert_eq!(err.message(), "Failed to write cmdline null terminator");
        }
    }
    let mut vmm = Vmm::new(1, "x".repeat(0xE_0001));
    assert!(vmm.records_cmdline());
    for _ in 0..6 {
        vmm.advance(Reply::Done).unwrap();
    }
    let err = vmm
        .advance(Reply::Kernel(kernel_image(0x9000, &[0xF4])))
        .unwrap_err();
    assert!(matches!(err, VmmError::Boot(BootError::Cmdline(_))));
}
