//! The monitor: brings up a virtual machine step by step and runs it.
//!
//! KVM dictates the order of the steps. The monitor knows it and does the work
//! on guest memory; the host carries out its requests on KVM and on the kernel
//! file, and replies.

use crate::boot::{
    cmdline_bytes, entry_registers, long_mode, start_registers, with_gdt, write_boot_params,
    write_cmdline, write_tables, BootError, CMDLINE_ADDR, EXT_RAM_START,
};
use crate::bytes::{u32_at, u64_at};
use crate::kernel::{
    addressable, elf_accepted, law_headers_are_read_by_the_elf_layout, load, loaded, KernelError,
};
use crate::layout::{
    boot_image, in_boot_structures, law_boot_structures_do_not_overlap,
    law_cr3_points_at_the_tables, law_guest_finds_map_and_descriptors,
    law_kernel_finds_its_command_line, law_kernel_trusts_its_parameters, law_other_registers_stay,
    law_rest_of_memory_is_the_kernels, law_starts_in_long_mode, runs_64_bit_code, with_parameters,
};
use crate::memory::{
    build, has_room, keeps_mapping, mapped_at, refused, register, zeroed, GuestMemory, MemoryError,
    MemoryRegion, MIB,
};
use crate::paging::{translate, Translation, GIB};
use crate::registers::{GeneralRegisters, SpecialRegisters};
use crate::serial::{
    create, law_reset_transmits, output_taken, SerialConsole, Uart, NONBLOCKING,
};
use crate::vcpu::{
    decides, law_writes_stop_only_to_reset, run, uart_follows, Action, RunError, VcpuExit,
};
use vmm_sys_util::eventfd::EventFd;
use vstd::prelude::*;
use vstd::utf8::encode_utf8;

verus! {

/// Where KVM may put the task state segment that it needs on Intel CPUs: high
/// up, clear of guest RAM.
pub const TSS_ADDR: u64 = 0xFFFB_D000;

/// What the host has to do next.
#[derive(Debug, Clone, Copy)]
pub enum Request {
    /// Open /dev/kvm.
    OpenKvm,
    /// Create the VM, the container for everything else.
    CreateVm,
    /// Set the address of the TSS.
    SetTssAddress(u64),
    /// Create the interrupt controllers inside KVM.
    CreateIrqChip,
    /// Register guest memory.
    RegisterMemory(MemoryRegion),
    /// Open the kernel file.
    OpenKernel,
    /// Read the kernel file.
    ReadKernel,
    /// Create the vCPU of that index.
    CreateVcpu(u64),
    /// Ask KVM for the CPUID that it supports.
    QueryCpuid,
    /// Give it to the vCPU.
    SetCpuid,
    /// Read the vCPU's special registers.
    ReadSpecialRegisters,
    /// Set the vCPU's special registers.
    WriteSpecialRegisters(SpecialRegisters),
    /// Set the vCPU's general registers.
    WriteRegisters(GeneralRegisters),
    /// Run the vCPU.
    Run,
    /// Give the machine up: it is done, or could not be brought up.
    Quit,
}

/// What came of a request.
#[derive(Debug)]
pub enum Reply {
    /// It was carried out.
    Done,
    /// The bytes of the kernel file.
    Kernel(Vec<u8>),
    /// The vCPU's special registers.
    Registers(SpecialRegisters),
    /// It failed.
    Failed,
}

/// Why the virtual machine could not be brought up.
#[derive(Debug)]
pub enum VmmError {
    /// The host could not carry out a request.
    Host(Request),
    Memory(MemoryError),
    Kernel(KernelError),
    Boot(BootError),
    /// The serial device could not be created.
    Serial(std::io::Error),
}

/// The message for a request that failed.
pub open spec fn failure_text(request: Request) -> Seq<char> {
    match request {
        Request::OpenKvm => "Failed to open /dev/kvm"@,
        Request::CreateVm => "Failed to create VM"@,
        Request::SetTssAddress(_) => "Failed to set TSS address"@,
        Request::CreateIrqChip => "Failed to create in-kernel IRQ chip"@,
        Request::RegisterMemory(_) => "KVM_SET_USER_MEMORY_REGION failed"@,
        Request::OpenKernel => "Failed to open kernel file"@,
        Request::ReadKernel => "Failed to load vmlinux ELF"@,
        Request::CreateVcpu(_) => "Failed to create vCPU"@,
        Request::QueryCpuid => "Failed to query KVM-supported CPUID"@,
        Request::SetCpuid => "Failed to set guest CPUID"@,
        Request::ReadSpecialRegisters => "Failed to get sregs"@,
        Request::WriteSpecialRegisters(_) => "Failed to set sregs"@,
        Request::WriteRegisters(_) => "Failed to set regs"@,
        Request::Run => "KVM_RUN failed"@,
        Request::Quit => "The machine was given up"@,
    }
}

impl VmmError {
    /// The message that goes with the error.
    pub open spec fn text(self) -> Seq<char> {
        match self {
            VmmError::Host(request) => failure_text(request),
            VmmError::Memory(e) => e.text(),
            VmmError::Kernel(e) => e.text(),
            VmmError::Boot(e) => e.text(),
            VmmError::Serial(_) => "Failed to create serial device"@,
        }
    }

    /// The message that goes with the error.
    pub fn message(&self) -> (text: &'static str)
        ensures
            text@ == self.text(),
    {
        match self {
            VmmError::Host(request) => match request {
                Request::OpenKvm => "Failed to open /dev/kvm",
                Request::CreateVm => "Failed to create VM",
                Request::SetTssAddress(_) => "Failed to set TSS address",
                Request::CreateIrqChip => "Failed to create in-kernel IRQ chip",
                Request::RegisterMemory(_) => "KVM_SET_USER_MEMORY_REGION failed",
                Request::OpenKernel => "Failed to open kernel file",
                Request::ReadKernel => "Failed to load vmlinux ELF",
                Request::CreateVcpu(_) => "Failed to create vCPU",
                Request::QueryCpuid => "Failed to query KVM-supported CPUID",
                Request::SetCpuid => "Failed to set guest CPUID",
                Request::ReadSpecialRegisters => "Failed to get sregs",
                Request::WriteSpecialRegisters(_) => "Failed to set sregs",
                Request::WriteRegisters(_) => "Failed to set regs",
                Request::Run => "KVM_RUN failed",
                Request::Quit => "The machine was given up",
            },
            VmmError::Memory(e) => e.message(),
            VmmError::Kernel(e) => e.message(),
            VmmError::Boot(e) => e.message(),
            VmmError::Serial(_) => "Failed to create serial device",
        }
    }
}

/// The place of a request in the order of the steps. That to give up has none.
pub open spec fn rank(request: Request) -> int {
    match request {
        Request::OpenKvm => 0,
        Request::CreateVm => 1,
        Request::SetTssAddress(_) => 2,
        Request::CreateIrqChip => 3,
        Request::RegisterMemory(_) => 4,
        Request::OpenKernel => 5,
        Request::ReadKernel => 6,
        Request::CreateVcpu(_) => 7,
        Request::QueryCpuid => 8,
        Request::SetCpuid => 9,
        Request::ReadSpecialRegisters => 10,
        Request::WriteSpecialRegisters(_) => 11,
        Request::WriteRegisters(_) => 12,
        Request::Run => 13,
        Request::Quit => -1,
    }
}

/// Whether a reply can come to a request: the kernel's bytes and the registers
/// where they are asked for, elsewhere that it is done, and always that it
/// failed. After the end, any reply can come.
pub open spec fn is_reply_to(request: Request, reply: Reply) -> bool {
    request is Quit || match reply {
        Reply::Failed => true,
        Reply::Kernel(_) => request is ReadKernel,
        Reply::Registers(_) => request is ReadSpecialRegisters,
        Reply::Done => !(request is ReadKernel || request is ReadSpecialRegisters || request
            is Run),
    }
}

/// What the monitor knows.
#[verifier::ext_equal]
pub struct VmmState {
    /// The request that the host is to carry out.
    pub request: Request,
    /// The size of guest memory in MiB.
    pub mem_mib: u64,
    /// The kernel's command line.
    pub cmdline: Seq<char>,
    /// Guest memory as the monitor left it, once it is allocated. What a
    /// running guest makes of it is not followed.
    pub memory: Option<Seq<u8>>,
    /// The mapping that holds it.
    pub mapping: Option<GuestMemory>,
    /// The region that the host was asked to register, once it was.
    pub region: Option<MemoryRegion>,
    /// Guest memory as it was when the kernel had just been loaded.
    pub kernel: Seq<u8>,
    /// The kernel's entry point, once it is loaded.
    pub entry_addr: u64,
    /// The serial device, once it is created.
    pub uart: Option<Uart>,
    /// The general registers, once they are computed.
    pub registers: Option<GeneralRegisters>,
    /// The special registers that the host was asked to set, once it was.
    pub special: Option<SpecialRegisters>,
}

impl VmmState {
    /// The size of guest memory in bytes.
    pub open spec fn mem_size(self) -> int {
        self.mem_mib * MIB
    }

    /// Whether the boot parameters can record the length of the command line,
    /// or need not because it does not fit in guest memory.
    pub open spec fn records_cmdline(self) -> bool {
        let len = encode_utf8(self.cmdline).len();
        len <= u32::MAX || self.mem_size() <= CMDLINE_ADDR + len
    }

    /// What holds of the monitor at every step: the structures that the steps
    /// so far have made are there, and memory holds what it should.
    pub open spec fn well_formed(self) -> bool {
        let step = rank(self.request);
        &&& self.request matches Request::SetTssAddress(addr) ==> addr == TSS_ADDR
        &&& self.request matches Request::CreateVcpu(index) ==> index == 0
        &&& self.request matches Request::RegisterMemory(region) ==> self.region == Some(region)
        &&& self.region matches Some(region) ==> {
            &&& step >= 4 || self.request is Quit
            &&& region.slot == 0
            &&& region.flags == 0
            &&& region.guest_phys_addr == 0
            &&& region.memory_size == self.mem_size()
            &&& self.mapping is Some
            &&& mapped_at(self.mapping->Some_0, region.userspace_addr)
        }
        &&& self.request matches Request::WriteRegisters(regs) ==> regs == entry_registers(
            self.entry_addr,
        )
        &&& self.uart is Some ==> self.uart->Some_0.well_formed()
        &&& step >= 4 ==> {
            &&& MIB <= self.mem_size() <= u64::MAX
            &&& self.region is Some
            &&& self.mapping is Some
            &&& self.memory == Some(self.mapping->Some_0@)
            &&& self.memory->Some_0.len() == self.mem_size()
        }
        &&& 4 <= step < 7 ==> self.memory->Some_0 == zeroed(self.mem_size() as nat)
        &&& step >= 7 ==> {
            &&& self.kernel.len() == self.mem_size()
            &&& encode_utf8(self.cmdline).len() <= u32::MAX
            &&& CMDLINE_ADDR + encode_utf8(self.cmdline).len() < self.mem_size()
            &&& self.uart is Some
        }
        &&& 7 <= step < 10 ==> self.memory->Some_0 == with_parameters(
            self.kernel,
            self.cmdline,
            self.mem_size(),
        )
        &&& step >= 10 ==> self.memory->Some_0 == boot_image(
            self.kernel,
            self.cmdline,
            self.mem_size(),
        )
        &&& step >= 11 ==> self.registers == Some(entry_registers(self.entry_addr))
        &&& self.request matches Request::WriteSpecialRegisters(sregs) ==> self.special == Some(
            sregs,
        )
        &&& step >= 11 ==> self.special is Some && exists|sregs: SpecialRegisters|
            self.special->Some_0 == #[trigger] long_mode(sregs)
    }
}

/// The monitor of one virtual machine.
pub struct Vmm {
    request: Request,
    mem_mib: u64,
    cmdline: String,
    guest_mem: Option<GuestMemory>,
    entry_addr: u64,
    serial: Option<SerialConsole>,
    registers: Option<GeneralRegisters>,
    region: Ghost<Option<MemoryRegion>>,
    kernel: Ghost<Seq<u8>>,
    special: Ghost<Option<SpecialRegisters>>,
}

impl View for Vmm {
    type V = VmmState;

    closed spec fn view(&self) -> VmmState {
        VmmState {
            request: self.request,
            mem_mib: self.mem_mib,
            cmdline: self.cmdline@,
            memory: match self.guest_mem {
                Some(mem) => Some(mem@),
                None => None,
            },
            mapping: self.guest_mem,
            region: self.region@,
            kernel: self.kernel@,
            entry_addr: self.entry_addr,
            uart: match self.serial {
                Some(serial) => Some(serial@),
                None => None,
            },
            registers: self.registers,
            special: self.special@,
        }
    }
}

impl Vmm {
    /// A monitor for a guest with `mem_mib` MiB of memory and a kernel command
    /// line. Nothing is done yet.
    pub fn new(mem_mib: u64, cmdline: String) -> (vmm: Vmm)
        ensures
            vmm@.well_formed(),
            vmm@.request is OpenKvm,
            vmm@.mem_mib == mem_mib,
            vmm@.cmdline == cmdline@,
            vmm@.memory is None,
            vmm@.mapping is None,
            vmm@.region is None,
            vmm@.uart is None,
            vmm@.registers is None,
            vmm@.special is None,
    {
        Vmm {
            request: Request::OpenKvm,
            mem_mib,
            cmdline,
            guest_mem: None,
            entry_addr: 0,
            serial: None,
            registers: None,
            region: Ghost(None),
            kernel: Ghost(Seq::empty()),
            special: Ghost(None),
        }
    }

    /// What the host has to do next.
    pub fn request(&self) -> (request: Request)
        ensures
            request == self@.request,
    {
        self.request
    }

    /// Whether the boot parameters can record the length of the command line,
    /// or need not because it does not fit in guest memory.
    pub fn records_cmdline(&self) -> (res: bool)
        ensures
            res == self@.records_cmdline(),
    {
        let len: u128 = self.cmdline.as_str().as_bytes().len() as u128;
        let mem_size: u128 = self.mem_mib as u128 * MIB as u128;
        len <= u32::MAX as u128 || mem_size <= CMDLINE_ADDR as u128 + len
    }

    /// Guest memory, once it is allocated. A guest that runs changes it, which
    /// the contracts of this value do not follow.
    pub fn guest_memory(&self) -> (guest_mem: Option<&GuestMemory>)
        ensures
            match guest_mem {
                Some(guest_mem) => self@.mapping == Some(*guest_mem) && self@.memory == Some(
                    guest_mem@,
                ),
                None => self@.mapping is None && self@.memory is None,
            },
    {
        match &self.guest_mem {
            Some(guest_mem) => Some(guest_mem),
            None => None,
        }
    }

    /// Allocates guest memory and asks for it to be registered.
    fn allocate_memory(&mut self) -> (res: Result<(), VmmError>)
        requires
            old(self)@.well_formed(),
            old(self)@.request is CreateIrqChip,
        ensures
            final(self)@.well_formed(),
            memory_allocated(old(self)@, final(self)@, res),
    {
        let guest_mem = match build(self.mem_mib) {
            Ok(guest_mem) => guest_mem,
            Err(e) => {
                self.request = Request::Quit;
                return Err(VmmError::Memory(e));
            },
        };
        let region = match register(&guest_mem) {
            Ok(region) => region,
            Err(e) => {
                self.request = Request::Quit;
                return Err(VmmError::Memory(e));
            },
        };
        self.guest_mem = Some(guest_mem);
        self.region = Ghost(Some(region));
        self.request = Request::RegisterMemory(region);
        Ok(())
    }

    /// Loads the kernel, writes its command line and parameters, creates the
    /// serial device, and asks for the vCPU to be created.
    fn install_kernel(&mut self, image: Vec<u8>) -> (res: Result<(), VmmError>)
        requires
            old(self)@.well_formed(),
            old(self)@.request is ReadKernel,
            old(self)@.records_cmdline(),
        ensures
            final(self)@.well_formed(),
            kernel_installed(old(self)@, image@, final(self)@, res),
    {
        let mem_size: u64 = self.mem_mib * MIB;
        let mut guest_mem = self.guest_mem.take().unwrap();
        self.request = Request::Quit;
        let loading = load(&mut guest_mem, image.as_slice());
        let ghost kernel = guest_mem@;
        let entry_addr: u64 = match loading {
            Ok(entry_addr) => entry_addr,
            Err(e) => {
                self.guest_mem = Some(guest_mem);
                return Err(VmmError::Kernel(e));
            },
        };
        match write_cmdline(&mut guest_mem, self.cmdline.as_str()) {
            Ok(()) => {},
            Err(e) => {
                self.guest_mem = Some(guest_mem);
                return Err(VmmError::Boot(e));
            },
        }
        match write_boot_params(&mut guest_mem, self.cmdline.as_str(), mem_size) {
            Ok(()) => {},
            Err(e) => {
                self.guest_mem = Some(guest_mem);
                return Err(VmmError::Boot(e));
            },
        }
        self.guest_mem = Some(guest_mem);
        let serial = match create() {
            Ok(serial) => serial,
            Err(e) => return Err(VmmError::Serial(e)),
        };
        self.serial = Some(serial);
        self.entry_addr = entry_addr;
        self.kernel = Ghost(kernel);
        self.request = Request::CreateVcpu(0);
        Ok(())
    }

    /// Writes the tables for 64-bit long mode into guest memory, and asks for
    /// the vCPU's special registers.
    fn prepare_tables(&mut self) -> (res: Result<(), VmmError>)
        requires
            old(self)@.well_formed(),
            old(self)@.request is SetCpuid,
        ensures
            final(self)@.well_formed(),
            tables_prepared(old(self)@, final(self)@, res),
    {
        let mut guest_mem = self.guest_mem.take().unwrap();
        let written = write_tables(&mut guest_mem);
        self.guest_mem = Some(guest_mem);
        match written {
            Ok(()) => {
                self.request = Request::ReadSpecialRegisters;
                Ok(())
            },
            Err(e) => {
                self.request = Request::Quit;
                Err(VmmError::Boot(e))
            },
        }
    }

    /// Computes the registers for 64-bit long mode, and asks for them to be set.
    fn configure_vcpu(&mut self, sregs: SpecialRegisters)
        requires
            old(self)@.well_formed(),
            old(self)@.request is ReadSpecialRegisters,
        ensures
            final(self)@.well_formed(),
            vcpu_configured(old(self)@, sregs, final(self)@),
    {
        let (sregs, regs) = start_registers(sregs, self.entry_addr);
        self.registers = Some(regs);
        self.special = Ghost(Some(sregs));
        self.request = Request::WriteSpecialRegisters(sregs);
    }

    /// Goes on after the host carried out the request.
    fn proceed(&mut self) -> (res: Result<(), VmmError>)
        requires
            old(self)@.well_formed(),
            !(old(self)@.request is Quit),
            is_reply_to(old(self)@.request, Reply::Done),
        ensures
            final(self)@.well_formed(),
            proceeded(old(self)@, final(self)@, res),
    {
        self.request = match self.request {
            Request::OpenKvm => Request::CreateVm,
            Request::CreateVm => Request::SetTssAddress(TSS_ADDR),
            Request::SetTssAddress(_) => Request::CreateIrqChip,
            Request::CreateIrqChip => return self.allocate_memory(),
            Request::RegisterMemory(_) => Request::OpenKernel,
            Request::OpenKernel => Request::ReadKernel,
            Request::CreateVcpu(_) => Request::QueryCpuid,
            Request::QueryCpuid => Request::SetCpuid,
            Request::SetCpuid => return self.prepare_tables(),
            Request::WriteSpecialRegisters(_) => Request::WriteRegisters(self.registers.unwrap()),
            Request::WriteRegisters(_) => Request::Run,
            Request::ReadKernel
            | Request::ReadSpecialRegisters
            | Request::Run
            | Request::Quit => self.request,
        };
        Ok(())
    }

    /// Takes the host's reply to the request and goes on to the next one. Where
    /// the host failed, or the monitor's own part of the step did, the machine
    /// is given up: no later step is asked for, and further replies fail.
    pub fn advance(&mut self, reply: Reply) -> (res: Result<(), VmmError>)
        requires
            old(self)@.well_formed(),
            is_reply_to(old(self)@.request, reply),
            old(self)@.request is ReadKernel && reply is Kernel ==> old(self)@.records_cmdline(),
        ensures
            final(self)@.well_formed(),
            advanced(old(self)@, reply, final(self)@, res),
    {
        let request = self.request;
        match (request, reply) {
            (Request::Quit, _) => Err(VmmError::Host(Request::Quit)),
            (_, Reply::Failed) => {
                self.request = Request::Quit;
                Err(VmmError::Host(request))
            },
            (_, Reply::Done) => self.proceed(),
            (_, Reply::Kernel(image)) => self.install_kernel(image),
            (_, Reply::Registers(sregs)) => {
                self.configure_vcpu(sregs);
                Ok(())
            },
        }
    }

    /// One turn of the run loop, once the machine is up: decides what to do
    /// about an exit of the vCPU. After the exit that ends the run, cleanly or
    /// with an error, the machine is given up.
    pub fn run(&mut self, exit: VcpuExit) -> (res: Result<Action, RunError>)
        requires
            old(self)@.well_formed(),
            old(self)@.request is Run,
        ensures
            final(self)@.well_formed(),
            final(self)@ == (VmmState {
                request: if res is Err || res->Ok_0 is Stop {
                    Request::Quit
                } else {
                    Request::Run
                },
                uart: final(self)@.uart,
                ..old(self)@
            }),
            final(self)@.uart is Some,
            uart_follows(old(self)@.uart->Some_0, exit, final(self)@.uart->Some_0),
            decides(old(self)@.uart->Some_0, exit, res),
            ran(old(self)@, exit, final(self)@, res),
    {
        let mut serial = self.serial.take().unwrap();
        let decision = run(&mut serial, exit);
        self.serial = Some(serial);
        match &decision {
            Ok(Action::Resume) => {},
            Ok(Action::ResumeWith(_)) => {},
            Ok(Action::Stop) => self.request = Request::Quit,
            Err(_) => self.request = Request::Quit,
        }
        decision
    }

    /// Takes what the guest has printed since the last time.
    pub fn take_output(&mut self) -> (output: Vec<u8>)
        requires
            old(self)@.well_formed(),
            old(self)@.uart is Some,
        ensures
            final(self)@.well_formed(),
            output@ == old(self)@.uart->Some_0.sent,
            final(self)@ == (VmmState {
                uart: Some(Uart { sent: Seq::empty(), ..old(self)@.uart->Some_0 }),
                ..old(self)@
            }),
            output_taken(old(self)@.uart->Some_0, output@, final(self)@.uart->Some_0),
    {
        let mut serial = self.serial.take().unwrap();
        let output = serial.take_output();
        self.serial = Some(serial);
        output
    }
}

/// What the monitor makes of the host's reply. A step either succeeds and the
/// next one is asked for, or fails and the machine is given up.
pub open spec fn advanced(
    before: VmmState,
    reply: Reply,
    after: VmmState,
    res: Result<(), VmmError>,
) -> bool {
    &&& res is Ok ==> rank(after.request) == rank(before.request) + 1
    &&& res is Err ==> after.request is Quit
    &&& if before.request is Quit || reply is Failed {
        &&& res == Err::<(), VmmError>(VmmError::Host(before.request))
        &&& after == (VmmState { request: Request::Quit, ..before })
    } else {
        match reply {
            Reply::Failed => true,
            Reply::Done => proceeded(before, after, res),
            Reply::Kernel(image) => kernel_installed(before, image@, after, res),
            Reply::Registers(sregs) => res is Ok && vcpu_configured(before, sregs, after),
        }
    }
}

/// What the monitor does once the host has carried out a request that has no
/// result.
pub open spec fn proceeded(before: VmmState, after: VmmState, res: Result<(), VmmError>) -> bool {
    if before.request is CreateIrqChip {
        memory_allocated(before, after, res)
    } else if before.request is SetCpuid {
        tables_prepared(before, after, res)
    } else {
        &&& res is Ok
        &&& rank(after.request) == rank(before.request) + 1
        &&& after == (VmmState { request: after.request, ..before })
    }
}

/// What allocating guest memory does to the monitor.
pub open spec fn memory_allocated(
    before: VmmState,
    after: VmmState,
    res: Result<(), VmmError>,
) -> bool {
    &&& match res {
        Ok(()) => {
            &&& after.request matches Request::RegisterMemory(region)
            &&& after.mapping is Some
            &&& mapped_at(after.mapping->Some_0, region.userspace_addr)
            &&& after == (VmmState {
                request: after.request,
                memory: Some(zeroed(before.mem_size() as nat)),
                mapping: after.mapping,
                region: Some(region),
                ..before
            })
        },
        Err(e) => e is Memory && after == (VmmState { request: Request::Quit, ..before }),
    }
    &&& res is Err && res->Err_0->Memory_0 is SizeOverflow <==> before.mem_size() > u64::MAX
    &&& res is Err && res->Err_0->Memory_0 is SizeExceedsUsize <==> usize::MAX < before.mem_size()
        <= u64::MAX
    &&& res matches Err(VmmError::Memory(MemoryError::Mmap(cause))) ==> refused(
        before.mem_size() as usize,
        cause,
    )
    &&& res is Err ==> !(res->Err_0->Memory_0 is NoRegions)
    &&& before.mem_mib == 0 ==> res is Err
}

/// What installing the kernel does to the monitor. It is loaded first; then the
/// command line has to fit, with its terminator; then there has to be a serial
/// device.
pub open spec fn kernel_installed(
    before: VmmState,
    image: Seq<u8>,
    after: VmmState,
    res: Result<(), VmmError>,
) -> bool {
    let memory = before.memory->Some_0;
    let text = encode_utf8(before.cmdline);
    &&& after.mapping is Some
    &&& keeps_mapping(before.mapping->Some_0, after.mapping->Some_0)
    &&& match res {
        Ok(()) => {
            &&& after.request is CreateVcpu
            &&& loaded(memory, image, after.kernel, Some(after.entry_addr))
            &&& after.uart is Some
            &&& after.uart->Some_0 == Uart::reset(after.uart->Some_0.interrupt)
            &&& call_ensures(EventFd::new, (NONBLOCKING,), Ok(after.uart->Some_0.interrupt))
            &&& after == (VmmState {
                request: after.request,
                memory: Some(with_parameters(after.kernel, before.cmdline, before.mem_size())),
                mapping: after.mapping,
                kernel: after.kernel,
                entry_addr: after.entry_addr,
                uart: after.uart,
                ..before
            })
        },
        Err(_) => after == (VmmState {
            request: Request::Quit,
            memory: after.memory,
            mapping: after.mapping,
            ..before
        }),
    }
    &&& addressable(image) ==> (res is Err && res->Err_0 is Kernel <==> !elf_accepted(
        memory.len(),
        image,
    ))
    &&& res matches Err(VmmError::Kernel(_)) ==> after.memory is Some && loaded(
        memory,
        image,
        after.memory->Some_0,
        None,
    )
    &&& match res {
        // The command line and its terminator fit.
        Ok(()) => CMDLINE_ADDR + text.len() < memory.len(),
        Err(VmmError::Kernel(_)) => true,
        Err(VmmError::Boot(BootError::Cmdline(_))) => !has_room(memory, CMDLINE_ADDR as int, text),
        Err(VmmError::Boot(BootError::CmdlineTerminator(_))) => {
            &&& has_room(memory, CMDLINE_ADDR as int, text)
            &&& memory.len() <= CMDLINE_ADDR + text.len()
        },
        Err(VmmError::Serial(e)) => {
            &&& CMDLINE_ADDR + text.len() < memory.len()
            &&& call_ensures(EventFd::new, (NONBLOCKING,), Err(e))
        },
        Err(_) => false,
    }
}

/// What preparing the tables does to the monitor. It cannot fail: guest memory
/// has room for them.
pub open spec fn tables_prepared(
    before: VmmState,
    after: VmmState,
    res: Result<(), VmmError>,
) -> bool {
    &&& res is Ok
    &&& after.mapping is Some
    &&& keeps_mapping(before.mapping->Some_0, after.mapping->Some_0)
    &&& after == (VmmState {
        request: Request::ReadSpecialRegisters,
        memory: Some(boot_image(before.kernel, before.cmdline, before.mem_size())),
        mapping: after.mapping,
        ..before
    })
}

/// What configuring the vCPU does to the monitor.
pub open spec fn vcpu_configured(
    before: VmmState,
    sregs: SpecialRegisters,
    after: VmmState,
) -> bool {
    after == (VmmState {
        request: Request::WriteSpecialRegisters(long_mode(sregs)),
        registers: Some(entry_registers(before.entry_addr)),
        special: Some(long_mode(sregs)),
        ..before
    })
}

/// What one turn of the run loop does to the monitor.
pub open spec fn ran(
    before: VmmState,
    exit: VcpuExit,
    after: VmmState,
    res: Result<Action, RunError>,
) -> bool {
    &&& after.uart is Some
    &&& uart_follows(before.uart->Some_0, exit, after.uart->Some_0)
    &&& decides(before.uart->Some_0, exit, res)
    &&& after == (VmmState {
        request: if res is Err || res->Ok_0 is Stop {
            Request::Quit
        } else {
            Request::Run
        },
        uart: after.uart,
        ..before
    })
}

/// The machine runs on if and only if the guest does port I/O that asks for no
/// reset. It is given up for good with HLT, with a shutdown, with a reset, and
/// with any exit that nothing handles. Either way, only the serial device can
/// have changed.
pub proof fn law_run_goes_on_until_the_guest_ends_it(
    before: VmmState,
    exit: VcpuExit,
    after: VmmState,
    res: Result<Action, RunError>,
)
    requires
        before.well_formed(),
        before.request is Run,
        ran(before, exit, after, res),
    ensures
        after.request is Run || after.request is Quit,
        exit is IoIn ==> after.request is Run,
        exit matches VcpuExit::IoOut(port, data) ==> (after.request is Quit <==> data@.len() > 0 && (
        port == 0x64 && data@[0] == 0xFE || port == 0xCF9 && data@[0] & 4 != 0)),
        exit is Hlt || exit is Shutdown || exit is Other ==> after.request is Quit,
        res is Err <==> exit is Other,
        after == (VmmState { request: after.request, uart: after.uart, ..before }),
        exit is Hlt || exit is Shutdown || exit is Other ==> after.uart == before.uart,
{
    if let VcpuExit::IoOut(port, data) = exit {
        law_writes_stop_only_to_reset(before.uart->Some_0, port, data, res);
    }
}

/// Every failure is final. After one, every reply fails and changes nothing, so
/// that no later step is asked for and the guest never runs.
pub proof fn law_failure_is_final(
    first: VmmState,
    failing: Reply,
    second: VmmState,
    failure: Result<(), VmmError>,
    later: Reply,
    third: VmmState,
    res: Result<(), VmmError>,
)
    requires
        advanced(first, failing, second, failure),
        failure is Err,
        advanced(second, later, third, res),
    ensures
        second.request is Quit,
        res is Err,
        third == second,
{
    assert(third =~= second);
}

/// Whether a series of requests is one that a monitor makes, without failures:
/// each is the next in order, from the first on.
pub open spec fn is_setup(requests: Seq<Request>) -> bool {
    &&& requests.len() > 0 ==> requests[0] is OpenKvm
    &&& forall|i: int|
        0 <= i && i + 1 < requests.len() ==> rank(#[trigger] requests[i + 1]) == rank(requests[i])
            + 1
}

/// The steps come in the order that KVM demands. The VM comes before all else
/// that is done on it. Memory is registered before the kernel is read. The vCPU
/// is created after the TSS address is set, the interrupt controllers are there
/// and the kernel is read; it runs after its CPUID and all its registers are
/// set.
pub proof fn law_setup_order(requests: Seq<Request>, k: int)
    requires
        is_setup(requests),
        0 <= k < requests.len(),
    ensures
        rank(requests[k]) == k,
        k >= 1 ==> requests[1] is CreateVm,
        requests[k] is CreateVcpu ==> {
            &&& requests[k - 5] is SetTssAddress
            &&& requests[k - 4] is CreateIrqChip
            &&& requests[k - 3] is RegisterMemory
            &&& requests[k - 1] is ReadKernel
        },
        requests[k] is ReadKernel ==> requests[k - 2] is RegisterMemory,
        requests[k] is Run ==> {
            &&& requests[k - 6] is CreateVcpu
            &&& requests[k - 4] is SetCpuid
            &&& requests[k - 2] is WriteSpecialRegisters
            &&& requests[k - 1] is WriteRegisters
        },
{
    lemma_ranks(requests, k);
    assert forall|j: int| 0 <= j <= k implies rank(#[trigger] requests[j]) == j by {
        lemma_ranks(requests, j);
    }
}

/// In a series of requests, the place of a request is its rank.
proof fn lemma_ranks(requests: Seq<Request>, k: int)
    requires
        is_setup(requests),
        0 <= k < requests.len(),
    ensures
        rank(requests[k]) == k,
    decreases k,
{
    if k > 0 {
        lemma_ranks(requests, k - 1);
        assert(requests[(k - 1) + 1] == requests[k]);
    }
}

/// The memory that a monitor ready to run has filled is the memory that it asked
/// to register: all of guest RAM, as slot 0 at guest address 0, and the host has
/// it at the address that was registered.
pub proof fn law_guest_runs_on_the_registered_memory(state: VmmState)
    requires
        state.well_formed(),
        state.request is Run,
    ensures
        ({
            let region = state.region->Some_0;
            &&& state.region is Some
            &&& region.slot == 0
            &&& region.guest_phys_addr == 0
            &&& region.memory_size == state.mem_size()
            &&& mapped_at(state.mapping->Some_0, region.userspace_addr)
            &&& state.mapping->Some_0@ == boot_image(
                state.kernel,
                state.cmdline,
                state.mem_size(),
            )
        }),
{
}

/// Once memory is registered, its mapping is neither replaced nor given back,
/// whatever the host replies and whether or not a step fails: KVM refers to it.
pub proof fn law_registered_memory_stays(
    before: VmmState,
    reply: Reply,
    after: VmmState,
    res: Result<(), VmmError>,
)
    requires
        before.well_formed(),
        before.region is Some,
        advanced(before, reply, after, res),
        is_reply_to(before.request, reply),
    ensures
        after.region == before.region,
        after.mapping is Some,
        keeps_mapping(before.mapping->Some_0, after.mapping->Some_0),
{
    if before.request is Quit || reply is Failed {
        assert(after.mapping == before.mapping);
    } else if reply is Done {
        assert(proceeded(before, after, res));
        if !(before.request is SetCpuid) {
            assert(after.mapping == before.mapping);
        }
    } else if reply is Registers {
        assert(after.mapping == before.mapping);
    }
}

/// A monitor that is ready to run has a guest that can start: through the CR3
/// that the host was asked to set, the first GiB of memory is mapped to itself;
/// the vCPU is in long mode; RIP is the kernel's entry point; and from RSI the
/// kernel finds a loader type and its command line.
pub proof fn law_guest_can_start(state: VmmState, virt: int)
    requires
        state.well_formed(),
        state.request is Run,
        0 <= virt < GIB,
    ensures
        state.special is Some,
        ({
            let memory = state.memory->Some_0;
            let regs = state.registers->Some_0;
            let sregs = state.special->Some_0;
            let text = u32_at(memory, regs.rsi + 0x228);
            let len = u32_at(memory, regs.rsi + 0x238);
            &&& translate(memory, sregs.cr3 as int, virt) == Some(
                Translation { addr: virt, writable: true },
            )
            &&& runs_64_bit_code(sregs)
            &&& regs.rip == state.entry_addr
            &&& regs.rsi == 0x7000
            &&& regs.rflags == 2
            &&& memory[regs.rsi + 0x210] == 0xFF
            &&& memory.subrange(text, text + len) == encode_utf8(state.cmdline)
            &&& memory[text + len] == 0
        }),
{
    let parameters = with_parameters(state.kernel, state.cmdline, state.mem_size());
    let sregs = choose|sregs: SpecialRegisters|
        state.special->Some_0 == #[trigger] long_mode(sregs);
    law_starts_in_long_mode(sregs);
    law_cr3_points_at_the_tables(with_gdt(parameters), sregs, virt);
    law_kernel_trusts_its_parameters(
        state.kernel,
        state.cmdline,
        state.mem_size(),
        state.entry_addr,
    );
    law_kernel_finds_its_command_line(
        state.kernel,
        state.cmdline,
        state.mem_size(),
        state.entry_addr,
    );
}

/// A guest that can start finds its memory map and its descriptors, for the
/// memory that it was given, and the kernel everywhere else: outside the boot
/// structures every byte is the one that loading the kernel left.
pub proof fn law_guest_finds_its_environment(state: VmmState, addr: int)
    requires
        state.well_formed(),
        state.request is Run,
        0 <= addr < state.mem_mib * 0x10_0000,
        !(0x500 <= addr < 0x518),
        !(0x1000 <= addr < 0x1008),
        !(0x2000 <= addr < 0x2008),
        !(0x3000 <= addr < 0x4000),
        !(0x7000 <= addr < 0x8000),
        !(0x2_0000 <= addr <= 0x2_0000 + encode_utf8(state.cmdline).len()),
    ensures
        ({
            let memory = state.memory->Some_0;
            &&& memory.len() == state.mem_mib * 0x10_0000
            &&& memory[0x71E8] == 2
            &&& u64_at(memory, 0x72D0) == 0
            &&& u64_at(memory, 0x72D8) == 0xA_0000
            &&& u64_at(memory, 0x72E4) == 0x10_0000
            &&& u64_at(memory, 0x72E4) + u64_at(memory, 0x72EC) == memory.len()
            &&& u64_at(memory, 0x508) == 0x00AF_9A00_0000_FFFF
            &&& u64_at(memory, 0x510) == 0x00CF_9200_0000_FFFF
            &&& memory[addr] == state.kernel[addr]
        }),
{
    law_guest_finds_map_and_descriptors(state.kernel, state.cmdline, state.mem_size());
    law_rest_of_memory_is_the_kernels(state.kernel, state.cmdline, state.mem_size(), addr);
}

/// The special registers that are asked for are right whatever the vCPU had:
/// the CR3 among them points at the tables that are in memory, and the registers
/// that long mode has no part in are the ones that came.
pub proof fn law_requested_registers_use_the_tables(
    before: VmmState,
    sregs: SpecialRegisters,
    after: VmmState,
    res: Result<(), VmmError>,
    virt: int,
)
    requires
        before.well_formed(),
        before.request is ReadSpecialRegisters,
        advanced(before, Reply::Registers(sregs), after, res),
        0 <= virt < GIB,
    ensures
        res is Ok,
        after.request matches Request::WriteSpecialRegisters(requested) && {
            &&& translate(after.memory->Some_0, requested.cr3 as int, virt) == Some(
                Translation { addr: virt, writable: true },
            )
            &&& runs_64_bit_code(requested)
            &&& requested.tr == sregs.tr
            &&& requested.ldt == sregs.ldt
            &&& requested.idt == sregs.idt
            &&& requested.cr2 == sregs.cr2
            &&& requested.cr8 == sregs.cr8
            &&& requested.apic_base == sregs.apic_base
            &&& requested.interrupt_bitmap == sregs.interrupt_bitmap
        },
{
    let parameters = with_parameters(before.kernel, before.cmdline, before.mem_size());
    law_starts_in_long_mode(sregs);
    law_other_registers_stay(sregs);
    law_cr3_points_at_the_tables(with_gdt(parameters), sregs, virt);
}

/// What a request carries: the TSS goes to 0xFFFB_D000, the one vCPU has index
/// 0, all of memory is registered as RAM in slot 0 from guest address 0, and the
/// vCPU starts at the kernel's entry point with RSI at the boot parameters.
pub proof fn law_requests_carry_what_kvm_needs(state: VmmState)
    requires
        state.well_formed(),
    ensures
        state.request matches Request::SetTssAddress(addr) ==> addr == 0xFFFB_D000,
        state.request matches Request::CreateVcpu(index) ==> index == 0,
        state.request matches Request::RegisterMemory(region) ==> {
            &&& region.slot == 0
            &&& region.flags == 0
            &&& region.guest_phys_addr == 0
            &&& region.memory_size == state.mem_mib * 0x10_0000
            &&& region.memory_size == state.memory->Some_0.len()
            &&& mapped_at(state.mapping->Some_0, region.userspace_addr)
        },
        state.request matches Request::WriteSpecialRegisters(sregs) ==> sregs.cr3 == 0x1000,
        state.request matches Request::WriteRegisters(regs) ==> {
            &&& regs.rip == state.entry_addr
            &&& regs.rsi == 0x7000
            &&& regs.rflags == 2
        },
{
}

/// Each step that succeeds leads to the next: from opening KVM over the VM, its
/// TSS, its interrupt controllers and its memory to the kernel, and from the
/// vCPU over its CPUID and registers to the run.
pub proof fn law_each_step_leads_to_the_next(
    before: VmmState,
    reply: Reply,
    after: VmmState,
    res: Result<(), VmmError>,
)
    requires
        advanced(before, reply, after, res),
        res is Ok,
    ensures
        match before.request {
            Request::OpenKvm => after.request is CreateVm,
            Request::CreateVm => after.request is SetTssAddress,
            Request::SetTssAddress(_) => after.request is CreateIrqChip,
            Request::CreateIrqChip => after.request is RegisterMemory,
            Request::RegisterMemory(_) => after.request is OpenKernel,
            Request::OpenKernel => after.request is ReadKernel,
            Request::ReadKernel => after.request is CreateVcpu,
            Request::CreateVcpu(_) => after.request is QueryCpuid,
            Request::QueryCpuid => after.request is SetCpuid,
            Request::SetCpuid => after.request is ReadSpecialRegisters,
            Request::ReadSpecialRegisters => after.request is WriteSpecialRegisters,
            Request::WriteSpecialRegisters(_) => after.request is WriteRegisters,
            Request::WriteRegisters(_) => after.request is Run,
            Request::Run | Request::Quit => false,
        },
{
}

/// A request that failed on the host fails the step with that request as the
/// reason, and changes nothing but that the machine is given up. A request that
/// was carried out does not fail the step, unless memory cannot be allocated or
/// the kernel not be installed then.
pub proof fn law_host_decides_success(
    before: VmmState,
    reply: Reply,
    after: VmmState,
    res: Result<(), VmmError>,
)
    requires
        advanced(before, reply, after, res),
        !(before.request is Quit),
    ensures
        reply is Failed ==> {
            &&& res == Err::<(), VmmError>(VmmError::Host(before.request))
            &&& after == (VmmState { request: Request::Quit, ..before })
        },
        res matches Err(VmmError::Host(_)) ==> reply is Failed,
        reply is Registers ==> res is Ok,
        reply is Done && !(before.request is CreateIrqChip) ==> res is Ok,
        res is Err ==> after.request is Quit,
{
}

/// No step changes what the guest was to get: the size of its memory and its
/// command line stay. Memory is changed only by its allocation, by installing
/// the kernel and by preparing the tables; the kernel's entry point and the
/// serial device come with the kernel and stay.
pub proof fn law_steps_keep_what_is_settled(
    before: VmmState,
    reply: Reply,
    after: VmmState,
    res: Result<(), VmmError>,
)
    requires
        advanced(before, reply, after, res),
        is_reply_to(before.request, reply),
    ensures
        after.mem_mib == before.mem_mib,
        after.cmdline == before.cmdline,
        before.request is CreateIrqChip || before.request is ReadKernel || before.request
            is SetCpuid || after.memory == before.memory,
        before.request is ReadKernel || after.uart == before.uart,
        before.request is ReadKernel || after.kernel == before.kernel,
        before.request is ReadKernel || after.entry_addr == before.entry_addr,
        before.request is ReadSpecialRegisters || after.registers == before.registers,
        before.request is ReadSpecialRegisters || after.special == before.special,
{
    if !(before.request is Quit || reply is Failed) && reply is Done {
        assert(proceeded(before, after, res));
    }
}

/// Guest memory is as large as was asked for, in MiB, and zero; what cannot be
/// counted in 64 bits is refused for that reason and no other size is, and a
/// guest without memory is refused.
pub proof fn law_memory_has_the_size_asked_for(
    before: VmmState,
    after: VmmState,
    res: Result<(), VmmError>,
    addr: int,
)
    requires
        before.request is CreateIrqChip,
        advanced(before, Reply::Done, after, res),
    ensures
        res is Ok ==> {
            &&& after.memory is Some
            &&& after.memory->Some_0.len() == before.mem_mib * 0x10_0000
            &&& 0 <= addr < before.mem_mib * 0x10_0000 ==> after.memory->Some_0[addr] == 0
        },
        res matches Err(e) ==> e is Memory,
        (res matches Err(VmmError::Memory(MemoryError::SizeOverflow))) <==> before.mem_mib
            >= 0x1000_0000_0000,
        before.mem_mib == 0 ==> res is Err,
{
    assert(proceeded(before, after, res));
}

/// Installing a kernel succeeds only with a command line that fits in memory
/// with its terminator. Then the kernel starts where its ELF header says, and
/// the vCPU is asked for. A command line that does not fit is reported as such,
/// and only if the kernel was loaded.
pub proof fn law_kernel_needs_its_command_line(
    before: VmmState,
    image: Vec<u8>,
    after: VmmState,
    res: Result<(), VmmError>,
)
    requires
        before.well_formed(),
        before.request is ReadKernel,
        advanced(before, Reply::Kernel(image), after, res),
    ensures
        ({
            let end = 0x2_0000 + encode_utf8(before.cmdline).len();
            let size = before.mem_mib * 0x10_0000;
            &&& res is Ok ==> end < size
            &&& res is Ok ==> after.entry_addr == u64_at(image@, 24)
            &&& res is Ok ==> after.uart is Some && after.uart->Some_0.transmits()
            &&& res is Ok ==> after.uart->Some_0.sent.len() == 0
            &&& (res matches Err(VmmError::Boot(_))) ==> size <= end
            &&& (res matches Err(VmmError::Serial(_))) ==> end < size
            &&& addressable(image@) && elf_accepted(size as nat, image@) ==> !(res matches Err(
                VmmError::Kernel(_),
            ))
            &&& addressable(image@) && !elf_accepted(size as nat, image@) ==> (res matches Err(
                VmmError::Kernel(_),
            ))
            &&& addressable(image@) && elf_accepted(size as nat, image@) && size <= end ==> (
            res matches Err(VmmError::Boot(_)))
        }),
{
    if res is Ok {
        law_reset_transmits(after.uart->Some_0.interrupt);
        law_headers_are_read_by_the_elf_layout(image@, 0);
    }
}

/// Whether the length of the command line can be recorded is a matter of 32
/// bits, and does not matter if guest memory ends before the command line does.
pub proof fn law_long_command_lines(state: VmmState)
    ensures
        ({
            let len = encode_utf8(state.cmdline).len();
            state.records_cmdline() <==> len <= 0xFFFF_FFFF || state.mem_mib * 0x10_0000 <= 0x2_0000
                + len
        }),
{
}

/// The host can always report a failure, and otherwise answers what it was asked
/// for: the kernel's bytes, the vCPU's registers, or that it is done.
pub proof fn law_every_request_can_be_answered(
    request: Request,
    kernel: Vec<u8>,
    sregs: SpecialRegisters,
)
    ensures
        is_reply_to(request, Reply::Failed),
        request is Quit || (is_reply_to(request, Reply::Kernel(kernel)) <==> request is ReadKernel),
        request is Quit || (is_reply_to(request, Reply::Registers(sregs)) <==> request
            is ReadSpecialRegisters),
        request is Quit || (is_reply_to(request, Reply::Done) <==> !(request is ReadKernel
            || request is ReadSpecialRegisters || request is Run)),
        request is Quit ==> is_reply_to(request, Reply::Done) && is_reply_to(
            request,
            Reply::Kernel(kernel),
        ) && is_reply_to(request, Reply::Registers(sregs)),
{
}

/// An error passes on the message of what went wrong.
pub proof fn law_errors_pass_on_their_message(
    request: Request,
    memory: MemoryError,
    kernel: KernelError,
    boot: BootError,
    serial: std::io::Error,
)
    ensures
        VmmError::Host(request).text() == failure_text(request),
        VmmError::Memory(memory).text() == memory.text(),
        VmmError::Kernel(kernel).text() == kernel.text(),
        VmmError::Boot(boot).text() == boot.text(),
        VmmError::Serial(serial).text() == "Failed to create serial device"@,
{
}

/// The message for a failed request depends on the step alone, not on what the
/// request carries.
pub proof fn law_message_depends_on_the_step(one: Request, other: Request)
    requires
        rank(one) == rank(other),
    ensures
        failure_text(one) == failure_text(other),
{
}

/// A kernel that is loaded at 1 MiB or above is still there when the guest
/// starts, unless the command line is so long that it reaches up to it.
pub proof fn law_kernel_is_intact(state: VmmState, addr: int)
    requires
        state.well_formed(),
        state.request is Run,
        EXT_RAM_START <= addr < state.mem_size(),
        CMDLINE_ADDR + cmdline_bytes(state.cmdline).len() <= addr,
    ensures
        state.memory->Some_0[addr] == state.kernel[addr],
{
    law_boot_structures_do_not_overlap(state.kernel, state.cmdline, state.mem_size());
    assert(!in_boot_structures(addr, state.cmdline));
}

} // verus!
