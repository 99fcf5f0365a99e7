//! The first serial port: a 16550 UART whose output is the guest's console.
//!
//! The kernel writes characters to I/O port 0x3F8. The bytes are collected
//! here, for the host to take and print. The kernel also reads status registers
//! to see whether it can send. Input is not wired.

use std::ops::Deref;
use vm_superio::serial::{NoEvents, Serial};
use vm_superio::Trigger;
use vmm_sys_util::eventfd::EventFd;
use vstd::prelude::*;

verus! {

/// The standard library's error of an I/O operation.
#[verifier::external_type_specification]
#[verifier::external_body]
pub struct ExIoError(std::io::Error);

/// vmm-sys-util's event file descriptor.
#[verifier::external_type_specification]
#[verifier::external_body]
pub struct ExEventFd(EventFd);

/// vm-superio's error of a serial device.
#[verifier::external_type_specification]
#[verifier::external_body]
#[verifier::reject_recursive_types(E)]
pub struct ExSerialError<E>(vm_superio::serial::Error<E>);

/// Adapts vmm-sys-util's `EventFd` to vm-superio's `Trigger`. The serial device
/// pulses it to raise an interrupt; nobody listens, since serial interrupts are
/// not delivered to the guest.
#[derive(Debug)]
pub struct EventFdTrigger(EventFd);

/// `EventFd::new` asks the host for a descriptor whose counter is 0. Whether it
/// gets one, and which, is the host's affair: nothing is claimed of the result.
pub assume_specification[ EventFd::new ](flag: i32) -> Result<EventFd, std::io::Error>;

/// `EventFd::write` adds to the descriptor's counter, which the host keeps.
/// Whether there is room in the counter is the host's affair: nothing is claimed
/// of the result. Without room the call fails, or waits if the descriptor was
/// made to.
pub assume_specification[ EventFd::write ](event_fd: &EventFd, value: u64) -> Result<
    (),
    std::io::Error,
>;

impl Trigger for EventFdTrigger {
    type E = std::io::Error;

    /// Pulses the descriptor: adds 1 to its counter, and returns what came of
    /// that.
    fn trigger(&self) -> (res: Result<(), std::io::Error>)
        ensures
            call_ensures(EventFd::write, (&self.event_fd(), 1u64), res),
    {
        let write = EventFd::write;
        write(&self.0, 1)
    }
}

impl Deref for EventFdTrigger {
    type Target = EventFd;

    fn deref(&self) -> (event_fd: &EventFd)
        ensures
            *event_fd == self.event_fd(),
    {
        &self.0
    }
}

impl EventFdTrigger {
    /// The descriptor that is pulsed.
    pub closed spec fn event_fd(&self) -> EventFd {
        self.0
    }

    /// Creates an interrupt `EventFd` with the given `eventfd(2)` flags: what
    /// `EventFd::new` gives for them, descriptor or error, is what comes out.
    pub fn new(flag: i32) -> (res: Result<EventFdTrigger, std::io::Error>)
        ensures
            match res {
                Ok(trigger) => call_ensures(EventFd::new, (flag,), Ok(trigger.event_fd())),
                Err(e) => call_ensures(EventFd::new, (flag,), Err(e)),
            },
    {
        let new_event_fd = EventFd::new;
        match new_event_fd(flag) {
            Ok(event_fd) => Ok(EventFdTrigger(event_fd)),
            Err(e) => Err(e),
        }
    }
}

/// The base I/O port of COM1.
pub const COM1_PORT_BASE: u16 = 0x3F8;

/// Number of I/O ports that the 16550 uses, one for each register.
pub const COM1_PORT_COUNT: u16 = 8;

/// Whether an I/O port is in the COM1 range.
pub fn is_serial_port(port: u16) -> (res: bool)
    ensures
        res == (COM1_PORT_BASE <= port < COM1_PORT_BASE + COM1_PORT_COUNT),
        res <==> 0x3F8 <= port <= 0x3FF,
{
    COM1_PORT_BASE <= port && port < COM1_PORT_BASE + COM1_PORT_COUNT
}

/// The flag of `eventfd(2)` for a descriptor that never blocks.
pub const NONBLOCKING: i32 = 0x800;

/// Reads `libc::EFD_NONBLOCK`. Its value differs between architectures; on x86,
/// the only one that has the boot parameters this crate writes, it is
/// `NONBLOCKING`.
#[verifier::external_body]
fn nonblocking() -> (flag: i32)
    ensures
        flag == NONBLOCKING,
{
    libc::EFD_NONBLOCK
}

/// Register offset of the data register: transmit when written, receive when
/// read. With the divisor latch open, the low byte of the divisor.
pub const DATA: u8 = 0;

/// Register offset of the interrupt enable register. With the divisor latch
/// open, the high byte of the divisor.
pub const INTERRUPT_ENABLE: u8 = 1;

/// Register offset of the interrupt identification register.
pub const INTERRUPT_ID: u8 = 2;

/// Register offset of the line control register.
pub const LINE_CONTROL: u8 = 3;

/// Register offset of the modem control register.
pub const MODEM_CONTROL: u8 = 4;

/// Register offset of the line status register.
pub const LINE_STATUS: u8 = 5;

/// Register offset of the modem status register.
pub const MODEM_STATUS: u8 = 6;

/// Register offset of the scratch register.
pub const SCRATCH: u8 = 7;

/// Number of bytes that the receive queue holds.
pub const FIFO_SIZE: u64 = 0x40;

/// Interrupt identification: none is pending.
pub const NONE_PENDING: u8 = 0x01;

/// Interrupt enable and interrupt identification bits of the transmitter, when
/// it can take another byte.
pub const TRANSMITTER_EMPTY: u8 = 0x02;

/// Interrupt enable bit of the receiver, when it has a byte.
pub const DATA_ENABLE: u8 = 0x01;

/// Interrupt identification bit of the receiver, when it has a byte.
pub const DATA_PENDING: u8 = 0x04;

/// What a UART holds.
#[verifier::ext_equal]
pub struct Uart {
    pub divisor_low: u8,
    pub divisor_high: u8,
    pub interrupt_enable: u8,
    pub interrupt_id: u8,
    pub line_control: u8,
    pub modem_control: u8,
    pub line_status: u8,
    pub modem_status: u8,
    pub scratch: u8,
    /// Bytes that the guest has yet to read, oldest first.
    pub received: Seq<u8>,
    /// Bytes that the guest has sent and the host has yet to take.
    pub sent: Seq<u8>,
    /// The descriptor that is pulsed to raise an interrupt.
    pub interrupt: EventFd,
}

/// The interrupt identification `id` with interrupt `pending` added.
pub open spec fn with_pending(id: u8, pending: u8) -> u8 {
    if id & pending == 0 {
        id & 0xFE | pending
    } else {
        id
    }
}

/// The interrupt identification `id` without the receiver's interrupt.
pub open spec fn without_data(id: u8) -> u8 {
    if id & 0xFB == 0 {
        NONE_PENDING
    } else {
        id & 0xFB
    }
}

impl Uart {
    /// A UART after reset: 9600 baud, 8 data bits, no interrupts, ready to
    /// send, carrier up. It raises interrupts on the given descriptor.
    pub open spec fn reset(interrupt: EventFd) -> Uart {
        Uart {
            divisor_low: 0x0C,
            divisor_high: 0,
            interrupt_enable: 0,
            interrupt_id: NONE_PENDING,
            line_control: 0x03,
            modem_control: 0x08,
            line_status: 0x60,
            modem_status: 0xB0,
            scratch: 0,
            received: Seq::empty(),
            sent: Seq::empty(),
            interrupt,
        }
    }

    /// Whether the first two offsets reach the divisor.
    pub open spec fn latch_open(self) -> bool {
        self.line_control & 0x80 != 0
    }

    /// Whether what is sent comes back as received.
    pub open spec fn loops_back(self) -> bool {
        self.modem_control & 0x10 != 0
    }

    /// Whether a byte written to the data register is sent.
    pub open spec fn transmits(self) -> bool {
        !self.latch_open() && !self.loops_back()
    }

    /// The UART with the transmitter's interrupt pending, if it is enabled.
    pub open spec fn transmitter_empty(self) -> Uart {
        if self.interrupt_enable & TRANSMITTER_EMPTY != 0 {
            Uart { interrupt_id: with_pending(self.interrupt_id, TRANSMITTER_EMPTY), ..self }
        } else {
            self
        }
    }

    /// Whether the receiver's interrupt is enabled and not pending yet.
    pub open spec fn announces_data(self) -> bool {
        self.interrupt_enable & DATA_ENABLE != 0 && self.interrupt_id & DATA_PENDING == 0
    }

    /// The UART with the receiver's interrupt pending, if it is enabled.
    pub open spec fn data_received(self) -> Uart {
        if self.interrupt_enable & DATA_ENABLE != 0 {
            Uart { interrupt_id: with_pending(self.interrupt_id, DATA_PENDING), ..self }
        } else {
            self
        }
    }

    /// The UART after its enabled interrupts were set anew. Of a received byte
    /// it tells first; `raised` is whether the descriptor could be pulsed for
    /// that, and if not, the transmitter's interrupt is left alone.
    pub open spec fn interrupts_enabled(self, raised: bool) -> Uart {
        if self.received.len() == 0 {
            self.transmitter_empty()
        } else if self.announces_data() && !raised {
            self.data_received()
        } else {
            self.data_received().transmitter_empty()
        }
    }

    /// The UART after the guest wrote `value` at `offset`. `raised` is whether
    /// the descriptor could be pulsed for a received byte, where that was tried.
    pub open spec fn written(self, offset: u8, value: u8, raised: bool) -> Uart {
        if offset == DATA && self.latch_open() {
            Uart { divisor_low: value, ..self }
        } else if offset == INTERRUPT_ENABLE && self.latch_open() {
            Uart { divisor_high: value, ..self }
        } else if offset == DATA && !self.loops_back() {
            (Uart { sent: self.sent.push(value), ..self }).transmitter_empty()
        } else if offset == DATA && self.received.len() < FIFO_SIZE {
            (Uart {
                received: self.received.push(value),
                line_status: self.line_status | 1,
                ..self
            }).data_received()
        } else if offset == INTERRUPT_ENABLE {
            (Uart { interrupt_enable: value & 0x0F, ..self }).interrupts_enabled(raised)
        } else if offset == LINE_CONTROL {
            Uart { line_control: value, ..self }
        } else if offset == MODEM_CONTROL {
            Uart { modem_control: value, ..self }
        } else if offset == SCRATCH {
            Uart { scratch: value, ..self }
        } else {
            self
        }
    }

    /// What the guest reads at `offset`.
    pub open spec fn value(self, offset: u8) -> u8 {
        if offset == DATA && self.latch_open() {
            self.divisor_low
        } else if offset == INTERRUPT_ENABLE && self.latch_open() {
            self.divisor_high
        } else if offset == DATA {
            if self.received.len() > 0 {
                self.received[0]
            } else {
                0
            }
        } else if offset == INTERRUPT_ENABLE {
            self.interrupt_enable
        } else if offset == INTERRUPT_ID {
            self.interrupt_id | 0xC0
        } else if offset == LINE_CONTROL {
            self.line_control
        } else if offset == MODEM_CONTROL {
            self.modem_control
        } else if offset == LINE_STATUS {
            self.line_status
        } else if offset == MODEM_STATUS && self.loops_back() {
            looped_status(self.modem_status, self.modem_control)
        } else if offset == MODEM_STATUS {
            self.modem_status
        } else if offset == SCRATCH {
            self.scratch
        } else {
            0
        }
    }

    /// The UART after the guest read at `offset`. With the data register, the
    /// oldest received byte is gone and its interrupt with it, and with the last
    /// byte the note that there is one. Reading the interrupt identification
    /// resets it.
    pub open spec fn after_read(self, offset: u8) -> Uart {
        if offset == DATA && !self.latch_open() {
            let received = if self.received.len() > 0 {
                self.received.skip(1)
            } else {
                self.received
            };
            Uart {
                received,
                line_status: if received.len() == 0 {
                    self.line_status & 0xFE
                } else {
                    self.line_status
                },
                interrupt_id: without_data(self.interrupt_id),
                ..self
            }
        } else if offset == INTERRUPT_ID {
            Uart { interrupt_id: NONE_PENDING, ..self }
        } else {
            self
        }
    }

    /// The UART after the guest wrote the bytes of `data` at `offset`, in
    /// order. `raised` tells for each whether the descriptor could be pulsed for
    /// a received byte.
    pub open spec fn written_all(self, offset: u8, data: Seq<u8>, raised: Seq<bool>) -> Uart
        decreases data.len(),
    {
        if data.len() == 0 {
            self
        } else {
            self.written_all(offset, data.drop_last(), raised.drop_last()).written(
                offset,
                data.last(),
                raised.last(),
            )
        }
    }

    /// The UART after the guest read `count` times at `offset`.
    pub open spec fn after_reads(self, offset: u8, count: nat) -> Uart
        decreases count,
    {
        if count == 0 {
            self
        } else {
            self.after_reads(offset, (count - 1) as nat).after_read(offset)
        }
    }

    /// What the guest gets from reading `count` times at `offset`.
    pub open spec fn values(self, offset: u8, count: nat) -> Seq<u8> {
        Seq::new(count, |k: int| self.after_reads(offset, k as nat).value(offset))
    }

    /// What holds of every UART since its reset: it is ready to send, and says
    /// that there is a received byte when there is one.
    pub open spec fn well_formed(self) -> bool {
        &&& self.line_status & 0x60 == 0x60
        &&& self.line_status & 1 != 0 <==> self.received.len() > 0
        &&& self.received.len() <= FIFO_SIZE
    }
}

/// The modem status in loopback mode: the four inputs are the four outputs,
/// DSR from DTR, CTS from RTS, RI from OUT1 and DCD from OUT2.
pub open spec fn looped_status(modem_status: u8, modem_control: u8) -> u8 {
    modem_status & 0x0F | (modem_control & 1) << 5 | (modem_control & 2) << 3 | (modem_control & 4)
        << 4 | (modem_control & 8) << 4
}

/// The guest's console: vm-superio's serial device, with a buffer that takes
/// its output. The device's type cannot be declared to Verus by itself, because
/// traits of its crate bound its parameters; so it is hidden in here.
#[verifier::external_body]
#[derive(Debug)]
pub struct SerialConsole {
    device: Serial<EventFdTrigger, NoEvents, Vec<u8>>,
}

/// The registers of the device: the two bytes of the divisor, interrupt enable,
/// interrupt identification, line control, modem control, line status, modem
/// status, scratch.
pub uninterp spec fn console_registers(console: SerialConsole) -> Seq<u8>;

/// The bytes in the device's receive queue, oldest first.
pub uninterp spec fn console_received(console: SerialConsole) -> Seq<u8>;

/// The bytes in the device's output buffer, oldest first.
pub uninterp spec fn console_sent(console: SerialConsole) -> Seq<u8>;

/// The descriptor of the trigger that the device was made with.
pub uninterp spec fn console_interrupt(console: SerialConsole) -> EventFd;

impl View for SerialConsole {
    type V = Uart;

    open spec fn view(&self) -> Uart {
        let registers = console_registers(*self);
        Uart {
            divisor_low: registers[0],
            divisor_high: registers[1],
            interrupt_enable: registers[2],
            interrupt_id: registers[3],
            line_control: registers[4],
            modem_control: registers[5],
            line_status: registers[6],
            modem_status: registers[7],
            scratch: registers[8],
            received: console_received(*self),
            sent: console_sent(*self),
            interrupt: console_interrupt(*self),
        }
    }
}

impl SerialConsole {
    /// Calls `Serial::new` with an empty buffer for the output. The device
    /// starts from its default state and keeps the trigger.
    #[verifier::external_body]
    fn new(trigger: EventFdTrigger) -> (console: SerialConsole)
        ensures
            console_registers(console) == seq![0x0Cu8, 0, 0, 0x01, 0x03, 0x08, 0x60, 0xB0, 0],
            console_received(console) == Seq::<u8>::empty(),
            console_sent(console) == Seq::<u8>::empty(),
            console_interrupt(console) == trigger.event_fd(),
    {
        SerialConsole { device: Serial::new(trigger, Vec::new()) }
    }

    /// Calls `Serial::write`. A write into the buffer does not fail, so an error
    /// can only be that of the interrupt's trigger. The device sets its registers
    /// before it pulses the trigger, so the outcome of the pulse matters in one
    /// place alone: when interrupts are enabled while a received byte waits, the
    /// transmitter's interrupt is passed over if the pulse for the byte fails.
    /// Whether it fails is up to the host; if the write succeeds, it did not.
    #[verifier::external_body]
    fn write(&mut self, offset: u8, value: u8) -> (res: Result<
        (),
        vm_superio::serial::Error<std::io::Error>,
    >)
        ensures
            res is Ok ==> final(self)@ == old(self)@.written(offset, value, true),
            final(self)@ == old(self)@.written(offset, value, true) || final(self)@ == old(
                self,
            )@.written(offset, value, false),
    {
        self.device.write(offset, value)
    }

    /// Calls `Serial::read`. Reading raises no interrupt, so nothing of it is up
    /// to the host.
    #[verifier::external_body]
    fn read(&mut self, offset: u8) -> (value: u8)
        ensures
            final(self)@ == old(self)@.after_read(offset),
            value == old(self)@.value(offset),
    {
        self.device.read(offset)
    }

    /// Calls `Serial::writer_mut` and empties the buffer that it gives out.
    #[verifier::external_body]
    fn take_buffer(&mut self) -> (output: Vec<u8>)
        ensures
            output@ == console_sent(*old(self)),
            console_sent(*final(self)) == Seq::<u8>::empty(),
            console_received(*final(self)) == console_received(*old(self)),
            console_registers(*final(self)) == console_registers(*old(self)),
            console_interrupt(*final(self)) == console_interrupt(*old(self)),
    {
        std::mem::take(self.device.writer_mut())
    }

    /// Takes what the guest has sent so far.
    pub fn take_output(&mut self) -> (output: Vec<u8>)
        ensures
            output@ == old(self)@.sent,
            final(self)@ == (Uart { sent: Seq::empty(), ..old(self)@ }),
            output_taken(old(self)@, output@, final(self)@),
    {
        self.take_buffer()
    }
}

/// Whether the host can get `output` from the device if it was `before`, and
/// leave it as `after`.
pub open spec fn output_taken(before: Uart, output: Seq<u8>, after: Uart) -> bool {
    &&& output == before.sent
    &&& after == (Uart { sent: Seq::empty(), ..before })
}

/// What the guest sends is taken once, and whole: what it sends between two
/// times is what the second time gives. The guest does not notice: whatever it
/// reads is the same as without.
pub proof fn law_output_is_taken_once(
    before: Uart,
    output: Seq<u8>,
    between: Uart,
    data: Seq<u8>,
    raised: Seq<bool>,
    next: Seq<u8>,
    after: Uart,
)
    requires
        output_taken(before, output, between),
        output_taken(between.written_all(0, data, raised), next, after),
        before.transmits(),
        raised.len() == data.len(),
    ensures
        before.written_all(0, data, raised).sent == output + next,
        next == data,
        after.sent.len() == 0,
        forall|offset: u8| #[trigger] between.value(offset) == before.value(offset),
{
    law_transmits_in_order(before, data, raised);
    law_transmits_in_order(between, data, raised);
    assert(between.sent + data =~= data);
}

/// Creates the serial device, with an interrupt descriptor that never blocks.
/// It fails only where `EventFd::new` does, and with its error.
pub fn create() -> (res: Result<SerialConsole, std::io::Error>)
    ensures
        match res {
            Ok(console) => {
                &&& console@ == Uart::reset(console@.interrupt)
                &&& console@.well_formed()
                &&& call_ensures(EventFd::new, (NONBLOCKING,), Ok(console@.interrupt))
            },
            Err(e) => call_ensures(EventFd::new, (NONBLOCKING,), Err(e)),
        },
{
    match EventFdTrigger::new(nonblocking()) {
        Ok(trigger) => {
            let console = SerialConsole::new(trigger);
            proof {
                assert(0x60u8 & 0x60 == 0x60 && 0x60u8 & 1 == 0) by (bit_vector);
                assert(console@ =~= Uart::reset(console@.interrupt));
            }
            Ok(console)
        },
        Err(e) => Err(e),
    }
}

/// Handles the guest's write of `data` to a port of the serial device, byte by
/// byte. Whether interrupts could be raised meanwhile is up to the host.
pub fn handle_write(serial: &mut SerialConsole, port: u16, data: &[u8])
    requires
        COM1_PORT_BASE <= port < COM1_PORT_BASE + COM1_PORT_COUNT,
    ensures
        exists|raised: Seq<bool>|
            raised.len() == data@.len() && final(serial)@ == #[trigger] old(serial)@.written_all(
                (port - COM1_PORT_BASE) as u8,
                data@,
                raised,
            ),
        old(serial)@.well_formed() ==> final(serial)@.well_formed(),
        port == 0x3FB && data@.len() > 0 ==> final(serial)@ == (Uart {
            line_control: data@.last(),
            ..old(serial)@
        }),
        port == 0x3FC && data@.len() > 0 ==> final(serial)@ == (Uart {
            modem_control: data@.last(),
            ..old(serial)@
        }),
        port == 0x3F8 && old(serial)@.transmits() ==> final(serial)@.sent == old(serial)@.sent
            + data@,
{
    let offset: u8 = (port - COM1_PORT_BASE) as u8;
    let ghost mut raised = Seq::<bool>::empty();
    let mut i: usize = 0;
    while i < data.len()
        invariant
            i <= data.len(),
            offset == (port - COM1_PORT_BASE) as u8,
            raised.len() == i,
            serial@ == old(serial)@.written_all(offset, data@.take(i as int), raised),
            old(serial)@.well_formed() ==> serial@.well_formed(),
        decreases data.len() - i,
    {
        let ghost before = serial@;
        let _ = serial.write(offset, data[i]);
        proof {
            let pulsed = serial@ == before.written(offset, data@[i as int], true);
            let longer = raised.push(pulsed);
            assert(data@.take(i + 1).drop_last() =~= data@.take(i as int));
            assert(longer.drop_last() =~= raised);
            if before.well_formed() {
                law_write_keeps_well_formed(before, offset, data@[i as int], pulsed);
            }
            raised = longer;
        }
        i = i + 1;
    }
    proof {
        assert(data@.take(i as int) =~= data@);
        if data@.len() > 0 {
            law_last_byte_stays(old(serial)@, offset, data@, raised);
        }
        if port == 0x3F8 && old(serial)@.transmits() {
            law_transmits_in_order(old(serial)@, data@, raised);
        }
    }
}

/// Handles the guest's read from a port of the serial device: fills `data`
/// with what the register gives, byte by byte.
pub fn handle_read(serial: &mut SerialConsole, port: u16, data: &mut [u8])
    requires
        COM1_PORT_BASE <= port < COM1_PORT_BASE + COM1_PORT_COUNT,
    ensures
        final(serial)@ == old(serial)@.after_reads((port - COM1_PORT_BASE) as u8, old(data)@.len()),
        final(data)@ == old(serial)@.values((port - COM1_PORT_BASE) as u8, old(data)@.len()),
        old(serial)@.well_formed() ==> final(serial)@.well_formed(),
{
    let offset: u8 = (port - COM1_PORT_BASE) as u8;
    let mut i: usize = 0;
    while i < data.len()
        invariant
            i <= data.len(),
            data@.len() == old(data)@.len(),
            offset == port - COM1_PORT_BASE,
            serial@ == old(serial)@.after_reads(offset, i as nat),
            forall|k: int|
                0 <= k < i ==> #[trigger] data@[k] == old(serial)@.after_reads(
                    offset,
                    k as nat,
                ).value(offset),
            old(serial)@.well_formed() ==> serial@.well_formed(),
        decreases data.len() - i,
    {
        proof {
            if serial@.well_formed() {
                law_read_keeps_well_formed(serial@, offset);
            }
        }
        data[i] = serial.read(offset);
        i = i + 1;
    }
}

/// A write leaves the UART ready to send.
pub proof fn law_write_keeps_well_formed(uart: Uart, offset: u8, value: u8, raised: bool)
    requires
        uart.well_formed(),
    ensures
        uart.written(offset, value, raised).well_formed(),
{
    let status = uart.line_status;
    assert(status & 0x60 == 0x60 ==> (status | 1) & 0x60 == 0x60) by (bit_vector);
    assert((status | 1) & 1 != 0) by (bit_vector);
}

/// A read leaves the UART ready to send.
pub proof fn law_read_keeps_well_formed(uart: Uart, offset: u8)
    requires
        uart.well_formed(),
    ensures
        uart.after_read(offset).well_formed(),
{
    let status = uart.line_status;
    assert(status & 0x60 == 0x60 ==> (status & 0xFE) & 0x60 == 0x60) by (bit_vector);
    assert((status & 0xFE) & 1 == 0) by (bit_vector);
}

/// As long as it transmits, the UART sends what is written to its data
/// register: every byte, in order. Nothing else changes but that it may say
/// that it can take another byte.
pub proof fn law_transmits_in_order(uart: Uart, data: Seq<u8>, raised: Seq<bool>)
    requires
        uart.transmits(),
        raised.len() == data.len(),
    ensures
        ({
            let after = uart.written_all(DATA, data, raised);
            after == (Uart {
                sent: uart.sent + data,
                interrupt_id: after.interrupt_id,
                ..uart
            })
        }),
    decreases data.len(),
{
    if data.len() > 0 {
        law_transmits_in_order(uart, data.drop_last(), raised.drop_last());
        assert((uart.sent + data.drop_last()).push(data.last()) =~= uart.sent + data);
    } else {
        assert(uart.sent + data =~= uart.sent);
    }
}

/// A UART transmits from its reset on.
pub proof fn law_reset_transmits(interrupt: EventFd)
    ensures
        Uart::reset(interrupt).transmits(),
        Uart::reset(interrupt).well_formed(),
{
    assert(0x03u8 & 0x80 == 0 && 0x08u8 & 0x10 == 0) by (bit_vector);
    assert(0x60u8 & 0x60 == 0x60 && 0x60u8 & 1 == 0) by (bit_vector);
}

/// Nothing that the guest writes takes back or alters what it has sent.
pub proof fn law_sent_only_grows(uart: Uart, offset: u8, data: Seq<u8>, raised: Seq<bool>)
    requires
        raised.len() == data.len(),
    ensures
        uart.sent.is_prefix_of(uart.written_all(offset, data, raised).sent),
    decreases data.len(),
{
    if data.len() > 0 {
        law_sent_only_grows(uart, offset, data.drop_last(), raised.drop_last());
    }
}

/// However often the guest asks, the line status says that the UART is ready
/// to send: the transmitter and its holding register are empty.
pub proof fn law_always_ready_to_send(uart: Uart, count: nat, k: int)
    requires
        uart.well_formed(),
        0 <= k < count,
    ensures
        uart.values(LINE_STATUS, count)[k] & 0x60 == 0x60,
{
    lemma_status_reads_change_nothing(uart, k as nat);
}

/// Reading the line status changes nothing.
proof fn lemma_status_reads_change_nothing(uart: Uart, count: nat)
    ensures
        uart.after_reads(LINE_STATUS, count) == uart,
    decreases count,
{
    if count > 0 {
        lemma_status_reads_change_nothing(uart, (count - 1) as nat);
    }
}

/// Bytes are written one by one: two writes in a row at one offset are the one
/// write of all their bytes, and a write of none changes nothing.
pub proof fn law_writes_add_up(
    uart: Uart,
    offset: u8,
    data: Seq<u8>,
    raised: Seq<bool>,
    more: Seq<u8>,
    more_raised: Seq<bool>,
)
    requires
        raised.len() == data.len(),
        more_raised.len() == more.len(),
    ensures
        uart.written_all(offset, data + more, raised + more_raised) == uart.written_all(
            offset,
            data,
            raised,
        ).written_all(offset, more, more_raised),
        data.len() == 0 ==> uart.written_all(offset, data, raised) == uart,
    decreases more.len(),
{
    if more.len() > 0 {
        law_writes_add_up(
            uart,
            offset,
            data,
            raised,
            more.drop_last(),
            more_raised.drop_last(),
        );
        assert((data + more).drop_last() =~= data + more.drop_last());
        assert((raised + more_raised).drop_last() =~= raised + more_raised.drop_last());
    } else {
        assert(data + more =~= data);
        assert(raised + more_raised =~= raised);
    }
}

/// A byte that the guest writes reaches the register that it addresses, for
/// every state of the device, and no other register: the divisor with the latch
/// open, else the transmitter, or in loopback the receive queue as long as it
/// has room, or the interrupt enable register; line control, modem control and
/// scratch always.
pub proof fn law_write_reaches_its_register(uart: Uart, offset: u8, value: u8, raised: bool)
    ensures
        ({
            let after = uart.written_all(offset, seq![value], seq![raised]);
            let open = uart.line_control & 0x80 != 0;
            let looped = uart.modem_control & 0x10 != 0;
            let sends = offset == 0 && !open && !looped;
            let receives = offset == 0 && !open && looped && uart.received.len() < 64;
            &&& after.divisor_low == if offset == 0 && open { value } else { uart.divisor_low }
            &&& after.divisor_high == if offset == 1 && open { value } else { uart.divisor_high }
            &&& after.interrupt_enable == if offset == 1 && !open {
                value & 0x0F
            } else {
                uart.interrupt_enable
            }
            &&& after.line_control == if offset == 3 { value } else { uart.line_control }
            &&& after.modem_control == if offset == 4 { value } else { uart.modem_control }
            &&& after.scratch == if offset == 7 { value } else { uart.scratch }
            &&& after.sent == if sends { uart.sent.push(value) } else { uart.sent }
            &&& after.received == if receives { uart.received.push(value) } else { uart.received }
            &&& after.line_status == if receives { uart.line_status | 1 } else { uart.line_status }
            &&& after.modem_status == uart.modem_status
            &&& after.interrupt == uart.interrupt
        }),
{
    lemma_one_write(uart, offset, value, raised);
}

/// A write makes an interrupt pending only where it is enabled: that of the
/// transmitter with a byte sent, that of the receiver with a byte looped back,
/// and either with a write to the interrupt enable register that enables it. For
/// the receiver's, a byte has to wait; if it is new and the descriptor could not
/// be pulsed for it, the transmitter's is passed over.
pub proof fn law_write_raises_enabled_interrupts(uart: Uart, offset: u8, value: u8, raised: bool)
    ensures
        ({
            let id = uart.interrupt_id;
            let after = uart.written_all(offset, seq![value], seq![raised]);
            let open = uart.line_control & 0x80 != 0;
            let looped = uart.modem_control & 0x10 != 0;
            let enables = offset == 1 && !open;
            let enabled = if enables { value & 0x0F } else { uart.interrupt_enable };
            let arrives = offset == 0 && !open && looped && uart.received.len() < 64 || enables
                && uart.received.len() > 0;
            let tells = arrives && enabled & 1 != 0 && id & 4 == 0;
            let told = if tells { id & 0xFE | 4 } else { id };
            let empties = offset == 0 && !open && !looped || enables && (raised || !tells);
            after.interrupt_id == if empties && enabled & 2 != 0 && told & 2 == 0 {
                told & 0xFE | 2
            } else {
                told
            }
        }),
{
    lemma_one_write(uart, offset, value, raised);
}

/// A write of one byte.
proof fn lemma_one_write(uart: Uart, offset: u8, value: u8, raised: bool)
    ensures
        uart.written_all(offset, seq![value], seq![raised]) == uart.written(offset, value, raised),
{
    assert(seq![value].drop_last() =~= Seq::<u8>::empty());
    assert(uart.written_all(offset, Seq::empty(), seq![raised].drop_last()) == uart);
}

/// Of the bytes that the guest writes to the line control, modem control or
/// scratch register, the register holds the last one, for every state that the
/// device was in, and nothing else changes.
pub proof fn law_last_byte_stays(uart: Uart, offset: u8, data: Seq<u8>, raised: Seq<bool>)
    requires
        raised.len() == data.len(),
        data.len() > 0,
    ensures
        ({
            let after = uart.written_all(offset, data, raised);
            &&& offset == 3 ==> after == (Uart { line_control: data.last(), ..uart })
            &&& offset == 4 ==> after == (Uart { modem_control: data.last(), ..uart })
            &&& offset == 7 ==> after == (Uart { scratch: data.last(), ..uart })
            &&& offset == 0 && uart.line_control & 0x80 != 0 ==> after == (Uart {
                divisor_low: data.last(),
                ..uart
            })
            &&& offset == 1 && uart.line_control & 0x80 != 0 ==> after == (Uart {
                divisor_high: data.last(),
                ..uart
            })
            &&& offset == 1 && uart.line_control & 0x80 == 0 ==> after == (Uart {
                interrupt_enable: data.last() & 0x0F,
                interrupt_id: after.interrupt_id,
                ..uart
            })
            &&& offset == 2 || offset == 5 || offset == 6 || offset > 7 ==> after == uart
        }),
    decreases data.len(),
{
    if data.len() > 1 {
        law_last_byte_stays(uart, offset, data.drop_last(), raised.drop_last());
    } else {
        assert(uart.written_all(offset, data.drop_last(), raised.drop_last()) == uart);
    }
}

/// A device that the guest sets up transmits, whatever state it was in: once
/// modem control is written without the loopback bit and line control without
/// the latch bit, every byte written to the data register is sent.
pub proof fn law_set_up_device_transmits(
    uart: Uart,
    modem_control: u8,
    line_control: u8,
    data: Seq<u8>,
    raised: Seq<bool>,
)
    requires
        modem_control & 0x10 == 0,
        line_control & 0x80 == 0,
        raised.len() == data.len(),
    ensures
        ({
            let set_up = uart.written_all(4, seq![modem_control], seq![true]).written_all(
                3,
                seq![line_control],
                seq![true],
            );
            &&& set_up.transmits()
            &&& set_up.written_all(0, data, raised).sent == uart.sent + data
        }),
{
    let left = uart.written_all(4, seq![modem_control], seq![true]);
    let set_up = left.written_all(3, seq![line_control], seq![true]);
    law_last_byte_stays(uart, 4, seq![modem_control], seq![true]);
    law_last_byte_stays(left, 3, seq![line_control], seq![true]);
    law_transmits_in_order(set_up, data, raised);
}

/// Whether the device sends a byte depends on two bits alone: not with the
/// divisor latch open, and not in loopback.
pub proof fn law_transmits_unless_latched_or_looped(uart: Uart)
    ensures
        uart.transmits() <==> uart.line_control & 0x80 == 0 && uart.modem_control & 0x10 == 0,
{
}

/// Two reads in a row at one offset are the one read of all their bytes, and a
/// read of none changes nothing.
pub proof fn law_reads_add_up(uart: Uart, offset: u8, count: nat, more: nat)
    ensures
        uart.after_reads(offset, count + more) == uart.after_reads(offset, count).after_reads(
            offset,
            more,
        ),
        uart.values(offset, count + more) == uart.values(offset, count) + uart.after_reads(
            offset,
            count,
        ).values(offset, more),
        uart.after_reads(offset, 0) == uart,
{
    lemma_reads_add_up(uart, offset, count, more);
    let between = uart.after_reads(offset, count);
    assert forall|k: int| 0 <= k < more implies #[trigger] uart.values(offset, count + more)[count
        + k] == between.values(offset, more)[k] by {
        lemma_reads_add_up(uart, offset, count, k as nat);
    }
    assert forall|k: int| 0 <= k < count + more implies #[trigger] uart.values(
        offset,
        count + more,
    )[k] == (uart.values(offset, count) + between.values(offset, more))[k] by {
        if k >= count {
            assert(uart.values(offset, count + more)[count + (k - count)] == between.values(
                offset,
                more,
            )[k - count]);
        }
    }
    assert(uart.values(offset, count + more) =~= uart.values(offset, count) + between.values(
        offset,
        more,
    ));
}

/// Reading on is reading more.
proof fn lemma_reads_add_up(uart: Uart, offset: u8, count: nat, more: nat)
    ensures
        uart.after_reads(offset, count + more) == uart.after_reads(offset, count).after_reads(
            offset,
            more,
        ),
    decreases more,
{
    if more > 0 {
        lemma_reads_add_up(uart, offset, count, (more - 1) as nat);
    }
}

/// What the guest reads is the register that it addresses: the divisor with the
/// latch open, else the oldest received byte, or 0 if there is none, or the
/// interrupt enable register; the interrupt identification with the two bits
/// that tell of a queue; the modem status, which in loopback shows the modem
/// control outputs.
pub proof fn law_read_gives_the_register(uart: Uart, offset: u8)
    ensures
        ({
            let value = uart.values(offset, 1)[0];
            let open = uart.line_control & 0x80 != 0;
            let looped = uart.modem_control & 0x10 != 0;
            &&& uart.values(offset, 1).len() == 1
            &&& offset == 0 && open ==> value == uart.divisor_low
            &&& offset == 1 && open ==> value == uart.divisor_high
            &&& offset == 0 && !open && uart.received.len() > 0 ==> value == uart.received.first()
            &&& offset == 0 && !open && uart.received.len() == 0 ==> value == 0
            &&& offset == 1 && !open ==> value == uart.interrupt_enable
            &&& offset == 2 ==> value == uart.interrupt_id | 0xC0
            &&& offset == 3 ==> value == uart.line_control
            &&& offset == 4 ==> value == uart.modem_control
            &&& offset == 5 ==> value == uart.line_status
            &&& offset == 6 && !looped ==> value == uart.modem_status
            &&& offset == 6 && looped ==> value & 0x0F == uart.modem_status & 0x0F
            &&& offset == 6 && looped ==> (value & 0x10 != 0 <==> uart.modem_control & 2 != 0)
            &&& offset == 6 && looped ==> (value & 0x20 != 0 <==> uart.modem_control & 1 != 0)
            &&& offset == 6 && looped ==> (value & 0x40 != 0 <==> uart.modem_control & 4 != 0)
            &&& offset == 6 && looped ==> (value & 0x80 != 0 <==> uart.modem_control & 8 != 0)
            &&& offset == 7 ==> value == uart.scratch
            &&& offset > 7 ==> value == 0
        }),
{
    assert(uart.after_reads(offset, 0) == uart);
    assert(uart.values(offset, 1)[0] == uart.value(offset));
    let s = uart.modem_status;
    let c = uart.modem_control;
    assert(({
        let v = s & 0x0F | (c & 1) << 5 | (c & 2) << 3 | (c & 4) << 4 | (c & 8) << 4;
        v & 0x0F == s & 0x0F && (v & 0x10 != 0 <==> c & 2 != 0) && (v & 0x20 != 0 <==> c & 1 != 0)
            && (v & 0x40 != 0 <==> c & 4 != 0) && (v & 0x80 != 0 <==> c & 8 != 0)
    })) by (bit_vector);
}

/// A read takes nothing from the device but the byte that it gives, the note of
/// it, and what is pending: of the receiver with the data register, of all with
/// the interrupt identification.
pub proof fn law_read_leaves_the_rest(uart: Uart, offset: u8)
    ensures
        ({
            let after = uart.after_reads(offset, 1);
            let takes = offset == 0 && uart.line_control & 0x80 == 0;
            let id = uart.interrupt_id & 0xFB;
            &&& after == (Uart {
                received: after.received,
                line_status: after.line_status,
                interrupt_id: after.interrupt_id,
                ..uart
            })
            &&& after.received == if takes && uart.received.len() > 0 {
                uart.received.drop_first()
            } else {
                uart.received
            }
            &&& after.line_status == if takes && uart.received.len() <= 1 {
                uart.line_status & 0xFE
            } else {
                uart.line_status
            }
            &&& takes ==> after.interrupt_id == if id == 0 { 1 } else { id }
            &&& offset == 2 ==> after.interrupt_id == 1
            &&& offset != 2 && !takes ==> after.interrupt_id == uart.interrupt_id
        }),
{
    assert(uart.after_reads(offset, 0) == uart);
    assert(uart.after_reads(offset, 1) == uart.after_read(offset));
    if uart.received.len() > 0 {
        assert(uart.received.drop_first() =~= uart.received.skip(1));
    }
}

/// A register that holds what it was given reads back however often the guest
/// asks, and asking changes nothing: line control, modem control and scratch,
/// and the divisor with the latch open. The interrupt enable register keeps four
/// bits.
pub proof fn law_registers_read_back(
    uart: Uart,
    offset: u8,
    data: Seq<u8>,
    raised: Seq<bool>,
    count: nat,
    k: int,
)
    requires
        raised.len() == data.len(),
        data.len() > 0,
        0 <= k < count,
    ensures
        ({
            let after = uart.written_all(offset, data, raised);
            let value = after.values(offset, count)[k];
            let open = uart.line_control & 0x80 != 0;
            &&& offset == 3 || offset == 4 || offset == 7 ==> value == data.last()
            &&& (offset == 0 || offset == 1) && open ==> value == data.last()
            &&& offset == 1 && !open ==> value == data.last() & 0x0F
            &&& offset == 1 || offset >= 3 ==> after.after_reads(offset, count) == after
        }),
{
    let after = uart.written_all(offset, data, raised);
    law_last_byte_stays(uart, offset, data, raised);
    lemma_reads_change_nothing(after, offset, k as nat);
    lemma_reads_change_nothing(after, offset, count);
}

/// Only the received bytes and the interrupt identification are changed by
/// being read.
proof fn lemma_reads_change_nothing(uart: Uart, offset: u8, count: nat)
    ensures
        offset != 2 && (offset != 0 || uart.latch_open()) ==> uart.after_reads(offset, count)
            == uart,
    decreases count,
{
    if count > 0 {
        lemma_reads_change_nothing(uart, offset, (count - 1) as nat);
    }
}

/// In loopback, the guest reads back what it writes to the data register, in
/// order, as long as the receive queue has room for it, and nothing is sent.
pub proof fn law_loopback_reads_back(uart: Uart, data: Seq<u8>, raised: Seq<bool>)
    requires
        uart.line_control & 0x80 == 0,
        uart.modem_control & 0x10 != 0,
        uart.received.len() + data.len() <= 64,
        raised.len() == data.len(),
    ensures
        ({
            let after = uart.written_all(0, data, raised);
            &&& after.sent == uart.sent
            &&& after.values(0, uart.received.len() + data.len()) == uart.received + data
        }),
{
    let after = uart.written_all(0, data, raised);
    let queued = uart.received + data;
    lemma_loopback_queues(uart, data, raised);
    assert forall|k: int| 0 <= k < queued.len() implies #[trigger] after.values(
        0,
        queued.len(),
    )[k] == queued[k] by {
        lemma_reads_empty_the_queue(after, k as nat);
    }
    assert(after.values(0, queued.len()) =~= queued);
}

/// In loopback, what is written joins the receive queue.
proof fn lemma_loopback_queues(uart: Uart, data: Seq<u8>, raised: Seq<bool>)
    requires
        !uart.latch_open(),
        uart.loops_back(),
        uart.received.len() + data.len() <= FIFO_SIZE,
        raised.len() == data.len(),
    ensures
        ({
            let after = uart.written_all(DATA, data, raised);
            &&& after.received == uart.received + data
            &&& after.sent == uart.sent
            &&& after.line_control == uart.line_control
            &&& after.modem_control == uart.modem_control
        }),
    decreases data.len(),
{
    if data.len() > 0 {
        lemma_loopback_queues(uart, data.drop_last(), raised.drop_last());
        assert((uart.received + data.drop_last()).push(data.last()) =~= uart.received + data);
    } else {
        assert(uart.received + data =~= uart.received);
    }
}

/// Reads take the received bytes from the front.
proof fn lemma_reads_empty_the_queue(uart: Uart, count: nat)
    requires
        !uart.latch_open(),
        count <= uart.received.len(),
    ensures
        uart.after_reads(DATA, count).received == uart.received.skip(count as int),
        uart.after_reads(DATA, count).line_control == uart.line_control,
    decreases count,
{
    if count > 0 {
        lemma_reads_empty_the_queue(uart, (count - 1) as nat);
        assert(uart.received.skip(count - 1).skip(1) =~= uart.received.skip(count as int));
    } else {
        assert(uart.received.skip(0) =~= uart.received);
    }
}

/// A device that was just created is at 9600 baud with 8 data bits, has no
/// interrupt enabled or pending, is ready to send, and holds no bytes. It keeps
/// the descriptor that it was given.
pub proof fn law_reset_state(interrupt: EventFd)
    ensures
        ({
            let uart = Uart::reset(interrupt);
            &&& uart.divisor_low == 0x0C && uart.divisor_high == 0
            &&& uart.interrupt_enable == 0 && uart.interrupt_id == 1
            &&& uart.line_control == 3 && uart.modem_control == 8
            &&& uart.line_status == 0x60 && uart.modem_status == 0xB0
            &&& uart.scratch == 0
            &&& uart.received.len() == 0 && uart.sent.len() == 0
            &&& uart.interrupt == interrupt
        }),
{
}

} // verus!
