//! The core of the monitor: what to do about each exit of the vCPU.

use crate::serial::{
    handle_read, handle_write, is_serial_port, law_always_ready_to_send, law_last_byte_stays,
    law_registers_read_back, law_transmits_in_order, SerialConsole, Uart, COM1_PORT_BASE,
    COM1_PORT_COUNT, DATA,
};
use vstd::prelude::*;

verus! {

/// The command port of the 8042 keyboard controller.
pub const KBD_CMD_PORT: u16 = 0x64;

/// The command that pulses the reset line.
pub const KBD_RESET_CMD: u8 = 0xFE;

/// The PCI reset control register.
pub const PCI_RESET_PORT: u16 = 0x0CF9;

/// The bit of the reset control register that requests a reset.
pub const PCI_RESET_BIT: u8 = 0x04;

/// Why the vCPU came back from the guest.
#[derive(Debug)]
pub enum VcpuExit {
    /// The guest wrote the bytes to an I/O port.
    IoOut(u16, Vec<u8>),
    /// The guest reads that many bytes from an I/O port.
    IoIn(u16, usize),
    /// The guest executed HLT.
    Hlt,
    /// Triple fault or ACPI shutdown.
    Shutdown,
    /// Anything else, described.
    Other(String),
}

/// How to go on after an exit.
#[derive(Debug)]
pub enum Action {
    /// Enter the guest again.
    Resume,
    /// Hand the bytes to the guest as the result of its read, and enter it
    /// again.
    ResumeWith(Vec<u8>),
    /// The guest is done.
    Stop,
}

/// Why the vCPU could not go on.
#[derive(Debug)]
pub enum RunError {
    /// An exit that nothing handles.
    UnexpectedExit(String),
}

impl RunError {
    /// The message that goes with the error.
    pub open spec fn text(self) -> Seq<char> {
        match self {
            RunError::UnexpectedExit(exit) => "Unexpected vCPU exit: "@ + exit@,
        }
    }

    /// The message that goes with the error.
    pub fn message(&self) -> (text: String)
        ensures
            text@ == self.text(),
            self matches RunError::UnexpectedExit(exit) ==> text@ == "Unexpected vCPU exit: "@
                + exit@,
    {
        match self {
            RunError::UnexpectedExit(exit) => {
                let mut text = String::from_str("Unexpected vCPU exit: ");
                text.append(exit.as_str());
                text
            },
        }
    }
}

/// Whether a port belongs to the serial device.
pub open spec fn serial_port(port: u16) -> bool {
    COM1_PORT_BASE <= port < COM1_PORT_BASE + COM1_PORT_COUNT
}

/// Whether a write to a port requests a reset of the platform: the keyboard
/// controller's reset command, or the reset bit of the PCI reset register. The
/// first byte counts.
pub open spec fn reset_request(port: u16, data: Seq<u8>) -> bool {
    data.len() > 0 && {
        ||| port == KBD_CMD_PORT && data[0] == KBD_RESET_CMD
        ||| port == PCI_RESET_PORT && data[0] & PCI_RESET_BIT != 0
    }
}

/// Whether this port write represents a platform reset request. There is no
/// platform to reset, so to the monitor it is a request to stop.
pub fn is_reset_request(port: u16, data: &[u8]) -> (res: bool)
    ensures
        res == reset_request(port, data@),
        res <==> data@.len() > 0 && (port == 0x64 && data@[0] == 0xFE || port == 0xCF9 && data@[0]
            & 4 != 0),
{
    if data.len() == 0 {
        return false;
    }
    if port == KBD_CMD_PORT {
        data[0] == KBD_RESET_CMD
    } else if port == PCI_RESET_PORT {
        data[0] & PCI_RESET_BIT != 0
    } else {
        false
    }
}

/// Whether an exit ends the run without an error.
pub open spec fn stops(exit: VcpuExit) -> bool {
    match exit {
        VcpuExit::IoOut(port, data) => !serial_port(port) && reset_request(port, data@),
        VcpuExit::Hlt => true,
        VcpuExit::Shutdown => true,
        _ => false,
    }
}

/// Whether the serial device can be `after` an exit if it was `before`. Only
/// whether interrupts could be raised is open: that is up to the host.
pub open spec fn uart_follows(before: Uart, exit: VcpuExit, after: Uart) -> bool {
    match exit {
        VcpuExit::IoOut(port, data) if serial_port(port) => exists|raised: Seq<bool>|
            raised.len() == data@.len() && after == #[trigger] before.written_all(
                (port - COM1_PORT_BASE) as u8,
                data@,
                raised,
            ),
        VcpuExit::IoIn(port, len) if serial_port(port) => after == before.after_reads(
            (port - COM1_PORT_BASE) as u8,
            len as nat,
        ),
        _ => after == before,
    }
}

/// What answers the guest's read of `len` bytes from a port: the serial
/// device's registers, or all ones where there is no device.
pub open spec fn answer(uart: Uart, port: u16, len: usize) -> Seq<u8> {
    if serial_port(port) {
        uart.values((port - COM1_PORT_BASE) as u8, len as nat)
    } else {
        Seq::new(len as nat, |k: int| 0xFFu8)
    }
}

/// Whether `decision` is right for an exit, with the serial device as it was.
pub open spec fn decides(uart: Uart, exit: VcpuExit, decision: Result<Action, RunError>) -> bool {
    match decision {
        Ok(Action::Resume) => exit is IoOut && !stops(exit),
        Ok(Action::ResumeWith(bytes)) => exit matches VcpuExit::IoIn(port, len) && bytes@ == answer(
            uart,
            port,
            len,
        ),
        Ok(Action::Stop) => stops(exit),
        Err(RunError::UnexpectedExit(text)) => exit == VcpuExit::Other(text),
    }
}

/// `len` bytes of value `byte`.
fn filled(byte: u8, len: usize) -> (bytes: Vec<u8>)
    ensures
        bytes@ == Seq::new(len as nat, |k: int| byte),
{
    let mut bytes: Vec<u8> = Vec::new();
    while bytes.len() < len
        invariant
            bytes@.len() <= len,
            forall|k: int| 0 <= k < bytes@.len() ==> bytes@[k] == byte,
        decreases len - bytes@.len(),
    {
        bytes.push(byte);
    }
    bytes
}

/// One turn of the run loop: decides what to do about an exit. Serial ports
/// reach the serial device, a reset request ends the run, and so do HLT and
/// shutdown. Writes to any other port are ignored and reads from one give all
/// ones, since the kernel probes ports that nothing answers. Every other exit
/// is an error.
pub fn run(serial: &mut SerialConsole, exit: VcpuExit) -> (res: Result<Action, RunError>)
    ensures
        uart_follows(old(serial)@, exit, final(serial)@),
        old(serial)@.well_formed() ==> final(serial)@.well_formed(),
        decides(old(serial)@, exit, res),
        exit matches VcpuExit::IoOut(port, _) ==> {
            &&& (res matches Ok(Action::Stop)) ==> port == 0x64 || port == 0xCF9
            &&& !(0x3F8 <= port <= 0x3FF) ==> final(serial)@ == old(serial)@
        },
        exit matches VcpuExit::IoIn(port, len) ==> {
            &&& !(0x3F8 <= port <= 0x3FF) ==> final(serial)@ == old(serial)@
            &&& !(0x3F8 <= port <= 0x3FF) ==> (res matches Ok(Action::ResumeWith(bytes))
                && bytes@.len() == len && forall|k: int|
                0 <= k < len ==> #[trigger] bytes@[k] == 0xFF)
        },
{
    match exit {
        VcpuExit::IoOut(port, data) => {
            if is_serial_port(port) {
                handle_write(serial, port, data.as_slice());
            } else if is_reset_request(port, data.as_slice()) {
                return Ok(Action::Stop);
            }
            Ok(Action::Resume)
        },
        VcpuExit::IoIn(port, len) => {
            let mut bytes = filled(0xFF, len);
            if is_serial_port(port) {
                handle_read(serial, port, bytes.as_mut_slice());
            }
            Ok(Action::ResumeWith(bytes))
        },
        VcpuExit::Hlt => Ok(Action::Stop),
        VcpuExit::Shutdown => Ok(Action::Stop),
        VcpuExit::Other(text) => Err(RunError::UnexpectedExit(text)),
    }
}

/// A write stops the run only if it asks for a reset: the first byte is 0xFE and
/// goes to port 0x64, or has bit 2 set and goes to port 0xCF9. Every other write,
/// to any port, resumes the guest, and no write is an error.
pub proof fn law_writes_stop_only_to_reset(
    uart: Uart,
    port: u16,
    data: Vec<u8>,
    decision: Result<Action, RunError>,
)
    requires
        decides(uart, VcpuExit::IoOut(port, data), decision),
    ensures
        ({
            let resets = data@.len() > 0 && (port == 0x64 && data@[0] == 0xFE || port == 0xCF9
                && data@[0] & 4 != 0);
            &&& resets ==> (decision matches Ok(Action::Stop))
            &&& !resets ==> (decision matches Ok(Action::Resume))
            &&& port != 0x64 && port != 0xCF9 ==> (decision matches Ok(Action::Resume))
        }),
{
}

/// Of a write, only the port and the first byte have a part in whether it stops
/// the run, and the device has none.
pub proof fn law_first_byte_decides(
    uart: Uart,
    port: u16,
    data: Vec<u8>,
    decision: Result<Action, RunError>,
    other_uart: Uart,
    other_data: Vec<u8>,
    other_decision: Result<Action, RunError>,
)
    requires
        decides(uart, VcpuExit::IoOut(port, data), decision),
        decides(other_uart, VcpuExit::IoOut(port, other_data), other_decision),
        data@.take(1) == other_data@.take(1),
        data@.len() > 0,
        other_data@.len() > 0,
    ensures
        decision == other_decision,
{
    assert(data@[0] == data@.take(1)[0]);
    assert(other_data@[0] == other_data@.take(1)[0]);
}

/// Every read is answered, with as many bytes as the guest asks for. Where no
/// device answers, each of them is all ones, whatever the port and the length;
/// on COM1 they are what the device gives one after the other.
pub proof fn law_reads_are_answered(
    uart: Uart,
    port: u16,
    len: usize,
    decision: Result<Action, RunError>,
    k: int,
)
    requires
        decides(uart, VcpuExit::IoIn(port, len), decision),
        0 <= k < len,
    ensures
        decision matches Ok(Action::ResumeWith(bytes)) && {
            &&& bytes@.len() == len
            &&& !(0x3F8 <= port <= 0x3FF) ==> bytes@[k] == 0xFF
            &&& 0x3F8 <= port <= 0x3FF ==> bytes@[k] == uart.after_reads(
                (port - 0x3F8) as u8,
                k as nat,
            ).value((port - 0x3F8) as u8)
        },
{
}

/// HLT and shutdown end the run, and no exit of another kind than these and port
/// I/O goes on: it is an error that carries its description.
pub proof fn law_other_exits_end_the_run(
    uart: Uart,
    exit: VcpuExit,
    decision: Result<Action, RunError>,
)
    requires
        decides(uart, exit, decision),
    ensures
        exit is Hlt || exit is Shutdown ==> (decision matches Ok(Action::Stop)),
        exit matches VcpuExit::Other(text) ==> decision == Err::<Action, RunError>(
            RunError::UnexpectedExit(text),
        ),
        decision is Err ==> exit is Other,
{
}

/// An exit that nothing handles is reported with its own description, whatever
/// that is, and behind the same words.
pub proof fn law_unexpected_exit_is_described(
    uart: Uart,
    exit: String,
    decision: Result<Action, RunError>,
)
    requires
        decides(uart, VcpuExit::Other(exit), decision),
    ensures
        decision is Err,
        decision->Err_0.text().len() == 22 + exit@.len(),
        decision->Err_0.text().take(22) == "Unexpected vCPU exit: "@,
        decision->Err_0.text().skip(22) == exit@,
{
    reveal_strlit("Unexpected vCPU exit: ");
    let words = "Unexpected vCPU exit: "@;
    assert(words.len() == 22);
    assert((words + exit@).take(22) =~= words);
    assert((words + exit@).skip(22) =~= exit@);
}

/// The serial device has ports 0x3F8 to 0x3FF. No other port, and no exit
/// without a port, does anything to it.
pub proof fn law_other_exits_leave_the_device(before: Uart, exit: VcpuExit, after: Uart)
    requires
        uart_follows(before, exit, after),
        exit matches VcpuExit::IoOut(port, _) ==> !(0x3F8 <= port <= 0x3FF),
        exit matches VcpuExit::IoIn(port, _) ==> !(0x3F8 <= port <= 0x3FF),
    ensures
        after == before,
{
}

/// What the guest writes to a control register of the serial device is there
/// afterwards, whatever state the device was in: the last byte to 0x3FB in line
/// control, to 0x3FC in modem control, to 0x3FF in scratch. So a guest that
/// leaves loopback and closes the latch has a device that transmits. Nothing
/// else changes.
pub proof fn law_device_takes_what_is_written(
    before: Uart,
    port: u16,
    data: Vec<u8>,
    after: Uart,
)
    requires
        uart_follows(before, VcpuExit::IoOut(port, data), after),
        data@.len() > 0,
    ensures
        port == 0x3FB ==> after == (Uart { line_control: data@.last(), ..before }),
        port == 0x3FC ==> after == (Uart { modem_control: data@.last(), ..before }),
        port == 0x3FF ==> after == (Uart { scratch: data@.last(), ..before }),
        port == 0x3FC && data@.last() & 0x10 == 0 && before.line_control & 0x80 == 0
            ==> after.transmits(),
        port == 0x3FB && data@.last() & 0x80 == 0 && before.modem_control & 0x10 == 0
            ==> after.transmits(),
        port == 0x3F8 && before.line_control & 0x80 == 0 && before.modem_control & 0x10 == 0
            ==> after.sent == before.sent + data@,
        port != 0x3F8 ==> after.sent == before.sent,
{
    let exit = VcpuExit::IoOut(port, data);
    if serial_port(port) {
        let offset = (port - COM1_PORT_BASE) as u8;
        let raised = choose|raised: Seq<bool>|
            raised.len() == data@.len() && after == #[trigger] before.written_all(
                offset,
                data@,
                raised,
            );
        law_last_byte_stays(before, offset, data@, raised);
    }
    lemma_exit_sends_what_it_prints(before, exit, after);
    if port != COM1_PORT_BASE {
        assert(before.sent + printed_by(before, exit) =~= before.sent);
    }
}

/// The guest reads back what it wrote: a read of line control, modem control or
/// scratch that follows a write gives its last byte, as often as it is asked
/// for. Line status says that the device is ready to send.
pub proof fn law_device_reads_back(
    before: Uart,
    port: u16,
    data: Vec<u8>,
    after: Uart,
    len: usize,
    decision: Result<Action, RunError>,
    k: int,
)
    requires
        uart_follows(before, VcpuExit::IoOut(port, data), after),
        data@.len() > 0,
        decides(after, VcpuExit::IoIn(port, len), decision),
        0 <= k < len,
        before.well_formed(),
    ensures
        decision matches Ok(Action::ResumeWith(bytes)) && {
            &&& port == 0x3FB || port == 0x3FC || port == 0x3FF ==> bytes@[k] == data@.last()
            &&& port == 0x3F9 && before.line_control & 0x80 == 0 ==> bytes@[k] == data@.last()
                & 0x0F
            &&& port == 0x3FD ==> bytes@[k] & 0x60 == 0x60
        },
{
    if serial_port(port) {
        let offset = (port - COM1_PORT_BASE) as u8;
        let raised = choose|raised: Seq<bool>|
            raised.len() == data@.len() && after == #[trigger] before.written_all(
                offset,
                data@,
                raised,
            );
        law_registers_read_back(before, offset, data@, raised, len as nat, k);
        law_last_byte_stays(before, offset, data@, raised);
        if port == 0x3FD {
            law_always_ready_to_send(after, len as nat, k);
        }
    }
}

/// What the guest prints by an exit: the bytes that it writes to the serial
/// data port while the device transmits.
pub open spec fn printed_by(uart: Uart, exit: VcpuExit) -> Seq<u8> {
    match exit {
        VcpuExit::IoOut(port, data) if port == COM1_PORT_BASE && uart.transmits() => data@,
        _ => Seq::empty(),
    }
}

/// What the guest prints by a series of exits, with the serial device as it is
/// before each of them.
pub open spec fn printed(uarts: Seq<Uart>, exits: Seq<VcpuExit>) -> Seq<u8>
    decreases exits.len(),
{
    if exits.len() == 0 {
        Seq::empty()
    } else {
        printed(uarts, exits.drop_last()) + printed_by(uarts[exits.len() - 1], exits.last())
    }
}

/// Whether the serial device can go through the states `uarts` over a series of
/// exits: one state before each, and one after the last.
pub open spec fn uart_goes_through(uarts: Seq<Uart>, exits: Seq<VcpuExit>) -> bool {
    &&& uarts.len() == exits.len() + 1
    &&& forall|i: int|
        0 <= i < exits.len() ==> uart_follows(uarts[i], #[trigger] exits[i], uarts[i + 1])
}

/// What reaches the host is what the guest prints: over any series of exits,
/// all of it, in order, and nothing else, whatever becomes of interrupts.
pub proof fn law_console_shows_what_is_printed(uarts: Seq<Uart>, exits: Seq<VcpuExit>)
    requires
        uart_goes_through(uarts, exits),
    ensures
        uarts.last().sent == uarts[0].sent + printed(uarts, exits),
    decreases exits.len(),
{
    if exits.len() > 0 {
        let n = exits.len() - 1;
        let earlier = exits.drop_last();
        assert forall|i: int| 0 <= i < earlier.len() implies uart_follows(
            uarts.drop_last()[i],
            #[trigger] earlier[i],
            uarts.drop_last()[i + 1],
        ) by {
            assert(uart_follows(uarts[i], exits[i], uarts[i + 1]));
        }
        law_console_shows_what_is_printed(uarts.drop_last(), earlier);
        lemma_printed_by_prefix(uarts, earlier);
        assert(uart_follows(uarts[n], exits[n], uarts[n + 1]));
        lemma_exit_sends_what_it_prints(uarts[n], exits[n], uarts[n + 1]);
        assert(uarts[0].sent + printed(uarts, earlier) + printed_by(uarts[n], exits[n])
            =~= uarts[0].sent + printed(uarts, exits));
    } else {
        assert(uarts[0].sent + printed(uarts, exits) =~= uarts[0].sent);
    }
}

/// The last state of the device has no part in what is printed.
proof fn lemma_printed_by_prefix(uarts: Seq<Uart>, exits: Seq<VcpuExit>)
    requires
        exits.len() < uarts.len(),
    ensures
        printed(uarts, exits) == printed(uarts.drop_last(), exits),
    decreases exits.len(),
{
    if exits.len() > 0 {
        lemma_printed_by_prefix(uarts, exits.drop_last());
    }
}

/// One exit adds to what is sent what the guest prints by it.
proof fn lemma_exit_sends_what_it_prints(before: Uart, exit: VcpuExit, after: Uart)
    requires
        uart_follows(before, exit, after),
    ensures
        after.sent == before.sent + printed_by(before, exit),
{
    match exit {
        VcpuExit::IoOut(port, data) if serial_port(port) => {
            let offset = (port - COM1_PORT_BASE) as u8;
            let raised = choose|raised: Seq<bool>|
                raised.len() == data@.len() && after == #[trigger] before.written_all(
                    offset,
                    data@,
                    raised,
                );
            if port == COM1_PORT_BASE && before.transmits() {
                law_transmits_in_order(before, data@, raised);
            } else {
                lemma_other_writes_send_nothing(before, offset, data@, raised);
                assert(before.sent + printed_by(before, exit) =~= before.sent);
            }
        },
        VcpuExit::IoIn(port, len) if serial_port(port) => {
            lemma_reads_send_nothing(before, (port - COM1_PORT_BASE) as u8, len as nat);
            assert(before.sent + printed_by(before, exit) =~= before.sent);
        },
        _ => {
            assert(before.sent + printed_by(before, exit) =~= before.sent);
        },
    }
}

/// Writes send nothing unless they go to the data register of a device that
/// transmits.
proof fn lemma_other_writes_send_nothing(
    uart: Uart,
    offset: u8,
    data: Seq<u8>,
    raised: Seq<bool>,
)
    requires
        offset != DATA || !uart.transmits(),
        raised.len() == data.len(),
    ensures
        ({
            let after = uart.written_all(offset, data, raised);
            &&& after.sent == uart.sent
            &&& offset == DATA ==> after.line_control == uart.line_control
            &&& offset == DATA ==> after.modem_control == uart.modem_control
        }),
    decreases data.len(),
{
    if data.len() > 0 {
        lemma_other_writes_send_nothing(uart, offset, data.drop_last(), raised.drop_last());
    }
}

/// Reads send nothing.
proof fn lemma_reads_send_nothing(uart: Uart, offset: u8, count: nat)
    ensures
        uart.after_reads(offset, count).sent == uart.sent,
    decreases count,
{
    if count > 0 {
        lemma_reads_send_nothing(uart, offset, (count - 1) as nat);
    }
}

} // verus!
