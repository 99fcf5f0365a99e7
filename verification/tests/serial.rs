use naos_linux::serial::{
    create, handle_read, handle_write, is_serial_port, EventFdTrigger, SerialConsole,
    COM1_PORT_BASE, COM1_PORT_COUNT, NONBLOCKING,
};
use vm_superio::Trigger;

fn out(serial: &mut SerialConsole, offset: u16, data: &[u8]) {
    handle_write(serial, COM1_PORT_BASE + offset, data);
}

fn inb(serial: &mut SerialConsole, offset: u16) -> u8 {
    let mut data = [0x55_u8];
    handle_read(serial, COM1_PORT_BASE + offset, &mut data);
    data[0]
}

#[test]
fn the_serial_ports_are_the_eight_of_com1() {
    for port in 0..=u16::MAX {
        assert_eq!(is_serial_port(port), (0x3F8..=0x3FF).contains(&port));
    }
    assert_eq!(COM1_PORT_COUNT, 8);
}

#[test]
fn written_characters_come_out_in_order() {
    let mut serial = create().unwrap();
    out(&mut serial, 0, b"Linux version ");
    out(&mut serial, 0, b"");
    out(&mut serial, 0, b"6");
    assert_eq!(serial.take_output(), b"Linux version 6");
    // What was taken is gone.
    assert_eq!(serial.take_output(), b"");
    out(&mut serial, 0, b"!");
    assert_eq!(serial.take_output(), b"!");
}

#[test]
fn registers_start_from_their_defaults() {
    let mut serial = create().unwrap();
    let values: Vec<u8> = (0..8).map(|offset| inb(&mut serial, offset)).collect();
    assert_eq!(values, [0, 0, 0xC1, 0x03, 0x08, 0x60, 0xB0, 0]);
    // With the divisor latch open: 9600 baud.
    out(&mut serial, 3, &[0x83]);
    assert_eq!(inb(&mut serial, 0), 0x0C);
    assert_eq!(inb(&mut serial, 1), 0);
    assert_eq!(serial.take_output(), b"");
}

#[test]
fn registers_hold_what_is_written() {
    let mut serial = create().unwrap();
    out(&mut serial, 1, &[0xF5]);
    assert_eq!(inb(&mut serial, 1), 0x05);
    out(&mut serial, 3, &[0x1B]);
    assert_eq!(inb(&mut serial, 3), 0x1B);
    out(&mut serial, 4, &[0x0B]);
    assert_eq!(inb(&mut serial, 4), 0x0B);
    out(&mut serial, 7, &[1, 2, 0xA5]);
    assert_eq!(inb(&mut serial, 7), 0xA5);
    // Read-only registers.
    for offset in [2, 5, 6] {
        out(&mut serial, offset, &[0xFF]);
    }
    assert_eq!(inb(&mut serial, 5), 0x60);
    assert_eq!(inb(&mut serial, 6), 0xB0);
    assert_eq!(serial.take_output(), b"");
}

#[test]
fn the_divisor_is_no_output() {
    let mut serial = create().unwrap();
    out(&mut serial, 3, &[0x83]);
    out(&mut serial, 0, &[0x01]);
    out(&mut serial, 1, &[0x02]);
    assert_eq!(inb(&mut serial, 0), 0x01);
    assert_eq!(inb(&mut serial, 1), 0x02);
    out(&mut serial, 3, &[0x03]);
    // Neither was the interrupt enable register written.
    assert_eq!(inb(&mut serial, 1), 0);
    out(&mut serial, 0, b"A");
    assert_eq!(serial.take_output(), b"A");
}

#[test]
fn the_line_is_always_ready_to_send() {
    let mut serial = create().unwrap();
    let mut data = [0_u8; 4];
    for byte in 0..=255 {
        out(&mut serial, 0, &[byte]);
        out(&mut serial, 4, &[byte]);
        handle_read(&mut serial, COM1_PORT_BASE + 5, &mut data);
        assert!(data.iter().all(|status| status & 0x60 == 0x60));
    }
}

#[test]
fn loopback_returns_what_is_sent() {
    let mut serial = create().unwrap();
    out(&mut serial, 4, &[0x1A]);
    // Modem status mirrors modem control: RTS and OUT2 are CTS and DCD.
    assert_eq!(inb(&mut serial, 6), 0x90);
    out(&mut serial, 4, &[0x15]);
    assert_eq!(inb(&mut serial, 6), 0x60);
    out(&mut serial, 0, b"xy");
    assert_eq!(inb(&mut serial, 5), 0x61);
    let mut data = [0xFF_u8; 3];
    handle_read(&mut serial, COM1_PORT_BASE, &mut data);
    assert_eq!(&data, b"xy\0");
    assert_eq!(inb(&mut serial, 5), 0x60);
    // The queue holds 64 bytes; what does not fit is lost.
    let bytes: Vec<u8> = (0..70).collect();
    out(&mut serial, 0, &bytes);
    let mut data = [0xFF_u8; 65];
    handle_read(&mut serial, COM1_PORT_BASE, &mut data);
    assert_eq!(data[..64], bytes[..64]);
    assert_eq!(data[64], 0);
    assert_eq!(serial.take_output(), b"");
}

#[test]
fn interrupts_are_identified_and_do_not_disturb_output() {
    let mut serial = create().unwrap();
    out(&mut serial, 1, &[0x02]);
    out(&mut serial, 0, b"abc");
    // Transmitter empty; reading it resets it.
    assert_eq!(inb(&mut serial, 2), 0xC2);
    assert_eq!(inb(&mut serial, 2), 0xC1);
    assert_eq!(serial.take_output(), b"abc");
}

#[test]
fn pending_interrupts_follow_the_registers() {
    let mut serial = create().unwrap();
    // In loopback mode, with both interrupts enabled: a received byte.
    out(&mut serial, 4, &[0x10]);
    out(&mut serial, 1, &[0x03]);
    assert_eq!(inb(&mut serial, 2), 0xC2);
    out(&mut serial, 0, b"ab");
    assert_eq!(inb(&mut serial, 2), 0xC4);
    // Reading a byte takes its interrupt back.
    out(&mut serial, 0, b"c");
    assert_eq!(inb(&mut serial, 0), b'a');
    assert_eq!(inb(&mut serial, 2), 0xC1);
    // Enabling anew tells of both.
    out(&mut serial, 1, &[0x00]);
    assert_eq!(inb(&mut serial, 2), 0xC1);
    out(&mut serial, 1, &[0x03]);
    assert_eq!(inb(&mut serial, 0), b'b');
    assert_eq!(inb(&mut serial, 2), 0xC2);
    out(&mut serial, 1, &[0x03]);
    assert_eq!(inb(&mut serial, 2), 0xC6);
    assert_eq!(serial.take_output(), b"");
}

#[test]
fn the_trigger_counts_in_its_descriptor() {
    let trigger = EventFdTrigger::new(libc::EFD_NONBLOCK).unwrap();
    assert!(trigger.read().is_err());
    trigger.trigger().unwrap();
    trigger.trigger().unwrap();
    assert_eq!(trigger.read().unwrap(), 2);
    // Flags that do not exist are refused.
    assert!(EventFdTrigger::new(-1).is_err());
    // A full counter takes no more, and a descriptor that never blocks says so.
    trigger.write(u64::MAX - 1).unwrap();
    let err = trigger.trigger().unwrap_err();
    assert_eq!(err.kind(), std::io::ErrorKind::WouldBlock);
    assert_eq!(NONBLOCKING, libc::EFD_NONBLOCK);
}
