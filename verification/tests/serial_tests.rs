use kernel_bringup::port::{PortBus, PortOp};
use kernel_bringup::serial::{SerialChannel, SerialPort, COM1, MAX_BAUD_RATE};

/// The bytes written to the UART's transmit port, in transcript order.
/// The divisor latch shares the transmit register's offset, so only the
/// transcript after the init sequence is decoded.
fn uart_bytes(ops: &[PortOp], base: u16) -> Vec<u8> {
    let mut out: Vec<u8> = Vec::new();
    for op in ops.iter() {
        match op {
            PortOp::WriteByte { port, value } => {
                if *port == base {
                    out.push(*value);
                }
            }
            PortOp::WriteWord { .. } => {}
        }
    }
    out
}

#[test]
fn init_sequence_writes_in_order() {
    let mut bus = PortBus::new(COM1);
    let _port = SerialPort::new(&mut bus, COM1, MAX_BAUD_RATE);
    // divisor = 115200 / 115200 = 1
    let expected = vec![
        PortOp::WriteByte { port: COM1 + 1, value: 0 },    // interrupts off
        PortOp::WriteByte { port: COM1 + 3, value: 0x80 }, // divisor latch open
        PortOp::WriteByte { port: COM1, value: 1 },        // divisor low
        PortOp::WriteByte { port: COM1 + 1, value: 0 },    // divisor high
        PortOp::WriteByte { port: COM1 + 3, value: 3 },    // framing 8n1
        PortOp::WriteByte { port: COM1 + 4, value: 0x0b }, // modem lines up
        PortOp::WriteByte { port: COM1 + 1, value: 1 },    // interrupts on
    ];
    assert_eq!(bus.ops, expected);
}

#[test]
fn divisor_bytes_for_slower_rate() {
    // 115200 / 300 = 384 = 0x0180: the divisor spills into the high byte.
    let mut bus = PortBus::new(COM1);
    let _port = SerialPort::new(&mut bus, COM1, 300);
    assert_eq!(bus.ops[2], PortOp::WriteByte { port: COM1, value: 0x80 });
    assert_eq!(bus.ops[3], PortOp::WriteByte { port: COM1 + 1, value: 0x01 });
}

#[test]
fn divisor_round_trip_examples() {
    for baud in [2u32, 300, 2400, 9600, 57600, 115200] {
        assert_eq!(MAX_BAUD_RATE % baud, 0);
        let divisor = MAX_BAUD_RATE / baud;
        let low = (divisor & 0xff) as u8;
        let high = ((divisor >> 8) & 0xff) as u8;
        assert_eq!((low as u32) | ((high as u32) << 8), divisor);
    }
}

#[test]
fn write_text_reproduces_bytes() {
    let mut bus = PortBus::new(COM1);
    let port = SerialPort::new(&mut bus, COM1, MAX_BAUD_RATE);
    let before = bus.ops.len();
    port.write_text(&mut bus, b"hello, uart");
    assert_eq!(bus.ops.len(), before + 11);
    assert_eq!(uart_bytes(&bus.ops[before..], COM1)[..], b"hello, uart"[..]);
}

#[test]
fn write_waits_out_busy_device() {
    let mut bus = PortBus::new(COM1);
    let port = SerialPort::new(&mut bus, COM1, MAX_BAUD_RATE);
    let before = bus.ops.len();
    bus.set_tx_waits(5);
    port.write(&mut bus, 0x58);
    // the busy polls leave no transcript entries, only the one data write
    assert_eq!(bus.ops.len(), before + 1);
    assert_eq!(bus.ops[before], PortOp::WriteByte { port: COM1, value: 0x58 });
    assert_eq!(bus.tx_waits, 0);
}

#[test]
fn read_returns_scripted_input() {
    let mut bus = PortBus::new(COM1);
    let port = SerialPort::new(&mut bus, COM1, MAX_BAUD_RATE);
    bus.feed_input(0x0d);
    bus.feed_input(0x0a);
    let writes_before = bus.ops.len();
    assert_eq!(port.read(&mut bus), 0x0d);
    assert_eq!(port.read(&mut bus), 0x0a);
    // reads leave the write transcript untouched
    assert_eq!(bus.ops.len(), writes_before);
}

#[test]
fn channel_writes_stay_contiguous() {
    let mut bus = PortBus::new(COM1);
    let port = SerialPort::new(&mut bus, COM1, MAX_BAUD_RATE);
    let chan = SerialChannel::new(port);
    let before = bus.ops.len();
    kernel_bringup::serial::_print(&chan, &mut bus, b"first message");
    kernel_bringup::serial::_print(&chan, &mut bus, b"second message");
    let bytes = uart_bytes(&bus.ops[before..], COM1);
    assert_eq!(&bytes[..13], b"first message");
    assert_eq!(&bytes[13..], b"second message");
}
