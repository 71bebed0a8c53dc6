//! Port-level access model: the instrumented bus that the UART driver and the
//! exit-signal protocol talk to.
//!
//! On real hardware every port access is one privileged bus transaction. This
//! model keeps a transcript of every write transaction, in order, and emulates
//! the two readable UART registers (line status and receiver buffer) so that
//! the driver's busy-wait loops can be reasoned about: the device reports
//! "not ready" for a scripted number of polls, then stays ready.

use vstd::prelude::*;

verus! {

/// Transmitter holding buffer (write, divisor latch disabled).
pub const THR: u16 = 0;
/// Receiver buffer (read, divisor latch disabled).
pub const RBR: u16 = 0;
/// Divisor latch low byte (read/write, divisor latch enabled).
pub const DLL: u16 = 0;
/// Interrupt enable register (divisor latch disabled).
pub const IER: u16 = 1;
/// Divisor latch high byte (divisor latch enabled).
pub const DLH: u16 = 1;
/// Line control register.
pub const LCR: u16 = 3;
/// Modem control register.
pub const MCR: u16 = 4;
/// Line status register.
pub const LSR: u16 = 5;

/// Line status flag: data ready.
pub const DR: u8 = 1;
/// Line status flag: empty transmitter holding register.
pub const ETHR: u8 = 0x20;

/// The well-known port a hosting emulator watches: one 32-bit write there
/// terminates the guest and reports the written value as the run's result.
pub const EXIT_PORT: u16 = 0xf4;

/// One write transaction on the port bus.
#[derive(Clone, Copy, PartialEq, Eq, Structural, Debug)]
#[allow(inconsistent_fields)]
pub enum PortOp {
    /// A byte-wide write, as issued for every UART register access.
    WriteByte { port: u16, value: u8 },
    /// A 32-bit write, as issued once by the exit-signal protocol.
    WriteWord { port: u16, value: u32 },
}

/// The instrumented port layer: records every write in `ops` and emulates one
/// UART at `uart_base`. A read of the line status register reports "busy"
/// `tx_waits` more times before the transmitter reports empty; the receiver
/// yields the scripted `input` bytes.
pub struct PortBus {
    /// Base address of the one emulated UART.
    pub uart_base: u16,
    /// How many further line-status polls report a busy transmitter.
    pub tx_waits: u64,
    /// Bytes the receiver buffer will yield, in order.
    pub input: Vec<u8>,
    /// Transcript of every write transaction, in issue order.
    pub ops: Vec<PortOp>,
}

impl PortBus {
    /// A fresh bus: an idle device with an empty transcript.
    pub fn new(uart_base: u16) -> (b: PortBus)
        ensures
            b.uart_base == uart_base,
            b.tx_waits == 0,
            b.input@ == Seq::<u8>::empty(),
            b.ops@ == Seq::<PortOp>::empty(),
    {
        PortBus { uart_base, tx_waits: 0, input: Vec::new(), ops: Vec::new() }
    }

    /// Script the device to report a busy transmitter for the next `n` polls.
    pub fn set_tx_waits(&mut self, n: u64)
        ensures
            final(self).uart_base == old(self).uart_base,
            final(self).tx_waits == n,
            final(self).input@ == old(self).input@,
            final(self).ops@ == old(self).ops@,
    {
        self.tx_waits = n;
    }

    /// Script one more byte for the receiver buffer to yield.
    pub fn feed_input(&mut self, byte: u8)
        ensures
            final(self).uart_base == old(self).uart_base,
            final(self).tx_waits == old(self).tx_waits,
            final(self).input@ == old(self).input@.push(byte),
            final(self).ops@ == old(self).ops@,
    {
        self.input.push(byte);
    }

    /// One byte-wide write transaction: appended to the transcript verbatim.
    pub fn write_byte(&mut self, port: u16, value: u8)
        ensures
            final(self).uart_base == old(self).uart_base,
            final(self).tx_waits == old(self).tx_waits,
            final(self).input@ == old(self).input@,
            final(self).ops@ == old(self).ops@.push(PortOp::WriteByte { port, value }),
    {
        self.ops.push(PortOp::WriteByte { port, value });
    }

    /// One 32-bit write transaction: appended to the transcript verbatim.
    pub fn write_word(&mut self, port: u16, value: u32)
        ensures
            final(self).uart_base == old(self).uart_base,
            final(self).tx_waits == old(self).tx_waits,
            final(self).input@ == old(self).input@,
            final(self).ops@ == old(self).ops@.push(PortOp::WriteWord { port, value }),
    {
        self.ops.push(PortOp::WriteWord { port, value });
    }

    /// One byte-wide read transaction. Reads mutate no transcript; only the
    /// two readable UART registers are emulated, any other port reads as 0.
    pub fn read_byte(&mut self, port: u16) -> (value: u8)
        requires
            old(self).uart_base + LSR <= u16::MAX,
        ensures
            final(self).uart_base == old(self).uart_base,
            final(self).ops@ == old(self).ops@,
            // Line status while the device is still busy: no flag raised.
            (port == old(self).uart_base + LSR && old(self).tx_waits > 0) ==> {
                &&& value == 0
                &&& value & ETHR == 0
                &&& value & DR == 0
                &&& final(self).tx_waits == old(self).tx_waits - 1
                &&& final(self).input@ == old(self).input@
            },
            // Line status once the waits ran out: transmitter empty, and data
            // ready exactly while scripted input remains.
            (port == old(self).uart_base + LSR && old(self).tx_waits == 0) ==> {
                &&& value & ETHR != 0
                &&& (value & DR != 0 <==> old(self).input@.len() > 0)
                &&& final(self).tx_waits == old(self).tx_waits
                &&& final(self).input@ == old(self).input@
            },
            // Receiver buffer: yields the next scripted byte, if any.
            (port == old(self).uart_base + RBR) ==> {
                &&& final(self).tx_waits == old(self).tx_waits
                &&& if old(self).input@.len() > 0 {
                        value == old(self).input@[0]
                        && final(self).input@ == old(self).input@.drop_first()
                    } else {
                        value == 0 && final(self).input@ == old(self).input@
                    }
            },
            (port != old(self).uart_base + LSR && port != old(self).uart_base + RBR) ==> {
                &&& value == 0
                &&& final(self).tx_waits == old(self).tx_waits
                &&& final(self).input@ == old(self).input@
            },
    {
        if port == self.uart_base + LSR {
            if self.tx_waits > 0 {
                self.tx_waits = self.tx_waits - 1;
                proof {
                    assert(0u8 & ETHR == 0 && 0u8 & DR == 0) by (bit_vector);
                }
                0
            } else {
                let ready: u8 = if self.input.len() > 0 { ETHR | DR } else { ETHR };
                proof {
                    assert((ETHR | DR) & ETHR != 0 && ETHR & ETHR != 0) by (bit_vector);
                    assert((ETHR | DR) & DR != 0 && ETHR & DR == 0) by (bit_vector);
                }
                ready
            }
        } else if port == self.uart_base + RBR {
            if self.input.len() > 0 {
                self.input.remove(0)
            } else {
                0
            }
        } else {
            0
        }
    }
}

} // verus!
