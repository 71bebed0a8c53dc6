//! UART serial driver: register-level init sequence, baud-rate divisor
//! arithmetic, busy-wait flow control, and the process-wide serial channel
//! that guards the one device behind a mutual-exclusion lock.

use vstd::prelude::*;
use crate::port::{PortBus, PortOp, THR, RBR, IER, DLL, DLH, LCR, MCR, LSR, DR, ETHR};

verus! {

/// Base I/O address of the one serial line this code drives.
pub const COM1: u16 = 0x3F8;

/// The fastest rate the UART clock supports; divisor 1.
pub const MAX_BAUD_RATE: u32 = 115_200;

/// The divisor programmed into the latch for a requested rate: truncating
/// integer division, no rounding compensation.
pub open spec fn divisor_of(baud: u32) -> u32
    recommends
        1 <= baud,
{
    (MAX_BAUD_RATE / baud) as u32
}

/// Low byte of a divisor, as written to the divisor latch.
pub open spec fn divisor_low(d: u32) -> u8 {
    (d & 0xff) as u8
}

/// High byte of a divisor, as written to the divisor latch.
pub open spec fn divisor_high(d: u32) -> u8 {
    ((d >> 8) & 0xff) as u8
}

/// For every baud rate that evenly divides the maximum supported rate and
/// whose divisor fits the two latch bytes, the low and high bytes,
/// recombined, reproduce the divisor exactly. (A rate of 1 baud is the one
/// even divisor left out: its divisor, the maximum rate itself, overflows
/// the 16-bit latch.)
pub proof fn lemma_divisor_round_trip(baud: u32)
    requires
        1 <= baud,
        MAX_BAUD_RATE % baud == 0,
        divisor_of(baud) <= 0xFFFF,
    ensures
        (divisor_low(divisor_of(baud)) as u32) | ((divisor_high(divisor_of(baud)) as u32) << 8)
            == divisor_of(baud),
{
    let d = divisor_of(baud);
    assert(d <= 0xFFFF ==> ((d & 0xff) as u8 as u32) | ((((d >> 8) & 0xff) as u8 as u32) << 8)
        == d) by (bit_vector);
}

/// The seven register writes of the init sequence, in the order the device
/// requires them: interrupts off, divisor latch opened, divisor low then
/// high, latch closed with 8-bit/no-parity/1-stop framing, modem lines
/// raised, interrupts back on.
pub open spec fn init_ops(base: u16, baud: u32) -> Seq<PortOp> {
    seq![
        PortOp::WriteByte { port: (base + IER) as u16, value: 0 },
        PortOp::WriteByte { port: (base + LCR) as u16, value: 0x80 },
        PortOp::WriteByte { port: (base + DLL) as u16, value: divisor_low(divisor_of(baud)) },
        PortOp::WriteByte { port: (base + DLH) as u16, value: divisor_high(divisor_of(baud)) },
        PortOp::WriteByte { port: (base + LCR) as u16, value: 3 },
        PortOp::WriteByte { port: (base + MCR) as u16, value: 0x0b },
        PortOp::WriteByte { port: (base + IER) as u16, value: 1 },
    ]
}

/// The transcript a text write leaves behind: each byte of `s`, in order,
/// as one byte-wide write to the transmitter holding buffer.
pub open spec fn byte_ops(base: u16, s: Seq<u8>) -> Seq<PortOp> {
    s.map(|i: int, b: u8| PortOp::WriteByte { port: (base + THR) as u16, value: b })
}

/// One UART instance: all register access goes through its fixed base
/// address. Valid only once `new` has run the full init sequence; `new` is
/// the only constructor, so no partially initialized instance exists.
#[derive(Clone, Copy)]
pub struct SerialPort {
    base: u16,
}

impl SerialPort {
    /// The fixed base I/O address this instance was initialized at.
    pub closed spec fn base_addr(&self) -> u16 {
        self.base
    }

    /// Register offsets must stay within the 16-bit port space.
    pub open spec fn wf(&self) -> bool {
        self.base_addr() + LSR <= u16::MAX
    }

    /// Runs the full init sequence on the device at `base` and hands out the
    /// initialized instance. The divisor is written truncated to its two
    /// latch bytes; an absent device discards the writes, which is never
    /// detected.
    pub fn new(bus: &mut PortBus, base: u16, baud_rate: u32) -> (this: SerialPort)
        requires
            1 <= baud_rate,
            base + LSR <= u16::MAX,
        ensures
            this.base_addr() == base,
            this.wf(),
            final(bus).uart_base == old(bus).uart_base,
            final(bus).tx_waits == old(bus).tx_waits,
            final(bus).input@ == old(bus).input@,
            final(bus).ops@ == old(bus).ops@ + init_ops(base, baud_rate),
    {
        let this = SerialPort { base };

        let dlv: u32 = MAX_BAUD_RATE / baud_rate;
        let dll: u8 = (dlv & 0xff) as u8;
        let dlh: u8 = ((dlv >> 8) & 0xff) as u8;

        // disable interrupts
        bus.write_byte(base + IER, 0);
        // enable divisor-latch access in order to set the speed
        bus.write_byte(base + LCR, 0x80);
        // set the baud rate
        bus.write_byte(base + DLL, dll);
        bus.write_byte(base + DLH, dlh);
        // close the latch and set the framing: no parity, one stop bit, 8-bit data
        bus.write_byte(base + LCR, 3);
        // raise auxiliary output 2, request-to-send and data-terminal-ready
        bus.write_byte(base + MCR, 0x0b);
        // re-enable interrupts
        bus.write_byte(base + IER, 1);

        proof {
            assert(final(bus).ops@ =~= old(bus).ops@ + init_ops(base, baud_rate));
        }
        this
    }

    /// Busy-waits on the transmit-empty line-status flag, then writes one
    /// byte to the transmitter holding buffer: exactly one transcript entry.
    pub fn write(&self, bus: &mut PortBus, byte: u8)
        requires
            self.wf(),
            self.base_addr() == old(bus).uart_base,
        ensures
            final(bus).uart_base == old(bus).uart_base,
            final(bus).tx_waits == 0,
            final(bus).input@ == old(bus).input@,
            final(bus).ops@ == old(bus).ops@.push(
                PortOp::WriteByte { port: (self.base_addr() + THR) as u16, value: byte },
            ),
    {
        let mut status: u8 = bus.read_byte(self.base + LSR);
        while status & ETHR == 0
            invariant
                self.wf(),
                self.base_addr() == bus.uart_base,
                bus.uart_base == old(bus).uart_base,
                bus.input@ == old(bus).input@,
                bus.ops@ == old(bus).ops@,
                status & ETHR != 0 ==> bus.tx_waits == 0,
            decreases bus.tx_waits + if status & ETHR == 0 { 1int } else { 0int },
        {
            status = bus.read_byte(self.base + LSR);
        }
        bus.write_byte(self.base + THR, byte);
    }

    /// Busy-waits on the data-ready line-status flag, then reads one byte
    /// from the receiver buffer. The device model only raises data-ready
    /// while input remains, so a byte must be pending for the wait to end.
    pub fn read(&self, bus: &mut PortBus) -> (byte: u8)
        requires
            self.wf(),
            self.base_addr() == old(bus).uart_base,
            old(bus).input@.len() > 0,
        ensures
            final(bus).uart_base == old(bus).uart_base,
            final(bus).input@ == old(bus).input@.drop_first(),
            final(bus).ops@ == old(bus).ops@,
            byte == old(bus).input@[0],
    {
        let mut status: u8 = bus.read_byte(self.base + LSR);
        while status & DR == 0
            invariant
                self.wf(),
                self.base_addr() == bus.uart_base,
                bus.uart_base == old(bus).uart_base,
                bus.input@ == old(bus).input@,
                bus.ops@ == old(bus).ops@,
                bus.input@.len() > 0,
            decreases bus.tx_waits + if status & DR == 0 { 1int } else { 0int },
        {
            status = bus.read_byte(self.base + LSR);
        }
        bus.read_byte(self.base + RBR)
    }

    /// Writes each byte of `s`, in order, verbatim: no encoding, no
    /// line-ending translation, nothing inserted, dropped or reordered. The
    /// transcript grows by exactly the bytes of `s`, contiguously.
    pub fn write_text(&self, bus: &mut PortBus, s: &[u8])
        requires
            self.wf(),
            self.base_addr() == old(bus).uart_base,
        ensures
            final(bus).uart_base == old(bus).uart_base,
            final(bus).input@ == old(bus).input@,
            final(bus).ops@ == old(bus).ops@ + byte_ops(self.base_addr(), s@),
    {
        let mut i: usize = 0;
        while i < s.len()
            invariant
                self.wf(),
                self.base_addr() == bus.uart_base,
                bus.uart_base == old(bus).uart_base,
                bus.input@ == old(bus).input@,
                i <= s@.len(),
                bus.ops@ == old(bus).ops@ + byte_ops(self.base_addr(), s@.take(i as int)),
            decreases s@.len() - i,
        {
            self.write(bus, s[i]);
            proof {
                assert(byte_ops(self.base_addr(), s@.take(i + 1 as int))
                    =~= byte_ops(self.base_addr(), s@.take(i as int)).push(
                        PortOp::WriteByte {
                            port: (self.base_addr() + THR) as u16,
                            value: s@[i as int],
                        },
                    ));
                assert(bus.ops@ =~= old(bus).ops@ + byte_ops(self.base_addr(), s@.take(i + 1 as int)));
            }
            i = i + 1;
        }
        proof {
            assert(s@.take(s@.len() as int) =~= s@);
        }
    }
}

/// The process-wide serial channel: exactly one `SerialPort` behind a
/// mutual-exclusion spin lock. The lock itself is outside code, so the cell
/// is opaque; `channel_base` names the base address of the port it guards.
#[verifier::external_body]
pub struct SerialChannel {
    mutex: spin::Mutex<SerialPort>,
}

/// The base address of the serial port a channel guards.
pub uninterp spec fn channel_base(chan: &SerialChannel) -> u16;

/// A held lock on the channel: while it lives, no other holder can reach the
/// guarded port. Wraps the spin lock's own guard, which releases on drop.
#[verifier::external_body]
pub struct ChannelGuard<'a> {
    guard: spin::MutexGuard<'a, SerialPort>,
}

/// The base address of the serial port a held guard gives access to.
pub uninterp spec fn guard_base(g: &ChannelGuard) -> u16;

impl SerialChannel {
    /// Relies on `spin::Mutex::new`: the returned lock wraps exactly the
    /// value handed to it.
    #[verifier::external_body]
    pub fn new(port: SerialPort) -> (chan: SerialChannel)
        ensures
            channel_base(&chan) == port.base_addr(),
    {
        SerialChannel { mutex: spin::Mutex::new(port) }
    }

    /// Relies on `spin::Mutex::lock`: spins until the lock is free, then
    /// returns the guard that alone permits access to the inner data until
    /// it is dropped. Acquiring again while already holding it spins forever;
    /// the guard therefore stays inside this module, where every take is
    /// paired with a release before the next.
    #[verifier::external_body]
    fn lock(&self) -> (g: ChannelGuard<'_>)
        ensures
            guard_base(&g) == channel_base(self),
    {
        ChannelGuard { guard: self.mutex.lock() }
    }
}

impl<'a> ChannelGuard<'a> {
    /// Relies on `spin::MutexGuard`'s `Deref`: the guard dereferences to the
    /// data the lock wraps.
    #[verifier::external_body]
    fn port(&self) -> (p: SerialPort)
        ensures
            p.base_addr() == guard_base(self),
    {
        *self.guard
    }
}

/// Writes `s` through the serial channel: takes the lock, writes every byte
/// of `s` verbatim while holding it, and releases it on return. The whole
/// write stands as one contiguous block in the transcript.
pub fn _print(chan: &SerialChannel, bus: &mut PortBus, s: &[u8])
    requires
        channel_base(chan) == old(bus).uart_base,
        channel_base(chan) + LSR <= u16::MAX,
    ensures
        final(bus).uart_base == old(bus).uart_base,
        final(bus).input@ == old(bus).input@,
        final(bus).ops@ == old(bus).ops@ + byte_ops(channel_base(chan), s@),
{
    let guard = chan.lock();
    let port = guard.port();
    port.write_text(bus, s);
}

/// A text write's transcript distributes over concatenation: writing `a` and
/// then `b` leaves the same entries as writing `a + b` at once.
pub proof fn lemma_byte_ops_concat(base: u16, a: Seq<u8>, b: Seq<u8>)
    ensures
        byte_ops(base, a + b) == byte_ops(base, a) + byte_ops(base, b),
{
    assert(byte_ops(base, a + b) =~= byte_ops(base, a) + byte_ops(base, b));
}

/// Callers contending for the channel never interleave bytes within a single
/// text write: when two calls go through the channel in turn, the transcript
/// holds the first call's bytes and then the second's as two contiguous
/// blocks, each recoverable unchanged from its own range.
pub proof fn lemma_channel_writes_not_interleaved(
    t0: Seq<PortOp>,
    base: u16,
    a: Seq<u8>,
    b: Seq<u8>,
)
    ensures
        (t0 + byte_ops(base, a) + byte_ops(base, b)).subrange(
            t0.len() as int,
            t0.len() + a.len() as int,
        ) == byte_ops(base, a),
        (t0 + byte_ops(base, a) + byte_ops(base, b)).subrange(
            t0.len() + a.len() as int,
            t0.len() + a.len() + b.len() as int,
        ) == byte_ops(base, b),
{
    assert((t0 + byte_ops(base, a) + byte_ops(base, b)).subrange(
        t0.len() as int,
        t0.len() + a.len() as int,
    ) =~= byte_ops(base, a));
    assert((t0 + byte_ops(base, a) + byte_ops(base, b)).subrange(
        t0.len() + a.len() as int,
        t0.len() + a.len() + b.len() as int,
    ) =~= byte_ops(base, b));
}

} // verus!
