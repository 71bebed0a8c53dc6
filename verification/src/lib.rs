//! Bring-up diagnostics for a freestanding kernel image: a UART serial
//! driver over an instrumented port layer, a lock-guarded global serial
//! channel, and a minimal self-hosted test harness that reports its result
//! to the controlling host through one exit-signal port write.

use vstd::prelude::*;

pub mod port;
pub mod serial;

use crate::port::{PortBus, PortOp, EXIT_PORT, LSR};
use crate::serial::{SerialChannel, byte_ops, channel_base, _print};

verus! {

/// The two process results the host can observe: 0 for a clean run, an
/// all-bits-set sentinel for a faulted one.
#[derive(Clone, Copy, PartialEq, Eq, Structural, Debug)]
pub enum QemuExitCode {
    Success,
    Failed,
}

impl QemuExitCode {
    /// The fixed 32-bit pattern written to the exit port for this result.
    pub open spec fn code_spec(&self) -> u32 {
        match self {
            QemuExitCode::Success => 0,
            QemuExitCode::Failed => 0xFFFF_FFFFu32,
        }
    }

    /// The fixed 32-bit pattern written to the exit port for this result.
    pub fn code(&self) -> (r: u32)
        ensures
            r == self.code_spec(),
    {
        match self {
            QemuExitCode::Success => 0,
            QemuExitCode::Failed => 0xFFFF_FFFF,
        }
    }
}

/// One 32-bit write of `exit_code` to the well-known exit port: the hosting
/// emulator observes it in place of a process exit code and terminates the
/// guest. The last meaningful action of a run; the caller then falls into
/// its non-returning idle loop.
pub fn exit_qemu(bus: &mut PortBus, exit_code: u32)
    ensures
        final(bus).uart_base == old(bus).uart_base,
        final(bus).tx_waits == old(bus).tx_waits,
        final(bus).input@ == old(bus).input@,
        final(bus).ops@ == old(bus).ops@.push(
            PortOp::WriteWord { port: EXIT_PORT, value: exit_code },
        ),
{
    bus.write_word(EXIT_PORT, exit_code);
}

/// Appends every byte of `s` to `v`, in order.
fn push_all(v: &mut Vec<u8>, s: &[u8])
    ensures
        final(v)@ == old(v)@ + s@,
{
    let mut i: usize = 0;
    while i < s.len()
        invariant
            i <= s@.len(),
            v@ == old(v)@ + s@.take(i as int),
        decreases s@.len() - i,
    {
        v.push(s[i]);
        proof {
            assert(old(v)@ + s@.take(i + 1 as int) =~= (old(v)@ + s@.take(i as int)).push(
                s@[i as int],
            ));
        }
        i = i + 1;
    }
    proof {
        assert(s@.take(s@.len() as int) =~= s@);
    }
}

/// `"Running "`, the header's opening words.
pub open spec fn running_prefix() -> Seq<u8> {
    seq![0x52u8, 0x75, 0x6e, 0x6e, 0x69, 0x6e, 0x67, 0x20]
}

/// Builds the header's opening words.
fn running_prefix_text() -> (v: Vec<u8>)
    ensures
        v@ == running_prefix(),
{
    let mut v: Vec<u8> = Vec::new();
    v.push(0x52);
    v.push(0x75);
    v.push(0x6e);
    v.push(0x6e);
    v.push(0x69);
    v.push(0x6e);
    v.push(0x67);
    v.push(0x20);
    proof {
        assert(v@ =~= running_prefix());
    }
    v
}

/// `" tests\n"`, the header's closing words.
pub open spec fn count_suffix() -> Seq<u8> {
    seq![0x20u8, 0x74, 0x65, 0x73, 0x74, 0x73, 0x0a]
}

/// Builds the header's closing words.
fn count_suffix_text() -> (v: Vec<u8>)
    ensures
        v@ == count_suffix(),
{
    let mut v: Vec<u8> = Vec::new();
    v.push(0x20);
    v.push(0x74);
    v.push(0x65);
    v.push(0x73);
    v.push(0x74);
    v.push(0x73);
    v.push(0x0a);
    proof {
        assert(v@ =~= count_suffix());
    }
    v
}

/// `"\t"`, printed between a test's name and its marker.
pub open spec fn tab() -> Seq<u8> {
    seq![0x09u8]
}

/// `"[ok]\n"`, the marker after a test that returned normally.
pub open spec fn ok_marker() -> Seq<u8> {
    seq![0x5bu8, 0x6f, 0x6b, 0x5d, 0x0a]
}

/// Builds the success marker.
fn ok_marker_text() -> (v: Vec<u8>)
    ensures
        v@ == ok_marker(),
{
    let mut v: Vec<u8> = Vec::new();
    v.push(0x5b);
    v.push(0x6f);
    v.push(0x6b);
    v.push(0x5d);
    v.push(0x0a);
    proof {
        assert(v@ =~= ok_marker());
    }
    v
}

/// `"[failed]\n"`, the distinct marker the fault path prints.
pub open spec fn failed_marker() -> Seq<u8> {
    seq![0x5bu8, 0x66, 0x61, 0x69, 0x6c, 0x65, 0x64, 0x5d, 0x0a]
}

/// `"Error: "`, printed before the fault's description.
pub open spec fn error_prefix() -> Seq<u8> {
    seq![0x45u8, 0x72, 0x72, 0x6f, 0x72, 0x3a, 0x20]
}

/// Builds the fault line up to the description: `"[failed]\nError: "`.
fn fault_line_text() -> (v: Vec<u8>)
    ensures
        v@ == failed_marker() + error_prefix(),
{
    let mut v: Vec<u8> = Vec::new();
    v.push(0x5b);
    v.push(0x66);
    v.push(0x61);
    v.push(0x69);
    v.push(0x6c);
    v.push(0x65);
    v.push(0x64);
    v.push(0x5d);
    v.push(0x0a);
    v.push(0x45);
    v.push(0x72);
    v.push(0x72);
    v.push(0x6f);
    v.push(0x72);
    v.push(0x3a);
    v.push(0x20);
    proof {
        assert(v@ =~= failed_marker() + error_prefix());
    }
    v
}

/// The decimal digits of `n`, most significant first, no sign, no padding.
pub open spec fn dec_spec(n: u64) -> Seq<u8>
    decreases n,
{
    if n < 10 {
        seq![(48 + n) as u8]
    } else {
        dec_spec(n / 10).push((48 + n % 10) as u8)
    }
}

/// Formats `n` in decimal.
pub fn fmt_u64(n: u64) -> (v: Vec<u8>)
    ensures
        v@ == dec_spec(n),
    decreases n,
{
    if n < 10 {
        let mut v: Vec<u8> = Vec::new();
        let d: u8 = (48 + n) as u8;
        v.push(d);
        proof {
            assert(v@ =~= dec_spec(n));
        }
        v
    } else {
        proof {
            assert(n / 10 < n) by (nonlinear_arith)
                requires n >= 10,
            ;
        }
        let mut v: Vec<u8> = fmt_u64(n / 10);
        let d: u8 = (48 + n % 10) as u8;
        v.push(d);
        v
    }
}

/// The harness's opening line: the exact count of registered tests, between
/// the header's fixed words, reported before any test runs.
pub open spec fn header_bytes(n: u64) -> Seq<u8> {
    running_prefix() + dec_spec(n) + count_suffix()
}

/// What invoking a test procedure came to: a normal return, or the process-
/// wide fault with its description. A test signals failure exclusively by
/// faulting; there is no return-value-based signalling.
pub enum TestOutcome {
    Pass,
    Fault(Vec<u8>),
}

/// A zero-argument test procedure with the display name captured at
/// registration, together with what invoking it came to.
pub struct TestCase {
    pub name: Vec<u8>,
    pub outcome: TestOutcome,
}

/// A runnable test: reports its own name and success marker through the
/// serial channel; on a fault it stops reporting and hands the description
/// back for the one process-wide fault path.
pub trait Testable {
    /// The display name captured at registration.
    spec fn name_view(&self) -> Seq<u8>;

    /// The fault this test raises, if invoking it does not return normally.
    spec fn fault_view(&self) -> Option<Seq<u8>>;

    /// Prints the name, invokes the procedure and, only on a normal return,
    /// prints the success marker. On a fault, returns its description: the
    /// caller must hand it to the fault path and never resume the run.
    fn run(&self, chan: &SerialChannel, bus: &mut PortBus) -> (r: Option<Vec<u8>>)
        requires
            channel_base(chan) == old(bus).uart_base,
            channel_base(chan) + LSR <= u16::MAX,
        ensures
            final(bus).uart_base == old(bus).uart_base,
            final(bus).input@ == old(bus).input@,
            match self.fault_view() {
                None => {
                    &&& r is None
                    &&& final(bus).ops@ == old(bus).ops@ + byte_ops(
                        channel_base(chan),
                        self.name_view() + tab() + ok_marker(),
                    )
                },
                Some(m) => {
                    &&& r matches Some(v) && v@ == m
                    &&& final(bus).ops@ == old(bus).ops@ + byte_ops(
                        channel_base(chan),
                        self.name_view() + tab(),
                    )
                },
            },
    ;
}

impl Testable for TestCase {
    open spec fn name_view(&self) -> Seq<u8> {
        self.name@
    }

    open spec fn fault_view(&self) -> Option<Seq<u8>> {
        match self.outcome {
            TestOutcome::Pass => None,
            TestOutcome::Fault(m) => Some(m@),
        }
    }

    fn run(&self, chan: &SerialChannel, bus: &mut PortBus) -> (r: Option<Vec<u8>>) {
        let mut line: Vec<u8> = Vec::new();
        push_all(&mut line, self.name.as_slice());
        line.push(0x09);
        _print(chan, bus, line.as_slice());
        proof {
            assert(line@ =~= self.name_view() + tab());
        }
        match &self.outcome {
            TestOutcome::Pass => {
                let ok = ok_marker_text();
                _print(chan, bus, ok.as_slice());
                proof {
                    crate::serial::lemma_byte_ops_concat(
                        channel_base(chan),
                        self.name_view() + tab(),
                        ok_marker(),
                    );
                    assert((self.name_view() + tab()) + ok_marker() =~= self.name_view() + tab()
                        + ok_marker());
                }
                None
            },
            TestOutcome::Fault(m) => {
                let mut description: Vec<u8> = Vec::new();
                push_all(&mut description, m.as_slice());
                Some(description)
            },
        }
    }
}

/// The serial bytes one test leaves behind: its name and a tab, then either
/// the success marker, or the fault line the fault path prints.
pub open spec fn case_output(t: TestCase) -> Seq<u8> {
    match t.outcome {
        TestOutcome::Pass => t.name@ + tab() + ok_marker(),
        TestOutcome::Fault(m) => t.name@ + tab() + failed_marker() + error_prefix() + m@
            + seq![0x0au8],
    }
}

/// Every test in the sequence returned normally.
pub open spec fn all_pass(ts: Seq<TestCase>) -> bool {
    forall|i: int| 0 <= i < ts.len() ==> ts[i].outcome is Pass
}

/// The serial bytes a whole run leaves after its header: each test's output
/// in declaration order, cut off right after the first test that faults —
/// the tests after it never execute.
pub open spec fn run_output(ts: Seq<TestCase>) -> Seq<u8>
    decreases ts.len(),
{
    if ts.len() == 0 {
        Seq::empty()
    } else if ts[0].outcome is Pass {
        case_output(ts[0]) + run_output(ts.drop_first())
    } else {
        case_output(ts[0])
    }
}

/// The exit signal a run ends with: Success exactly when every test passed.
pub open spec fn run_exit(ts: Seq<TestCase>) -> QemuExitCode {
    if all_pass(ts) {
        QemuExitCode::Success
    } else {
        QemuExitCode::Failed
    }
}

/// Splits a run's output at test `i`, the first that could diverge: while
/// everything before `i` passed, a passing `ts[i]` extends the cut-off
/// output by its block, and a faulting `ts[i]` ends the whole run's output
/// with its block.
proof fn lemma_run_output_split(ts: Seq<TestCase>, i: int)
    requires
        0 <= i < ts.len(),
        all_pass(ts.take(i)),
    ensures
        ts[i].outcome is Pass ==> run_output(ts.take(i + 1)) == run_output(ts.take(i))
            + case_output(ts[i]),
        !(ts[i].outcome is Pass) ==> run_output(ts) == run_output(ts.take(i)) + case_output(
            ts[i],
        ),
    decreases i,
{
    if i == 0 {
        assert(ts.take(0) =~= Seq::<TestCase>::empty());
        if ts[0].outcome is Pass {
            assert(ts.take(1).drop_first() =~= Seq::<TestCase>::empty());
            assert(ts.take(1)[0] == ts[0]);
            assert(run_output(ts.take(1).drop_first()) =~= Seq::<u8>::empty());
            assert(run_output(ts.take(1)) =~= case_output(ts[0]));
        }
    } else {
        assert(ts.take(i)[0] == ts[0]);
        assert(ts[0].outcome is Pass);
        assert(all_pass(ts.drop_first().take(i - 1))) by {
            assert forall|j: int| 0 <= j < i - 1 implies #[trigger] ts.drop_first().take(
                i - 1,
            )[j].outcome is Pass by {
                assert(ts.drop_first().take(i - 1)[j] == ts[j + 1]);
                assert(ts.take(i)[j + 1].outcome is Pass);
            }
        }
        lemma_run_output_split(ts.drop_first(), i - 1);
        assert(ts.drop_first().take(i - 1) =~= ts.take(i).drop_first());
        assert(ts.drop_first().take(i) =~= ts.take(i + 1).drop_first());
        assert(ts.drop_first()[i - 1] == ts[i]);
    }
}

/// A fault in one test ends the run: the tests after it never execute and
/// leave no trace — the run's whole output equals that of the run cut off
/// right after the faulting test — and the exit signal is Failed.
pub proof fn lemma_fault_stops_run(ts: Seq<TestCase>, i: int)
    requires
        0 <= i < ts.len(),
        all_pass(ts.take(i)),
        ts[i].outcome is Fault,
    ensures
        run_output(ts) == run_output(ts.take(i + 1)),
        run_exit(ts) == QemuExitCode::Failed,
{
    lemma_run_output_split(ts, i);
    let cut = ts.take(i + 1);
    assert(cut.take(i) =~= ts.take(i));
    lemma_run_output_split(cut, i);
    assert(!all_pass(ts));
}

/// An all-passing run signals Success, and its output is each test's name
/// followed by the success marker, block after block in declaration order.
pub proof fn lemma_all_pass_run(ts: Seq<TestCase>)
    requires
        all_pass(ts),
    ensures
        run_exit(ts) == QemuExitCode::Success,
        run_output(ts) == ts.map_values(|t: TestCase| case_output(t)).flatten(),
    decreases ts.len(),
{
    let blocks = ts.map_values(|t: TestCase| case_output(t));
    if ts.len() == 0 {
        assert(blocks =~= Seq::<Seq<u8>>::empty());
        assert(blocks.flatten() =~= Seq::<u8>::empty());
    } else {
        assert(all_pass(ts.drop_first()));
        lemma_all_pass_run(ts.drop_first());
        assert(ts.drop_first().map_values(|t: TestCase| case_output(t)) =~= blocks.drop_first());
        assert(blocks.flatten() == blocks.first() + blocks.drop_first().flatten());
    }
}

/// The single process-wide fault entry point in test mode: reports the fault
/// description with the distinct failure marker through the serial channel,
/// then signals Failed. It is never caught or resumed; after it the caller's
/// only move is its non-returning idle loop.
pub fn test_panic_handler(chan: &SerialChannel, bus: &mut PortBus, description: &[u8]) -> (r:
    QemuExitCode)
    requires
        channel_base(chan) == old(bus).uart_base,
        channel_base(chan) + LSR <= u16::MAX,
    ensures
        r == QemuExitCode::Failed,
        final(bus).uart_base == old(bus).uart_base,
        final(bus).input@ == old(bus).input@,
        final(bus).ops@ == old(bus).ops@ + byte_ops(
            channel_base(chan),
            failed_marker() + error_prefix() + description@ + seq![0x0au8],
        ) + seq![PortOp::WriteWord { port: EXIT_PORT, value: 0xFFFF_FFFFu32 }],
{
    let mut line: Vec<u8> = fault_line_text();
    push_all(&mut line, description);
    line.push(0x0a);
    _print(chan, bus, line.as_slice());
    proof {
        assert(line@ =~= failed_marker() + error_prefix() + description@ + seq![0x0au8]);
    }
    exit_qemu(bus, QemuExitCode::Failed.code());
    QemuExitCode::Failed
}

/// Runs every registered test in declaration order: reports the exact
/// registered count before any test runs, then each test's name and marker;
/// hands the first fault to the fault path, after which the remaining tests
/// never execute; on exhausting all tests without fault, signals Success.
/// Returns the code it signalled; the caller then falls into its idle loop.
pub fn test_runner(chan: &SerialChannel, bus: &mut PortBus, tests: &Vec<TestCase>) -> (r:
    QemuExitCode)
    requires
        channel_base(chan) == old(bus).uart_base,
        channel_base(chan) + LSR <= u16::MAX,
    ensures
        r == run_exit(tests@),
        final(bus).uart_base == old(bus).uart_base,
        final(bus).input@ == old(bus).input@,
        final(bus).ops@ == old(bus).ops@ + byte_ops(
            channel_base(chan),
            header_bytes(tests@.len() as u64) + run_output(tests@),
        ) + seq![
            PortOp::WriteWord { port: EXIT_PORT, value: run_exit(tests@).code_spec() },
        ],
{
    let mut header: Vec<u8> = running_prefix_text();
    let mut digits: Vec<u8> = fmt_u64(tests.len() as u64);
    header.append(&mut digits);
    let mut suffix: Vec<u8> = count_suffix_text();
    header.append(&mut suffix);
    _print(chan, bus, header.as_slice());
    proof {
        assert(header@ =~= header_bytes(tests@.len() as u64));
    }

    let mut i: usize = 0;
    while i < tests.len()
        invariant
            channel_base(chan) == bus.uart_base,
            channel_base(chan) + LSR <= u16::MAX,
            bus.uart_base == old(bus).uart_base,
            bus.input@ == old(bus).input@,
            i <= tests@.len(),
            all_pass(tests@.take(i as int)),
            bus.ops@ == old(bus).ops@ + byte_ops(
                channel_base(chan),
                header_bytes(tests@.len() as u64) + run_output(tests@.take(i as int)),
            ),
        decreases tests@.len() - i,
    {
        let outcome = tests[i].run(chan, bus);
        proof {
            lemma_run_output_split(tests@, i as int);
        }
        match outcome {
            None => {
                proof {
                    let b = channel_base(chan);
                    let h = header_bytes(tests@.len() as u64);
                    let done = run_output(tests@.take(i as int));
                    let block = case_output(tests@[i as int]);
                    crate::serial::lemma_byte_ops_concat(b, h + done, block);
                    assert((h + done) + block =~= h + run_output(tests@.take(i + 1 as int)));
                    assert(bus.ops@ =~= old(bus).ops@ + byte_ops(
                        b,
                        h + run_output(tests@.take(i + 1 as int)),
                    ));
                    assert(all_pass(tests@.take(i + 1 as int)));
                }
                i = i + 1;
            },
            Some(description) => {
                let code = test_panic_handler(chan, bus, description.as_slice());
                proof {
                    lemma_fault_stops_run(tests@, i as int);
                    let b = channel_base(chan);
                    let h = header_bytes(tests@.len() as u64);
                    let done = run_output(tests@.take(i as int));
                    let opened = tests@[i as int].name@ + tab();
                    let fault_line = failed_marker() + error_prefix() + description@
                        + seq![0x0au8];
                    crate::serial::lemma_byte_ops_concat(b, h + done, opened);
                    crate::serial::lemma_byte_ops_concat(b, (h + done) + opened, fault_line);
                    assert(((h + done) + opened) + fault_line =~= h + run_output(tests@));
                    assert(byte_ops(b, ((h + done) + opened) + fault_line) == byte_ops(
                        b,
                        h + run_output(tests@),
                    ));
                    assert(bus.ops@ =~= old(bus).ops@ + byte_ops(b, h + run_output(tests@))
                        + seq![
                        PortOp::WriteWord { port: EXIT_PORT, value: run_exit(tests@).code_spec() },
                    ]);
                }
                return code;
            },
        }
    }
    proof {
        assert(tests@.take(tests@.len() as int) =~= tests@);
    }
    exit_qemu(bus, QemuExitCode::Success.code());
    QemuExitCode::Success
}

} // verus!

