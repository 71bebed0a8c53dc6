use kernel_bringup::port::{PortBus, PortOp, EXIT_PORT};
use kernel_bringup::serial::{SerialChannel, SerialPort, COM1, MAX_BAUD_RATE};
use kernel_bringup::{exit_qemu, fmt_u64, test_runner, QemuExitCode, TestCase, TestOutcome};

/// A channel and bus wired the way the boot path would wire them, with the
/// init sequence already in the transcript.
fn boot() -> (SerialChannel, PortBus) {
    let mut bus = PortBus::new(COM1);
    let port = SerialPort::new(&mut bus, COM1, MAX_BAUD_RATE);
    let chan = SerialChannel::new(port);
    (chan, bus)
}

/// The serial text a run wrote, decoded from the transcript's byte writes.
/// The divisor latch shares the transmit register's offset, so the init
/// sequence's seven leading transactions are skipped.
fn serial_text(bus: &PortBus) -> String {
    let mut out: Vec<u8> = Vec::new();
    for op in bus.ops.iter().skip(7) {
        if let PortOp::WriteByte { port, value } = op {
            if *port == COM1 {
                out.push(*value);
            }
        }
    }
    String::from_utf8(out).unwrap()
}

fn passing(name: &str) -> TestCase {
    TestCase { name: name.as_bytes().to_vec(), outcome: TestOutcome::Pass }
}

fn faulting(name: &str, message: &str) -> TestCase {
    TestCase { name: name.as_bytes().to_vec(), outcome: TestOutcome::Fault(message.as_bytes().to_vec()) }
}

#[test]
fn reports_exact_test_count() {
    let (chan, mut bus) = boot();
    let tests = vec![passing("one"), passing("two"), passing("three")];
    test_runner(&chan, &mut bus, &tests);
    let text = serial_text(&bus);
    assert!(text.starts_with("Running 3 tests\n"));
    // the count stands before any test output
    assert!(text.find("one").unwrap() > text.find("Running 3 tests\n").unwrap());
}

#[test]
fn all_passing_run() {
    let (chan, mut bus) = boot();
    let tests = vec![passing("one_equals_one"), passing("two_equals_two")];
    let code = test_runner(&chan, &mut bus, &tests);
    assert_eq!(code, QemuExitCode::Success);
    let text = serial_text(&bus);
    assert_eq!(
        text,
        "Running 2 tests\none_equals_one\t[ok]\ntwo_equals_two\t[ok]\n"
    );
    // the exit signal is the last transaction, and it reports Success (0)
    assert_eq!(
        bus.ops.last().unwrap(),
        &PortOp::WriteWord { port: EXIT_PORT, value: 0 }
    );
}

#[test]
fn fault_stops_the_run() {
    let (chan, mut bus) = boot();
    let tests = vec![
        passing("first"),
        faulting("second", "assertion failed: 2 == 3"),
        passing("third"),
    ];
    let code = test_runner(&chan, &mut bus, &tests);
    assert_eq!(code, QemuExitCode::Failed);
    let text = serial_text(&bus);
    assert_eq!(
        text,
        "Running 3 tests\nfirst\t[ok]\nsecond\t[failed]\nError: assertion failed: 2 == 3\n"
    );
    // the test after the fault never executed
    assert!(!text.contains("third"));
    // the exit signal reports Failed: the all-bits-set sentinel
    assert_eq!(
        bus.ops.last().unwrap(),
        &PortOp::WriteWord { port: EXIT_PORT, value: u32::MAX }
    );
}

#[test]
fn trivial_assertion() {
    let (chan, mut bus) = boot();
    let tests = vec![passing("trivial assertion")];
    let code = test_runner(&chan, &mut bus, &tests);
    assert_eq!(code, QemuExitCode::Success);
    assert_eq!(serial_text(&bus), "Running 1 tests\ntrivial assertion\t[ok]\n");
}

#[test]
fn empty_run_signals_success() {
    let (chan, mut bus) = boot();
    let tests: Vec<TestCase> = Vec::new();
    let code = test_runner(&chan, &mut bus, &tests);
    assert_eq!(code, QemuExitCode::Success);
    assert_eq!(serial_text(&bus), "Running 0 tests\n");
    assert_eq!(
        bus.ops.last().unwrap(),
        &PortOp::WriteWord { port: EXIT_PORT, value: 0 }
    );
}

#[test]
fn exit_qemu_writes_exit_port() {
    let mut bus = PortBus::new(COM1);
    exit_qemu(&mut bus, 0);
    assert_eq!(bus.ops, vec![PortOp::WriteWord { port: EXIT_PORT, value: 0 }]);
}

#[test]
fn exit_code_patterns() {
    assert_eq!(QemuExitCode::Success.code(), 0);
    assert_eq!(QemuExitCode::Failed.code(), u32::MAX);
}

#[test]
fn decimal_count_formatting() {
    assert_eq!(fmt_u64(0), b"0".to_vec());
    assert_eq!(fmt_u64(7), b"7".to_vec());
    assert_eq!(fmt_u64(10), b"10".to_vec());
    assert_eq!(fmt_u64(115200), b"115200".to_vec());
}
