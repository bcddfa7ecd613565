use ttyecho::device_path::{is_valid_path, normalize_path};
use ttyecho::payload::prepare_payload;
use ttyecho::session::{Call, Event, InjectError, Injection, Step};

/// What a simulated device saw during one run.
struct Trace {
    opened_path: Vec<u8>,
    injected: Vec<u8>,
    opens: usize,
    closes: usize,
    result: Result<(), InjectError>,
}

/// Drives a run against a simulated device that opens when `open_ok` holds and
/// refuses the injection with index `fail_at`, if any.
fn run(tty: &[u8], data: &[u8], new_line: bool, open_ok: bool, fail_at: Option<usize>) -> Result<Trace, InjectError> {
    let mut inj = Injection::new(tty.to_vec(), data.to_vec(), new_line)?;
    let mut trace = Trace { opened_path: Vec::new(), injected: Vec::new(), opens: 0, closes: 0, result: Ok(()) };
    let mut attempts: usize = 0;
    let mut event = Event::Begin;
    loop {
        assert!(inj.accepts(event));
        match inj.step(event) {
            Step::Perform(Call::Open) => {
                trace.opens += 1;
                trace.opened_path = inj.device_path().clone();
                event = if open_ok { Event::Opened } else { Event::OpenFailed };
            }
            Step::Perform(Call::Inject(b)) => {
                assert_eq!(trace.opens, 1);
                assert_eq!(trace.closes, 0);
                if fail_at == Some(attempts) {
                    event = Event::InjectFailed;
                } else {
                    trace.injected.push(b);
                    event = Event::Injected;
                }
                attempts += 1;
            }
            Step::Perform(Call::Close) => {
                trace.closes += 1;
                event = Event::Closed;
            }
            Step::Finish(r) => {
                trace.result = r;
                assert!(!inj.accepts(Event::Closed));
                return Ok(trace);
            }
        }
    }
}

#[test]
fn echo_hi_with_new_line() {
    let t = run(b"/dev/pts/5", b"echo hi", true, true, None).unwrap();
    assert_eq!(t.result, Ok(()));
    assert_eq!(t.injected, b"echo hi\r".to_vec());
    assert_eq!(t.injected.len(), 8);
    assert_eq!(t.opens, 1);
    assert_eq!(t.closes, 1);
    assert_eq!(t.opened_path, b"/dev/pts/5\0".to_vec());
}

#[test]
fn terminated_path_without_new_line() {
    let t = run(b"/dev/pts/5\0", b"ls", false, true, None).unwrap();
    assert_eq!(t.result, Ok(()));
    assert_eq!(t.injected, b"ls".to_vec());
    assert_eq!(t.opened_path, b"/dev/pts/5\0".to_vec());
    assert_eq!(t.opens, 1);
    assert_eq!(t.closes, 1);
}

#[test]
fn missing_device_is_not_closed() {
    let t = run(b"/dev/pts/does-not-exist", b"ls", true, false, None).unwrap();
    assert_eq!(t.result, Err(InjectError::DeviceOpenFailure));
    assert!(t.injected.is_empty());
    assert_eq!(t.opens, 1);
    assert_eq!(t.closes, 0);
}

#[test]
fn empty_message_with_new_line_is_one_carriage_return() {
    let t = run(b"/dev/pts/1", b"", true, true, None).unwrap();
    assert_eq!(t.result, Ok(()));
    assert_eq!(t.injected, vec![b'\r']);
    assert_eq!(t.closes, 1);
}

#[test]
fn empty_message_without_new_line_injects_nothing() {
    let t = run(b"/dev/pts/1", b"", false, true, None).unwrap();
    assert_eq!(t.result, Ok(()));
    assert!(t.injected.is_empty());
    assert_eq!(t.opens, 1);
    assert_eq!(t.closes, 1);
}

#[test]
fn refused_byte_stops_and_closes() {
    let t = run(b"/dev/pts/2", b"abcdef", false, true, Some(3)).unwrap();
    assert_eq!(t.result, Err(InjectError::InjectionFailure { injected: 3 }));
    assert_eq!(t.injected, b"abc".to_vec());
    assert_eq!(t.opens, 1);
    assert_eq!(t.closes, 1);
}

#[test]
fn refused_first_byte_reports_none_taken() {
    let t = run(b"/dev/pts/2", b"x", true, true, Some(0)).unwrap();
    assert_eq!(t.result, Err(InjectError::InjectionFailure { injected: 0 }));
    assert!(t.injected.is_empty());
    assert_eq!(t.closes, 1);
}

#[test]
fn message_ending_in_carriage_return_is_not_extended() {
    let t = run(b"/dev/pts/3", b"pwd\r", true, true, None).unwrap();
    assert_eq!(t.injected, b"pwd\r".to_vec());
}

#[test]
fn message_ending_in_zero_byte_still_gets_carriage_return() {
    let t = run(b"/dev/pts/3", b"ab\0", true, true, None).unwrap();
    assert_eq!(t.injected, b"ab\0\r".to_vec());
}

#[test]
fn invalid_paths_are_refused() {
    assert_eq!(Injection::new(Vec::new(), b"ls".to_vec(), false).err(), Some(InjectError::InvalidInput));
    assert_eq!(Injection::new(vec![0u8], b"ls".to_vec(), false).err(), Some(InjectError::InvalidInput));
    assert_eq!(Injection::new(b"/dev\0/pts/1".to_vec(), b"ls".to_vec(), false).err(), Some(InjectError::InvalidInput));
    assert_eq!(Injection::new(b"/dev/pts/1\0\0".to_vec(), b"ls".to_vec(), false).err(), Some(InjectError::InvalidInput));
    assert!(Injection::new(b"/dev/pts/1\0".to_vec(), Vec::new(), false).is_ok());
}

#[test]
fn path_validity() {
    assert!(is_valid_path(&b"/dev/pts/7".to_vec()));
    assert!(is_valid_path(&b"/dev/pts/7\0".to_vec()));
    assert!(!is_valid_path(&Vec::new()));
    assert!(!is_valid_path(&vec![0u8]));
    assert!(!is_valid_path(&b"a\0b".to_vec()));
}

#[test]
fn normalizing_appends_one_terminator_once() {
    let once = normalize_path(b"/dev/pts/5".to_vec());
    assert_eq!(once, b"/dev/pts/5\0".to_vec());
    let twice = normalize_path(once.clone());
    assert_eq!(twice, once);
    assert_eq!(normalize_path(Vec::new()), vec![0u8]);
}

#[test]
fn preparing_the_payload() {
    assert_eq!(prepare_payload(b"echo hi".to_vec(), true), b"echo hi\r".to_vec());
    assert_eq!(prepare_payload(b"echo hi".to_vec(), false), b"echo hi".to_vec());
    assert_eq!(prepare_payload(b"echo hi\r".to_vec(), true), b"echo hi\r".to_vec());
    assert_eq!(prepare_payload(Vec::new(), true), vec![13u8]);
    assert_eq!(prepare_payload(Vec::new(), false), Vec::<u8>::new());
}

#[test]
fn events_out_of_turn_are_not_accepted() {
    let inj = Injection::new(b"/dev/pts/4".to_vec(), b"x".to_vec(), false).unwrap();
    assert!(inj.accepts(Event::Begin));
    assert!(!inj.accepts(Event::Opened));
    assert!(!inj.accepts(Event::Closed));
}
