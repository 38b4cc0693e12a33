use pipe_console::command::DisplayAction;
use pipe_console::display::{display_cycle, CycleOutcome};
use pipe_console::edge::{notification, on_edge, EdgeOutcome, Level};
use pipe_console::led::{LedFlag, LedStep, IDLE_MS, SETTLE_MS};
use pipe_console::pipe::BytePipe;
use pipe_console::serial::{rx_step, tx_step, RxOutcome, RX_BUFFER, TX_CHUNK};
use pipe_console::text::FrameError;

fn drain(pipe: &mut BytePipe) -> Vec<u8> {
    let mut buf = vec![0u8; 32];
    let n = pipe.try_read(&mut buf);
    buf.truncate(n);
    buf
}

#[test]
fn only_falling_edges_notify() {
    assert_eq!(notification(Level::High), None);
    assert_eq!(notification(Level::Low), Some(&b"pressed!\r\n"[..]));
}

#[test]
fn high_low_high_low_emits_two_messages() {
    let mut pipe = BytePipe::new();
    let mut sent = Vec::new();
    let mut count = 0;
    for level in [Level::High, Level::Low, Level::High, Level::Low] {
        match on_edge(level, &mut pipe) {
            EdgeOutcome::Sent => {
                count += 1;
                assert_eq!(level, Level::Low);
            }
            EdgeOutcome::Quiet => assert_eq!(level, Level::High),
            EdgeOutcome::Blocked => panic!("pipe was drained"),
        }
        sent.extend(drain(&mut pipe));
    }
    assert_eq!(count, 2);
    assert_eq!(sent, b"pressed!\r\npressed!\r\n".to_vec());
}

#[test]
fn press_waits_for_room() {
    let mut pipe = BytePipe::new();
    assert_eq!(on_edge(Level::Low, &mut pipe), EdgeOutcome::Sent);
    assert_eq!(on_edge(Level::Low, &mut pipe), EdgeOutcome::Blocked);
    assert_eq!(pipe.len(), 10);
    assert_eq!(on_edge(Level::High, &mut pipe), EdgeOutcome::Quiet);
    assert_eq!(drain(&mut pipe), b"pressed!\r\n".to_vec());
    assert_eq!(on_edge(Level::Low, &mut pipe), EdgeOutcome::Sent);
}

#[test]
fn two_requests_give_one_toggle() {
    let mut flag = LedFlag::new();
    flag.request();
    flag.request();
    assert!(flag.is_pending());
    assert_eq!(flag.poll(), LedStep { toggle: true, wait_ms: 50 });
    assert!(!flag.is_pending());
    assert_eq!(flag.poll(), LedStep { toggle: false, wait_ms: 10 });
    assert_eq!(flag.poll(), LedStep { toggle: false, wait_ms: 10 });
}

#[test]
fn poll_delays() {
    assert_eq!(SETTLE_MS, 50);
    assert_eq!(IDLE_MS, 10);
    let mut flag = LedFlag::from_bool(true);
    assert_eq!(flag.poll().wait_ms, SETTLE_MS);
    assert_eq!(flag.poll().wait_ms, IDLE_MS);
}

#[test]
fn two_toggle_lines_before_a_poll_toggle_once() {
    let mut pipe = BytePipe::new();
    let mut flag = LedFlag::new();
    assert!(pipe.write(b"toggle\n"));
    assert!(matches!(
        display_cycle(&mut pipe, &mut flag),
        CycleOutcome::Act(DisplayAction::Nothing)
    ));
    assert!(pipe.write(b"toggle\n"));
    assert!(matches!(
        display_cycle(&mut pipe, &mut flag),
        CycleOutcome::Act(DisplayAction::Nothing)
    ));
    let mut toggles = 0;
    for _ in 0..5 {
        if flag.poll().toggle {
            toggles += 1;
        }
    }
    assert_eq!(toggles, 1);
}

#[test]
fn cycle_on_empty_pipe_idles() {
    let mut pipe = BytePipe::new();
    let mut flag = LedFlag::new();
    assert!(matches!(display_cycle(&mut pipe, &mut flag), CycleOutcome::Idle));
    assert!(!flag.is_pending());
}

#[test]
fn cycle_renders_a_press() {
    let mut pipe = BytePipe::new();
    let mut flag = LedFlag::new();
    assert_eq!(on_edge(Level::Low, &mut pipe), EdgeOutcome::Sent);
    match display_cycle(&mut pipe, &mut flag) {
        CycleOutcome::Act(DisplayAction::Write(text)) => assert_eq!(text.as_str(), "pressed!\r\n"),
        _ => panic!("expected a write"),
    }
    assert_eq!(pipe.len(), 0);
    assert!(!flag.is_pending());
}

#[test]
fn cycle_merges_two_writes_into_one_line() {
    let mut pipe = BytePipe::new();
    let mut flag = LedFlag::new();
    assert!(pipe.write(b"cle"));
    assert!(pipe.write(b"ar"));
    assert!(matches!(
        display_cycle(&mut pipe, &mut flag),
        CycleOutcome::Act(DisplayAction::Clear)
    ));
    assert_eq!(pipe.len(), 0);
}

#[test]
fn cycle_reports_bad_text_and_goes_on() {
    let mut pipe = BytePipe::new();
    let mut flag = LedFlag::new();
    assert!(pipe.write(&[0xFF, b'a']));
    assert!(matches!(
        display_cycle(&mut pipe, &mut flag),
        CycleOutcome::Failed(FrameError::InvalidText)
    ));
    assert_eq!(pipe.len(), 0);
    assert!(pipe.write(b"ok"));
    match display_cycle(&mut pipe, &mut flag) {
        CycleOutcome::Act(DisplayAction::Write(text)) => assert_eq!(text.as_str(), "ok\n"),
        _ => panic!("expected a write"),
    }
}

#[test]
fn tx_takes_eight_bytes_at_a_time() {
    assert_eq!(TX_CHUNK, 8);
    let mut pipe = BytePipe::new();
    assert_eq!(tx_step(&mut pipe), Vec::<u8>::new());
    assert!(pipe.write(b"pressed!\r\n"));
    assert_eq!(tx_step(&mut pipe), b"pressed!".to_vec());
    assert_eq!(tx_step(&mut pipe), b"\r\n".to_vec());
    assert_eq!(tx_step(&mut pipe), Vec::<u8>::new());
}

#[test]
fn rx_rejects_bad_text() {
    let mut pipe = BytePipe::new();
    let mut received = [0u8; 32];
    received[0] = 0xFF;
    assert_eq!(rx_step(&received, 0, &mut pipe), RxOutcome::Rejected);
    assert_eq!(pipe.len(), 0);
}

#[test]
fn rx_forwards_every_byte_in_order() {
    assert_eq!(RX_BUFFER, 32);
    let mut pipe = BytePipe::new();
    let mut received = [0u8; 32];
    received[..12].copy_from_slice(b"hello world\n");
    let mut sent = 0;
    let mut seen = Vec::new();
    let mut steps = 0;
    while sent < received.len() {
        match rx_step(&received, sent, &mut pipe) {
            RxOutcome::Forwarded(next) => {
                assert!(next >= sent);
                sent = next;
            }
            RxOutcome::Rejected => panic!("text is valid"),
        }
        seen.extend(drain(&mut pipe));
        steps += 1;
    }
    assert_eq!(steps, 4);
    assert_eq!(seen, received.to_vec());
}

#[test]
fn rx_forwards_nothing_into_a_full_pipe() {
    let mut pipe = BytePipe::new();
    assert!(pipe.write(b"0123456789"));
    assert_eq!(rx_step(b"abc", 0, &mut pipe), RxOutcome::Forwarded(0));
    assert_eq!(rx_step(b"abc", 3, &mut pipe), RxOutcome::Forwarded(3));
    assert_eq!(drain(&mut pipe), b"0123456789".to_vec());
    assert_eq!(rx_step(b"abc", 1, &mut pipe), RxOutcome::Forwarded(3));
    assert_eq!(drain(&mut pipe), b"bc".to_vec());
}
