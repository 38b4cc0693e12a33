use pipe_console::command::{classify, Command};
use pipe_console::pipe::{scratch, BytePipe, PIPE_CAPACITY};
use pipe_console::text::frame_line;

fn drain(pipe: &mut BytePipe, room: usize) -> Vec<u8> {
    let mut buf = vec![0u8; room];
    let n = pipe.try_read(&mut buf);
    buf.truncate(n);
    buf
}

#[test]
fn new_pipe_is_empty() {
    let mut pipe = BytePipe::new();
    assert_eq!(pipe.len(), 0);
    let mut buf = vec![7u8; 4];
    assert_eq!(pipe.try_read(&mut buf), 0);
    assert_eq!(buf, vec![7u8; 4]);
}

#[test]
fn capacity_is_ten() {
    assert_eq!(PIPE_CAPACITY, 10);
}

#[test]
fn scratch_is_zeroed() {
    assert_eq!(scratch(0), Vec::<u8>::new());
    assert_eq!(scratch(3), vec![0u8, 0, 0]);
    assert_eq!(scratch(32).len(), 32);
}

#[test]
fn reads_reconstruct_writes_in_order() {
    let mut pipe = BytePipe::new();
    assert!(pipe.write(b"abc"));
    assert!(pipe.write(b"defg"));
    assert_eq!(pipe.len(), 7);
    let mut seen = Vec::new();
    seen.extend(drain(&mut pipe, 2));
    assert_eq!(seen, b"ab".to_vec());
    seen.extend(drain(&mut pipe, 3));
    assert_eq!(seen, b"abcde".to_vec());
    seen.extend(drain(&mut pipe, 5));
    assert_eq!(seen, b"abcdefg".to_vec());
    assert_eq!(pipe.len(), 0);
}

#[test]
fn read_keeps_the_rest_of_the_buffer() {
    let mut pipe = BytePipe::new();
    assert!(pipe.write(b"xy"));
    let mut buf = vec![9u8; 5];
    assert_eq!(pipe.try_read(&mut buf), 2);
    assert_eq!(buf, vec![b'x', b'y', 9, 9, 9]);
}

#[test]
fn fifo_holds_across_the_ring_boundary() {
    let mut pipe = BytePipe::new();
    assert!(pipe.write(b"0123456789"));
    assert_eq!(drain(&mut pipe, 6), b"012345".to_vec());
    assert!(pipe.write(b"abcdef"));
    assert_eq!(pipe.len(), 10);
    assert_eq!(drain(&mut pipe, 32), b"6789abcdef".to_vec());
    assert_eq!(pipe.len(), 0);
}

#[test]
fn write_without_room_enqueues_nothing() {
    let mut pipe = BytePipe::new();
    assert!(pipe.write(b"12345678"));
    assert!(!pipe.write(b"abc"));
    assert_eq!(pipe.len(), 8);
    assert_eq!(drain(&mut pipe, 1), b"1".to_vec());
    assert!(pipe.write(b"abc"));
    assert_eq!(drain(&mut pipe, 32), b"2345678abc".to_vec());
}

#[test]
fn write_larger_than_capacity_is_refused() {
    let mut pipe = BytePipe::new();
    assert!(!pipe.write(b"0123456789a"));
    assert_eq!(pipe.len(), 0);
}

#[test]
fn empty_write_always_goes_through() {
    let mut pipe = BytePipe::new();
    assert!(pipe.write(b"0123456789"));
    assert!(pipe.write(b""));
    assert_eq!(pipe.len(), 10);
}

#[test]
fn write_some_takes_what_fits() {
    let mut pipe = BytePipe::new();
    assert_eq!(pipe.write_some(b"abcdefgh"), 8);
    assert_eq!(pipe.write_some(b"ijklm"), 2);
    assert_eq!(pipe.write_some(b"klm"), 0);
    assert_eq!(drain(&mut pipe, 4), b"abcd".to_vec());
    assert_eq!(pipe.write_some(b"klm"), 3);
    assert_eq!(drain(&mut pipe, 32), b"efghijklm".to_vec());
}

#[test]
fn press_message_round_trip() {
    let mut pipe = BytePipe::new();
    assert!(pipe.write(b"pressed!\r\n"));
    let mut buf = vec![0u8; 32];
    let n = pipe.try_read(&mut buf);
    assert_eq!(n, 10);
    assert_eq!(&buf[..n], b"pressed!\r\n");
    let line = frame_line(&buf[..n]).unwrap();
    match classify(line) {
        Command::Literal(text) => assert_eq!(text.as_str(), "pressed!\r\n"),
        _ => panic!("expected a literal"),
    }
}
