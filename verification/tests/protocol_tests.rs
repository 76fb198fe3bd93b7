use async_demo::protocol::{connect_delay_ms, echo_reply, is_greeting, read_window, write_frame, IO_BUFFER_LEN};

#[test]
fn greeting_is_welcomed() {
    assert_eq!(echo_reply(b"hello\r\n"), b"hi!\r\n".to_vec());
}

#[test]
fn other_messages_are_questioned() {
    assert_eq!(echo_reply(b"gogogo"), b"who are you?\r\n".to_vec());
    assert_eq!(echo_reply(b"rust"), b"who are you?\r\n".to_vec());
    assert_eq!(echo_reply(b""), b"who are you?\r\n".to_vec());
    assert_eq!(echo_reply(b"hello"), b"who are you?\r\n".to_vec());
    assert_eq!(echo_reply(b"hello\r\n\r\n"), b"who are you?\r\n".to_vec());
    assert_eq!(echo_reply(b"Hello\r\n"), b"who are you?\r\n".to_vec());
}

#[test]
fn greeting_is_recognised_exactly() {
    assert!(is_greeting(b"hello\r\n"));
    assert!(!is_greeting(b"hello\n"));
    assert!(!is_greeting(b"hellO\r\n"));
    assert!(!is_greeting(b""));
}

#[test]
fn frame_pads_message_with_zeros() {
    let frame = write_frame(b"hi!\r\n");
    assert_eq!(frame.len(), IO_BUFFER_LEN);
    assert_eq!(&frame[..5], b"hi!\r\n");
    assert!(frame[5..].iter().all(|b| *b == 0));
}

#[test]
fn frame_of_full_message_is_the_message() {
    let message: Vec<u8> = (0..IO_BUFFER_LEN).map(|i| (i % 251) as u8 + 1).collect();
    assert_eq!(write_frame(&message), message);
}

#[test]
fn frame_of_empty_message_is_all_zeros() {
    assert_eq!(write_frame(b""), vec![0u8; IO_BUFFER_LEN]);
}

#[test]
fn read_window_takes_prefix() {
    let mut read_buffer = vec![0u8; IO_BUFFER_LEN];
    read_buffer[..7].copy_from_slice(b"hello\r\n");
    let window = read_window(&read_buffer, 512);
    assert_eq!(window.len(), 512);
    assert_eq!(&window[..7], b"hello\r\n");
    assert!(window[7..].iter().all(|b| *b == 0));
    assert_eq!(read_window(b"abc", 2), b"ab".to_vec());
    assert_eq!(read_window(b"abc", 0), Vec::<u8>::new());
}

#[test]
fn client_delays_shrink_with_index() {
    assert_eq!(connect_delay_ms(0), 100);
    assert_eq!(connect_delay_ms(1), 80);
    assert_eq!(connect_delay_ms(2), 60);
    assert_eq!(connect_delay_ms(5), 0);
}
