use batrs::telnet_buffer::{process_input_data, TelnetBuffer, TelnetInput, TELNET_GA};

#[test]
fn crlf_delimited_input_yields_expected_lines() {
    let mut buffer = TelnetBuffer::new();
    let lines = buffer.handle_event(&TelnetInput::Data(b"first line\r\nsecond line\r\n".to_vec()));
    assert_eq!(lines, vec!["first line".to_string(), "second line".to_string()]);
}

#[test]
fn ga_flushes_buffered_bytes_without_trailing_crlf() {
    let mut buffer = TelnetBuffer::new();
    assert!(buffer.handle_event(&TelnetInput::Data(b"buffered line".to_vec())).is_empty());
    let lines = buffer.handle_event(&TelnetInput::Command(TELNET_GA));
    assert_eq!(lines, vec!["buffered line".to_string()]);
}

#[test]
fn invalid_utf8_line_is_skipped_without_panic() {
    let mut buffer = TelnetBuffer::new();
    let lines = buffer.handle_event(&TelnetInput::Data(b"valid\r\n\xff\r\nalso valid\r\n".to_vec()));
    assert_eq!(lines, vec!["valid".to_string(), "also valid".to_string()]);
}

#[test]
fn go_ahead_code_is_the_telnet_one() {
    assert_eq!(TELNET_GA, libmudtelnet::telnet::op_command::GA);
}

#[test]
fn partial_data_waits_for_line_end() {
    let mut buffer = TelnetBuffer::new();
    assert!(buffer.handle_event(&TelnetInput::Data(b"Hel".to_vec())).is_empty());
    assert!(buffer.handle_event(&TelnetInput::Other).is_empty());
    assert!(buffer.handle_event(&TelnetInput::Command(241)).is_empty());
    let lines = buffer.handle_event(&TelnetInput::Data(b"lo\r\n".to_vec()));
    assert_eq!(lines, vec!["Hello".to_string()]);
    assert!(buffer.handle_event(&TelnetInput::Command(TELNET_GA)).is_empty());
}

#[test]
fn lines_keep_a_lone_carriage_return_at_the_end() {
    assert_eq!(process_input_data(b"a\nb\r"), vec!["a".to_string(), "b\r".to_string()]);
    assert_eq!(process_input_data(b"\r\n\n"), vec![String::new(), String::new()]);
    assert!(process_input_data(b"").is_empty());
}
