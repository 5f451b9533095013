use rulebook::adapter::{read_log, read_text, AdapterError, IoParams, DEFAULT_INPUT_CAP};
use rulebook::session::Config;

fn memory_with(at: usize, words: [u32; 4], size: usize) -> Vec<u8> {
    let mut memory = vec![0xAAu8; size];
    for (i, word) in words.iter().enumerate() {
        memory[at + 4 * i..at + 4 * i + 4].copy_from_slice(&word.to_le_bytes());
    }
    memory
}

#[test]
fn default_input_cap_is_16_kib() {
    assert_eq!(DEFAULT_INPUT_CAP, 16 * 1024);
}

#[test]
fn params_are_four_little_endian_words() {
    let memory = memory_with(8, [0x0102_0304, 16384, 0xFFFF_FFFF, 7], 64);
    assert_eq!(
        IoParams::read(&memory, 8),
        Ok(IoParams::new(0x0102_0304, 16384, 0xFFFF_FFFF, 7))
    );
    let bytes = [0xA1, 0xA0, 0x09, 0x08, 1, 0, 0, 0, 0, 1, 0, 0, 0, 0, 0, 1];
    assert_eq!(IoParams::read(&bytes, 0), Ok(IoParams::new(0x0809_A0A1, 1, 256, 0x0100_0000)));
}

#[test]
fn params_outside_the_memory_are_refused() {
    let memory = vec![0u8; 32];
    assert!(IoParams::read(&memory, 16).is_ok());
    assert_eq!(IoParams::read(&memory, 17), Err(AdapterError::OutOfBounds));
    assert_eq!(IoParams::read(&memory, 32), Err(AdapterError::OutOfBounds));
    assert_eq!(IoParams::read(&memory, u32::MAX), Err(AdapterError::OutOfBounds));
    assert_eq!(IoParams::read(&memory[..15], 0), Err(AdapterError::OutOfBounds));
    assert_eq!(IoParams::read(&[], 0), Err(AdapterError::OutOfBounds));
}

#[test]
fn request_is_read_from_the_guest_memory() {
    let mut memory = vec![0u8; 64];
    let request = "{\"type\":\"sessionStart\"}";
    memory[20..20 + request.len()].copy_from_slice(request.as_bytes());
    let params = IoParams::new(0, 16, 20, request.len() as u32);
    assert_eq!(params.request(&memory), Ok(request));
    assert_eq!(IoParams::new(0, 16, 64, 0).request(&memory), Ok(""));
}

#[test]
fn request_outside_the_memory_is_refused() {
    let memory = vec![b'x'; 64];
    assert_eq!(IoParams::new(0, 16, 60, 5).request(&memory), Err(AdapterError::OutOfBounds));
    assert_eq!(IoParams::new(0, 16, 65, 0).request(&memory), Err(AdapterError::OutOfBounds));
    assert_eq!(
        IoParams::new(0, 16, u32::MAX, u32::MAX).request(&memory),
        Err(AdapterError::OutOfBounds)
    );
    assert_eq!(IoParams::new(0, 16, 60, 4).request(&memory), Ok("xxxx"));
}

#[test]
fn request_that_is_no_text_is_refused() {
    let memory = vec![0xFFu8, 0xFE, b'a'];
    assert_eq!(read_text(&memory, 0, 2), Err(AdapterError::NotText));
    assert_eq!(read_text(&memory, 2, 1), Ok("a"));
    let euro = "€".as_bytes();
    assert_eq!(read_text(euro, 0, 3), Ok("€"));
    assert_eq!(read_text(euro, 0, 2), Err(AdapterError::NotText));
}

#[test]
fn oversize_reply() {
    let params = IoParams::new(0, 16, 32, 0);
    let reply = "x".repeat(100);
    assert_eq!(params.place(65536, &reply), Err(AdapterError::ReplyTooLong));
    assert_eq!(params.place(65536, &"x".repeat(17)), Err(AdapterError::ReplyTooLong));
    assert_eq!(params.place(65536, &"x".repeat(16)), Ok(16));
}

#[test]
fn reply_length_counts_bytes() {
    let params = IoParams::new(10, 3, 0, 0);
    assert_eq!(params.place(64, "€"), Ok(3));
    assert_eq!(params.place(64, "€a"), Err(AdapterError::ReplyTooLong));
    assert_eq!(params.place(64, ""), Ok(0));
}

#[test]
fn reply_outside_the_memory_is_refused() {
    let params = IoParams::new(60, 16, 0, 0);
    assert_eq!(params.place(64, "12345"), Err(AdapterError::OutOfBounds));
    assert_eq!(params.place(64, "1234"), Ok(4));
    assert_eq!(IoParams::new(65, 16, 0, 0).place(64, ""), Err(AdapterError::OutOfBounds));
    assert_eq!(IoParams::new(64, 16, 0, 0).place(64, ""), Ok(0));
}

#[test]
fn log_lines_are_read_only_where_logging_is_on() {
    let memory = b"hello\xFF".to_vec();
    let off = Config { enable_state: false, enable_logging: false };
    let on = Config { enable_state: false, enable_logging: true };
    assert_eq!(read_log(&off, &memory, 0, 5), Ok(None));
    assert_eq!(read_log(&off, &memory, 100, 5), Ok(None));
    assert_eq!(read_log(&on, &memory, 0, 5), Ok(Some("hello")));
    assert_eq!(read_log(&on, &memory, 0, 6), Err(AdapterError::NotText));
    assert_eq!(read_log(&on, &memory, 100, 5), Err(AdapterError::OutOfBounds));
}
