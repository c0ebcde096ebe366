use uart_driver::console::{echo, BACKSPACE, CARRIAGE_RETURN, LINE_FEED, SPACE};

#[test]
fn the_control_characters() {
    assert_eq!(BACKSPACE, 8);
    assert_eq!(LINE_FEED, 10);
    assert_eq!(CARRIAGE_RETURN, 13);
    assert_eq!(SPACE, b' ');
}

#[test]
fn a_backspace_rubs_out() {
    assert_eq!(echo(8), vec![8, b' ', 8]);
}

#[test]
fn a_line_feed_or_carriage_return_starts_a_new_line() {
    assert_eq!(echo(10), b"\r\n".to_vec());
    assert_eq!(echo(13), b"\r\n".to_vec());
}

#[test]
fn an_ascii_byte_comes_back_as_it_is() {
    assert_eq!(echo(b'a'), vec![b'a']);
    assert_eq!(echo(0), vec![0]);
    assert_eq!(echo(9), vec![9]);
    assert_eq!(echo(0x7f), vec![0x7f]);
}

#[test]
fn a_byte_above_ascii_comes_back_as_two_bytes() {
    assert_eq!(echo(0x80), vec![0xc2, 0x80]);
    assert_eq!(echo(0xe9), vec![0xc3, 0xa9]);
    assert_eq!(echo(0xff), vec![0xc3, 0xbf]);
}

#[test]
fn every_other_byte_comes_back_as_the_utf8_of_its_character() {
    for byte in 0..=255u8 {
        if byte == 8 || byte == 10 || byte == 13 {
            continue;
        }
        assert_eq!(echo(byte), char::from(byte).to_string().into_bytes());
    }
}
