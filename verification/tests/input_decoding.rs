use tview::input::{Event, Parser};

fn decode(bytes: &[u8]) -> Vec<Event> {
    let mut p = Parser::new();
    p.push(bytes);
    p.drain()
}

#[test]
fn plain_text_is_bytes() {
    assert_eq!(decode(b"ab"), vec![Event::Byte(b'a'), Event::Byte(b'b')]);
}

#[test]
fn control_bytes_pass_through() {
    assert_eq!(decode(&[0x03, 0x7f, 0x0d]), vec![Event::Byte(0x03), Event::Byte(0x7f), Event::Byte(0x0d)]);
}

#[test]
fn csi_arrows_and_keys() {
    assert_eq!(decode(b"\x1b[A\x1b[B\x1b[C\x1b[D"), vec![Event::Up, Event::Down, Event::Right, Event::Left]);
    assert_eq!(decode(b"\x1b[H\x1b[F\x1b[Z"), vec![Event::Home, Event::End, Event::BackTab]);
    assert_eq!(decode(b"\x1b[5~\x1b[6~"), vec![Event::PageUp, Event::PageDown]);
    assert_eq!(decode(b"\x1b[1~\x1b[4~\x1b[2~\x1b[3~"), vec![Event::Home, Event::End, Event::Insert, Event::Delete]);
    assert_eq!(decode(b"\x1b[11~\x1b[17~\x1b[24~"), vec![Event::F(1), Event::F(6), Event::F(12)]);
}

#[test]
fn csi_parameters_are_trimmed() {
    assert_eq!(decode(b"\x1b[ 5 ~"), vec![Event::PageUp]);
    assert_eq!(decode(b"\x1b[1;5A"), vec![Event::Up]);
}

#[test]
fn unknown_csi_is_dropped() {
    assert_eq!(decode(b"\x1b[99~x"), vec![Event::Drop, Event::Byte(b'x')]);
    assert_eq!(decode(b"\x1b[?1049h"), vec![Event::Drop]);
}

#[test]
fn ss3_keys() {
    assert_eq!(decode(b"\x1bOA\x1bOP\x1bOS"), vec![Event::Up, Event::F(1), Event::F(4)]);
}

#[test]
fn unknown_ss3_is_dropped() {
    let mut p = Parser::new();
    p.push(b"\x1bOxa");
    assert_eq!(p.drain(), vec![Event::Drop, Event::Byte(b'a')]);
    assert!(p.pending.is_empty());
}

#[test]
fn alt_chords() {
    assert_eq!(decode(b"\x1b\t"), vec![Event::AltTab]);
    assert_eq!(decode(b"\x1bc"), vec![Event::AltByte(b'c')]);
    assert_eq!(decode(b"\x1b\r"), vec![Event::AltByte(0x0d)]);
}

#[test]
fn sgr_mouse_reports() {
    assert_eq!(decode(b"\x1b[<0;10;5M"), vec![Event::MousePress { col: 9, row: 4 }]);
    assert_eq!(decode(b"\x1b[<0;10;5m"), vec![Event::MouseRelease { col: 9, row: 4 }]);
    assert_eq!(decode(b"\x1b[<3;1;1M"), vec![Event::MouseRelease { col: 0, row: 0 }]);
    assert_eq!(decode(b"\x1b[<32;3;4M"), vec![Event::MouseDrag { col: 2, row: 3 }]);
    assert_eq!(decode(b"\x1b[<64;1;1M"), vec![Event::WheelUp { col: 0, row: 0 }]);
    assert_eq!(decode(b"\x1b[<65;2;2M"), vec![Event::WheelDown { col: 1, row: 1 }]);
}

#[test]
fn mouse_coordinate_zero_wraps() {
    assert_eq!(decode(b"\x1b[<0;0;1M"), vec![Event::MousePress { col: 65535, row: 0 }]);
}

#[test]
fn malformed_mouse_report_is_dropped() {
    assert_eq!(decode(b"\x1b[<0;1M"), vec![Event::Drop]);
    assert_eq!(decode(b"\x1b[<0;;1M"), vec![Event::Drop]);
    // A letter ends the sequence early: what follows is plain input.
    assert_eq!(
        decode(b"\x1b[<a;1M"),
        vec![Event::Drop, Event::Byte(b';'), Event::Byte(b'1'), Event::Byte(b'M')]
    );
}

#[test]
fn lone_escape_needs_two_drains() {
    let mut p = Parser::new();
    p.push(b"\x1b");
    assert_eq!(p.drain(), vec![]);
    assert!(p.lone_esc);
    assert_eq!(p.drain(), vec![Event::Esc]);
    assert!(!p.lone_esc);
    assert!(p.pending.is_empty());
}

#[test]
fn bytes_after_lone_escape_complete_the_sequence() {
    let mut p = Parser::new();
    p.push(b"\x1b");
    assert_eq!(p.drain(), vec![]);
    p.push(b"[A");
    assert!(!p.lone_esc);
    assert_eq!(p.drain(), vec![Event::Up]);
}

#[test]
fn split_sequence_decodes_once_complete() {
    let mut p = Parser::new();
    p.push(b"x\x1b[1;");
    assert_eq!(p.drain(), vec![Event::Byte(b'x')]);
    assert_eq!(p.pending, b"\x1b[1;".to_vec());
    p.push(b"5B");
    assert_eq!(p.drain(), vec![Event::Down]);
    assert!(p.pending.is_empty());
}

#[test]
fn utf8_waits_for_whole_character() {
    let mut p = Parser::new();
    p.push(&[0xe2, 0x82]);
    assert_eq!(p.drain(), vec![]);
    p.push(&[0xac]);
    assert_eq!(p.drain(), vec![Event::Byte(0xe2), Event::Byte(0x82), Event::Byte(0xac)]);
    assert_eq!(decode("é".as_bytes()), vec![Event::Byte(0xc3), Event::Byte(0xa9)]);
}

#[test]
fn incremental_equals_whole() {
    let whole = b"hi\x1b[<0;4;2M\x1bOB\xc3\xa9\x1b[6~";
    let all = decode(whole);
    for cut in 0..whole.len() {
        let mut p = Parser::new();
        p.push(&whole[..cut]);
        let mut got = p.drain();
        p.push(&whole[cut..]);
        got.extend(p.drain());
        assert_eq!(got, all, "cut at {}", cut);
    }
}
